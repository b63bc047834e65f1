//! Prices and the record of the four zonal prices of one hour.

use crate::number::{all_digits, is_number, is_number_text, point_at};
use vstd::prelude::*;

verus! {

/// The text of the price of nothing.
pub open spec fn zero_text() -> Seq<char> {
    seq!['0', '.', '0']
}

/// A price, held as the text of the number that it is. The text always
/// denotes a number.
#[derive(Debug, PartialEq, Eq)]
pub struct Price {
    text: String,
}

impl View for Price {
    type V = Seq<char>;

    closed spec fn view(&self) -> Seq<char> {
        self.text@
    }
}

impl Clone for Price {
    fn clone(&self) -> (copy: Price)
        ensures
            copy@ == self@,
    {
        proof {
            use_type_invariant(self);
        }
        Price { text: self.text.clone() }
    }
}

impl Price {
    #[verifier::type_invariant]
    spec fn holds_number(self) -> bool {
        is_number_text(self.text@)
    }

    /// The price that `text` denotes, if it denotes a number.
    pub fn parse(text: &str) -> (price: Option<Price>)
        ensures
            match price {
                Some(p) => p@ == text@ && is_number_text(text@),
                None => !is_number_text(text@),
            },
    {
        if is_number(text) {
            Some(Price { text: String::from_str(text) })
        } else {
            None
        }
    }

    /// The price of nothing, which stands in for a price that the report
    /// does not give.
    pub fn zero() -> (price: Price)
        ensures
            price@ == zero_text(),
    {
        proof {
            reveal_strlit("0.0");
            lemma_zero_is_number();
            assert("0.0"@ == zero_text());
        }
        Price { text: String::from_str("0.0") }
    }

    /// The text of the price.
    pub fn as_str(&self) -> (text: &str)
        ensures
            text@ == self@,
            is_number_text(text@),
    {
        proof {
            use_type_invariant(self);
        }
        self.text.as_str()
    }
}

/// The text of the price of nothing denotes a number.
pub proof fn lemma_zero_is_number()
    ensures
        is_number_text(zero_text()),
{
    let s = zero_text();
    assert(s.take(1) == seq!['0']);
    assert(s.skip(2) == seq!['0']);
    assert(all_digits(s.take(1)));
    assert(all_digits(s.skip(2)));
    assert(point_at(s, 1));
}

/// The four zonal prices of one row of the report.
#[derive(Debug, PartialEq, Eq)]
pub struct PriceRecord {
    pub lz_houston: Price,
    pub lz_north: Price,
    pub lz_south: Price,
    pub lz_west: Price,
}

/// The texts of the four prices of a record.
pub struct RecordText {
    pub lz_houston: Seq<char>,
    pub lz_north: Seq<char>,
    pub lz_south: Seq<char>,
    pub lz_west: Seq<char>,
}

impl View for PriceRecord {
    type V = RecordText;

    open spec fn view(&self) -> RecordText {
        RecordText {
            lz_houston: self.lz_houston@,
            lz_north: self.lz_north@,
            lz_south: self.lz_south@,
            lz_west: self.lz_west@,
        }
    }
}

impl Clone for PriceRecord {
    fn clone(&self) -> (copy: PriceRecord)
        ensures
            copy@ == self@,
    {
        PriceRecord {
            lz_houston: self.lz_houston.clone(),
            lz_north: self.lz_north.clone(),
            lz_south: self.lz_south.clone(),
            lz_west: self.lz_west.clone(),
        }
    }
}

/// A record in one line, for a reader.
pub open spec fn description(record: RecordText) -> Seq<char> {
    "HOUSTON: "@ + record.lz_houston + "  NORTH: "@ + record.lz_north + " SOUTH: "@
        + record.lz_south + " WEST: "@ + record.lz_west
}

impl PriceRecord {
    /// The record in one line, for a reader.
    pub fn describe(&self) -> (line: String)
        ensures
            line@ == description(self@),
    {
        let mut line = String::from_str("HOUSTON: ");
        line.append(self.lz_houston.as_str());
        line.append("  NORTH: ");
        line.append(self.lz_north.as_str());
        line.append(" SOUTH: ");
        line.append(self.lz_south.as_str());
        line.append(" WEST: ");
        line.append(self.lz_west.as_str());
        line
    }
}

/// The texts of the records of `records`, in their order.
pub open spec fn record_texts(records: Seq<PriceRecord>) -> Seq<RecordText> {
    records.map_values(|r: PriceRecord| r@)
}

} // verus!
