//! Records written out as CSV: a line of headers, then a line for each
//! record.

use crate::number::{is_number_char, is_number_text, lemma_number_chars};
use crate::price::{record_texts, PriceRecord, RecordText};
use vstd::prelude::*;

verus! {

/// A character that may stand in a field without quotes round the field.
pub open spec fn is_plain(c: char) -> bool {
    c != ',' && c != '"' && c != '\r' && c != '\n'
}

/// A field that is written as it is, without quotes.
pub open spec fn needs_no_quotes(field: Seq<char>) -> bool {
    forall|i: int| 0 <= i < field.len() ==> is_plain(#[trigger] field[i])
}

/// Four fields with commas between them and a line feed behind them.
pub open spec fn line_of(a: Seq<char>, b: Seq<char>, c: Seq<char>, d: Seq<char>) -> Seq<char> {
    a + seq![','] + b + seq![','] + c + seq![','] + d + seq!['\n']
}

/// The line of headers.
pub open spec fn header_line() -> Seq<char> {
    line_of("lz_houston"@, "lz_north"@, "lz_south"@, "lz_west"@)
}

/// The line of a record.
pub open spec fn record_line(record: RecordText) -> Seq<char> {
    line_of(record.lz_houston, record.lz_north, record.lz_south, record.lz_west)
}

/// The lines of the records, one after the other.
pub open spec fn record_lines(records: Seq<RecordText>) -> Seq<char>
    decreases records.len(),
{
    if records.len() == 0 {
        Seq::empty()
    } else {
        record_lines(records.drop_last()) + record_line(records.last())
    }
}

/// The CSV text of the records: the line of headers, which is always
/// there, and then their lines.
pub open spec fn csv_text(records: Seq<RecordText>) -> Seq<char> {
    header_line() + record_lines(records)
}

/// One record of four fields as CSV, by `csv::Writer::write_record` on a
/// writer that `csv::Writer::from_writer` makes over an empty vector, whose
/// bytes `into_inner` gives back. Trusted: where no field holds a comma, a
/// double quote, a carriage return or a line feed, the writer puts the
/// fields down as they are, with commas between them and a line feed at the
/// end; writing into a vector does not fail, and the bytes are UTF-8 as the
/// fields are.
#[verifier::external_body]
fn write_record(a: &str, b: &str, c: &str, d: &str) -> (line: Option<String>)
    requires
        needs_no_quotes(a@),
        needs_no_quotes(b@),
        needs_no_quotes(c@),
        needs_no_quotes(d@),
    ensures
        line.is_some(),
        line.unwrap()@ == line_of(a@, b@, c@, d@),
{
    let mut writer = csv::Writer::from_writer(Vec::new());
    writer.write_record([a, b, c, d]).ok()?;
    String::from_utf8(writer.into_inner().ok()?).ok()
}

/// The text of a number is written as it is, without quotes.
pub proof fn lemma_number_needs_no_quotes(s: Seq<char>)
    requires
        is_number_text(s),
    ensures
        needs_no_quotes(s),
{
    lemma_number_chars(s);
    assert forall|i: int| 0 <= i < s.len() implies is_plain(#[trigger] s[i]) by {
        assert(is_number_char(s[i]));
    }
}

/// The headers are written as they are, without quotes.
proof fn lemma_headers_need_no_quotes()
    ensures
        needs_no_quotes("lz_houston"@),
        needs_no_quotes("lz_north"@),
        needs_no_quotes("lz_south"@),
        needs_no_quotes("lz_west"@),
{
    reveal_strlit("lz_houston");
    reveal_strlit("lz_north");
    reveal_strlit("lz_south");
    reveal_strlit("lz_west");
}

/// Without records the CSV text is the line of headers and no more.
pub proof fn lemma_csv_of_nothing(records: Seq<RecordText>)
    requires
        records.len() == 0,
    ensures
        csv_text(records) == header_line(),
{
    assert(header_line() + Seq::<char>::empty() =~= header_line());
}

/// One record more puts its line behind the text.
pub proof fn lemma_csv_grows_by_a_line(records: Seq<RecordText>, record: RecordText)
    ensures
        csv_text(records.push(record)) == csv_text(records) + record_line(record),
{
    assert(records.push(record).drop_last() =~= records);
    assert(csv_text(records.push(record)) =~= csv_text(records) + record_line(record));
}

/// A text cut at a mark that stands in neither of its front parts is cut
/// in one way only.
proof fn lemma_one_cut(x: Seq<char>, rest: Seq<char>, y: Seq<char>, other: Seq<char>, mark: char)
    requires
        x + seq![mark] + rest == y + seq![mark] + other,
        forall|i: int| 0 <= i < x.len() ==> #[trigger] x[i] != mark,
        forall|i: int| 0 <= i < y.len() ==> #[trigger] y[i] != mark,
    ensures
        x == y,
        rest == other,
{
    let left = x + seq![mark] + rest;
    let right = y + seq![mark] + other;
    if x.len() < y.len() {
        assert(left[x.len() as int] == mark);
        assert(right[x.len() as int] == y[x.len() as int]);
    } else if y.len() < x.len() {
        assert(right[y.len() as int] == mark);
        assert(left[y.len() as int] == x[y.len() as int]);
    }
    assert(x =~= left.take(x.len() as int));
    assert(y =~= right.take(x.len() as int));
    assert(rest =~= left.skip(x.len() as int + 1));
    assert(other =~= right.skip(x.len() as int + 1));
}

/// A line gives its four fields back: two lines of fields that need no
/// quotes are the same line only where the fields are the same.
pub proof fn lemma_line_gives_fields_back(
    a: Seq<char>,
    b: Seq<char>,
    c: Seq<char>,
    d: Seq<char>,
    a2: Seq<char>,
    b2: Seq<char>,
    c2: Seq<char>,
    d2: Seq<char>,
)
    requires
        needs_no_quotes(a) && needs_no_quotes(b) && needs_no_quotes(c),
        needs_no_quotes(a2) && needs_no_quotes(b2) && needs_no_quotes(c2),
        line_of(a, b, c, d) == line_of(a2, b2, c2, d2),
    ensures
        a == a2 && b == b2 && c == c2 && d == d2,
{
    let comma = seq![','];
    let feed = seq!['\n'];
    let tail = c + comma + d + feed;
    let tail2 = c2 + comma + d2 + feed;
    let rest = b + comma + tail;
    let rest2 = b2 + comma + tail2;
    assert(line_of(a, b, c, d) =~= a + comma + rest);
    assert(line_of(a2, b2, c2, d2) =~= a2 + comma + rest2);
    assert forall|i: int| 0 <= i < a.len() implies #[trigger] a[i] != ',' by {
        assert(is_plain(a[i]));
    }
    assert forall|i: int| 0 <= i < a2.len() implies #[trigger] a2[i] != ',' by {
        assert(is_plain(a2[i]));
    }
    lemma_one_cut(a, rest, a2, rest2, ',');
    assert forall|i: int| 0 <= i < b.len() implies #[trigger] b[i] != ',' by {
        assert(is_plain(b[i]));
    }
    assert forall|i: int| 0 <= i < b2.len() implies #[trigger] b2[i] != ',' by {
        assert(is_plain(b2[i]));
    }
    lemma_one_cut(b, tail, b2, tail2, ',');
    assert forall|i: int| 0 <= i < c.len() implies #[trigger] c[i] != ',' by {
        assert(is_plain(c[i]));
    }
    assert forall|i: int| 0 <= i < c2.len() implies #[trigger] c2[i] != ',' by {
        assert(is_plain(c2[i]));
    }
    assert(tail =~= c + comma + (d + feed));
    assert(tail2 =~= c2 + comma + (d2 + feed));
    lemma_one_cut(c, d + feed, c2, d2 + feed, ',');
    assert(d =~= (d + feed).drop_last());
    assert(d2 =~= (d2 + feed).drop_last());
}

/// The CSV text of the records: a line of headers, then a line for each
/// record in their order, the four prices of a record in the order
/// Houston, North, South, West.
pub fn export_csv(data: &Vec<PriceRecord>) -> (text: String)
    ensures
        text@ == csv_text(record_texts(data@)),
{
    proof {
        lemma_headers_need_no_quotes();
    }
    let mut text = write_record("lz_houston", "lz_north", "lz_south", "lz_west").unwrap();
    let ghost all = record_texts(data@);
    let mut i: usize = 0;
    while i < data.len()
        invariant
            i <= data.len(),
            all == record_texts(data@),
            text@ == header_line() + record_lines(all.take(i as int)),
        decreases data.len() - i,
    {
        let record = &data[i];
        let houston = record.lz_houston.as_str();
        let north = record.lz_north.as_str();
        let south = record.lz_south.as_str();
        let west = record.lz_west.as_str();
        proof {
            lemma_number_needs_no_quotes(houston@);
            lemma_number_needs_no_quotes(north@);
            lemma_number_needs_no_quotes(south@);
            lemma_number_needs_no_quotes(west@);
        }
        let line = write_record(houston, north, south, west).unwrap();
        text.append(line.as_str());
        proof {
            let next = all.take(i + 1);
            assert(next.drop_last() == all.take(i as int));
            assert(next.last() == data@[i as int]@);
            assert(line@ == record_line(next.last()));
        }
        i += 1;
    }
    proof {
        assert(all.take(data@.len() as int) == all);
    }
    text
}

} // verus!
