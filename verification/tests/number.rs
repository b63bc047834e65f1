use ercot_spp::number::is_number;
use ercot_spp::price::{Price, PriceRecord};

#[test]
fn plain_decimals_are_numbers() {
    for text in ["0", "7", "12.5", "8.0", "9.25", "10.0", "0.0", "007", "1.", ".5", "123456789.000"] {
        assert!(is_number(text), "{text}");
    }
}

#[test]
fn signs_and_exponents_are_numbers() {
    for text in ["-1", "+1", "-12.5", "+.5", "1e5", "1E5", "1e+5", "1e-5", "-1.5e-10", "1.e2", ".5E+07"] {
        assert!(is_number(text), "{text}");
    }
}

#[test]
fn words_are_numbers() {
    for text in ["inf", "-inf", "+inf", "INF", "Infinity", "-infinity", "nan", "NaN", "+NAN", "iNfInItY"] {
        assert!(is_number(text), "{text}");
    }
}

#[test]
fn other_texts_are_no_numbers() {
    for text in [
        "", "+", "-", ".", "-.", "e5", "1e", "1e+", "1e5.0", "1.2.3", "1,5", "N/A", "--1", "+-1",
        " 1", "1 ", "1_000", "0x10", "12.5 MWh", "$12.5", "infinit", "in", "nane", "1einf",
        "<b>12.5</b>", "١٢", "1e٥", "１",
    ] {
        assert!(!is_number(text), "{text}");
    }
}

#[test]
fn numbers_are_what_the_float_parser_takes() {
    let texts = [
        "", "0", "-0", "+0", "12.5", "8.0", "9.25", "10.0", "1.", ".5", ".", "+.", "1e5", "1E5",
        "1e", "e1", "1e+", "1e-", "1e+5", "1e-5", "1.5e3.0", "1..5", "inf", "-inf", "infinity",
        "INFINITY", "nan", "NaN", "-nan", "nane", "infi", "N/A", " 1", "1 ", "\t1", "1\n", "1_0",
        "0x1", "1f32", "++1", "1-", "1+1", "999999999999999999999999999999999999999999", "1e999",
        "0.000000000000000000000000000000000000000000000000000001", "12,5", "٣",
    ];
    for text in texts {
        assert_eq!(is_number(text), text.parse::<f32>().is_ok(), "{text:?}");
    }
}

#[test]
fn a_price_keeps_its_text() {
    let price = Price::parse("12.50").unwrap();
    assert_eq!(price.as_str(), "12.50");
    assert_eq!(price.as_str().parse::<f32>().unwrap(), 12.5);
    assert_eq!(price.clone(), price);
}

#[test]
fn a_price_is_a_number() {
    assert!(Price::parse("N/A").is_none());
    assert!(Price::parse("").is_none());
    assert!(Price::parse(" 12.5").is_none());
}

#[test]
fn the_price_of_nothing_is_zero() {
    assert_eq!(Price::zero().as_str(), "0.0");
    assert_eq!(Price::zero().as_str().parse::<f32>().unwrap(), 0.0);
    assert_eq!(Price::zero(), Price::parse("0.0").unwrap());
}

#[test]
fn a_record_is_described_in_one_line() {
    let record = PriceRecord {
        lz_houston: Price::parse("12.5").unwrap(),
        lz_north: Price::parse("8").unwrap(),
        lz_south: Price::parse("9.25").unwrap(),
        lz_west: Price::zero(),
    };
    assert_eq!(record.describe(), "HOUSTON: 12.5  NORTH: 8 SOUTH: 9.25 WEST: 0.0");
    assert_eq!(record.clone(), record);
}
