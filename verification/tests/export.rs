use ercot_spp::export::export_csv;
use ercot_spp::price::{Price, PriceRecord};
use ercot_spp::table::parse_table;

fn record(houston: &str, north: &str, south: &str, west: &str) -> PriceRecord {
    PriceRecord {
        lz_houston: Price::parse(houston).unwrap(),
        lz_north: Price::parse(north).unwrap(),
        lz_south: Price::parse(south).unwrap(),
        lz_west: Price::parse(west).unwrap(),
    }
}

#[test]
fn no_records_give_the_header_line_alone() {
    assert_eq!(export_csv(&vec![]), "lz_houston,lz_north,lz_south,lz_west\n");
}

#[test]
fn a_record_gives_a_line() {
    let text = export_csv(&vec![record("12.5", "8", "9.25", "10")]);
    assert_eq!(text, "lz_houston,lz_north,lz_south,lz_west\n12.5,8,9.25,10\n");
}

#[test]
fn records_keep_their_order() {
    let text = export_csv(&vec![
        record("1", "2", "3", "4"),
        record("-5.5", "+6", "7e0", ".8"),
        record("inf", "NaN", "0.0", "-0"),
    ]);
    assert_eq!(
        text,
        "lz_houston,lz_north,lz_south,lz_west\n1,2,3,4\n-5.5,+6,7e0,.8\ninf,NaN,0.0,-0\n"
    );
}

#[test]
fn a_page_goes_round_to_the_same_numbers() {
    let html = String::from(
        "<table><tr><th>LZ_HOUSTON</th><th>LZ_NORTH</th><th>LZ_SOUTH</th><th>LZ_WEST</th></tr>\
         <tr><td>12.5</td><td>8.0</td><td>9.25</td><td>10.0</td></tr></table>",
    );
    let records = parse_table(html).unwrap();
    assert_eq!(records.len(), 1);
    let text = export_csv(&records);
    let lines: Vec<&str> = text.lines().collect();
    assert_eq!(lines.len(), 2);
    assert_eq!(lines[0], "lz_houston,lz_north,lz_south,lz_west");
    let numbers: Vec<f32> = lines[1].split(',').map(|field| field.parse().unwrap()).collect();
    assert_eq!(numbers, vec![12.5, 8.0, 9.25, 10.0]);
}

#[test]
fn an_empty_table_goes_round_to_the_header_line() {
    let html = String::from(
        "<table><tr><th>LZ_HOUSTON</th><th>LZ_NORTH</th><th>LZ_SOUTH</th><th>LZ_WEST</th></tr></table>",
    );
    let records = parse_table(html).unwrap();
    assert!(records.is_empty());
    assert_eq!(export_csv(&records), "lz_houston,lz_north,lz_south,lz_west\n");
}

#[test]
fn the_text_reads_back_as_csv() {
    let records = vec![record("12.5", "8.0", "9.25", "10.0"), record("1e3", "-2", "0.0", "nan")];
    let text = export_csv(&records);
    let mut reader = csv::Reader::from_reader(text.as_bytes());
    let headers: Vec<String> = reader.headers().unwrap().iter().map(String::from).collect();
    assert_eq!(headers, ["lz_houston", "lz_north", "lz_south", "lz_west"]);
    let rows: Vec<Vec<String>> = reader
        .records()
        .map(|row| row.unwrap().iter().map(String::from).collect())
        .collect();
    assert_eq!(rows.len(), 2);
    assert_eq!(rows[0], ["12.5", "8.0", "9.25", "10.0"]);
    assert_eq!(rows[1], ["1e3", "-2", "0.0", "nan"]);
}
