use trip_page::record::{decode_rows, Cell, Column, DecodeError, FromRowError, RawRow, Trip};
use trip_page::text::trim_text;

fn found(text: &str) -> Cell<String> {
    Cell::Found(text.to_string())
}

fn elk_river(name: Option<&str>) -> RawRow {
    RawRow {
        id: Cell::Found(1),
        waterway: found("Elk River"),
        county: found("Franklin"),
        start: found("Bridge A"),
        finish: Cell::Found(None),
        name: Cell::Found(name.map(|n| n.to_string())),
    }
}

#[test]
fn null_name_gives_no_contributor() {
    let trip = Trip::from_row_opt(elk_river(None)).unwrap();
    assert_eq!(trip.contributor, None);
}

#[test]
fn name_is_trimmed_into_contributor() {
    let trip = Trip::from_row_opt(elk_river(Some("  Jane  "))).unwrap();
    assert_eq!(trip.contributor, Some("Jane".to_string()));
}

#[test]
fn decoding_keeps_the_other_columns_as_they_are() {
    let mut row = elk_river(Some(" Sam "));
    row.id = Cell::Found(4_000_000_000);
    row.waterway = found("  Elk River ");
    row.finish = Cell::Found(Some(" Dam \n".to_string()));
    let trip = Trip::from_row_opt(row).unwrap();
    assert_eq!(
        trip,
        Trip {
            id: 4_000_000_000,
            waterway: "  Elk River ".to_string(),
            county: "Franklin".to_string(),
            start: "Bridge A".to_string(),
            finish: Some(" Dam \n".to_string()),
            contributor: Some("Sam".to_string()),
        }
    );
}

#[test]
fn missing_county_is_a_decode_error() {
    let mut row = elk_river(Some("Jane"));
    row.county = Cell::Missing;
    assert_eq!(Trip::from_row_opt(row.clone()), Err(FromRowError { row, cause: DecodeError::Missing(Column::County) }));
}

#[test]
fn each_missing_column_is_reported() {
    let mut row = elk_river(None);
    row.id = Cell::Missing;
    assert_eq!(Trip::from_row_opt(row.clone()), Err(FromRowError { row, cause: DecodeError::Missing(Column::Id) }));
    let mut row = elk_river(None);
    row.waterway = Cell::Missing;
    assert_eq!(Trip::from_row_opt(row.clone()), Err(FromRowError { row, cause: DecodeError::Missing(Column::Waterway) }));
    let mut row = elk_river(None);
    row.start = Cell::Missing;
    assert_eq!(Trip::from_row_opt(row.clone()), Err(FromRowError { row, cause: DecodeError::Missing(Column::Start) }));
    let mut row = elk_river(None);
    row.finish = Cell::Missing;
    assert_eq!(Trip::from_row_opt(row.clone()), Err(FromRowError { row, cause: DecodeError::Missing(Column::Finish) }));
    let mut row = elk_river(None);
    row.name = Cell::Missing;
    assert_eq!(Trip::from_row_opt(row.clone()), Err(FromRowError { row, cause: DecodeError::Missing(Column::Name) }));
}

#[test]
fn incompatible_column_is_a_decode_error() {
    let mut row = elk_river(None);
    row.id = Cell::Incompatible;
    assert_eq!(Trip::from_row_opt(row.clone()), Err(FromRowError { row, cause: DecodeError::Incompatible(Column::Id) }));
    let mut row = elk_river(None);
    row.name = Cell::Incompatible;
    assert_eq!(Trip::from_row_opt(row.clone()), Err(FromRowError { row, cause: DecodeError::Incompatible(Column::Name) }));
}

#[test]
fn first_failing_column_in_reading_order_wins() {
    let mut row = elk_river(None);
    row.name = Cell::Missing;
    row.start = Cell::Incompatible;
    row.county = Cell::Missing;
    assert_eq!(Trip::from_row_opt(row.clone()), Err(FromRowError { row, cause: DecodeError::Missing(Column::County) }));
    let mut row = elk_river(None);
    row.finish = Cell::Missing;
    row.waterway = Cell::Incompatible;
    assert_eq!(Trip::from_row_opt(row.clone()), Err(FromRowError { row, cause: DecodeError::Incompatible(Column::Waterway) }));
}

#[test]
fn rows_decode_in_order() {
    let mut second = elk_river(Some("\tAnn"));
    second.id = Cell::Found(2);
    let trips = decode_rows(vec![elk_river(None), second]).unwrap();
    assert_eq!(trips.len(), 2);
    assert_eq!(trips[0].id, 1);
    assert_eq!(trips[1].id, 2);
    assert_eq!(trips[1].contributor, Some("Ann".to_string()));
}

#[test]
fn no_rows_decode_to_no_trips() {
    assert_eq!(decode_rows(Vec::new()), Ok(Vec::new()));
}

#[test]
fn first_bad_row_ends_the_decoding() {
    let mut second = elk_river(None);
    second.start = Cell::Incompatible;
    let mut third = elk_river(None);
    third.id = Cell::Missing;
    assert_eq!(
        decode_rows(vec![elk_river(None), second.clone(), third]),
        Err(FromRowError { row: second, cause: DecodeError::Incompatible(Column::Start) })
    );
}

#[test]
fn trim_removes_surrounding_white_space_only() {
    assert_eq!(trim_text("  Jane  "), "Jane");
    assert_eq!(trim_text("\n Hello\tworld\t\n"), "Hello\tworld");
    assert_eq!(trim_text("Jane"), "Jane");
    assert_eq!(trim_text(""), "");
    assert_eq!(trim_text(" \t\r\n"), "");
}

#[test]
fn trim_knows_the_white_space_beyond_ascii() {
    assert_eq!(trim_text("\u{3000}Jane\u{a0}"), "Jane");
    assert_eq!(trim_text("\u{85}\u{1680}\u{2000}\u{200a}\u{2028}\u{2029}\u{202f}\u{205f}x"), "x");
    assert_eq!(trim_text("\u{b}\u{c}x"), "x");
}

#[test]
fn trim_keeps_what_is_not_white_space() {
    assert_eq!(trim_text("\u{200b}x"), "\u{200b}x");
    assert_eq!(trim_text("\u{180e}x"), "\u{180e}x");
    assert_eq!(trim_text("\u{feff}x\u{8}"), "\u{feff}x\u{8}");
    assert_eq!(trim_text("\u{1c}x\u{1f}"), "\u{1c}x\u{1f}");
}

#[test]
fn columns_have_their_names() {
    assert_eq!(Column::Id.name(), "id");
    assert_eq!(Column::Waterway.name(), "waterway");
    assert_eq!(Column::County.name(), "county");
    assert_eq!(Column::Start.name(), "start");
    assert_eq!(Column::Finish.name(), "finish");
    assert_eq!(Column::Name.name(), "name");
}

#[test]
fn white_space_is_the_twenty_five_code_points() {
    let listed = |n: u32| {
        (0x09..=0x0D).contains(&n)
            || n == 0x20
            || n == 0x85
            || n == 0xA0
            || n == 0x1680
            || (0x2000..=0x200A).contains(&n)
            || n == 0x2028
            || n == 0x2029
            || n == 0x202F
            || n == 0x205F
            || n == 0x3000
    };
    let mut count = 0;
    for n in 0..=0x10FFFF_u32 {
        if let Some(c) = char::from_u32(n) {
            let padded = format!("{}x{}", c, c);
            let expected = if listed(n) { "x".to_string() } else { padded.clone() };
            assert_eq!(trim_text(&padded), expected, "code point {:#x}", n);
            if listed(n) {
                count += 1;
            }
        }
    }
    assert_eq!(count, 25);
}

#[test]
fn undecodable_row_comes_back_as_it_was() {
    let mut row = elk_river(Some("  Jane  "));
    row.waterway = found("  Elk River ");
    row.finish = Cell::Found(Some(" Dam ".to_string()));
    row.start = Cell::Incompatible;
    let error = Trip::from_row_opt(row.clone()).unwrap_err();
    assert_eq!(error.cause, DecodeError::Incompatible(Column::Start));
    assert_eq!(error.row, row);
    assert_eq!(error.row.name, Cell::Found(Some("  Jane  ".to_string())));
    let mut mended = error.row;
    mended.start = found("Bridge B");
    let trip = Trip::from_row_opt(mended).unwrap();
    assert_eq!(trip.start, "Bridge B");
    assert_eq!(trip.waterway, "  Elk River ");
    assert_eq!(trip.contributor, Some("Jane".to_string()));
}

#[test]
fn row_with_a_fault_in_its_last_column_comes_back_whole() {
    let mut row = elk_river(None);
    row.name = Cell::Missing;
    let error = Trip::from_row_opt(row.clone()).unwrap_err();
    assert_eq!(error, FromRowError { row, cause: DecodeError::Missing(Column::Name) });
}
