use airport_codes::record::{airports_from_rows, Airport, MIN_CELLS};
use airport_codes::text::{join_text, trim_text};

fn row(cells: &[&str]) -> Vec<String> {
    cells.iter().map(|cell| cell.to_string()).collect()
}

fn airport(name: &str, city: &str, iata_code: &str, icao_code: &str) -> Airport {
    Airport {
        name: name.to_string(),
        city: city.to_string(),
        iata_code: iata_code.to_string(),
        icao_code: icao_code.to_string(),
    }
}

#[test]
fn min_cells_is_four() {
    assert_eq!(MIN_CELLS, 4);
}

#[test]
fn from_cells_needs_four_cells() {
    assert_eq!(Airport::from_cells(&row(&[])), None);
    assert_eq!(Airport::from_cells(&row(&["a", "b", "c"])), None);
    assert_eq!(
        Airport::from_cells(&row(&[" a", "b ", " c ", "d"])),
        Some(airport("a", "b", "c", "d"))
    );
    assert_eq!(
        Airport::from_cells(&row(&["a", "b", "c", "d", "e"])),
        Some(airport("a", "b", "c", "d"))
    );
}

#[test]
fn from_cells_turns_blank_cells_into_empty_fields() {
    assert_eq!(
        Airport::from_cells(&row(&["  ", "\t\n", "", "\u{2003}"])),
        Some(airport("", "", "", ""))
    );
}

#[test]
fn rows_without_data_give_no_record() {
    assert_eq!(airports_from_rows(&[]), Vec::new());
    assert_eq!(airports_from_rows(&[row(&["a", "b", "c", "d"])]), Vec::new());
}

#[test]
fn all_full_rows_are_kept_in_order() {
    let rows = vec![
        row(&["h1", "h2", "h3", "h4"]),
        row(&["A", "a", "AAA", "ZAAA"]),
        row(&["B", "b", "BBB", "ZBBB"]),
        row(&["C", "c", "CCC", "ZCCC"]),
    ];
    let airports = airports_from_rows(&rows);
    assert_eq!(airports.len(), rows.len() - 1);
    assert_eq!(
        airports,
        vec![
            airport("A", "a", "AAA", "ZAAA"),
            airport("B", "b", "BBB", "ZBBB"),
            airport("C", "c", "CCC", "ZCCC"),
        ]
    );
}

#[test]
fn short_rows_change_nothing_around_them() {
    let with_short = vec![
        row(&["h"]),
        row(&["x"]),
        row(&["A", "a", "AAA", "ZAAA"]),
        row(&["x", "y", "z"]),
        row(&[]),
        row(&["B", "b", "BBB", "ZBBB"]),
        row(&["x", "y"]),
    ];
    let without_short = vec![
        row(&["h"]),
        row(&["A", "a", "AAA", "ZAAA"]),
        row(&["B", "b", "BBB", "ZBBB"]),
    ];
    let airports = airports_from_rows(&with_short);
    assert_eq!(airports, airports_from_rows(&without_short));
    assert_eq!(airports, vec![airport("A", "a", "AAA", "ZAAA"), airport("B", "b", "BBB", "ZBBB")]);
    assert_eq!(airports.len(), with_short.len() - 1 - 4);
}

#[test]
fn short_header_is_still_the_header() {
    let rows = vec![row(&[]), row(&["A", "a", "AAA", "ZAAA"])];
    assert_eq!(airports_from_rows(&rows), vec![airport("A", "a", "AAA", "ZAAA")]);
}

#[test]
fn trim_text_removes_outer_white_space_only() {
    assert_eq!(trim_text(" Beijing Capital "), "Beijing Capital");
    assert_eq!(trim_text("\n\t x  y \r\n"), "x  y");
    assert_eq!(trim_text("PEK"), "PEK");
    assert_eq!(trim_text(""), "");
    assert_eq!(trim_text(" \u{a0}\u{3000}\t"), "");
}

#[test]
fn join_text_keeps_every_node_in_order() {
    assert_eq!(join_text(&[]), "");
    assert_eq!(join_text(&["a"]), "a");
    assert_eq!(join_text(&["Bei", "", "jing ", " Capital"]), "Beijing  Capital");
}

#[test]
fn every_white_space_character_is_trimmed() {
    let white_space = [
        '\u{0009}', '\u{000A}', '\u{000B}', '\u{000C}', '\u{000D}', '\u{0020}', '\u{0085}',
        '\u{00A0}', '\u{1680}', '\u{2000}', '\u{2001}', '\u{2002}', '\u{2003}', '\u{2004}',
        '\u{2005}', '\u{2006}', '\u{2007}', '\u{2008}', '\u{2009}', '\u{200A}', '\u{2028}',
        '\u{2029}', '\u{202F}', '\u{205F}', '\u{3000}',
    ];
    assert_eq!(white_space.len(), 25);
    for c in white_space {
        assert_eq!(trim_text(&format!("{}PEK{}", c, c)), "PEK");
    }
}

#[test]
fn nothing_else_is_trimmed() {
    let kept = [
        '\u{0000}', '\u{0008}', '\u{000E}', '\u{001F}', '\u{0021}', '\u{0084}', '\u{0086}',
        '\u{009F}', '\u{00A1}', '\u{167F}', '\u{1681}', '\u{180E}', '\u{1FFF}', '\u{200B}',
        '\u{200C}', '\u{2027}', '\u{202A}', '\u{202E}', '\u{2030}', '\u{205E}', '\u{2060}',
        '\u{2FFF}', '\u{3001}', '\u{FEFF}',
    ];
    for c in kept {
        let text = format!("{}PEK{}", c, c);
        assert_eq!(trim_text(&text), text);
    }
}
