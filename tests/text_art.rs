use tetris::board::empty_grid;
use tetris::convert_string_to_u8_array;

fn art(rows: &[&str]) -> String {
    let mut s = String::new();
    for r in rows {
        s.push_str(r);
        s.push('\n');
    }
    s
}

#[test]
fn reads_empty_and_occupied_cells() {
    let mut rows = vec![" . . . . . . . . . ."; 19];
    rows.push("[] X . . . . . . .[]");
    let s = art(&rows);
    let b = convert_string_to_u8_array(&s).unwrap();
    let mut expected = empty_grid();
    expected[39][0] = 1;
    expected[39][9] = 1;
    assert_eq!(b, expected);
}

#[test]
fn short_text_reads_nothing() {
    let rows = vec![" . . . . . . . . . ."; 19];
    let s = art(&rows);
    assert!(convert_string_to_u8_array(&s).is_none());
}

#[test]
fn blank_text_reads_nothing() {
    assert!(convert_string_to_u8_array("\n \r\n").is_none());
}
