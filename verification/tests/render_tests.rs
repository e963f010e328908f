use lcs::render_row;
use lcs::Arrow;
use lcs::Cell;

fn cell(length: u32, direction: Arrow, path: bool) -> Cell {
    Cell { length, direction, path }
}

#[test]
fn render_row_formats_each_cell() {
    let row = vec![
        cell(0, Arrow::Empty, false),
        cell(3, Arrow::Diagonal, true),
        cell(12, Arrow::Horizontal, false),
        cell(123, Arrow::Vertical, true),
        cell(4567, Arrow::Diagonal, false),
    ];
    let out = render_row(&row);
    assert_eq!(out.len(), 5);
    assert_eq!(out[0], ("  0 ".to_string(), false));
    assert_eq!(out[1], ("\\ 3 ".to_string(), true));
    assert_eq!(out[2], ("-12 ".to_string(), false));
    assert_eq!(out[3], ("|123".to_string(), true));
    assert_eq!(out[4], ("\\4567".to_string(), false));
}

#[test]
fn render_row_matches_format_of_lengths() {
    let lengths = [0u32, 1, 7, 9, 10, 42, 99, 100, 999, 1000, u32::MAX];
    let row: Vec<Cell> = lengths
        .iter()
        .map(|&n| cell(n, Arrow::Vertical, false))
        .collect();
    let out = render_row(&row);
    for (i, &n) in lengths.iter().enumerate() {
        assert_eq!(out[i].0, format!("|{n:^3}"));
    }
}

#[test]
fn render_row_empty() {
    let row: Vec<Cell> = Vec::new();
    assert!(render_row(&row).is_empty());
}
