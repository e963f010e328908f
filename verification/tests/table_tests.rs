use lcs::direction_glyph;
use lcs::lcs_length;
use lcs::lcs_with_table;
use lcs::Arrow;
use lcs::Cell;

#[test]
fn cell_new_is_border_cell() {
    let c = Cell::new();
    assert_eq!(c.length, 0);
    assert!(c.direction == Arrow::Empty);
    assert!(!c.path);
}

#[test]
fn direction_glyphs() {
    assert_eq!(direction_glyph(Arrow::Diagonal), '\\');
    assert_eq!(direction_glyph(Arrow::Horizontal), '-');
    assert_eq!(direction_glyph(Arrow::Vertical), '|');
    assert_eq!(direction_glyph(Arrow::Empty), ' ');
}

#[test]
fn table_lengths_match_prefix_lcs() {
    let (a, b) = ("bacbacba", "abbaac");
    let (_, table) = lcs_with_table(a, b);
    assert_eq!(table.len(), a.len() + 1);
    for (i, row) in table.iter().enumerate() {
        assert_eq!(row.len(), b.len() + 1);
        for (j, cell) in row.iter().enumerate() {
            assert_eq!(cell.length, lcs_length(&a[..i], &b[..j]));
        }
    }
}

#[test]
fn table_directions_follow_recurrence() {
    let (a, b) = ("nawigator", "nowator");
    let ac: Vec<char> = a.chars().collect();
    let bc: Vec<char> = b.chars().collect();
    let (_, table) = lcs_with_table(a, b);
    for i in 0..=ac.len() {
        for j in 0..=bc.len() {
            let d = table[i][j].direction;
            if i == 0 || j == 0 {
                assert!(d == Arrow::Empty);
                assert_eq!(table[i][j].length, 0);
            } else if ac[i - 1] == bc[j - 1] {
                assert!(d == Arrow::Diagonal);
                assert_eq!(table[i][j].length, table[i - 1][j - 1].length + 1);
            } else if table[i][j - 1].length > table[i - 1][j].length {
                assert!(d == Arrow::Horizontal);
                assert_eq!(table[i][j].length, table[i][j - 1].length);
            } else {
                assert!(d == Arrow::Vertical);
                assert_eq!(table[i][j].length, table[i - 1][j].length);
            }
        }
    }
}

#[test]
fn path_marks_exactly_the_traceback() {
    let (a, b) = ("bacbacba", "abbaac");
    let (_, table) = lcs_with_table(a, b);
    let mut visited = vec![vec![false; b.len() + 1]; a.len() + 1];
    let (mut x, mut y) = (a.len(), b.len());
    while x > 0 && y > 0 {
        visited[x][y] = true;
        match table[x][y].direction {
            Arrow::Diagonal => {
                x -= 1;
                y -= 1;
            }
            Arrow::Vertical => x -= 1,
            Arrow::Horizontal => y -= 1,
            Arrow::Empty => break,
        }
    }
    for i in 0..=a.len() {
        for j in 0..=b.len() {
            assert_eq!(table[i][j].path, visited[i][j], "path mark differs at ({i}, {j})");
        }
    }
}

#[test]
fn table_lengths_are_monotonic() {
    let (a, b) = ("algorytm", "program");
    let (_, table) = lcs_with_table(a, b);
    for i in 0..=a.len() {
        for j in 0..=b.len() {
            if i > 0 {
                assert!(table[i - 1][j].length <= table[i][j].length);
            }
            if j > 0 {
                assert!(table[i][j - 1].length <= table[i][j].length);
            }
            assert!(table[i][j].length as usize <= i.min(j));
        }
    }
}

#[test]
fn lcs_with_table_returns_the_lcs() {
    let (s, _) = lcs_with_table("bacbacba", "abbaac");
    assert_eq!(s, "baac");
    let (s, table) = lcs_with_table("", "abc");
    assert_eq!(s, "");
    assert_eq!(table.len(), 1);
    assert_eq!(table[0].len(), 4);
}
