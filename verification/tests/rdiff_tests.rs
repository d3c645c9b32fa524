use deet::grid::Grid;
use deet::rdiff::{DiffKind, diff_lines, lcs};

fn render(g: &Grid) -> String {
    let (rows, cols) = g.size();
    let mut out = String::new();
    for r in 0..rows {
        for c in 0..cols {
            out.push_str(&format!("{} ", g.get(r, c).unwrap()));
        }
        out.push('\n');
    }
    out
}

#[test]
fn test_lcs() {
    let mut expected = Grid::new(5, 4);
    expected.set(1, 1, 1).unwrap();
    expected.set(1, 2, 1).unwrap();
    expected.set(1, 3, 1).unwrap();
    expected.set(2, 1, 1).unwrap();
    expected.set(2, 2, 1).unwrap();
    expected.set(2, 3, 2).unwrap();
    expected.set(3, 1, 1).unwrap();
    expected.set(3, 2, 1).unwrap();
    expected.set(3, 3, 2).unwrap();
    expected.set(4, 1, 1).unwrap();
    expected.set(4, 2, 2).unwrap();
    expected.set(4, 3, 2).unwrap();

    println!("Expected:");
    println!("{}", render(&expected));
    let result = lcs(
        &"abcd".chars().map(|c| c.to_string()).collect(),
        &"adb".chars().map(|c| c.to_string()).collect(),
    );
    println!("Got:");
    println!("{}", render(&result));
    assert_eq!(result.size(), expected.size());
    for row in 0..expected.size().0 {
        for col in 0..expected.size().1 {
            assert_eq!(result.get(row, col), expected.get(row, col));
        }
    }
}

#[test]
fn test_grid_out_of_bounds() {
    let mut g = Grid::new(2, 3);
    assert_eq!(g.get(2, 0), None);
    assert_eq!(g.get(0, 3), None);
    assert!(g.set(2, 0, 1).is_err());
    assert!(g.set(0, 0, 7).is_ok());
    assert_eq!(g.get(0, 0), Some(7));
    assert_eq!(g.get(1, 2), Some(0));
}

#[test]
fn test_diff_lines_mixed() {
    let lines1: Vec<String> = vec!["a".to_string(), "b".to_string(), "c".to_string()];
    let lines2: Vec<String> = vec!["a".to_string(), "c".to_string(), "d".to_string()];
    let table = lcs(&lines1, &lines2);
    let diff = diff_lines(&table, &lines1, &lines2, 3, 3);
    let got: Vec<(DiffKind, String)> = diff.into_iter().map(|d| (d.kind, d.text)).collect();
    assert_eq!(
        got,
        vec![
            (DiffKind::Same, "a".to_string()),
            (DiffKind::Removed, "b".to_string()),
            (DiffKind::Same, "c".to_string()),
            (DiffKind::Added, "d".to_string()),
        ]
    );
}

#[test]
fn test_diff_lines_empty_inputs() {
    let lines1: Vec<String> = vec![];
    let lines2: Vec<String> = vec!["x".to_string()];
    let table = lcs(&lines1, &lines2);
    let diff = diff_lines(&table, &lines1, &lines2, 0, 1);
    assert_eq!(diff.len(), 1);
    assert_eq!(diff[0].kind, DiffKind::Added);
    assert_eq!(diff[0].text, "x");
}
