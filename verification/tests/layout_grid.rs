//! Layout engine behaviour: greedy column search, the single-column
//! fallback, and row-major reading of the column-major grid.

use lsmoji::file_entry::FileEntry;
use lsmoji::layout::{compute_layout, entry_width, layout_entries, render_rows};

fn file(name: &str) -> FileEntry {
    FileEntry::new(name.to_owned(), "📝".to_owned(), false)
}

#[test]
fn five_tens_in_fifty_make_four_columns() {
    // 4 columns of width 10 plus 3 gutters of 2 is 46, which fits 50.
    let widths = vec![10, 10, 10, 10, 10];
    let g = compute_layout(&widths, 50);
    assert_eq!(g.num_columns, 4);
    assert_eq!(g.num_rows, 2);
    assert_eq!(g.column_widths, vec![10, 10, 10, 0]);
}

#[test]
fn narrow_terminal_falls_back_to_one_overflowing_column() {
    let widths = vec![20];
    let g = compute_layout(&widths, 5);
    assert_eq!(g.num_columns, 1);
    assert_eq!(g.num_rows, 1);
    assert_eq!(g.column_widths, vec![20]);
}

#[test]
fn zero_entries_make_the_empty_grid() {
    let widths: Vec<usize> = Vec::new();
    let g = compute_layout(&widths, 80);
    assert_eq!(g.num_columns, 0);
    assert_eq!(g.num_rows, 0);
    assert!(g.column_widths.is_empty());
}

#[test]
fn column_count_never_exceeds_entry_count() {
    let widths = vec![3, 3];
    let g = compute_layout(&widths, 200);
    assert_eq!(g.num_columns, 2);
    assert_eq!(g.num_rows, 1);
}

#[test]
fn total_width_respects_the_terminal() {
    // Five entries of width 4. Four columns pack them as [0,2), [2,4),
    // [4,5) and an empty column: 4 + 4 + 4 + 0 plus 3 gutters of 2 is 18,
    // over 17. Three columns pack them as [0,2), [2,4), [4,5):
    // 4 + 4 + 4 plus 2 gutters of 2 is 16, which fits.
    let widths = vec![4, 4, 4, 4, 4];
    let g = compute_layout(&widths, 17);
    assert_eq!(g.num_columns, 3);
    assert_eq!(g.num_rows, 2);
    let total: usize =
        g.column_widths.iter().sum::<usize>() + 2 * (g.num_columns - 1);
    assert!(total <= 17);
}

#[test]
fn rows_read_the_grid_row_major() {
    let entries = vec![file("a"), file("b"), file("c"), file("d"), file("e")];
    let widths = vec![10, 10, 10, 10, 10];
    let g = compute_layout(&widths, 50);
    let rows = render_rows(&entries, &widths, &g);
    assert_eq!(rows.len(), 2);
    // Row 0 shows positions 0, 2, 4; row 1 shows positions 1, 3.
    let row0: Vec<&str> = rows[0].iter().map(|c| c.name.as_str()).collect();
    let row1: Vec<&str> = rows[1].iter().map(|c| c.name.as_str()).collect();
    assert_eq!(row0, vec!["a", "c", "e"]);
    assert_eq!(row1, vec!["b", "d"]);
    // Fill to the column width (10) plus the 2-space gutter, minus the
    // cell's own display width (10 here); zero after the last occupied
    // cell of a row.
    assert_eq!(rows[0][0].pad, 2);
    assert_eq!(rows[0][1].pad, 2);
    assert_eq!(rows[0][2].pad, 0);
    assert_eq!(rows[1][0].pad, 2);
    assert_eq!(rows[1][1].pad, 0);
}

#[test]
fn entry_width_counts_icon_separator_and_name() {
    // The folder icon is two columns wide, the separator one, the name
    // three: six in all. A wrapper that echoed its argument's length
    // would give a different answer for the two-column icon.
    let e = FileEntry::new("abc".to_owned(), "📁".to_owned(), false);
    assert_eq!(entry_width(&e), Some(6));
}

#[test]
fn pipeline_lays_out_a_single_entry() {
    let entries = vec![file("only.txt")];
    let (g, rows) = layout_entries(&entries, 80).unwrap();
    assert_eq!(g.num_columns, 1);
    assert_eq!(g.num_rows, 1);
    assert_eq!(rows.len(), 1);
    assert_eq!(rows[0].len(), 1);
    assert_eq!(rows[0][0].name, "only.txt");
    assert_eq!(rows[0][0].pad, 0);
}

#[test]
fn pipeline_handles_no_entries() {
    let entries: Vec<FileEntry> = Vec::new();
    let (g, rows) = layout_entries(&entries, 80).unwrap();
    assert_eq!(g.num_columns, 0);
    assert_eq!(rows.len(), 0);
}
