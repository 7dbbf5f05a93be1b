use rfetch::ansi::{strip_ansi, visual_width};
use rfetch::layout::compose;

fn strings(v: &[&str]) -> Vec<String> {
    v.iter().map(|s| s.to_string()).collect()
}

#[test]
fn compose_pads_to_common_column() {
    let logo = strings(&["**", "****"]);
    let info = strings(&["X", "Y", "Z"]);
    let rows = compose(&logo, &info, 2);
    assert_eq!(rows, strings(&["**     X", "****   Y", "       Z"]));
}

#[test]
fn compose_rows_align_regardless_of_escapes() {
    let logo = strings(&["\u{1b}[31m**\u{1b}[0m", "*"]);
    let info = strings(&["first", "second"]);
    let rows = compose(&logo, &info, 3);
    // column width is 2 + 3; the info text begins at visual column 6 in
    // every row, however long the raw escape-laden prefix is
    let stripped0: Vec<char> = strip_ansi(&rows[0]).chars().collect();
    let stripped1: Vec<char> = strip_ansi(&rows[1]).chars().collect();
    let tail0: String = stripped0[6..].iter().collect();
    let tail1: String = stripped1[6..].iter().collect();
    assert_eq!(tail0, "first");
    assert_eq!(tail1, "second");
    assert_eq!(visual_width(&rows[0]) - 5, visual_width(&info[0]) + 1);
}

#[test]
fn compose_empty_logo_indents_info() {
    let logo: Vec<String> = Vec::new();
    let info = strings(&["alpha"]);
    let rows = compose(&logo, &info, 4);
    assert_eq!(rows, strings(&["     alpha"]));
}

#[test]
fn compose_empty_info_keeps_logo_rows() {
    let logo = strings(&["##", "#"]);
    let info: Vec<String> = Vec::new();
    let rows = compose(&logo, &info, 1);
    assert_eq!(rows, strings(&["##  ", "#   "]));
}

#[test]
fn compose_row_count_is_longer_side() {
    let logo = strings(&["a", "b", "c"]);
    let info = strings(&["1"]);
    assert_eq!(compose(&logo, &info, 0).len(), 3);
    assert_eq!(compose(&info, &logo, 0).len(), 3);
}
