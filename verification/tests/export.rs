use what_constitutes_software_query::export::{render_csv, u64_to_dec};
use what_constitutes_software_query::extract::OutputRow;

fn row(pid: u64, path: &str, hash_id: u64) -> OutputRow {
    OutputRow { pid, path: path.to_string(), hash_id }
}

#[test]
fn decimal_rendering_is_exact() {
    assert_eq!(u64_to_dec(0), "0");
    assert_eq!(u64_to_dec(7), "7");
    assert_eq!(u64_to_dec(10), "10");
    assert_eq!(u64_to_dec(12345), "12345");
    assert_eq!(u64_to_dec(u64::MAX), "18446744073709551615");
}

#[test]
fn csv_has_the_fixed_header_line() {
    let rows: Vec<OutputRow> = Vec::new();
    let csv = render_csv(&rows);
    assert_eq!(csv, "pid,path,hash_id\n");
    assert_eq!(csv.lines().next(), Some("pid,path,hash_id"));
}

#[test]
fn csv_row_count_matches_the_surviving_rows() {
    let rows = vec![row(1, "a.rs", 2), row(3, "dir/b.rs", 4), row(5, "c", 6)];
    let csv = render_csv(&rows);
    assert_eq!(csv.lines().count(), 1 + rows.len());
}

#[test]
fn csv_content_is_exact() {
    let rows = vec![row(1, "src/lib.rs", 42), row(9000, "README.md", 7)];
    let csv = render_csv(&rows);
    assert_eq!(csv, "pid,path,hash_id\n1,src/lib.rs,42\n9000,README.md,7\n");
}
