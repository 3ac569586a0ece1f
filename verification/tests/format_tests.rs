use treesync::calendar::{days_in_month, first_day_of_month, month_name, month_weeks};
use treesync::listing::{sort_by_size_desc, FileInfo};
use treesync::perms::{format_permissions, mode_string, triplet};

#[test]
fn triplet_renders_each_class() {
    assert_eq!(triplet(0o754, 6), "rwx");
    assert_eq!(triplet(0o754, 3), "r-x");
    assert_eq!(triplet(0o754, 0), "r--");
    assert_eq!(triplet(0o000, 6), "---");
    assert_eq!(triplet(0o002, 0), "-w-");
}

#[test]
fn format_permissions_renders_all_nine() {
    assert_eq!(format_permissions(0o754), "rwxr-xr--");
    assert_eq!(format_permissions(0o777), "rwxrwxrwx");
    assert_eq!(format_permissions(0o000), "---------");
    assert_eq!(format_permissions(0o640), "rw-r-----");
}

#[test]
fn mode_string_marks_regular_files_and_directories() {
    assert_eq!(mode_string(0o100644), "-rw-r--r--");
    assert_eq!(mode_string(0o040755), "drwxr-xr-x");
}

#[test]
fn month_lengths_follow_the_leap_rule() {
    assert_eq!(days_in_month(2024, 2), 29);
    assert_eq!(days_in_month(2023, 2), 28);
    assert_eq!(days_in_month(1900, 2), 28);
    assert_eq!(days_in_month(2000, 2), 29);
    assert_eq!(days_in_month(2023, 4), 30);
    assert_eq!(days_in_month(2023, 1), 31);
    assert_eq!(days_in_month(2023, 12), 31);
}

#[test]
fn month_lengths_cover_the_whole_proleptic_range() {
    // Year 0 is a leap year; year -100 is divisible by 100 but not
    // 400; year -4 is an ordinary leap year; and the rule still holds
    // far beyond the common era.
    assert_eq!(days_in_month(0, 2), 29);
    assert_eq!(days_in_month(-100, 2), 28);
    assert_eq!(days_in_month(-4, 2), 29);
    assert_eq!(days_in_month(262000, 2), 29);
    assert_eq!(days_in_month(-262000, 2), 29);
}

#[test]
fn first_weekdays_match_known_dates() {
    // 2024-06-01 was a Saturday, 2023-01-01 a Sunday, 2024-01-01 a Monday.
    assert_eq!(first_day_of_month(2024, 6), 6);
    assert_eq!(first_day_of_month(2023, 1), 0);
    assert_eq!(first_day_of_month(2024, 1), 1);
    // 2000-03-01 was a Wednesday.
    assert_eq!(first_day_of_month(2000, 3), 3);
}

#[test]
fn first_weekdays_extend_before_year_one() {
    // 0001-01-01 of the proleptic Gregorian calendar was a Monday;
    // year 0 has 366 days and year -1 has 365, so their first days
    // fall on Saturday and Friday.
    assert_eq!(first_day_of_month(1, 1), 1);
    assert_eq!(first_day_of_month(0, 1), 6);
    assert_eq!(first_day_of_month(-1, 1), 5);
}

#[test]
fn month_names_are_english() {
    assert_eq!(month_name(1), "January");
    assert_eq!(month_name(6), "June");
    assert_eq!(month_name(12), "December");
}

#[test]
fn month_grid_places_days_and_blanks() {
    // 30 days starting on a Thursday (first weekday 4): five weeks.
    let weeks = month_weeks(30, 4);
    assert_eq!(weeks.len(), 5);
    assert_eq!(weeks[0], vec![0, 0, 0, 0, 1, 2, 3]);
    assert_eq!(weeks[1], vec![4, 5, 6, 7, 8, 9, 10]);
    assert_eq!(weeks[4], vec![25, 26, 27, 28, 29, 30, 0]);
}

fn row(name: &str, size: u64) -> FileInfo {
    FileInfo {
        name: name.to_string(),
        file_type: "file".to_string(),
        size,
        modified: String::new(),
        permissions: String::new(),
    }
}

#[test]
fn listing_sorts_by_size_descending() {
    let mut files = vec![row("small", 10), row("big", 900), row("mid", 40), row("tiny", 1)];
    sort_by_size_desc(&mut files);
    let sizes: Vec<u64> = files.iter().map(|f| f.size).collect();
    assert_eq!(sizes, vec![900, 40, 10, 1]);
    let names: Vec<&str> = files.iter().map(|f| f.name.as_str()).collect();
    assert_eq!(names, vec!["big", "mid", "small", "tiny"]);
}

#[test]
fn listing_sort_is_stable_for_equal_sizes() {
    let mut files = vec![row("a", 5), row("b", 5), row("c", 7), row("d", 5)];
    sort_by_size_desc(&mut files);
    let names: Vec<&str> = files.iter().map(|f| f.name.as_str()).collect();
    // Rows of equal size keep their arrival order behind the larger row.
    assert_eq!(names, vec!["c", "a", "b", "d"]);
}
