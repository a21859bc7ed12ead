use lsr::format::{describe, Entry, FormatError, LongRow, Metadata};
use lsr::{format_bare, format_output, format_rows, long_row};

fn file(size: u64) -> Metadata {
    Metadata {
        is_dir: false,
        mode: 0o100644,
        nlink: 1,
        uid: 0,
        gid: 0,
        size,
        modified_secs: 1_700_000_000,
        modified_nanos: 0,
        modified_offset: 0,
    }
}

fn directory() -> Metadata {
    Metadata {
        is_dir: true,
        mode: 0o040755,
        nlink: 3,
        uid: 0,
        gid: 0,
        size: 4096,
        modified_secs: 1_700_000_000,
        modified_nanos: 0,
        modified_offset: 0,
    }
}

/// `metadata`, last changed when a clock `offset` seconds ahead of UTC
/// showed `hour` and `minute` on the fourteenth of November 2023.
fn at(hour: i64, minute: i64, offset: i32, metadata: Metadata) -> Metadata {
    Metadata {
        modified_secs: 1_699_920_000 + hour * 3_600 + minute * 60 - offset as i64,
        modified_offset: offset,
        ..metadata
    }
}

fn entry(path: &str, metadata: Metadata) -> Entry {
    Entry { path: path.to_string(), metadata: Ok(metadata) }
}

fn long_match(
    line: &str,
    expected_name: &str,
    expected_perms: &str,
    expected_size: Option<&str>,
) {
    let parts: Vec<_> = line.split_whitespace().collect();
    assert!(!parts.is_empty() && parts.len() <= 10);

    let perms = parts.first().unwrap();
    assert_eq!(perms, &expected_perms);

    if let Some(size) = expected_size {
        let file_size = parts.get(4).unwrap();
        assert_eq!(file_size, &size);
    }

    let display_name = parts.last().unwrap();
    assert_eq!(display_name, &expected_name);
}

#[test]
fn test_format_output_one() {
    let bustle_path = "tests/inputs/bustle.txt";
    let bustle = entry(bustle_path, file(193));

    let res = format_output(&vec![bustle]);
    assert!(res.is_ok());

    let out = res.unwrap();
    let lines: Vec<&str> = out.split('\n').filter(|s| !s.is_empty()).collect();
    assert_eq!(lines.len(), 1);

    let line1 = lines.first().unwrap();
    long_match(line1, bustle_path, "-rw-r--r--", Some("193"));
}

#[test]
fn test_format_output_two() {
    let res = format_output(&vec![
        entry("tests/inputs/dir", directory()),
        entry("tests/inputs/empty.txt", file(0)),
    ]);
    assert!(res.is_ok());

    let out = res.unwrap();
    let mut lines: Vec<&str> = out.split('\n').filter(|s| !s.is_empty()).collect();
    lines.sort();
    assert_eq!(lines.len(), 2);
    let empty_line = lines.remove(0);
    long_match(empty_line, "tests/inputs/empty.txt", "-rw-r--r--", None);
}

#[test]
fn format_output_leaves_the_size_of_a_directory_blank() {
    let out = format_output(&vec![
        entry("tests/inputs/dir", directory()),
        entry("tests/inputs/empty.txt", file(0)),
    ])
    .unwrap();
    let lines: Vec<&str> = out.split('\n').collect();
    assert_eq!(lines.len(), 3);
    assert_eq!(lines[2], "");
    let dir: Vec<&str> = lines[0].split_whitespace().collect();
    let empty: Vec<&str> = lines[1].split_whitespace().collect();
    assert_eq!(dir.len(), 6);
    assert_eq!(empty.len(), 7);
    assert_eq!(dir[0], "drwxr-xr-x");
    assert_eq!(dir[1], "3");
    assert_eq!(dir[4], "22:13");
    assert_eq!(dir[5], "tests/inputs/dir");
    assert_eq!(empty[0], "-rw-r--r--");
    assert_eq!(empty[1], "1");
    assert_eq!(empty[4], "0");
    assert_eq!(empty[5], "22:13");
    assert_eq!(empty[6], "tests/inputs/empty.txt");
    assert_eq!(dir[2], empty[2]);
    assert_eq!(dir[3], empty[3]);
}

#[test]
fn format_output_of_nothing_is_empty() {
    assert_eq!(format_output(&Vec::new()).unwrap(), "");
}

#[test]
fn format_output_fails_at_the_first_entry_without_metadata() {
    let entries = vec![
        entry("a", file(1)),
        Entry { path: "b".to_string(), metadata: Err("No such file or directory".to_string()) },
        entry("c", Metadata { modified_secs: i64::MAX, ..file(1) }),
        Entry { path: "d".to_string(), metadata: Err("Permission denied".to_string()) },
    ];
    match format_output(&entries) {
        Err(FormatError::Metadata { path, message }) => {
            assert_eq!(path, "b");
            assert_eq!(message, "No such file or directory");
        }
        other => panic!("{:?}", other),
    }
}

#[test]
fn format_output_fails_on_a_time_beyond_the_calendar() {
    let entries = vec![
        entry("a", file(1)),
        entry("far", Metadata { modified_secs: i64::MAX, ..file(1) }),
        Entry { path: "b".to_string(), metadata: Err("No such file or directory".to_string()) },
    ];
    match format_output(&entries) {
        Err(FormatError::Timestamp { path }) => assert_eq!(path, "far"),
        other => panic!("{:?}", other),
    }
    let entries = vec![entry("early", Metadata { modified_secs: i64::MIN, ..file(1) })];
    assert!(matches!(format_output(&entries), Err(FormatError::Timestamp { .. })));
    let entries = vec![entry("odd", Metadata { modified_nanos: 2_000_000_000, ..file(1) })];
    assert!(matches!(format_output(&entries), Err(FormatError::Timestamp { .. })));
}

#[test]
fn format_output_shows_the_time_of_day_at_the_offset() {
    let entries = vec![
        entry("utc", at(9, 5, 0, file(1))),
        entry("east", Metadata { modified_offset: 9 * 3_600, ..at(9, 5, 0, file(1)) }),
        entry("west", Metadata { modified_offset: -12_600, ..at(9, 5, 0, file(1)) }),
    ];
    let out = format_output(&entries).unwrap();
    let times: Vec<&str> =
        out.lines().map(|line| line.split_whitespace().nth(5).unwrap()).collect();
    assert_eq!(times, ["09:05", "18:05", "05:35"]);
}

#[test]
fn format_output_fails_on_an_offset_of_a_day() {
    let entries = vec![
        entry("a", file(1)),
        entry("far", Metadata { modified_offset: 86_400, ..file(1) }),
    ];
    match format_output(&entries) {
        Err(FormatError::Timestamp { path }) => assert_eq!(path, "far"),
        other => panic!("{:?}", other),
    }
}

#[test]
fn describe_shows_the_metadata_and_the_time_of_day() {
    let row = describe(&entry("some/file", Metadata { nlink: 12, ..file(193) })).unwrap();
    assert_eq!(row.permissions, "-rw-r--r--");
    assert_eq!(row.links, "12");
    assert_eq!(row.size, "193");
    assert_eq!(row.modified, "22:13");
    assert_eq!(row.path, "some/file");
    assert!(!row.user.is_empty());
    assert!(!row.group.is_empty());
    let later = describe(&entry("x", Metadata { modified_secs: 1_700_000_000 + 60, ..file(0) }))
        .unwrap();
    assert_eq!(later.modified, "22:14");
}

#[test]
fn describe_falls_back_to_the_numbers_of_unknown_ids() {
    let metadata = Metadata { uid: 4_000_000_123, gid: 4_000_000_456, ..file(5) };
    let row = describe(&entry("f", metadata)).unwrap();
    assert_eq!(row.user, "4000000123");
    assert_eq!(row.group, "4000000456");
}

#[test]
fn describe_fails_as_the_entry_does() {
    let gone = Entry { path: "gone".to_string(), metadata: Err("No such file".to_string()) };
    assert_eq!(
        describe(&gone),
        Err(FormatError::Metadata { path: "gone".to_string(), message: "No such file".to_string() })
    );
    let late = entry("late", Metadata { modified_secs: 8_210_266_876_800, ..file(1) });
    assert_eq!(describe(&late), Err(FormatError::Timestamp { path: "late".to_string() }));
    let last = entry("last", Metadata { modified_secs: 8_210_266_876_799, ..file(1) });
    assert_eq!(describe(&last).unwrap().modified, "23:59");
}

#[test]
fn long_row_of_a_file_with_known_names() {
    let row = long_row(
        "tests/inputs/bustle.txt",
        &at(9, 5, 0, file(193)),
        Some("alice".to_string()),
        Some("staff".to_string()),
    )
    .unwrap();
    assert_eq!(row.permissions, "-rw-r--r--");
    assert_eq!(row.links, "1");
    assert_eq!(row.user, "alice");
    assert_eq!(row.group, "staff");
    assert_eq!(row.size, "193");
    assert_eq!(row.modified, "09:05");
    assert_eq!(row.path, "tests/inputs/bustle.txt");
}

#[test]
fn long_row_of_a_directory_with_unknown_names() {
    let metadata = at(23, 59, 3_600, Metadata { uid: 501, gid: 20, ..directory() });
    let row = long_row("tests/inputs/dir", &metadata, None, None).unwrap();
    assert_eq!(row.permissions, "drwxr-xr-x");
    assert_eq!(row.links, "3");
    assert_eq!(row.user, "501");
    assert_eq!(row.group, "20");
    assert_eq!(row.size, "");
    assert_eq!(row.modified, "23:59");
    assert_eq!(row.path, "tests/inputs/dir");
}

#[test]
fn long_row_needs_a_time_of_day() {
    assert_eq!(long_row("p", &Metadata { modified_secs: i64::MAX, ..file(1) }, None, None), None);
    assert_eq!(long_row("p", &Metadata { modified_nanos: u32::MAX, ..file(1) }, None, None), None);
    assert_eq!(long_row("p", &Metadata { modified_offset: -86_400, ..file(1) }, None, None), None);
    assert!(long_row("p", &file(1), None, None).is_some());
}

fn three_rows() -> Vec<LongRow> {
    vec![
        long_row(
            "tests/inputs/bustle.txt",
            &at(9, 5, 0, file(193)),
            Some("alice".to_string()),
            Some("staff".to_string()),
        )
        .unwrap(),
        long_row(
            "tests/inputs/dir",
            &at(23, 59, -18_000, Metadata { nlink: 12, uid: 501, ..directory() }),
            None,
            Some("wheel".to_string()),
        )
        .unwrap(),
        long_row(
            "日本語.txt",
            &at(0, 0, 0, Metadata { mode: 0o600, size: 45, ..file(0) }),
            Some("名前".to_string()),
            None,
        )
        .unwrap(),
    ]
}

#[test]
fn format_rows_lays_out_a_table() {
    assert_eq!(
        format_rows(&three_rows()),
        "-rw-r--r--  1 alice staff 193 09:05 tests/inputs/bustle.txt\n\
         drwxr-xr-x 12 501   wheel     23:59 tests/inputs/dir\n\
         -rw-------  1 名前  0      45 00:00 日本語.txt\n"
    );
}

#[test]
fn format_rows_of_one_row_has_no_padding() {
    let rows = vec![three_rows().remove(0)];
    assert_eq!(
        format_rows(&rows),
        "-rw-r--r-- 1 alice staff 193 09:05 tests/inputs/bustle.txt\n"
    );
    let rows = vec![three_rows().remove(1)];
    assert_eq!(format_rows(&rows), "drwxr-xr-x 12 501 wheel  23:59 tests/inputs/dir\n");
}

#[test]
fn format_rows_agrees_with_tabular() {
    let rows = three_rows();
    let mut table = tabular::Table::new("{:<}{:<} {:>} {:<} {:<} {:>} {:<} {:<}");
    for row in rows.iter() {
        let (kind, mode) = row.permissions.split_at(1);
        table.add_row(
            tabular::Row::new()
                .with_cell(kind)
                .with_cell(mode)
                .with_cell(&row.links)
                .with_cell(&row.user)
                .with_cell(&row.group)
                .with_cell(&row.size)
                .with_cell(&row.modified)
                .with_cell(&row.path),
        );
    }
    assert_eq!(format_rows(&rows), table.to_string());
}

#[test]
fn rows_give_their_cells_in_order() {
    let row = LongRow {
        permissions: "-rw-r--r--".to_string(),
        links: "1".to_string(),
        user: "名前".to_string(),
        group: "g".to_string(),
        size: "".to_string(),
        modified: "09:05".to_string(),
        path: "p".to_string(),
    };
    let cells = row.cells();
    let texts: Vec<&str> = cells.iter().map(|cell| cell.text.as_str()).collect();
    let widths: Vec<usize> = cells.iter().map(|cell| cell.width).collect();
    assert_eq!(texts, ["-rw-r--r--", "1", "名前", "g", "", "09:05", "p"]);
    assert_eq!(widths, [10, 1, 4, 1, 0, 5, 1]);
}

#[test]
fn format_bare_puts_each_path_on_a_line() {
    assert_eq!(format_bare(&Vec::new()), "");
    assert_eq!(format_bare(&vec!["a".to_string()]), "a\n");
    assert_eq!(
        format_bare(&vec!["tests/inputs/fox.txt".to_string(), "".to_string(), ".x".to_string()]),
        "tests/inputs/fox.txt\n\n.x\n"
    );
}
