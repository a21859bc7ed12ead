use lsr::find_files;
use lsr::resolve::{
    diagnostic_line, is_hidden, visible_children, Child, Probe, Request, Resolution,
};

fn child(dir: &str, name: &str) -> Option<Child> {
    Some(Child { name: name.to_string(), path: format!("{}/{}", dir, name) })
}

fn inputs() -> Probe {
    Probe::Directory {
        children: vec![
            child("tests/inputs", "empty.txt"),
            child("tests/inputs", "dir"),
            child("tests/inputs", ".hidden"),
            child("tests/inputs", "fox.txt"),
            child("tests/inputs", "bustle.txt"),
        ],
    }
}

fn inputs_dir() -> Probe {
    Probe::Directory { children: vec![child("tests/inputs/dir", "spiders.txt")] }
}

fn request(path: &str, probe: Probe) -> Request {
    Request { path: path.to_string(), probe }
}

fn entries(resolution: Resolution) -> Vec<String> {
    match resolution.outcome {
        Ok(paths) => paths,
        Err(error) => panic!("{}: {}", error.path, error.message),
    }
}

#[test]
fn test_find_files() {
    let res = find_files(&vec![request("tests/inputs", inputs())], false);
    assert!(res.outcome.is_ok());
    let mut filenames = entries(res);
    filenames.sort();
    assert_eq!(
        filenames,
        [
            "tests/inputs/bustle.txt",
            "tests/inputs/dir",
            "tests/inputs/empty.txt",
            "tests/inputs/fox.txt"
        ]
    );

    let res = find_files(&vec![request("tests/inputs/.hidden", Probe::File)], false);
    assert!(res.outcome.is_ok());
    let filenames = entries(res);
    assert_eq!(filenames, ["tests/inputs/.hidden"]);

    let res = find_files(
        &vec![
            request("tests/inputs/bustle.txt", Probe::File),
            request("tests/inputs/dir", inputs_dir()),
        ],
        false,
    );
    assert!(res.outcome.is_ok());
    let mut filenames = entries(res);
    filenames.sort();
    assert_eq!(filenames, ["tests/inputs/bustle.txt", "tests/inputs/dir/spiders.txt"]);
}

#[test]
fn test_find_files_hidden() {
    let res = find_files(&vec![request("tests/inputs", inputs())], true);
    assert!(res.outcome.is_ok());
    let mut filenames = entries(res);
    filenames.sort();
    assert_eq!(
        filenames,
        [
            "tests/inputs/.hidden",
            "tests/inputs/bustle.txt",
            "tests/inputs/dir",
            "tests/inputs/empty.txt",
            "tests/inputs/fox.txt"
        ]
    )
}

#[test]
fn find_files_keeps_the_order_of_requests_and_of_directories() {
    let requests = vec![
        request("z.txt", Probe::File),
        request("tests/inputs", inputs()),
        request("a.txt", Probe::File),
    ];
    let res = find_files(&requests, false);
    assert!(res.diagnostics.is_empty());
    assert_eq!(
        entries(res),
        [
            "z.txt",
            "tests/inputs/empty.txt",
            "tests/inputs/dir",
            "tests/inputs/fox.txt",
            "tests/inputs/bustle.txt",
            "a.txt"
        ]
    );
    let res = find_files(&requests, true);
    assert_eq!(
        entries(res),
        [
            "z.txt",
            "tests/inputs/empty.txt",
            "tests/inputs/dir",
            "tests/inputs/.hidden",
            "tests/inputs/fox.txt",
            "tests/inputs/bustle.txt",
            "a.txt"
        ]
    );
}

#[test]
fn find_files_takes_a_hidden_file_with_either_flag() {
    for show_hidden in [false, true] {
        let res = find_files(&vec![request(".bashrc", Probe::File)], show_hidden);
        assert!(res.diagnostics.is_empty());
        assert_eq!(entries(res), [".bashrc"]);
    }
}

#[test]
fn find_files_of_nothing_is_nothing() {
    let res = find_files(&Vec::new(), false);
    assert!(res.diagnostics.is_empty());
    assert!(entries(res).is_empty());
}

#[test]
fn find_files_reports_and_skips_a_path_without_metadata() {
    let requests = vec![
        request("missing", Probe::Unreadable { message: "No such file or directory".to_string() }),
        request("fox.txt", Probe::File),
        request("gone", Probe::Unreadable { message: "Permission denied".to_string() }),
    ];
    let res = find_files(&requests, false);
    assert_eq!(
        res.diagnostics,
        ["missing: No such file or directory", "gone: Permission denied"]
    );
    assert_eq!(entries(res), ["fox.txt"]);
}

#[test]
fn find_files_fails_at_the_first_directory_that_cannot_be_listed() {
    let requests = vec![
        request("missing", Probe::Unreadable { message: "No such file".to_string() }),
        request("fox.txt", Probe::File),
        request("locked", Probe::Unlistable { message: "Permission denied".to_string() }),
        request("gone", Probe::Unreadable { message: "No such file".to_string() }),
        request("sealed", Probe::Unlistable { message: "Not a directory".to_string() }),
    ];
    let res = find_files(&requests, true);
    assert_eq!(res.diagnostics, ["missing: No such file"]);
    match res.outcome {
        Err(error) => {
            assert_eq!(error.path, "locked");
            assert_eq!(error.message, "Permission denied");
        }
        Ok(paths) => panic!("resolved to {:?}", paths),
    }
}

#[test]
fn find_files_passes_over_children_that_cannot_be_read() {
    let probe = Probe::Directory {
        children: vec![None, child("d", "a"), None, child("d", ".b"), child("d", "c"), None],
    };
    let res = find_files(&vec![request("d", probe)], false);
    assert!(res.diagnostics.is_empty());
    assert_eq!(entries(res), ["d/a", "d/c"]);
}

#[test]
fn visible_children_filter_by_name_not_by_path() {
    let children = vec![
        Some(Child { name: "plain".to_string(), path: ".cache/plain".to_string() }),
        Some(Child { name: ".dotted".to_string(), path: "dir/.dotted".to_string() }),
        Some(Child { name: "..".to_string(), path: "dir/..".to_string() }),
        Some(Child { name: "a.b".to_string(), path: "dir/a.b".to_string() }),
        Some(Child { name: String::new(), path: "dir/".to_string() }),
    ];
    assert_eq!(visible_children(&children, false), [".cache/plain", "dir/a.b", "dir/"]);
    assert_eq!(
        visible_children(&children, true),
        [".cache/plain", "dir/.dotted", "dir/..", "dir/a.b", "dir/"]
    );
}

#[test]
fn hidden_names_start_with_a_dot() {
    assert!(is_hidden(".hidden"));
    assert!(is_hidden("."));
    assert!(is_hidden(".."));
    assert!(!is_hidden("fox.txt"));
    assert!(!is_hidden(""));
    assert!(!is_hidden("a."));
    assert!(!is_hidden("é.txt"));
}

#[test]
fn diagnostic_line_joins_path_and_message() {
    assert_eq!(
        diagnostic_line("blargh", "No such file or directory (os error 2)"),
        "blargh: No such file or directory (os error 2)"
    );
    assert_eq!(diagnostic_line("", ""), ": ");
}

#[test]
fn find_files_of_a_file_and_a_directory() {
    let requests = || {
        vec![request("tests/inputs/dir/spiders.txt", Probe::File), request("tests/inputs", inputs())]
    };
    let mut without = entries(find_files(&requests(), false));
    without.sort();
    assert_eq!(
        without,
        [
            "tests/inputs/bustle.txt",
            "tests/inputs/dir",
            "tests/inputs/dir/spiders.txt",
            "tests/inputs/empty.txt",
            "tests/inputs/fox.txt"
        ]
    );
    let mut with = entries(find_files(&requests(), true));
    with.sort();
    assert_eq!(
        with,
        [
            "tests/inputs/.hidden",
            "tests/inputs/bustle.txt",
            "tests/inputs/dir",
            "tests/inputs/dir/spiders.txt",
            "tests/inputs/empty.txt",
            "tests/inputs/fox.txt"
        ]
    );
}
