use tix_core::controller::{
    can_cut_arguments, download_line, list_dir_line, parse_command_line, upload_line, CommandLine,
};
use tix_core::listing::{drive_names, drives_text, listing_text, parse_listing, DirEntry};
use tix_core::textscan::split_at_char;
use tix_core::Command;

#[test]
fn splitting_keeps_empty_pieces() {
    assert_eq!(split_at_char("a,b,c", ','), vec!["a", "b", "c"]);
    assert_eq!(split_at_char("a,,c,", ','), vec!["a", "", "c", ""]);
    assert_eq!(split_at_char("", ','), vec![""]);
    assert_eq!(split_at_char(",", ','), vec!["", ""]);
    assert_eq!(split_at_char("abc", ','), vec!["abc"]);
    assert_eq!(split_at_char("é;ü", ';'), vec!["é", "ü"]);
}

#[test]
fn drives_are_joined_by_commas() {
    assert_eq!(drives_text(&vec![]), "");
    assert_eq!(drives_text(&vec!["C:\\".to_string()]), "C:\\");
    assert_eq!(
        drives_text(&vec!["C:\\".to_string(), "D:\\".to_string(), "E:\\".to_string()]),
        "C:\\,D:\\,E:\\"
    );
    assert_eq!(drive_names("C:\\,D:\\"), vec!["C:\\", "D:\\"]);
    assert_eq!(drive_names(",C:\\,,D:\\,"), vec!["C:\\", "D:\\"]);
    assert!(drive_names("").is_empty());
    assert_eq!(drive_names("/"), vec!["/"]);
}

#[test]
fn listings_are_written_and_read() {
    let entries = vec![
        DirEntry { name: "docs".to_string(), is_dir: true, size: 0 },
        DirEntry { name: "a.txt".to_string(), is_dir: false, size: 1234 },
    ];
    let text = listing_text("C:\\Users", &entries);
    assert_eq!(text, "PATH|C:\\Users;docs|1|0;a.txt|0|1234");
    let (path, read) = parse_listing(&text);
    assert_eq!(path, "C:\\Users");
    assert_eq!(read, vec![("docs", true), ("a.txt", false)]);
    assert_eq!(listing_text("/", &vec![]), "PATH|/");
    assert_eq!(parse_listing("PATH|/"), ("/", vec![]));
}

#[test]
fn listings_without_path_and_with_odd_fields() {
    assert_eq!(parse_listing("x|1|0;y|0"), ("", vec![("x", true), ("y", false)]));
    // fields without a separator and empty fields are skipped
    assert_eq!(parse_listing("PATH|p;;name;z|2|9;"), ("p", vec![("z", false)]));
    assert_eq!(parse_listing(""), ("", vec![]));
    assert_eq!(parse_listing("PATH|"), ("", vec![]));
    // only a flag of exactly 1 is a directory
    assert_eq!(parse_listing("a|11;b|1"), ("", vec![("a", false), ("b", true)]));
}

#[test]
fn built_command_lines_are_read_back() {
    let line = list_dir_line("C:\\Users");
    assert_eq!(line, "ListDir C:\\Users");
    assert!(can_cut_arguments(&line));
    assert!(matches!(
        parse_command_line(&line),
        CommandLine::Send(Command::ListDir, p) if p == b"C:\\Users"
    ));
    let line = upload_line("a b", "c");
    assert_eq!(line, "Upload a b|c");
    assert!(matches!(
        parse_command_line(&line),
        CommandLine::Send(Command::Upload, p) if p == b"a b|c"
    ));
    let line = download_line("x", "y");
    assert_eq!(line, "Download x|y");
    assert!(matches!(
        parse_command_line(&line),
        CommandLine::Send(Command::Download, p) if p == b"x|y"
    ));
}

#[test]
fn texts_are_compared_character_by_character() {
    assert!(tix_core::textscan::same_text("", ""));
    assert!(tix_core::textscan::same_text("C:\\Users", "C:\\Users"));
    assert!(!tix_core::textscan::same_text("C:\\Users", "C:\\Users\\"));
    assert!(!tix_core::textscan::same_text("abc", "abd"));
    assert!(!tix_core::textscan::same_text("abc", "ab"));
    assert!(!tix_core::textscan::same_text("é", "e"));
}
