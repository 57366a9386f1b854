use rspread::command_line::{parse_command_line, split_words, LineCommand};
use rspread::engine::get_column_names_extended;
use rspread::table::Table;

#[test]
fn split_words_at_white_space() {
    assert_eq!(split_words("  e  todo\tx "), vec!["e".to_string(), "todo".to_string(), "x".to_string()]);
    assert!(split_words("   ").is_empty());
    assert!(split_words("").is_empty());
    assert_eq!(split_words("ä\u{3000}ö"), vec!["ä".to_string(), "ö".to_string()]);
}

#[test]
fn parse_known_commands() {
    assert!(matches!(parse_command_line(" "), LineCommand::Blank));
    assert!(matches!(parse_command_line("q"), LineCommand::Quit));
    assert!(matches!(parse_command_line("ls"), LineCommand::ListTables));
    assert!(matches!(parse_command_line("lsdb"), LineCommand::ListDatabases));
    assert!(matches!(parse_command_line("pwd"), LineCommand::Pwd));
    match parse_command_line("e todo") {
        LineCommand::Edit(Some(t)) => assert_eq!(t, "todo"),
        _ => panic!("expected an edit command"),
    }
    assert!(matches!(parse_command_line("e"), LineCommand::Edit(None)));
    assert!(matches!(parse_command_line("drop"), LineCommand::Drop(None)));
    match parse_command_line("cd dir db") {
        LineCommand::Cd(Some(a), Some(b)) => assert_eq!((a.as_str(), b.as_str()), ("dir", "db")),
        _ => panic!("expected a cd command"),
    }
    assert!(matches!(parse_command_line("cd"), LineCommand::Cd(None, None)));
}

#[test]
fn parse_unknown_command() {
    match parse_command_line("frobnicate x") {
        LineCommand::Unknown(n) => assert_eq!(n, "frobnicate"),
        _ => panic!("expected an unknown command"),
    }
}

#[test]
fn names_extended_pads_with_generic_names() {
    let mut t = Table::new();
    t.create_column("a".to_string()).unwrap();
    assert_eq!(get_column_names_extended(&t, 0), vec!["a".to_string()]);
    assert_eq!(
        get_column_names_extended(&t, 2),
        vec!["a".to_string(), "Column 2".to_string(), "Column 3".to_string()]
    );
}
