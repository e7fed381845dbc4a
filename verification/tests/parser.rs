use sgs::parser::parse;
use sgs::parser::ParseError;

#[test]
fn test_parser() {
    let system = r#"
        name = "Example System"
        description = "This is an example system."
        default = "Example Folder"

        rows = 2
        cols = 3

        folder "foo" (immediate) "asdf" "fdsa" "beep" "boop" "meep" "moop";

        folder "Example Folder" (append)
                "0"     "1"     "2"
                "3"     "4"     "5"
        ;
    "#;

    let system = parse(system).unwrap();

    assert_eq!("Example System", system.name);
    assert_eq!("This is an example system.", system.description);

    assert_eq!(2, system.folders.len());

    let folder = &system.folders[0];
    assert_eq!(false, folder.default);
    assert_eq!(true, folder.immediate);
    assert_eq!(2, folder.rows);
    assert_eq!(3, folder.cols);
    assert_eq!(6, folder.buttons.len());
    assert_eq!("asdf", folder.buttons[0]);
    assert_eq!("fdsa", folder.buttons[1]);
    assert_eq!("beep", folder.buttons[2]);
    assert_eq!("boop", folder.buttons[3]);
    assert_eq!("meep", folder.buttons[4]);
    assert_eq!("moop", folder.buttons[5]);

    let folder = &system.folders[1];
    assert_eq!(true, folder.default);
    assert_eq!(false, folder.immediate);
    assert_eq!(2, folder.rows);
    assert_eq!(3, folder.cols);
    assert_eq!(6, folder.buttons.len());
    assert_eq!("0", folder.buttons[0]);
    assert_eq!("1", folder.buttons[1]);
    assert_eq!("2", folder.buttons[2]);
    assert_eq!("3", folder.buttons[3]);
    assert_eq!("4", folder.buttons[4]);
    assert_eq!("5", folder.buttons[5]);
}

#[test]
fn test_incomplete_metadata() {
    let broken_system = r#"
        name = "foo"

        folder "foo" (append)
            "beep boop"
        ;
    "#;

    let broken_system = parse(broken_system);

    assert!(broken_system.is_err());
}

#[test]
fn test_invalid_folder_mode() {
    let broken_system = r#"
        name = "foo"

        folder "foo" (definitely-not-valid)
            "beep" "boop"
        ;
    "#;

    let broken_system = parse(broken_system);

    assert!(broken_system.is_err());
}

#[test]
fn incomplete_metadata_names_the_missing_key() {
    let broken = parse("name = \"foo\" folder \"foo\" (append) \"beep\";");
    assert_eq!(ParseError::MissingKey, broken.unwrap_err());
}

#[test]
fn invalid_mode_is_its_own_error() {
    let broken = parse(
        "name = \"n\" description = \"d\" default = \"f\" rows = 1 cols = 1 folder \"f\" (sideways) \"b\";",
    );
    assert_eq!(ParseError::InvalidMode, broken.unwrap_err());
}

#[test]
fn unclosed_string_is_rejected() {
    let broken = parse("name = \"oops");
    assert_eq!(ParseError::UnclosedString, broken.unwrap_err());
}

#[test]
fn stray_punctuation_is_rejected() {
    let broken = parse("= \"foo\"");
    assert_eq!(ParseError::UnexpectedToken, broken.unwrap_err());
}

#[test]
fn folder_without_semicolon_is_rejected() {
    let broken = parse(
        "name = \"n\" description = \"d\" default = \"f\" rows = 1 cols = 1 folder \"f\" (append) \"b\"",
    );
    assert_eq!(ParseError::UnexpectedToken, broken.unwrap_err());
}

#[test]
fn unreadable_number_is_rejected() {
    let broken = parse(
        "name = \"n\" description = \"d\" default = \"f\" rows = often cols = 1 folder \"f\" (append) \"b\";",
    );
    assert_eq!(ParseError::BadNumber, broken.unwrap_err());
}

#[test]
fn empty_input_misses_the_required_keys() {
    assert_eq!(ParseError::MissingKey, parse("").unwrap_err());
}

#[test]
fn oversized_number_is_rejected() {
    let broken = parse(
        "name = \"n\" description = \"d\" default = \"f\" rows = 99999999999999999999999 cols = 1",
    );
    assert_eq!(ParseError::BadNumber, broken.unwrap_err());
}

#[test]
fn numbers_are_read_exactly() {
    let system = parse(
        "name = \"n\" description = \"d\" default = \"f\" rows = 12 cols = 340",
    )
    .unwrap();
    assert_eq!(12, system.rows);
    assert_eq!(340, system.cols);
    assert_eq!("f", system.default);
    assert_eq!(0, system.folders.len());
}

#[test]
fn later_assignment_shadows_earlier() {
    let system = parse(
        "name = \"first\" name = \"second\" description = \"d\" default = \"f\" rows = 1 cols = 2",
    )
    .unwrap();
    assert_eq!("second", system.name);
}

#[test]
fn folder_reads_metadata_in_force_at_declaration() {
    let system = parse(
        "name = \"n\" description = \"d\" default = \"a\" rows = 1 cols = 1 folder \"a\" (append) \"x\"; default = \"b\" folder \"b\" (immediate) \"y\";",
    )
    .unwrap();
    assert_eq!(2, system.folders.len());
    assert_eq!(true, system.folders[0].default);
    assert_eq!(false, system.folders[0].immediate);
    assert_eq!(true, system.folders[1].default);
    assert_eq!(true, system.folders[1].immediate);
    assert_eq!("b", system.default);
}
