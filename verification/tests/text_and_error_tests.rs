use envmn::error::{AccessErrors, CliErrors, Error, NamingErrors, OtherErrors, ParsingErrors};
use envmn::text::{
    chars_of, decimal_string, drop_space, find_char, is_whitespace, join_strings, same_text,
    skip_space, string_of,
};

#[test]
fn access_error_messages() {
    assert_eq!(
        AccessErrors::FileError("a.env".to_string(), "denied".to_string()).to_string(),
        "Error reading file 'a.env': denied"
    );
    assert_eq!(
        AccessErrors::BlockNotFound("db".to_string()).to_string(),
        "Block 'db' was not found"
    );
    assert_eq!(
        AccessErrors::DefaultBlockNotMovable.to_string(),
        "default block is not movable"
    );
}

#[test]
fn cli_error_messages() {
    assert_eq!(CliErrors::NoOperationFound.to_string(), "No operation found");
    assert_eq!(CliErrors::NoInputFound.to_string(), "No input found");
    assert_eq!(
        CliErrors::UnknownCommand("frobnicate".to_string()).to_string(),
        "Unknown command 'frobnicate'"
    );
    assert_eq!(
        CliErrors::FailedToParseArgs("Provide a block name".to_string()).to_string(),
        "Failed to parse arguments: Provide a block name"
    );
}

#[test]
fn naming_error_messages_count_lines_from_one() {
    assert_eq!(
        NamingErrors::BlockNameEmpty.to_string(),
        "Block name can not be empty"
    );
    assert_eq!(
        NamingErrors::VariableNameEmpty.to_string(),
        "Variable name can not be empty"
    );
    assert_eq!(
        NamingErrors::BlockContainsInvalidCharacter(0, "-".to_string()).to_string(),
        "Line 1: Block name contains invalid characters '-'"
    );
    assert_eq!(
        NamingErrors::VariableContainsInvalidCharacter(9, " ".to_string()).to_string(),
        "Line 10: Variable name contains invalid characters ' '"
    );
    assert_eq!(
        NamingErrors::StartsWithInvalidCharacter(41, "1".to_string()).to_string(),
        "Line 42: Block name starts with invalid character '1'"
    );
    assert_eq!(
        NamingErrors::StartsWithInvalidCharacter(65535, "1".to_string()).to_string(),
        "Line 65536: Block name starts with invalid character '1'"
    );
}

#[test]
fn parsing_error_messages() {
    assert_eq!(
        ParsingErrors::MissingEqSeparator(2).to_string(),
        "Line 3: Missing key and optional value separator"
    );
    assert_eq!(
        ParsingErrors::NestedBlock(4, "outer".to_string()).to_string(),
        "Line 5: Block 'outer' can not wrap another block"
    );
    assert_eq!(ParsingErrors::EmptyInput.to_string(), "Empty input");
    assert_eq!(
        ParsingErrors::BlockNeverOpened(99).to_string(),
        "Line 100: Closed block was never opened"
    );
    assert_eq!(
        ParsingErrors::ReservedWord(0, "default".to_string()).to_string(),
        "Line 1: You can not use keyword 'default'"
    );
    assert_eq!(
        ParsingErrors::DuplicateBlock("db".to_string()).to_string(),
        "Duplicate block 'db' found"
    );
    assert_eq!(
        ParsingErrors::DuplicateVariable("KEY".to_string(), "db".to_string()).to_string(),
        "Duplicate variable 'KEY' found in block 'db'"
    );
}

#[test]
fn error_message_is_that_of_its_kind() {
    assert_eq!(
        Error::AccessError(AccessErrors::DefaultBlockNotMovable).to_string(),
        "default block is not movable"
    );
    assert_eq!(
        Error::NamingError(NamingErrors::BlockNameEmpty).to_string(),
        "Block name can not be empty"
    );
    assert_eq!(
        Error::OtherError(OtherErrors::Unknown).to_string(),
        "Unknown error occurred"
    );
    assert_eq!(
        Error::ParsingError(ParsingErrors::EmptyInput).to_string(),
        "Empty input"
    );
    assert_eq!(
        Error::CliError(CliErrors::NoInputFound).to_string(),
        "No input found"
    );
    assert_eq!(OtherErrors::Unknown.to_string(), "Unknown error occurred");
}

#[test]
fn decimal_numbers() {
    assert_eq!(decimal_string(0), "0");
    assert_eq!(decimal_string(7), "7");
    assert_eq!(decimal_string(10), "10");
    assert_eq!(decimal_string(1234567890), "1234567890");
    assert_eq!(decimal_string(u64::MAX), "18446744073709551615");
}

#[test]
fn white_space_is_what_the_standard_library_takes_for_it() {
    let mut code: u32 = 0;
    while code <= 0x3100 {
        if let Some(c) = char::from_u32(code) {
            assert_eq!(is_whitespace(c), c.is_whitespace());
        }
        code += 1;
    }
}

#[test]
fn strings_are_built_from_characters() {
    let chars = chars_of("a=\u{e9}\u{4f60}b");
    assert_eq!(chars, vec!['a', '=', '\u{e9}', '\u{4f60}', 'b']);
    assert_eq!(string_of(&chars, 2, 5), "\u{e9}\u{4f60}b");
    assert_eq!(string_of(&chars, 0, 0), "");
    assert_eq!(string_of(&chars, 0, 5), "a=\u{e9}\u{4f60}b");
    assert_eq!(find_char(&chars, 0, 5, '='), 1);
    assert_eq!(find_char(&chars, 2, 5, '='), 5);
    assert!(same_text("abc", "abc"));
    assert!(!same_text("abc", "abd"));
    let parts = vec!["a".to_string(), "".to_string(), "c".to_string()];
    assert_eq!(join_strings(&parts, ", "), "a, , c");
    assert_eq!(join_strings(&Vec::new(), ", "), "");
    assert_eq!(join_strings(&vec!["only".to_string()], ", "), "only");
}

#[test]
fn white_space_is_trimmed_at_both_ends() {
    let chars = chars_of(" \t\u{a0}a b\u{2003} ");
    let from = skip_space(&chars, 0, chars.len());
    assert_eq!(from, 3);
    let to = drop_space(&chars, from, chars.len());
    assert_eq!(to, 6);
    let blank = chars_of(" \t ");
    assert_eq!(skip_space(&blank, 0, 3), 3);
    assert_eq!(drop_space(&blank, 0, 3), 0);
}
