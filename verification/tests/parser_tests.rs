use envmn::document::Document;
use envmn::error::{AccessErrors, Error, NamingErrors, ParsingErrors};
use envmn::parser::Parser;

fn parse(input: &str) -> Result<Document, Error> {
    Parser::new().parse(input)
}

fn names(doc: &Document) -> Vec<String> {
    doc.get_blocks().iter().map(|b| b.name.clone()).collect()
}

#[test]
fn empty_input_is_refused() {
    assert!(matches!(
        parse(""),
        Err(Error::ParsingError(ParsingErrors::EmptyInput))
    ));
}

#[test]
fn blank_input_gives_the_empty_document() {
    let doc = parse("\n").unwrap();
    assert_eq!(doc.blocks_len(), 1);
    assert_eq!(doc.to_string(), "\n");
    let doc = parse("  \n\t\n\n").unwrap();
    assert_eq!(doc.to_string(), "\n");
}

#[test]
fn variables_and_comments_go_to_the_default_block() {
    let doc = parse("# note\nKEY=value\nOTHER=a=b\nEMPTY=\n").unwrap();
    assert_eq!(doc.blocks_len(), 1);
    assert_eq!(
        doc.get_default_block().unwrap().to_string(),
        "# note\nKEY=value\nOTHER=a=b\nEMPTY="
    );
}

#[test]
fn blocks_are_read_in_order() {
    let doc = parse("KEY=value\n#@ database_block\nDB_HOST=localhost\n##\n#@ api_block\nAPI_KEY=secret\n##\n")
        .unwrap();
    assert_eq!(names(&doc), vec!["default", "database_block", "api_block"]);
    assert_eq!(
        doc.to_string(),
        "KEY=value\n\n#@ database_block\nDB_HOST=localhost\n##\n\n#@ api_block\nAPI_KEY=secret\n##\n"
    );
}

#[test]
fn formatting_collapses_blank_lines() {
    let doc = parse("KEY=value\n\n#@ block\n\nVAR=test\n##\n").unwrap();
    assert_eq!(doc.to_string(), "KEY=value\n\n#@ block\nVAR=test\n##\n");
    let doc = parse("KEY=value\n\n\n#@ block\n\nVAR=test\n##\n\n").unwrap();
    assert_eq!(doc.to_string(), "KEY=value\n\n#@ block\nVAR=test\n##\n");
}

#[test]
fn last_line_needs_no_line_ending() {
    let doc = parse("KEY=value\n\n#@ block\nVAR=test\n##").unwrap();
    assert_eq!(doc.to_string(), "KEY=value\n\n#@ block\nVAR=test\n##\n");
}

#[test]
fn carriage_return_before_line_feed_ends_the_line() {
    let doc = parse("KEY=value\r\n#@ block\r\nVAR=test\r\n##\r\n").unwrap();
    assert_eq!(doc.to_string(), "KEY=value\n\n#@ block\nVAR=test\n##\n");
    let doc = parse("KEY=value\r").unwrap();
    assert_eq!(doc.get_default_block().unwrap().to_string(), "KEY=value\r");
}

#[test]
fn unclosed_block_is_left_out() {
    let doc = parse("#@ database_block\nDB_HOST=localhost\n").unwrap();
    assert_eq!(doc.blocks_len(), 1);
    assert_eq!(names(&doc), vec!["default"]);
    assert_eq!(doc.to_string(), "\n");
}

#[test]
fn comment_marker_and_leading_space_are_stripped() {
    let doc = parse("#note\n#   spaced  \n#\n# @block\n").unwrap();
    assert_eq!(
        doc.get_default_block().unwrap().to_string(),
        "# note\n# spaced  \n# \n# @block"
    );
}

#[test]
fn comments_may_repeat() {
    let doc = parse("# same\n# same\n").unwrap();
    assert_eq!(doc.get_default_block().unwrap().lines_len(), 2);
}

#[test]
fn block_name_is_trimmed() {
    let doc = parse("#@   spaced_name  \n##\n#@tight\n##\n").unwrap();
    assert_eq!(names(&doc), vec!["default", "spaced_name", "tight"]);
}

#[test]
fn same_key_may_stand_in_different_blocks() {
    let doc = parse("KEY=1\n#@ a\nKEY=2\n##\n#@ b\nKEY=3\n##\n").unwrap();
    assert_eq!(doc.blocks_len(), 3);
    assert_eq!(doc.get_block("b").unwrap().to_string(), "#@ b\nKEY=3\n##");
}

#[test]
fn missing_separator_is_refused() {
    assert!(matches!(
        parse("KEY=value\nJUSTAKEY\n"),
        Err(Error::ParsingError(ParsingErrors::MissingEqSeparator(1)))
    ));
}

#[test]
fn nested_block_is_refused() {
    match parse("#@ outer\n#@ inner\n##\n") {
        Err(Error::ParsingError(ParsingErrors::NestedBlock(line, name))) => {
            assert_eq!(line, 1);
            assert_eq!(name, "outer");
        }
        _ => panic!("blocks do not nest"),
    }
}

#[test]
fn closing_without_an_open_block_is_refused() {
    assert!(matches!(
        parse("KEY=value\n\n##\n"),
        Err(Error::ParsingError(ParsingErrors::BlockNeverOpened(2)))
    ));
}

#[test]
fn reserved_name_is_refused() {
    match parse("#@ default\n##\n") {
        Err(Error::ParsingError(ParsingErrors::ReservedWord(line, name))) => {
            assert_eq!(line, 0);
            assert_eq!(name, "default");
        }
        _ => panic!("the default block cannot be opened"),
    }
}

#[test]
fn duplicate_block_is_refused() {
    match parse("#@ a\n##\n#@ a\n##\n") {
        Err(Error::ParsingError(ParsingErrors::DuplicateBlock(name))) => assert_eq!(name, "a"),
        _ => panic!("a block name may occur once"),
    }
}

#[test]
fn duplicate_variable_is_refused() {
    match parse("KEY=1\nKEY=2\n") {
        Err(Error::ParsingError(ParsingErrors::DuplicateVariable(key, block))) => {
            assert_eq!(key, "KEY");
            assert_eq!(block, "default");
        }
        _ => panic!("a key may occur once in a block"),
    }
    match parse("#@ a\nKEY=1\nKEY=1\n##\n") {
        Err(Error::ParsingError(ParsingErrors::DuplicateVariable(key, block))) => {
            assert_eq!(key, "KEY");
            assert_eq!(block, "a");
        }
        _ => panic!("a key may occur once in a block"),
    }
}

#[test]
fn invalid_names_are_refused() {
    match parse("#@ Bad\n##\n") {
        Err(Error::NamingError(NamingErrors::StartsWithInvalidCharacter(line, c))) => {
            assert_eq!(line, 0);
            assert_eq!(c, "B");
        }
        _ => panic!("a block name takes no capitals"),
    }
    assert!(matches!(
        parse("#@\n##\n"),
        Err(Error::NamingError(NamingErrors::BlockNameEmpty))
    ));
    match parse("OK=1\nmy key=2\n") {
        Err(Error::NamingError(NamingErrors::VariableContainsInvalidCharacter(line, c))) => {
            assert_eq!(line, 1);
            assert_eq!(c, " ");
        }
        _ => panic!("a key holds no space"),
    }
    assert!(matches!(
        parse("=value\n"),
        Err(Error::NamingError(NamingErrors::VariableNameEmpty))
    ));
    match parse("#@ a b\n##\n") {
        Err(Error::NamingError(NamingErrors::BlockContainsInvalidCharacter(line, c))) => {
            assert_eq!(line, 0);
            assert_eq!(c, " ");
        }
        _ => panic!("a block name holds no space"),
    }
}

#[test]
fn marker_is_taken_off_once() {
    match parse("#@#@ a\n##\n") {
        Err(Error::NamingError(NamingErrors::StartsWithInvalidCharacter(_, c))) => {
            assert_eq!(c, "#")
        }
        _ => panic!("what follows the marker is the name"),
    }
}

#[test]
fn parsing_the_text_of_a_document_gives_the_document_again() {
    let input = "# top\nKEY=value\n\n#@ database_block\n# inside\nDB_HOST=localhost\nDB_PORT=5432\n##\n\n#@ empty_block\n\n##\n\n#@ api_block\nAPI_KEY=a=b\n##\n";
    let first = parse(input).unwrap().to_string();
    assert_eq!(first, input);
    let second = parse(&first).unwrap().to_string();
    assert_eq!(second, first);
    let messy = "\n\n  \nKEY=value\n#   note\n#@block\n\n\nVAR=test\n\n##\n";
    let once = parse(messy).unwrap().to_string();
    assert_eq!(once, "KEY=value\n# note\n\n#@ block\nVAR=test\n##\n");
    assert_eq!(parse(&once).unwrap().to_string(), once);
}

#[test]
fn non_ascii_text_is_kept() {
    let doc = parse("# caf\u{e9}\nKEY=\u{4f60}\u{597d}\n").unwrap();
    assert_eq!(
        doc.get_default_block().unwrap().to_string(),
        "# caf\u{e9}\nKEY=\u{4f60}\u{597d}"
    );
}

#[test]
fn file_content_is_parsed_and_read_failures_are_reported() {
    let doc = Parser::new()
        .parse_file(".env", Ok("KEY=value\n".to_string()))
        .unwrap();
    assert_eq!(doc.to_string(), "KEY=value\n");
    match Parser::new().parse_file("missing.env", Err("No such file".to_string())) {
        Err(Error::AccessError(AccessErrors::FileError(path, message))) => {
            assert_eq!(path, "missing.env");
            assert_eq!(message, "No such file");
        }
        _ => panic!("a read failure is reported with the path"),
    }
    assert!(matches!(
        Parser::new().parse_file(".env", Ok(String::new())),
        Err(Error::ParsingError(ParsingErrors::EmptyInput))
    ));
}

#[test]
fn carriage_return_at_the_end_of_a_value_is_not_read_back() {
    let doc = parse("KEY=value\r\r\n").unwrap();
    assert_eq!(doc.get_default_block().unwrap().to_string(), "KEY=value\r");
    let text = doc.to_string();
    assert_eq!(text, "KEY=value\r\n");
    let again = parse(&text).unwrap();
    assert_eq!(again.get_default_block().unwrap().to_string(), "KEY=value");
}

#[test]
fn line_numbers_wrap_after_65536_lines() {
    let mut input = "\n".repeat(65535);
    input.push_str("JUSTAKEY\n");
    assert!(matches!(
        parse(&input),
        Err(Error::ParsingError(ParsingErrors::MissingEqSeparator(65535)))
    ));
    let mut input = "\n".repeat(65536);
    input.push_str("JUSTAKEY\n");
    assert!(matches!(
        parse(&input),
        Err(Error::ParsingError(ParsingErrors::MissingEqSeparator(0)))
    ));
    let mut input = "\n".repeat(65538);
    input.push_str("##\n");
    assert!(matches!(
        parse(&input),
        Err(Error::ParsingError(ParsingErrors::BlockNeverOpened(2)))
    ));
}

#[test]
fn long_texts_are_parsed() {
    let mut input = String::new();
    let mut expected = String::new();
    let mut i = 0;
    while i < 20000 {
        input.push_str(&format!("KEY_{}=value {}\n\n", i, i));
        expected.push_str(&format!("KEY_{}=value {}\n", i, i));
        i += 1;
    }
    let doc = parse(&input).unwrap();
    assert_eq!(doc.get_default_block().unwrap().lines_len(), 20000);
    assert_eq!(doc.to_string(), expected);
}
