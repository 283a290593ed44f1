use envmn::cli::{Cli, Commands, InputSource};
use envmn::engine::{Engine, Output, HELP_TEXT};
use envmn::error::{AccessErrors, CliErrors, Error};
use envmn::parser::Parser;

const TWO_BLOCKS: &str =
    "KEY=value\n\n#@ database_block\nDB_HOST=localhost\n##\n\n#@ api_block\nAPI_KEY=secret\n##\n";

fn engine(command: Commands, input: Option<InputSource>, text: &str) -> Engine {
    let document = Parser::new().parse(text).unwrap();
    Engine::new(Cli { input, command }, document)
}

fn piped(text: &str) -> Option<InputSource> {
    Some(InputSource::StdIn(text.to_string()))
}

fn file(path: &str) -> Option<InputSource> {
    Some(InputSource::FileName(path.to_string()))
}

#[test]
fn lint_writes_nothing() {
    let r = engine(Commands::Lint, piped(TWO_BLOCKS), TWO_BLOCKS).process();
    assert!(matches!(r, Ok(Output::Nothing)));
}

#[test]
fn list_names_the_blocks_in_order() {
    let r = engine(Commands::List, file("a.env"), TWO_BLOCKS).process();
    match r {
        Ok(Output::Print(text)) => assert_eq!(
            text,
            "Blocks (3):\n- default\n- database_block\n- api_block\n"
        ),
        _ => panic!("list prints"),
    }
    let e = engine(Commands::List, None, "\n");
    assert_eq!(e.process_list_cmd(), "Blocks (1):\n- default\n");
}

#[test]
fn format_goes_back_to_where_the_input_came_from() {
    let messy = "KEY=value\n\n\n#@ block\n\nVAR=test\n##\n\n";
    let tidy = "KEY=value\n\n#@ block\nVAR=test\n##\n";
    match engine(Commands::Format, piped(messy), messy).process() {
        Ok(Output::Print(text)) => assert_eq!(text, tidy),
        _ => panic!("piped input is printed"),
    }
    match engine(Commands::Format, file("a.env"), messy).process() {
        Ok(Output::Write(path, text)) => {
            assert_eq!(path, "a.env");
            assert_eq!(text, tidy);
        }
        _ => panic!("a file is written back"),
    }
    assert!(matches!(
        engine(Commands::Format, None, messy).process(),
        Err(Error::CliError(CliErrors::NoInputFound))
    ));
    match engine(Commands::Format, piped(messy), messy).process_format_cmd() {
        Ok(Output::Print(text)) => assert_eq!(text, tidy),
        _ => panic!("piped input is printed"),
    }
}

#[test]
fn pick_moves_the_block_behind_the_others() {
    let command = Commands::Pick {
        block_name: "database_block".to_string(),
    };
    match engine(command, piped(TWO_BLOCKS), TWO_BLOCKS).process() {
        Ok(Output::Print(text)) => {
            assert_eq!(
                text,
                "KEY=value\n\n#@ api_block\nAPI_KEY=secret\n##\n\n#@ database_block\nDB_HOST=localhost\n##\n"
            );
            let db = text.find("#@ database_block").unwrap();
            let api = text.find("#@ api_block").unwrap();
            assert!(api < db);
        }
        _ => panic!("piped input is printed"),
    }
    let e = engine(Commands::Lint, file("a.env"), TWO_BLOCKS);
    match e.process_pick_cmd("api_block".to_string()) {
        Ok(Output::Write(path, text)) => {
            assert_eq!(path, "a.env");
            assert_eq!(text, TWO_BLOCKS);
        }
        _ => panic!("a file is written back"),
    }
}

#[test]
fn pick_reports_what_cannot_be_picked() {
    let command = Commands::Pick {
        block_name: "nonexistent_block".to_string(),
    };
    let text = "KEY=value\n\n#@ existing_block\nVAR=test\n##\n";
    match engine(command, file("a.env"), text).process() {
        Err(e) => {
            assert!(matches!(&e, Error::AccessError(AccessErrors::BlockNotFound(name))
                if name == "nonexistent_block"));
            assert!(e.to_string().contains("was not found"));
        }
        _ => panic!("a missing block cannot be picked"),
    }
    let command = Commands::Pick {
        block_name: "default".to_string(),
    };
    assert!(matches!(
        engine(command, None, text).process(),
        Err(Error::AccessError(AccessErrors::DefaultBlockNotMovable))
    ));
    let command = Commands::Pick {
        block_name: "existing_block".to_string(),
    };
    assert!(matches!(
        engine(command, None, text).process(),
        Err(Error::CliError(CliErrors::NoInputFound))
    ));
}

#[test]
fn version_and_help_are_no_operations_on_a_document() {
    assert!(matches!(
        engine(Commands::Help, None, "\n").process(),
        Err(Error::CliError(CliErrors::NoOperationFound))
    ));
    let command = Commands::Version {
        name: "envmn".to_string(),
        version: "0.2.7".to_string(),
    };
    assert!(matches!(
        engine(command, None, "\n").process(),
        Err(Error::CliError(CliErrors::NoOperationFound))
    ));
}

#[test]
fn version_and_help_texts() {
    assert_eq!(
        Engine::process_version_cmd("envmn", "0.2.7"),
        "envmn version 0.2.7\n"
    );
    let help = Engine::process_help_cmd();
    assert_eq!(help, HELP_TEXT);
    assert!(help.contains("pick <block>"));
    assert!(help.contains("environment manager"));
}
