use envmn::block::Block;
use envmn::constants::DEFAULT_BLOCK_NAME;
use envmn::document::Document;
use envmn::error::{AccessErrors, Error, ParsingErrors};
use envmn::variable::Variable;

fn names(doc: &Document) -> Vec<String> {
    doc.get_blocks().iter().map(|b| b.name.clone()).collect()
}

#[test]
fn test_new_document_and_default_block_exists_initially() {
    let doc = Document::new();
    assert_eq!(doc.get_blocks().first().unwrap().name, DEFAULT_BLOCK_NAME);
}

#[test]
fn test_blocks_len() {
    let mut doc = Document::new();
    assert_eq!(doc.blocks_len(), 1);
    doc.add_block(Block::new("test")).unwrap();
    assert_eq!(doc.blocks_len(), 2);
}

#[test]
fn test_add_block_at_the_end() {
    let mut doc = Document::new();
    assert_eq!(doc.get_blocks().last().unwrap().name, DEFAULT_BLOCK_NAME);
    doc.add_block(Block::new("test")).unwrap();
    assert_eq!(doc.blocks_len(), 2);
    assert_eq!(doc.get_blocks().last().unwrap().name, "test");
}

#[test]
fn test_fail_to_add_default_block() {
    let mut doc = Document::new();
    assert!(doc.add_block(Block::default()).is_err());
}

#[test]
fn test_fail_to_add_duplicate_block() {
    let mut doc = Document::new();
    doc.add_block(Block::new("test")).unwrap();
    assert!(doc.add_block(Block::new("test")).is_err());
}

#[test]
fn test_get_block_index_by_name() {
    let mut doc = Document::new();
    doc.add_block(Block::new("test")).unwrap();
    let index = doc.get_index("test");
    assert!(index.is_some());
    assert_eq!(index.unwrap(), 1);
}

#[test]
fn test_fail_to_get_non_existing_block_index() {
    let doc = Document::new();
    let index = doc.get_index("test");
    assert!(index.is_none());
}

#[test]
fn test_get_default_block() {
    let doc = Document::new();
    assert_eq!(doc.get_default_block().unwrap().name, DEFAULT_BLOCK_NAME);
}

#[test]
fn test_get_default_block_mut() {
    let mut doc = Document::new();
    assert_eq!(
        doc.get_default_block_mut().unwrap().name,
        DEFAULT_BLOCK_NAME
    );
}

#[test]
fn test_default_always_exists_and_first() {
    let mut doc = Document::new();
    assert!(doc.get_default_block().is_ok());
    doc.add_block(Block::new("test")).unwrap();
    doc.add_block(Block::new("test2")).unwrap();
    assert_eq!(doc.get_blocks().first().unwrap().name, DEFAULT_BLOCK_NAME);
}

#[test]
fn test_pick_block() {
    let mut doc = Document::new();
    doc.add_block(Block::new("test")).unwrap();
    doc.add_block(Block::new("test1")).unwrap();
    doc.pick("test").unwrap();
    assert_eq!(doc.get_blocks().last().unwrap().name, "test");
}

#[test]
fn test_display_empty_document() {
    let doc = Document::new();
    assert_eq!(
        doc.to_string(),
        format!("{0}\n", Block::default().to_string())
    );
}

#[test]
fn test_display_with_1_block_document() {
    let mut doc = Document::new();

    doc.add_block(Block::new("test")).unwrap();
    assert_eq!(
        doc.to_string(),
        format!(
            "{0}\n\n{1}\n",
            Block::default().to_string(),
            Block::new("test").to_string()
        )
    );
}

#[test]
fn test_display_with_2_block_document() {
    let mut doc = Document::new();

    doc.add_block(Block::new("test")).unwrap();

    doc.add_block(Block::new("test2")).unwrap();
    assert_eq!(
        doc.to_string(),
        format!(
            "{0}\n\n{1}\n\n{2}\n",
            Block::default().to_string(),
            Block::new("test").to_string(),
            Block::new("test2").to_string()
        )
    );
}

#[test]
fn document_text_is_exact() {
    let mut doc = Document::new();
    assert_eq!(doc.to_string(), "\n");
    doc.get_default_block_mut()
        .unwrap()
        .add_variable(Variable::new("KEY", "value"))
        .unwrap();
    let mut block = Block::new("block");
    block.add_variable(Variable::new("VAR", "test")).unwrap();
    doc.add_block(block).unwrap();
    assert_eq!(doc.to_string(), "KEY=value\n\n#@ block\nVAR=test\n##\n");
}

#[test]
fn tags_are_written_with_the_block() {
    let mut doc = Document::new();
    doc.add_block(Block::new_with_tags(
        "blk",
        vec!["a".to_string(), "b".to_string()],
    ))
    .unwrap();
    assert_eq!(doc.to_string(), "\n\n#@ blk [a b]\n\n##\n");
}

#[test]
fn second_block_of_a_name_is_refused() {
    let mut doc = Document::new();
    let mut first = Block::new("test");
    first.add_comment("first");
    doc.add_block(first).unwrap();
    let mut second = Block::new_with_tags("test", vec!["tag".to_string()]);
    second.add_comment("second");
    match doc.add_block(second) {
        Err(Error::ParsingError(ParsingErrors::DuplicateBlock(name))) => assert_eq!(name, "test"),
        _ => panic!("the second block of a name is refused"),
    }
    assert_eq!(doc.blocks_len(), 2);
    assert_eq!(doc.to_string(), "\n\n#@ test\n# first\n##\n");
}

#[test]
fn pick_keeps_the_order_of_the_other_blocks() {
    let mut doc = Document::new();
    doc.add_block(Block::new("a")).unwrap();
    doc.add_block(Block::new("b")).unwrap();
    doc.add_block(Block::new("c")).unwrap();
    doc.pick("a").unwrap();
    assert_eq!(names(&doc), vec!["default", "b", "c", "a"]);
    assert_eq!(doc.get_index("a"), Some(3));
    assert_eq!(doc.get_index("b"), Some(1));
    assert_eq!(doc.get_index("c"), Some(2));
    doc.pick("c").unwrap();
    assert_eq!(names(&doc), vec!["default", "b", "a", "c"]);
}

#[test]
fn pick_twice_is_pick_once() {
    let mut doc = Document::new();
    doc.add_block(Block::new("a")).unwrap();
    doc.add_block(Block::new("b")).unwrap();
    doc.pick("a").unwrap();
    let once = doc.to_string();
    doc.pick("a").unwrap();
    assert_eq!(doc.to_string(), once);
    assert_eq!(names(&doc), vec!["default", "b", "a"]);
}

#[test]
fn pick_refuses_the_default_block_and_missing_blocks() {
    let mut doc = Document::new();
    doc.add_block(Block::new("a")).unwrap();
    assert!(matches!(
        doc.pick("default"),
        Err(Error::AccessError(AccessErrors::DefaultBlockNotMovable))
    ));
    match doc.pick("missing") {
        Err(Error::AccessError(AccessErrors::BlockNotFound(name))) => assert_eq!(name, "missing"),
        _ => panic!("a missing block cannot be picked"),
    }
    assert_eq!(names(&doc), vec!["default", "a"]);
}

#[test]
fn get_block_finds_blocks_by_name() {
    let mut doc = Document::new();
    let mut block = Block::new("a");
    block.add_comment("note");
    doc.add_block(block).unwrap();
    assert_eq!(doc.get_block("a").unwrap().to_string(), "#@ a\n# note\n##");
    assert_eq!(doc.get_block("default").unwrap().to_string(), "");
    assert!(doc.get_block("b").is_none());
}

#[test]
fn document_clone_keeps_blocks_and_order() {
    let mut doc = Document::new();
    let mut block = Block::new("a");
    block.add_variable(Variable::new("KEY", "value")).unwrap();
    doc.add_block(block).unwrap();
    doc.add_block(Block::new("b")).unwrap();
    let mut copy = doc.clone();
    assert_eq!(copy.to_string(), doc.to_string());
    assert_eq!(copy.get_index("b"), Some(2));
    assert!(copy.add_block(Block::new("a")).is_err());
    copy.pick("a").unwrap();
    assert_eq!(names(&copy), vec!["default", "b", "a"]);
    assert_eq!(names(&doc), vec!["default", "a", "b"]);
}

#[test]
fn documents_are_equal_by_their_blocks() {
    let mut one = Document::new();
    one.add_block(Block::new("a")).unwrap();
    one.add_block(Block::new("b")).unwrap();
    let mut other = Document::new();
    other.add_block(Block::new("b")).unwrap();
    let mut filled = Block::new("a");
    filled.add_comment("note");
    other.add_block(filled).unwrap();
    assert_eq!(one, other);
    assert_eq!(one, one.clone());
    let mut third = Document::new();
    third.add_block(Block::new("a")).unwrap();
    assert_ne!(one, third);
    third.add_block(Block::new("c")).unwrap();
    assert_ne!(one, third);
    let mut tagged = Document::new();
    tagged.add_block(Block::new("a")).unwrap();
    tagged
        .add_block(Block::new_with_tags("b", vec!["t".to_string()]))
        .unwrap();
    assert_ne!(one, tagged);
}
