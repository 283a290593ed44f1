//! The markers of the grammar and the reserved block name.

use vstd::prelude::*;

verus! {

/// Opens a named block.
pub const BLOCK_START_SYMBOL: &'static str = "#@";

/// Closes the open block.
pub const BLOCK_END_SYMBOL: &'static str = "##";

/// Stands between a variable's key and its value.
pub const KV_DELIMITER: &'static str = "=";

/// Begins a comment.
pub const COMMENT_SYMBOL: &'static str = "#";

/// The name of the block that holds the lines outside every named block.
pub const DEFAULT_BLOCK_NAME: &'static str = "default";

/// Opens the list of a block's tags.
pub const TAGS_START_SYMBOL: &'static str = "[";

/// Closes the list of a block's tags.
pub const TAGS_END_SYMBOL: &'static str = "]";

/// The tag kept for blocks whose body is encrypted.
pub const ENCRYPTED_BLOCK_TAG: &'static str = "__encrypted__";

} // verus!
