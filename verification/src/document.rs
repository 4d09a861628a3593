//! Decoding a saved game from its text: the text is tokenized, the tape is
//! turned into a token tree, and the tree is bound as a saved game.

use vstd::prelude::*;
use crate::error::{DecodeError, DecodeErrorView};
use crate::binder::bind;
use crate::models::gamestate::Gamestate;
use crate::record::Reencodings;
use crate::schema::{Config, RecordDescriptor, RecordDescriptorView};
use crate::semantics::bind_spec;
use crate::tape::{build_tree, record_view_of, tokenize, tokens_of, tree_of, TapeError};
use crate::token::{Node, NodeView};

verus! {

/// Why a text did not decode.
#[derive(Debug, PartialEq, Eq)]
pub enum TextError {
    /// The tokenizer refused the text.
    Syntax,
    /// The tape spells no token tree.
    Malformed,
    /// The text nests too deep, or its token tree does not decode under
    /// the schema.
    Decode(DecodeError),
}

/// The mathematical value of a [`TextError`].
pub enum TextErrorView {
    Syntax,
    Malformed,
    Decode(DecodeErrorView),
}

/// The error of a text for the error of its tape: blocks that nest too
/// deep exceed the depth, as records do.
pub open spec fn tape_failure(error: TapeError) -> TextErrorView {
    match error {
        TapeError::Malformed => TextErrorView::Malformed,
        TapeError::TooDeep => TextErrorView::Decode(DecodeErrorView::DepthExceeded),
    }
}

impl View for TextError {
    type V = TextErrorView;

    open spec fn view(&self) -> TextErrorView {
        match self {
            TextError::Syntax => TextErrorView::Syntax,
            TextError::Malformed => TextErrorView::Malformed,
            TextError::Decode(error) => TextErrorView::Decode(error@),
        }
    }
}

/// The token tree of a text, with blocks nesting no deeper than `limit`,
/// and with the empty blocks that `record` binds as records turned into
/// objects.
pub open spec fn parsed(
    data: Seq<u8>,
    limit: nat,
    record: Option<RecordDescriptorView>,
) -> Result<NodeView, TextErrorView> {
    match tokens_of(data) {
        Some(tokens) => match tree_of(tokens, limit, record) {
            Ok(root) => Ok(root),
            Err(error) => Err(tape_failure(error)),
        },
        None => Err(TextErrorView::Syntax),
    }
}

/// The mathematical value of a token tree or the error in its place.
pub open spec fn parsed_view(r: Result<Node, TextError>) -> Result<NodeView, TextErrorView> {
    match r {
        Ok(node) => Ok(node@),
        Err(error) => Err(error@),
    }
}

/// Tokenizes a text and builds its token tree: the top level of the text as
/// an object node. Where `record` is given, it is the descriptor that the
/// tree is to be bound against.
pub fn parse_text(data: &[u8], limit: usize, record: Option<&RecordDescriptor>) -> (r: Result<
    Node,
    TextError,
>)
    ensures
        parsed_view(r) == parsed(data@, limit as nat, record_view_of(record)),
{
    match tokenize(data) {
        Some(tokens) => match build_tree(&tokens, limit, record) {
            Ok(root) => Ok(root),
            Err(TapeError::Malformed) => Err(TextError::Malformed),
            Err(TapeError::TooDeep) => Err(TextError::Decode(DecodeError::DepthExceeded)),
        },
        None => Err(TextError::Syntax),
    }
}

/// Decodes the text of a saved game. Blocks may nest as deep as
/// `config.max_depth`, whether or not a field reads them.
pub fn decode_document(
    data: &[u8],
    metadata: RecordDescriptor,
    reencodings: &Reencodings,
    config: &Config,
) -> (r: Result<Gamestate, TextError>)
    ensures
        match parsed(
            data@,
            config.max_depth as nat,
            Some(Gamestate::schema(metadata@, *reencodings)),
        ) {
            Ok(root) => match bind_spec(
                root,
                Gamestate::schema(metadata@, *reencodings),
                config.era,
                config.max_depth as nat,
            ) {
                Ok(value) => r is Ok && r->Ok_0@ == Gamestate::of(value),
                Err(error) => r is Err && r->Err_0@ == TextErrorView::Decode(error),
            },
            Err(error) => r is Err && r->Err_0@ == error,
        },
{
    let descriptor = Gamestate::descriptor(metadata, reencodings);
    match parse_text(data, config.max_depth, Some(&descriptor)) {
        Ok(root) => match bind(&root, &descriptor, config) {
            Ok(value) => Ok(Gamestate::from_value(value)),
            Err(error) => Err(TextError::Decode(error)),
        },
        Err(error) => Err(error),
    }
}

} // verus!
