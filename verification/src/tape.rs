//! The token tape that `jomini` makes of a text, and the token tree that a
//! tape spells.
//!
//! A tape is flat: a block is an opening token that holds the index of its
//! closing token, the tokens of its content, and the closing token. The top
//! level of a text is the content of an object without opening and closing
//! tokens.

use vstd::prelude::*;
use crate::binder::key_among;
use crate::decoders::parse_id;
use crate::schema::{
    fields_view,
    lemma_record_view,
    Cardinality,
    FieldDescriptor,
    Hint,
    HintView,
    RecordDescriptor,
    RecordDescriptorView,
};
use crate::semantics::field_reads;
use crate::token::{
    copy_bytes,
    entries_view,
    lemma_node_view,
    nodes_view,
    Entry,
    EntryView,
    Node,
    NodeView,
};

verus! {

/// The tape of `jomini`, which holds the tokens of a text.
#[verifier::external_type_specification]
#[verifier::external_body]
pub struct ExTextTape<'a>(jomini::TextTape<'a>);

/// The error with which `jomini` refuses a text.
#[verifier::external_type_specification]
#[verifier::external_body]
pub struct ExSyntaxError(jomini::Error);

/// One token of a tape.
#[derive(Debug, PartialEq, Eq)]
pub enum Token {
    /// A scalar, quoted or not, without its quotes.
    Scalar(Vec<u8>),
    /// The word in front of a block, as `rgb` in `rgb { 1 2 3 }`.
    Header(Vec<u8>),
    /// The start of an object, with the index of its closing token.
    Object(usize),
    /// The start of an array, with the index of its closing token.
    Array(usize),
    /// The end of a block.
    End,
    /// An operator other than `=` between a key and its value.
    Operator,
    /// A token that no token tree holds: a parameter of a script, or the
    /// mark where a block turns from object to array.
    Other,
}

/// The mathematical value of a [`Token`].
pub enum TokenView {
    Scalar(Seq<u8>),
    Header(Seq<u8>),
    Object(int),
    Array(int),
    End,
    Operator,
    Other,
}

impl View for Token {
    type V = TokenView;

    open spec fn view(&self) -> TokenView {
        match self {
            Token::Scalar(raw) => TokenView::Scalar(raw@),
            Token::Header(raw) => TokenView::Header(raw@),
            Token::Object(end) => TokenView::Object(*end as int),
            Token::Array(end) => TokenView::Array(*end as int),
            Token::End => TokenView::End,
            Token::Operator => TokenView::Operator,
            Token::Other => TokenView::Other,
        }
    }
}

/// The mathematical values of a run of tokens.
pub open spec fn tokens_view(tokens: Seq<Token>) -> Seq<TokenView> {
    Seq::new(tokens.len(), |i: int| tokens[i]@)
}

/// Why a tape spells no token tree.
#[derive(Clone, Copy, Debug, PartialEq, Eq, Structural)]
pub enum TapeError {
    /// A token stands where none of its kind can: a key that is no scalar,
    /// a value that is no scalar and no block, a block whose closing index
    /// does not point at a closing token inside the enclosing block.
    Malformed,
    /// Blocks nest deeper than the limit.
    TooDeep,
}

/// A node together with the index of the token after it.
pub struct Step {
    pub node: NodeView,
    pub next: int,
}

/// The hint of the first field, from the field at `from` on, that reads
/// `key`.
pub open spec fn reader_of(record: RecordDescriptorView, key: Seq<u8>, from: int) -> Option<
    HintView,
>
    decreases record.fields.len() - from,
{
    if from < 0 || from >= record.fields.len() {
        None
    } else if field_reads(record.fields[from], key) {
        Some(record.fields[from].hint)
    } else {
        reader_of(record, key, from + 1)
    }
}

/// What a schema expects of the value under `key`: the hint of the first
/// field that reads the key, if the block is bound as a record and a field
/// reads the key.
pub open spec fn expected_under(record: Option<RecordDescriptorView>, key: Seq<u8>) -> Option<
    HintView,
> {
    match record {
        Some(record) => reader_of(record, key, 0),
        None => None,
    }
}

/// The record that a block is bound as, if it is expected to be one.
pub open spec fn expected_record(expect: Option<HintView>) -> Option<RecordDescriptorView> {
    match expect {
        Some(HintView::Nested(record)) => Some(record),
        _ => None,
    }
}

/// What is expected of the items of a block, if it is expected to be a
/// list.
pub open spec fn expected_item(expect: Option<HintView>) -> Option<HintView> {
    match expect {
        Some(HintView::List(item)) => Some(*item),
        _ => None,
    }
}

/// The value that starts at `at` inside a block that closes at `end`, with
/// room for `room` more levels of blocks. A header counts as a scalar here.
/// An empty block is written the same whether it is an object or an array,
/// and the tape marks it as an array: where a record is expected, it is an
/// object without entries.
pub open spec fn value_at(
    tokens: Seq<TokenView>,
    at: int,
    end: int,
    room: nat,
    expect: Option<HintView>,
) -> Result<Step, TapeError>
    decreases end - at, 0nat,
{
    if 0 <= at < end <= tokens.len() {
        match tokens[at] {
            TokenView::Scalar(raw) => Ok(Step { node: NodeView::Scalar(raw), next: at + 1 }),
            TokenView::Header(raw) => Ok(Step { node: NodeView::Scalar(raw), next: at + 1 }),
            TokenView::Object(close) => if at < close < end && tokens[close] is End {
                if room == 0 {
                    Err(TapeError::TooDeep)
                } else {
                    match entries_from(
                        tokens,
                        at + 1,
                        close,
                        (room - 1) as nat,
                        expected_record(expect),
                    ) {
                        Ok(entries) => Ok(
                            Step { node: NodeView::Object(entries), next: close + 1 },
                        ),
                        Err(error) => Err(error),
                    }
                }
            } else {
                Err(TapeError::Malformed)
            },
            TokenView::Array(close) => if at < close < end && tokens[close] is End {
                if room == 0 {
                    Err(TapeError::TooDeep)
                } else if close == at + 1 && expected_record(expect) is Some {
                    Ok(Step { node: NodeView::Object(Seq::empty()), next: close + 1 })
                } else {
                    match items_from(
                        tokens,
                        at + 1,
                        close,
                        (room - 1) as nat,
                        expected_item(expect),
                    ) {
                        Ok(items) => Ok(Step { node: NodeView::Array(items), next: close + 1 }),
                        Err(error) => Err(error),
                    }
                }
            } else {
                Err(TapeError::Malformed)
            },
            _ => Err(TapeError::Malformed),
        }
    } else {
        Err(TapeError::Malformed)
    }
}

/// The value of a field that starts at `at`. A block with a header in front
/// is the array of the header and the block, and needs room for one level
/// more than the block alone.
pub open spec fn field_value_at(
    tokens: Seq<TokenView>,
    at: int,
    end: int,
    room: nat,
    expect: Option<HintView>,
) -> Result<Step, TapeError>
    decreases end - at, 1nat,
{
    if 0 <= at < end <= tokens.len() && tokens[at] is Header {
        if room == 0 {
            Err(TapeError::TooDeep)
        } else {
            match value_at(tokens, at + 1, end, (room - 1) as nat, None) {
                Ok(step) => Ok(
                    Step {
                        node: NodeView::Array(
                            Seq::empty().push(NodeView::Scalar(tokens[at]->Header_0)).push(
                                step.node,
                            ),
                        ),
                        next: step.next,
                    },
                ),
                Err(error) => Err(error),
            }
        }
    } else {
        value_at(tokens, at, end, room, expect)
    }
}

/// The items from `from` up to the closing token at `end`.
pub open spec fn items_from(
    tokens: Seq<TokenView>,
    from: int,
    end: int,
    room: nat,
    expect: Option<HintView>,
) -> Result<Seq<NodeView>, TapeError>
    decreases end - from, 1nat,
{
    if from >= end {
        Ok(Seq::empty())
    } else {
        match value_at(tokens, from, end, room, expect) {
            Ok(step) => if from < step.next <= end {
                match items_from(tokens, step.next, end, room, expect) {
                    Ok(rest) => Ok(Seq::empty().push(step.node) + rest),
                    Err(error) => Err(error),
                }
            } else {
                Err(TapeError::Malformed)
            },
            Err(error) => Err(error),
        }
    }
}

/// The index at which the value of the field whose key is at `from`
/// starts: after the key, and after an operator if one follows the key.
pub open spec fn value_start(tokens: Seq<TokenView>, from: int, end: int) -> int {
    if from + 1 < end && from + 1 < tokens.len() && tokens[from + 1] is Operator {
        from + 2
    } else {
        from + 1
    }
}

/// The entries from `from` up to the closing token at `end`: each a key
/// that is a scalar, an operator or none, and a value.
pub open spec fn entries_from(
    tokens: Seq<TokenView>,
    from: int,
    end: int,
    room: nat,
    record: Option<RecordDescriptorView>,
) -> Result<Seq<EntryView>, TapeError>
    decreases end - from, 2nat,
{
    if from >= end {
        Ok(Seq::empty())
    } else if 0 <= from < tokens.len() && tokens[from] is Scalar {
        let key = tokens[from]->Scalar_0;
        let start = value_start(tokens, from, end);
        match field_value_at(tokens, start, end, room, expected_under(record, key)) {
            Ok(step) => if start < step.next <= end {
                match entries_from(tokens, step.next, end, room, record) {
                    Ok(rest) => Ok(Seq::empty().push(EntryView { key, node: step.node }) + rest),
                    Err(error) => Err(error),
                }
            } else {
                Err(TapeError::Malformed)
            },
            Err(error) => Err(error),
        }
    } else {
        Err(TapeError::Malformed)
    }
}

/// The token tree that a tape spells: the object of the entries of its top
/// level, with blocks nesting no deeper than `limit`, and with the empty
/// blocks that `record` binds as records turned into objects.
pub open spec fn tree_of(
    tokens: Seq<TokenView>,
    limit: nat,
    record: Option<RecordDescriptorView>,
) -> Result<NodeView, TapeError> {
    match entries_from(tokens, 0, tokens.len() as int, limit, record) {
        Ok(entries) => Ok(NodeView::Object(entries)),
        Err(error) => Err(error),
    }
}

/// The tokens that a tape of `jomini` holds, each as the token of this
/// library that stands for it.
pub uninterp spec fn tape_tokens(tape: jomini::TextTape) -> Seq<TokenView>;

/// The tokens of the tape that `jomini::TextTape::from_slice` makes of a
/// text; none for a text that it refuses.
pub uninterp spec fn tokens_of(data: Seq<u8>) -> Option<Seq<TokenView>>;

/// Tokenizes a text with `jomini::TextTape::from_slice`. The tape, or the
/// refusal, depends on the text alone.
#[verifier::external_body]
fn parse_tape<'a>(data: &'a [u8]) -> (r: Result<jomini::TextTape<'a>, jomini::Error>)
    ensures
        match r {
            Ok(tape) => tokens_of(data@) == Some(tape_tokens(tape)),
            Err(_) => tokens_of(data@) is None,
        },
{
    jomini::TextTape::from_slice(data)
}

/// The number of tokens that `jomini::TextTape::tokens` hands out.
#[verifier::external_body]
fn tape_len(tape: &jomini::TextTape) -> (len: usize)
    ensures
        len == tape_tokens(*tape).len(),
{
    tape.tokens().len()
}

/// The token at `index` of what `jomini::TextTape::tokens` hands out, as a
/// token of this library: a scalar, quoted or not, or a header with a copy
/// of its bytes, the start of a block with the index of its end, the end of
/// a block and an operator without what they hold, and a token of any other
/// kind as [`Token::Other`].
#[verifier::external_body]
fn tape_token(tape: &jomini::TextTape, index: usize) -> (token: Token)
    requires
        index < tape_tokens(*tape).len(),
    ensures
        token@ == tape_tokens(*tape)[index as int],
{
    match &tape.tokens()[index] {
        jomini::TextToken::Unquoted(scalar) => Token::Scalar(scalar.as_bytes().to_vec()),
        jomini::TextToken::Quoted(scalar) => Token::Scalar(scalar.as_bytes().to_vec()),
        jomini::TextToken::Header(scalar) => Token::Header(scalar.as_bytes().to_vec()),
        jomini::TextToken::Object { end, .. } => Token::Object(*end),
        jomini::TextToken::Array { end, .. } => Token::Array(*end),
        jomini::TextToken::End(_) => Token::End,
        jomini::TextToken::Operator(_) => Token::Operator,
        _ => Token::Other,
    }
}

/// The mathematical value of an optional run of tokens.
pub open spec fn tokens_view_of(o: Option<Vec<Token>>) -> Option<Seq<TokenView>> {
    match o {
        Some(tokens) => Some(tokens_view(tokens@)),
        None => None,
    }
}

/// Tokenizes a text; `None` for a text that is refused.
pub fn tokenize(data: &[u8]) -> (r: Option<Vec<Token>>)
    ensures
        tokens_view_of(r) == tokens_of(data@),
{
    match parse_tape(data) {
        Ok(tape) => {
            let count = tape_len(&tape);
            let mut tokens: Vec<Token> = Vec::new();
            let mut i: usize = 0;
            while i < count
                invariant
                    i <= count,
                    count == tape_tokens(tape).len(),
                    tokens.len() == i,
                    forall|k: int| 0 <= k < i ==> (#[trigger] tokens[k])@ == tape_tokens(tape)[k],
                decreases count - i,
            {
                tokens.push(tape_token(&tape, i));
                i += 1;
            }
            assert(tokens_view(tokens@) =~= tape_tokens(tape));
            Some(tokens)
        },
        Err(_) => None,
    }
}

/// The mathematical value of a step or the error in its place.
pub open spec fn step_view(r: Result<(Node, usize), TapeError>) -> Result<Step, TapeError> {
    match r {
        Ok((node, next)) => Ok(Step { node: node@, next: next as int }),
        Err(error) => Err(error),
    }
}

/// The mathematical value of a run of nodes or the error in its place.
pub open spec fn items_result_view(r: Result<Vec<Node>, TapeError>) -> Result<
    Seq<NodeView>,
    TapeError,
> {
    match r {
        Ok(items) => Ok(nodes_view(items@)),
        Err(error) => Err(error),
    }
}

/// The mathematical value of a run of entries or the error in its place.
pub open spec fn entries_result_view(r: Result<Vec<Entry>, TapeError>) -> Result<
    Seq<EntryView>,
    TapeError,
> {
    match r {
        Ok(entries) => Ok(entries_view(entries@)),
        Err(error) => Err(error),
    }
}

/// The mathematical value of a tree or the error in its place.
pub open spec fn tree_view(r: Result<Node, TapeError>) -> Result<NodeView, TapeError> {
    match r {
        Ok(node) => Ok(node@),
        Err(error) => Err(error),
    }
}

/// The mathematical value of an optional hint.
pub open spec fn hint_view_of(o: Option<&Hint>) -> Option<HintView> {
    match o {
        Some(hint) => Some(hint@),
        None => None,
    }
}

/// The mathematical value of an optional record descriptor.
pub open spec fn record_view_of(o: Option<&RecordDescriptor>) -> Option<RecordDescriptorView> {
    match o {
        Some(record) => Some(record@),
        None => None,
    }
}

/// Whether a field reads an entry written under `key`.
pub fn reads(field: &FieldDescriptor, key: &[u8]) -> (r: bool)
    ensures
        r == field_reads(field@, key@),
{
    match field.cardinality {
        Cardinality::Keyed => parse_id(key).is_some(),
        _ => key_among(key, &field.aliases),
    }
}

/// What the schema expects of the value under `key`.
pub fn expect_under<'a>(record: Option<&'a RecordDescriptor>, key: &[u8]) -> (r: Option<&'a Hint>)
    ensures
        hint_view_of(r) == expected_under(record_view_of(record), key@),
{
    match record {
        Some(known) => {
            proof {
                lemma_record_view(*known);
            }
            let mut i: usize = 0;
            while i < known.fields.len()
                invariant
                    i <= known.fields.len(),
                    record == Some(known),
                    known@.fields == fields_view(known.fields@),
                    reader_of(known@, key@, 0) == reader_of(known@, key@, i as int),
                decreases known.fields.len() - i,
            {
                assert(known@.fields[i as int] == known.fields[i as int]@);
                if reads(&known.fields[i], key) {
                    return Some(&known.fields[i].hint);
                }
                i += 1;
            }
            None
        },
        None => None,
    }
}

/// The record that a block is bound as, if it is expected to be one.
pub fn expect_record<'a>(expect: Option<&'a Hint>) -> (r: Option<&'a RecordDescriptor>)
    ensures
        record_view_of(r) == expected_record(hint_view_of(expect)),
{
    match expect {
        Some(hint) => match hint {
            Hint::Nested(record) => Some(record),
            _ => None,
        },
        None => None,
    }
}

/// What is expected of the items of a block, if it is expected to be a
/// list.
pub fn expect_item<'a>(expect: Option<&'a Hint>) -> (r: Option<&'a Hint>)
    ensures
        hint_view_of(r) == expected_item(hint_view_of(expect)),
{
    match expect {
        Some(hint) => match hint {
            Hint::List(item) => Some(&**item),
            _ => None,
        },
        None => None,
    }
}

/// Reads the value that starts at `at`, with a header read as a scalar.
pub fn read_value(
    tokens: &Vec<Token>,
    at: usize,
    end: usize,
    room: usize,
    expect: Option<&Hint>,
) -> (r: Result<(Node, usize), TapeError>)
    requires
        end <= tokens.len(),
    ensures
        step_view(r) == value_at(
            tokens_view(tokens@),
            at as int,
            end as int,
            room as nat,
            hint_view_of(expect),
        ),
        r matches Ok(step) ==> at < step.1 <= end,
    decreases end - at, 0nat,
{
    if at >= end {
        return Err(TapeError::Malformed);
    }
    match &tokens[at] {
        Token::Scalar(raw) => Ok((Node::Scalar(copy_bytes(raw.as_slice())), at + 1)),
        Token::Header(raw) => Ok((Node::Scalar(copy_bytes(raw.as_slice())), at + 1)),
        Token::Object(close) => {
            let close: usize = *close;
            if close <= at || close >= end {
                return Err(TapeError::Malformed);
            }
            match &tokens[close] {
                Token::End => {},
                _ => {
                    return Err(TapeError::Malformed);
                },
            }
            if room == 0 {
                return Err(TapeError::TooDeep);
            }
            match read_entries(tokens, at + 1, close, room - 1, expect_record(expect)) {
                Ok(entries) => {
                    let node = Node::Object(entries);
                    proof {
                        lemma_node_view(node);
                    }
                    Ok((node, close + 1))
                },
                Err(error) => Err(error),
            }
        },
        Token::Array(close) => {
            let close: usize = *close;
            if close <= at || close >= end {
                return Err(TapeError::Malformed);
            }
            match &tokens[close] {
                Token::End => {},
                _ => {
                    return Err(TapeError::Malformed);
                },
            }
            if room == 0 {
                return Err(TapeError::TooDeep);
            }
            if close == at + 1 && expect_record(expect).is_some() {
                let node = Node::Object(Vec::new());
                proof {
                    lemma_node_view(node);
                    assert(node@->Object_0 =~= Seq::empty());
                }
                return Ok((node, close + 1));
            }
            match read_items(tokens, at + 1, close, room - 1, expect_item(expect)) {
                Ok(items) => {
                    let node = Node::Array(items);
                    proof {
                        lemma_node_view(node);
                    }
                    Ok((node, close + 1))
                },
                Err(error) => Err(error),
            }
        },
        _ => Err(TapeError::Malformed),
    }
}

/// Reads the value of a field that starts at `at`.
pub fn read_field_value(
    tokens: &Vec<Token>,
    at: usize,
    end: usize,
    room: usize,
    expect: Option<&Hint>,
) -> (r: Result<(Node, usize), TapeError>)
    requires
        end <= tokens.len(),
    ensures
        step_view(r) == field_value_at(
            tokens_view(tokens@),
            at as int,
            end as int,
            room as nat,
            hint_view_of(expect),
        ),
        r matches Ok(step) ==> at < step.1 <= end,
    decreases end - at, 1nat,
{
    if at < end {
        match &tokens[at] {
            Token::Header(raw) => {
                if room == 0 {
                    return Err(TapeError::TooDeep);
                }
                return match read_value(tokens, at + 1, end, room - 1, None) {
                    Ok((block, next)) => {
                        let mut pair: Vec<Node> = Vec::new();
                        pair.push(Node::Scalar(copy_bytes(raw.as_slice())));
                        pair.push(block);
                        let node = Node::Array(pair);
                        proof {
                            lemma_node_view(node);
                            assert(nodes_view(pair@) =~= Seq::empty().push(
                                NodeView::Scalar(raw@),
                            ).push(block@));
                        }
                        Ok((node, next))
                    },
                    Err(error) => Err(error),
                };
            },
            _ => {},
        }
    }
    read_value(tokens, at, end, room, expect)
}

/// Reads the items from `from` up to the closing token at `end`.
pub fn read_items(
    tokens: &Vec<Token>,
    from: usize,
    end: usize,
    room: usize,
    expect: Option<&Hint>,
) -> (r: Result<Vec<Node>, TapeError>)
    requires
        end <= tokens.len(),
    ensures
        items_result_view(r) == items_from(
            tokens_view(tokens@),
            from as int,
            end as int,
            room as nat,
            hint_view_of(expect),
        ),
    decreases end - from, 1nat,
{
    let ghost views = tokens_view(tokens@);
    let ghost expected = hint_view_of(expect);
    let mut items: Vec<Node> = Vec::new();
    let mut i: usize = from;
    assert(nodes_view(items@) =~= Seq::empty());
    proof {
        match items_from(views, from as int, end as int, room as nat, expected) {
            Ok(rest) => {
                assert(Seq::<NodeView>::empty() + rest =~= rest);
            },
            Err(_) => {},
        }
    }
    while i < end
        invariant
            from <= i,
            end <= tokens.len(),
            views == tokens_view(tokens@),
            expected == hint_view_of(expect),
            items_from(views, from as int, end as int, room as nat, expected) == (match items_from(
                views,
                i as int,
                end as int,
                room as nat,
                expected,
            ) {
                Ok(rest) => Ok(nodes_view(items@) + rest),
                Err(error) => Err(error),
            }),
        decreases end - i,
    {
        match read_value(tokens, i, end, room, expect) {
            Ok((node, next)) => {
                proof {
                    let before = nodes_view(items@);
                    match items_from(views, next as int, end as int, room as nat, expected) {
                        Ok(rest) => {
                            assert(before.push(node@) + rest =~= before + (Seq::empty().push(
                                node@,
                            ) + rest));
                        },
                        Err(_) => {},
                    }
                    assert(forall|s: Seq<Node>| #[trigger]
                        nodes_view(s.push(node)) =~= nodes_view(s).push(node@));
                }
                items.push(node);
                i = next;
            },
            Err(error) => {
                return Err(error);
            },
        }
    }
    proof {
        assert(nodes_view(items@) + Seq::<NodeView>::empty() =~= nodes_view(items@));
    }
    Ok(items)
}

/// Reads the entries from `from` up to the closing token at `end`.
pub fn read_entries(
    tokens: &Vec<Token>,
    from: usize,
    end: usize,
    room: usize,
    record: Option<&RecordDescriptor>,
) -> (r: Result<Vec<Entry>, TapeError>)
    requires
        end <= tokens.len(),
    ensures
        entries_result_view(r) == entries_from(
            tokens_view(tokens@),
            from as int,
            end as int,
            room as nat,
            record_view_of(record),
        ),
    decreases end - from, 2nat,
{
    let ghost views = tokens_view(tokens@);
    let ghost expected = record_view_of(record);
    let mut entries: Vec<Entry> = Vec::new();
    let mut i: usize = from;
    assert(entries_view(entries@) =~= Seq::empty());
    proof {
        match entries_from(views, from as int, end as int, room as nat, expected) {
            Ok(rest) => {
                assert(Seq::<EntryView>::empty() + rest =~= rest);
            },
            Err(_) => {},
        }
    }
    while i < end
        invariant
            from <= i,
            end <= tokens.len(),
            views == tokens_view(tokens@),
            expected == record_view_of(record),
            entries_from(views, from as int, end as int, room as nat, expected) == (
            match entries_from(views, i as int, end as int, room as nat, expected) {
                Ok(rest) => Ok(entries_view(entries@) + rest),
                Err(error) => Err(error),
            }),
        decreases end - i,
    {
        let key = match &tokens[i] {
            Token::Scalar(raw) => copy_bytes(raw.as_slice()),
            _ => {
                return Err(TapeError::Malformed);
            },
        };
        let mut start: usize = i + 1;
        if start < end {
            match &tokens[start] {
                Token::Operator => {
                    start = start + 1;
                },
                _ => {},
            }
        }
        assert(start == value_start(views, i as int, end as int));
        let expect = expect_under(record, key.as_slice());
        match read_field_value(tokens, start, end, room, expect) {
            Ok((node, next)) => {
                let entry = Entry { key, node };
                proof {
                    let before = entries_view(entries@);
                    match entries_from(views, next as int, end as int, room as nat, expected) {
                        Ok(rest) => {
                            assert(before.push(entry@) + rest =~= before + (Seq::empty().push(
                                entry@,
                            ) + rest));
                        },
                        Err(_) => {},
                    }
                    assert(forall|s: Seq<Entry>| #[trigger]
                        entries_view(s.push(entry)) =~= entries_view(s).push(entry@));
                }
                entries.push(entry);
                i = next;
            },
            Err(error) => {
                return Err(error);
            },
        }
    }
    proof {
        assert(entries_view(entries@) + Seq::<EntryView>::empty() =~= entries_view(entries@));
    }
    Ok(entries)
}

/// Builds the token tree that a tape spells, with blocks nesting no deeper
/// than `limit`. Where `record` is given, it is the descriptor that the
/// tree is to be bound against, and the empty blocks that it binds as
/// records become objects.
pub fn build_tree(tokens: &Vec<Token>, limit: usize, record: Option<&RecordDescriptor>) -> (r:
    Result<Node, TapeError>)
    ensures
        tree_view(r) == tree_of(tokens_view(tokens@), limit as nat, record_view_of(record)),
{
    match read_entries(tokens, 0, tokens.len(), limit, record) {
        Ok(entries) => {
            let node = Node::Object(entries);
            proof {
                lemma_node_view(node);
            }
            Ok(node)
        },
        Err(error) => Err(error),
    }
}

} // verus!
