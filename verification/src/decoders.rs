//! The value decoders: one reading of a scalar token for each kind of hint.

use vstd::prelude::*;
use crate::date::{date_of, parse_date, Era};
use crate::digits::{accumulate, run_end, scan_digits};
use crate::error::FieldErrorKind;
use crate::number::{decimal_of, parse_decimal, rescaled};
use crate::schema::{Hint, HintView};
use crate::value::{Value, ValueView};

verus! {

/// The text that `jomini::Utf8Encoding::decode` makes of a token's bytes.
pub uninterp spec fn utf8_text(raw: Seq<u8>) -> Seq<char>;

/// Whether a token is plain: printable ASCII without a backslash, and no
/// space at its end.
pub open spec fn is_plain(raw: Seq<u8>) -> bool {
    &&& forall|i: int| 0 <= i < raw.len() ==> 32 <= #[trigger] raw[i] <= 126 && raw[i] != 92
    &&& raw.len() > 0 ==> raw.last() != 32
}

/// The characters whose codes are the bytes of a plain token.
pub open spec fn plain_text(raw: Seq<u8>) -> Seq<char> {
    Seq::new(raw.len(), |i: int| raw[i] as char)
}

/// Decodes a token's bytes with `jomini::Utf8Encoding::decode`, which drops
/// white space at the end and every backslash and reads the rest as UTF-8,
/// replacing what is not. The text depends on the bytes alone, and a plain
/// token is handed back character for character.
#[verifier::external_body]
fn decode_utf8(raw: &[u8]) -> (text: String)
    ensures
        text@ == utf8_text(raw@),
        is_plain(raw@) ==> text@ == plain_text(raw@),
{
    jomini::Utf8Encoding::decode(raw).into_owned()
}

/// The truth value that a token spells: `yes` is true, `no` is false, and
/// nothing else is a truth value.
pub open spec fn bool_of(raw: Seq<u8>) -> Option<bool> {
    if raw == seq![121u8, 101u8, 115u8] {
        Some(true)
    } else if raw == seq![110u8, 111u8] {
        Some(false)
    } else {
        None
    }
}

/// Reads a token with `jomini::Scalar::to_bool`, which maps exactly the
/// bytes `yes` to true and `no` to false and fails on every other token.
#[verifier::external_body]
fn scalar_to_bool(raw: &[u8]) -> (r: Option<bool>)
    ensures
        r == bool_of(raw@),
{
    jomini::Scalar::new(raw).to_bool().ok()
}

/// The whole number that a key spells: one or more digits and nothing else,
/// spelling at most `u64::MAX`.
pub open spec fn id_of(raw: Seq<u8>) -> Option<u64> {
    if raw.len() > 0 && run_end(raw, 0) == raw.len() && accumulate(0, raw) <= u64::MAX {
        Some(accumulate(0, raw) as u64)
    } else {
        None
    }
}

/// What a scalar token is read as under a hint for scalars. A hint for a
/// record or an array fits no scalar.
pub open spec fn scalar_of(raw: Seq<u8>, hint: HintView, era: Era) -> Result<
    ValueView,
    FieldErrorKind,
> {
    match hint {
        HintView::Number => match decimal_of(raw) {
            Some(number) => Ok(ValueView::Number(number)),
            None => Err(FieldErrorKind::TypeMismatch),
        },
        HintView::Reencoded(transform) => match decimal_of(raw) {
            Some(number) => match rescaled(number, transform) {
                Some(scaled) => Ok(ValueView::Number(scaled)),
                None => Err(FieldErrorKind::TransformError),
            },
            None => Err(FieldErrorKind::TypeMismatch),
        },
        HintView::Text => Ok(ValueView::Text(utf8_text(raw))),
        HintView::Boolean => match bool_of(raw) {
            Some(flag) => Ok(ValueView::Bool(flag)),
            None => Err(FieldErrorKind::TypeMismatch),
        },
        HintView::Date => match date_of(raw, era) {
            Some(date) => Ok(ValueView::Date(date)),
            None => Err(FieldErrorKind::MalformedDate),
        },
        HintView::Nested(_) => Err(FieldErrorKind::TypeMismatch),
        HintView::List(_) => Err(FieldErrorKind::TypeMismatch),
    }
}

/// The view of what a value decoder returns.
pub open spec fn scalar_result_view(r: Result<Value, FieldErrorKind>) -> Result<
    ValueView,
    FieldErrorKind,
> {
    match r {
        Ok(value) => Ok(value@),
        Err(kind) => Err(kind),
    }
}

/// Reads a token as text. Every token is text, and a plain token is its own
/// text.
pub fn decode_text(raw: &[u8]) -> (text: String)
    ensures
        text@ == utf8_text(raw@),
        is_plain(raw@) ==> text@ == plain_text(raw@),
{
    decode_utf8(raw)
}

/// Reads a token as a truth value; `None` for any token but `yes` and `no`.
pub fn parse_bool(raw: &[u8]) -> (r: Option<bool>)
    ensures
        r == bool_of(raw@),
{
    scalar_to_bool(raw)
}

/// Reads a key as the number of a member of a keyed collection; `None` when
/// the key is not a whole number or does not fit.
pub fn parse_id(raw: &[u8]) -> (r: Option<u64>)
    ensures
        r == id_of(raw@),
{
    let cap: u128 = 0x1_0000_0000_0000_0000;
    let (end, value) = scan_digits(raw, 0, 0, cap);
    proof {
        assert(raw@.subrange(0, raw.len() as int) =~= raw@);
    }
    if raw.len() == 0 || end != raw.len() || value >= cap {
        None
    } else {
        Some(value as u64)
    }
}

/// Reads a scalar token by a hint: a number as written under
/// [`Hint::Number`], the number multiplied by the field's factor under
/// [`Hint::Reencoded`] and under no other hint, text, a truth value or a
/// date.
pub fn decode_scalar(raw: &[u8], hint: &Hint, era: Era) -> (r: Result<Value, FieldErrorKind>)
    ensures
        scalar_result_view(r) == scalar_of(raw@, hint@, era),
{
    match hint {
        Hint::Number => match parse_decimal(raw) {
            Some(number) => Ok(Value::Number(number)),
            None => Err(FieldErrorKind::TypeMismatch),
        },
        Hint::Reencoded(transform) => match parse_decimal(raw) {
            Some(number) => match transform.apply(number) {
                Some(scaled) => Ok(Value::Number(scaled)),
                None => Err(FieldErrorKind::TransformError),
            },
            None => Err(FieldErrorKind::TypeMismatch),
        },
        Hint::Text => Ok(Value::Text(decode_text(raw))),
        Hint::Boolean => match parse_bool(raw) {
            Some(flag) => Ok(Value::Bool(flag)),
            None => Err(FieldErrorKind::TypeMismatch),
        },
        Hint::Date => match parse_date(raw, era) {
            Some(date) => Ok(Value::Date(date)),
            None => Err(FieldErrorKind::MalformedDate),
        },
        Hint::Nested(_) => Err(FieldErrorKind::TypeMismatch),
        Hint::List(_) => Err(FieldErrorKind::TypeMismatch),
    }
}

} // verus!
