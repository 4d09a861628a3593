//! Writing values back as scalar tokens, such that reading a token that was
//! written gives the value again.

use vstd::prelude::*;
use crate::date::{date_of, date_token, law_date_has_its_parts, Date, Era, ERA_OFFSET};
use crate::decoders::{bool_of, id_of};
use crate::digits::{
    accumulate,
    all_digits,
    digit_value,
    is_digit,
    lemma_accumulate_concat,
    lemma_run_end_is,
};
use crate::number::{decimal_of, Decimal};

verus! {

/// The decimal digits of a number, the most significant first; the single
/// digit `0` for zero.
pub open spec fn digits_of(n: nat) -> Seq<u8>
    decreases n,
{
    if n < 10 {
        seq![(48 + n) as u8]
    } else {
        digits_of(n / 10).push((48 + n % 10) as u8)
    }
}

/// `count` digits `0`.
pub open spec fn zeros(count: nat) -> Seq<u8> {
    Seq::new(count, |i: int| 48u8)
}

/// The digits of a number are digits, at least one, and spell the number.
pub proof fn lemma_digits_of(n: nat)
    ensures
        digits_of(n).len() >= 1,
        all_digits(digits_of(n)),
        accumulate(0, digits_of(n)) == n,
    decreases n,
{
    if n < 10 {
        let s = digits_of(n);
        assert(s.drop_last() =~= Seq::<u8>::empty());
        assert(digit_value(s.last()) == n);
        reveal_with_fuel(accumulate, 2);
    } else {
        lemma_digits_of(n / 10);
        let s = digits_of(n);
        let head = digits_of(n / 10);
        assert(s.drop_last() =~= head);
        assert(digit_value(s.last()) == n % 10);
        assert forall|i: int| 0 <= i < s.len() implies is_digit(#[trigger] s[i]) by {
            if i < head.len() {
                assert(s[i] == head[i]);
            }
        }
    }
}

/// Zeros in front of digits do not change the number spelled.
pub proof fn lemma_leading_zeros(count: nat, s: Seq<u8>)
    ensures
        accumulate(0, zeros(count) + s) == accumulate(0, s),
        all_digits(zeros(count)),
{
    lemma_accumulate_concat(0, zeros(count), s);
    lemma_zeros_spell_zero(count);
}

/// Zeros spell zero.
proof fn lemma_zeros_spell_zero(count: nat)
    ensures
        accumulate(0, zeros(count)) == 0,
    decreases count,
{
    if count > 0 {
        lemma_zeros_spell_zero((count - 1) as nat);
        assert(zeros(count).drop_last() =~= zeros((count - 1) as nat));
    }
}

/// The token that spells a date under a convention.
pub open spec fn date_text(date: Date, era: Era) -> Seq<u8> {
    let written: int = match era {
        Era::Negative => if date.year < 0 {
            -date.year
        } else {
            date.year as int
        },
        Era::Offset => date.year + ERA_OFFSET,
    };
    date_token(
        era == Era::Negative && date.year < 0,
        digits_of(written as nat),
        digits_of(date.month as nat),
        digits_of(date.day as nat),
    )
}

/// Whether a date can be written under a convention: under
/// [`Era::Offset`] the year must not lie more than [`ERA_OFFSET`] years
/// before the epoch.
pub open spec fn can_write(date: Date, era: Era) -> bool {
    era == Era::Offset ==> date.year + ERA_OFFSET >= 0
}

/// The token that spells a decimal: a minus sign for a negative number, the
/// digits of the mantissa, with zeros in front where there are fewer than
/// the scale asks for, and a point before the last `scale` digits.
pub open spec fn decimal_text(number: Decimal) -> Seq<u8> {
    let magnitude: nat = if number.mantissa < 0 {
        (-number.mantissa) as nat
    } else {
        number.mantissa as nat
    };
    let plain = digits_of(magnitude);
    let padded = if plain.len() <= number.scale {
        zeros((number.scale + 1 - plain.len()) as nat) + plain
    } else {
        plain
    };
    let sign = if number.mantissa < 0 {
        seq![45u8]
    } else {
        Seq::<u8>::empty()
    };
    let cut = padded.len() - number.scale;
    if number.scale == 0 {
        sign + padded
    } else {
        sign + padded.subrange(0, cut) + seq![46u8] + padded.subrange(cut, padded.len() as int)
    }
}

/// The token that spells a truth value.
pub open spec fn bool_text(flag: bool) -> Seq<u8> {
    if flag {
        seq![121u8, 101u8, 115u8]
    } else {
        seq![110u8, 111u8]
    }
}

/// A date that is written and read again is the same date.
pub proof fn law_date_round_trip(date: Date, era: Era)
    requires
        date.wf(),
        can_write(date, era),
    ensures
        date_of(date_text(date, era), era) == Some(date),
{
    let written: int = match era {
        Era::Negative => if date.year < 0 {
            -date.year
        } else {
            date.year as int
        },
        Era::Offset => date.year + ERA_OFFSET,
    };
    lemma_digits_of(written as nat);
    lemma_digits_of(date.month as nat);
    lemma_digits_of(date.day as nat);
    law_date_has_its_parts(
        era == Era::Negative && date.year < 0,
        digits_of(written as nat),
        digits_of(date.month as nat),
        digits_of(date.day as nat),
    );
}

/// Reading a date token, writing the date and reading it again gives the
/// date of the first reading.
pub proof fn law_date_decodes_again(raw: Seq<u8>, era: Era)
    ensures
        date_of(raw, era) matches Some(date) ==> date_of(date_text(date, era), era) == Some(date),
{
    if date_of(raw, era) is Some {
        law_date_round_trip(date_of(raw, era)->0, era);
    }
}

/// A decimal that is written and read again is the same decimal.
pub proof fn law_decimal_round_trip(number: Decimal)
    requires
        number.wf(),
    ensures
        decimal_of(decimal_text(number)) == Some(number),
{
    let minus = number.mantissa < 0;
    let magnitude: nat = if minus {
        (-number.mantissa) as nat
    } else {
        number.mantissa as nat
    };
    let plain = digits_of(magnitude);
    lemma_digits_of(magnitude);
    let padded = if plain.len() <= number.scale {
        zeros((number.scale + 1 - plain.len()) as nat) + plain
    } else {
        plain
    };
    if plain.len() <= number.scale {
        lemma_leading_zeros((number.scale + 1 - plain.len()) as nat, plain);
    }
    assert(all_digits(padded));
    assert(accumulate(0, padded) == magnitude);
    assert(padded.len() > number.scale);
    let start: int = if minus {
        1
    } else {
        0
    };
    let text = decimal_text(number);
    let cut = padded.len() - number.scale;
    assert(is_digit(padded[0]));
    if number.scale == 0 {
        assert(text.len() == start + padded.len());
        assert forall|i: int| start <= i < text.len() implies is_digit(#[trigger] text[i]) by {
            assert(text[i] == padded[i - start]);
        }
        assert(text[0] == 45 <==> minus) by {
            if !minus {
                assert(text[0] == padded[0]);
            }
        }
        lemma_run_end_is(text, start, text.len() as int);
        assert(text.subrange(start, text.len() as int) =~= padded);
    } else {
        let whole = padded.subrange(0, cut);
        let fraction = padded.subrange(cut, padded.len() as int);
        let point = start + cut;
        assert(text.len() == point + 1 + number.scale);
        assert forall|i: int| start <= i < point implies is_digit(#[trigger] text[i]) by {
            assert(text[i] == padded[i - start]);
        }
        assert(text[point] == 46);
        assert forall|i: int| point + 1 <= i < text.len() implies is_digit(#[trigger] text[i]) by {
            assert(text[i] == padded[i - start - 1]);
        }
        assert(text[0] == 45 <==> minus) by {
            if !minus {
                assert(text[0] == padded[0]);
            }
        }
        lemma_run_end_is(text, start, point);
        lemma_run_end_is(text, point + 1, text.len() as int);
        assert(text.subrange(start, point) =~= whole);
        assert(text.subrange(point + 1, text.len() as int) =~= fraction);
        lemma_accumulate_concat(0, whole, fraction);
        assert(whole + fraction =~= padded);
    }
}

/// Reading a number token, writing the decimal and reading it again gives
/// the decimal of the first reading.
pub proof fn law_decimal_decodes_again(raw: Seq<u8>)
    ensures
        decimal_of(raw) matches Some(number) ==> decimal_of(decimal_text(number)) == Some(number),
{
    if decimal_of(raw) is Some {
        law_decimal_round_trip(decimal_of(raw)->0);
    }
}

/// A truth value that is written and read again is the same truth value.
pub proof fn law_bool_round_trip(flag: bool)
    ensures
        bool_of(bool_text(flag)) == Some(flag),
{
    assert(seq![110u8, 111u8].len() != seq![121u8, 101u8, 115u8].len());
}

/// A number that is written as a key and read again is the same number.
pub proof fn law_id_round_trip(id: u64)
    ensures
        id_of(digits_of(id as nat)) == Some(id),
{
    let s = digits_of(id as nat);
    lemma_digits_of(id as nat);
    lemma_run_end_is(s, 0, s.len() as int);
}

/// Writes a number in decimal digits.
pub fn write_digits(n: u64) -> (digits: Vec<u8>)
    ensures
        digits@ == digits_of(n as nat),
    decreases n,
{
    if n < 10 {
        let mut digits: Vec<u8> = Vec::new();
        digits.push(48 + n as u8);
        assert(digits@ =~= digits_of(n as nat));
        digits
    } else {
        let mut digits = write_digits(n / 10);
        digits.push(48 + (n % 10) as u8);
        digits
    }
}

/// Appends the bytes from `from` up to `to` to a token.
pub(crate) fn append(token: &mut Vec<u8>, bytes: &Vec<u8>, from: usize, to: usize)
    requires
        from <= to <= bytes.len(),
    ensures
        final(token)@ == old(token)@ + bytes@.subrange(from as int, to as int),
{
    let mut i: usize = from;
    assert(token@ =~= old(token)@ + bytes@.subrange(from as int, from as int));
    while i < to
        invariant
            from <= i <= to <= bytes.len(),
            token@ == old(token)@ + bytes@.subrange(from as int, i as int),
        decreases to - i,
    {
        token.push(bytes[i]);
        i += 1;
        assert(token@ =~= old(token)@ + bytes@.subrange(from as int, i as int));
    }
}

/// Writes a truth value as a token.
pub fn write_bool(flag: bool) -> (token: Vec<u8>)
    ensures
        token@ == bool_text(flag),
{
    let mut token: Vec<u8> = Vec::new();
    if flag {
        token.push(121);
        token.push(101);
        token.push(115);
    } else {
        token.push(110);
        token.push(111);
    }
    assert(token@ =~= bool_text(flag));
    token
}

/// Writes a date as a token under a convention; `None` where the convention
/// cannot spell the year.
pub fn write_date(date: &Date, era: Era) -> (r: Option<Vec<u8>>)
    ensures
        r is Some <==> can_write(*date, era),
        r matches Some(token) ==> token@ == date_text(*date, era),
{
    let year: i64 = date.year as i64;
    let minus: bool = match era {
        Era::Negative => year < 0,
        Era::Offset => false,
    };
    let written: i64 = match era {
        Era::Negative => if year < 0 { -year } else { year },
        Era::Offset => year + ERA_OFFSET,
    };
    if written < 0 {
        return None;
    }
    let mut token: Vec<u8> = Vec::new();
    if minus {
        token.push(45);
    }
    assert(token@ =~= (if minus {
        seq![45u8]
    } else {
        Seq::<u8>::empty()
    }));
    let year_digits = write_digits(written as u64);
    let month_digits = write_digits(date.month as u64);
    let day_digits = write_digits(date.day as u64);
    append(&mut token, &year_digits, 0, year_digits.len());
    token.push(46);
    append(&mut token, &month_digits, 0, month_digits.len());
    token.push(46);
    append(&mut token, &day_digits, 0, day_digits.len());
    proof {
        assert(year_digits@.subrange(0, year_digits.len() as int) =~= year_digits@);
        assert(month_digits@.subrange(0, month_digits.len() as int) =~= month_digits@);
        assert(day_digits@.subrange(0, day_digits.len() as int) =~= day_digits@);
    }
    assert(token@ =~= date_text(*date, era));
    Some(token)
}

/// Writes a decimal as a token.
pub fn write_decimal(number: &Decimal) -> (token: Vec<u8>)
    ensures
        token@ == decimal_text(*number),
{
    let minus: bool = number.mantissa < 0;
    let magnitude: u64 = if minus {
        (-(number.mantissa as i128)) as u64
    } else {
        number.mantissa as u64
    };
    let plain = write_digits(magnitude);
    let scale: usize = number.scale as usize;
    let mut padded: Vec<u8> = Vec::new();
    if plain.len() <= scale {
        let count: usize = scale + 1 - plain.len();
        let mut i: usize = 0;
        while i < count
            invariant
                i <= count,
                padded@ == zeros(i as nat),
            decreases count - i,
        {
            padded.push(48);
            i += 1;
            assert(padded@ =~= zeros(i as nat));
        }
    }
    append(&mut padded, &plain, 0, plain.len());
    assert(plain@.subrange(0, plain.len() as int) =~= plain@);
    let mut token: Vec<u8> = Vec::new();
    if minus {
        token.push(45);
    }
    assert(token@ =~= (if minus {
        seq![45u8]
    } else {
        Seq::<u8>::empty()
    }));
    let cut: usize = padded.len() - scale;
    if scale == 0 {
        append(&mut token, &padded, 0, padded.len());
        assert(padded@.subrange(0, padded.len() as int) =~= padded@);
    } else {
        append(&mut token, &padded, 0, cut);
        token.push(46);
        append(&mut token, &padded, cut, padded.len());
    }
    token
}

} // verus!
