//! Runs of ASCII digits inside a scalar token and the numbers they spell.

use vstd::prelude::*;

verus! {

/// The largest saturation bound that [`scan_digits`] accepts.
pub const SCAN_LIMIT: u128 = 1_000_000_000_000_000_000_000_000_000_000;

/// Whether `b` is one of the ASCII digits `0` to `9`.
pub open spec fn is_digit(b: u8) -> bool {
    48 <= b <= 57
}

/// The number that a digit stands for; zero for any other byte.
pub open spec fn digit_value(b: u8) -> nat {
    if is_digit(b) {
        (b - 48) as nat
    } else {
        0
    }
}

/// Whether every byte of `s` is an ASCII digit.
pub open spec fn all_digits(s: Seq<u8>) -> bool {
    forall|i: int| 0 <= i < s.len() ==> is_digit(#[trigger] s[i])
}

/// The number read by appending the decimal digits `s` to the number `init`;
/// with `init` zero, the number that the digits spell.
pub open spec fn accumulate(init: nat, s: Seq<u8>) -> nat
    decreases s.len(),
{
    if s.len() == 0 {
        init
    } else {
        accumulate(init, s.drop_last()) * 10 + digit_value(s.last())
    }
}

/// The index just past the longest run of digits that starts at `from`.
pub open spec fn run_end(s: Seq<u8>, from: int) -> int
    decreases s.len() - from,
{
    if 0 <= from < s.len() && is_digit(s[from]) {
        run_end(s, from + 1)
    } else {
        from
    }
}

/// `n`, held down to at most `cap`.
pub open spec fn capped(n: nat, cap: nat) -> nat {
    if n < cap {
        n
    } else {
        cap
    }
}

/// A run of digits ends inside the sequence, at a byte that is no digit or at
/// the end, and holds digits only.
pub proof fn lemma_run_end(s: Seq<u8>, from: int)
    requires
        0 <= from <= s.len(),
    ensures
        from <= run_end(s, from) <= s.len(),
        all_digits(s.subrange(from, run_end(s, from))),
        run_end(s, from) < s.len() ==> !is_digit(s[run_end(s, from)]),
    decreases s.len() - from,
{
    if from < s.len() && is_digit(s[from]) {
        lemma_run_end(s, from + 1);
        let end = run_end(s, from);
        assert forall|i: int| 0 <= i < end - from implies is_digit(
            #[trigger] s.subrange(from, end)[i],
        ) by {
            if i > 0 {
                assert(s.subrange(from, end)[i] == s.subrange(from + 1, end)[i - 1]);
            }
        }
    }
}

/// A stretch of digits that stops at a byte that is no digit, or at the end,
/// is the run that starts where it starts.
pub proof fn lemma_run_end_is(s: Seq<u8>, from: int, end: int)
    requires
        0 <= from <= end <= s.len(),
        forall|i: int| from <= i < end ==> is_digit(#[trigger] s[i]),
        end < s.len() ==> !is_digit(s[end]),
    ensures
        run_end(s, from) == end,
    decreases end - from,
{
    if from < end {
        lemma_run_end_is(s, from + 1, end);
    }
}

/// Reading `a` and going on with `b` is reading the two laid end to end.
pub proof fn lemma_accumulate_concat(init: nat, a: Seq<u8>, b: Seq<u8>)
    ensures
        accumulate(init, a + b) == accumulate(accumulate(init, a), b),
    decreases b.len(),
{
    if b.len() == 0 {
        assert(a + b =~= a);
    } else {
        lemma_accumulate_concat(init, a, b.drop_last());
        assert((a + b).drop_last() =~= a + b.drop_last());
        assert((a + b).last() == b.last());
    }
}

/// Appending digits never makes the number smaller.
pub proof fn lemma_accumulate_grows(init: nat, s: Seq<u8>)
    ensures
        init <= accumulate(init, s),
    decreases s.len(),
{
    if s.len() > 0 {
        lemma_accumulate_grows(init, s.drop_last());
    }
}

/// Reads the run of digits that starts at `from`, going on from the number
/// `init`, and returns where the run ends together with the number read,
/// held down to `cap`.
pub fn scan_digits(bytes: &[u8], from: usize, init: u128, cap: u128) -> (r: (usize, u128))
    requires
        from <= bytes.len(),
        init <= cap <= SCAN_LIMIT,
    ensures
        r.0 == run_end(bytes@, from as int),
        from <= r.0 <= bytes.len(),
        r.1 == capped(
            accumulate(init as nat, bytes@.subrange(from as int, r.0 as int)),
            cap as nat,
        ),
{
    let mut i: usize = from;
    let mut acc: u128 = init;
    assert(bytes@.subrange(from as int, from as int) =~= Seq::<u8>::empty());
    while i < bytes.len() && bytes[i] >= 48 && bytes[i] <= 57
        invariant
            from <= i <= bytes.len(),
            init <= cap <= SCAN_LIMIT,
            run_end(bytes@, from as int) == run_end(bytes@, i as int),
            acc == capped(
                accumulate(init as nat, bytes@.subrange(from as int, i as int)),
                cap as nat,
            ),
        decreases bytes.len() - i,
    {
        let digit: u128 = (bytes[i] - 48) as u128;
        proof {
            let before = bytes@.subrange(from as int, i as int);
            let after = bytes@.subrange(from as int, i as int + 1);
            assert(after.drop_last() =~= before);
            assert(after.last() == bytes@[i as int]);
            assert(accumulate(init as nat, after) == accumulate(init as nat, before) * 10 + digit);
        }
        if acc < cap {
            let next: u128 = acc * 10 + digit;
            acc = if next < cap { next } else { cap };
        }
        i += 1;
    }
    (i, acc)
}

} // verus!
