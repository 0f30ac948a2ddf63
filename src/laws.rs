//! Facts about parsing and formatting, stated over the models that the
//! functions' contracts use.

use crate::checksum::check_digit;
use crate::nav13::{
    digit_char,
    digit_value,
    digits_text,
    extract_digits,
    formatted,
    is_digit,
    is_valid_navs13,
    parse_outcome,
    Nav13,
    ParseNav13Error,
};
use vstd::prelude::*;

verus! {

/// Digit extraction distributes over concatenation.
pub proof fn lemma_extract_concat(a: Seq<char>, b: Seq<char>)
    ensures
        extract_digits(a + b) == extract_digits(a) + extract_digits(b),
    decreases b.len(),
{
    if b.len() == 0 {
        assert(a + b =~= a);
        assert(extract_digits(a) + extract_digits(b) =~= extract_digits(a));
    } else {
        lemma_extract_concat(a, b.drop_last());
        assert((a + b).drop_last() =~= a + b.drop_last());
        assert((a + b).last() == b.last());
        if is_digit(b.last()) {
            assert(extract_digits(a) + extract_digits(b) =~= (extract_digits(a) + extract_digits(
                b.drop_last(),
            )).push(digit_value(b.last())));
        }
    }
}

/// A text without decimal digits yields no digits.
pub proof fn lemma_extract_no_digits(s: Seq<char>)
    requires
        forall|i: int| 0 <= i < s.len() ==> !is_digit(#[trigger] s[i]),
    ensures
        extract_digits(s) == Seq::<u8>::empty(),
    decreases s.len(),
{
    if s.len() > 0 {
        lemma_extract_no_digits(s.drop_last());
        assert(!is_digit(s[s.len() - 1]));
    }
}

/// Digits written out as text are read back unchanged.
pub proof fn lemma_extract_digits_text(d: Seq<u8>)
    requires
        forall|i: int| 0 <= i < d.len() ==> #[trigger] d[i] < 10,
    ensures
        extract_digits(digits_text(d)) == d,
    decreases d.len(),
{
    if d.len() > 0 {
        let t = digits_text(d);
        lemma_extract_digits_text(d.drop_last());
        assert(t.drop_last() =~= digits_text(d.drop_last()));
        let v = d.last();
        assert(v < 10);
        assert(t.last() == digit_char(v));
        assert(is_digit(digit_char(v)) && digit_value(digit_char(v)) == v);
        assert(d.drop_last().push(v) =~= d);
    }
}

/// Formatting a valid identifier and parsing the text gives back the same
/// identifier: the same twelve digits and the same check digit.
pub proof fn lemma_format_parse_round_trip(n: Nav13)
    requires
        is_valid_navs13(n@),
    ensures
        parse_outcome(extract_digits(formatted(n@))) == Ok::<Seq<u8>, ParseNav13Error>(n@),
{
    let d = n@;
    let dot = seq!['.'];
    let g0 = digits_text(d.subrange(0, 3));
    let g1 = digits_text(d.subrange(3, 7));
    let g2 = digits_text(d.subrange(7, 11));
    let g3 = digits_text(d.subrange(11, 13));
    assert forall|lo: int, hi: int| 0 <= lo <= hi <= 13 implies extract_digits(
        #[trigger] digits_text(d.subrange(lo, hi)),
    ) == d.subrange(lo, hi) by {
        lemma_extract_digits_text(d.subrange(lo, hi));
    }
    assert(!is_digit(dot[0]));
    lemma_extract_no_digits(dot);
    lemma_extract_concat(g0, dot);
    lemma_extract_concat(g0 + dot, g1);
    lemma_extract_concat(g0 + dot + g1, dot);
    lemma_extract_concat(g0 + dot + g1 + dot, g2);
    lemma_extract_concat(g0 + dot + g1 + dot + g2, dot);
    lemma_extract_concat(g0 + dot + g1 + dot + g2 + dot, g3);
    assert(extract_digits(formatted(d)) =~= d);
}

/// An input whose digits number twelve or fourteen fails on its length, and
/// the error carries that count.
pub proof fn lemma_length_boundary(s: Seq<char>)
    requires
        extract_digits(s).len() == 12 || extract_digits(s).len() == 14,
    ensures
        extract_digits(s).len() == 12 ==> parse_outcome(extract_digits(s)) == Err::<
            Seq<u8>,
            ParseNav13Error,
        >(ParseNav13Error::InvalidLength(12)),
        extract_digits(s).len() == 14 ==> parse_outcome(extract_digits(s)) == Err::<
            Seq<u8>,
            ParseNav13Error,
        >(ParseNav13Error::InvalidLength(14)),
{
}

/// Thirteen digits with a correct check digit but the prefix 471 fail on the
/// country code, and the error carries 4, 7 and 1.
pub proof fn lemma_country_code_boundary(d: Seq<u8>)
    requires
        d.len() == 13,
        d[0] == 4 && d[1] == 7 && d[2] == 1,
        d[12] == check_digit(d.take(12)),
    ensures
        parse_outcome(d) == Err::<Seq<u8>, ParseNav13Error>(
            ParseNav13Error::InvalidCountryCode(4, 7, 1),
        ),
{
}

/// Replacing the check digit of a valid number by any other digit makes it
/// fail on the checksum, and the error carries the new digit.
pub proof fn lemma_changed_check_digit(d: Seq<u8>, c: u8)
    requires
        is_valid_navs13(d),
        c != d[12],
    ensures
        parse_outcome(d.update(12, c)) == Err::<Seq<u8>, ParseNav13Error>(
            ParseNav13Error::InvalidChecksum(c),
        ),
{
    assert(d.update(12, c).take(12) =~= d.take(12));
}

/// Characters other than decimal digits, inserted anywhere, change neither
/// the extracted digits nor the outcome of parsing.
pub proof fn lemma_non_digits_ignored(a: Seq<char>, junk: Seq<char>, b: Seq<char>)
    requires
        forall|i: int| 0 <= i < junk.len() ==> !is_digit(#[trigger] junk[i]),
    ensures
        extract_digits(a + junk + b) == extract_digits(a + b),
        parse_outcome(extract_digits(a + junk + b)) == parse_outcome(extract_digits(a + b)),
{
    lemma_extract_no_digits(junk);
    lemma_extract_concat(a, junk);
    lemma_extract_concat(a + junk, b);
    lemma_extract_concat(a, b);
    assert(extract_digits(a) + extract_digits(junk) =~= extract_digits(a));
}

} // verus!
