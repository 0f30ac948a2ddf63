//! The validated identifier, its parser and its canonical text form.

use crate::checksum::{check_digit, ean13_check};
use vstd::prelude::*;

verus! {

/// Whether `c` is one of the decimal digits '0' to '9'.
pub open spec fn is_digit(c: char) -> bool {
    48 <= c as u32 <= 57
}

/// The value of the decimal digit `c`.
pub open spec fn digit_value(c: char) -> u8 {
    (c as u32 - 48) as u8
}

/// The values of the decimal digits of `s`, in order, everything else left out.
pub open spec fn extract_digits(s: Seq<char>) -> Seq<u8>
    decreases s.len(),
{
    if s.len() == 0 {
        Seq::empty()
    } else if is_digit(s.last()) {
        extract_digits(s.drop_last()).push(digit_value(s.last()))
    } else {
        extract_digits(s.drop_last())
    }
}

/// Whether the first three digits of `d` are Switzerland's country code 756.
pub open spec fn has_swiss_prefix(d: Seq<u8>) -> bool {
    d[0] == 7 && d[1] == 5 && d[2] == 6
}

/// Whether `d` is a structurally valid NAVS13: thirteen decimal digits that
/// start with 756 and end with the check digit of the twelve before it.
pub open spec fn is_valid_navs13(d: Seq<u8>) -> bool {
    &&& d.len() == 13
    &&& forall|i: int| 0 <= i < 13 ==> #[trigger] d[i] < 10
    &&& has_swiss_prefix(d)
    &&& d[12] == check_digit(d.take(12))
}

/// What parsing makes of the extracted digits `d`: the first failed check,
/// in the order length, country code, checksum, or the digits themselves.
pub open spec fn parse_outcome(d: Seq<u8>) -> Result<Seq<u8>, ParseNav13Error> {
    if d.len() != 13 {
        Err(ParseNav13Error::InvalidLength(d.len() as usize))
    } else if !has_swiss_prefix(d) {
        Err(ParseNav13Error::InvalidCountryCode(d[0], d[1], d[2]))
    } else if d[12] != check_digit(d.take(12)) {
        Err(ParseNav13Error::InvalidChecksum(d[12]))
    } else {
        Ok(d)
    }
}

/// Why a text is not a NAVS13.
#[derive(Debug, Clone, Copy, PartialEq, Eq, Structural)]
pub enum ParseNav13Error {
    /// The text holds this many digits instead of thirteen.
    InvalidLength(usize),
    /// The first three digits, which are not 756.
    InvalidCountryCode(u8, u8, u8),
    /// The last digit, which is not the check digit of the twelve before it.
    InvalidChecksum(u8),
}

impl ParseNav13Error {
    /// The exit status that reports this error: 64, 65 and 66 for a wrong
    /// length, country code and checksum.
    pub fn code(&self) -> (r: i32)
        ensures
            r == match self {
                ParseNav13Error::InvalidLength(_) => 64i32,
                ParseNav13Error::InvalidCountryCode(..) => 65i32,
                ParseNav13Error::InvalidChecksum(_) => 66i32,
            },
    {
        match self {
            ParseNav13Error::InvalidLength(_) => 64,
            ParseNav13Error::InvalidCountryCode(..) => 65,
            ParseNav13Error::InvalidChecksum(_) => 66,
        }
    }
}

/// Every value that digit extraction yields is below ten.
pub proof fn lemma_extracted_below_ten(s: Seq<char>)
    ensures
        forall|i: int| 0 <= i < extract_digits(s).len() ==> #[trigger] extract_digits(s)[i] < 10,
    decreases s.len(),
{
    if s.len() > 0 {
        let rest = extract_digits(s.drop_last());
        lemma_extracted_below_ten(s.drop_last());
        if is_digit(s.last()) {
            assert(digit_value(s.last()) < 10);
            assert forall|i: int| 0 <= i < rest.len() + 1 implies #[trigger] rest.push(
                digit_value(s.last()),
            )[i] < 10 by {
                if i < rest.len() {
                    assert(rest[i] < 10);
                }
            }
        }
    }
}

/// A structurally valid NAVS13: the country code 756, nine free digits and
/// the check digit. It is made only by parsing or generation, and never
/// changes afterwards.
#[derive(Debug, Clone, Copy)]
pub struct Nav13 {
    digits: [u8; 12],
    check: u8,
}

impl View for Nav13 {
    type V = Seq<u8>;

    /// The thirteen digits, the check digit last.
    closed spec fn view(&self) -> Seq<u8> {
        self.digits@.push(self.check)
    }
}

impl Nav13 {
    #[verifier::type_invariant]
    spec fn inv(&self) -> bool {
        is_valid_navs13(self@)
    }

    /// Reads a NAVS13 from text. Only the decimal digits of `s` count; all
    /// other characters are skipped. The digits must be thirteen, begin with
    /// 756 and end with the check digit of the twelve before it; the first
    /// of these checks that fails gives the error.
    pub fn parse(s: &str) -> (r: Result<Nav13, ParseNav13Error>)
        ensures
            match r {
                Ok(n) => parse_outcome(extract_digits(s@)) == Ok::<Seq<u8>, ParseNav13Error>(n@),
                Err(e) => parse_outcome(extract_digits(s@)) == Err::<Seq<u8>, ParseNav13Error>(e),
            },
            r is Ok <==> is_valid_navs13(extract_digits(s@)),
    {
        let values = digits_of(s);
        proof {
            lemma_extracted_below_ten(s@);
        }
        if values.len() != 13 {
            return Err(ParseNav13Error::InvalidLength(values.len()));
        }
        if !(values[0] == 7 && values[1] == 5 && values[2] == 6) {
            return Err(ParseNav13Error::InvalidCountryCode(values[0], values[1], values[2]));
        }
        let mut digits: [u8; 12] = [0u8; 12];
        let mut i: usize = 0;
        while i < 12
            invariant
                i <= 12,
                values@.len() == 13,
                digits@.len() == 12,
                forall|j: int| 0 <= j < i ==> digits@[j] == values@[j],
            decreases 12 - i,
        {
            digits[i] = values[i];
            i = i + 1;
        }
        assert(digits@ =~= values@.take(12));
        let check = values[12];
        if check != ean13_check(&digits) {
            return Err(ParseNav13Error::InvalidChecksum(check));
        }
        assert(digits@.push(check) =~= values@);
        Ok(Nav13 { digits, check })
    }

    /// The NAVS13 with the nine free digits `free` after the country code
    /// 756, completed with its check digit.
    pub fn from_free_digits(free: &[u8; 9]) -> (r: Nav13)
        requires
            forall|i: int| 0 <= i < 9 ==> #[trigger] free@[i] < 10,
        ensures
            r@ =~= seq![7u8, 5u8, 6u8] + free@ + seq![check_digit(seq![7u8, 5u8, 6u8] + free@) as u8],
            is_valid_navs13(r@),
    {
        let mut digits: [u8; 12] = [0u8; 12];
        digits[0] = 7;
        digits[1] = 5;
        digits[2] = 6;
        let mut i: usize = 0;
        while i < 9
            invariant
                i <= 9,
                digits@.len() == 12,
                digits@[0] == 7 && digits@[1] == 5 && digits@[2] == 6,
                forall|j: int| 0 <= j < i ==> digits@[j + 3] == free@[j],
            decreases 9 - i,
        {
            digits[i + 3] = free[i];
            i = i + 1;
        }
        assert(digits@ =~= seq![7u8, 5u8, 6u8] + free@);
        let check = ean13_check(&digits);
        proof {
            let v = digits@.push(check);
            assert(v.take(12) =~= digits@);
            assert forall|j: int| 0 <= j < 13 implies #[trigger] v[j] < 10 by {
                if 3 <= j < 12 {
                    assert(digits@[j] == free@[j - 3]);
                }
            }
        }
        Nav13 { digits, check }
    }

    /// The twelve digits before the check digit.
    pub fn digits(&self) -> (r: [u8; 12])
        ensures
            r@ == self@.take(12),
    {
        assert(self@.take(12) =~= self.digits@);
        self.digits
    }

    /// The check digit.
    pub fn check(&self) -> (r: u8)
        ensures
            r == self@[12],
    {
        self.check
    }

    /// The canonical text `DDD.DDDD.DDDD.DC`: the country code, the nine free
    /// digits in groups of four, four and one, and the check digit.
    pub fn format(&self) -> (r: String)
        ensures
            r@ == formatted(self@),
    {
        proof {
            use_type_invariant(self);
            reveal_strlit(".");
            assert forall|i: int| 0 <= i < 12 implies #[trigger] self.digits@[i] < 10 by {
                assert(self.digits@[i] == self@[i]);
            }
        }
        let mut out = String::new();
        push_digits(&mut out, &self.digits, 0, 3);
        out.append(".");
        push_digits(&mut out, &self.digits, 3, 7);
        out.append(".");
        push_digits(&mut out, &self.digits, 7, 11);
        out.append(".");
        push_digits(&mut out, &self.digits, 11, 12);
        out.append(digit_str(self.check));
        proof {
            let v = self@;
            assert(v.subrange(0, 3) =~= self.digits@.subrange(0, 3));
            assert(v.subrange(3, 7) =~= self.digits@.subrange(3, 7));
            assert(v.subrange(7, 11) =~= self.digits@.subrange(7, 11));
            assert(digits_text(v.subrange(11, 13)) =~= digits_text(self.digits@.subrange(11, 12))
                + seq![digit_char(self.check)]);
        }
        out
    }
}

impl std::str::FromStr for Nav13 {
    type Err = ParseNav13Error;

    /// Reads a NAVS13 from text, as `Nav13::parse` does.
    fn from_str(s: &str) -> Result<Nav13, ParseNav13Error> {
        Nav13::parse(s)
    }
}

/// The character of the decimal digit `d`.
pub open spec fn digit_char(d: u8) -> char {
    if d == 0 {
        '0'
    } else if d == 1 {
        '1'
    } else if d == 2 {
        '2'
    } else if d == 3 {
        '3'
    } else if d == 4 {
        '4'
    } else if d == 5 {
        '5'
    } else if d == 6 {
        '6'
    } else if d == 7 {
        '7'
    } else if d == 8 {
        '8'
    } else {
        '9'
    }
}

/// The digits `d` written out as characters.
pub open spec fn digits_text(d: Seq<u8>) -> Seq<char> {
    d.map_values(|v: u8| digit_char(v))
}

/// The canonical text of the thirteen digits `d`: `DDD.DDDD.DDDD.DC`.
pub open spec fn formatted(d: Seq<u8>) -> Seq<char> {
    digits_text(d.subrange(0, 3)) + seq!['.'] + digits_text(d.subrange(3, 7)) + seq!['.']
        + digits_text(d.subrange(7, 11)) + seq!['.'] + digits_text(d.subrange(11, 13))
}

/// The text of one decimal digit.
fn digit_str(d: u8) -> (r: &'static str)
    requires
        d < 10,
    ensures
        r@ == seq![digit_char(d)],
{
    proof {
        reveal_strlit("0");
        reveal_strlit("1");
        reveal_strlit("2");
        reveal_strlit("3");
        reveal_strlit("4");
        reveal_strlit("5");
        reveal_strlit("6");
        reveal_strlit("7");
        reveal_strlit("8");
        reveal_strlit("9");
    }
    match d {
        0 => "0",
        1 => "1",
        2 => "2",
        3 => "3",
        4 => "4",
        5 => "5",
        6 => "6",
        7 => "7",
        8 => "8",
        _ => "9",
    }
}

/// Appends the digits `digits[from..to]` to `out` as text.
fn push_digits(out: &mut String, digits: &[u8; 12], from: usize, to: usize)
    requires
        from <= to <= 12,
        forall|i: int| 0 <= i < 12 ==> #[trigger] digits@[i] < 10,
    ensures
        final(out)@ == old(out)@ + digits_text(digits@.subrange(from as int, to as int)),
{
    let ghost start = out@;
    let mut i: usize = from;
    while i < to
        invariant
            from <= i <= to <= 12,
            digits@.len() == 12,
            forall|j: int| 0 <= j < 12 ==> #[trigger] digits@[j] < 10,
            out@ == start + digits_text(digits@.subrange(from as int, i as int)),
        decreases to - i,
    {
        out.append(digit_str(digits[i]));
        assert(digits_text(digits@.subrange(from as int, i + 1)) =~= digits_text(
            digits@.subrange(from as int, i as int),
        ) + seq![digit_char(digits@[i as int])]);
        i = i + 1;
    }
}

/// The decimal digits of `s` as values, in order.
pub fn digits_of(s: &str) -> (r: Vec<u8>)
    ensures
        r@ == extract_digits(s@),
{
    broadcast use vstd::string::axiom_spec_iter;

    let mut values: Vec<u8> = Vec::new();
    for c in it: s.chars()
        invariant
            it.seq() == s@,
            values@ == extract_digits(s@.take(it.index() as int)),
    {
        assert(s@.take(it.index() + 1).drop_last() =~= s@.take(it.index() as int));
        let u: u32 = c as u32;
        if 48 <= u && u <= 57 {
            values.push((u - 48) as u8);
        }
    }
    assert(s@.take(s@.len() as int) =~= s@);
    values
}

} // verus!
