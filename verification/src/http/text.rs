//! Text handling for the message model: characters of a line, whitespace,
//! splitting, and decimal numbers.

use vstd::prelude::*;
use vstd::string::*;

verus! {

/// Why a decimal number could not be read.
#[derive(Debug, Clone, Copy, PartialEq, Eq, Structural)]
pub enum ParseIntError {
    /// The text was empty.
    Empty,
    /// A character was not a decimal digit, or a sign stood alone.
    InvalidDigit,
    /// The number does not fit the machine word.
    PosOverflow,
}

impl ParseIntError {
    /// The text of the failure.
    pub open spec fn spec_message(self) -> Seq<char> {
        match self {
            ParseIntError::Empty => "cannot parse integer from empty string"@,
            ParseIntError::InvalidDigit => "invalid digit found in string"@,
            ParseIntError::PosOverflow => "number too large to fit in target type"@,
        }
    }

    /// The text of the failure.
    pub fn message(&self) -> (r: &'static str)
        ensures
            r@ == self.spec_message(),
    {
        match self {
            ParseIntError::Empty => "cannot parse integer from empty string",
            ParseIntError::InvalidDigit => "invalid digit found in string",
            ParseIntError::PosOverflow => "number too large to fit in target type",
        }
    }
}

/// Whether `c` is one of the ten decimal digits.
pub open spec fn spec_is_digit(c: char) -> bool {
    '0' <= c <= '9'
}

/// The number that a decimal digit stands for.
pub open spec fn digit_value(c: char) -> nat {
    (c as u32 - '0' as u32) as nat
}

/// The decimal digit that stands for a number below ten.
pub open spec fn digit_char(d: nat) -> char
    recommends
        d < 10,
{
    (('0' as u32 + d) as u32) as char
}

/// The number that a run of decimal digits denotes.
pub open spec fn decimal_value(digits: Seq<char>) -> nat
    decreases digits.len(),
{
    if digits.len() == 0 {
        0
    } else {
        decimal_value(digits.drop_last()) * 10 + digit_value(digits.last())
    }
}

/// The decimal form of a number, without leading zeros.
pub open spec fn decimal(n: nat) -> Seq<char>
    decreases n,
{
    if n < 10 {
        seq![digit_char(n)]
    } else {
        decimal(n / 10).push(digit_char(n % 10))
    }
}

/// Whether the first `upto` characters are all decimal digits.
pub open spec fn all_digits(s: Seq<char>, upto: int) -> bool {
    forall|i: int| 0 <= i < upto ==> spec_is_digit(#[trigger] s[i])
}

/// Whether reading stops at position `i`: the character there is no digit, or
/// the digits up to and including it denote more than `max`.
pub open spec fn spec_digit_fails(digits: Seq<char>, i: int, max: nat) -> bool {
    !spec_is_digit(digits[i]) || decimal_value(digits.take(i + 1)) > max
}

/// Whether `i` is the first position at which reading stops.
pub open spec fn spec_first_failure(digits: Seq<char>, i: int, max: nat) -> bool {
    &&& 0 <= i < digits.len()
    &&& spec_digit_fails(digits, i, max)
    &&& forall|j: int| 0 <= j < i ==> !spec_digit_fails(digits, j, max)
}

/// Reads `digits` as a decimal number no greater than `max`. The characters
/// are taken from the left, and the first one that is no digit, or that
/// carries the number beyond `max`, decides the error.
pub open spec fn spec_parse_digits(digits: Seq<char>, max: nat) -> Result<nat, ParseIntError> {
    if exists|i: int| spec_first_failure(digits, i, max) {
        let i = choose|i: int| spec_first_failure(digits, i, max);
        if spec_is_digit(digits[i]) {
            Err(ParseIntError::PosOverflow)
        } else {
            Err(ParseIntError::InvalidDigit)
        }
    } else {
        Ok(decimal_value(digits))
    }
}

/// The error of a run of characters is decided at its first failing position.
pub proof fn lemma_first_failure_decides(digits: Seq<char>, k: int, max: nat)
    requires
        spec_first_failure(digits, k, max),
    ensures
        spec_parse_digits(digits, max) == if spec_is_digit(digits[k]) {
            Err::<nat, ParseIntError>(ParseIntError::PosOverflow)
        } else {
            Err::<nat, ParseIntError>(ParseIntError::InvalidDigit)
        },
{
    let i = choose|i: int| spec_first_failure(digits, i, max);
    assert(spec_first_failure(digits, i, max));
    if i < k {
        assert(!spec_digit_fails(digits, i, max));
    }
    if k < i {
        assert(!spec_digit_fails(digits, k, max));
    }
}

/// Reads `s` as an unsigned decimal number that fits the machine word. One
/// leading `+` is accepted.
pub open spec fn spec_parse_usize(s: Seq<char>) -> Result<nat, ParseIntError> {
    if s.len() == 0 {
        Err(ParseIntError::Empty)
    } else {
        let digits = if s[0] == '+' {
            s.drop_first()
        } else {
            s
        };
        if digits.len() == 0 {
            Err(ParseIntError::InvalidDigit)
        } else {
            spec_parse_digits(digits, usize::MAX as nat)
        }
    }
}

/// Whether `c` is white space: one of the 25 characters that Unicode gives
/// the property White_Space.
pub open spec fn spec_is_whitespace(c: char) -> bool {
    let u = c as u32;
    ||| 0x09 <= u <= 0x0d
    ||| u == 0x20
    ||| u == 0x85
    ||| u == 0xa0
    ||| u == 0x1680
    ||| 0x2000 <= u <= 0x200a
    ||| u == 0x2028
    ||| u == 0x2029
    ||| u == 0x202f
    ||| u == 0x205f
    ||| u == 0x3000
}

/// The index of the first character of `s` at or after `from` that is not
/// white space, or the length of `s`.
pub open spec fn trim_start_at(s: Seq<char>, from: int) -> int
    decreases s.len() - from,
{
    if from < 0 || from >= s.len() {
        s.len() as int
    } else if spec_is_whitespace(s[from]) {
        trim_start_at(s, from + 1)
    } else {
        from
    }
}

/// The index behind the last character of `s` before `to` that is not white
/// space, but no less than `floor`.
pub open spec fn trim_end_at(s: Seq<char>, floor: int, to: int) -> int
    decreases to,
{
    if to <= floor || to > s.len() || to <= 0 {
        floor
    } else if spec_is_whitespace(s[to - 1]) {
        trim_end_at(s, floor, to - 1)
    } else {
        to
    }
}

/// `s` without the white space at its two ends.
pub open spec fn spec_trim(s: Seq<char>) -> Seq<char> {
    let start = trim_start_at(s, 0);
    s.subrange(start, trim_end_at(s, start, s.len() as int))
}

/// The index of the first `c` in `s` at or after `from`, or the length of `s`.
pub open spec fn find_char(s: Seq<char>, c: char, from: int) -> int
    decreases s.len() - from,
{
    if from < 0 || from >= s.len() {
        s.len() as int
    } else if s[from] == c {
        from
    } else {
        find_char(s, c, from + 1)
    }
}

/// The characters of `s`, for access by index.
pub fn chars_of(s: &str) -> (r: Vec<char>)
    ensures
        r@ == s@,
{
    let mut out: Vec<char> = Vec::new();
    for c in it: s.chars()
        invariant
            out@ == it.seq().take(it.index() as int),
            it.seq() == s@,
    {
        out.push(c);
    }
    out
}

/// The characters of `s` from `from` up to `to`, as a string of their own.
pub fn substring(s: &str, from: usize, to: usize) -> (r: String)
    requires
        from <= to <= s@.len(),
    ensures
        r@ == s@.subrange(from as int, to as int),
{
    s.substring_char(from, to).to_owned()
}

#[verifier::when_used_as_spec(spec_is_digit)]
pub fn is_digit(c: char) -> (r: bool)
    ensures
        r == spec_is_digit(c),
{
    c >= '0' && c <= '9'
}

#[verifier::when_used_as_spec(spec_is_whitespace)]
pub fn is_whitespace(c: char) -> (r: bool)
    ensures
        r == spec_is_whitespace(c),
{
    let u: u32 = c as u32;
    (0x09 <= u && u <= 0x0d) || u == 0x20 || u == 0x85 || u == 0xa0 || u == 0x1680 || (0x2000 <= u
        && u <= 0x200a) || u == 0x2028 || u == 0x2029 || u == 0x202f || u == 0x205f || u == 0x3000
}

/// Finds the first `c` at or after `from`; returns the length where there is none.
pub fn find(chars: &[char], c: char, from: usize) -> (r: usize)
    ensures
        r == find_char(chars@, c, from as int),
        from <= chars@.len() ==> from <= r <= chars@.len(),
        r < chars@.len() ==> chars@[r as int] == c,
{
    let total: usize = chars.len();
    if from >= total {
        return total;
    }
    let mut i: usize = from;
    while i < total && chars[i] != c
        invariant
            from <= i <= total == chars@.len(),
            find_char(chars@, c, from as int) == find_char(chars@, c, i as int),
        decreases total - i,
    {
        i = i + 1;
    }
    i
}

/// The bounds of `chars[from..to]` without the white space at its two ends.
pub fn trim_bounds(chars: &[char], from: usize, to: usize) -> (r: (usize, usize))
    requires
        from <= to <= chars@.len(),
    ensures
        from <= r.0 <= r.1 <= to,
        chars@.subrange(r.0 as int, r.1 as int) == spec_trim(chars@.subrange(from as int, to as int)),
{
    let ghost part = chars@.subrange(from as int, to as int);
    let mut start: usize = from;
    while start < to && is_whitespace(chars[start])
        invariant
            from <= start <= to <= chars@.len(),
            part == chars@.subrange(from as int, to as int),
            trim_start_at(part, 0) == trim_start_at(part, start - from),
        decreases to - start,
    {
        start = start + 1;
    }
    let mut end: usize = to;
    while end > start && is_whitespace(chars[end - 1])
        invariant
            from <= start <= end <= to <= chars@.len(),
            part == chars@.subrange(from as int, to as int),
            trim_end_at(part, start - from, part.len() as int) == trim_end_at(
                part,
                start - from,
                end - from,
            ),
        decreases end,
    {
        end = end - 1;
    }
    proof {
        assert(trim_start_at(part, 0) == start - from);
        assert(trim_end_at(part, start - from, part.len() as int) == end - from);
        assert(chars@.subrange(start as int, end as int) =~= part.subrange(
            start - from,
            end - from,
        ));
    }
    (start, end)
}

/// Reads an unsigned decimal number, as a `Content-Length` carries one.
pub fn parse_usize(s: &str) -> (r: Result<usize, ParseIntError>)
    ensures
        spec_parse_usize(s@) == match r {
            Ok(n) => Ok(n as nat),
            Err(e) => Err(e),
        },
{
    let chars = chars_of(s);
    let total: usize = chars.len();
    if total == 0 {
        return Err(ParseIntError::Empty);
    }
    let first: usize = if chars[0] == '+' { 1 } else { 0 };
    if first == total {
        return Err(ParseIntError::InvalidDigit);
    }
    let ghost digits = if s@[0] == '+' { s@.drop_first() } else { s@ };
    let ghost max = usize::MAX as nat;
    let mut value: usize = 0;
    let mut i: usize = first;
    proof {
        assert(digits.take(0) =~= Seq::<char>::empty());
        assert(digits =~= s@.subrange(first as int, total as int));
    }
    while i < total
        invariant
            first <= i <= total == chars@.len(),
            chars@ == s@,
            first <= 1,
            digits == s@.subrange(first as int, total as int),
            spec_parse_usize(s@) == spec_parse_digits(digits, max),
            max == usize::MAX,
            value == decimal_value(digits.take(i - first)),
            forall|j: int| 0 <= j < i - first ==> !spec_digit_fails(digits, j, max),
        decreases total - i,
    {
        let c: char = chars[i];
        let ghost k: int = i - first;
        proof {
            assert(digits[k] == c);
            assert(digits.take(k + 1).drop_last() =~= digits.take(k));
        }
        if !is_digit(c) {
            proof {
                lemma_first_failure_decides(digits, k, max);
            }
            return Err(ParseIntError::InvalidDigit);
        }
        let d: usize = (c as u32 - '0' as u32) as usize;
        let next = match value.checked_mul(10) {
            None => None,
            Some(tens) => tens.checked_add(d),
        };
        match next {
            None => {
                proof {
                    lemma_first_failure_decides(digits, k, max);
                }
                return Err(ParseIntError::PosOverflow);
            },
            Some(n) => {
                value = n;
            },
        }
        i = i + 1;
    }
    proof {
        assert(digits.take(total - first) =~= digits);
    }
    Ok(value)
}

/// The text of one decimal digit.
fn digit_str(d: usize) -> (r: &'static str)
    requires
        d < 10,
    ensures
        r@ == seq![digit_char(d as nat)],
{
    proof {
        reveal_strlit("0");
        reveal_strlit("1");
        reveal_strlit("2");
        reveal_strlit("3");
        reveal_strlit("4");
        reveal_strlit("5");
        reveal_strlit("6");
        reveal_strlit("7");
        reveal_strlit("8");
        reveal_strlit("9");
    }
    let r = if d == 0 {
        "0"
    } else if d == 1 {
        "1"
    } else if d == 2 {
        "2"
    } else if d == 3 {
        "3"
    } else if d == 4 {
        "4"
    } else if d == 5 {
        "5"
    } else if d == 6 {
        "6"
    } else if d == 7 {
        "7"
    } else if d == 8 {
        "8"
    } else {
        "9"
    };
    proof {
        assert(r@ =~= seq![digit_char(d as nat)]);
    }
    r
}

/// Appends the decimal form of `n` to `out`.
pub fn push_decimal(out: &mut String, n: usize)
    ensures
        final(out)@ == old(out)@ + decimal(n as nat),
    decreases n,
{
    if n >= 10 {
        push_decimal(out, n / 10);
    }
    out.append(digit_str(n % 10));
}

/// The decimal form of `n`, as a `Content-Length` carries it.
pub fn usize_to_string(n: usize) -> (r: String)
    ensures
        r@ == decimal(n as nat),
{
    let mut out = String::new();
    push_decimal(&mut out, n);
    out
}

/// What the decimal form of a number is made of: at least one character,
/// digits only, and they denote the number; no run of its leading digits
/// denotes more.
pub proof fn lemma_decimal(n: nat)
    ensures
        decimal(n).len() >= 1,
        all_digits(decimal(n), decimal(n).len() as int),
        decimal_value(decimal(n)) == n,
        forall|i: int|
            0 <= i < decimal(n).len() ==> decimal_value(#[trigger] decimal(n).take(i + 1)) <= n,
    decreases n,
{
    let digits = decimal(n);
    let last = digit_char(n % 10);
    assert(spec_is_digit(last) && digit_value(last) == n % 10);
    if n < 10 {
        assert(digits.drop_last() =~= Seq::<char>::empty());
        assert(decimal_value(Seq::<char>::empty()) == 0);
        assert(digits.last() == last);
        assert(decimal_value(digits) == n);
        assert forall|i: int| 0 <= i < digits.len() implies decimal_value(
            #[trigger] digits.take(i + 1),
        ) <= n by {
            assert(digits.take(1) =~= digits);
        }
    } else {
        let front = decimal(n / 10);
        lemma_decimal(n / 10);
        assert(digits.drop_last() =~= front);
        assert(digits.last() == last);
        assert(decimal_value(digits) == n);
        assert forall|i: int| 0 <= i < digits.len() implies decimal_value(
            #[trigger] digits.take(i + 1),
        ) <= n by {
            if i + 1 < digits.len() {
                assert(digits.take(i + 1) =~= front.take(i + 1));
            } else {
                assert(digits.take(i + 1) =~= digits);
            }
        }
    }
}

/// A number that fits the machine word is read back from its decimal form.
pub proof fn lemma_decimal_round_trip(n: nat)
    requires
        n <= usize::MAX,
    ensures
        spec_parse_usize(decimal(n)) == Ok::<nat, ParseIntError>(n),
{
    lemma_decimal(n);
    let digits = decimal(n);
    let max = usize::MAX as nat;
    assert(spec_is_digit(digits[0]));
    assert forall|i: int| !spec_first_failure(digits, i, max) by {
        if 0 <= i < digits.len() {
            assert(spec_is_digit(digits[i]));
            assert(decimal_value(digits.take(i + 1)) <= n);
        }
    }
}

} // verus!
