//! Text helpers shared by the parsers and the code generator: copying between
//! `str`, `String` and character vectors, comparing, and reading and writing
//! unsigned numbers.

use vstd::prelude::*;

verus! {

/// Appends one character to a string.
///
/// Trusted: `String::push` of the standard library is taken to append exactly
/// the given character at the end and to leave the rest of the string as it was.
#[verifier::external_body]
pub(crate) fn push_char(s: &mut String, c: char)
    ensures
        final(s)@ == old(s)@.push(c),
{
    s.push(c)
}

/// What `str::to_uppercase` makes of a piece of text.
pub uninterp spec fn uppercase(s: Seq<char>) -> Seq<char>;

/// The upper-case form of `text`.
///
/// Trusted: names the result of `str::to_uppercase` of the standard library,
/// which depends on the characters of its argument alone. Nothing else is
/// claimed of it.
#[verifier::external_body]
pub(crate) fn to_uppercase(text: &str) -> (r: String)
    ensures
        r@ == uppercase(text@),
{
    text.to_uppercase()
}

/// What formatting a piece of text with `{:?}` gives: the text between double
/// quotes, with the escapes that the standard library chooses.
pub uninterp spec fn debug_quoted(s: Seq<char>) -> Seq<char>;

/// `text` as a quoted string literal.
///
/// Trusted: names the result of the standard library's `Debug` formatting of
/// a `str`, which depends on the characters of its argument alone. Nothing
/// else is claimed of it.
#[verifier::external_body]
pub(crate) fn debug_quote(text: &str) -> (r: String)
    ensures
        r@ == debug_quoted(text@),
{
    format!("{:?}", text)
}

/// The characters of `text`, in order.
pub fn chars_of(text: &str) -> (r: Vec<char>)
    ensures
        r@ == text@,
{
    let mut r: Vec<char> = Vec::new();
    for c in it: text.chars()
        invariant
            r@ == text@.take(it.index() as int),
            it.seq() == text@,
    {
        r.push(c);
    }
    r
}

/// The string made of `chars[from..to]`.
pub fn string_of(chars: &Vec<char>, from: usize, to: usize) -> (r: String)
    requires
        from <= to <= chars.len(),
    ensures
        r@ == chars@.subrange(from as int, to as int),
{
    let mut r = String::new();
    let mut i: usize = from;
    while i < to
        invariant
            from <= i <= to <= chars.len(),
            r@ == chars@.subrange(from as int, i as int),
        decreases to - i,
    {
        push_char(&mut r, chars[i]);
        i = i + 1;
    }
    r
}

/// Whether two pieces of text hold the same characters.
pub fn same_text(a: &str, b: &str) -> (r: bool)
    ensures
        r == (a@ == b@),
{
    let x = a.to_owned();
    let y = b.to_owned();
    x == y
}

/// The character that writes the digit `d` (for `d` below ten).
pub open spec fn digit_char(d: nat) -> char {
    if d == 0 {
        '0'
    } else if d == 1 {
        '1'
    } else if d == 2 {
        '2'
    } else if d == 3 {
        '3'
    } else if d == 4 {
        '4'
    } else if d == 5 {
        '5'
    } else if d == 6 {
        '6'
    } else if d == 7 {
        '7'
    } else if d == 8 {
        '8'
    } else {
        '9'
    }
}

/// The decimal numeral of `n`, without sign or leading zeros.
pub open spec fn decimal(n: nat) -> Seq<char>
    decreases n,
{
    if n < 10 {
        seq![digit_char(n)]
    } else {
        decimal(n / 10).push(digit_char(n % 10))
    }
}

fn digit_to_char(d: u64) -> (c: char)
    requires
        d < 10,
    ensures
        c == digit_char(d as nat),
{
    if d == 0 {
        '0'
    } else if d == 1 {
        '1'
    } else if d == 2 {
        '2'
    } else if d == 3 {
        '3'
    } else if d == 4 {
        '4'
    } else if d == 5 {
        '5'
    } else if d == 6 {
        '6'
    } else if d == 7 {
        '7'
    } else if d == 8 {
        '8'
    } else {
        '9'
    }
}

/// Appends the decimal numeral of `n` to `out`.
pub fn push_decimal(out: &mut String, n: u64)
    ensures
        final(out)@ == old(out)@ + decimal(n as nat),
    decreases n,
{
    if n >= 10 {
        push_decimal(out, n / 10);
    }
    push_char(out, digit_to_char(n % 10));
    assert(final(out)@ =~= old(out)@ + decimal(n as nat));
}

/// The value of `c` as a digit in the given radix: `0-9`, then `a-z` or `A-Z`
/// for ten and up; `None` where `c` is no digit below the radix.
pub open spec fn digit_of(c: char, radix: nat) -> Option<nat> {
    let v = c as u32;
    let d: Option<nat> = if 48 <= v <= 57 {
        Some((v - 48) as nat)
    } else if 97 <= v <= 122 {
        Some((v - 87) as nat)
    } else if 65 <= v <= 90 {
        Some((v - 55) as nat)
    } else {
        None
    };
    match d {
        Some(x) => if x < radix { Some(x) } else { None },
        None => None,
    }
}

/// The number that the digits `s` write in the given radix, most significant
/// digit first; `None` where some character is no digit. The empty sequence
/// writes zero.
pub open spec fn digits_value(s: Seq<char>, radix: nat) -> Option<nat>
    decreases s.len(),
{
    if s.len() == 0 {
        Some(0)
    } else {
        match (digits_value(s.drop_last(), radix), digit_of(s.last(), radix)) {
            (Some(hi), Some(d)) => Some(hi * radix + d),
            _ => None,
        }
    }
}

/// What reading `s` as an unsigned number gives: an optional `+`, then at
/// least one digit and nothing else, and a value of at most `max`.
pub open spec fn unsigned_value(s: Seq<char>, radix: nat, max: nat) -> Option<nat> {
    let body = if s.len() > 1 && s[0] == '+' { s.drop_first() } else { s };
    if body.len() == 0 {
        None
    } else {
        match digits_value(body, radix) {
            Some(v) => if v <= max { Some(v) } else { None },
            None => None,
        }
    }
}

/// Once a prefix of the digits writes more than `max`, so does the whole.
pub proof fn lemma_digits_grow(s: Seq<char>, k: int, radix: nat)
    requires
        0 <= k <= s.len(),
        radix >= 1,
    ensures
        digits_value(s.take(k), radix) is None ==> digits_value(s, radix) is None,
        digits_value(s, radix) is Some ==> digits_value(s.take(k), radix)->0 <= digits_value(s, radix)->0,
    decreases s.len() - k,
{
    if k < s.len() {
        lemma_digits_grow(s, k + 1, radix);
        assert(s.take(k + 1).drop_last() =~= s.take(k));
        if digits_value(s.take(k + 1), radix) is Some {
            let hi = digits_value(s.take(k), radix)->0;
            assert(hi <= hi * radix) by (nonlinear_arith)
                requires
                    radix >= 1,
            ;
        }
    } else {
        assert(s.take(k) =~= s);
    }
}

fn digit_value(c: char, radix: u32) -> (r: Option<u64>)
    requires
        2 <= radix <= 36,
    ensures
        r matches Some(d) ==> digit_of(c, radix as nat) == Some(d as nat),
        r is None ==> digit_of(c, radix as nat) is None,
{
    let v: u32 = c as u32;
    let d: u32 = if 48 <= v && v <= 57 {
        v - 48
    } else if 97 <= v && v <= 122 {
        v - 87
    } else if 65 <= v && v <= 90 {
        v - 55
    } else {
        return None;
    };
    if d < radix {
        Some(d as u64)
    } else {
        None
    }
}

/// Reads `text` as an unsigned number in the given radix, as the integer
/// types' `from_str_radix` does: an optional `+`, then digits only. `None`
/// for anything else and for a value above `max`.
pub fn parse_unsigned(text: &str, radix: u32, max: u64) -> (r: Option<u64>)
    requires
        2 <= radix <= 36,
    ensures
        r matches Some(v) ==> unsigned_value(text@, radix as nat, max as nat) == Some(v as nat),
        r is None ==> unsigned_value(text@, radix as nat, max as nat) is None,
{
    let chars = chars_of(text);
    let start: usize = if chars.len() > 1 && chars[0] == '+' { 1 } else { 0 };
    let ghost body = if text@.len() > 1 && text@[0] == '+' { text@.drop_first() } else { text@ };
    assert(body =~= chars@.subrange(start as int, chars.len() as int));
    if start == chars.len() {
        return None;
    }
    let mut acc: u64 = 0;
    let mut i: usize = start;
    while i < chars.len()
        invariant
            2 <= radix <= 36,
            start <= i <= chars.len(),
            body == chars@.subrange(start as int, chars.len() as int),
            body.len() > 0,
            body == if text@.len() > 1 && text@[0] == '+' { text@.drop_first() } else { text@ },
            digits_value(body.take(i - start), radix as nat) == Some(acc as nat),
            acc <= max,
        decreases chars.len() - i,
    {
        proof {
            assert(body.take(i - start + 1).drop_last() =~= body.take(i - start));
            assert(body.take(i - start + 1).last() == chars@[i as int]);
            lemma_digits_grow(body, i - start + 1, radix as nat);
        }
        match digit_value(chars[i], radix) {
            None => {
                return None;
            },
            Some(d) => {
                assert(acc * radix <= 0xffff_ffff_ffff_ffff * 36) by (nonlinear_arith)
                    requires
                        acc <= 0xffff_ffff_ffff_ffff,
                        radix <= 36,
                ;
                let wide: u128 = (acc as u128) * (radix as u128) + (d as u128);
                if wide > max as u128 {
                    return None;
                }
                acc = wide as u64;
            },
        }
        i = i + 1;
    }
    assert(body.take(i - start) =~= body);
    Some(acc)
}

} // verus!
