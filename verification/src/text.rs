//! Text building blocks: decimal and hexadecimal numbers, splitting and
//! character-wise rewriting.
use vstd::prelude::*;
use vstd::string::*;

verus! {

/// `String::push` of std appends the given character to the string.
pub assume_specification[ String::push ](s: &mut String, c: char)
    ensures
        final(s)@ == old(s)@.push(c),
;

// ---------------------------------------------------------------------------
// Character-wise rewriting
// ---------------------------------------------------------------------------

/// Each character of `s` replaced by what `f` gives for it, in order.
pub open spec fn expand(s: Seq<char>, f: spec_fn(char) -> Seq<char>) -> Seq<char>
    decreases s.len(),
{
    if s.len() == 0 {
        Seq::empty()
    } else {
        expand(s.drop_last(), f) + f(s.last())
    }
}

/// Rewriting a concatenation is concatenating the rewritten halves.
pub proof fn lemma_expand_concat(a: Seq<char>, b: Seq<char>, f: spec_fn(char) -> Seq<char>)
    ensures
        expand(a + b, f) == expand(a, f) + expand(b, f),
    decreases b.len(),
{
    if b.len() == 0 {
        assert(a + b =~= a);
    } else {
        assert((a + b).drop_last() =~= a + b.drop_last());
        lemma_expand_concat(a, b.drop_last(), f);
    }
}

/// Rewriting a single character.
pub proof fn lemma_expand_one(c: char, f: spec_fn(char) -> Seq<char>)
    ensures
        expand(seq![c], f) == f(c),
{
    reveal_with_fuel(expand, 2);
    assert(seq![c].drop_last() =~= Seq::<char>::empty());
}

/// `s` with every `from` replaced by `to`.
pub open spec fn replace_char(s: Seq<char>, from: char, to: char) -> Seq<char> {
    s.map_values(|c: char| if c == from { to } else { c })
}

/// Replaces every `from` in `s` by `to`.
pub fn replaced(s: &str, from: char, to: char) -> (r: String)
    ensures
        r@ == replace_char(s@, from, to),
{
    let mut out = String::new();
    for c in it: s.chars()
        invariant
            it.seq() == s@,
            out@ == replace_char(s@.take(it.index()), from, to),
    {
        if c == from {
            out.push(to);
        } else {
            out.push(c);
        }
    }
    assert(s@.take(s@.len() as int) =~= s@);
    out
}

// ---------------------------------------------------------------------------
// Splitting
// ---------------------------------------------------------------------------

/// The pieces of `s` between occurrences of `sep`; always at least one.
pub open spec fn split(s: Seq<char>, sep: char) -> Seq<Seq<char>>
    decreases s.len(),
{
    if s.len() == 0 {
        seq![Seq::empty()]
    } else {
        let init = split(s.drop_last(), sep);
        if s.last() == sep {
            init.push(Seq::empty())
        } else {
            init.drop_last().push(init.last().push(s.last()))
        }
    }
}

/// How many characters of `s` precede its first `c` (all of them if there is none).
pub open spec fn position(s: Seq<char>, c: char) -> int
    decreases s.len(),
{
    if s.len() == 0 || s.first() == c {
        0
    } else {
        1 + position(s.drop_first(), c)
    }
}

/// What stands before and after the first `sep` of `s`.
pub open spec fn split_once(s: Seq<char>, sep: char) -> Option<(Seq<char>, Seq<char>)> {
    if s.contains(sep) {
        let i = position(s, sep);
        Some((s.take(i), s.skip(i + 1)))
    } else {
        None
    }
}

/// `position` finds the first occurrence.
pub proof fn lemma_position(s: Seq<char>, c: char)
    ensures
        0 <= position(s, c) <= s.len(),
        forall|j: int| 0 <= j < position(s, c) ==> s[j] != c,
        position(s, c) < s.len() ==> s[position(s, c)] == c,
        s.contains(c) <==> position(s, c) < s.len(),
    decreases s.len(),
{
    if s.len() != 0 && s.first() != c {
        lemma_position(s.drop_first(), c);
        let p = position(s.drop_first(), c);
        assert forall|j: int| 0 <= j < position(s, c) implies s[j] != c by {
            if j > 0 {
                assert(s.drop_first()[j - 1] == s[j]);
            }
        }
        if p < s.drop_first().len() {
            assert(s[p + 1] == c);
        } else {
            assert forall|j: int| 0 <= j < s.len() implies s[j] != c by {}
        }
    } else if s.len() != 0 {
        assert(s[0] == c);
    }
}

/// The first occurrence is the only place with no occurrence before it.
pub proof fn lemma_position_is(s: Seq<char>, c: char, i: int)
    requires
        0 <= i < s.len(),
        s[i] == c,
        forall|j: int| 0 <= j < i ==> s[j] != c,
    ensures
        position(s, c) == i,
        s.contains(c),
{
    lemma_position(s, c);
}

/// Splits `s` at every `sep`.
pub fn split_on(s: &str, sep: char) -> (parts: Vec<String>)
    ensures
        parts@.len() == split(s@, sep).len(),
        forall|i: int| 0 <= i < parts@.len() ==> (#[trigger] parts@[i])@ == split(s@, sep)[i],
{
    let mut parts: Vec<String> = Vec::new();
    let mut last = String::new();
    for c in it: s.chars()
        invariant
            it.seq() == s@,
            split(s@.take(it.index()), sep).len() == parts@.len() + 1,
            forall|i: int|
                0 <= i < parts@.len() ==> (#[trigger] parts@[i])@ == split(
                    s@.take(it.index()),
                    sep,
                )[i],
            last@ == split(s@.take(it.index()), sep).last(),
    {
        assert(s@.take(it.index() + 1).drop_last() =~= s@.take(it.index()));
        if c == sep {
            parts.push(last);
            last = String::new();
        } else {
            last.push(c);
        }
    }
    assert(s@.take(s@.len() as int) =~= s@);
    parts.push(last);
    parts
}

/// Splits `s` at its first `sep`.
pub fn split_once_on(s: &str, sep: char) -> (r: Option<(String, String)>)
    ensures
        match r {
            None => split_once(s@, sep) is None,
            Some(kv) => split_once(s@, sep) == Some((kv.0@, kv.1@)),
        },
{
    let mut found = false;
    let mut before = String::new();
    let mut after = String::new();
    for c in it: s.chars()
        invariant
            it.seq() == s@,
            found ==> {
                &&& before@.len() < it.index()
                &&& s@[before@.len() as int] == sep
                &&& after@ == s@.subrange(before@.len() as int + 1, it.index())
                &&& before@ == s@.take(before@.len() as int)
            },
            !found ==> before@ == s@.take(it.index()) && after@.len() == 0,
            forall|j: int| 0 <= j < before@.len() ==> s@[j] != sep,
    {
        if found {
            after.push(c);
            assert(after@ =~= s@.subrange(before@.len() as int + 1, it.index() + 1));
        } else if c == sep {
            found = true;
            assert(after@ =~= s@.subrange(before@.len() as int + 1, it.index() + 1));
        } else {
            before.push(c);
        }
    }
    proof {
        if found {
            lemma_position_is(s@, sep, before@.len() as int);
            assert(s@.skip(before@.len() as int + 1) =~= after@);
        } else {
            assert(before@ =~= s@);
        }
    }
    if found {
        Some((before, after))
    } else {
        None
    }
}

// ---------------------------------------------------------------------------
// Decimal numbers
// ---------------------------------------------------------------------------

/// The character of a decimal digit.
pub open spec fn digit_char(d: int) -> char {
    (0x30 + d) as char
}

/// Whether `c` is one of the ten ASCII digits.
pub open spec fn is_digit(c: char) -> bool {
    '0' <= c <= '9'
}

/// The decimal digits of `n`, without leading zeros.
pub open spec fn decimal(n: nat) -> Seq<char>
    decreases n,
{
    if n < 10 {
        seq![digit_char(n as int)]
    } else {
        decimal(n / 10).push(digit_char((n % 10) as int))
    }
}

/// The number that a string of decimal digits stands for.
pub open spec fn digits_value(s: Seq<char>) -> nat
    decreases s.len(),
{
    if s.len() == 0 {
        0
    } else {
        digits_value(s.drop_last()) * 10 + ((s.last() as int - 0x30) as nat)
    }
}

/// Whether `s` is a nonempty string of decimal digits.
pub open spec fn all_digits(s: Seq<char>) -> bool {
    &&& s.len() > 0
    &&& forall|i: int| 0 <= i < s.len() ==> is_digit(#[trigger] s[i])
}

/// `s` without one leading plus sign.
pub open spec fn without_plus(s: Seq<char>) -> Seq<char> {
    if s.len() > 0 && s.first() == '+' {
        s.skip(1)
    } else {
        s
    }
}

/// The unsigned number written in `s`: an optional plus sign and then nothing
/// but decimal digits, at most `max`.
pub open spec fn parse_unsigned(s: Seq<char>, max: nat) -> Option<nat> {
    let digits = without_plus(s);
    if all_digits(digits) && digits_value(digits) <= max {
        Some(digits_value(digits))
    } else {
        None
    }
}

/// Writing a number in decimal and reading it again gives the number back.
pub proof fn decimal_reads_back(n: nat, max: nat)
    requires
        n <= max,
    ensures
        parse_unsigned(decimal(n), max) == Some(n),
{
    lemma_decimal(n);
}

/// `decimal` gives digits whose value is the number.
pub proof fn lemma_decimal(n: nat)
    ensures
        all_digits(decimal(n)),
        digits_value(decimal(n)) == n,
        decimal(n).first() != '+',
    decreases n,
{
    let s = decimal(n);
    if n < 10 {
        assert(s.drop_last() =~= Seq::<char>::empty());
        assert(digits_value(s.drop_last()) == 0);
    } else {
        lemma_decimal(n / 10);
        assert(s.drop_last() =~= decimal(n / 10));
        assert(s.first() == decimal(n / 10).first());
    }
}

/// A longer string of digits stands for at least as much.
proof fn lemma_digits_value_monotone(s: Seq<char>, k: int)
    requires
        0 <= k <= s.len(),
    ensures
        digits_value(s.take(k)) <= digits_value(s),
    decreases s.len() - k,
{
    if k == s.len() {
        assert(s.take(k) =~= s);
    } else {
        lemma_digits_value_monotone(s, k + 1);
        assert(s.take(k + 1).drop_last() =~= s.take(k));
    }
}

/// The text of `n` in decimal.
pub fn decimal_text(n: u64) -> (r: String)
    ensures
        r@ == decimal(n as nat),
    decreases n,
{
    if n < 10 {
        let mut out = String::new();
        out.push(digit(n as u8));
        assert(out@ =~= decimal(n as nat));
        out
    } else {
        let mut out = decimal_text(n / 10);
        out.push(digit((n % 10) as u8));
        out
    }
}

/// The character of a decimal digit.
fn digit(d: u8) -> (c: char)
    requires
        d < 10,
    ensures
        c == digit_char(d as int),
{
    (48u8 + d) as char
}

/// Reads an unsigned number of at most `max`.
pub fn parse_number(s: &str, max: u64) -> (r: Option<u64>)
    ensures
        match r {
            None => parse_unsigned(s@, max as nat) is None,
            Some(n) => parse_unsigned(s@, max as nat) == Some(n as nat),
        },
{
    let mut value: u64 = 0;
    let mut at_start = true;
    let mut any = false;
    let ghost digits = without_plus(s@);
    let ghost offset = s@.len() - digits.len();
    for c in it: s.chars()
        invariant
            it.seq() == s@,
            digits == without_plus(s@),
            offset == s@.len() - digits.len(),
            at_start <==> it.index() == 0,
            at_start ==> !any && value == 0,
            !at_start ==> {
                &&& it.index() >= offset
                &&& any <==> it.index() > offset
                &&& value == digits_value(digits.take(it.index() - offset))
                &&& forall|i: int| 0 <= i < it.index() - offset ==> is_digit(#[trigger] digits[i])
            },
            value <= max,
    {
        if at_start && c == '+' {
            assert(digits.take(0) =~= Seq::<char>::empty());
        } else {
            let ghost k = it.index() - offset;
            assert(digits[k] == c);
            proof {
                assert(digits.take(k + 1).drop_last() =~= digits.take(k));
                if at_start {
                    assert(digits.take(0) =~= Seq::<char>::empty());
                }
                assert(value == digits_value(digits.take(k)));
            }
            if !(c >= '0' && c <= '9') {
                assert(!all_digits(digits));
                return None;
            }
            let d: u64 = (c as u32 - 48) as u64;
            proof {
                lemma_digits_value_monotone(digits, k + 1);
                assert(digits_value(digits.take(k + 1)) == value * 10 + d);
            }
            if d > max || value > (max - d) / 10 {
                return None;
            }
            value = value * 10 + d;
            any = true;
        }
        at_start = false;
    }
    assert(digits.take(digits.len() as int) =~= digits);
    if any {
        Some(value)
    } else {
        None
    }
}

// ---------------------------------------------------------------------------
// Hexadecimal numbers
// ---------------------------------------------------------------------------

/// The lower-case character of a hexadecimal digit.
pub open spec fn hex_char(d: int) -> char {
    if d < 10 {
        (0x30 + d) as char
    } else {
        (0x57 + d) as char
    }
}

/// The two lower-case hexadecimal digits of a byte.
pub open spec fn hex_byte(b: u8) -> Seq<char> {
    seq![hex_char(b as int / 16), hex_char(b as int % 16)]
}

/// The lower-case character of a hexadecimal digit.
fn hex_digit(d: u8) -> (c: char)
    requires
        d < 16,
    ensures
        c == hex_char(d as int),
{
    if d < 10 {
        (48u8 + d) as char
    } else {
        (87u8 + d) as char
    }
}

/// Appends the two hexadecimal digits of `b` to `out`.
pub fn push_hex(out: &mut String, b: u8)
    ensures
        final(out)@ == old(out)@ + hex_byte(b),
{
    out.push(hex_digit(b / 16));
    out.push(hex_digit(b % 16));
    assert(out@ =~= old(out)@ + hex_byte(b));
}

// ---------------------------------------------------------------------------
// Laws
// ---------------------------------------------------------------------------

/// Replacing keeps every character in its place but the one that is replaced.
pub proof fn replacing_keeps_the_rest(s: Seq<char>, from: char, to: char)
    ensures
        replace_char(s, from, to).len() == s.len(),
        forall|i: int|
            0 <= i < s.len() ==> #[trigger] replace_char(s, from, to)[i] == if s[i] == from {
                to
            } else {
                s[i]
            },
{
}

/// Pieces with a separator between neighbours.
pub open spec fn joined(parts: Seq<Seq<char>>, sep: char) -> Seq<char>
    decreases parts.len(),
{
    if parts.len() == 0 {
        Seq::empty()
    } else if parts.len() == 1 {
        parts[0]
    } else {
        joined(parts.drop_last(), sep) + seq![sep] + parts.last()
    }
}

/// The pieces of a text have no separator in them, and with separators between
/// them they are the text again.
pub proof fn pieces_make_up_the_text(s: Seq<char>, sep: char)
    ensures
        split(s, sep).len() > 0,
        joined(split(s, sep), sep) == s,
        forall|i: int| 0 <= i < split(s, sep).len() ==> !(#[trigger] split(s, sep)[i]).contains(sep),
    decreases s.len(),
{
    if s.len() == 0 {
        assert(s =~= Seq::<char>::empty());
    } else {
        let init = split(s.drop_last(), sep);
        let parts = split(s, sep);
        pieces_make_up_the_text(s.drop_last(), sep);
        assert(s =~= s.drop_last().push(s.last()));
        if s.last() == sep {
            assert(parts.drop_last() =~= init);
            assert(joined(parts, sep) =~= s);
        } else {
            assert(parts.drop_last() =~= init.drop_last());
            assert(joined(parts, sep) =~= s);
            assert forall|j: int| 0 <= j < parts.last().len() implies parts.last()[j] != sep by {
                if j < init.last().len() {
                    assert(!init[init.len() - 1].contains(sep));
                    assert(init.last().contains(init.last()[j]));
                }
            }
        }
        assert forall|i: int| 0 <= i < parts.len() implies !(#[trigger] parts[i]).contains(sep) by {
            if i < parts.len() - 1 {
                assert(parts[i] == init[i]);
            }
        }
    }
}

/// A text falls apart at its first separator, exactly if it has one.
pub proof fn text_falls_apart_at_the_first_separator(s: Seq<char>, sep: char)
    ensures
        split_once(s, sep) is Some <==> s.contains(sep),
        split_once(s, sep) matches Some(halves) ==> {
            &&& s == halves.0 + seq![sep] + halves.1
            &&& !halves.0.contains(sep)
        },
{
    lemma_position(s, sep);
    if s.contains(sep) {
        let i = position(s, sep);
        assert(s =~= s.take(i) + seq![sep] + s.skip(i + 1));
        assert forall|j: int| 0 <= j < i implies s.take(i)[j] != sep by {
            assert(s.take(i)[j] == s[j]);
        }
    }
}

/// A number is read digit by digit: one more digit makes it ten times as much and
/// that digit more, unless that is too much.
pub proof fn digits_are_read_one_by_one(s: Seq<char>, c: char, max: nat)
    requires
        forall|i: int| 0 <= i < s.len() ==> '0' <= #[trigger] s[i] <= '9',
        '0' <= c <= '9',
    ensures
        s.len() == 0 ==> parse_unsigned(s.push(c), max) == if c as int - 0x30 <= max {
            Some((c as int - 0x30) as nat)
        } else {
            None
        },
        s.len() > 0 ==> parse_unsigned(s.push(c), max) == match parse_unsigned(s, max) {
            Some(n) => if n * 10 + (c as int - 0x30) <= max {
                Some((n * 10 + (c as int - 0x30)) as nat)
            } else {
                None
            },
            None => None,
        },
{
    let t = s.push(c);
    assert(t.drop_last() =~= s);
    assert forall|i: int| 0 <= i < t.len() implies is_digit(#[trigger] t[i]) by {
        if i < s.len() {
            assert(t[i] == s[i]);
        }
    }
    assert(t[0] == if s.len() == 0 {
        c
    } else {
        s[0]
    });
    if s.len() == 0 {
        assert(digits_value(s) == 0);
    } else {
        assert(all_digits(s)) by {
            assert forall|i: int| 0 <= i < s.len() implies is_digit(#[trigger] s[i]) by {}
        }
    }
}

/// One plus sign in front of a number is skipped.
pub proof fn plus_sign_is_skipped(s: Seq<char>, max: nat)
    requires
        s.len() > 0 ==> s[0] != '+',
    ensures
        parse_unsigned(seq!['+'] + s, max) == parse_unsigned(s, max),
{
    assert((seq!['+'] + s).skip(1) =~= s);
}

/// Nothing else is a number: neither an empty text nor one with any other
/// character.
pub proof fn other_texts_are_no_numbers(s: Seq<char>, i: int, max: nat)
    requires
        0 <= i < s.len(),
        !('0' <= s[i] <= '9'),
        !(i == 0 && s[0] == '+'),
    ensures
        parse_unsigned(s, max) is None,
        parse_unsigned(Seq::empty(), max) is None,
{
    let digits = without_plus(s);
    if s[0] == '+' {
        assert(digits[i - 1] == s[i]);
        assert(!is_digit(digits[i - 1]));
    } else {
        assert(!is_digit(digits[i]));
    }
}

/// A decimal number has no needless zero in front.
pub proof fn decimal_starts_without_zero(n: nat)
    ensures
        n > 0 ==> decimal(n)[0] != '0',
        n == 0 ==> decimal(n) == seq!['0'],
    decreases n,
{
    lemma_decimal(n);
    if n >= 10 {
        lemma_decimal(n / 10);
        decimal_starts_without_zero(n / 10);
        assert(decimal(n)[0] == decimal(n / 10)[0]);
    }
}

/// A byte is written as its two lower-case hexadecimal digits.
pub proof fn hex_digits_stand_for_the_byte(b: u8)
    ensures
        hex_byte(b).len() == 2,
        forall|i: int|
            0 <= i < 2 ==> {
                ||| '0' <= #[trigger] hex_byte(b)[i] <= '9'
                ||| 'a' <= hex_byte(b)[i] <= 'f'
            },
        ({
            let value = |c: char|
                if c <= '9' {
                    c as int - 0x30
                } else {
                    c as int - 0x57
                };
            value(hex_byte(b)[0]) * 16 + value(hex_byte(b)[1]) == b
        }),
{
}

} // verus!
