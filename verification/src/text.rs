//! Verified text helpers: decimal and hexadecimal rendering of machine
//! integers, decimal parsing, and the character-level trimming and
//! splitting that the kernel command line parser relies on.

use vstd::prelude::*;
use vstd::string::*;

verus! {

/// The ASCII character for the decimal digit `d` (`d < 10`).
pub open spec fn spec_digit(d: nat) -> char {
    if d == 0 { '0' } else if d == 1 { '1' } else if d == 2 { '2' }
    else if d == 3 { '3' } else if d == 4 { '4' } else if d == 5 { '5' }
    else if d == 6 { '6' } else if d == 7 { '7' } else if d == 8 { '8' }
    else { '9' }
}

/// The ASCII character for the hexadecimal digit `d` (`d < 16`), lower case.
pub open spec fn spec_hex_digit(d: nat) -> char {
    if d < 10 { spec_digit(d) }
    else if d == 10 { 'a' } else if d == 11 { 'b' } else if d == 12 { 'c' }
    else if d == 13 { 'd' } else if d == 14 { 'e' } else { 'f' }
}

/// Decimal text of `n`, most significant digit first, no leading zeroes
/// (a single `'0'` for zero).
pub open spec fn spec_dec(n: nat) -> Seq<char>
    decreases n,
{
    if n < 10 {
        seq![spec_digit(n)]
    } else {
        spec_dec(n / 10).push(spec_digit(n % 10))
    }
}

/// Lower-case hexadecimal text of `n`, most significant digit first, no
/// leading zeroes (a single `'0'` for zero).
pub open spec fn spec_hex(n: nat) -> Seq<char>
    decreases n,
{
    if n < 16 {
        seq![spec_hex_digit(n)]
    } else {
        spec_hex(n / 16).push(spec_hex_digit(n % 16))
    }
}

/// One-character string slice for the decimal digit `d`.
fn digit_str(d: u8) -> (r: &'static str)
    requires
        d < 10,
    ensures
        r@ =~= seq![spec_digit(d as nat)],
{
    proof {
        reveal_strlit("0");
        reveal_strlit("1");
        reveal_strlit("2");
        reveal_strlit("3");
        reveal_strlit("4");
        reveal_strlit("5");
        reveal_strlit("6");
        reveal_strlit("7");
        reveal_strlit("8");
        reveal_strlit("9");
    }
    match d {
        0 => "0",
        1 => "1",
        2 => "2",
        3 => "3",
        4 => "4",
        5 => "5",
        6 => "6",
        7 => "7",
        8 => "8",
        _ => "9",
    }
}

/// One-character string slice for the hexadecimal digit `d`, lower case.
fn hex_digit_str(d: u8) -> (r: &'static str)
    requires
        d < 16,
    ensures
        r@ =~= seq![spec_hex_digit(d as nat)],
{
    proof {
        reveal_strlit("a");
        reveal_strlit("b");
        reveal_strlit("c");
        reveal_strlit("d");
        reveal_strlit("e");
        reveal_strlit("f");
    }
    if d < 10 {
        digit_str(d)
    } else {
        match d {
            10 => "a",
            11 => "b",
            12 => "c",
            13 => "d",
            14 => "e",
            _ => "f",
        }
    }
}

/// Decimal rendering of a 64-bit unsigned integer.
pub fn dec_u64(n: u64) -> (r: String)
    ensures
        r@ == spec_dec(n as nat),
    decreases n,
{
    if n < 10 {
        let s = digit_str(n as u8).to_owned();
        proof {
            assert(s@ =~= spec_dec(n as nat));
        }
        s
    } else {
        let mut s = dec_u64(n / 10);
        s.append(digit_str((n % 10) as u8));
        proof {
            assert(s@ =~= spec_dec(n as nat));
        }
        s
    }
}

/// Lower-case hexadecimal rendering of a 16-bit unsigned integer.
pub fn hex_u16(n: u16) -> (r: String)
    ensures
        r@ == spec_hex(n as nat),
    decreases n,
{
    if n < 16 {
        let s = hex_digit_str(n as u8).to_owned();
        proof {
            assert(s@ =~= spec_hex(n as nat));
        }
        s
    } else {
        let mut s = hex_u16(n / 16);
        s.append(hex_digit_str((n % 16) as u8));
        proof {
            assert(s@ =~= spec_hex(n as nat));
        }
        s
    }
}

/// `c` is an ASCII decimal digit.
pub open spec fn spec_is_digit(c: char) -> bool {
    48 <= c as u32 <= 57
}

/// Numeric value of the digit `c`.
pub open spec fn spec_digit_val(c: char) -> nat {
    (c as u32 - 48) as nat
}

/// Every character of `s` is an ASCII decimal digit.
pub open spec fn spec_all_digits(s: Seq<char>) -> bool {
    forall|i: int| 0 <= i < s.len() ==> spec_is_digit(#[trigger] s[i])
}

/// Value of the digit string `s`, most significant digit first.
pub open spec fn spec_digits_val(s: Seq<char>) -> nat
    decreases s.len(),
{
    if s.len() == 0 {
        0
    } else {
        spec_digits_val(s.drop_last()) * 10 + spec_digit_val(s.last())
    }
}

/// A digit string is worth at least any of its prefixes: appending digits
/// never lowers the value.
proof fn lemma_digits_val_prefix(s: Seq<char>, i: int)
    requires
        0 <= i <= s.len(),
    ensures
        spec_digits_val(s.subrange(0, i)) <= spec_digits_val(s),
    decreases s.len(),
{
    if i == s.len() {
        assert(s.subrange(0, i) =~= s);
    } else {
        lemma_digits_val_prefix(s.drop_last(), i);
        assert(s.drop_last().subrange(0, i) =~= s.subrange(0, i));
    }
}

/// The digit part of a signed decimal literal: everything after one
/// optional leading `+` or `-`.
pub open spec fn spec_i32_body(s: Seq<char>) -> Seq<char> {
    if s.len() > 0 && (s[0] == '+' || s[0] == '-') {
        s.skip(1)
    } else {
        s
    }
}

/// The literal carries a leading minus sign.
pub open spec fn spec_i32_is_neg(s: Seq<char>) -> bool {
    s.len() > 0 && s[0] == '-'
}

/// `s` is a decimal literal that fits in an `i32`: an optional sign, then
/// one or more digits, with the value inside the type's range.
pub open spec fn spec_i32_valid(s: Seq<char>) -> bool {
    let b = spec_i32_body(s);
    b.len() > 0 && spec_all_digits(b) && (if spec_i32_is_neg(s) {
        spec_digits_val(b) <= 0x8000_0000
    } else {
        spec_digits_val(b) <= 0x7fff_ffff
    })
}

/// The value a valid literal denotes.
pub open spec fn spec_i32_value(s: Seq<char>) -> int {
    if spec_i32_is_neg(s) {
        -(spec_digits_val(spec_i32_body(s)) as int)
    } else {
        spec_digits_val(spec_i32_body(s)) as int
    }
}

/// Parses a signed decimal `i32`, returning `Some` exactly on the literals
/// the type can hold.
pub fn parse_i32(s: &str) -> (r: Option<i32>)
    ensures
        r is Some <==> spec_i32_valid(s@),
        r matches Some(v) ==> v as int == spec_i32_value(s@),
{
    let n = s.unicode_len();
    if n == 0 {
        return None;
    }
    let c0 = s.get_char(0);
    let neg = c0 == '-';
    let start: usize = if c0 == '-' || c0 == '+' {
        1
    } else {
        0
    };
    let ghost body = spec_i32_body(s@);
    proof {
        assert(body =~= s@.subrange(start as int, n as int));
    }
    if start == n {
        return None;
    }
    let mut acc: u64 = 0;
    let mut i: usize = start;
    while i < n
        invariant
            start <= i <= n,
            n == s@.len(),
            0 < n,
            body == s@.subrange(start as int, n as int),
            body == spec_i32_body(s@),
            neg == spec_i32_is_neg(s@),
            start < n,
            spec_all_digits(s@.subrange(start as int, i as int)),
            acc == spec_digits_val(s@.subrange(start as int, i as int)),
            acc <= 0x8000_0000,
        decreases n - i,
    {
        let c = s.get_char(i);
        let cu = c as u32;
        if cu < 48 || cu > 57 {
            proof {
                assert(0 <= i - start < body.len());
                assert(body[i - start as int] == s@[i as int]);
                assert(s@[i as int] == c);
                assert(!spec_is_digit(s@[i as int]));
                assert(!spec_all_digits(body));
                assert(!spec_i32_valid(s@));
            }
            return None;
        }
        acc = acc * 10 + ((cu - 48) as u64);
        proof {
            assert(s@.subrange(start as int, i as int + 1).drop_last() =~= s@.subrange(
                start as int,
                i as int,
            ));
            assert(s@.subrange(start as int, i as int + 1).last() == s@[i as int]);
        }
        i = i + 1;
        if acc > 0x8000_0000 {
            proof {
                if spec_all_digits(body) {
                    lemma_digits_val_prefix(body, i - start as int);
                    assert(body.subrange(0, i - start as int) =~= s@.subrange(
                        start as int,
                        i as int,
                    ));
                    assert(spec_digits_val(body) >= acc);
                }
                assert(!spec_i32_valid(s@));
            }
            return None;
        }
    }
    proof {
        assert(s@.subrange(start as int, i as int) =~= body);
    }
    if neg {
        let v: i64 = -(acc as i64);
        proof {
            assert(-0x8000_0000 <= v <= 0);
        }
        Some(v as i32)
    } else {
        if acc > 0x7fff_ffff {
            return None;
        }
        Some(acc as i32)
    }
}

/// `c` is the ASCII whitespace the kernel command line can carry.
pub open spec fn spec_is_space(c: char) -> bool {
    c == ' ' || c == '\t' || c == '\n' || c == '\r'
}

/// `s` without its leading whitespace.
pub open spec fn spec_trim_start(s: Seq<char>) -> Seq<char>
    decreases s.len(),
{
    if s.len() > 0 && spec_is_space(s[0]) {
        spec_trim_start(s.skip(1))
    } else {
        s
    }
}

/// `s` without its trailing whitespace.
pub open spec fn spec_trim_end(s: Seq<char>) -> Seq<char>
    decreases s.len(),
{
    if s.len() > 0 && spec_is_space(s[s.len() - 1]) {
        spec_trim_end(s.drop_last())
    } else {
        s
    }
}

/// `s` without leading and trailing whitespace.
pub open spec fn spec_trim(s: Seq<char>) -> Seq<char> {
    spec_trim_end(spec_trim_start(s))
}

/// The character at `i` is whitespace.
fn is_space_at(s: &str, i: usize) -> (r: bool)
    requires
        i < s@.len(),
    ensures
        r == spec_is_space(s@[i as int]),
{
    let c = s.get_char(i);
    c == ' ' || c == '\t' || c == '\n' || c == '\r'
}

/// Copy of `s` without leading and trailing whitespace.
pub fn trim(s: &str) -> (r: String)
    ensures
        r@ == spec_trim(s@),
{
    let n = s.unicode_len();
    proof {
        assert(s@.skip(0) =~= s@);
    }
    let mut a: usize = 0;
    while a < n && is_space_at(s, a)
        invariant
            0 <= a <= n,
            n == s@.len(),
            spec_trim_start(s@) == spec_trim_start(s@.skip(a as int)),
        decreases n - a,
    {
        proof {
            assert(s@.skip(a as int).skip(1) =~= s@.skip(a as int + 1));
            assert(s@.skip(a as int)[0] == s@[a as int]);
        }
        a = a + 1;
    }
    let ghost t = s@.skip(a as int);
    proof {
        if a < n {
            assert(t[0] == s@[a as int]);
        }
        assert(spec_trim_start(s@) == t);
        assert(t.take(n - a as int) =~= t);
    }
    let mut b: usize = n;
    while b > a && is_space_at(s, b - 1)
        invariant
            a <= b <= n,
            n == s@.len(),
            t == s@.skip(a as int),
            spec_trim_end(t) == spec_trim_end(t.take(b - a as int)),
        decreases b,
    {
        proof {
            assert(t.take(b - a as int).drop_last() =~= t.take(b - 1 - a as int));
            assert(t.take(b - a as int).last() == s@[b as int - 1]);
        }
        b = b - 1;
    }
    proof {
        if b > a {
            assert(t.take(b - a as int).last() == s@[b as int - 1]);
        }
        assert(spec_trim_end(t) == t.take(b - a as int));
        assert(t.take(b - a as int) =~= s@.subrange(a as int, b as int));
    }
    let r = s.substring_char(a, b);
    r.to_owned()
}

/// First index of `c` in `s`, or `-1` when `s` does not carry it.
pub open spec fn spec_find(s: Seq<char>, c: char) -> int
    decreases s.len(),
{
    if s.len() == 0 {
        -1
    } else if s[0] == c {
        0
    } else {
        let r = spec_find(s.skip(1), c);
        if r == -1 {
            -1
        } else {
            r + 1
        }
    }
}

/// What `spec_find` returns: `-1` when `c` is absent, else the first
/// index that holds `c`.
pub proof fn lemma_find_character(s: Seq<char>, c: char)
    ensures
        spec_find(s, c) == -1 ==> forall|j: int| 0 <= j < s.len() ==> s[j] != c,
        spec_find(s, c) != -1 ==> {
            let f = spec_find(s, c);
            0 <= f < s.len() && s[f] == c && forall|j: int| 0 <= j < f ==> s[j] != c
        },
    decreases s.len(),
{
    if s.len() > 0 && s[0] != c {
        lemma_find_character(s.skip(1), c);
        assert(forall|j: int| 1 <= j < s.len() ==> s[j] == s.skip(1)[j - 1]);
    }
}

/// First index of `c` in `s`, if any.
pub fn find_char(s: &str, c: char) -> (r: Option<usize>)
    ensures
        r is Some <==> spec_find(s@, c) != -1,
        r matches Some(i) ==> i as int == spec_find(s@, c),
{
    let n = s.unicode_len();
    let mut i: usize = 0;
    while i < n
        invariant
            0 <= i <= n,
            n == s@.len(),
            forall|j: int| 0 <= j < i ==> s@[j] != c,
        decreases n - i,
    {
        if s.get_char(i) == c {
            proof {
                lemma_find_character(s@, c);
            }
            return Some(i);
        }
        i = i + 1;
    }
    proof {
        lemma_find_character(s@, c);
    }
    None
}

/// Tokens of `s` cut at `sep`, with `cur` the token under construction.
/// Consecutive separators give empty tokens; nothing is merged.
pub open spec fn spec_tokens_acc(s: Seq<char>, sep: char, cur: Seq<char>) -> Seq<Seq<char>>
    decreases s.len(),
{
    if s.len() == 0 {
        seq![cur]
    } else if s[0] == sep {
        seq![cur] + spec_tokens_acc(s.skip(1), sep, seq![])
    } else {
        spec_tokens_acc(s.skip(1), sep, cur.push(s[0]))
    }
}

/// Tokens of `s` cut at every occurrence of `sep`; the empty string gives
/// one empty token.
pub open spec fn spec_split(s: Seq<char>, sep: char) -> Seq<Seq<char>> {
    spec_tokens_acc(s, sep, seq![])
}

/// Cuts `s` at every occurrence of `sep`.
pub fn split_char(s: &str, sep: char) -> (r: Vec<String>)
    ensures
        r.deep_view() == spec_split(s@, sep),
{
    let n = s.unicode_len();
    proof {
        assert(s@.skip(0) =~= s@);
        assert(s@.subrange(0, 0) =~= Seq::<char>::empty());
    }
    let mut out: Vec<String> = Vec::new();
    let mut start: usize = 0;
    let mut i: usize = 0;
    while i < n
        invariant
            0 <= start <= i <= n,
            n == s@.len(),
            spec_split(s@, sep) == out.deep_view() + spec_tokens_acc(
                s@.skip(i as int),
                sep,
                s@.subrange(start as int, i as int),
            ),
        decreases n - i,
    {
        let c = s.get_char(i);
        if c == sep {
            let ghost prev = out.deep_view();
            let ghost cur = s@.subrange(start as int, i as int);
            let ghost rest = spec_tokens_acc(s@.skip(i as int + 1), sep, Seq::<char>::empty());
            let tok = s.substring_char(start, i).to_owned();
            out.push(tok);
            proof {
                assert(s@.skip(i as int)[0] == s@[i as int]);
                assert(s@.skip(i as int).skip(1) =~= s@.skip(i as int + 1));
                assert(s@.subrange(i as int + 1, i as int + 1) =~= Seq::<char>::empty());
                assert(out.deep_view() =~= prev.push(cur));
                assert(prev + (seq![cur] + rest) =~= prev.push(cur) + rest);
            }
            start = i + 1;
            i = i + 1;
        } else {
            proof {
                assert(s@.skip(i as int)[0] == s@[i as int]);
                assert(s@.skip(i as int).skip(1) =~= s@.skip(i as int + 1));
                assert(s@.subrange(start as int, i as int).push(s@[i as int]) =~= s@.subrange(
                    start as int,
                    i as int + 1,
                ));
            }
            i = i + 1;
        }
    }
    let ghost prev = out.deep_view();
    let ghost cur = s@.subrange(start as int, n as int);
    let tok = s.substring_char(start, n).to_owned();
    out.push(tok);
    proof {
        assert(s@.skip(n as int).len() == 0);
        assert(out.deep_view() =~= prev.push(cur));
        assert(prev + seq![cur] =~= prev.push(cur));
    }
    out
}

/// The two strings hold the same characters.
pub fn str_eq(a: &str, b: &str) -> (r: bool)
    ensures
        r == (a@ == b@),
{
    let sa = a.to_owned();
    let sb = b.to_owned();
    sa.eq(&sb)
}

} // verus!
