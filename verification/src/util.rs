//! Task file names and the short indicators shown next to tasks.
use vstd::prelude::*;

use crate::task::{TASK_COSTS, TASK_PRIORITIES, TASK_TIMES};
use crate::text::{
    chars_of, is_char, lemma_strip_leading_at, lemma_strip_trailing_at, push_all, push_char,
    push_repeat, repeat_char, strip_leading, strip_trailing, trim_char, trim_char_spec, trim_whitespace_str,
    trim_whitespace,
};

verus! {

pub struct Util;

// ---------------------------------------------------------------------------
// File name encoding: the model
// ---------------------------------------------------------------------------

/// Characters that stand for themselves in a file name: ASCII letters and
/// digits, `-`, `_`, `.` and the space.
pub open spec fn is_plain_char(c: char) -> bool {
    let n = c as u32;
    ||| (48 <= n && n <= 57)
    ||| (65 <= n && n <= 90)
    ||| (97 <= n && n <= 122)
    ||| c == '-'
    ||| c == '_'
    ||| c == '.'
    ||| c == ' '
}

/// The upper-case hexadecimal digit for `d < 16`.
pub open spec fn hex_digit(d: nat) -> char {
    if d < 10 {
        ((48 + d) as u8) as char
    } else {
        ((55 + d) as u8) as char
    }
}

/// Upper-case hexadecimal form of `n`, without leading zeros.
pub open spec fn hex_upper(n: nat) -> Seq<char>
    decreases n,
{
    if n < 16 {
        seq![hex_digit(n)]
    } else {
        hex_upper(n / 16).push(hex_digit(n % 16))
    }
}

/// Upper-case hexadecimal form of `n`, at least two digits wide.
pub open spec fn hex_upper2(n: nat) -> Seq<char> {
    if n < 16 {
        seq!['0', hex_digit(n)]
    } else {
        hex_upper(n)
    }
}

/// How one character of a title is written in a file name: plain characters
/// stay, any other becomes `%` and its code point in upper-case hex.
pub open spec fn encode_char(c: char) -> Seq<char> {
    if is_plain_char(c) {
        seq![c]
    } else {
        seq!['%'] + hex_upper2((c as u32) as nat)
    }
}

/// Every character of `s` encoded, in order.
pub open spec fn encode_chars(s: Seq<char>) -> Seq<char>
    decreases s.len(),
{
    if s.len() == 0 {
        seq![]
    } else {
        encode_chars(s.drop_last()) + encode_char(s.last())
    }
}

/// The file name for a task title: the title without surrounding
/// whitespace, encoded, without leading and trailing dots, and `task` where
/// nothing is left.
pub open spec fn encode_filename_spec(title: Seq<char>) -> Seq<char> {
    let e = trim_char_spec(encode_chars(trim_whitespace(title)), '.');
    if e.len() == 0 {
        seq!['t', 'a', 's', 'k']
    } else {
        e
    }
}

/// The value of a hexadecimal digit, in either case.
pub open spec fn hex_value(c: char) -> Option<nat> {
    let n = c as u32;
    if 48 <= n && n <= 57 {
        Some((n - 48) as nat)
    } else if 97 <= n && n <= 102 {
        Some((n - 87) as nat)
    } else if 65 <= n && n <= 70 {
        Some((n - 55) as nat)
    } else {
        None
    }
}

/// The byte that the two characters after a `%` denote where both are hex
/// digits (high digit first); `None` otherwise, such a sequence being kept
/// as it is.
pub open spec fn hex_pair_value(h1: char, h2: char) -> Option<u8> {
    match (hex_value(h1), hex_value(h2)) {
        (Some(v1), Some(v2)) => Some((16 * v1 + v2) as u8),
        _ => None,
    }
}

/// A file name read back: each `%` followed by two characters that denote a
/// byte becomes the character with that code; everything else stays.
pub open spec fn decode_chars(s: Seq<char>) -> Seq<char>
    decreases s.len(),
{
    if s.len() == 0 {
        seq![]
    } else if s[0] == '%' {
        if s.len() >= 3 {
            let head = match hex_pair_value(s[1], s[2]) {
                Some(b) => seq![b as char],
                None => seq!['%', s[1], s[2]],
            };
            head + decode_chars(s.subrange(3, s.len() as int))
        } else {
            s
        }
    } else {
        seq![s[0]] + decode_chars(s.drop_first())
    }
}

// ---------------------------------------------------------------------------
// Indicators: the model
// ---------------------------------------------------------------------------

/// How many marks a priority, cost or time value gets: the position of the
/// value in its scale read backwards (`1` gets three, `3` one), and none for
/// `0` or a value outside the scale.
pub open spec fn level_in(scale: Seq<u8>, value: u8) -> nat {
    if value == 0 {
        0
    } else {
        first_index_from(scale.reverse(), value, 0)
    }
}

/// The first index `k >= i` at which `s` holds `value`, or `0` where there is
/// none.
pub open spec fn first_index_from(s: Seq<u8>, value: u8, i: nat) -> nat
    decreases s.len() - i,
{
    if i >= s.len() {
        0
    } else if s[i as int] == value {
        i
    } else {
        first_index_from(s, value, i + 1)
    }
}

/// The marks of a priority: `!` repeated by level, in brackets, padded with
/// spaces after the bracket (at most two) so that levels line up.
pub open spec fn priority_indicator(level: nat) -> Seq<char> {
    let pad: nat = if 3 - level >= 2 { 2 } else { (3 - level) as nat };
    seq!['['] + repeat_char('!', level) + seq![']'] + repeat_char(' ', pad)
}

/// Every priority that is set (`1`, `2` or `3`) gets marks of the same width,
/// five characters, so that titles line up; the higher the priority (the
/// smaller its value), the more marks: `1` gets three, `3` one.
pub proof fn lemma_priority_indicators_line_up(value: u8)
    requires
        1 <= value <= 3,
    ensures
        level_in(TASK_PRIORITIES@, value) == 4 - value,
        priority_indicator(level_in(TASK_PRIORITIES@, value)).len() == 5,
{
    let r = TASK_PRIORITIES@.reverse();
    assert(r =~= seq![0u8, 3u8, 2u8, 1u8]);
    reveal_with_fuel(first_index_from, 5);
}

// ---------------------------------------------------------------------------
// Laws of the file name encoding
// ---------------------------------------------------------------------------

proof fn lemma_encode_chars_append(a: Seq<char>, b: Seq<char>)
    ensures
        encode_chars(a + b) == encode_chars(a) + encode_chars(b),
    decreases b.len(),
{
    if b.len() == 0 {
        assert(a + b =~= a);
        assert(encode_chars(a) + encode_chars(b) =~= encode_chars(a));
    } else {
        assert((a + b).drop_last() =~= a + b.drop_last());
        assert((a + b).last() == b.last());
        lemma_encode_chars_append(a, b.drop_last());
        assert(encode_chars(a + b) =~= encode_chars(a) + encode_chars(b));
    }
}

proof fn lemma_encode_chars_front(s: Seq<char>)
    requires
        s.len() > 0,
    ensures
        encode_chars(s) == encode_char(s[0]) + encode_chars(s.drop_first()),
{
    assert(s =~= seq![s[0]] + s.drop_first());
    lemma_encode_chars_append(seq![s[0]], s.drop_first());
    let one = seq![s[0]];
    assert(one.drop_last() =~= Seq::<char>::empty());
    assert(encode_chars(one.drop_last()) == Seq::<char>::empty());
    assert(one.last() == s[0]);
    assert(encode_chars(one) == encode_chars(one.drop_last()) + encode_char(one.last()));
    assert(encode_chars(one) =~= encode_char(s[0]));
}

proof fn lemma_hex_two_digits(n: nat)
    requires
        n < 256,
    ensures
        hex_upper2(n) == seq![hex_digit(n / 16), hex_digit(n % 16)],
{
    if n >= 16 {
        assert(hex_upper(n / 16) == seq![hex_digit(n / 16)]);
        assert(hex_upper(n) =~= seq![hex_digit(n / 16), hex_digit(n % 16)]);
    }
}

proof fn lemma_hex_upper_chars(n: nat)
    ensures
        hex_upper(n).len() > 0,
        hex_upper(n).last() == hex_digit(n % 16),
        forall|k: int| 0 <= k < hex_upper(n).len() ==> is_plain_char(#[trigger] hex_upper(n)[k])
            && hex_upper(n)[k] != '.',
    decreases n,
{
    if n >= 16 {
        lemma_hex_upper_chars(n / 16);
        lemma_hex_value_of_digit(n % 16);
        assert forall|k: int| 0 <= k < hex_upper(n).len() implies is_plain_char(
            #[trigger] hex_upper(n)[k],
        ) && hex_upper(n)[k] != '.' by {
            if k < hex_upper(n / 16).len() {
                assert(hex_upper(n)[k] == hex_upper(n / 16)[k]);
            }
        }
    } else {
        lemma_hex_value_of_digit(n);
    }
}

/// Every character of an encoded character is safe in a file name, and it
/// starts or ends with a dot only where the character is a dot.
proof fn lemma_encode_char_props(c: char)
    ensures
        encode_char(c).len() > 0,
        forall|k: int| 0 <= k < encode_char(c).len() ==> is_filename_char(#[trigger] encode_char(c)[k]),
        encode_char(c)[0] == '.' ==> c == '.',
        encode_char(c).last() == '.' ==> c == '.',
{
    if !is_plain_char(c) {
        let n = (c as u32) as nat;
        lemma_hex_upper_chars(n);
        if n < 16 {
            lemma_hex_value_of_digit(n);
        }
        let e = encode_char(c);
        assert forall|k: int| 0 <= k < e.len() implies is_filename_char(#[trigger] e[k]) by {
            if k > 0 {
                assert(e[k] == hex_upper2(n)[k - 1]);
            }
        }
    }
}

proof fn lemma_encode_chars_safe(s: Seq<char>)
    ensures
        forall|k: int| 0 <= k < encode_chars(s).len() ==> is_filename_char(#[trigger] encode_chars(s)[k]),
    decreases s.len(),
{
    if s.len() > 0 {
        lemma_encode_chars_safe(s.drop_last());
        lemma_encode_char_props(s.last());
        let a = encode_chars(s.drop_last());
        let b = encode_char(s.last());
        assert forall|k: int| 0 <= k < encode_chars(s).len() implies is_filename_char(
            #[trigger] encode_chars(s)[k],
        ) by {
            if k < a.len() {
                assert(encode_chars(s)[k] == a[k]);
            } else {
                assert(encode_chars(s)[k] == b[k - a.len()]);
            }
        }
    }
}

proof fn lemma_strip_leading_props(s: Seq<char>, p: spec_fn(char) -> bool)
    ensures
        strip_leading(s, p).len() <= s.len(),
        forall|k: int| 0 <= k < strip_leading(s, p).len() ==> #[trigger] strip_leading(s, p)[k]
            == s[k + s.len() - strip_leading(s, p).len()],
        strip_leading(s, p).len() == 0 || !p(strip_leading(s, p)[0]),
    decreases s.len(),
{
    if s.len() > 0 && p(s[0]) {
        lemma_strip_leading_props(s.drop_first(), p);
    }
}

proof fn lemma_strip_trailing_props(s: Seq<char>, p: spec_fn(char) -> bool)
    ensures
        strip_trailing(s, p).len() <= s.len(),
        forall|k: int| 0 <= k < strip_trailing(s, p).len() ==> #[trigger] strip_trailing(s, p)[k]
            == s[k],
        strip_trailing(s, p).len() == 0 || !p(strip_trailing(s, p).last()),
    decreases s.len(),
{
    if s.len() > 0 && p(s.last()) {
        lemma_strip_trailing_props(s.drop_last(), p);
    }
}

/// Characters that may appear in a file name the library makes: plain
/// characters and the `%` that starts an escape.
pub open spec fn is_filename_char(c: char) -> bool {
    is_plain_char(c) || c == '%'
}

/// A file name made from any title is never empty, neither starts nor ends
/// with a dot, and holds only ASCII letters, digits, `-`, `_`, `.`, spaces
/// and `%`: none of the characters that file systems refuse.
pub proof fn lemma_encoded_filename_is_safe(title: Seq<char>)
    ensures
        encode_filename_spec(title).len() > 0,
        encode_filename_spec(title)[0] != '.',
        encode_filename_spec(title).last() != '.',
        forall|k: int| 0 <= k < encode_filename_spec(title).len() ==> is_filename_char(
            #[trigger] encode_filename_spec(title)[k],
        ),
{
    let e = encode_chars(trim_whitespace(title));
    let dot = |c: char| is_char(c, '.');
    let lead = strip_leading(e, dot);
    let r = strip_trailing(lead, dot);
    lemma_encode_chars_safe(trim_whitespace(title));
    lemma_strip_leading_props(e, dot);
    lemma_strip_trailing_props(lead, dot);
    if r.len() > 0 {
        assert(r[0] == lead[0]);
        assert forall|k: int| 0 <= k < r.len() implies is_filename_char(#[trigger] r[k]) by {
            assert(r[k] == lead[k]);
            assert(lead[k] == e[k + e.len() - lead.len()]);
        }
    }
}

proof fn lemma_strip_leading_dot_encoded(t: Seq<char>, p: spec_fn(char) -> bool)
    requires
        forall|c: char| #[trigger] p(c) == (c == '.'),
    ensures
        strip_leading(encode_chars(t), p) == encode_chars(strip_leading(t, p)),
    decreases t.len(),
{
    if t.len() > 0 {
        lemma_encode_chars_front(t);
        lemma_encode_char_props(t[0]);
        let e = encode_chars(t);
        let rest = encode_chars(t.drop_first());
        if t[0] == '.' {
            assert(encode_char(t[0]) =~= seq!['.']);
            assert(e[0] == '.');
            assert(e.drop_first() =~= rest);
            lemma_strip_leading_dot_encoded(t.drop_first(), p);
        } else {
            assert(e[0] == encode_char(t[0])[0]);
        }
    }
}

proof fn lemma_strip_trailing_dot_encoded(t: Seq<char>, p: spec_fn(char) -> bool)
    requires
        forall|c: char| #[trigger] p(c) == (c == '.'),
    ensures
        strip_trailing(encode_chars(t), p) == encode_chars(strip_trailing(t, p)),
    decreases t.len(),
{
    if t.len() > 0 {
        lemma_encode_char_props(t.last());
        let e = encode_chars(t);
        let front = encode_chars(t.drop_last());
        let b = encode_char(t.last());
        if t.last() == '.' {
            assert(b =~= seq!['.']);
            assert(e.last() == '.');
            assert(e.drop_last() =~= front);
            lemma_strip_trailing_dot_encoded(t.drop_last(), p);
        } else {
            assert(e.last() == b.last());
        }
    }
}

/// Dropping the leading and trailing dots of an encoded title gives the same
/// as encoding the title without its leading and trailing dots: a dot is
/// written as itself, and no other character's code starts or ends with
/// one.
pub proof fn lemma_dot_trimming_commutes_with_encoding(t: Seq<char>)
    ensures
        trim_char_spec(encode_chars(t), '.') == encode_chars(trim_char_spec(t, '.')),
{
    let dot = |c: char| is_char(c, '.');
    lemma_strip_leading_dot_encoded(t, dot);
    lemma_strip_trailing_dot_encoded(strip_leading(t, dot), dot);
}

/// An upper-case hexadecimal digit.
pub open spec fn is_upper_hex_digit(c: char) -> bool {
    let n = c as u32;
    (48 <= n && n <= 57) || (65 <= n && n <= 70)
}

/// Every `%` of `s` is followed by two upper-case hexadecimal digits.
pub open spec fn escapes_are_hex(s: Seq<char>) -> bool {
    forall|k: int|
        0 <= k < s.len() && #[trigger] s[k] == '%' ==> k + 2 < s.len() && is_upper_hex_digit(
            s[k + 1],
        ) && is_upper_hex_digit(s[k + 2])
}

proof fn lemma_hex_upper_digits(n: nat)
    ensures
        hex_upper(n).len() >= 1,
        n >= 16 ==> hex_upper(n).len() >= 2,
        forall|k: int| 0 <= k < hex_upper(n).len() ==> is_upper_hex_digit(#[trigger] hex_upper(n)[k]),
    decreases n,
{
    if n >= 16 {
        lemma_hex_upper_digits(n / 16);
        assert forall|k: int| 0 <= k < hex_upper(n).len() implies is_upper_hex_digit(
            #[trigger] hex_upper(n)[k],
        ) by {
            if k < hex_upper(n / 16).len() {
                assert(hex_upper(n)[k] == hex_upper(n / 16)[k]);
            }
        }
    }
}

proof fn lemma_encode_chars_escapes(s: Seq<char>)
    ensures
        escapes_are_hex(encode_chars(s)),
    decreases s.len(),
{
    if s.len() > 0 {
        lemma_encode_chars_escapes(s.drop_last());
        let a = encode_chars(s.drop_last());
        let c = s.last();
        let b = encode_char(c);
        let e = encode_chars(s);
        assert(e == a + b);
        let n = (c as u32) as nat;
        lemma_hex_upper_digits(n);
        let h = hex_upper2(n);
        assert(h.len() >= 2);
        assert forall|k: int| 0 <= k < h.len() implies is_upper_hex_digit(#[trigger] h[k]) by {
            if n < 16 {
                assert(hex_upper(n)[0] == hex_digit(n));
            }
        }
        assert forall|k: int|
            0 <= k < e.len() && #[trigger] e[k] == '%' implies k + 2 < e.len() && is_upper_hex_digit(
            e[k + 1],
        ) && is_upper_hex_digit(e[k + 2]) by {
            if k < a.len() {
                assert(a[k] == '%');
                assert(e[k + 1] == a[k + 1]);
                assert(e[k + 2] == a[k + 2]);
            } else {
                let j = k - a.len();
                assert(b[j] == '%');
                if is_plain_char(c) {
                    assert(b[j] == c);
                } else {
                    if j > 0 {
                        assert(b[j] == h[j - 1]);
                    }
                    assert(j == 0);
                    assert(e[k + 1] == h[0]);
                    assert(e[k + 2] == h[1]);
                }
            }
        }
    }
}

/// In a file name made from any title, every `%` starts an escape of two
/// upper-case hexadecimal digits (or more, for characters from U+0100 up).
pub proof fn lemma_escapes_are_two_hex_digits(title: Seq<char>)
    ensures
        escapes_are_hex(encode_filename_spec(title)),
{
    let w = trim_whitespace(title);
    lemma_dot_trimming_commutes_with_encoding(w);
    lemma_encode_chars_escapes(trim_char_spec(w, '.'));
    let e = encode_filename_spec(title);
    if trim_char_spec(encode_chars(w), '.').len() == 0 {
        assert(e =~= seq!['t', 'a', 's', 'k']);
        assert forall|k: int| 0 <= k < e.len() implies #[trigger] e[k] != '%' by {}
    }
}

proof fn lemma_decode_encode_chars(t: Seq<char>)
    requires
        forall|k: int| 0 <= k < t.len() ==> (#[trigger] t[k] as u32) < 256,
    ensures
        decode_chars(encode_chars(t)) == t,
    decreases t.len(),
{
    if t.len() > 0 {
        let c = t[0];
        let rest = t.drop_first();
        lemma_encode_chars_front(t);
        assert forall|k: int| 0 <= k < rest.len() implies (#[trigger] rest[k] as u32) < 256 by {
            assert(rest[k] == t[k + 1]);
        }
        lemma_decode_encode_chars(rest);
        let er = encode_chars(rest);
        assert(t =~= seq![c] + rest);
        if is_plain_char(c) {
            let s = seq![c] + er;
            assert(s[0] == c);
            assert(s.drop_first() =~= er);
        } else {
            let n = (c as u32) as nat;
            assert(n < 256);
            lemma_hex_two_digits(n);
            lemma_hex_value_of_digit(n / 16);
            lemma_hex_value_of_digit(n % 16);
            let d1 = hex_digit(n / 16);
            let d2 = hex_digit(n % 16);
            let s = seq!['%', d1, d2] + er;
            assert(encode_char(c) =~= seq!['%', d1, d2]);
            assert(s[0] == '%' && s[1] == d1 && s[2] == d2);
            assert(s.subrange(3, s.len() as int) =~= er);
            let b = (16 * (n / 16) + n % 16) as u8;
            assert(hex_pair_value(d1, d2) == Some(b));
            assert(b as u32 == c as u32);
            vstd::utf8::char_u32_cast(c, b as u32);
            assert((b as char) == c);
            assert(decode_chars(s) =~= seq![c] + rest);
        }
    }
}

/// Reading back the file name of a title gives the title without its
/// surrounding whitespace, provided what is left is not empty, neither
/// starts nor ends with a dot (those dots are dropped), and holds only
/// characters below U+0100 (an escape carries two hex digits).
pub proof fn lemma_decode_inverts_encode(title: Seq<char>)
    requires
        trim_whitespace(title).len() > 0,
        trim_whitespace(title)[0] != '.',
        trim_whitespace(title).last() != '.',
        forall|k: int| 0 <= k < trim_whitespace(title).len() ==> (#[trigger] trim_whitespace(
            title,
        )[k] as u32) < 256,
    ensures
        decode_chars(encode_filename_spec(title)) == trim_whitespace(title),
{
    let t = trim_whitespace(title);
    let e = encode_chars(t);
    let dot = |c: char| is_char(c, '.');
    lemma_encode_chars_front(t);
    lemma_encode_char_props(t[0]);
    lemma_encode_char_props(t.last());
    assert(e[0] == encode_char(t[0])[0]);
    assert(t.drop_last() + seq![t.last()] =~= t);
    assert(e == encode_chars(t.drop_last()) + encode_char(t.last()));
    assert(e.last() == encode_char(t.last()).last());
    lemma_strip_leading_at(e, dot, 0);
    assert(e.subrange(0, e.len() as int) =~= e);
    lemma_strip_trailing_at(e, dot, e.len() as int);
    lemma_decode_encode_chars(t);
}

// ---------------------------------------------------------------------------
// Executable functions
// ---------------------------------------------------------------------------

fn hex_digit_char(d: u32) -> (c: char)
    requires
        d < 16,
    ensures
        c == hex_digit(d as nat),
{
    if d < 10 {
        ((48 + d) as u8) as char
    } else {
        ((55 + d) as u8) as char
    }
}

fn push_hex_upper(r: &mut String, n: u32)
    ensures
        final(r)@ == old(r)@ + hex_upper(n as nat),
    decreases n,
{
    if n >= 16 {
        push_hex_upper(r, n / 16);
    }
    push_char(r, hex_digit_char(n % 16));
}

fn is_plain(c: char) -> (b: bool)
    ensures
        b == is_plain_char(c),
{
    ('0' <= c && c <= '9') || ('A' <= c && c <= 'Z') || ('a' <= c && c <= 'z') || c == '-' || c
        == '_' || c == '.' || c == ' '
}

fn push_encoded_char(r: &mut String, c: char)
    ensures
        final(r)@ == old(r)@ + encode_char(c),
{
    let ghost start = r@;
    if c == ' ' {
        push_char(r, ' ');
    } else if c == '%' {
        push_all(r, "%25");
        proof { reveal_strlit("%25"); }
    } else if c == '/' {
        push_all(r, "%2F");
        proof { reveal_strlit("%2F"); }
    } else if c == '\\' {
        push_all(r, "%5C");
        proof { reveal_strlit("%5C"); }
    } else if c == '<' {
        push_all(r, "%3C");
        proof { reveal_strlit("%3C"); }
    } else if c == '>' {
        push_all(r, "%3E");
        proof { reveal_strlit("%3E"); }
    } else if c == ':' {
        push_all(r, "%3A");
        proof { reveal_strlit("%3A"); }
    } else if c == '"' {
        push_all(r, "%22");
        proof { reveal_strlit("%22"); }
    } else if c == '|' {
        push_all(r, "%7C");
        proof { reveal_strlit("%7C"); }
    } else if c == '?' {
        push_all(r, "%3F");
        proof { reveal_strlit("%3F"); }
    } else if c == '*' {
        push_all(r, "%2A");
        proof { reveal_strlit("%2A"); }
    } else if is_plain(c) {
        push_char(r, c);
    } else {
        push_char(r, '%');
        let n = c as u32;
        if n < 16 {
            push_char(r, '0');
        }
        push_hex_upper(r, n);
    }
    proof {
        let n = c as u32;
        if n >= 16 && !is_plain_char(c) && c != ' ' && c != '%' && c != '/' && c != '\\' && c
            != '<' && c != '>' && c != ':' && c != '"' && c != '|' && c != '?' && c != '*' {
        } else if n < 16 {
            assert(hex_upper(n as nat) == seq![hex_digit(n as nat)]);
        } else {
            assert(hex_upper((n / 16) as nat) == seq![hex_digit((n / 16) as nat)]);
        }
    }
    assert(r@ =~= start + encode_char(c));
}

proof fn lemma_hex_value_of_digit(d: nat)
    requires
        d < 16,
    ensures
        hex_value(hex_digit(d)) == Some(d),
        hex_digit(d) != '.',
        is_plain_char(hex_digit(d)),
{
}

fn hex_value_of(c: char) -> (r: Option<u32>)
    ensures
        match hex_value(c) {
            Some(v) => r == Some(v as u32),
            None => r is None,
        },
{
    let n = c as u32;
    if 48 <= n && n <= 57 {
        Some(n - 48)
    } else if 97 <= n && n <= 102 {
        Some(n - 87)
    } else if 65 <= n && n <= 70 {
        Some(n - 55)
    } else {
        None
    }
}

fn hex_pair(h1: char, h2: char) -> (r: Option<u8>)
    ensures
        r == hex_pair_value(h1, h2),
{
    match (hex_value_of(h1), hex_value_of(h2)) {
        (Some(v1), Some(v2)) => Some((16 * v1 + v2) as u8),
        _ => None,
    }
}

/// Reversed position of `value` in `scale`, or `0` (the indicator level).
fn level_of(scale: &[u8; 4], value: u8) -> (level: usize)
    ensures
        level == level_in(scale@, value),
        level < 4,
{
    if value == 0 {
        return 0;
    }
    let ghost rev = scale@.reverse();
    let mut i: usize = 0;
    while i < 4
        invariant
            i <= 4,
            value != 0,
            rev == scale@.reverse(),
            rev.len() == 4,
            first_index_from(rev, value, 0) == first_index_from(rev, value, i as nat),
        decreases 4 - i,
    {
        assert(rev[i as int] == scale@[3 - i]);
        if scale[3 - i] == value {
            assert(first_index_from(rev, value, i as nat) == i);
            return i;
        }
        i = i + 1;
    }
    0
}

impl Util {
    /// The title with one space on each side.
    pub fn get_spaced_title(title: &str) -> (r: String)
        ensures
            r@ == seq![' '] + title@ + seq![' '],
    {
        let mut r = String::new();
        push_char(&mut r, ' ');
        push_all(&mut r, title);
        push_char(&mut r, ' ');
        assert(r@ =~= seq![' '] + title@ + seq![' ']);
        r
    }

    /// The file name under which a task with this title is stored.
    pub fn encode_filename(title: &str) -> (r: String)
        ensures
            r@ == encode_filename_spec(title@),
    {
        let trimmed = trim_whitespace_str(title);
        let tv = chars_of(trimmed.as_str());
        let mut encoded = String::new();
        let mut i: usize = 0;
        while i < tv.len()
            invariant
                i <= tv.len(),
                encoded@ == encode_chars(tv@.take(i as int)),
            decreases tv.len() - i,
        {
            proof {
                assert(tv@.take(i + 1).drop_last() =~= tv@.take(i as int));
            }
            push_encoded_char(&mut encoded, tv[i]);
            i = i + 1;
        }
        proof {
            assert(tv@.take(tv.len() as int) =~= tv@);
        }
        let trimmed_dots = trim_char(encoded.as_str(), '.');
        if trimmed_dots.as_str().is_empty() {
            let r = String::from_str("task");
            proof { reveal_strlit("task"); }
            r
        } else {
            trimmed_dots
        }
    }

    /// The task title that a file name stands for.
    pub fn decode_filename(filename: &str) -> (r: String)
        ensures
            r@ == decode_chars(filename@),
    {
        let v = chars_of(filename);
        let n = v.len();
        let mut result = String::new();
        let mut i: usize = 0;
        assert(v@.subrange(0, n as int) =~= v@);
        while i < n
            invariant
                i <= n == v.len(),
                decode_chars(v@) == result@ + decode_chars(v@.subrange(i as int, n as int)),
            decreases n - i,
        {
            let ghost rest = v@.subrange(i as int, n as int);
            let c = v[i];
            if c == '%' {
                if n - i > 2 {
                    let h1 = v[i + 1];
                    let h2 = v[i + 2];
                    let ghost before = result@;
                    match hex_pair(h1, h2) {
                        Some(b) => push_char(&mut result, b as char),
                        None => {
                            push_char(&mut result, '%');
                            push_char(&mut result, h1);
                            push_char(&mut result, h2);
                        },
                    }
                    proof {
                        assert(rest.subrange(3, rest.len() as int) =~= v@.subrange(
                            i + 3,
                            n as int,
                        ));
                        assert(rest[1] == h1 && rest[2] == h2);
                        let head = match hex_pair_value(h1, h2) {
                            Some(b) => seq![b as char],
                            None => seq!['%', h1, h2],
                        };
                        assert(result@ =~= before + head);
                    }
                    i = i + 3;
                } else {
                    let ghost before = result@;
                    push_char(&mut result, '%');
                    if n - i > 1 {
                        push_char(&mut result, v[i + 1]);
                    }
                    proof {
                        assert(result@ =~= before + rest);
                        assert(v@.subrange(n as int, n as int) =~= Seq::<char>::empty());
                    }
                    i = n;
                }
            } else {
                push_char(&mut result, c);
                proof {
                    assert(rest.drop_first() =~= v@.subrange(i + 1, n as int));
                }
                i = i + 1;
            }
        }
        proof {
            assert(v@.subrange(n as int, n as int) =~= Seq::<char>::empty());
        }
        result
    }

    /// Priority marks: `[!!!]` for priority 1, `[!!] ` for 2, `[!]  ` for 3,
    /// `[]  ` for 0 or any other value.
    pub fn get_priority_indicator(value: u8) -> (r: String)
        ensures
            r@ == priority_indicator(level_in(TASK_PRIORITIES@, value)),
    {
        let level = level_of(&TASK_PRIORITIES, value);
        let mut r = String::new();
        push_char(&mut r, '[');
        push_repeat(&mut r, '!', level);
        push_char(&mut r, ']');
        let pad: usize = if 3 - level >= 2 {
            2
        } else {
            3 - level
        };
        push_repeat(&mut r, ' ', pad);
        assert(r@ =~= priority_indicator(level as nat));
        r
    }

    /// Cost marks: `$` repeated by the cost's level.
    pub fn get_cost_indicator(value: u8) -> (r: String)
        ensures
            r@ == repeat_char('$', level_in(TASK_COSTS@, value)),
    {
        let level = level_of(&TASK_COSTS, value);
        let mut r = String::new();
        push_repeat(&mut r, '$', level);
        assert(r@ =~= repeat_char('$', level as nat));
        r
    }

    /// Time marks: `⏲` repeated by the time's level.
    pub fn get_time_indicator(value: u8) -> (r: String)
        ensures
            r@ == repeat_char('⏲', level_in(TASK_TIMES@, value)),
    {
        let level = level_of(&TASK_TIMES, value);
        let mut r = String::new();
        push_repeat(&mut r, '⏲', level);
        assert(r@ =~= repeat_char('⏲', level as nat));
        r
    }
}

} // verus!
