//! Character-level helpers shared by the rest of the library: the model of
//! strings as sequences of `char`, trimming, and the few std string
//! operations whose behaviour the library relies on.
use vstd::prelude::*;
use vstd::string::*;

verus! {

/// Unicode `White_Space` code points, the set that `str::trim` removes.
pub open spec fn is_unicode_whitespace(c: char) -> bool {
    let n = c as u32;
    ||| (0x09 <= n && n <= 0x0D)
    ||| n == 0x20
    ||| n == 0x85
    ||| n == 0xA0
    ||| n == 0x1680
    ||| (0x2000 <= n && n <= 0x200A)
    ||| n == 0x2028
    ||| n == 0x2029
    ||| n == 0x202F
    ||| n == 0x205F
    ||| n == 0x3000
}

/// `s` without its longest prefix of characters satisfying `p`.
pub open spec fn strip_leading(s: Seq<char>, p: spec_fn(char) -> bool) -> Seq<char>
    decreases s.len(),
{
    if s.len() > 0 && p(s[0]) {
        strip_leading(s.drop_first(), p)
    } else {
        s
    }
}

/// `s` without its longest suffix of characters satisfying `p`.
pub open spec fn strip_trailing(s: Seq<char>, p: spec_fn(char) -> bool) -> Seq<char>
    decreases s.len(),
{
    if s.len() > 0 && p(s.last()) {
        strip_trailing(s.drop_last(), p)
    } else {
        s
    }
}

/// What `str::trim` leaves of `s`.
pub open spec fn trim_whitespace(s: Seq<char>) -> Seq<char> {
    strip_trailing(strip_leading(s, |c: char| is_unicode_whitespace(c)), |c: char| is_unicode_whitespace(c))
}

/// `n` copies of `c`.
pub open spec fn repeat_char(c: char, n: nat) -> Seq<char> {
    Seq::new(n, |i: int| c)
}

/// Stripping a prefix of `p` characters from `s` is the suffix of `s` that
/// starts at the first character outside `p`.
pub proof fn lemma_strip_leading_at(s: Seq<char>, p: spec_fn(char) -> bool, i: int)
    requires
        0 <= i <= s.len(),
        forall|k: int| 0 <= k < i ==> p(#[trigger] s[k]),
        i == s.len() || !p(s[i]),
    ensures
        strip_leading(s, p) == s.subrange(i, s.len() as int),
    decreases i,
{
    if i == 0 {
        assert(s.subrange(0, s.len() as int) =~= s);
    } else {
        assert(s.drop_first().subrange(i - 1, s.drop_first().len() as int) =~= s.subrange(
            i,
            s.len() as int,
        ));
        lemma_strip_leading_at(s.drop_first(), p, i - 1);
    }
}

/// Stripping a suffix of `p` characters from `s` is the prefix of `s` that
/// ends after the last character outside `p`.
pub proof fn lemma_strip_trailing_at(s: Seq<char>, p: spec_fn(char) -> bool, j: int)
    requires
        0 <= j <= s.len(),
        forall|k: int| j <= k < s.len() ==> p(#[trigger] s[k]),
        j == 0 || !p(s[j - 1]),
    ensures
        strip_trailing(s, p) == s.subrange(0, j),
    decreases s.len() - j,
{
    if j == s.len() {
        assert(s.subrange(0, j) =~= s);
    } else {
        assert(s.drop_last().subrange(0, j) =~= s.subrange(0, j));
        lemma_strip_trailing_at(s.drop_last(), p, j);
    }
}

/// The characters `c` that `strip_leading`/`strip_trailing` drop for
/// `trim_char`.
pub open spec fn is_char(c: char, ch: char) -> bool {
    c == ch
}

/// `s` without leading and trailing `ch` (as std `str::trim_matches` with a
/// character leaves it).
pub open spec fn trim_char_spec(s: Seq<char>, ch: char) -> Seq<char> {
    strip_trailing(strip_leading(s, |c: char| is_char(c, ch)), |c: char| is_char(c, ch))
}

/// `s` without leading and trailing `ch`.
pub fn trim_char(s: &str, ch: char) -> (r: String)
    ensures
        r@ == trim_char_spec(s@, ch),
{
    let v = chars_of(s);
    let n = v.len();
    let mut start: usize = 0;
    while start < n && v[start] == ch
        invariant
            start <= n == v.len(),
            forall|k: int| 0 <= k < start ==> v@[k] == ch,
        decreases n - start,
    {
        start = start + 1;
    }
    proof {
        lemma_strip_leading_at(v@, |c: char| is_char(c, ch), start as int);
    }
    let ghost lead = v@.subrange(start as int, n as int);
    let mut end: usize = n;
    while end > start && v[end - 1] == ch
        invariant
            start <= end <= n == v.len(),
            forall|k: int| end <= k < n ==> v@[k] == ch,
        decreases end,
    {
        end = end - 1;
    }
    proof {
        assert forall|k: int| end - start <= k < lead.len() implies is_char(#[trigger] lead[k], ch) by {
            assert(lead[k] == v@[k + start]);
        }
        if end > start {
            assert(lead[end - start - 1] == v@[end - 1]);
        }
        lemma_strip_trailing_at(lead, |c: char| is_char(c, ch), end - start);
        assert(lead.subrange(0, end - start) =~= v@.subrange(start as int, end as int));
    }
    string_of_range(&v, start, end)
}

/// Appends one character (std `String::push`).
#[verifier::external_body]
pub(crate) fn push_char(s: &mut String, c: char)
    ensures
        final(s)@ == old(s)@.push(c),
{
    s.push(c);
}

/// Whether `c` is Unicode whitespace.
pub fn is_whitespace_char(c: char) -> (r: bool)
    ensures
        r == is_unicode_whitespace(c),
{
    let n = c as u32;
    (0x09 <= n && n <= 0x0D) || n == 0x20 || n == 0x85 || n == 0xA0 || n == 0x1680 || (0x2000
        <= n && n <= 0x200A) || n == 0x2028 || n == 0x2029 || n == 0x202F || n == 0x205F || n
        == 0x3000
}

/// `s` without its leading Unicode whitespace (what `str::trim_start`
/// leaves).
pub fn trim_start_whitespace(s: &str) -> (r: String)
    ensures
        r@ == strip_leading(s@, |c: char| is_unicode_whitespace(c)),
{
    let v = chars_of(s);
    let n = v.len();
    let mut start: usize = 0;
    while start < n && is_whitespace_char(v[start])
        invariant
            start <= n == v.len(),
            forall|k: int| 0 <= k < start ==> is_unicode_whitespace(#[trigger] v@[k]),
        decreases n - start,
    {
        start = start + 1;
    }
    proof {
        lemma_strip_leading_at(v@, |c: char| is_unicode_whitespace(c), start as int);
    }
    string_of_range(&v, start, n)
}

/// `s` without leading and trailing Unicode whitespace (what `str::trim`
/// leaves).
pub fn trim_whitespace_str(s: &str) -> (r: String)
    ensures
        r@ == trim_whitespace(s@),
{
    let v = chars_of(s);
    let n = v.len();
    let mut start: usize = 0;
    while start < n && is_whitespace_char(v[start])
        invariant
            start <= n == v.len(),
            forall|k: int| 0 <= k < start ==> is_unicode_whitespace(#[trigger] v@[k]),
        decreases n - start,
    {
        start = start + 1;
    }
    proof {
        lemma_strip_leading_at(v@, |c: char| is_unicode_whitespace(c), start as int);
    }
    let ghost lead = v@.subrange(start as int, n as int);
    let mut end: usize = n;
    while end > start && is_whitespace_char(v[end - 1])
        invariant
            start <= end <= n == v.len(),
            forall|k: int| end <= k < n ==> is_unicode_whitespace(#[trigger] v@[k]),
        decreases end,
    {
        end = end - 1;
    }
    proof {
        assert forall|k: int| end - start <= k < lead.len() implies is_unicode_whitespace(
            #[trigger] lead[k],
        ) by {
            assert(lead[k] == v@[k + start]);
        }
        if end > start {
            assert(lead[end - start - 1] == v@[end - 1]);
        }
        lemma_strip_trailing_at(lead, |c: char| is_unicode_whitespace(c), end - start);
        assert(lead.subrange(0, end - start) =~= v@.subrange(start as int, end as int));
    }
    string_of_range(&v, start, end)
}

/// What std `str::to_lowercase` returns for a string: Unicode lowercase
/// mapping, fixed by the string alone.
pub uninterp spec fn lowercase_of(s: Seq<char>) -> Seq<char>;

/// All characters of `s` are ASCII.
pub open spec fn is_ascii_text(s: Seq<char>) -> bool {
    forall|k: int| 0 <= k < s.len() ==> (#[trigger] s[k] as u32) < 128
}

/// `c` lower-cased as ASCII: `A` to `Z` become `a` to `z`, others stay.
pub open spec fn ascii_lower_char(c: char) -> char {
    let n = c as u32;
    if 65 <= n && n <= 90 {
        ((n + 32) as u8) as char
    } else {
        c
    }
}

/// The Unicode lowercase form of `s` (std `str::to_lowercase`). The
/// contract names the result `lowercase_of(s)`, and says only that on
/// ASCII text it is the ASCII lower-casing (Unicode maps `A` to `Z` to `a`
/// to `z` and leaves the other ASCII characters as they are); the mapping
/// of other characters is left unsaid.
#[verifier::external_body]
pub(crate) fn to_lowercase(s: &str) -> (r: String)
    ensures
        r@ == lowercase_of(s@),
        is_ascii_text(s@) ==> r@ == s@.map_values(|c: char| ascii_lower_char(c)),
{
    s.to_lowercase()
}

/// The characters of `s`, in order.
pub fn chars_of(s: &str) -> (v: Vec<char>)
    ensures
        v@ == s@,
{
    let mut v: Vec<char> = Vec::new();
    for c in it: s.chars()
        invariant
            v@ == it.seq().take(it.index() as int),
    {
        v.push(c);
    }
    v
}

/// A `String` made of the characters `v[from..to]`.
pub fn string_of_range(v: &Vec<char>, from: usize, to: usize) -> (r: String)
    requires
        from <= to <= v.len(),
    ensures
        r@ == v@.subrange(from as int, to as int),
{
    let mut r = String::new();
    let mut i = from;
    while i < to
        invariant
            from <= i <= to <= v.len(),
            r@ == v@.subrange(from as int, i as int),
        decreases to - i,
    {
        push_char(&mut r, v[i]);
        i = i + 1;
    }
    r
}

/// Appends `s` to `r`.
pub fn push_all(r: &mut String, s: &str)
    ensures
        final(r)@ == old(r)@ + s@,
{
    r.append(s);
}

/// Appends `n` copies of `c` to `r`.
pub fn push_repeat(r: &mut String, c: char, n: usize)
    ensures
        final(r)@ == old(r)@ + repeat_char(c, n as nat),
{
    let ghost start = r@;
    let mut i: usize = 0;
    while i < n
        invariant
            i <= n,
            r@ == start + repeat_char(c, i as nat),
        decreases n - i,
    {
        push_char(r, c);
        i = i + 1;
        assert(r@ =~= start + repeat_char(c, i as nat));
    }
}

/// Decimal digits of `n`, most significant first, as std formats a number.
pub open spec fn decimal_digits(n: nat) -> Seq<char>
    decreases n,
{
    if n < 10 {
        seq![((48 + n) as u8) as char]
    } else {
        decimal_digits(n / 10).push(((48 + n % 10) as u8) as char)
    }
}

/// A number's decimal form is not empty and holds only digits.
pub proof fn lemma_decimal_digits(n: nat)
    ensures
        decimal_digits(n).len() > 0,
        forall|k: int|
            0 <= k < decimal_digits(n).len() ==> 48 <= (#[trigger] decimal_digits(n)[k]) as u32 <= 57,
    decreases n,
{
    if n >= 10 {
        lemma_decimal_digits(n / 10);
        let d = decimal_digits(n / 10);
        assert forall|k: int| 0 <= k < decimal_digits(n).len() implies 48 <= (
        #[trigger] decimal_digits(n)[k]) as u32 <= 57 by {
            if k < d.len() {
                assert(decimal_digits(n)[k] == d[k]);
            }
        }
    }
}

/// Stripping a prefix twice strips nothing more.
pub proof fn lemma_strip_leading_idempotent(s: Seq<char>, p: spec_fn(char) -> bool)
    ensures
        strip_leading(strip_leading(s, p), p) == strip_leading(s, p),
    decreases s.len(),
{
    if s.len() > 0 && p(s[0]) {
        lemma_strip_leading_idempotent(s.drop_first(), p);
    }
}

/// Characters that would be stripped anyway make no difference in front.
pub proof fn lemma_strip_leading_prefix(a: Seq<char>, b: Seq<char>, p: spec_fn(char) -> bool)
    requires
        forall|k: int| 0 <= k < a.len() ==> p(#[trigger] a[k]),
    ensures
        strip_leading(a + b, p) == strip_leading(b, p),
    decreases a.len(),
{
    if a.len() > 0 {
        assert((a + b).drop_first() =~= a.drop_first() + b);
        assert forall|k: int| 0 <= k < a.drop_first().len() implies p(#[trigger] a.drop_first()[k]) by {
            assert(a.drop_first()[k] == a[k + 1]);
        }
        lemma_strip_leading_prefix(a.drop_first(), b, p);
    } else {
        assert(a + b =~= b);
    }
}

/// Appends the decimal form of `n` to `r`.
pub fn push_decimal(r: &mut String, n: u64)
    ensures
        final(r)@ == old(r)@ + decimal_digits(n as nat),
    decreases n,
{
    if n >= 10 {
        push_decimal(r, n / 10);
    }
    let d: u8 = (n % 10) as u8;
    push_char(r, (48u8 + d) as char);
}

/// Whether two string slices hold the same characters.
pub fn same_str(a: &str, b: &str) -> (r: bool)
    ensures
        r == (a@ == b@),
{
    let va = chars_of(a);
    let vb = chars_of(b);
    if va.len() != vb.len() {
        return false;
    }
    let mut i: usize = 0;
    while i < va.len()
        invariant
            i <= va.len() == vb.len(),
            va@ == a@,
            vb@ == b@,
            forall|k: int| 0 <= k < i ==> va@[k] == vb@[k],
        decreases va.len() - i,
    {
        if va[i] != vb[i] {
            assert(a@[i as int] != b@[i as int]);
            return false;
        }
        i = i + 1;
    }
    assert(va@ =~= vb@);
    true
}

/// Whether two strings hold the same characters.
pub fn same_text(a: &String, b: &String) -> (r: bool)
    ensures
        r == (a@ == b@),
{
    *a == *b
}

} // verus!
