//! Reading the working tree's changes from `git status --porcelain`.
use vstd::prelude::*;
use vstd::utf8::{encode_utf8, decode_utf8, is_char_boundary};

use crate::text::{chars_of, push_char, string_of_range, trim_char, trim_char_spec};

verus! {

pub struct Git;

/// The first index at `i` or later that holds a newline.
pub open spec fn newline_from(s: Seq<char>, i: int) -> Option<int>
    decreases s.len() - i,
{
    if i < 0 || i >= s.len() {
        None
    } else if s[i] == '\n' {
        Some(i)
    } else {
        newline_from(s, i + 1)
    }
}

/// A line ended by a newline, without a carriage return before it.
pub open spec fn without_cr(l: Seq<char>) -> Seq<char> {
    if l.len() > 0 && l.last() == '\r' {
        l.drop_last()
    } else {
        l
    }
}

/// The UTF-8 length of `l` in bytes.
pub open spec fn byte_len(l: Seq<char>) -> nat {
    encode_utf8(l).len()
}

/// What follows the first three bytes of `l`.
pub open spec fn after_three_bytes(l: Seq<char>) -> Seq<char> {
    decode_utf8(encode_utf8(l).subrange(3, byte_len(l) as int))
}

/// The path a status line names: after the two status letters and the
/// space (three bytes), without surrounding quotes; a line of three bytes
/// or fewer stays as it is.
pub open spec fn status_entry(l: Seq<char>) -> Seq<char> {
    if byte_len(l) > 3 {
        trim_char_spec(after_three_bytes(l), '"')
    } else {
        l
    }
}

/// The entries of the non-empty lines of `s`, in order (lines end at `\n`
/// or `\r\n`; the last one needs no ending).
pub open spec fn status_entries(s: Seq<char>) -> Seq<Seq<char>>
    decreases s.len(),
{
    if s.len() == 0 {
        seq![]
    } else {
        match newline_from(s, 0) {
            Some(k) => {
                proof {
                    lemma_newline_from_bounds(s, 0);
                }
                let l = without_cr(s.subrange(0, k));
                let rest = status_entries(s.subrange(k + 1, s.len() as int));
                if l.len() == 0 {
                    rest
                } else {
                    seq![status_entry(l)] + rest
                }
            },
            None => seq![status_entry(s)],
        }
    }
}

/// A non-empty line of more than three bytes has a character boundary after
/// its third byte (where that does not hold the line cannot be cut there).
pub open spec fn line_cuttable(l: Seq<char>) -> bool {
    l.len() > 0 && byte_len(l) > 3 ==> is_char_boundary(encode_utf8(l), 3)
}

/// Every line of `s` can be cut after its third byte.
pub open spec fn status_lines_cuttable(s: Seq<char>) -> bool
    decreases s.len(),
{
    if s.len() == 0 {
        true
    } else {
        match newline_from(s, 0) {
            Some(k) => {
                proof {
                    lemma_newline_from_bounds(s, 0);
                }
                line_cuttable(without_cr(s.subrange(0, k))) && status_lines_cuttable(
                    s.subrange(k + 1, s.len() as int),
                )
            },
            None => line_cuttable(s),
        }
    }
}

pub proof fn lemma_newline_from_bounds(s: Seq<char>, i: int)
    requires
        0 <= i,
    ensures
        match newline_from(s, i) {
            Some(k) => i <= k < s.len() && s[k] == '\n' && forall|j: int|
                i <= j < k ==> s[j] != '\n',
            None => forall|j: int| i <= j < s.len() ==> s[j] != '\n',
        },
    decreases s.len() - i,
{
    if i < s.len() && s[i] != '\n' {
        lemma_newline_from_bounds(s, i + 1);
    }
}

fn entry_of_line(l: String) -> (r: String)
    requires
        line_cuttable(l@),
        l@.len() > 0,
    ensures
        r@ == status_entry(l@),
{
    let ls = l.as_str();
    let bytes = ls.as_bytes();
    if bytes.len() > 3 {
        let (_, rest) = ls.split_at(3);
        proof {
            vstd::utf8::encode_utf8_decode_utf8(rest@);
            assert(encode_utf8(rest@) == encode_utf8(l@).subrange(3, byte_len(l@) as int));
        }
        trim_char(rest, '"')
    } else {
        l
    }
}

impl Git {
    /// The paths that `git status --porcelain` output names, one per
    /// non-empty line.
    pub fn get_modified_files(output: &str) -> (r: Vec<String>)
        requires
            status_lines_cuttable(output@),
        ensures
            r@.map_values(|e: String| e@) == status_entries(output@),
    {
        let v = chars_of(output);
        let n = v.len();
        let mut r: Vec<String> = Vec::new();
        let mut i: usize = 0;
        assert(v@.subrange(0, n as int) =~= v@);
        while i < n
            invariant
                i <= n == v.len(),
                status_lines_cuttable(v@.subrange(i as int, n as int)),
                status_entries(v@) == r@.map_values(|e: String| e@) + status_entries(
                    v@.subrange(i as int, n as int),
                ),
            decreases n - i,
        {
            let ghost s = v@.subrange(i as int, n as int);
            proof {
                lemma_newline_from_bounds(s, 0);
            }
            let mut j: usize = i;
            while j < n && v[j] != '\n'
                invariant
                    i <= j <= n == v.len(),
                    s == v@.subrange(i as int, n as int),
                    forall|k: int| i <= k < j ==> v@[k] != '\n',
                decreases n - j,
            {
                j = j + 1;
            }
            let mut end = j;
            if j < n && end > i && v[end - 1] == '\r' {
                end = end - 1;
            }
            let line = string_of_range(&v, i, end);
            let ghost before = r@.map_values(|e: String| e@);
            proof {
                if j < n {
                    assert(s[(j - i) as int] == '\n');
                    assert(newline_from(s, 0) == Some((j - i) as int));
                    assert(s.subrange(0, j - i) =~= v@.subrange(i as int, j as int));
                    assert(line@ == without_cr(s.subrange(0, j - i)));
                    assert(s.subrange(j - i + 1, s.len() as int) =~= v@.subrange(j + 1, n as int));
                } else {
                    assert(newline_from(s, 0) is None);
                    assert(line@ =~= s);
                }
            }
            if line.as_str().is_empty() {
            } else {
                let e = entry_of_line(line);
                r.push(e);
                proof {
                    assert(r@.map_values(|e: String| e@) =~= before.push(e@));
                }
            }
            proof {
                let rest = if j < n { v@.subrange(j + 1, n as int) } else { Seq::<char>::empty() };
                if j >= n {
                    assert(v@.subrange(n as int, n as int) =~= Seq::<char>::empty());
                }
                assert(r@.map_values(|e: String| e@) + status_entries(rest) =~= before
                    + status_entries(s));
            }
            i = if j < n { j + 1 } else { n };
        }
        proof {
            assert(v@.subrange(n as int, n as int) =~= Seq::<char>::empty());
            assert(r@.map_values(|e: String| e@) =~= r@.map_values(|e: String| e@) + Seq::<Seq<char>>::empty());
        }
        r
    }

    /// Whether there is anything to commit: some path is listed.
    pub fn has_changes(modified_files: &Vec<String>) -> (r: bool)
        ensures
            r == (modified_files.len() > 0),
    {
        modified_files.len() != 0
    }
}

} // verus!
