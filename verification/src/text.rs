//! Character-level text primitives: whitespace trimming, line splitting,
//! whitespace tokenization, and stripping of list punctuation from token
//! edges.
//!
//! Whitespace is the Unicode white-space class (the characters that
//! `char::is_whitespace` accepts, written out below); list punctuation is
//! the four characters `[`, `]`, `,`, `"`, stripped from both ends of a
//! token.

use vstd::prelude::*;

verus! {

/// Characters treated as whitespace when trimming and splitting tag
/// lines: the Unicode white-space class, written out code point by code
/// point.
pub open spec fn is_space_char(c: char) -> bool {
    (0x09 <= c as u32 && c as u32 <= 0x0D) || c == ' ' || c == '\u{0085}' || c == '\u{00A0}'
        || c == '\u{1680}' || (0x2000 <= c as u32 && c as u32 <= 0x200A) || c == '\u{2028}'
        || c == '\u{2029}' || c == '\u{202F}' || c == '\u{205F}' || c == '\u{3000}'
}

/// Executable counterpart of [`is_space_char`].
pub fn is_space(c: char) -> (r: bool)
    ensures
        r == is_space_char(c),
{
    let n = c as u32;
    (0x09 <= n && n <= 0x0D) || c == ' ' || c == '\u{0085}' || c == '\u{00A0}' || c == '\u{1680}'
        || (0x2000 <= n && n <= 0x200A) || c == '\u{2028}' || c == '\u{2029}' || c == '\u{202F}'
        || c == '\u{205F}' || c == '\u{3000}'
}

/// List punctuation stripped from both edges of a tag token.
pub open spec fn is_edge_char(c: char) -> bool {
    c == '[' || c == ']' || c == ',' || c == '"'
}

/// Executable counterpart of [`is_edge_char`].
pub fn is_edge(c: char) -> (r: bool)
    ensures
        r == is_edge_char(c),
{
    c == '[' || c == ']' || c == ',' || c == '"'
}

/// `s` with every leading whitespace character removed.
pub open spec fn trim_start_spec(s: Seq<char>) -> Seq<char>
    decreases s.len(),
{
    if s.len() > 0 && is_space_char(s[0]) {
        trim_start_spec(s.drop_first())
    } else {
        s
    }
}

/// `s` with every trailing whitespace character removed.
pub open spec fn trim_end_spec(s: Seq<char>) -> Seq<char>
    decreases s.len(),
{
    if s.len() > 0 && is_space_char(s.last()) {
        trim_end_spec(s.drop_last())
    } else {
        s
    }
}

/// `s` with whitespace removed from both ends.
pub open spec fn trim_spec(s: Seq<char>) -> Seq<char> {
    trim_end_spec(trim_start_spec(s))
}

/// Removes leading whitespace from a string slice.
pub fn trim_start(s: &str) -> (r: &str)
    ensures
        r@ == trim_start_spec(s@),
    decreases s@.len(),
{
    let n = s.unicode_len();
    if n > 0 && is_space(s.get_char(0)) {
        proof {
            assert(s@.subrange(1, n as int) =~= s@.drop_first());
        }
        trim_start(s.substring_char(1, n))
    } else {
        s
    }
}

/// Removes trailing whitespace from a string slice.
pub fn trim_end(s: &str) -> (r: &str)
    ensures
        r@ == trim_end_spec(s@),
    decreases s@.len(),
{
    let n = s.unicode_len();
    if n > 0 && is_space(s.get_char(n - 1)) {
        proof {
            assert(s@.subrange(0, n - 1) =~= s@.drop_last());
        }
        trim_end(s.substring_char(0, n - 1))
    } else {
        s
    }
}

/// Removes whitespace from both ends of a string slice.
pub fn trim(s: &str) -> (r: &str)
    ensures
        r@ == trim_spec(s@),
{
    trim_end(trim_start(s))
}

/// `s` with every leading list-punctuation character removed.
pub open spec fn strip_edge_start_spec(s: Seq<char>) -> Seq<char>
    decreases s.len(),
{
    if s.len() > 0 && is_edge_char(s[0]) {
        strip_edge_start_spec(s.drop_first())
    } else {
        s
    }
}

/// `s` with every trailing list-punctuation character removed.
pub open spec fn strip_edge_end_spec(s: Seq<char>) -> Seq<char>
    decreases s.len(),
{
    if s.len() > 0 && is_edge_char(s.last()) {
        strip_edge_end_spec(s.drop_last())
    } else {
        s
    }
}

/// `s` with list punctuation removed from both ends, however the kinds of
/// punctuation are mixed there.
pub open spec fn strip_edges_spec(s: Seq<char>) -> Seq<char> {
    strip_edge_end_spec(strip_edge_start_spec(s))
}

/// Removes leading list punctuation from a string slice.
pub fn strip_edge_start(s: &str) -> (r: &str)
    ensures
        r@ == strip_edge_start_spec(s@),
    decreases s@.len(),
{
    let n = s.unicode_len();
    if n > 0 && is_edge(s.get_char(0)) {
        proof {
            assert(s@.subrange(1, n as int) =~= s@.drop_first());
        }
        strip_edge_start(s.substring_char(1, n))
    } else {
        s
    }
}

/// Removes trailing list punctuation from a string slice.
pub fn strip_edge_end(s: &str) -> (r: &str)
    ensures
        r@ == strip_edge_end_spec(s@),
    decreases s@.len(),
{
    let n = s.unicode_len();
    if n > 0 && is_edge(s.get_char(n - 1)) {
        proof {
            assert(s@.subrange(0, n - 1) =~= s@.drop_last());
        }
        strip_edge_end(s.substring_char(0, n - 1))
    } else {
        s
    }
}

/// Removes list punctuation from both ends of a string slice.
pub fn strip_edges(s: &str) -> (r: &str)
    ensures
        r@ == strip_edges_spec(s@),
{
    strip_edge_end(strip_edge_start(s))
}

/// The lines of `s`, split at every `'\n'`. The result always holds at least
/// one line; an empty text is the single empty line, and a trailing newline
/// produces a final empty line.
pub open spec fn split_lines_spec(s: Seq<char>) -> Seq<Seq<char>>
    decreases s.len(),
{
    if s.len() == 0 {
        seq![Seq::<char>::empty()]
    } else {
        let prefix = split_lines_spec(s.drop_last());
        if s.last() == '\n' {
            prefix.push(Seq::<char>::empty())
        } else {
            prefix.drop_last().push(prefix.last().push(s.last()))
        }
    }
}

/// Splits a string into its lines at every `'\n'`.
pub fn split_lines(s: &str) -> (r: Vec<String>)
    ensures
        r.deep_view() == split_lines_spec(s@),
{
    let n = s.unicode_len();
    let mut r: Vec<String> = Vec::new();
    let mut start: usize = 0;
    let mut i: usize = 0;
    proof {
        assert(s@.subrange(0, 0) =~= Seq::<char>::empty());
        assert(r.deep_view() =~= Seq::<Seq<char>>::empty());
    }
    while i < n
        invariant
            n == s@.len(),
            i <= n,
            start <= i,
            split_lines_spec(s@.subrange(0, i as int)) == r.deep_view() + seq![
                s@.subrange(start as int, i as int),
            ],
        decreases n - i,
    {
        let ghost p = s@.subrange(0, i as int);
        let ghost p1 = s@.subrange(0, i + 1);
        proof {
            assert(p1.drop_last() =~= p);
            assert(p1.last() == s@[i as int]);
        }
        if s.get_char(i) == '\n' {
            let ghost prev = r.deep_view();
            let line = String::from_str(s.substring_char(start, i));
            r.push(line);
            proof {
                assert(r.deep_view() =~= prev.push(line@));
                assert(split_lines_spec(p1) == split_lines_spec(p).push(
                    Seq::<char>::empty(),
                ));
                assert(s@.subrange(i + 1, i + 1) =~= Seq::<char>::empty());
                assert(split_lines_spec(p1) =~= r.deep_view() + seq![
                    s@.subrange(i + 1, i + 1),
                ]);
            }
            start = i + 1;
        } else {
            proof {
                let prefix = split_lines_spec(p);
                assert(prefix.drop_last() =~= r.deep_view());
                assert(prefix.last() == s@.subrange(start as int, i as int));
                assert(prefix.last().push(s@[i as int]) =~= s@.subrange(
                    start as int,
                    i + 1,
                ));
                assert(split_lines_spec(p1) =~= r.deep_view() + seq![
                    s@.subrange(start as int, i + 1),
                ]);
            }
        }
        i = i + 1;
    }
    let ghost prev = r.deep_view();
    let line = String::from_str(s.substring_char(start, n));
    r.push(line);
    proof {
        assert(s@.subrange(0, n as int) =~= s@);
        assert(r.deep_view() =~= prev.push(line@));
        assert(r.deep_view() =~= prev + seq![s@.subrange(start as int, n as int)]);
    }
    r
}

/// The maximal runs of non-whitespace characters in `s`, in order. Unlike
/// [`split_lines_spec`] this never yields an empty token.
pub open spec fn ws_tokens_spec(s: Seq<char>) -> Seq<Seq<char>>
    decreases s.len(),
{
    if s.len() == 0 {
        Seq::<Seq<char>>::empty()
    } else {
        let prefix = ws_tokens_spec(s.drop_last());
        let c = s.last();
        if is_space_char(c) {
            prefix
        } else if s.len() >= 2 && !is_space_char(s[s.len() - 2]) {
            prefix.drop_last().push(prefix.last().push(c))
        } else {
            prefix.push(seq![c])
        }
    }
}

/// Splits a string into whitespace-separated tokens.
pub fn split_ws(s: &str) -> (r: Vec<String>)
    ensures
        r.deep_view() == ws_tokens_spec(s@),
{
    let n = s.unicode_len();
    let mut r: Vec<String> = Vec::new();
    let mut start: usize = 0;
    let mut in_tok: bool = false;
    let mut i: usize = 0;
    proof {
        assert(s@.subrange(0, 0) =~= Seq::<char>::empty());
        assert(r.deep_view() =~= Seq::<Seq<char>>::empty());
    }
    while i < n
        invariant
            n == s@.len(),
            i <= n,
            in_tok ==> start < i,
            in_tok == (i > 0 && !is_space_char(s@[i - 1])),
            ws_tokens_spec(s@.subrange(0, i as int)) == r.deep_view() + (if in_tok {
                seq![s@.subrange(start as int, i as int)]
            } else {
                Seq::<Seq<char>>::empty()
            }),
        decreases n - i,
    {
        let ghost p = s@.subrange(0, i as int);
        let ghost p1 = s@.subrange(0, i + 1);
        proof {
            assert(p1.drop_last() =~= p);
            assert(p1.last() == s@[i as int]);
        }
        let c = s.get_char(i);
        if is_space(c) {
            if in_tok {
                let ghost prev = r.deep_view();
                let tok = String::from_str(s.substring_char(start, i));
                r.push(tok);
                proof {
                    assert(r.deep_view() =~= prev.push(tok@));
                    assert(ws_tokens_spec(p1) =~= r.deep_view());
                }
                in_tok = false;
            }
        } else {
            if in_tok {
                proof {
                    let prefix = ws_tokens_spec(p);
                    assert(p1.len() >= 2 && !is_space_char(p1[p1.len() - 2]));
                    assert(prefix.drop_last() =~= r.deep_view());
                    assert(prefix.last() == s@.subrange(start as int, i as int));
                    assert(prefix.last().push(s@[i as int]) =~= s@.subrange(
                        start as int,
                        i + 1,
                    ));
                    assert(ws_tokens_spec(p1) =~= r.deep_view() + seq![
                        s@.subrange(start as int, i + 1),
                    ]);
                }
            } else {
                start = i;
                in_tok = true;
                proof {
                    assert(s@.subrange(i as int, i + 1) =~= seq![s@[i as int]]);
                    assert(ws_tokens_spec(p1) =~= r.deep_view() + seq![
                        s@.subrange(i as int, i + 1),
                    ]);
                }
            }
        }
        i = i + 1;
    }
    if in_tok {
        let ghost prev = r.deep_view();
        let tok = String::from_str(s.substring_char(start, n));
        r.push(tok);
        proof {
            assert(s@.subrange(0, n as int) =~= s@);
            assert(r.deep_view() =~= prev.push(tok@));
        }
    } else {
        proof {
            assert(s@.subrange(0, n as int) =~= s@);
        }
    }
    r
}

} // verus!
