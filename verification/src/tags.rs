//! Tag line extraction and tag tokenization.
//!
//! Given the raw text of a metadata block, the lines beginning with the
//! marker `tags:` are retained; the content after the marker on each such
//! line is split into whitespace-separated tokens, and list punctuation is
//! stripped from both ends of every token. The token lists of all tag lines
//! are concatenated in declaration order.

use vstd::prelude::*;

use crate::error::Error;
use crate::error::ErrorSpec;
use crate::text::is_space_char;
use crate::text::split_lines;
use crate::text::split_lines_spec;
use crate::text::split_ws;
use crate::text::strip_edges;
use crate::text::strip_edges_spec;
use crate::text::trim;
use crate::text::trim_spec;
use crate::text::ws_tokens_spec;

verus! {

/// The characters of the `tags:` marker that opens a tag declaration line.
pub open spec fn tag_marker() -> Seq<char> {
    seq!['t', 'a', 'g', 's', ':']
}

/// Whether a line (already trimmed by the caller) declares tags, that is,
/// begins with the `tags:` marker.
pub open spec fn is_tag_line(l: Seq<char>) -> bool {
    l.len() >= 5 && l.subrange(0, 5) == tag_marker()
}

/// The tag-declaration content of a tag line: what follows the marker,
/// trimmed of surrounding whitespace. It may be empty.
pub open spec fn tag_content_of(l: Seq<char>) -> Seq<char> {
    trim_spec(l.skip(5))
}

/// The tag-declaration contents of a sequence of lines: each line is
/// trimmed, the tag lines among them are kept in order, and each is reduced
/// to its content after the marker.
pub open spec fn tag_contents_of_lines(ls: Seq<Seq<char>>) -> Seq<Seq<char>>
    decreases ls.len(),
{
    if ls.len() == 0 {
        Seq::<Seq<char>>::empty()
    } else {
        let prefix = tag_contents_of_lines(ls.drop_last());
        let t = trim_spec(ls.last());
        if is_tag_line(t) {
            prefix.push(tag_content_of(t))
        } else {
            prefix
        }
    }
}

/// The tag-declaration contents of a metadata text, line by line.
pub open spec fn tag_contents_spec(meta: Seq<char>) -> Seq<Seq<char>> {
    tag_contents_of_lines(split_lines_spec(meta))
}

/// Every token of `ts` with list punctuation stripped from its edges.
pub open spec fn strip_tokens_spec(ts: Seq<Seq<char>>) -> Seq<Seq<char>>
    decreases ts.len(),
{
    if ts.len() == 0 {
        Seq::<Seq<char>>::empty()
    } else {
        strip_tokens_spec(ts.drop_last()).push(strip_edges_spec(ts.last()))
    }
}

/// The tags declared by one tag-declaration content: its whitespace-separated
/// tokens, each stripped of edge punctuation.
pub open spec fn tokenize_line_spec(content: Seq<char>) -> Seq<Seq<char>> {
    strip_tokens_spec(ws_tokens_spec(content))
}

/// The concatenation of the tags of every tag-declaration content, in
/// declaration order.
pub open spec fn tokens_of_contents(cs: Seq<Seq<char>>) -> Seq<Seq<char>>
    decreases cs.len(),
{
    if cs.len() == 0 {
        Seq::<Seq<char>>::empty()
    } else {
        tokens_of_contents(cs.drop_last()) + tokenize_line_spec(cs.last())
    }
}

/// The full tag sequence of a metadata text.
pub open spec fn parsed_tags_spec(meta: Seq<char>) -> Seq<Seq<char>> {
    tokens_of_contents(tag_contents_spec(meta))
}

/// What parsing the tag declarations of a metadata text yields: its tag
/// sequence, or a metadata failure when that sequence is empty — the text
/// holds no tag line at all, or its tag lines declare no token. An empty
/// tag set is a hard parse failure, never an empty note.
pub open spec fn tags_result_spec(meta: Seq<char>) -> Result<Seq<Seq<char>>, ErrorSpec> {
    if parsed_tags_spec(meta).len() == 0 {
        Err(ErrorSpec::MetaDataError("Must specify at least one tag."@))
    } else {
        Ok(parsed_tags_spec(meta))
    }
}

/// Whether a line starts with the `tags:` marker.
pub fn starts_with_tag_marker(s: &str) -> (r: bool)
    ensures
        r == is_tag_line(s@),
{
    let n = s.unicode_len();
    if n < 5 {
        return false;
    }
    let r = s.get_char(0) == 't' && s.get_char(1) == 'a' && s.get_char(2) == 'g' && s.get_char(3)
        == 's' && s.get_char(4) == ':';
    proof {
        if r {
            assert(s@.subrange(0, 5) =~= tag_marker());
        } else {
            if s@.subrange(0, 5) == tag_marker() {
                assert(s@[0] == tag_marker()[0]);
                assert(s@[1] == tag_marker()[1]);
                assert(s@[2] == tag_marker()[2]);
                assert(s@[3] == tag_marker()[3]);
                assert(s@[4] == tag_marker()[4]);
            }
        }
    }
    r
}

/// Extracts the tag-declaration contents of a metadata text: each line of
/// the text that, after trimming, begins with `tags:`, reduced to its
/// trimmed content after the marker.
pub fn tag_contents(meta: &str) -> (r: Vec<String>)
    ensures
        r.deep_view() == tag_contents_spec(meta@),
{
    let lines = split_lines(meta);
    let mut r: Vec<String> = Vec::new();
    let mut i: usize = 0;
    proof {
        assert(r.deep_view() =~= Seq::<Seq<char>>::empty());
        assert(lines.deep_view().take(0) =~= Seq::<Seq<char>>::empty());
    }
    while i < lines.len()
        invariant
            lines.deep_view() == split_lines_spec(meta@),
            i <= lines@.len(),
            r.deep_view() == tag_contents_of_lines(lines.deep_view().take(i as int)),
        decreases lines@.len() - i,
    {
        let ghost prev = r.deep_view();
        proof {
            assert(lines.deep_view().take(i + 1).drop_last() =~= lines.deep_view().take(i as int));
            assert(lines.deep_view().take(i + 1).last() == lines.deep_view()[i as int]);
        }
        let line = &lines[i];
        let t = trim(line.as_str());
        if starts_with_tag_marker(t) {
            let n = t.unicode_len();
            let content = trim(t.substring_char(5, n));
            proof {
                assert(t@.subrange(5, n as int) =~= t@.skip(5));
            }
            let owned = String::from_str(content);
            r.push(owned);
            proof {
                assert(r.deep_view() =~= prev.push(owned@));
            }
        }
        i = i + 1;
    }
    proof {
        assert(lines.deep_view().take(lines.deep_view().len() as int) =~= lines.deep_view());
    }
    r
}

/// Splits one tag-declaration content into its tags: whitespace-separated
/// tokens, each stripped of list punctuation at its edges.
pub fn tokenize_line(content: &str) -> (r: Vec<String>)
    ensures
        r.deep_view() == tokenize_line_spec(content@),
{
    let toks = split_ws(content);
    let mut r: Vec<String> = Vec::new();
    let mut i: usize = 0;
    proof {
        assert(r.deep_view() =~= Seq::<Seq<char>>::empty());
        assert(toks.deep_view().take(0) =~= Seq::<Seq<char>>::empty());
    }
    while i < toks.len()
        invariant
            toks.deep_view() == ws_tokens_spec(content@),
            i <= toks@.len(),
            r.deep_view() == strip_tokens_spec(toks.deep_view().take(i as int)),
        decreases toks@.len() - i,
    {
        let ghost prev = r.deep_view();
        proof {
            assert(toks.deep_view().take(i + 1).drop_last() =~= toks.deep_view().take(i as int));
            assert(toks.deep_view().take(i + 1).last() == toks.deep_view()[i as int]);
        }
        let tok = &toks[i];
        let stripped = String::from_str(strip_edges(tok.as_str()));
        r.push(stripped);
        proof {
            assert(r.deep_view() =~= prev.push(stripped@));
        }
        i = i + 1;
    }
    proof {
        assert(toks.deep_view().take(toks.deep_view().len() as int) =~= toks.deep_view());
    }
    r
}

/// Parses the tag declarations of a metadata text: the concatenated tags of
/// every `tags:` line, or a metadata failure when they declare no tag at
/// all.
pub fn parse_tag_text(meta: &str) -> (r: Result<Vec<String>, Error>)
    ensures
        match r {
            Ok(tags) => tags_result_spec(meta@) == Ok::<Seq<Seq<char>>, ErrorSpec>(
                tags.deep_view(),
            ),
            Err(e) => tags_result_spec(meta@) == Err::<Seq<Seq<char>>, ErrorSpec>(e.deep_view()),
        },
{
    let contents = tag_contents(meta);
    let mut tags: Vec<String> = Vec::new();
    let mut i: usize = 0;
    proof {
        assert(tags.deep_view() =~= Seq::<Seq<char>>::empty());
        assert(contents.deep_view().take(0) =~= Seq::<Seq<char>>::empty());
    }
    while i < contents.len()
        invariant
            contents.deep_view() == tag_contents_spec(meta@),
            i <= contents@.len(),
            tags.deep_view() == tokens_of_contents(contents.deep_view().take(i as int)),
        decreases contents@.len() - i,
    {
        let ghost prev = tags.deep_view();
        proof {
            assert(contents.deep_view().take(i + 1).drop_last() =~= contents.deep_view().take(
                i as int,
            ));
            assert(contents.deep_view().take(i + 1).last() == contents.deep_view()[i as int]);
        }
        let content = &contents[i];
        let mut toks = tokenize_line(content.as_str());
        let ghost toks_view = toks.deep_view();
        tags.append(&mut toks);
        proof {
            assert(tags.deep_view() =~= prev + toks_view);
        }
        i = i + 1;
    }
    proof {
        assert(contents.deep_view().take(contents.deep_view().len() as int)
            =~= contents.deep_view());
    }
    if tags.len() == 0 {
        return Err(Error::MetaDataError(String::from_str("Must specify at least one tag.")));
    }
    Ok(tags)
}

} // verus!
