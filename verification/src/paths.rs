//! Path components as plain strings: the final component of a path, and
//! its stem and extension.
//!
//! A path is a string whose components are separated by `'/'`. The final
//! component is what follows the last separator once trailing separators
//! are dropped; a component `.` or `..` names no file. The extension of a
//! component is what follows its last dot, provided that dot does not
//! stand first; the stem is the rest.

use vstd::prelude::*;

verus! {

/// Whether `p` ends with a `.` component: a final `.` standing alone or
/// right after a separator.
pub open spec fn ends_with_dot_component(p: Seq<char>) -> bool {
    p.len() > 0 && p.last() == '.' && (p.len() == 1 || p[p.len() - 2] == '/')
}

/// `p` with every trailing separator and every trailing `.` component
/// removed: such a tail names the same directory as what precedes it.
pub open spec fn strip_path_tail_spec(p: Seq<char>) -> Seq<char>
    decreases p.len(),
{
    if p.len() > 0 && (p.last() == '/' || ends_with_dot_component(p)) {
        strip_path_tail_spec(p.drop_last())
    } else {
        p
    }
}

/// The suffix of `p` after its last `'/'`; all of `p` if it has none.
pub open spec fn after_last_slash_spec(p: Seq<char>) -> Seq<char>
    decreases p.len(),
{
    if p.len() == 0 {
        Seq::<char>::empty()
    } else if p.last() == '/' {
        Seq::<char>::empty()
    } else {
        after_last_slash_spec(p.drop_last()).push(p.last())
    }
}

/// The final component of a path, if it names a file or directory: the
/// part after the last separator, once trailing separators and `.`
/// components are dropped. A path with no remaining component, or whose
/// final component is `..`, has none.
pub open spec fn file_name_spec(p: Seq<char>) -> Option<Seq<char>> {
    let name = after_last_slash_spec(strip_path_tail_spec(p));
    if name.len() == 0 || name == seq!['.', '.'] {
        None
    } else {
        Some(name)
    }
}

/// The position of the last `'.'` of a file name, except one that stands
/// first: the name splits into stem and extension there.
pub open spec fn last_dot_spec(name: Seq<char>) -> Option<int>
    decreases name.len(),
{
    if name.len() <= 1 {
        None
    } else if name.last() == '.' {
        Some(name.len() - 1)
    } else {
        last_dot_spec(name.drop_last())
    }
}

/// Where a name has a splitting dot, it lies strictly inside the name.
pub proof fn lemma_last_dot_bounds(name: Seq<char>)
    ensures
        match last_dot_spec(name) {
            Some(i) => 0 < i < name.len() && name[i] == '.',
            None => true,
        },
    decreases name.len(),
{
    if name.len() <= 1 {
    } else if name.last() == '.' {
    } else {
        lemma_last_dot_bounds(name.drop_last());
    }
}

/// The extension of a path's final component: what follows its last
/// splitting dot.
pub open spec fn extension_spec(p: Seq<char>) -> Option<Seq<char>> {
    match file_name_spec(p) {
        Some(name) => match last_dot_spec(name) {
            Some(i) => Some(name.skip(i + 1)),
            None => None,
        },
        None => None,
    }
}

/// The stem of a path's final component: the component without its
/// extension.
pub open spec fn file_stem_spec(p: Seq<char>) -> Option<Seq<char>> {
    match file_name_spec(p) {
        Some(name) => match last_dot_spec(name) {
            Some(i) => Some(name.subrange(0, i)),
            None => Some(name),
        },
        None => None,
    }
}

/// Whether a path names a note file: its extension is exactly `md`.
pub open spec fn is_md_path(p: Seq<char>) -> bool {
    extension_spec(p) == Some("md"@)
}

/// Removes trailing separators and trailing `.` components from a path.
pub fn strip_path_tail(p: &str) -> (r: &str)
    ensures
        r@ == strip_path_tail_spec(p@),
    decreases p@.len(),
{
    let n = p.unicode_len();
    if n == 0 {
        return p;
    }
    let last = p.get_char(n - 1);
    let dot_component = last == '.' && (n == 1 || p.get_char(n - 2) == '/');
    if last == '/' || dot_component {
        proof {
            assert(p@.subrange(0, n - 1) =~= p@.drop_last());
        }
        strip_path_tail(p.substring_char(0, n - 1))
    } else {
        p
    }
}

/// The suffix of a path after its last separator.
pub fn after_last_slash(p: &str) -> (r: String)
    ensures
        r@ == after_last_slash_spec(p@),
    decreases p@.len(),
{
    let n = p.unicode_len();
    if n == 0 {
        String::new()
    } else if p.get_char(n - 1) == '/' {
        String::new()
    } else {
        proof {
            assert(p@.subrange(0, n - 1) =~= p@.drop_last());
        }
        let mut r = after_last_slash(p.substring_char(0, n - 1));
        r.append(p.substring_char(n - 1, n));
        proof {
            assert(after_last_slash_spec(p@.drop_last()) + p@.subrange(n - 1, n as int)
                =~= after_last_slash_spec(p@.drop_last()).push(p@.last()));
        }
        r
    }
}

/// The final component of a path, if it names a file or directory.
pub fn file_name(p: &str) -> (r: Option<String>)
    ensures
        match r {
            Some(n) => file_name_spec(p@) == Some(n@),
            None => file_name_spec(p@) is None,
        },
{
    let name = after_last_slash(strip_path_tail(p));
    let n = name.as_str().unicode_len();
    if n == 0 {
        return None;
    }
    if n == 2 && name.as_str().get_char(0) == '.' && name.as_str().get_char(1) == '.' {
        proof {
            assert(name@ =~= seq!['.', '.']);
        }
        return None;
    }
    proof {
        if name@ == seq!['.', '.'] {
            assert(name@.len() == 2 && name@[0] == '.' && name@[1] == '.');
        }
    }
    Some(name)
}

/// The position of the last splitting dot of a file name.
pub fn last_dot(name: &str) -> (r: Option<usize>)
    ensures
        match r {
            Some(i) => last_dot_spec(name@) == Some(i as int),
            None => last_dot_spec(name@) is None,
        },
    decreases name@.len(),
{
    let n = name.unicode_len();
    if n <= 1 {
        None
    } else if name.get_char(n - 1) == '.' {
        Some(n - 1)
    } else {
        proof {
            assert(name@.subrange(0, n - 1) =~= name@.drop_last());
        }
        last_dot(name.substring_char(0, n - 1))
    }
}

/// The extension of a path's final component.
pub fn extension(p: &str) -> (r: Option<String>)
    ensures
        match r {
            Some(e) => extension_spec(p@) == Some(e@),
            None => extension_spec(p@) is None,
        },
{
    match file_name(p) {
        None => None,
        Some(name) => {
            let n = name.as_str().unicode_len();
            match last_dot(name.as_str()) {
                None => None,
                Some(i) => {
                    proof {
                        lemma_last_dot_bounds(name@);
                        assert(name@.subrange(i + 1, n as int) =~= name@.skip(i + 1));
                    }
                    Some(String::from_str(name.as_str().substring_char(i + 1, n)))
                },
            }
        },
    }
}

/// The stem of a path's final component.
pub fn file_stem(p: &str) -> (r: Option<String>)
    ensures
        match r {
            Some(st) => file_stem_spec(p@) == Some(st@),
            None => file_stem_spec(p@) is None,
        },
{
    match file_name(p) {
        None => None,
        Some(name) => {
            match last_dot(name.as_str()) {
                None => Some(name),
                Some(i) => {
                    proof {
                        lemma_last_dot_bounds(name@);
                    }
                    Some(String::from_str(name.as_str().substring_char(0, i)))
                },
            }
        },
    }
}

/// Whether a path names a note file, that is, has extension exactly `md`.
pub fn path_is_md(p: &str) -> (r: bool)
    ensures
        r == is_md_path(p@),
{
    proof {
        reveal_strlit("md");
    }
    match extension(p) {
        None => false,
        Some(e) => {
            let n = e.as_str().unicode_len();
            let r = n == 2 && e.as_str().get_char(0) == 'm' && e.as_str().get_char(1) == 'd';
            proof {
                if r {
                    assert(e@ =~= "md"@);
                } else {
                    if e@ == "md"@ {
                        assert(e@.len() == 2 && e@[0] == 'm' && e@[1] == 'd');
                    }
                }
            }
            r
        },
    }
}

} // verus!
