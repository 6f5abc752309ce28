//! Paths: `/`-separated names. A path is split into the names between the
//! slashes; empty names (from doubled or trailing slashes) are dropped.

use vstd::prelude::*;
use vstd::std_specs::iter::IteratorSpec;
use vstd::string::StrSliceExecFns;
use super::{VfsError, VfsResult};

verus! {

/// The separator of path components.
pub const SEPARATOR: char = '/';

/// The characters of `path`, in order.
pub fn path_chars(path: &str) -> (chars: Vec<char>)
    ensures
        chars@ == path@,
{
    broadcast use vstd::string::group_string_axioms;

    let mut it = path.chars();
    let mut chars: Vec<char> = Vec::new();
    loop
        invariant
            chars@ + it.remaining() == path@,
            it.obeys_prophetic_iter_laws(),
            it.decrease() is Some,
        ensures
            chars@ == path@,
        decreases it.decrease()->0,
    {
        match it.next() {
            Some(c) => {
                chars.push(c);
            },
            None => {
                assert(chars@ + it.remaining() =~= chars@);
                break ;
            },
        }
    }
    chars
}

/// A path is absolute when it starts with the separator.
pub open spec fn is_absolute(path: Seq<char>) -> bool {
    path.len() > 0 && path[0] == SEPARATOR
}

/// The end of the component that holds position `i`: the first position
/// from `i` on that holds a separator, or the path's length.
pub open spec fn segment_end(path: Seq<char>, i: int) -> int
    decreases path.len() - i,
{
    if 0 <= i < path.len() && path[i] != SEPARATOR {
        segment_end(path, i + 1)
    } else {
        i
    }
}

/// The component that starts at `i` ends between `i` and the path's end, at
/// a separator or at the end, and holds no separator.
pub proof fn lemma_segment_end(path: Seq<char>, i: int)
    requires
        0 <= i <= path.len(),
    ensures
        i <= segment_end(path, i) <= path.len(),
        segment_end(path, i) == path.len() || path[segment_end(path, i)] == SEPARATOR,
        forall|k: int| i <= k < segment_end(path, i) ==> path[k] != SEPARATOR,
        i < path.len() && path[i] != SEPARATOR ==> i < segment_end(path, i),
    decreases path.len() - i,
{
    if i < path.len() && path[i] != SEPARATOR {
        lemma_segment_end(path, i + 1);
    }
}

/// The components of `path` from position `i` on: the maximal runs of
/// characters other than the separator.
pub open spec fn components_from(path: Seq<char>, i: int) -> Seq<Seq<char>>
    decreases path.len() - i,
{
    if !(0 <= i < path.len()) {
        Seq::empty()
    } else if path[i] == SEPARATOR {
        components_from(path, i + 1)
    } else {
        let end = segment_end(path, i);
        proof {
            lemma_segment_end(path, i);
        }
        seq![path.subrange(i, end)] + components_from(path, end)
    }
}

/// The components of `path`.
pub open spec fn components(path: Seq<char>) -> Seq<Seq<char>> {
    components_from(path, 0)
}

/// The position of the last separator in `path`, or -1 if it holds none.
pub open spec fn last_separator(path: Seq<char>) -> int
    decreases path.len(),
{
    if path.len() == 0 {
        -1
    } else if path.last() == SEPARATOR {
        path.len() - 1
    } else {
        last_separator(path.drop_last())
    }
}

/// `last_separator` is the greatest position that holds a separator.
pub proof fn lemma_last_separator(path: Seq<char>)
    ensures
        -1 <= last_separator(path) < path.len(),
        last_separator(path) >= 0 ==> path[last_separator(path)] == SEPARATOR,
        forall|k: int| last_separator(path) < k < path.len() ==> path[k] != SEPARATOR,
    decreases path.len(),
{
    if path.len() > 0 && path.last() != SEPARATOR {
        let shorter = path.drop_last();
        lemma_last_separator(shorter);
        assert forall|k: int| last_separator(path) < k < path.len() implies path[k]
            != SEPARATOR by {
            if k < shorter.len() {
                assert(path[k] == shorter[k]);
            }
        }
    }
}

/// How `path` splits at its last separator into the path of the parent and
/// the name of the entry. The parent of an entry of the root is `/`. A path
/// without a separator, or one that ends in a separator (`/` itself too),
/// names no entry.
pub open spec fn split(path: Seq<char>) -> VfsResult<(Seq<char>, Seq<char>)> {
    let at = last_separator(path);
    if at < 0 || at + 1 == path.len() {
        Err(VfsError::InvalidPath)
    } else {
        Ok(
            (
                if at == 0 {
                    seq![SEPARATOR]
                } else {
                    path.subrange(0, at)
                },
                path.subrange(at + 1, path.len() as int),
            ),
        )
    }
}

/// Splits `path` into the path of the parent directory and the name of the
/// entry.
pub fn split_path(path: &str) -> (r: VfsResult<(&str, &str)>)
    ensures
        match r {
            Ok((parent, name)) => split(path@) == Ok::<(Seq<char>, Seq<char>), VfsError>(
                (parent@, name@),
            ),
            Err(e) => split(path@) == Err::<(Seq<char>, Seq<char>), VfsError>(e),
        },
{
    let chars = path_chars(path);
    let n = chars.len();
    let mut last: Option<usize> = None;
    let mut i: usize = 0;
    while i < n
        invariant
            i <= n,
            n == chars@.len(),
            match last {
                Some(at) => at == last_separator(chars@.take(i as int)),
                None => last_separator(chars@.take(i as int)) == -1,
            },
        decreases n - i,
    {
        proof {
            assert(chars@.take(i + 1).drop_last() =~= chars@.take(i as int));
            lemma_last_separator(chars@.take(i as int));
        }
        if chars[i] == SEPARATOR {
            last = Some(i);
        }
        i += 1;
    }
    proof {
        assert(chars@.take(n as int) =~= chars@);
        lemma_last_separator(chars@);
    }
    match last {
        None => Err(VfsError::InvalidPath),
        Some(at) => {
            if at + 1 == n {
                Err(VfsError::InvalidPath)
            } else {
                let name = path.substring_char(at + 1, n);
                if at == 0 {
                    proof {
                        reveal_strlit("/");
                        assert("/"@ =~= seq![SEPARATOR]);
                    }
                    Ok(("/", name))
                } else {
                    Ok((path.substring_char(0, at), name))
                }
            }
        },
    }
}

} // verus!
