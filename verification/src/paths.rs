//! Paths of source files, with `/` between components.

use vstd::prelude::*;
use crate::text::{chars_of, text_between};

verus! {

/// The length of a path without separators and `.` components at its end.
pub open spec fn trimmed_len(path: Seq<char>, n: int) -> int
    decreases n,
{
    if n <= 0 {
        0
    } else if path[n - 1] == '/' {
        trimmed_len(path, n - 1)
    } else if n >= 2 && path[n - 1] == '.' && path[n - 2] == '/' {
        trimmed_len(path, n - 2)
    } else {
        n
    }
}

/// The start of the component that ends at a position.
pub open spec fn component_start(path: Seq<char>, n: int) -> int
    decreases n,
{
    if n <= 0 {
        0
    } else if path[n - 1] == '/' {
        n
    } else {
        component_start(path, n - 1)
    }
}

/// The last component of a path, where it names something.
pub open spec fn file_name_of(path: Seq<char>) -> Option<Seq<char>> {
    let end = trimmed_len(path, path.len() as int);
    let name = path.subrange(component_start(path, end), end);
    if name.len() == 0 || name == "."@ || name == ".."@ {
        None
    } else {
        Some(name)
    }
}

/// The position of the last dot among the first `n` characters, or -1.
pub open spec fn last_dot(name: Seq<char>, n: int) -> int
    decreases n,
{
    if n <= 0 {
        -1
    } else if name[n - 1] == '.' {
        n - 1
    } else {
        last_dot(name, n - 1)
    }
}

/// The file name of a path without its extension.
pub open spec fn file_stem_of(path: Seq<char>) -> Option<Seq<char>> {
    match file_name_of(path) {
        Some(name) => {
            let dot = last_dot(name, name.len() as int);
            if dot <= 0 {
                Some(name)
            } else {
                Some(name.take(dot))
            }
        },
        None => None,
    }
}

/// The extension of the file name of a path.
pub open spec fn extension_of(path: Seq<char>) -> Option<Seq<char>> {
    match file_name_of(path) {
        Some(name) => {
            let dot = last_dot(name, name.len() as int);
            if dot <= 0 {
                None
            } else {
                Some(name.skip(dot + 1))
            }
        },
        None => None,
    }
}

proof fn lemma_bounds(path: Seq<char>, n: int)
    requires
        0 <= n <= path.len(),
    ensures
        0 <= trimmed_len(path, n) <= n,
        0 <= component_start(path, n) <= n,
        -1 <= last_dot(path, n) < n || n == 0,
    decreases n,
{
    if n > 0 {
        lemma_bounds(path, n - 1);
        if n >= 2 {
            lemma_bounds(path, n - 2);
        }
    }
}

/// The bounds of the last component of a path, where it names something.
fn file_name_bounds(chars: &Vec<char>) -> (r: Option<(usize, usize)>)
    ensures
        r is Some <==> file_name_of(chars@) is Some,
        r matches Some((lo, hi)) ==> lo < hi <= chars@.len() && file_name_of(chars@) == Some(
            chars@.subrange(lo as int, hi as int),
        ),
{
    let ghost path = chars@;
    proof {
        lemma_bounds(path, path.len() as int);
    }
    let mut n: usize = chars.len();
    let mut more = true;
    while more
        invariant
            chars@ == path,
            n <= path.len(),
            more ==> trimmed_len(path, path.len() as int) == trimmed_len(path, n as int),
            !more ==> trimmed_len(path, path.len() as int) == n,
        decreases n, (if more {
            1int
        } else {
            0int
        }),
    {
        if n == 0 {
            more = false;
        } else if chars[n - 1] == '/' {
            n -= 1;
        } else if n >= 2 && chars[n - 1] == '.' && chars[n - 2] == '/' {
            n -= 2;
        } else {
            more = false;
        }
    }
    proof {
        lemma_bounds(path, n as int);
    }
    let mut lo: usize = n;
    while lo > 0 && chars[lo - 1] != '/'
        invariant
            chars@ == path,
            lo <= n <= path.len(),
            component_start(path, n as int) == component_start(path, lo as int),
        decreases lo,
    {
        lo -= 1;
    }
    let ghost name = path.subrange(lo as int, n as int);
    proof {
        reveal_strlit(".");
        reveal_strlit("..");
        assert(name == "."@ <==> name.len() == 1 && name[0] == '.') by {
            if name.len() == 1 && name[0] == '.' {
                assert(name =~= "."@);
            }
        }
        assert(name == ".."@ <==> name.len() == 2 && name[0] == '.' && name[1] == '.') by {
            if name.len() == 2 && name[0] == '.' && name[1] == '.' {
                assert(name =~= ".."@);
            }
        }
    }
    let len: usize = n - lo;
    if len == 0 || (len == 1 && chars[lo] == '.') || (len == 2 && chars[lo] == '.' && chars[lo + 1]
        == '.') {
        None
    } else {
        Some((lo, n))
    }
}

/// The position of the last dot between two positions, if there is one behind the
/// first character.
fn inner_dot(chars: &Vec<char>, lo: usize, hi: usize) -> (r: Option<usize>)
    requires
        lo < hi <= chars@.len(),
    ensures
        match r {
            Some(dot) => lo < dot < hi && last_dot(
                chars@.subrange(lo as int, hi as int),
                hi - lo,
            ) == dot - lo,
            None => last_dot(chars@.subrange(lo as int, hi as int), hi - lo) <= 0,
        },
{
    let ghost name = chars@.subrange(lo as int, hi as int);
    let mut n: usize = hi;
    while n > lo + 1
        invariant
            lo < n <= hi <= chars@.len(),
            name == chars@.subrange(lo as int, hi as int),
            last_dot(name, hi - lo) == last_dot(name, n - lo),
        decreases n,
    {
        if chars[n - 1] == '.' {
            return Some(n - 1);
        }
        n -= 1;
    }
    assert(last_dot(name, 1) <= 0) by {
        reveal_with_fuel(last_dot, 2);
    }
    None
}

pub fn file_stem(path: &str) -> (r: Option<String>)
    ensures
        r is Some <==> file_stem_of(path@) is Some,
        r matches Some(stem) ==> file_stem_of(path@) == Some(stem@),
{
    let chars = chars_of(path);
    match file_name_bounds(&chars) {
        Some((lo, hi)) => {
            let ghost name = chars@.subrange(lo as int, hi as int);
            match inner_dot(&chars, lo, hi) {
                Some(dot) => {
                    assert(name.take(dot - lo) =~= chars@.subrange(lo as int, dot as int));
                    Some(text_between(&chars, lo, dot))
                },
                None => Some(text_between(&chars, lo, hi)),
            }
        },
        None => None,
    }
}

pub fn extension(path: &str) -> (r: Option<String>)
    ensures
        r is Some <==> extension_of(path@) is Some,
        r matches Some(ext) ==> extension_of(path@) == Some(ext@),
{
    let chars = chars_of(path);
    match file_name_bounds(&chars) {
        Some((lo, hi)) => {
            let ghost name = chars@.subrange(lo as int, hi as int);
            match inner_dot(&chars, lo, hi) {
                Some(dot) => {
                    assert(name.skip(dot - lo + 1) =~= chars@.subrange(dot + 1, hi as int));
                    Some(text_between(&chars, dot + 1, hi))
                },
                None => None,
            }
        },
        None => None,
    }
}

} // verus!
