//! The file name and extension of a path, as `std::path::Path` reads a
//! Unix path: components separated by `/`, empty and `.` components skipped.
use vstd::prelude::*;

use crate::text::chars_of;

verus! {

/// Index of the last `/` before position `j`, or -1.
pub open spec fn last_slash(p: Seq<char>, j: int) -> int
    decreases j,
{
    if j <= 0 || j > p.len() {
        -1
    } else if p[j - 1] == '/' {
        j - 1
    } else {
        last_slash(p, j - 1)
    }
}

/// The last component of `p[..j]` that is neither empty nor `.`.
pub open spec fn last_component(p: Seq<char>, j: int) -> Option<Seq<char>>
    decreases j,
{
    if j <= 0 || j > p.len() {
        None
    } else {
        let k = last_slash(p, j);
        let seg = p.subrange(k + 1, j);
        if seg.len() == 0 || seg == seq!['.'] {
            if k < 0 || k >= j {
                None
            } else {
                last_component(p, k)
            }
        } else {
            Some(seg)
        }
    }
}

/// `Path::file_name`: the last component, unless it is `..`.
pub open spec fn file_name(p: Seq<char>) -> Option<Seq<char>> {
    match last_component(p, p.len() as int) {
        Some(seg) => if seg == seq!['.', '.'] {
            None
        } else {
            Some(seg)
        },
        None => None,
    }
}

/// Index of the last `.` in `f`, or -1.
pub open spec fn last_dot(f: Seq<char>, j: int) -> int
    decreases j,
{
    if j <= 0 || j > f.len() {
        -1
    } else if f[j - 1] == '.' {
        j - 1
    } else {
        last_dot(f, j - 1)
    }
}

/// `Path::extension`: what follows the last `.` of the file name, unless that
/// `.` opens the name.
pub open spec fn extension(p: Seq<char>) -> Option<Seq<char>> {
    match file_name(p) {
        Some(f) => {
            let d = last_dot(f, f.len() as int);
            if d <= 0 {
                None
            } else {
                Some(f.subrange(d + 1, f.len() as int))
            }
        },
        None => None,
    }
}

proof fn lemma_last_slash_range(p: Seq<char>, j: int)
    requires
        0 <= j <= p.len(),
    ensures
        -1 <= last_slash(p, j) < j,
        last_slash(p, j) >= 0 ==> p[last_slash(p, j)] == '/',
    decreases j,
{
    if j > 0 && p[j - 1] != '/' {
        lemma_last_slash_range(p, j - 1);
    }
}

proof fn lemma_last_dot_range(f: Seq<char>, j: int)
    requires
        0 <= j <= f.len(),
    ensures
        -1 <= last_dot(f, j) < j,
    decreases j,
{
    if j > 0 && f[j - 1] != '.' {
        lemma_last_dot_range(f, j - 1);
    }
}

fn find_last(s: &[char], j: usize, c: char) -> (k: Option<usize>)
    requires
        j <= s@.len(),
    ensures
        c == '/' ==> match k {
            Some(i) => last_slash(s@, j as int) == i as int,
            None => last_slash(s@, j as int) == -1,
        },
        c == '.' ==> match k {
            Some(i) => last_dot(s@, j as int) == i as int,
            None => last_dot(s@, j as int) == -1,
        },
        k matches Some(i) ==> i < j,
{
    let mut i = j;
    while i > 0
        invariant
            i <= j <= s@.len(),
            c == '/' ==> last_slash(s@, j as int) == last_slash(s@, i as int),
            c == '.' ==> last_dot(s@, j as int) == last_dot(s@, i as int),
        decreases i,
    {
        if s[i - 1] == c {
            return Some(i - 1);
        }
        i = i - 1;
    }
    None
}

/// Bounds of the last component of `s[..j]` that is neither empty nor `.`.
fn last_component_bounds(s: &[char]) -> (r: Option<(usize, usize)>)
    ensures
        match r {
            Some((a, b)) => a <= b <= s@.len() && last_component(s@, s@.len() as int) == Some(
                s@.subrange(a as int, b as int),
            ),
            None => last_component(s@, s@.len() as int) is None,
        },
{
    let mut j = s.len();
    while j > 0
        invariant
            j <= s@.len(),
            last_component(s@, s@.len() as int) == last_component(s@, j as int),
        decreases j,
    {
        proof {
            lemma_last_slash_range(s@, j as int);
        }
        let k = find_last(s, j, '/');
        let start = match k {
            Some(i) => i + 1,
            None => 0,
        };
        let empty_or_dot = start == j || (j - start == 1 && s[start] == '.');
        assert(empty_or_dot == (s@.subrange(start as int, j as int).len() == 0 || s@.subrange(
            start as int,
            j as int,
        ) == seq!['.'])) by {
            if j - start == 1 && s@.subrange(start as int, j as int) == seq!['.'] {
                assert(s@.subrange(start as int, j as int)[0] == s@[start as int]);
            }
            if j - start == 1 && s@[start as int] == '.' {
                assert(s@.subrange(start as int, j as int) =~= seq!['.']);
            }
        }
        if !empty_or_dot {
            return Some((start, j));
        }
        match k {
            Some(i) => {
                j = i;
            },
            None => {
                return None;
            },
        }
    }
    None
}

/// `Path::file_name`, as bounds into the path's characters.
pub fn file_name_bounds(s: &[char]) -> (r: Option<(usize, usize)>)
    ensures
        match r {
            Some((a, b)) => a <= b <= s@.len() && file_name(s@) == Some(
                s@.subrange(a as int, b as int),
            ),
            None => file_name(s@) is None,
        },
{
    match last_component_bounds(s) {
        Some((a, b)) => {
            if b - a == 2 && s[a] == '.' && s[a + 1] == '.' {
                assert(s@.subrange(a as int, b as int) =~= seq!['.', '.']);
                None
            } else {
                assert(s@.subrange(a as int, b as int) != seq!['.', '.']) by {
                    if s@.subrange(a as int, b as int) == seq!['.', '.'] {
                        assert(s@.subrange(a as int, b as int)[0] == s@[a as int]);
                        assert(s@.subrange(a as int, b as int)[1] == s@[a + 1]);
                    }
                }
                Some((a, b))
            }
        },
        None => None,
    }
}

/// `Path::extension`, as bounds into the path's characters.
pub fn extension_bounds(s: &[char]) -> (r: Option<(usize, usize)>)
    ensures
        match r {
            Some((a, b)) => a <= b <= s@.len() && extension(s@) == Some(
                s@.subrange(a as int, b as int),
            ),
            None => extension(s@) is None,
        },
{
    match file_name_bounds(s) {
        Some((a, b)) => {
            let f = vstd::slice::slice_subrange(s, a, b);
            proof {
                lemma_last_dot_range(f@, f@.len() as int);
            }
            match find_last(f, f.len(), '.') {
                Some(d) => {
                    if d == 0 {
                        None
                    } else {
                        assert(f@.subrange(d + 1, f@.len() as int) =~= s@.subrange(
                            a + d + 1,
                            b as int,
                        ));
                        Some((a + d + 1, b))
                    }
                },
                None => None,
            }
        },
        None => None,
    }
}

/// Whether the extension of `path` is exactly `ext`.
pub fn has_extension(path: &str, ext: &str) -> (b: bool)
    ensures
        b == (extension(path@) == Some(ext@)),
{
    let cs = chars_of(path);
    let e = chars_of(ext);
    match extension_bounds(cs.as_slice()) {
        Some((a, b)) => {
            if b - a != e.len() {
                return false;
            }
            let mut i: usize = 0;
            while i < e.len()
                invariant
                    a <= b <= cs@.len(),
                    b - a == e@.len(),
                    cs@ == path@,
                    e@ == ext@,
                    extension(cs@) == Some(cs@.subrange(a as int, b as int)),
                    i <= e@.len(),
                    forall|k: int| 0 <= k < i ==> cs@[a + k] == e@[k],
                decreases e.len() - i,
            {
                if cs[a + i] != e[i] {
                    assert(cs@.subrange(a as int, b as int)[i as int] != e@[i as int]);
                    return false;
                }
                i = i + 1;
            }
            assert(cs@.subrange(a as int, b as int) =~= e@);
            true
        },
        None => false,
    }
}

/// `Path::file_name` of a path, or the path itself when it has none.
pub fn file_name_or_path(path: &str) -> (name: &str)
    ensures
        file_name(path@) matches Some(f) ==> name@ == f,
        file_name(path@) is None ==> name@ == path@,
{
    let cs = chars_of(path);
    match file_name_bounds(cs.as_slice()) {
        Some((a, b)) => path.substring_char(a, b),
        None => path,
    }
}

} // verus!
