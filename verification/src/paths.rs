//! Unix path handling on plain strings, following `std::path`: joining
//! (`PathBuf::push`), components, file names and extensions.

use vstd::prelude::*;
use crate::text::{extend_chars, last_index_of, rfind_char, slice_chars, split, split_chars, views};

verus! {

/// `Path::join` on Unix: an absolute `comp` replaces `base`; otherwise a
/// separator is inserted unless `base` is empty or already ends with one.
pub open spec fn join(base: Seq<char>, comp: Seq<char>) -> Seq<char> {
    if comp.len() > 0 && comp[0] == '/' {
        comp
    } else if base.len() > 0 && base.last() != '/' {
        base + seq!['/'] + comp
    } else {
        base + comp
    }
}

/// Executable `join`.
pub fn join_chars(base: &Vec<char>, comp: &Vec<char>) -> (r: Vec<char>)
    ensures
        r@ == join(base@, comp@),
{
    let mut r: Vec<char> = Vec::new();
    if comp.len() > 0 && comp[0] == '/' {
        extend_chars(&mut r, comp);
        assert(r@ == comp@);
        return r;
    }
    extend_chars(&mut r, base);
    if base.len() > 0 && base[base.len() - 1] != '/' {
        r.push('/');
    }
    extend_chars(&mut r, comp);
    r
}


/// A piece between separators that names no component: empty (from `//`
/// or a trailing `/`) or `.`.
pub open spec fn ignorable(p: Seq<char>) -> bool {
    p.len() == 0 || p == seq!['.']
}

/// The pieces that name components, in order.
pub open spec fn keep_pieces(ps: Seq<Seq<char>>) -> Seq<Seq<char>>
    decreases ps.len(),
{
    if ps.len() == 0 {
        seq![]
    } else if ignorable(ps.last()) {
        keep_pieces(ps.drop_last())
    } else {
        keep_pieces(ps.drop_last()).push(ps.last())
    }
}

/// Whether the path is absolute.
pub open spec fn has_root(s: Seq<char>) -> bool {
    s.len() > 0 && s[0] == '/'
}

/// Whether a relative path starts with a `.` component (`.` or `./...`).
pub open spec fn has_cur_dir(s: Seq<char>) -> bool {
    !has_root(s) && s.len() > 0 && s[0] == '.' && (s.len() == 1 || s[1] == '/')
}

/// `Path::components` on Unix, each component written as text: the root as
/// `/`, a leading current directory as `.`, a parent directory as `..`,
/// and every other component by its name.
pub open spec fn components(s: Seq<char>) -> Seq<Seq<char>> {
    (if has_root(s) {
        seq![seq!['/']]
    } else {
        seq![]
    }) + (if has_cur_dir(s) {
        seq![seq!['.']]
    } else {
        seq![]
    }) + keep_pieces(split(s, '/'))
}

/// `Path::file_name`: the last component, unless it is the root, `.` or `..`.
pub open spec fn file_name(s: Seq<char>) -> Option<Seq<char>> {
    let ps = keep_pieces(split(s, '/'));
    if ps.len() == 0 || ps.last() == seq!['.', '.'] {
        None
    } else {
        Some(ps.last())
    }
}

/// Splits a file name at its last dot, as `Path::file_stem` and
/// `Path::extension` do: `(before, after)`; a name whose only dot leads it
/// has no extension.
pub open spec fn split_file_at_dot(f: Seq<char>) -> (Option<Seq<char>>, Option<Seq<char>>) {
    if f == seq!['.', '.'] {
        (Some(f), None)
    } else {
        match last_index_of(f, '.') {
            None => (None, Some(f)),
            Some(i) => if i == 0 {
                (Some(f), None)
            } else {
                (Some(f.take(i)), Some(f.skip(i + 1)))
            },
        }
    }
}

/// `Path::extension`.
pub open spec fn extension(s: Seq<char>) -> Option<Seq<char>> {
    match file_name(s) {
        None => None,
        Some(f) => {
            let (before, after) = split_file_at_dot(f);
            if before is Some {
                after
            } else {
                None
            }
        },
    }
}

/// `Path::file_stem`.
pub open spec fn file_stem(s: Seq<char>) -> Option<Seq<char>> {
    match file_name(s) {
        None => None,
        Some(f) => {
            let (before, after) = split_file_at_dot(f);
            if before is Some {
                before
            } else {
                after
            }
        },
    }
}

/// Executable `keep_pieces`.
fn keep_pieces_exec(ps: &Vec<Vec<char>>) -> (r: Vec<Vec<char>>)
    ensures
        views(r@) == keep_pieces(views(ps@)),
{
    let mut r: Vec<Vec<char>> = Vec::new();
    let mut i: usize = 0;
    while i < ps.len()
        invariant
            i <= ps.len(),
            views(r@) == keep_pieces(views(ps@).take(i as int)),
        decreases ps.len() - i,
    {
        assert(views(ps@).take(i + 1).drop_last() == views(ps@).take(i as int));
        assert(views(ps@).take(i + 1).last() == ps@[i as int]@);
        let p = &ps[i];
        let skip = p.len() == 0 || (p.len() == 1 && p[0] == '.');
        assert(skip == ignorable(p@)) by {
            if p@.len() == 1 && p@[0] == '.' {
                assert(p@ == seq!['.']);
            }
        }
        if !skip {
            let ghost before = views(r@);
            r.push(slice_chars(p, 0, p.len()));
            assert(p@.subrange(0, p@.len() as int) == p@);
            assert(views(r@) == before.push(p@));
        }
        i += 1;
    }
    assert(views(ps@).take(ps.len() as int) == views(ps@));
    r
}

/// Executable `components`.
pub fn components_chars(v: &Vec<char>) -> (r: Vec<Vec<char>>)
    ensures
        views(r@) == components(v@),
{
    let pieces = split_chars(v, '/');
    let kept = keep_pieces_exec(&pieces);
    let mut r: Vec<Vec<char>> = Vec::new();
    let root = v.len() > 0 && v[0] == '/';
    if root {
        let mut c: Vec<char> = Vec::new();
        c.push('/');
        r.push(c);
    }
    if !root && v.len() > 0 && v[0] == '.' && (v.len() == 1 || v[1] == '/') {
        let mut c: Vec<char> = Vec::new();
        c.push('.');
        let ghost before = views(r@);
        r.push(c);
        assert(views(r@) == before.push(seq!['.']));
    }
    let ghost head = views(r@);
    assert(head == (if has_root(v@) {
        seq![seq!['/']]
    } else {
        seq![]
    }) + (if has_cur_dir(v@) {
        seq![seq!['.']]
    } else {
        seq![]
    }));
    let mut i: usize = 0;
    while i < kept.len()
        invariant
            i <= kept.len(),
            views(r@) == head + views(kept@).take(i as int),
        decreases kept.len() - i,
    {
        let ghost before = views(r@);
        r.push(slice_chars(&kept[i], 0, kept[i].len()));
        assert(kept@[i as int]@.subrange(0, kept@[i as int]@.len() as int) == kept@[i as int]@);
        assert(views(r@) == before.push(kept@[i as int]@));
        assert(views(kept@).take(i + 1) == views(kept@).take(i as int).push(kept@[i as int]@));
        i += 1;
    }
    assert(views(kept@).take(kept.len() as int) == views(kept@));
    r
}

/// Executable `file_name`.
pub fn file_name_chars(v: &Vec<char>) -> (r: Option<Vec<char>>)
    ensures
        match r {
            Some(f) => file_name(v@) == Some(f@),
            None => file_name(v@) is None,
        },
{
    let pieces = split_chars(v, '/');
    let kept = keep_pieces_exec(&pieces);
    let n = kept.len();
    if n == 0 {
        return None;
    }
    let last = &kept[n - 1];
    assert(views(kept@).last() == last@);
    if last.len() == 2 && last[0] == '.' && last[1] == '.' {
        assert(last@ == seq!['.', '.']);
        return None;
    }
    assert(last@ != seq!['.', '.']);
    Some(slice_chars(last, 0, last.len()))
}

/// Executable `split_file_at_dot`.
fn split_file_at_dot_exec(f: &Vec<char>) -> (r: (Option<Vec<char>>, Option<Vec<char>>))
    ensures
        split_file_at_dot(f@) == (
            match r.0 {
                Some(x) => Some(x@),
                None => None,
            },
            match r.1 {
                Some(x) => Some(x@),
                None => None,
            },
        ),
{
    if f.len() == 2 && f[0] == '.' && f[1] == '.' {
        assert(f@ == seq!['.', '.']);
        return (Some(slice_chars(f, 0, f.len())), None);
    }
    assert(f@ != seq!['.', '.']);
    assert(f@.subrange(0, f@.len() as int) == f@);
    match rfind_char(f, '.') {
        None => (None, Some(slice_chars(f, 0, f.len()))),
        Some(i) => {
            if i == 0 {
                (Some(slice_chars(f, 0, f.len())), None)
            } else {
                assert(f@.subrange(0, i as int) == f@.take(i as int));
                assert(f@.subrange(i + 1, f@.len() as int) == f@.skip(i + 1));
                (Some(slice_chars(f, 0, i)), Some(slice_chars(f, i + 1, f.len())))
            }
        },
    }
}

/// Executable `extension`.
pub fn extension_chars(v: &Vec<char>) -> (r: Option<Vec<char>>)
    ensures
        match r {
            Some(e) => extension(v@) == Some(e@),
            None => extension(v@) is None,
        },
{
    match file_name_chars(v) {
        None => None,
        Some(f) => {
            let (before, after) = split_file_at_dot_exec(&f);
            if before.is_some() {
                after
            } else {
                None
            }
        },
    }
}

/// Executable `file_stem`.
pub fn file_stem_chars(v: &Vec<char>) -> (r: Option<Vec<char>>)
    ensures
        match r {
            Some(e) => file_stem(v@) == Some(e@),
            None => file_stem(v@) is None,
        },
{
    match file_name_chars(v) {
        None => None,
        Some(f) => {
            let (before, after) = split_file_at_dot_exec(&f);
            if before.is_some() {
                before
            } else {
                after
            }
        },
    }
}

} // verus!
