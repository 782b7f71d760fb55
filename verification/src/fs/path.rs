//! Path utilities, on paths written as text with `/` separators (the
//! rules of `std::path` on Unix).

use vstd::prelude::*;
use crate::string::functions::{split, split_seq, views};
use crate::string::functions::split_from;
use crate::text::{chars_of, find_from, lemma_find_from, occurs_at, push_char, push_str, str_eq, string_of_range};

verus! {

broadcast use vstd::string::group_string_axioms;

/// `base` joined with `segment`: an absolute segment replaces the base;
/// otherwise a separator goes between them unless the base is empty or
/// already ends with one.
pub open spec fn join_path(base: Seq<char>, segment: Seq<char>) -> Seq<char> {
    if segment.len() > 0 && segment[0] == '/' {
        segment
    } else if base.len() > 0 && base.last() != '/' {
        base + seq!['/'] + segment
    } else {
        base + segment
    }
}

/// A component that names a file or directory: not empty and not `.`.
pub open spec fn is_named(c: Seq<char>) -> bool {
    c.len() > 0 && c != "."@
}

/// The last named component among `parts`.
pub open spec fn last_named(parts: Seq<Seq<char>>) -> Option<Seq<char>>
    decreases parts.len(),
{
    if parts.len() == 0 {
        None
    } else if is_named(parts.last()) {
        Some(parts.last())
    } else {
        last_named(parts.drop_last())
    }
}

/// The final component of the path, unless there is none or it is `..`.
pub open spec fn file_name_of(path: Seq<char>) -> Option<Seq<char>> {
    match last_named(split_seq(path, "/"@)) {
        Some(c) => if c == ".."@ {
            None
        } else {
            Some(c)
        },
        None => None,
    }
}

/// Index of the last `.` in `s`, or -1.
pub open spec fn last_dot(s: Seq<char>) -> int
    decreases s.len(),
{
    if s.len() == 0 {
        -1
    } else if s.last() == '.' {
        s.len() - 1
    } else {
        last_dot(s.drop_last())
    }
}

/// The extension of a file name: what follows its last `.`, unless it
/// has no `.` or its only `.` starts it.
pub open spec fn extension_of_name(name: Seq<char>) -> Option<Seq<char>> {
    let i = last_dot(name);
    if i <= 0 {
        None
    } else {
        Some(name.subrange(i + 1, name.len() as int))
    }
}

/// The extension of the path's file name.
pub open spec fn extension_of(path: Seq<char>) -> Option<Seq<char>> {
    match file_name_of(path) {
        Some(name) => extension_of_name(name),
        None => None,
    }
}

/// The view of an optional string.
pub open spec fn opt_view(o: Option<String>) -> Option<Seq<char>> {
    match o {
        Some(s) => Some(s@),
        None => None,
    }
}

/// Join path segments.
pub fn join(base: &str, segment: &str) -> (r: String)
    ensures
        r@ == join_path(base@, segment@),
{
    let b = chars_of(base);
    let s = chars_of(segment);
    if s.len() > 0 && s[0] == '/' {
        return string_of_range(&s, 0, s.len());
    }
    let mut r = string_of_range(&b, 0, b.len());
    if b.len() > 0 && b[b.len() - 1] != '/' {
        push_char(&mut r, '/');
    }
    push_str(&mut r, segment);
    proof {
        assert(b@.subrange(0, b@.len() as int) =~= b@);
    }
    r
}

/// The last named component of `parts`.
fn find_last_named(parts: &Vec<String>) -> (r: Option<usize>)
    ensures
        match r {
            Some(i) => i < parts.len() && last_named(views(parts@)) == Some(parts@[i as int]@),
            None => last_named(views(parts@)) is None,
        },
{
    let ghost ps = views(parts@);
    let mut i: usize = parts.len();
    proof {
        assert(ps.take(parts.len() as int) =~= ps);
    }
    while i > 0
        invariant
            i <= parts.len(),
            ps == views(parts@),
            last_named(ps.take(i as int)) == last_named(ps),
        decreases i,
    {
        let p = parts[i - 1].as_str();
        proof {
            assert(ps.take(i as int).drop_last() =~= ps.take(i - 1));
            assert(ps.take(i as int).last() == p@);
        }
        let cs = chars_of(p);
        let is_dot = str_eq(p, ".");
        if cs.len() > 0 && !is_dot {
            return Some(i - 1);
        }
        i = i - 1;
    }
    proof {
        assert(ps.take(0) =~= Seq::<Seq<char>>::empty());
    }
    None
}

/// Get file name without directory.
pub fn file_name(path: &str) -> (r: Option<String>)
    ensures
        opt_view(r) == file_name_of(path@),
{
    let parts = split(path, "/");
    match find_last_named(&parts) {
        Some(i) => {
            let c = parts[i].as_str();
            if str_eq(c, "..") {
                None
            } else {
                Some(parts[i].clone())
            }
        },
        None => None,
    }
}

/// Get file extension.
pub fn extension(path: &str) -> (r: Option<String>)
    ensures
        opt_view(r) == extension_of(path@),
{
    match file_name(path) {
        None => None,
        Some(name) => {
            let v = chars_of(name.as_str());
            let mut i: usize = v.len();
            proof {
                assert(v@.take(v.len() as int) =~= v@);
            }
            while i > 0
                invariant
                    i <= v.len(),
                    v@ == name@,
                    file_name_of(path@) == Some(name@),
                    last_dot(v@.take(i as int)) == last_dot(v@),
                decreases i,
            {
                proof {
                    assert(v@.take(i as int).drop_last() =~= v@.take(i - 1));
                }
                if v[i - 1] == '.' {
                    if i - 1 == 0 {
                        return None;
                    }
                    return Some(string_of_range(&v, i, v.len()));
                }
                i = i - 1;
            }
            proof {
                assert(v@.take(0) =~= Seq::<char>::empty());
            }
            None
        },
    }
}

/// Name for what `std::path::Path::parent` gives for a path: the path
/// without its final component, or nothing when it ends in a root or is
/// empty.
pub uninterp spec fn parent_path(path: Seq<char>) -> Option<Seq<char>>;

/// `Path::new(path).parent()`, as text.
#[verifier::external_body]
fn std_parent(path: &str) -> (r: Option<String>)
    ensures
        opt_view(r) == parent_path(path@),
{
    std::path::Path::new(path).parent().map(|p| p.to_string_lossy().to_string())
}

/// The directory that holds the path.
pub fn parent(path: &str) -> (r: Option<String>)
    ensures
        opt_view(r) == parent_path(path@),
{
    std_parent(path)
}

// ---------------------------------------------------------------------
// Laws
// ---------------------------------------------------------------------

/// The last piece of splitting `pre + name` at `/`, from any position in
/// `pre`, is `name`, when `pre` is empty or ends with `/` and `name` holds
/// no `/`.
proof fn lemma_last_piece(s: Seq<char>, pre: Seq<char>, name: Seq<char>, start: int)
    requires
        s == pre + name,
        pre.len() == 0 || pre.last() == '/',
        forall|k: int| 0 <= k < name.len() ==> name[k] != '/',
        0 <= start <= pre.len(),
    ensures
        split_from(s, seq!['/'], start).len() > 0,
        split_from(s, seq!['/'], start).last() == name,
    decreases s.len() - start,
{
    let p = seq!['/'];
    lemma_find_from(s, p, start);
    match find_from(s, p, start) {
        None => {
            if start < pre.len() {
                assert(s.subrange(pre.len() - 1, pre.len() as int) =~= p);
                assert(occurs_at(s, p, pre.len() - 1));
            }
            assert(s.subrange(start, s.len() as int) =~= name);
        },
        Some(i) => {
            assert(occurs_at(s, p, i));
            assert(s.subrange(i, i + 1)[0] == s[i]);
            if i >= pre.len() {
                assert(name[i - pre.len()] == s[i]);
            }
            lemma_last_piece(s, pre, name, i + 1);
        },
    }
}

/// Joining a plain file name onto a path gives a path whose file name is
/// that name.
pub proof fn law_file_name_of_join(base: Seq<char>, name: Seq<char>)
    requires
        is_named(name),
        name != ".."@,
        forall|k: int| 0 <= k < name.len() ==> name[k] != '/',
    ensures
        file_name_of(join_path(base, name)) == Some(name),
{
    reveal_strlit("/");
    let pre = if base.len() > 0 && base.last() != '/' {
        base + seq!['/']
    } else {
        base
    };
    assert(join_path(base, name) =~= pre + name);
    lemma_last_piece(pre + name, pre, name, 0);
    assert("/"@ =~= seq!['/']);
    let parts = split_seq(join_path(base, name), "/"@);
    assert(parts == split_from(pre + name, seq!['/'], 0));
    assert(is_named(parts.last()));
    assert(last_named(parts) == Some(name));
}

} // verus!
