//! String utility functions.

use vstd::prelude::*;
use vstd::string::StringSliceAdditionalSpecFns;
use crate::text::{
    ascii_lower_seq, ascii_upper_seq, char_lower, char_to_lowercase, char_to_uppercase,
    char_upper, chars_of, find_from, find_from_exec, has_infix, has_prefix, has_suffix, occurs_at,
    is_ascii_seq, is_whitespace, is_ws, lemma_find_from, lemma_trim_end_take,
    lemma_trim_start_skip, occurs_at_exec, push_char, push_str, str_lower, str_upper,
    string_of_chars, string_of_range, to_lowercase, to_uppercase, trim_end_seq, trim_seq,
    trim_start_seq,
};

verus! {

broadcast use vstd::string::group_string_axioms;

// ---------------------------------------------------------------------
// Specifications
// ---------------------------------------------------------------------

/// The views of a sequence of strings.
pub open spec fn views(v: Seq<String>) -> Seq<Seq<char>> {
    v.map_values(|x: String| x@)
}

/// The pieces of `s[start..]` between the leftmost non-overlapping
/// occurrences of the non-empty pattern `p`.
pub open spec fn split_from(s: Seq<char>, p: Seq<char>, start: int) -> Seq<Seq<char>>
    decreases s.len() - start,
    when p.len() > 0 && 0 <= start
{
    match find_from(s, p, start) {
        None => seq![s.subrange(start, s.len() as int)],
        Some(i) => {
            proof {
                lemma_find_from(s, p, start);
            }
            seq![s.subrange(start, i)] + split_from(s, p, i + p.len())
        },
    }
}

/// What `str::split` yields for the pattern `p`: with an empty pattern,
/// an empty piece, each character, and another empty piece.
pub open spec fn split_seq(s: Seq<char>, p: Seq<char>) -> Seq<Seq<char>> {
    if p.len() == 0 {
        seq![Seq::<char>::empty()] + Seq::new(s.len(), |i: int| seq![s[i]]) + seq![
            Seq::<char>::empty(),
        ]
    } else {
        split_from(s, p, 0)
    }
}

/// The pieces of `list` with `sep` between consecutive pieces.
pub open spec fn seq_join(list: Seq<Seq<char>>, sep: Seq<char>) -> Seq<char>
    decreases list.len(),
{
    if list.len() == 0 {
        Seq::empty()
    } else if list.len() == 1 {
        list[0]
    } else {
        seq_join(list.drop_last(), sep) + sep + list.last()
    }
}

/// `s` with the first occurrence of `from` replaced by `to`.
pub open spec fn replace_first_seq(s: Seq<char>, from: Seq<char>, to: Seq<char>) -> Seq<char> {
    match find_from(s, from, 0) {
        None => s,
        Some(i) => s.subrange(0, i) + to + s.subrange(i + from.len(), s.len() as int),
    }
}

/// `s` with every (leftmost, non-overlapping) occurrence of `from` replaced
/// by `to`; an empty `from` inserts `to` around every character.
pub open spec fn replace_all_seq(s: Seq<char>, from: Seq<char>, to: Seq<char>) -> Seq<char> {
    seq_join(split_seq(s, from), to)
}

/// The concatenated lower-case mappings of each character of `s`.
pub open spec fn lower_each(s: Seq<char>) -> Seq<char>
    decreases s.len(),
{
    if s.len() == 0 {
        Seq::empty()
    } else {
        lower_each(s.drop_last()) + char_lower(s.last())
    }
}

/// The first character upper-cased, the rest lower-cased, character by
/// character.
pub open spec fn capitalize_seq(s: Seq<char>) -> Seq<char> {
    if s.len() == 0 {
        Seq::empty()
    } else {
        char_upper(s[0]) + lower_each(s.drop_first())
    }
}

/// `s` repeated `n` times.
pub open spec fn repeat_seq(s: Seq<char>, n: nat) -> Seq<char>
    decreases n,
{
    if n == 0 {
        Seq::empty()
    } else {
        repeat_seq(s, (n - 1) as nat) + s
    }
}

pub open spec fn min_int(a: int, b: int) -> int {
    if a <= b {
        a
    } else {
        b
    }
}

/// The characters of `s` from position `start` up to (not including)
/// `end`, clipped to the length of `s`.
pub open spec fn slice_seq(s: Seq<char>, start: int, end: int) -> Seq<char> {
    s.subrange(min_int(start, s.len() as int), min_int(end, s.len() as int))
}

/// `s` after `width - |s|` copies of `ch` (none when `s` is as wide).
pub open spec fn padded_start(s: Seq<char>, width: nat, ch: char) -> Seq<char> {
    if s.len() >= width {
        s
    } else {
        Seq::new((width - s.len()) as nat, |i: int| ch) + s
    }
}

/// `width - |s|` copies of `ch` after `s` (none when `s` is as wide).
pub open spec fn padded_end(s: Seq<char>, width: nat, ch: char) -> Seq<char> {
    if s.len() >= width {
        s
    } else {
        s + Seq::new((width - s.len()) as nat, |i: int| ch)
    }
}

// ---------------------------------------------------------------------
// Functions
// ---------------------------------------------------------------------

/// Convert string to uppercase.
pub fn upper(s: &str) -> (r: String)
    ensures
        r@ == str_upper(s@),
        is_ascii_seq(s@) ==> r@ == ascii_upper_seq(s@),
{
    to_uppercase(s)
}

/// Convert string to lowercase.
pub fn lower(s: &str) -> (r: String)
    ensures
        r@ == str_lower(s@),
        is_ascii_seq(s@) ==> r@ == ascii_lower_seq(s@),
{
    to_lowercase(s)
}

/// Index of the first character of `v` that is not whitespace, or `v.len()`.
fn first_non_ws(v: &Vec<char>) -> (i: usize)
    ensures
        i <= v.len(),
        forall|k: int| 0 <= k < i ==> is_ws(v@[k]),
        i < v.len() ==> !is_ws(v@[i as int]),
{
    let mut i: usize = 0;
    while i < v.len() && is_whitespace(v[i])
        invariant
            i <= v.len(),
            forall|k: int| 0 <= k < i ==> is_ws(v@[k]),
        decreases v.len() - i,
    {
        i = i + 1;
    }
    i
}

/// One past the index of the last character of `v[lo..]` that is not
/// whitespace, or `lo`.
fn end_non_ws(v: &Vec<char>, lo: usize) -> (j: usize)
    requires
        lo <= v.len(),
    ensures
        lo <= j <= v.len(),
        forall|k: int| j <= k < v.len() ==> is_ws(v@[k]),
        j > lo ==> !is_ws(v@[j - 1]),
{
    let mut j: usize = v.len();
    while j > lo && is_whitespace(v[j - 1])
        invariant
            lo <= j <= v.len(),
            forall|k: int| j <= k < v.len() ==> is_ws(v@[k]),
        decreases j,
    {
        j = j - 1;
    }
    j
}

proof fn lemma_trim_start_exact(v: Seq<char>, i: int)
    requires
        0 <= i <= v.len(),
        forall|k: int| 0 <= k < i ==> is_ws(v[k]),
        i < v.len() ==> !is_ws(v[i]),
    ensures
        trim_start_seq(v) == v.skip(i),
{
    lemma_trim_start_skip(v, i);
    let t = v.skip(i);
    if t.len() > 0 {
        assert(t[0] == v[i]);
    }
}

proof fn lemma_trim_end_exact(v: Seq<char>, j: int)
    requires
        0 <= j <= v.len(),
        forall|k: int| j <= k < v.len() ==> is_ws(v[k]),
        j > 0 ==> !is_ws(v[j - 1]),
    ensures
        trim_end_seq(v) == v.take(j),
{
    lemma_trim_end_take(v, j);
    let t = v.take(j);
    if t.len() > 0 {
        assert(t.last() == v[j - 1]);
    }
}

/// Trim whitespace from both ends.
pub fn trim(s: &str) -> (r: String)
    ensures
        r@ == trim_seq(s@),
{
    let v = chars_of(s);
    let i = first_non_ws(&v);
    let j = end_non_ws(&v, i);
    proof {
        lemma_trim_start_exact(v@, i as int);
        let t = v@.skip(i as int);
        lemma_trim_end_exact(t, j - i);
        assert(t.take(j - i) == v@.subrange(i as int, j as int));
    }
    string_of_range(&v, i, j)
}

/// Trim whitespace from left.
pub fn trim_left(s: &str) -> (r: String)
    ensures
        r@ == trim_start_seq(s@),
{
    let v = chars_of(s);
    let i = first_non_ws(&v);
    proof {
        lemma_trim_start_exact(v@, i as int);
        assert(v@.skip(i as int) == v@.subrange(i as int, v@.len() as int));
    }
    string_of_range(&v, i, v.len())
}

/// Trim whitespace from right.
pub fn trim_right(s: &str) -> (r: String)
    ensures
        r@ == trim_end_seq(s@),
{
    let v = chars_of(s);
    let j = end_non_ws(&v, 0);
    proof {
        lemma_trim_end_exact(v@, j as int);
        assert(v@.take(j as int) == v@.subrange(0, j as int));
    }
    string_of_range(&v, 0, j)
}

/// Split string by delimiter.
pub fn split(s: &str, delim: &str) -> (r: Vec<String>)
    ensures
        views(r@) == split_seq(s@, delim@),
{
    let v = chars_of(s);
    let p = chars_of(delim);
    let mut out: Vec<String> = Vec::new();
    if p.len() == 0 {
        out.push(String::new());
        let mut i: usize = 0;
        while i < v.len()
            invariant
                i <= v.len(),
                views(out@) == seq![Seq::<char>::empty()] + Seq::new(
                    i as nat,
                    |k: int| seq![v@[k]],
                ),
            decreases v.len() - i,
        {
            let piece = string_of_range(&v, i, i + 1);
            let ghost before = views(out@);
            out.push(piece);
            proof {
                assert(piece@ =~= seq![v@[i as int]]);
                assert(views(out@) == before.push(piece@));
                assert(views(out@) =~= seq![Seq::<char>::empty()] + Seq::new(
                    (i + 1) as nat,
                    |k: int| seq![v@[k]],
                ));
            }
            i = i + 1;
        }
        out.push(String::new());
        proof {
            assert(views(out@) == split_seq(s@, delim@));
        }
        return out;
    }
    let mut start: usize = 0;
    loop
        invariant_except_break
            views(out@) + split_from(v@, p@, start as int) == split_from(v@, p@, 0),
        invariant
            p.len() > 0,
            start <= v.len(),
        ensures
            views(out@) == split_from(v@, p@, 0),
        decreases v.len() - start,
    {
        proof {
            lemma_find_from(v@, p@, start as int);
        }
        match find_from_exec(&v, &p, start) {
            None => {
                let piece = string_of_range(&v, start, v.len());
                let ghost before = views(out@);
                out.push(piece);
                proof {
                    assert(views(out@) == before.push(piece@));
                    assert(views(out@) =~= before + split_from(v@, p@, start as int));
                }
                break ;
            },
            Some(i) => {
                let piece = string_of_range(&v, start, i);
                let ghost before = views(out@);
                out.push(piece);
                proof {
                    assert(views(out@) == before.push(piece@));
                    assert(before + split_from(v@, p@, start as int) =~= views(out@)
                        + split_from(v@, p@, i + p.len()));
                }
                start = i + p.len();
            },
        }
    }
    out
}

/// Join strings with delimiter.
pub fn join(parts: &[String], delim: &str) -> (r: String)
    ensures
        r@ == seq_join(views(parts@), delim@),
{
    let mut r = String::new();
    let ghost all = views(parts@);
    let mut i: usize = 0;
    while i < parts.len()
        invariant
            i <= parts.len(),
            all == views(parts@),
            r@ == seq_join(all.take(i as int), delim@),
        decreases parts.len() - i,
    {
        let ghost prev = all.take(i as int);
        if i != 0 {
            push_str(&mut r, delim);
        }
        push_str(&mut r, parts[i].as_str());
        proof {
            assert(all.take(i + 1).drop_last() == prev);
            assert(all.take(i + 1).last() == parts@[i as int]@);
            if i == 0 {
                assert(all.take(1).len() == 1);
            }
        }
        i = i + 1;
    }
    proof {
        assert(all.take(parts.len() as int) == all);
    }
    r
}

/// Replace first occurrence.
pub fn replace(s: &str, from: &str, to: &str) -> (r: String)
    ensures
        r@ == replace_first_seq(s@, from@, to@),
{
    let v = chars_of(s);
    let p = chars_of(from);
    match find_from_exec(&v, &p, 0) {
        None => string_of_chars(&v),
        Some(i) => {
            proof {
                lemma_find_from(v@, p@, 0);
                assert(occurs_at(v@, p@, i as int));
            }
            let mut r = string_of_range(&v, 0, i);
            push_str(&mut r, to);
            let rest = string_of_range(&v, i + p.len(), v.len());
            push_str(&mut r, rest.as_str());
            r
        },
    }
}

/// Replace all occurrences.
pub fn replace_all(s: &str, from: &str, to: &str) -> (r: String)
    ensures
        r@ == replace_all_seq(s@, from@, to@),
{
    let pieces = split(s, from);
    join(pieces.as_slice(), to)
}

/// Whether `p` is a prefix of `v`.
fn vec_starts_with(v: &Vec<char>, p: &Vec<char>) -> (b: bool)
    ensures
        b == has_prefix(v@, p@),
{
    occurs_at_exec(v, p, 0)
}

/// Check if string starts with prefix.
pub fn starts_with(s: &str, prefix: &str) -> (b: bool)
    ensures
        b == has_prefix(s@, prefix@),
{
    let v = chars_of(s);
    let p = chars_of(prefix);
    vec_starts_with(&v, &p)
}

/// Check if string ends with suffix.
pub fn ends_with(s: &str, suffix: &str) -> (b: bool)
    ensures
        b == has_suffix(s@, suffix@),
{
    let v = chars_of(s);
    let p = chars_of(suffix);
    if p.len() > v.len() {
        return false;
    }
    occurs_at_exec(&v, &p, v.len() - p.len())
}

/// Check if string contains substring.
pub fn contains(s: &str, pattern: &str) -> (b: bool)
    ensures
        b == has_infix(s@, pattern@),
{
    let v = chars_of(s);
    let p = chars_of(pattern);
    proof {
        lemma_find_from(v@, p@, 0);
    }
    match find_from_exec(&v, &p, 0) {
        Some(_) => true,
        None => false,
    }
}

/// Capitalize first letter.
pub fn capitalize(s: &str) -> (r: String)
    ensures
        r@ == capitalize_seq(s@),
{
    let v = chars_of(s);
    if v.len() == 0 {
        return String::new();
    }
    let mut r = char_to_uppercase(v[0]);
    let ghost head = r@;
    let ghost tail = v@.drop_first();
    let mut i: usize = 1;
    while i < v.len()
        invariant
            1 <= i <= v.len(),
            tail == v@.drop_first(),
            r@ == head + lower_each(tail.take(i - 1)),
        decreases v.len() - i,
    {
        let low = char_to_lowercase(v[i]);
        push_str(&mut r, low.as_str());
        proof {
            assert(tail.take(i as int).drop_last() == tail.take(i - 1));
            assert(tail.take(i as int).last() == v@[i as int]);
        }
        i = i + 1;
    }
    proof {
        assert(tail.take(v.len() - 1) == tail);
    }
    r
}

/// Repeat string n times.
pub fn repeat(s: &str, count: usize) -> (r: String)
    requires
        s.spec_bytes().len() * count <= usize::MAX,
    ensures
        r@ == repeat_seq(s@, count as nat),
{
    let mut r = String::new();
    let mut k: usize = 0;
    while k < count
        invariant
            k <= count,
            r@ == repeat_seq(s@, k as nat),
        decreases count - k,
    {
        push_str(&mut r, s);
        k = k + 1;
    }
    r
}

/// Get substring from start to end.
pub fn slice(s: &str, start: usize, end: usize) -> (r: String)
    requires
        start <= end,
    ensures
        r@ == slice_seq(s@, start as int, end as int),
{
    let v = chars_of(s);
    let lo = if start < v.len() {
        start
    } else {
        v.len()
    };
    let hi = if end < v.len() {
        end
    } else {
        v.len()
    };
    string_of_range(&v, lo, hi)
}

/// Reverse string.
pub fn reverse(s: &str) -> (r: String)
    ensures
        r@ == s@.reverse(),
{
    let v = chars_of(s);
    let mut r = String::new();
    let mut i: usize = v.len();
    while i > 0
        invariant
            i <= v.len(),
            r@ == v@.subrange(i as int, v@.len() as int).reverse(),
        decreases i,
    {
        push_char(&mut r, v[i - 1]);
        proof {
            assert(v@.subrange(i - 1, v@.len() as int).reverse() =~= v@.subrange(
                i as int,
                v@.len() as int,
            ).reverse().push(v@[i - 1]));
        }
        i = i - 1;
    }
    proof {
        assert(v@.subrange(0, v@.len() as int) == v@);
    }
    r
}

/// `n` copies of `ch`.
pub(crate) fn fill(ch: char, n: usize) -> (r: String)
    ensures
        r@ == Seq::new(n as nat, |i: int| ch),
{
    let mut r = String::new();
    let mut k: usize = 0;
    while k < n
        invariant
            k <= n,
            r@ == Seq::new(k as nat, |i: int| ch),
        decreases n - k,
    {
        push_char(&mut r, ch);
        proof {
            assert(r@ =~= Seq::new((k + 1) as nat, |i: int| ch));
        }
        k = k + 1;
    }
    r
}

/// Pad left with character: `ch` repeated up to `width` characters, then
/// `s` unchanged.
pub fn pad_left(s: &str, width: usize, ch: char) -> (r: String)
    ensures
        r@ == padded_start(s@, width as nat, ch),
{
    let n = chars_of(s).len();
    if n >= width {
        return crate::strlist::owned(s);
    }
    let mut r = fill(ch, width - n);
    push_str(&mut r, s);
    r
}

/// Pad right with character: `s` unchanged, then `ch` repeated up to
/// `width` characters.
pub fn pad_right(s: &str, width: usize, ch: char) -> (r: String)
    ensures
        r@ == padded_end(s@, width as nat, ch),
{
    let n = chars_of(s).len();
    let mut r = crate::strlist::owned(s);
    if n >= width {
        return r;
    }
    let f = fill(ch, width - n);
    push_str(&mut r, f.as_str());
    r
}

/// Get string length.
pub fn len(s: &str) -> (n: usize)
    ensures
        n == s@.len(),
{
    chars_of(s).len()
}

/// Check if string is empty.
pub fn is_empty(s: &str) -> (b: bool)
    ensures
        b == (trim_seq(s@).len() == 0),
{
    let t = trim(s);
    chars_of(t.as_str()).len() == 0
}

// ---------------------------------------------------------------------
// Laws
// ---------------------------------------------------------------------

/// Reversing a string twice gives the string back.
pub proof fn law_reverse_twice(s: Seq<char>)
    ensures
        s.reverse().reverse() == s,
{
    assert(s.reverse().reverse() =~= s);
}

/// Joining a single piece gives the piece.
proof fn lemma_join_one(x: Seq<char>, sep: Seq<char>)
    ensures
        seq_join(seq![x], sep) == x,
{
    assert(seq![x].len() == 1);
}

/// Joining a piece in front of a non-empty list puts the separator
/// between them.
proof fn lemma_join_prepend(x: Seq<char>, rest: Seq<Seq<char>>, sep: Seq<char>)
    requires
        rest.len() > 0,
    ensures
        seq_join(seq![x] + rest, sep) == x + sep + seq_join(rest, sep),
    decreases rest.len(),
{
    let all = seq![x] + rest;
    if rest.len() == 1 {
        assert(all.drop_last() =~= seq![x]);
        assert(all.last() == rest[0]);
        lemma_join_one(x, sep);
        assert(seq_join(rest, sep) == rest[0]);
    } else {
        assert(all.drop_last() =~= seq![x] + rest.drop_last());
        lemma_join_prepend(x, rest.drop_last(), sep);
        assert(seq_join(rest, sep) == seq_join(rest.drop_last(), sep) + sep + rest.last());
        assert(seq_join(all, sep) == seq_join(all.drop_last(), sep) + sep + all.last());
        assert(x + sep + seq_join(rest, sep) =~= (x + sep + seq_join(rest.drop_last(), sep)) + sep
            + rest.last());
    }
}

/// The pieces of `s[start..]` are never an empty list.
proof fn lemma_split_from_nonempty(s: Seq<char>, p: Seq<char>, start: int)
    requires
        p.len() > 0,
        0 <= start <= s.len(),
    ensures
        split_from(s, p, start).len() > 0,
    decreases s.len() - start,
{
    lemma_find_from(s, p, start);
    match find_from(s, p, start) {
        None => {},
        Some(i) => {
            if i + p.len() <= s.len() {
                lemma_split_from_nonempty(s, p, i + p.len());
            }
        },
    }
}

/// Joining the pieces of `s[start..]` with the pattern rebuilds it.
proof fn lemma_join_split_from(s: Seq<char>, p: Seq<char>, start: int)
    requires
        p.len() > 0,
        0 <= start <= s.len(),
    ensures
        seq_join(split_from(s, p, start), p) == s.subrange(start, s.len() as int),
    decreases s.len() - start,
{
    lemma_find_from(s, p, start);
    match find_from(s, p, start) {
        None => {
            lemma_join_one(s.subrange(start, s.len() as int), p);
        },
        Some(i) => {
            let next = i + p.len();
            lemma_join_split_from(s, p, next);
            lemma_split_from_nonempty(s, p, next);
            lemma_join_prepend(s.subrange(start, i), split_from(s, p, next), p);
            assert(s.subrange(i, next) == p);
            assert(s.subrange(start, i) + p + s.subrange(next, s.len() as int) =~= s.subrange(
                start,
                s.len() as int,
            ));
        },
    }
}

/// Joining what `split` gives with the same non-empty delimiter gives the
/// string back.
pub proof fn law_join_split(s: Seq<char>, delim: Seq<char>)
    requires
        delim.len() > 0,
    ensures
        seq_join(split_seq(s, delim), delim) == s,
{
    lemma_join_split_from(s, delim, 0);
    assert(s.subrange(0, s.len() as int) =~= s);
}

/// Replacing a pattern that does not occur leaves the string unchanged.
pub proof fn law_replace_all_absent(s: Seq<char>, from: Seq<char>, to: Seq<char>)
    requires
        from.len() > 0,
        !has_infix(s, from),
    ensures
        replace_all_seq(s, from, to) == s,
{
    lemma_find_from(s, from, 0);
    assert(find_from(s, from, 0) is None) by {
        if find_from(s, from, 0) is Some {
            assert(occurs_at(s, from, find_from(s, from, 0)->0));
        }
    }
    assert(s.subrange(0, s.len() as int) =~= s);
    lemma_join_one(s, to);
}

/// What remains after stripping leading whitespace starts with a
/// character that is not whitespace.
proof fn lemma_trim_start_shape(s: Seq<char>)
    ensures
        trim_start_seq(s).len() > 0 ==> !is_ws(trim_start_seq(s)[0]),
        trim_start_seq(s).len() <= s.len(),
        exists|k: int| 0 <= k <= s.len() && trim_start_seq(s) == s.skip(k),
    decreases s.len(),
{
    if s.len() > 0 && is_ws(s[0]) {
        lemma_trim_start_shape(s.drop_first());
        let k = choose|k: int|
            0 <= k <= s.drop_first().len() && trim_start_seq(s.drop_first()) == s.drop_first().skip(k);
        assert(s.drop_first().skip(k) =~= s.skip(k + 1));
    } else {
        assert(s.skip(0) =~= s);
    }
}

/// What remains after stripping trailing whitespace is a prefix that
/// ends with a character that is not whitespace.
proof fn lemma_trim_end_shape(s: Seq<char>)
    ensures
        trim_end_seq(s).len() > 0 ==> !is_ws(trim_end_seq(s).last()),
        trim_end_seq(s).len() <= s.len(),
        trim_end_seq(s) == s.take(trim_end_seq(s).len() as int),
    decreases s.len(),
{
    if s.len() > 0 && is_ws(s.last()) {
        lemma_trim_end_shape(s.drop_last());
        let t = trim_end_seq(s.drop_last());
        assert(s.drop_last().take(t.len() as int) =~= s.take(t.len() as int));
    } else {
        assert(s.take(s.len() as int) =~= s);
    }
}

/// Trimming a string twice is trimming it once.
pub proof fn law_trim_idempotent(s: Seq<char>)
    ensures
        trim_seq(trim_seq(s)) == trim_seq(s),
{
    let a = trim_start_seq(s);
    let t = trim_end_seq(a);
    lemma_trim_start_shape(s);
    lemma_trim_end_shape(a);
    // `t` is a prefix of `a`, so it starts where `a` does.
    if t.len() > 0 {
        assert(t[0] == a[0]);
        assert(trim_start_seq(t) == t);
    } else {
        assert(trim_start_seq(t) == t);
    }
    if t.len() > 0 {
        assert(trim_end_seq(t) == t);
    } else {
        assert(trim_end_seq(t) == t);
    }
}

/// A padded string is as long as the width, or as the string when it is
/// longer.
pub proof fn law_pad_length(s: Seq<char>, width: nat, ch: char)
    ensures
        padded_start(s, width, ch).len() == if width > s.len() {
            width
        } else {
            s.len()
        },
        padded_end(s, width, ch).len() == if width > s.len() {
            width
        } else {
            s.len()
        },
{
}

} // verus!
