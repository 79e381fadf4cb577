//! Paths as the gateway sees them: texts whose segments are separated by `/`.
//!
//! Remote paths always use `/`, whatever the machine the gateway runs on, so
//! segments, file names and extensions are defined here on characters.

use vstd::prelude::*;

verus! {

/// The position of the last `c` in `s`, or -1 if `s` holds none.
pub open spec fn last_position(s: Seq<char>, c: char) -> int
    decreases s.len(),
{
    if s.len() == 0 {
        -1
    } else if s.last() == c {
        s.len() - 1
    } else {
        last_position(s.drop_last(), c)
    }
}

/// The part of `p` after its last `/`; all of `p` if it holds none.
pub open spec fn last_segment(p: Seq<char>) -> Seq<char> {
    p.skip(last_position(p, '/') + 1)
}

/// The name of the file or directory that `p` ends in: its last segment,
/// where empty segments and `.` segments do not count. There is none if no
/// segment is left, or if the one found is `..`.
pub open spec fn file_name(p: Seq<char>) -> Option<Seq<char>>
    decreases p.len(),
{
    if p.len() == 0 {
        None
    } else if p.last() == '/' || last_segment(p) == seq!['.'] {
        file_name(p.drop_last())
    } else if last_segment(p) == seq!['.', '.'] {
        None
    } else {
        Some(last_segment(p))
    }
}

/// The extension of a file name: what follows its last `.`, unless that `.`
/// is the name's first character or the name holds none.
pub open spec fn name_extension(name: Seq<char>) -> Seq<char> {
    if last_position(name, '.') <= 0 {
        Seq::empty()
    } else {
        name.skip(last_position(name, '.') + 1)
    }
}

/// The extension of the file that `p` names; empty if there is none.
pub open spec fn extension_of(p: Seq<char>) -> Seq<char> {
    match file_name(p) {
        Some(name) => name_extension(name),
        None => Seq::empty(),
    }
}

/// `rel` resolved against `base`: `rel` itself if it starts at the root,
/// otherwise `base` and `rel` with exactly one `/` between them when `base`
/// is not empty.
pub open spec fn join(base: Seq<char>, rel: Seq<char>) -> Seq<char> {
    if rel.len() > 0 && rel[0] == '/' {
        rel
    } else if base.len() == 0 || base.last() == '/' {
        base + rel
    } else {
        base.push('/') + rel
    }
}

/// `p` ends in `/`.
pub open spec fn ends_with_slash(p: Seq<char>) -> bool {
    p.len() > 0 && p.last() == '/'
}

/// `p` as an absolute path: unchanged if it already starts with `/`,
/// otherwise with a `/` put in front.
pub open spec fn rooted(p: Seq<char>) -> Seq<char> {
    if p.len() > 0 && p[0] == '/' {
        p
    } else {
        seq!['/'] + p
    }
}

/// The last `c` of `s` stands at `i` when `s` holds `c` at `i` and none
/// behind it; there is none when `s` holds no `c` at all (`i` is -1).
pub proof fn lemma_last_position_at(s: Seq<char>, c: char, i: int)
    requires
        -1 <= i < s.len(),
        i >= 0 ==> s[i] == c,
        forall|j: int| i < j < s.len() ==> s[j] != c,
    ensures
        last_position(s, c) == i,
    decreases s.len(),
{
    if i < s.len() - 1 {
        lemma_last_position_at(s.drop_last(), c, i);
    }
}

/// The last segment of `p` starts at `start` when no `/` follows `start` and
/// one stands just before it (or `start` is 0).
pub proof fn lemma_last_segment_from(p: Seq<char>, start: int)
    requires
        0 <= start <= p.len(),
        start == 0 || p[start - 1] == '/',
        forall|i: int| start <= i < p.len() ==> p[i] != '/',
    ensures
        last_segment(p) == p.skip(start),
{
    lemma_last_position_at(p, '/', start - 1);
}

/// The name of the file or directory that `p` ends in, if it ends in one.
pub fn compute_file_name(p: &Vec<char>) -> (name: Option<Vec<char>>)
    ensures
        match name {
            Some(n) => file_name(p@) == Some(n@),
            None => file_name(p@) is None,
        },
{
    let mut end: usize = p.len();
    assert(p@.take(end as int) =~= p@);
    while end > 0
        invariant
            end <= p.len(),
            file_name(p@) == file_name(p@.take(end as int)),
        decreases end,
    {
        let ghost cur = p@.take(end as int);
        assert(cur.drop_last() =~= p@.take(end - 1));
        if p[end - 1] == '/' {
            end -= 1;
        } else {
            let mut start: usize = end - 1;
            while start > 0 && p[start - 1] != '/'
                invariant
                    start < end <= p.len(),
                    forall|i: int| start <= i < end ==> p@[i] != '/',
                decreases start,
            {
                start -= 1;
            }
            proof {
                lemma_last_segment_from(cur, start as int);
                assert(cur.skip(start as int) =~= p@.subrange(start as int, end as int));
            }
            let len = end - start;
            if len == 1 && p[start] == '.' {
                assert(p@.subrange(start as int, end as int) =~= seq!['.']);
                end -= 1;
            } else if len == 2 && p[start] == '.' && p[start + 1] == '.' {
                assert(p@.subrange(start as int, end as int) =~= seq!['.', '.']);
                return None;
            } else {
                let mut name: Vec<char> = Vec::new();
                let mut i: usize = start;
                while i < end
                    invariant
                        start <= i <= end <= p.len(),
                        name@ == p@.subrange(start as int, i as int),
                    decreases end - i,
                {
                    name.push(p[i]);
                    i += 1;
                }
                proof {
                    let seg = p@.subrange(start as int, end as int);
                    if seg == seq!['.'] {
                        assert(seg.len() == 1 && seg[0] == '.');
                    }
                    if seg == seq!['.', '.'] {
                        assert(seg.len() == 2 && seg[0] == '.' && seg[1] == '.');
                    }
                }
                return Some(name);
            }
        }
    }
    assert(p@.take(0) =~= Seq::<char>::empty());
    None
}

/// The extension of a file name; empty if it has none.
pub fn compute_name_extension(name: &Vec<char>) -> (ext: Vec<char>)
    ensures
        ext@ == name_extension(name@),
{
    let mut dot: usize = name.len();
    assert(name@.take(dot as int) =~= name@);
    while dot > 0 && name[dot - 1] != '.'
        invariant
            dot <= name.len(),
            last_position(name@, '.') == last_position(name@.take(dot as int), '.'),
        decreases dot,
    {
        assert(name@.take(dot as int).drop_last() =~= name@.take(dot - 1));
        dot -= 1;
    }
    let mut ext: Vec<char> = Vec::new();
    if dot <= 1 {
        assert(name@.take(0) =~= Seq::<char>::empty());
        return ext;
    }
    let mut i: usize = dot;
    while i < name.len()
        invariant
            dot <= i <= name.len(),
            ext@ == name@.subrange(dot as int, i as int),
        decreases name.len() - i,
    {
        ext.push(name[i]);
        i += 1;
    }
    assert(name@.subrange(dot as int, name.len() as int) =~= name@.skip(dot as int));
    ext
}

/// The extension of the file that `p` names; empty if there is none.
pub fn compute_extension(p: &Vec<char>) -> (ext: Vec<char>)
    ensures
        ext@ == extension_of(p@),
{
    match compute_file_name(p) {
        Some(name) => compute_name_extension(&name),
        None => Vec::new(),
    }
}

/// `rel` resolved against `base`.
pub fn compute_join(base: &Vec<char>, rel: &Vec<char>) -> (out: Vec<char>)
    ensures
        out@ == join(base@, rel@),
{
    let mut out: Vec<char> = Vec::new();
    if rel.len() > 0 && rel[0] == '/' {
        crate::text::append_chars(&mut out, rel);
        return out;
    }
    crate::text::append_chars(&mut out, base);
    if base.len() > 0 && base[base.len() - 1] != '/' {
        out.push('/');
    }
    crate::text::append_chars(&mut out, rel);
    out
}

/// Whether `p` ends in `/`.
pub fn compute_ends_with_slash(p: &Vec<char>) -> (r: bool)
    ensures
        r == ends_with_slash(p@),
{
    p.len() > 0 && p[p.len() - 1] == '/'
}

/// `p` as an absolute path.
pub fn compute_rooted(p: &Vec<char>) -> (out: Vec<char>)
    ensures
        out@ == rooted(p@),
{
    let mut out: Vec<char> = Vec::new();
    if !(p.len() > 0 && p[0] == '/') {
        out.push('/');
    }
    crate::text::append_chars(&mut out, p);
    out
}

/// A file directly below `dir` is named by the path that `join` gives:
/// where `name` holds no `/` and is neither empty, `.` nor `..`, the file
/// name of `join(dir, name)` is `name`.
pub proof fn lemma_file_name_of_join(dir: Seq<char>, name: Seq<char>)
    requires
        name.len() > 0,
        forall|i: int| 0 <= i < name.len() ==> name[i] != '/',
        name != seq!['.'],
        name != seq!['.', '.'],
    ensures
        file_name(join(dir, name)) == Some(name),
{
    let p = join(dir, name);
    let start = p.len() - name.len();
    assert(p.skip(start) =~= name);
    lemma_last_segment_from(p, start);
}

} // verus!
