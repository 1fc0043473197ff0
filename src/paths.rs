use vstd::prelude::*;

verus! {

/// `p` without the separators at its end.
pub open spec fn trim_end_seps(p: Seq<char>) -> Seq<char>
    decreases p.len(),
{
    if p.len() > 0 && p.last() == '/' {
        trim_end_seps(p.drop_last())
    } else {
        p
    }
}

/// The characters of `p` after its last separator (all of `p` when it has none).
pub open spec fn last_segment(p: Seq<char>) -> Seq<char>
    decreases p.len(),
{
    if p.len() == 0 || p.last() == '/' {
        Seq::empty()
    } else {
        last_segment(p.drop_last()).push(p.last())
    }
}

/// The last component of a path, trailing separators ignored; none for an
/// empty path, the root, `.` and `..`.
pub open spec fn file_name_of(p: Seq<char>) -> Option<Seq<char>> {
    let s = last_segment(trim_end_seps(p));
    if s.len() == 0 || s == seq!['.'] || s == seq!['.', '.'] {
        None
    } else {
        Some(s)
    }
}

/// The name shown for a path: its last component, or the whole path where it
/// has none.
pub open spec fn name_of(p: Seq<char>) -> Seq<char> {
    match file_name_of(p) {
        Some(n) => n,
        None => p,
    }
}

/// `name` appended to `dir` with one separator between them; an absolute
/// `name` replaces `dir`.
pub open spec fn join_of(dir: Seq<char>, name: Seq<char>) -> Seq<char> {
    if name.len() > 0 && name[0] == '/' {
        name
    } else if dir.len() == 0 || dir.last() == '/' {
        dir + name
    } else {
        dir + seq!['/'] + name
    }
}

/// The path with its last component removed; none for an empty path and the
/// root.
pub open spec fn parent_of(p: Seq<char>) -> Option<Seq<char>> {
    let t = trim_end_seps(p);
    if t.len() == 0 {
        None
    } else {
        let rest = t.subrange(0, t.len() - last_segment(t).len());
        let r = trim_end_seps(rest);
        if r.len() == 0 && rest.len() > 0 {
            Some(seq!['/'])
        } else {
            Some(r)
        }
    }
}

/// The end of `s[0..upto]` once its trailing separators are dropped.
fn trimmed_end(s: &str, upto: usize) -> (e: usize)
    requires
        upto <= s@.len(),
    ensures
        e <= upto,
        trim_end_seps(s@.subrange(0, upto as int)) == s@.subrange(0, e as int),
{
    let mut e: usize = upto;
    while e > 0 && s.get_char(e - 1) == '/'
        invariant
            e <= upto <= s@.len(),
            trim_end_seps(s@.subrange(0, upto as int)) == trim_end_seps(s@.subrange(0, e as int)),
        decreases e,
    {
        assert(s@.subrange(0, e as int).drop_last() =~= s@.subrange(0, e - 1));
        e = e - 1;
    }
    e
}

/// The start of the last segment of `s[0..e]`.
fn segment_start(s: &str, e: usize) -> (b: usize)
    requires
        e <= s@.len(),
    ensures
        b <= e,
        last_segment(s@.subrange(0, e as int)) == s@.subrange(b as int, e as int),
{
    let mut b: usize = e;
    assert(last_segment(s@.subrange(0, e as int)) + s@.subrange(e as int, e as int)
        =~= last_segment(s@.subrange(0, e as int)));
    while b > 0 && s.get_char(b - 1) != '/'
        invariant
            b <= e <= s@.len(),
            last_segment(s@.subrange(0, e as int)) == last_segment(s@.subrange(0, b as int))
                + s@.subrange(b as int, e as int),
        decreases b,
    {
        let ghost q = s@.subrange(0, b as int);
        assert(q.drop_last() =~= s@.subrange(0, b - 1));
        assert(last_segment(s@.subrange(0, b - 1)).push(s@[b - 1]) + s@.subrange(
            b as int,
            e as int,
        ) =~= last_segment(s@.subrange(0, b - 1)) + s@.subrange(b - 1, e as int));
        b = b - 1;
    }
    assert(last_segment(s@.subrange(0, b as int)) + s@.subrange(b as int, e as int)
        =~= s@.subrange(b as int, e as int));
    b
}

/// Joins `name` onto `dir`, as a path push does.
pub fn join_path(dir: &str, name: &str) -> (r: String)
    ensures
        r@ == join_of(dir@, name@),
{
    let nl = name.unicode_len();
    if nl > 0 && name.get_char(0) == '/' {
        return String::from_str(name);
    }
    let dl = dir.unicode_len();
    let mut r = String::from_str(dir);
    if dl == 0 || dir.get_char(dl - 1) == '/' {
        r.append(name);
    } else {
        proof {
            reveal_strlit("/");
        }
        r.append("/");
        r.append(name);
    }
    r
}

/// The last component of `path`, if it has one.
pub fn file_name(path: &str) -> (r: Option<String>)
    ensures
        r is Some <==> file_name_of(path@) is Some,
        r is Some ==> r->0@ == file_name_of(path@)->0,
{
    let n = path.unicode_len();
    let e = trimmed_end(path, n);
    let b = segment_start(path, e);
    proof {
        assert(path@.subrange(0, n as int) =~= path@);
    }
    let ghost seg = path@.subrange(b as int, e as int);
    if e == b {
        return None;
    }
    if e - b == 1 && path.get_char(b) == '.' {
        assert(seg =~= seq!['.']);
        return None;
    }
    if e - b == 2 && path.get_char(b) == '.' && path.get_char(b + 1) == '.' {
        assert(seg =~= seq!['.', '.']);
        return None;
    }
    assert(seg != seq!['.']) by {
        if seg == seq!['.'] {
            assert(seg[0] == '.');
        }
    }
    assert(seg != seq!['.', '.']) by {
        if seg == seq!['.', '.'] {
            assert(seg[0] == '.' && seg[1] == '.');
        }
    }
    Some(String::from_str(path.substring_char(b, e)))
}

/// The name of `path`: its last component, or the whole path where it has none.
pub fn get_path_name(path: &str) -> (r: String)
    ensures
        r@ == name_of(path@),
{
    match file_name(path) {
        Some(n) => n,
        None => String::from_str(path),
    }
}

/// The path of `path` relative to its parent: its last component, or the whole
/// path where it has none.
pub fn get_rel_path(path: &str) -> (r: String)
    ensures
        r@ == name_of(path@),
{
    get_path_name(path)
}

/// `path` as an owned string.
pub fn get_string_from_path(path: &str) -> (r: String)
    ensures
        r@ == path@,
{
    String::from_str(path)
}

/// The parent of `path`, if it has one.
pub fn parent_path(path: &str) -> (r: Option<String>)
    ensures
        r is Some <==> parent_of(path@) is Some,
        r is Some ==> r->0@ == parent_of(path@)->0,
{
    let n = path.unicode_len();
    let e = trimmed_end(path, n);
    proof {
        assert(path@.subrange(0, n as int) =~= path@);
    }
    if e == 0 {
        return None;
    }
    let b = segment_start(path, e);
    let ghost t = path@.subrange(0, e as int);
    proof {
        assert(t.subrange(0, t.len() - last_segment(t).len()) =~= path@.subrange(0, b as int));
    }
    let e2 = trimmed_end(path, b);
    if e2 == 0 && b > 0 {
        proof {
            reveal_strlit("/");
        }
        assert(path@.subrange(0, e2 as int).len() == 0);
        return Some(String::from_str("/"));
    }
    Some(String::from_str(path.substring_char(0, e2)))
}

} // verus!
