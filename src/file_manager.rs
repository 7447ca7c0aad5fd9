//! Paths as text.
use vstd::prelude::*;
use crate::text::{split_at_char, split_on, views, lemma_split_nonempty};

verus! {

/// How a path segment changes the depth: `.` keeps it, `..` goes up, anything else goes down.
pub open spec fn segment_step(seg: Seq<char>) -> int {
    if seg == "."@ {
        0
    } else if seg == ".."@ {
        -1
    } else {
        1
    }
}

/// The depth changes of the segments, summed.
pub open spec fn level_of(segs: Seq<Seq<char>>) -> int
    decreases segs.len(),
{
    if segs.len() == 0 {
        0
    } else {
        level_of(segs.drop_last()) + segment_step(segs.last())
    }
}

proof fn lemma_split_len(s: Seq<char>, sep: char)
    ensures
        split_on(s, sep).len() <= s.len() + 1,
    decreases s.len(),
{
    if s.len() > 0 {
        lemma_split_len(s.drop_last(), sep);
        lemma_split_nonempty(s.drop_last(), sep);
    }
}

proof fn lemma_level_bound(segs: Seq<Seq<char>>)
    ensures
        -segs.len() <= level_of(segs) <= segs.len(),
    decreases segs.len(),
{
    if segs.len() > 0 {
        lemma_level_bound(segs.drop_last());
    }
}

/// The depth of a path: one per segment between `/`, none for `.`, minus one for `..`.
pub fn dir_level(path: &str) -> (r: isize)
    requires
        path@.len() < isize::MAX,
    ensures
        r == level_of(split_on(path@, '/')),
{
    let segs = split_at_char(path, '/');
    proof {
        lemma_split_len(path@, '/');
    }
    let dot = String::from_str(".");
    let dotdot = String::from_str("..");
    let mut total: isize = 0;
    let mut i: usize = 0;
    while i < segs.len()
        invariant
            views(segs@) == split_on(path@, '/'),
            segs@.len() <= path@.len() + 1,
            path@.len() < isize::MAX,
            dot@ == "."@,
            dotdot@ == ".."@,
            0 <= i <= segs@.len(),
            total == level_of(views(segs@).take(i as int)),
        decreases segs@.len() - i,
    {
        proof {
            assert(views(segs@).take(i as int + 1).drop_last() =~= views(segs@).take(i as int));
            lemma_level_bound(views(segs@).take(i as int));
        }
        if segs[i] == dot {
        } else if segs[i] == dotdot {
            total = total - 1;
        } else {
            total = total + 1;
        }
        i = i + 1;
    }
    proof {
        assert(views(segs@).take(segs@.len() as int) =~= views(segs@));
    }
    total
}

/// `path` as seen from the directory `cwd`: unchanged when it starts with `/`,
/// `cwd` itself when it is empty, else `cwd/path`.
pub open spec fn absolute_of(cwd: Seq<char>, path: Seq<char>) -> Seq<char> {
    if path.len() > 0 && path[0] == '/' {
        path
    } else if path.len() == 0 {
        cwd
    } else {
        cwd + "/"@ + path
    }
}

/// `path` made absolute against the current directory `cwd`.
pub fn absolute(cwd: &str, path: &str) -> (r: String)
    ensures
        r@ == absolute_of(cwd@, path@),
{
    let n = path.unicode_len();
    if n > 0 && path.get_char(0) == '/' {
        String::from_str(path)
    } else if n == 0 {
        String::from_str(cwd)
    } else {
        let mut r = String::from_str(cwd);
        r.append("/");
        r.append(path);
        r
    }
}

} // verus!
