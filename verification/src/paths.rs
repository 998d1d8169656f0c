//! Unix paths as text: components between slashes.

use vstd::prelude::*;
use vstd::string::*;
use crate::text::{
    cat2, cat3, chars_of, lemma_texts_push, opt_str, opt_text, pieces, same, split, text_of, texts,
};

verus! {

/// `base` with `part` below it: an absolute `part` stands alone, and a slash is put between
/// the two where `base` does not end in one.
pub open spec fn joined_path(base: Seq<char>, part: Seq<char>) -> Seq<char> {
    if part.len() > 0 && part[0] == '/' {
        part
    } else if base.len() == 0 || base.last() == '/' {
        base + part
    } else {
        base + "/"@ + part
    }
}

pub fn join(base: &str, part: &str) -> (r: String)
    ensures
        r@ == joined_path(base@, part@),
{
    let p = chars_of(part);
    if p.len() > 0 && p[0] == '/' {
        return part.to_owned();
    }
    let b = chars_of(base);
    if b.len() == 0 || b[b.len() - 1] == '/' {
        cat2(base, part)
    } else {
        cat3(base, "/", part)
    }
}

/// The pieces that name something: not the empty ones between doubled slashes, and not the
/// dot that stands for the directory itself.
pub open spec fn named(p: Seq<Seq<char>>) -> Seq<Seq<char>>
    decreases p.len(),
{
    if p.len() == 0 {
        Seq::empty()
    } else if p.last().len() == 0 || p.last() == "."@ {
        named(p.drop_last())
    } else {
        named(p.drop_last()).push(p.last())
    }
}

/// The components of a path, without the root.
pub open spec fn components_of(path: Seq<char>) -> Seq<Seq<char>> {
    named(pieces(path, '/'))
}

pub fn components(path: &str) -> (r: Vec<String>)
    ensures
        texts(r@) == components_of(path@),
{
    let p = split(path, '/');
    let ghost all = pieces(path@, '/');
    let mut out: Vec<String> = Vec::new();
    let mut i: usize = 0;
    assert(all.take(0) =~= Seq::<Seq<char>>::empty());
    assert(texts(out@) =~= Seq::<Seq<char>>::empty());
    while i < p.len()
        invariant
            i <= p.len(),
            texts(p@) == all,
            texts(out@) == named(all.take(i as int)),
        decreases p.len() - i,
    {
        assert(all.take(i + 1).drop_last() =~= all.take(i as int));
        assert(all.take(i + 1).last() == p@[i as int]@);
        if !p[i].as_str().is_empty() && !same(p[i].as_str(), ".") {
            proof {
                lemma_texts_push(out@, p@[i as int]);
            }
            out.push(p[i].clone());
        }
        i = i + 1;
    }
    assert(all.take(i as int) =~= all);
    out
}

/// The last component, when it names something below its parent.
pub open spec fn file_name_of(path: Seq<char>) -> Option<Seq<char>> {
    let c = components_of(path);
    if c.len() == 0 || c.last() == ".."@ {
        None
    } else {
        Some(c.last())
    }
}

pub fn file_name(path: &str) -> (r: Option<String>)
    ensures
        opt_text(r) == file_name_of(path@),
{
    let mut c = components(path);
    assert(texts(c@).len() == c.len());
    if c.len() == 0 {
        return None;
    }
    let n: usize = c.len() - 1;
    assert(texts(c@)[n as int] == c@[n as int]@);
    if same(c[n].as_str(), "..") {
        None
    } else {
        Some(c[n].clone())
    }
}

/// The last component, or the whole path when there is none.
pub open spec fn name_or_path(path: Seq<char>) -> Seq<char> {
    match file_name_of(path) {
        Some(n) => n,
        None => path,
    }
}

pub fn display_name(path: &str) -> (r: String)
    ensures
        r@ == name_or_path(path@),
{
    match file_name(path) {
        Some(n) => n,
        None => path.to_owned(),
    }
}

/// A path without slashes and dots that stand for the directory itself at its end; a lone
/// slash is the root and stays.
pub open spec fn tail_trimmed(p: Seq<char>) -> Seq<char>
    decreases p.len(),
{
    if p.len() > 1 && p.last() == '/' {
        tail_trimmed(p.drop_last())
    } else if p.len() > 1 && p.last() == '.' && p[p.len() - 2] == '/' {
        tail_trimmed(p.drop_last())
    } else {
        p
    }
}

/// How many characters of `p` stand before its last slash; `None` when it has none.
pub open spec fn last_slash(p: Seq<char>) -> Option<nat>
    decreases p.len(),
{
    if p.len() == 0 {
        None
    } else if p.last() == '/' {
        Some((p.len() - 1) as nat)
    } else {
        last_slash(p.drop_last())
    }
}

/// The directory that holds what a path names; the root and the empty path have none.
pub open spec fn parent_of(path: Seq<char>) -> Option<Seq<char>> {
    let t = tail_trimmed(path);
    if t.len() == 0 || t == "/"@ {
        None
    } else {
        match last_slash(t) {
            None => Some(Seq::empty()),
            Some(i) => if i == 0 {
                Some("/"@)
            } else {
                Some(tail_trimmed(t.take(i as int)))
            },
        }
    }
}

proof fn lemma_last_slash(p: Seq<char>)
    ensures
        match last_slash(p) {
            Some(i) => i < p.len(),
            None => true,
        },
    decreases p.len(),
{
    if p.len() > 0 {
        lemma_last_slash(p.drop_last());
    }
}

proof fn lemma_tail_trimmed(p: Seq<char>)
    ensures
        tail_trimmed(p).len() <= p.len(),
        p.len() > 0 ==> tail_trimmed(p).len() > 0,
    decreases p.len(),
{
    if p.len() > 1 && (p.last() == '/' || (p.last() == '.' && p[p.len() - 2] == '/')) {
        lemma_tail_trimmed(p.drop_last());
    }
}

/// The directory that holds something is the shorter path.
pub proof fn lemma_parent_shorter(path: Seq<char>)
    ensures
        parent_of(path) matches Some(p) ==> p.len() < path.len(),
{
    reveal_strlit("/");
    let t = tail_trimmed(path);
    lemma_tail_trimmed(path);
    lemma_last_slash(t);
    match last_slash(t) {
        Some(i) => {
            if i == 0 {
                lemma_first_slash(t);
                if t.len() == 1 {
                    assert(t =~= "/"@);
                }
            } else {
                lemma_tail_trimmed(t.take(i as int));
            }
        },
        None => {},
    }
}

proof fn lemma_first_slash(t: Seq<char>)
    requires
        last_slash(t) == Some(0nat),
    ensures
        t.len() > 0 && t[0] == '/',
    decreases t.len(),
{
    if t.len() > 0 && t.last() != '/' {
        lemma_first_slash(t.drop_last());
    }
}

/// How many characters of `v[..n]` are left once its tail is trimmed.
fn trimmed_len(v: &Vec<char>, n: usize) -> (r: usize)
    requires
        n <= v.len(),
    ensures
        r <= n,
        v@.take(r as int) == tail_trimmed(v@.take(n as int)),
{
    let mut k: usize = n;
    while k > 1 && (v[k - 1] == '/' || (v[k - 1] == '.' && v[k - 2] == '/'))
        invariant
            k <= n <= v.len(),
            tail_trimmed(v@.take(n as int)) == tail_trimmed(v@.take(k as int)),
        decreases k,
    {
        assert(v@.take(k as int).drop_last() =~= v@.take(k - 1));
        k = k - 1;
    }
    k
}

fn find_last_slash(v: &Vec<char>, n: usize) -> (r: Option<usize>)
    requires
        n <= v.len(),
    ensures
        match (r, last_slash(v@.take(n as int))) {
            (Some(a), Some(b)) => a == b && a < n,
            (None, None) => true,
            _ => false,
        },
{
    let mut k: usize = n;
    while k > 0 && v[k - 1] != '/'
        invariant
            k <= n <= v.len(),
            last_slash(v@.take(n as int)) == last_slash(v@.take(k as int)),
        decreases k,
    {
        assert(v@.take(k as int).drop_last() =~= v@.take(k - 1));
        k = k - 1;
    }
    if k == 0 {
        None
    } else {
        Some(k - 1)
    }
}

pub fn parent(path: &str) -> (r: Option<String>)
    ensures
        opt_text(r) == parent_of(path@),
{
    let v = chars_of(path);
    assert(v@.take(v.len() as int) =~= v@);
    let n = trimmed_len(&v, v.len());
    let t = text_of(&v, 0, n);
    assert(t@ =~= v@.take(n as int));
    if n == 0 || same(t.as_str(), "/") {
        return None;
    }
    match find_last_slash(&v, n) {
        None => {
            let e = String::new();
            Some(e)
        },
        Some(i) => if i == 0 {
            Some("/".to_owned())
        } else {
            assert(v@.take(n as int).take(i as int) =~= v@.take(i as int));
            let m = trimmed_len(&v, i);
            let p = text_of(&v, 0, m);
            assert(p@ =~= v@.take(m as int));
            Some(p)
        },
    }
}

/// A part joined below a directory is the last component of the result: reading the name of
/// a joined path gives the part back.
pub proof fn law_a_joined_name_reads_back(base: Seq<char>, part: Seq<char>)
    requires
        part.len() > 0,
        !part.contains('/'),
        part != "."@,
        part != ".."@,
    ensures
        file_name_of(joined_path(base, part)) == Some(part),
{
    assert(part[0] != '/') by {
        assert(part.contains(part[0]));
    }
    let whole = joined_path(base, part);
    if base.len() > 0 && base.last() != '/' {
        reveal_strlit("/");
        let head = base.push('/');
        assert(base + "/"@ =~= head);
        lemma_last_piece(head, part);
    } else {
        lemma_last_piece(base, part);
    }
    let p = pieces(whole, '/');
    crate::text::lemma_pieces_nonempty(whole, '/');
    assert(p.last() == part);
}

/// A text without slashes is the last piece of what it is appended to, when that is empty
/// or ends in a slash.
proof fn lemma_last_piece(head: Seq<char>, part: Seq<char>)
    requires
        head.len() == 0 || head.last() == '/',
        !part.contains('/'),
    ensures
        pieces(head + part, '/').last() == part,
        pieces(head + part, '/').len() >= 1,
    decreases part.len(),
{
    crate::text::lemma_pieces_nonempty(head + part, '/');
    if part.len() == 0 {
        assert(head + part =~= head);
        if head.len() == 0 {
            assert(pieces(head, '/').last() =~= part);
        } else {
            assert(pieces(head, '/').last() =~= part);
        }
    } else {
        let rest = part.drop_last();
        assert(!rest.contains('/')) by {
            if rest.contains('/') {
                let k = rest.index_of('/');
                assert(part[k] == '/');
            }
        }
        lemma_last_piece(head, rest);
        assert((head + part).drop_last() =~= head + rest);
        assert((head + part).last() == part.last());
        assert(part.last() != '/') by {
            assert(part.contains(part.last()));
        }
        assert(rest.push(part.last()) =~= part);
    }
}

/// A path below another without the slashes and dots at its start.
pub open spec fn head_trimmed(p: Seq<char>) -> Seq<char>
    decreases p.len(),
{
    if p.len() > 0 && p[0] == '/' {
        head_trimmed(p.drop_first())
    } else if p.len() > 1 && p[0] == '.' && p[1] == '/' {
        head_trimmed(p.skip(2))
    } else if p.len() == 1 && p[0] == '.' {
        Seq::empty()
    } else {
        p
    }
}

/// What follows a leading `~` component.
pub open spec fn below_tilde(path: Seq<char>) -> Option<Seq<char>> {
    if path.len() > 0 && path[0] == '~' && (path.len() == 1 || path[1] == '/') {
        Some(tail_trimmed(head_trimmed(path.drop_first())))
    } else {
        None
    }
}

/// A path with a leading `~` replaced by the home directory, where there is one.
pub open spec fn expanded(path: Seq<char>, home: Option<Seq<char>>) -> Seq<char> {
    match (below_tilde(path), home) {
        (Some(rest), Some(home)) => joined_path(home, rest),
        _ => path,
    }
}

fn head_len(v: &Vec<char>, from: usize) -> (r: usize)
    requires
        from <= v.len(),
    ensures
        from <= r <= v.len(),
        v@.skip(r as int) == head_trimmed(v@.skip(from as int)),
{
    let mut k: usize = from;
    loop
        invariant
            from <= k <= v.len(),
            head_trimmed(v@.skip(from as int)) == head_trimmed(v@.skip(k as int)),
        ensures
            from <= k <= v.len(),
            v@.skip(k as int) == head_trimmed(v@.skip(from as int)),
        decreases v.len() - k,
    {
        if k < v.len() && v[k] == '/' {
            assert(v@.skip(k as int).drop_first() =~= v@.skip(k + 1));
            k = k + 1;
        } else if v.len() - k > 1 && v[k] == '.' && v[k + 1] == '/' {
            assert(v@.skip(k as int)[1] == v@[k + 1]);
            assert(v@.skip(k as int).skip(2) =~= v@.skip(k + 2));
            k = k + 2;
        } else if v.len() - k == 1 && v[k] == '.' {
            assert(v@.skip(k + 1) =~= Seq::<char>::empty());
            k = k + 1;
            break;
        } else {
            break;
        }
    }
    k
}

/// Expand a leading `~` so config files can use it.
pub fn expand_tilde(path: &str, home: Option<&str>) -> (r: String)
    ensures
        r@ == expanded(path@, opt_str(home)),
{
    let v = chars_of(path);
    if v.len() == 0 || v[0] != '~' || (v.len() > 1 && v[1] != '/') {
        return path.to_owned();
    }
    let home = match home {
        Some(h) => h,
        None => {
            return path.to_owned();
        },
    };
    let k = head_len(&v, 1);
    assert(v@.skip(1) =~= path@.drop_first());
    let tail = text_of(&v, k, v.len());
    assert(tail@ =~= v@.skip(k as int));
    let w = chars_of(tail.as_str());
    assert(w@.take(w.len() as int) =~= w@);
    let n = trimmed_len(&w, w.len());
    let rest = text_of(&w, 0, n);
    assert(rest@ =~= w@.take(n as int));
    join(home, rest.as_str())
}

/// The path starts with the dot that stands for the directory itself.
pub open spec fn dotted(p: Seq<char>) -> bool {
    p.len() > 0 && p[0] == '.' && (p.len() == 1 || p[1] == '/')
}

pub open spec fn rooted(p: Seq<char>) -> bool {
    p.len() > 0 && p[0] == '/'
}

/// Two spellings of one path: slashes may be doubled or trail, and dots between them do not
/// count.
pub open spec fn same_place(a: Seq<char>, b: Seq<char>) -> bool {
    rooted(a) == rooted(b) && dotted(a) == dotted(b) && components_of(a) == components_of(b)
}

fn same_texts(a: &Vec<String>, b: &Vec<String>) -> (r: bool)
    ensures
        r == (texts(a@) == texts(b@)),
{
    assert(texts(a@).len() == a.len() && texts(b@).len() == b.len());
    if a.len() != b.len() {
        return false;
    }
    let mut i: usize = 0;
    while i < a.len()
        invariant
            i <= a.len(),
            a.len() == b.len(),
            texts(a@).len() == a.len(),
            texts(b@).len() == b.len(),
            forall|j: int| 0 <= j < i ==> #[trigger] texts(a@)[j] == texts(b@)[j],
        decreases a.len() - i,
    {
        assert(texts(a@)[i as int] == a@[i as int]@ && texts(b@)[i as int] == b@[i as int]@);
        if !same(a[i].as_str(), b[i].as_str()) {
            return false;
        }
        i = i + 1;
    }
    assert(texts(a@) =~= texts(b@));
    true
}

pub fn same_path(a: &str, b: &str) -> (r: bool)
    ensures
        r == same_place(a@, b@),
{
    let (v, w) = (chars_of(a), chars_of(b));
    let v_root = v.len() > 0 && v[0] == '/';
    let w_root = w.len() > 0 && w[0] == '/';
    let v_dot = v.len() > 0 && v[0] == '.' && (v.len() == 1 || v[1] == '/');
    let w_dot = w.len() > 0 && w[0] == '.' && (w.len() == 1 || w[1] == '/');
    v_root == w_root && v_dot == w_dot && same_texts(&components(a), &components(b))
}

} // verus!
