//! What putting paths together and taking them apart owe to each other.

use vstd::prelude::*;
use crate::laws::text::law_a_separator_cuts;
use crate::paths::{
    components_of, expanded, head_trimmed, joined_path, last_slash, named, parent_of, rooted,
    same_place, tail_trimmed,
};
use crate::text::pieces;

verus! {

/// Nothing or a dot names no component; anything else names one.
pub proof fn law_a_piece_names_a_component(p: Seq<Seq<char>>, more: Seq<char>)
    ensures
        more.len() == 0 || more == "."@ ==> named(p.push(more)) == named(p),
        more.len() > 0 && more != "."@ ==> named(p.push(more)) == named(p).push(more),
        named(Seq::empty()).len() == 0,
{
    assert(p.push(more).drop_last() =~= p);
}

proof fn lemma_named_concat(a: Seq<Seq<char>>, b: Seq<Seq<char>>)
    ensures
        named(a + b) == named(a) + named(b),
    decreases b.len(),
{
    if b.len() == 0 {
        assert(a + b =~= a);
        assert(named(a) + named(b) =~= named(a));
    } else {
        lemma_named_concat(a, b.drop_last());
        assert((a + b).drop_last() =~= a + b.drop_last());
        assert((a + b).last() == b.last());
        assert((named(a) + named(b.drop_last())).push(b.last()) =~= named(a) + named(
            b.drop_last(),
        ).push(b.last()));
    }
}

/// A slash parts the components of a path.
pub proof fn law_a_slash_parts_components(a: Seq<char>, b: Seq<char>)
    ensures
        components_of(a + seq!['/'] + b) == components_of(a) + components_of(b),
{
    law_a_separator_cuts(a, b, '/');
    lemma_named_concat(pieces(a, '/'), pieces(b, '/'));
}

/// What is joined below a directory stands there: the components are those of the directory
/// and then those of the part. An absolute part stands alone.
pub proof fn law_a_part_is_joined_below(base: Seq<char>, part: Seq<char>)
    ensures
        rooted(part) ==> joined_path(base, part) == part,
        !rooted(part) ==> components_of(joined_path(base, part)) == components_of(base)
            + components_of(part),
        !rooted(part) && base.len() > 0 ==> rooted(joined_path(base, part)) == rooted(base),
{
    reveal_strlit("/");
    assert("/"@ =~= seq!['/']);
    if !rooted(part) {
        if base.len() == 0 {
            assert(base + part =~= part);
            assert(pieces(base, '/') =~= seq![Seq::<char>::empty()]);
            law_a_piece_names_a_component(Seq::empty(), Seq::empty());
            assert(Seq::<Seq<char>>::empty().push(Seq::empty()) =~= seq![Seq::<char>::empty()]);
            assert(components_of(base) =~= Seq::<Seq<char>>::empty());
            assert(components_of(base) + components_of(part) =~= components_of(part));
        } else if base.last() == '/' {
            let head = base.drop_last();
            law_a_slash_parts_components(head, part);
            law_a_slash_parts_components(head, Seq::empty());
            assert(head + seq!['/'] + part =~= base + part);
            assert(head + seq!['/'] + Seq::<char>::empty() =~= base);
            assert(pieces(Seq::<char>::empty(), '/') =~= seq![Seq::<char>::empty()]);
            law_a_piece_names_a_component(Seq::empty(), Seq::empty());
            assert(Seq::<Seq<char>>::empty().push(Seq::empty()) =~= seq![Seq::<char>::empty()]);
            assert(components_of(base) =~= components_of(head));
        } else {
            law_a_slash_parts_components(base, part);
        }
    }
}

/// Two spellings of a path are one place, whatever slashes stand at its end.
pub proof fn law_a_trailing_slash_changes_no_place(path: Seq<char>)
    requires
        path.len() > 1,
    ensures
        same_place(path, path),
        same_place(path, path.push('/')),
{
    law_a_slash_parts_components(path, Seq::empty());
    assert(path + seq!['/'] + Seq::<char>::empty() =~= path.push('/'));
    assert(pieces(Seq::<char>::empty(), '/') =~= seq![Seq::<char>::empty()]);
    law_a_piece_names_a_component(Seq::empty(), Seq::empty());
    assert(Seq::<Seq<char>>::empty().push(Seq::empty()) =~= seq![Seq::<char>::empty()]);
    assert(components_of(path.push('/')) =~= components_of(path));
}

/// Only a leading tilde stands for the home directory, and only where there is one.
pub proof fn law_only_a_leading_tilde_is_expanded(path: Seq<char>, home: Seq<char>)
    ensures
        path.len() > 0 && path[0] != '~' ==> expanded(path, Some(home)) == path,
        path.len() > 1 && path[1] != '/' ==> expanded(path, Some(home)) == path,
        expanded(path, None) == path,
{
}

/// Below a tilde a path is taken from the home directory.
pub proof fn law_a_path_below_the_tilde_is_below_home(part: Seq<char>, home: Seq<char>)
    requires
        part.len() > 0,
        part[0] != '/',
        part[0] != '.',
        part.last() != '/',
        part.last() != '.',
    ensures
        expanded("~/"@ + part, Some(home)) == joined_path(home, part),
        expanded("~"@, Some(home)) == joined_path(home, Seq::empty()),
{
    reveal_strlit("~/");
    reveal_strlit("~");
    assert("~/"@.len() == 2 && "~"@.len() == 1);
    let p = "~/"@ + part;
    assert(p[0] == '~' && p[1] == '/');
    let rest = p.drop_first();
    assert(rest[0] == '/');
    assert(rest.drop_first() =~= part);
    assert("~"@.drop_first() =~= Seq::<char>::empty());
    reveal_with_fuel(head_trimmed, 2);
    assert(tail_trimmed(part) == part);
}

/// What stands above a name is the path before its slash; above a lone name stands the
/// directory itself, and above the root nothing.
pub proof fn law_above_a_name_stands_its_directory(dir: Seq<char>, name: Seq<char>)
    requires
        name.len() > 0,
        !name.contains('/'),
        name.last() != '.',
        dir.len() > 0 ==> dir.last() != '/' && dir.last() != '.',
    ensures
        dir.len() > 0 ==> parent_of(dir + seq!['/'] + name) == Some(dir),
        parent_of(seq!['/'] + name) == Some(seq!['/']),
        parent_of(name) == Some(Seq::<char>::empty()),
        parent_of(seq!['/']) is None,
        parent_of(Seq::empty()) is None,
{
    reveal_strlit("/");
    assert("/"@ =~= seq!['/']);
    assert(name.contains(name.last()));
    assert(name.last() != '/');
    lemma_slash_before(dir + seq!['/'], name);
    lemma_slash_before(seq!['/'], name);
    lemma_no_slash(name);
    let p = dir + seq!['/'] + name;
    assert(p.last() == name.last());
    assert(tail_trimmed(p) == p);
    let r = seq!['/'] + name;
    assert(r.last() == name.last());
    assert(tail_trimmed(r) == r);
    assert(tail_trimmed(name) == name);
    assert(name != "/"@) by {
        if name == "/"@ {
            assert(name[0] == '/');
            assert(name.contains(name[0]));
        }
    }
    assert(p != "/"@ && r != "/"@) by {
        assert(p.len() > 1 || dir.len() == 0);
        assert(r.len() > 1);
    }
    assert(p.take(dir.len() as int) =~= dir);
    if dir.len() > 0 {
        assert(tail_trimmed(dir) == dir);
    }
}

proof fn lemma_no_slash(s: Seq<char>)
    requires
        !s.contains('/'),
    ensures
        last_slash(s) is None,
    decreases s.len(),
{
    if s.len() > 0 {
        assert(s.contains(s.last()));
        assert(!s.drop_last().contains('/')) by {
            if s.drop_last().contains('/') {
                let i = choose|i: int| 0 <= i < s.drop_last().len() && s.drop_last()[i] == '/';
                assert(s[i] == '/');
            }
        }
        lemma_no_slash(s.drop_last());
    }
}

proof fn lemma_slash_before(a: Seq<char>, s: Seq<char>)
    requires
        a.len() > 0,
        a.last() == '/',
        !s.contains('/'),
    ensures
        last_slash(a + s) == Some((a.len() - 1) as nat),
    decreases s.len(),
{
    let t = a + s;
    if s.len() == 0 {
        assert(t =~= a);
    } else {
        assert(s.contains(s.last()));
        assert(!s.drop_last().contains('/')) by {
            if s.drop_last().contains('/') {
                let i = choose|i: int| 0 <= i < s.drop_last().len() && s.drop_last()[i] == '/';
                assert(s[i] == '/');
            }
        }
        lemma_slash_before(a, s.drop_last());
        assert(t.drop_last() =~= a + s.drop_last());
        assert(t.last() == s.last());
    }
}

/// Two paths name one place when they start alike, at the root, at the directory itself or
/// at neither, and have the same components.
pub proof fn law_when_two_paths_are_one_place(a: Seq<char>, b: Seq<char>)
    ensures
        same_place(a, b) <==> {
            &&& (a.len() > 0 && a[0] == '/') == (b.len() > 0 && b[0] == '/')
            &&& (a.len() > 0 && a[0] == '.' && (a.len() == 1 || a[1] == '/')) == (b.len() > 0
                && b[0] == '.' && (b.len() == 1 || b[1] == '/'))
            &&& components_of(a) == components_of(b)
        },
{
}

} // verus!
