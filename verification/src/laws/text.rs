//! What cutting text apart and putting it together owe to each other.

use vstd::prelude::*;
use crate::text::{
    clipped, cut_space, dec, dec_int, first_at, first_space, is_space, joined, lines_of, no_space,
    pieces, replaced, signed_of, trim_end, trim_start, trimmed, unsigned_of, without_return,
    words_of, words_so_far,
};

verus! {

/// Nothing but spaces.
pub open spec fn blank(s: Seq<char>) -> bool {
    forall|i: int| 0 <= i < s.len() ==> is_space(#[trigger] s[i])
}

/// A text that starts and ends with no space.
pub open spec fn tight(s: Seq<char>) -> bool {
    s.len() > 0 ==> !is_space(s[0]) && !is_space(s.last())
}

proof fn lemma_trim_start(a: Seq<char>, core: Seq<char>)
    requires
        blank(a),
        core.len() > 0 ==> !is_space(core[0]),
    ensures
        trim_start(a + core) == core,
    decreases a.len(),
{
    let s = a + core;
    if a.len() > 0 {
        let tail = a.drop_first();
        assert forall|i: int| 0 <= i < tail.len() implies is_space(#[trigger] tail[i]) by {
            assert(tail[i] == a[i + 1]);
        }
        lemma_trim_start(tail, core);
        assert(s.drop_first() =~= tail + core);
        assert(s[0] == a[0]);
    } else {
        assert(s =~= core);
    }
}

proof fn lemma_trim_end(core: Seq<char>, b: Seq<char>)
    requires
        blank(b),
        core.len() > 0 ==> !is_space(core.last()),
    ensures
        trim_end(core + b) == core,
    decreases b.len(),
{
    let s = core + b;
    if b.len() > 0 {
        let head = b.drop_last();
        assert forall|i: int| 0 <= i < head.len() implies is_space(#[trigger] head[i]) by {
            assert(head[i] == b[i]);
        }
        lemma_trim_end(core, head);
        assert(s.drop_last() =~= core + head);
        assert(s.last() == b.last());
        assert(is_space(b[b.len() - 1]));
    } else {
        assert(s =~= core);
    }
}

/// Trimming takes the spaces off both ends and leaves the rest as it is.
pub proof fn law_trimming_leaves_the_core(a: Seq<char>, core: Seq<char>, b: Seq<char>)
    requires
        blank(a),
        blank(b),
        tight(core),
    ensures
        trimmed(a + core + b) == core,
        trimmed(core) == core,
{
    if core.len() > 0 {
        assert(a + core + b =~= a + (core + b));
        assert((core + b)[0] == core[0]);
        lemma_trim_start(a, core + b);
    } else {
        let all = a + core + b;
        assert forall|i: int| 0 <= i < all.len() implies is_space(#[trigger] all[i]) by {
            if i < a.len() {
                assert(all[i] == a[i]);
            } else {
                assert(all[i] == b[i - a.len()]);
            }
        }
        lemma_trim_start(all, Seq::empty());
        assert(all + Seq::<char>::empty() =~= all);
        assert(core =~= Seq::<char>::empty());
    }
    lemma_trim_end(core, b);
    lemma_trim_start(Seq::empty(), core);
    lemma_trim_end(core, Seq::empty());
    assert(Seq::<char>::empty() + core =~= core);
    assert(core + Seq::<char>::empty() =~= core);
}

proof fn lemma_words_behind(a: Seq<char>, t: Seq<char>)
    ensures
        words_so_far(a + seq![' '] + t) == (words_of(a) + words_so_far(t).0, words_so_far(t).1),
    decreases t.len(),
{
    let s = a + seq![' '] + t;
    if t.len() == 0 {
        assert(s.drop_last() =~= a);
        assert(s.last() == ' ');
        let (done, open) = words_so_far(a);
        assert(words_of(a) + Seq::<Seq<char>>::empty() =~= words_of(a));
    } else {
        let head = t.drop_last();
        lemma_words_behind(a, head);
        assert(s.drop_last() =~= a + seq![' '] + head);
        assert(s.last() == t.last());
        let (done, open) = words_so_far(head);
        assert((words_of(a) + done).push(open) =~= words_of(a) + done.push(open));
    }
}

/// The words on both sides of a space are the words of the whole.
pub proof fn law_a_space_ends_a_word(a: Seq<char>, b: Seq<char>)
    ensures
        words_of(a + seq![' '] + b) == words_of(a) + words_of(b),
{
    lemma_words_behind(a, b);
    let (done, open) = words_so_far(b);
    assert((words_of(a) + done).push(open) =~= words_of(a) + done.push(open));
}

/// A text without a space is one word, and no text at all is none.
pub proof fn law_what_holds_no_space_is_a_word(w: Seq<char>)
    requires
        no_space(w),
    ensures
        w.len() > 0 ==> words_of(w) == seq![w],
        w.len() == 0 ==> words_of(w).len() == 0,
{
    lemma_one_word(w);
    if w.len() > 0 {
        assert(words_of(w) =~= seq![w]);
    }
}

proof fn lemma_one_word(w: Seq<char>)
    requires
        no_space(w),
    ensures
        words_so_far(w) == (Seq::<Seq<char>>::empty(), w),
    decreases w.len(),
{
    if w.len() > 0 {
        let head = w.drop_last();
        assert forall|i: int| 0 <= i < head.len() implies !is_space(#[trigger] head[i]) by {
            assert(head[i] == w[i]);
        }
        lemma_one_word(head);
        assert(!is_space(w[w.len() - 1]));
        assert(head.push(w.last()) =~= w);
    } else {
        assert(w =~= Seq::empty());
    }
}

/// A separator cuts a text into the pieces of both sides; without one it is one piece.
pub proof fn law_a_separator_cuts(a: Seq<char>, b: Seq<char>, sep: char)
    ensures
        pieces(a + seq![sep] + b, sep) == pieces(a, sep) + pieces(b, sep),
        !a.contains(sep) ==> pieces(a, sep) == seq![a],
        pieces(a, sep).len() >= 1,
    decreases b.len(), a.len(),
{
    lemma_some_piece(a, sep);
    lemma_some_piece(b, sep);
    let s = a + seq![sep] + b;
    if b.len() == 0 {
        assert(s.drop_last() =~= a);
        assert(s.last() == sep);
        assert(pieces(b, sep) =~= seq![Seq::<char>::empty()]);
        assert(pieces(s, sep) =~= pieces(a, sep) + pieces(b, sep));
    } else {
        let head = b.drop_last();
        law_a_separator_cuts(a, head, sep);
        lemma_some_piece(head, sep);
        assert(s.drop_last() =~= a + seq![sep] + head);
        assert(s.last() == b.last());
        assert(pieces(s, sep) =~= pieces(a, sep) + pieces(b, sep));
    }
    if !a.contains(sep) {
        lemma_one_piece(a, sep);
    }
}

proof fn lemma_some_piece(s: Seq<char>, sep: char)
    ensures
        pieces(s, sep).len() >= 1,
    decreases s.len(),
{
    if s.len() > 0 {
        lemma_some_piece(s.drop_last(), sep);
    }
}

proof fn lemma_one_piece(a: Seq<char>, sep: char)
    requires
        !a.contains(sep),
    ensures
        pieces(a, sep) == seq![a],
    decreases a.len(),
{
    if a.len() > 0 {
        let head = a.drop_last();
        assert forall|i: int| 0 <= i < head.len() implies head[i] != sep by {
            assert(a.contains(a[i]));
        }
        lemma_one_piece(head, sep);
        assert(a.contains(a.last()));
        assert(head.push(a.last()) =~= a);
        assert(pieces(a, sep) =~= seq![a]);
    } else {
        assert(a =~= Seq::empty());
    }
}

/// A line ends at its line feed, without the carriage return before that.
pub proof fn law_a_line_ends_at_its_feed(line: Seq<char>, rest: Seq<char>)
    requires
        !line.contains('\n'),
    ensures
        lines_of(line + seq!['\n'] + rest) == seq![without_return(line)] + lines_of(rest),
        line.len() > 0 ==> lines_of(line) == seq![line],
        line.len() == 0 ==> lines_of(line).len() == 0,
        line.len() > 0 && line.last() == '\r' ==> without_return(line) == line.drop_last(),
        line.len() == 0 || line.last() != '\r' ==> without_return(line) == line,
{
    law_a_separator_cuts(line, rest, '\n');
    lemma_some_piece(rest, '\n');
    let p = pieces(line + seq!['\n'] + rest, '\n');
    let q = pieces(rest, '\n');
    assert(p =~= seq![line] + q);
    assert(p.drop_last() =~= seq![line] + q.drop_last());
    assert(p.last() == q.last());
    let f = |l: Seq<char>| without_return(l);
    assert(p.drop_last().map_values(f) =~= seq![without_return(line)] + q.drop_last().map_values(f));
    assert(lines_of(line + seq!['\n'] + rest) =~= seq![without_return(line)] + lines_of(rest));
    lemma_one_piece(line, '\n');
    assert(pieces(line, '\n').drop_last() =~= Seq::<Seq<char>>::empty());
    if line.len() > 0 {
        assert(lines_of(line) =~= seq![line]);
    } else {
        assert(lines_of(line) =~= Seq::<Seq<char>>::empty());
    }
}

/// Texts are joined in their order with the separator between neighbours.
pub proof fn law_neighbours_are_joined(parts: Seq<Seq<char>>, last: Seq<char>, sep: Seq<char>)
    ensures
        parts.len() > 0 ==> joined(parts.push(last), sep) == joined(parts, sep) + sep + last,
        joined(seq![last], sep) == last,
        joined(Seq::empty(), sep) == Seq::<char>::empty(),
{
    assert(parts.push(last).drop_last() =~= parts);
}

proof fn lemma_first_space(a: Seq<char>, b: Seq<char>)
    requires
        no_space(a),
    ensures
        first_space(a + seq![' '] + b) == a.len(),
        first_space(a) == a.len(),
    decreases a.len(),
{
    let s = a + seq![' '] + b;
    if a.len() > 0 {
        let tail = a.drop_first();
        assert forall|i: int| 0 <= i < tail.len() implies !is_space(#[trigger] tail[i]) by {
            assert(tail[i] == a[i + 1]);
        }
        lemma_first_space(tail, b);
        assert(s.drop_first() =~= tail + seq![' '] + b);
        assert(s[0] == a[0]);
    } else {
        assert(s[0] == ' ');
    }
}

/// A text is cut at its first space.
pub proof fn law_a_text_is_cut_at_its_first_space(a: Seq<char>, b: Seq<char>)
    requires
        no_space(a),
    ensures
        cut_space(a + seq![' '] + b) == Some((a, b)),
        cut_space(a) is None,
{
    let s = a + seq![' '] + b;
    lemma_first_space(a, b);
    assert(s.take(a.len() as int) =~= a);
    assert(s.skip((a.len() + 1) as int) =~= b);
}

/// A numeral holds no space.
pub proof fn law_a_numeral_is_one_word(n: nat)
    ensures
        no_space(dec(n)),
        dec(n).len() > 0,
    decreases n,
{
    if n >= 10 {
        law_a_numeral_is_one_word(n / 10);
        let head = dec(n / 10);
        assert forall|i: int| 0 <= i < dec(n).len() implies !is_space(#[trigger] dec(n)[i]) by {
            if i < head.len() {
                assert(dec(n)[i] == head[i]);
            }
        }
    }
}

/// A numeral with a sign reads back as its number.
pub proof fn law_a_signed_numeral_reads_back(n: int)
    ensures
        signed_of(dec_int(n)) == Some(n),
{
    if n < 0 {
        crate::text::law_a_numeral_reads_back((-n) as nat);
        crate::text::lemma_dec_starts_with_a_digit((-n) as nat);
        assert(dec_int(n)[0] == '-');
        assert(dec_int(n).drop_first() =~= dec((-n) as nat));
        assert(dec((-n) as nat)[0] != '+');
    } else {
        crate::text::law_a_numeral_reads_back(n as nat);
        crate::text::lemma_dec_starts_with_a_digit(n as nat);
    }
}

/// A plus sign before a number is read over.
pub proof fn law_a_plus_sign_is_read_over(n: nat)
    ensures
        unsigned_of(seq!['+'] + dec(n)) == Some(n),
{
    crate::text::law_a_numeral_reads_back(n);
    crate::text::lemma_dec_starts_with_a_digit(n);
    assert((seq!['+'] + dec(n)).drop_first() =~= dec(n));
}

/// Each character that is replaced becomes what replaces it, and every other stays.
pub proof fn law_each_character_is_replaced(s: Seq<char>, c: char, from: char, to: Seq<char>)
    ensures
        replaced(s.push(c), from, to) == (if c == from {
            replaced(s, from, to) + to
        } else {
            replaced(s, from, to) + seq![c]
        }),
        replaced(Seq::empty(), from, to).len() == 0,
{
    assert(s.push(c).drop_last() =~= s);
    assert(replaced(s, from, to).push(c) =~= replaced(s, from, to) + seq![c]);
}

/// A text is clipped only where it is too long, and then to its start.
pub proof fn law_a_short_text_is_not_clipped(s: Seq<char>, n: nat)
    ensures
        s.len() <= n ==> clipped(s, n) == s,
        s.len() > n ==> clipped(s, n).len() == n && clipped(s, n).is_prefix_of(s),
{
    if s.len() > n {
        assert(s.subrange(0, n as int) =~= s.take(n as int));
    }
}

/// A text is found where it first stands, and nowhere when it stands nowhere.
pub proof fn law_a_text_is_found_where_it_first_stands(s: Seq<char>, part: Seq<char>, j: int)
    ensures
        first_at(s, part) is Some ==> first_at(s, part)->0 <= s.len() && part.is_prefix_of(
            s.skip(first_at(s, part)->0 as int),
        ),
        0 <= j <= s.len() && part.is_prefix_of(s.skip(j)) ==> first_at(s, part) is Some && first_at(
            s,
            part,
        )->0 <= j,
    decreases s.len(),
{
    assert(s.skip(0) =~= s);
    if !part.is_prefix_of(s) && s.len() > 0 {
        let t = s.drop_first();
        law_a_text_is_found_where_it_first_stands(t, part, j - 1);
        if first_at(t, part) is Some {
            let i = first_at(t, part)->0 as int;
            assert(t.skip(i) =~= s.skip(i + 1));
        }
        if 1 <= j <= s.len() {
            assert(t.skip(j - 1) =~= s.skip(j));
        }
    }
}

} // verus!
