//! Words of a command line: quoted for a POSIX shell, and read as one reads them.

use vstd::prelude::*;
use crate::text::{cat3, chars_of, contains_char, is_space, joined, replace, replaced, space};

verus! {

// ---------------------------------------------------------------- quoting

/// A character that makes a shell word need quotes.
pub open spec fn needs_quotes(c: char) -> bool {
    is_space(c) || "\"'$`\\|&;<>()*?[]{}~#!"@.contains(c)
}

/// A word as the preview shows it.
pub open spec fn shell_word(w: Seq<char>) -> Seq<char> {
    if exists|i: int| 0 <= i < w.len() && #[trigger] needs_quotes(w[i]) {
        "'"@ + replaced(w, '\'', "'\\''"@) + "'"@
    } else {
        w
    }
}

pub fn shell_quote(w: &str) -> (r: String)
    ensures
        r@ == shell_word(w@),
{
    let v = chars_of(w);
    let mut i: usize = 0;
    while i < v.len()
        invariant
            i <= v.len(),
            v@ == w@,
            forall|j: int| 0 <= j < i ==> !#[trigger] needs_quotes(w@[j]),
        decreases v.len() - i,
    {
        if space(v[i]) || contains_char("\"'$`\\|&;<>()*?[]{}~#!", v[i]) {
            assert(needs_quotes(w@[i as int]));
            return cat3("'", replace(w, '\'', "'\\''").as_str(), "'");
        }
        i = i + 1;
    }
    w.to_owned()
}

// ---------------------------------------------------------------- reading

/// What a shell is inside of while it reads a command line.
pub enum Quote {
    Bare,
    Single,
    Double,
}

/// A character that parts words.
pub open spec fn blank(c: char) -> bool {
    c == ' ' || c == '\t' || c == '\n'
}

/// A character that outside quotes stands for something else than itself: an expansion, an
/// operator, a pattern, a comment.
pub open spec fn special(c: char) -> bool {
    ||| c == '$' || c == '`' || c == '|' || c == '&' || c == ';' || c == '<' || c == '>'
    ||| c == '(' || c == ')' || c == '*' || c == '?' || c == '[' || c == ']' || c == '{'
    ||| c == '}' || c == '~' || c == '#' || c == '!'
}

/// A character that a backslash escapes inside double quotes.
pub open spec fn escapable(c: char) -> bool {
    c == '$' || c == '`' || c == '"' || c == '\\'
}

/// The words that a shell reads out of `s`, after the words `done` and inside the word
/// `word`, where it is inside one. `None` when the text ends inside quotes, or holds what
/// is more than words.
pub open spec fn words_from(
    s: Seq<char>,
    quote: Quote,
    done: Seq<Seq<char>>,
    word: Option<Seq<char>>,
) -> Option<Seq<Seq<char>>>
    decreases s.len(),
{
    let read = match word {
        Some(w) => w,
        None => Seq::empty(),
    };
    if s.len() == 0 {
        match (quote, word) {
            (Quote::Bare, Some(w)) => Some(done.push(w)),
            (Quote::Bare, None) => Some(done),
            _ => None,
        }
    } else {
        let c = s[0];
        let rest = s.drop_first();
        match quote {
            Quote::Single => if c == '\'' {
                words_from(rest, Quote::Bare, done, Some(read))
            } else {
                words_from(rest, Quote::Single, done, Some(read.push(c)))
            },
            Quote::Double => if c == '"' {
                words_from(rest, Quote::Bare, done, Some(read))
            } else if c == '$' || c == '`' {
                None
            } else if c == '\\' && rest.len() > 0 && escapable(rest[0]) {
                words_from(rest.drop_first(), Quote::Double, done, Some(read.push(rest[0])))
            } else if c == '\\' && rest.len() > 0 && rest[0] == '\n' {
                words_from(rest.drop_first(), Quote::Double, done, Some(read))
            } else {
                words_from(rest, Quote::Double, done, Some(read.push(c)))
            },
            Quote::Bare => if blank(c) {
                match word {
                    Some(w) => words_from(rest, Quote::Bare, done.push(w), None),
                    None => words_from(rest, Quote::Bare, done, None),
                }
            } else if c == '\'' {
                words_from(rest, Quote::Single, done, Some(read))
            } else if c == '"' {
                words_from(rest, Quote::Double, done, Some(read))
            } else if c == '\\' {
                if rest.len() == 0 {
                    None
                } else if rest[0] == '\n' {
                    words_from(rest.drop_first(), Quote::Bare, done, word)
                } else {
                    words_from(rest.drop_first(), Quote::Bare, done, Some(read.push(rest[0])))
                }
            } else if special(c) {
                None
            } else {
                words_from(rest, Quote::Bare, done, Some(read.push(c)))
            },
        }
    }
}

/// The words that a shell reads out of a command line; `None` when it is more than words.
pub open spec fn shell_words_of(s: Seq<char>) -> Option<Seq<Seq<char>>> {
    words_from(s, Quote::Bare, Seq::empty(), None)
}

proof fn lemma_plain_char(c: char)
    requires
        !needs_quotes(c),
    ensures
        !blank(c),
        !special(c),
        c != '\'' && c != '"' && c != '\\',
{
    let all = "\"'$`\\|&;<>()*?[]{}~#!"@;
    reveal_strlit("\"'$`\\|&;<>()*?[]{}~#!");
    assert(all[0] == '"' && all[1] == '\'' && all[2] == '$' && all[3] == '`' && all[4] == '\\');
    assert(all[5] == '|' && all[6] == '&' && all[7] == ';' && all[8] == '<' && all[9] == '>');
    assert(all[10] == '(' && all[11] == ')' && all[12] == '*' && all[13] == '?');
    assert(all[14] == '[' && all[15] == ']' && all[16] == '{' && all[17] == '}');
    assert(all[18] == '~' && all[19] == '#' && all[20] == '!');
}

/// A run of ordinary characters is read as it stands.
proof fn lemma_plain_run(w: Seq<char>, rest: Seq<char>, done: Seq<Seq<char>>, word: Option<Seq<char>>)
    requires
        w.len() > 0,
        forall|i: int| 0 <= i < w.len() ==> !#[trigger] needs_quotes(w[i]),
    ensures
        words_from(w + rest, Quote::Bare, done, word) == words_from(
            rest,
            Quote::Bare,
            done,
            Some(
                (match word {
                    Some(r) => r,
                    None => Seq::empty(),
                }) + w,
            ),
        ),
    decreases w.len(),
{
    let read = match word {
        Some(r) => r,
        None => Seq::empty(),
    };
    let head = w.drop_last();
    let c = w.last();
    let next = seq![c] + rest;
    assert(needs_quotes(w[w.len() - 1]) == needs_quotes(c));
    lemma_plain_char(c);
    assert(next.drop_first() =~= rest);
    assert(w + rest =~= head + next);
    if head.len() == 0 {
        assert(head + next =~= next);
        assert(read.push(c) =~= read + w);
    } else {
        assert forall|i: int| 0 <= i < head.len() implies !#[trigger] needs_quotes(head[i]) by {
            assert(head[i] == w[i]);
        }
        lemma_plain_run(head, next, done, word);
        assert((read + head).push(c) =~= read + w);
    }
}

/// Inside single quotes, the spelling of a word is read as the word.
proof fn lemma_quoted_run(w: Seq<char>, rest: Seq<char>, done: Seq<Seq<char>>, read: Seq<char>)
    ensures
        words_from(replaced(w, '\'', "'\\''"@) + rest, Quote::Single, done, Some(read))
            == words_from(rest, Quote::Single, done, Some(read + w)),
    decreases w.len(),
{
    let spelled = replaced(w, '\'', "'\\''"@);
    if w.len() == 0 {
        assert(spelled + rest =~= rest);
        assert(read + w =~= read);
    } else {
        let head = w.drop_last();
        let c = w.last();
        let before = replaced(head, '\'', "'\\''"@);
        assert((read + head).push(c) =~= read + w);
        if c == '\'' {
            let four = "'\\''"@;
            reveal_strlit("'\\''");
            assert(four =~= seq!['\'', '\\', '\'', '\'']);
            let n0 = four + rest;
            let n1 = seq!['\\', '\'', '\''] + rest;
            let n2 = seq!['\'', '\''] + rest;
            let n3 = seq!['\''] + rest;
            assert(spelled + rest =~= before + n0);
            lemma_quoted_run(head, n0, done, read);
            assert(n0.drop_first() =~= n1);
            assert(n1.drop_first() =~= n2);
            assert(n2.drop_first() =~= n3);
            assert(n3.drop_first() =~= rest);
            // The quote closes, an escaped quote follows, and the next one opens again.
            assert(words_from(n0, Quote::Single, done, Some(read + head)) == words_from(
                n1,
                Quote::Bare,
                done,
                Some(read + head),
            ));
            assert(words_from(n1, Quote::Bare, done, Some(read + head)) == words_from(
                n3,
                Quote::Bare,
                done,
                Some(read + w),
            ));
            assert(words_from(n3, Quote::Bare, done, Some(read + w)) == words_from(
                rest,
                Quote::Single,
                done,
                Some(read + w),
            ));
        } else {
            let next = seq![c] + rest;
            assert(spelled + rest =~= before + next);
            lemma_quoted_run(head, next, done, read);
            assert(next.drop_first() =~= rest);
        }
    }
}

/// A word as it is shown is read back as the word.
proof fn lemma_word(w: Seq<char>, rest: Seq<char>, done: Seq<Seq<char>>)
    requires
        w.len() > 0,
    ensures
        words_from(shell_word(w) + rest, Quote::Bare, done, None) == words_from(
            rest,
            Quote::Bare,
            done,
            Some(w),
        ),
{
    if exists|i: int| 0 <= i < w.len() && #[trigger] needs_quotes(w[i]) {
        let spelled = replaced(w, '\'', "'\\''"@);
        reveal_strlit("'");
        assert("'"@ =~= seq!['\'']);
        let close = "'"@ + rest;
        let all = shell_word(w) + rest;
        assert(all.drop_first() =~= spelled + close);
        assert(all[0] == '\'');
        lemma_quoted_run(w, close, done, Seq::empty());
        assert(Seq::<char>::empty() + w =~= w);
        assert(close.drop_first() =~= rest);
    } else {
        lemma_plain_run(w, rest, done, None);
        assert(Seq::<char>::empty() + w =~= w);
    }
}

proof fn lemma_words(ws: Seq<Seq<char>>, rest: Seq<char>)
    requires
        ws.len() > 0,
        forall|i: int| 0 <= i < ws.len() ==> (#[trigger] ws[i]).len() > 0,
    ensures
        words_from(
            joined(ws.map_values(|w: Seq<char>| shell_word(w)), " "@) + rest,
            Quote::Bare,
            Seq::empty(),
            None,
        ) == words_from(rest, Quote::Bare, ws.drop_last(), Some(ws.last())),
    decreases ws.len(),
{
    let f = |w: Seq<char>| shell_word(w);
    let shown = ws.map_values(f);
    let last = ws.last();
    assert(ws[ws.len() - 1] == last);
    if ws.len() == 1 {
        lemma_word(last, rest, Seq::empty());
        assert(ws.drop_last() =~= Seq::<Seq<char>>::empty());
        assert(joined(shown, " "@) == shown[0]);
    } else {
        let head = ws.drop_last();
        assert(shown.drop_last() =~= head.map_values(f));
        assert(shown.last() == shell_word(last));
        reveal_strlit(" ");
        assert(" "@ =~= seq![' ']);
        let next = " "@ + (shell_word(last) + rest);
        assert(joined(shown, " "@) + rest =~= joined(head.map_values(f), " "@) + next);
        assert forall|i: int| 0 <= i < head.len() implies (#[trigger] head[i]).len() > 0 by {
            assert(head[i] == ws[i]);
        }
        lemma_words(head, next);
        assert(next.drop_first() =~= shell_word(last) + rest);
        assert(head.drop_last().push(head.last()) =~= head);
        lemma_word(last, rest, head);
    }
}

/// Words that are not empty, each quoted where it has to be and a space between them, are
/// read back by a shell as exactly those words, whatever they hold.
pub proof fn law_quoted_words_split_back(ws: Seq<Seq<char>>)
    requires
        forall|i: int| 0 <= i < ws.len() ==> (#[trigger] ws[i]).len() > 0,
    ensures
        shell_words_of(joined(ws.map_values(|w: Seq<char>| shell_word(w)), " "@)) == Some(ws),
{
    let text = joined(ws.map_values(|w: Seq<char>| shell_word(w)), " "@);
    if ws.len() == 0 {
        assert(text =~= Seq::<char>::empty());
        assert(ws =~= Seq::<Seq<char>>::empty());
    } else {
        lemma_words(ws, Seq::empty());
        assert(text + Seq::<char>::empty() =~= text);
        assert(ws.drop_last().push(ws.last()) =~= ws);
    }
}

} // verus!
