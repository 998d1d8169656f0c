//! Text as sequences of characters: the small vocabulary of string operations that the
//! rest of the library is stated and proved over.

use vstd::prelude::*;
use vstd::string::*;
use vstd::utf8::encode_utf8;

verus! {

/// `String::push` appends one character to the end of the string.
pub assume_specification[ String::push ](s: &mut String, c: char)
    ensures
        final(s)@ == old(s)@.push(c),
;

// ---------------------------------------------------------------- views of lists

/// The contents of a list of strings.
pub open spec fn texts(v: Seq<String>) -> Seq<Seq<char>> {
    Seq::new(v.len(), |i: int| v[i]@)
}

/// The contents of a list of string slices.
pub open spec fn strs(v: Seq<&'static str>) -> Seq<Seq<char>> {
    Seq::new(v.len(), |i: int| v[i]@)
}

/// The contents of an optional string.
pub open spec fn opt_text(o: Option<String>) -> Option<Seq<char>> {
    match o {
        Some(s) => Some(s@),
        None => None,
    }
}

/// The contents of an optional string slice.
pub open spec fn opt_str(o: Option<&str>) -> Option<Seq<char>> {
    match o {
        Some(s) => Some(s@),
        None => None,
    }
}

pub proof fn lemma_texts_push(v: Seq<String>, s: String)
    ensures
        texts(v.push(s)) == texts(v).push(s@),
{
    assert(texts(v.push(s)) =~= texts(v).push(s@));
}

// ---------------------------------------------------------------- conversions

/// The characters of a string, one element each.
pub fn chars_of(s: &str) -> (r: Vec<char>)
    ensures
        r@ == s@,
{
    let mut v: Vec<char> = Vec::new();
    for c in it: s.chars()
        invariant
            it.seq() == s@,
            v@ == s@.take(it.index()),
    {
        proof {
            assert(s@.take(it.index() + 1) =~= s@.take(it.index()).push(c));
        }
        v.push(c);
    }
    assert(s@.take(s@.len() as int) =~= s@);
    v
}

/// The string made of the characters `v[from..to]`.
pub fn text_of(v: &Vec<char>, from: usize, to: usize) -> (r: String)
    requires
        from <= to <= v.len(),
    ensures
        r@ == v@.subrange(from as int, to as int),
{
    let mut s = String::new();
    let mut i: usize = from;
    assert(v@.subrange(from as int, from as int) =~= Seq::<char>::empty());
    while i < to
        invariant
            from <= i <= to <= v.len(),
            s@ == v@.subrange(from as int, i as int),
        decreases to - i,
    {
        s.push(v[i]);
        i = i + 1;
        assert(v@.subrange(from as int, i as int) =~= v@.subrange(from as int, i - 1).push(
            v@[i - 1],
        ));
    }
    s
}

/// Whether two strings hold the same characters.
pub fn same(a: &str, b: &str) -> (r: bool)
    ensures
        r == (a@ == b@),
{
    a.to_owned() == b.to_owned()
}

/// Whether an optional string is present and holds exactly `b`.
pub fn is_text(a: Option<&str>, b: &str) -> (r: bool)
    ensures
        r == (a is Some && a->0@ == b@),
{
    match a {
        Some(s) => same(s, b),
        None => false,
    }
}

/// Whether `name` is among `list`.
pub fn one_of(name: &str, list: &[&'static str]) -> (r: bool)
    ensures
        r == strs(list@).contains(name@),
{
    let mut i: usize = 0;
    while i < list.len()
        invariant
            i <= list.len(),
            forall|j: int| 0 <= j < i ==> #[trigger] strs(list@)[j] != name@,
        decreases list.len() - i,
    {
        if same(list[i], name) {
            assert(strs(list@)[i as int] == name@);
            return true;
        }
        i = i + 1;
    }
    false
}

/// Whether `name` is among `list`.
pub fn listed(name: &str, list: &Vec<String>) -> (r: bool)
    ensures
        r == texts(list@).contains(name@),
{
    let mut i: usize = 0;
    while i < list.len()
        invariant
            i <= list.len(),
            forall|j: int| 0 <= j < i ==> #[trigger] texts(list@)[j] != name@,
        decreases list.len() - i,
    {
        if same(list[i].as_str(), name) {
            assert(texts(list@)[i as int] == name@);
            return true;
        }
        i = i + 1;
    }
    false
}

// ---------------------------------------------------------------- concatenation

pub fn cat2(a: &str, b: &str) -> (r: String)
    ensures
        r@ == a@ + b@,
{
    let mut s = a.to_owned();
    s.append(b);
    s
}

pub fn cat3(a: &str, b: &str, c: &str) -> (r: String)
    ensures
        r@ == a@ + b@ + c@,
{
    let mut s = cat2(a, b);
    s.append(c);
    s
}

pub fn cat4(a: &str, b: &str, c: &str, d: &str) -> (r: String)
    ensures
        r@ == a@ + b@ + c@ + d@,
{
    let mut s = cat3(a, b, c);
    s.append(d);
    s
}

pub fn cat5(a: &str, b: &str, c: &str, d: &str, e: &str) -> (r: String)
    ensures
        r@ == a@ + b@ + c@ + d@ + e@,
{
    let mut s = cat4(a, b, c, d);
    s.append(e);
    s
}

pub fn cat6(a: &str, b: &str, c: &str, d: &str, e: &str, f: &str) -> (r: String)
    ensures
        r@ == a@ + b@ + c@ + d@ + e@ + f@,
{
    let mut s = cat5(a, b, c, d, e);
    s.append(f);
    s
}

pub fn cat7(a: &str, b: &str, c: &str, d: &str, e: &str, f: &str, g: &str) -> (r: String)
    ensures
        r@ == a@ + b@ + c@ + d@ + e@ + f@ + g@,
{
    let mut s = cat6(a, b, c, d, e, f);
    s.append(g);
    s
}

/// The pieces one after another with `sep` between neighbours.
pub open spec fn joined(parts: Seq<Seq<char>>, sep: Seq<char>) -> Seq<char>
    decreases parts.len(),
{
    if parts.len() == 0 {
        Seq::empty()
    } else if parts.len() == 1 {
        parts[0]
    } else {
        joined(parts.drop_last(), sep) + sep + parts.last()
    }
}

pub fn join(parts: &Vec<String>, sep: &str) -> (r: String)
    ensures
        r@ == joined(texts(parts@), sep@),
{
    let mut s = String::new();
    let mut i: usize = 0;
    assert(texts(parts@).take(0) =~= Seq::<Seq<char>>::empty());
    while i < parts.len()
        invariant
            i <= parts.len(),
            s@ == joined(texts(parts@).take(i as int), sep@),
        decreases parts.len() - i,
    {
        if i > 0 {
            s.append(sep);
        }
        s.append(parts[i].as_str());
        proof {
            let t = texts(parts@).take(i + 1);
            assert(t.drop_last() =~= texts(parts@).take(i as int));
            assert(t.last() == parts@[i as int]@);
            if i == 0 {
                assert(s@ =~= parts@[0]@);
            }
        }
        i = i + 1;
    }
    assert(texts(parts@).take(parts.len() as int) =~= texts(parts@));
    s
}

// ---------------------------------------------------------------- numbers as text

pub open spec fn digit_char(d: nat) -> char {
    ((48 + d) as u32) as char
}

/// The decimal numeral of `n`, without leading zeros.
pub open spec fn dec(n: nat) -> Seq<char>
    decreases n,
{
    if n < 10 {
        seq![digit_char(n)]
    } else {
        dec(n / 10).push(digit_char(n % 10))
    }
}

/// The decimal numeral of `n`, with a sign when it is negative.
pub open spec fn dec_int(n: int) -> Seq<char> {
    if n < 0 {
        seq!['-'] + dec((-n) as nat)
    } else {
        dec(n as nat)
    }
}

pub proof fn lemma_dec_starts_with_a_digit(n: nat)
    ensures
        dec(n).len() >= 1,
        '0' <= dec(n)[0] <= '9',
    decreases n,
{
    if n >= 10 {
        lemma_dec_starts_with_a_digit(n / 10);
    }
}

fn digit(d: u64) -> (c: char)
    requires
        d < 10,
    ensures
        c == digit_char(d as nat),
{
    match d {
        0 => '0',
        1 => '1',
        2 => '2',
        3 => '3',
        4 => '4',
        5 => '5',
        6 => '6',
        7 => '7',
        8 => '8',
        _ => '9',
    }
}

pub fn decimal(n: u64) -> (r: String)
    ensures
        r@ == dec(n as nat),
    decreases n,
{
    if n < 10 {
        let mut s = String::new();
        s.push(digit(n));
        assert(s@ =~= dec(n as nat));
        s
    } else {
        let mut s = decimal(n / 10);
        s.push(digit(n % 10));
        s
    }
}

pub fn decimal_int(n: i64) -> (r: String)
    ensures
        r@ == dec_int(n as int),
{
    if n < 0 {
        let m: u64 = if n == i64::MIN {
            0x8000_0000_0000_0000
        } else {
            (-n) as u64
        };
        let mut s = String::new();
        s.push('-');
        s.append(decimal(m).as_str());
        assert(s@ =~= seq!['-'] + dec(m as nat));
        s
    } else {
        decimal(n as u64)
    }
}

// ---------------------------------------------------------------- reading numbers

pub open spec fn is_digit(c: char) -> bool {
    '0' <= c <= '9'
}

/// The number that a run of decimal digits writes.
pub open spec fn num(s: Seq<char>) -> nat
    decreases s.len(),
{
    if s.len() == 0 {
        0
    } else {
        num(s.drop_last()) * 10 + (s.last() as int - 48) as nat
    }
}

pub open spec fn all_digits(s: Seq<char>) -> bool {
    s.len() > 0 && forall|i: int| 0 <= i < s.len() ==> is_digit(#[trigger] s[i])
}

/// The natural number that `s` writes: digits behind an optional plus sign.
pub open spec fn unsigned_of(s: Seq<char>) -> Option<nat> {
    let d = if s.len() > 0 && s[0] == '+' {
        s.drop_first()
    } else {
        s
    };
    if all_digits(d) {
        Some(num(d))
    } else {
        None
    }
}

/// A decimal numeral reads back as its number.
pub proof fn law_a_numeral_reads_back(n: nat)
    ensures
        unsigned_of(dec(n)) == Some(n),
{
    lemma_dec_starts_with_a_digit(n);
    lemma_dec_digits(n);
}

proof fn lemma_dec_digits(n: nat)
    ensures
        all_digits(dec(n)),
        num(dec(n)) == n,
    decreases n,
{
    if n >= 10 {
        lemma_dec_digits(n / 10);
        assert(dec(n).drop_last() =~= dec(n / 10));
    } else {
        assert(dec(n).drop_last() =~= Seq::<char>::empty());
        assert(num(Seq::<char>::empty()) == 0);
    }
}

/// The integer that `s` writes: digits behind an optional sign.
pub open spec fn signed_of(s: Seq<char>) -> Option<int> {
    if s.len() > 0 && s[0] == '-' {
        if all_digits(s.drop_first()) {
            Some(-(num(s.drop_first()) as int))
        } else {
            None
        }
    } else {
        match unsigned_of(s) {
            Some(n) => Some(n as int),
            None => None,
        }
    }
}

proof fn lemma_num_prefix(s: Seq<char>, i: int)
    requires
        0 <= i <= s.len(),
        forall|j: int| 0 <= j < s.len() ==> is_digit(#[trigger] s[j]),
    ensures
        num(s.take(i)) <= num(s),
    decreases s.len() - i,
{
    if i == s.len() {
        assert(s.take(i) =~= s);
    } else {
        lemma_num_prefix(s, i + 1);
        assert(s.take(i + 1).drop_last() =~= s.take(i));
    }
}

/// The value of `v[from..]` read as digits, when it is one and fits below `limit`.
fn digits_value(v: &Vec<char>, from: usize, limit: u64) -> (r: Option<u64>)
    requires
        from <= v.len(),
    ensures
        r == (if all_digits(v@.skip(from as int)) && num(v@.skip(from as int)) <= limit {
            Some(num(v@.skip(from as int)) as u64)
        } else {
            None
        }),
{
    let ghost d = v@.skip(from as int);
    if from == v.len() {
        return None;
    }
    let mut acc: u64 = 0;
    let mut i: usize = from;
    let mut over = false;
    while i < v.len()
        invariant
            from <= i <= v.len(),
            d == v@.skip(from as int),
            forall|j: int| 0 <= j < i - from ==> is_digit(#[trigger] d[j]),
            !over ==> acc == num(d.take(i - from)) && acc <= limit,
            over ==> num(d.take(i - from)) > limit,
        decreases v.len() - i,
    {
        let c = v[i];
        assert(c == d[i - from]);
        if c < '0' || c > '9' {
            return None;
        }
        let x: u64 = (c as u32 - 48) as u64;
        proof {
            assert(d.take(i - from + 1).drop_last() =~= d.take(i - from));
            assert(d.take(i - from + 1).last() == c);
        }
        if !over {
            if x > limit || acc > (limit - x) / 10 {
                over = true;
            } else {
                acc = acc * 10 + x;
            }
        }
        i = i + 1;
    }
    assert(d.take(v.len() - from) =~= d);
    if over {
        None
    } else {
        Some(acc)
    }
}

/// Reads a natural number that fits below `limit`.
pub fn parse_upto(s: &str, limit: u64) -> (r: Option<u64>)
    ensures
        r == (match unsigned_of(s@) {
            Some(n) if n <= limit => Some(n as u64),
            _ => None,
        }),
{
    let v = chars_of(s);
    assert(v@.skip(0) =~= v@);
    if v.len() > 0 && v[0] == '+' {
        assert(v@.skip(1) =~= v@.drop_first());
        digits_value(&v, 1, limit)
    } else {
        digits_value(&v, 0, limit)
    }
}

pub fn parse_u64(s: &str) -> (r: Option<u64>)
    ensures
        r == (match unsigned_of(s@) {
            Some(n) if n <= u64::MAX => Some(n as u64),
            _ => None,
        }),
{
    parse_upto(s, u64::MAX)
}

pub fn parse_i64(s: &str) -> (r: Option<i64>)
    ensures
        r == (match signed_of(s@) {
            Some(n) if i64::MIN <= n <= i64::MAX => Some(n as i64),
            _ => None,
        }),
{
    let v = chars_of(s);
    if v.len() > 0 && v[0] == '-' {
        assert(v@.skip(1) =~= v@.drop_first());
        match digits_value(&v, 1, 0x8000_0000_0000_0000) {
            Some(m) => if m == 0x8000_0000_0000_0000 {
                Some(i64::MIN)
            } else {
                Some(-(m as i64))
            },
            None => None,
        }
    } else {
        match parse_upto(s, 0x7fff_ffff_ffff_ffff) {
            Some(m) => Some(m as i64),
            None => None,
        }
    }
}

// ---------------------------------------------------------------- spaces

/// The characters that Unicode gives the property White_Space.
pub open spec fn is_space(c: char) -> bool {
    ||| '\u{9}' <= c <= '\u{d}'
    ||| c == ' '
    ||| c == '\u{85}'
    ||| c == '\u{a0}'
    ||| c == '\u{1680}'
    ||| '\u{2000}' <= c <= '\u{200a}'
    ||| c == '\u{2028}'
    ||| c == '\u{2029}'
    ||| c == '\u{202f}'
    ||| c == '\u{205f}'
    ||| c == '\u{3000}'
}

pub fn space(c: char) -> (r: bool)
    ensures
        r == is_space(c),
{
    ('\u{9}' <= c && c <= '\u{d}') || c == ' ' || c == '\u{85}' || c == '\u{a0}' || c
        == '\u{1680}' || ('\u{2000}' <= c && c <= '\u{200a}') || c == '\u{2028}' || c == '\u{2029}'
        || c == '\u{202f}' || c == '\u{205f}' || c == '\u{3000}'
}

pub open spec fn trim_start(s: Seq<char>) -> Seq<char>
    decreases s.len(),
{
    if s.len() > 0 && is_space(s[0]) {
        trim_start(s.drop_first())
    } else {
        s
    }
}

pub open spec fn trim_end(s: Seq<char>) -> Seq<char>
    decreases s.len(),
{
    if s.len() > 0 && is_space(s.last()) {
        trim_end(s.drop_last())
    } else {
        s
    }
}

/// `s` without the spaces at its two ends.
pub open spec fn trimmed(s: Seq<char>) -> Seq<char> {
    trim_end(trim_start(s))
}

pub fn trim(s: &str) -> (r: String)
    ensures
        r@ == trimmed(s@),
{
    let v = chars_of(s);
    let mut a: usize = 0;
    assert(v@.skip(0) =~= v@);
    while a < v.len() && space(v[a])
        invariant
            a <= v.len(),
            trim_start(v@) == trim_start(v@.skip(a as int)),
        decreases v.len() - a,
    {
        assert(v@.skip(a as int).drop_first() =~= v@.skip(a + 1));
        a = a + 1;
    }
    let mut b: usize = v.len();
    assert(v@.subrange(a as int, b as int) =~= v@.skip(a as int));
    while b > a && space(v[b - 1])
        invariant
            a <= b <= v.len(),
            trim_end(v@.skip(a as int)) == trim_end(v@.subrange(a as int, b as int)),
        decreases b - a,
    {
        assert(v@.subrange(a as int, b as int).drop_last() =~= v@.subrange(a as int, b - 1));
        b = b - 1;
    }
    text_of(&v, a, b)
}

/// The words of `s` that are complete, and the word being read at its end.
pub open spec fn words_so_far(s: Seq<char>) -> (Seq<Seq<char>>, Seq<char>)
    decreases s.len(),
{
    if s.len() == 0 {
        (Seq::empty(), Seq::empty())
    } else {
        let (done, open) = words_so_far(s.drop_last());
        if !is_space(s.last()) {
            (done, open.push(s.last()))
        } else if open.len() == 0 {
            (done, open)
        } else {
            (done.push(open), Seq::empty())
        }
    }
}

/// The maximal runs of characters that are not spaces, in order.
pub open spec fn words_of(s: Seq<char>) -> Seq<Seq<char>> {
    let (done, open) = words_so_far(s);
    if open.len() == 0 {
        done
    } else {
        done.push(open)
    }
}

pub open spec fn no_space(s: Seq<char>) -> bool {
    forall|i: int| 0 <= i < s.len() ==> !is_space(#[trigger] s[i])
}

proof fn lemma_words_so_far(s: Seq<char>)
    ensures
        forall|i: int|
            0 <= i < words_so_far(s).0.len() ==> (#[trigger] words_so_far(s).0[i]).len() > 0
                && no_space(words_so_far(s).0[i]),
        no_space(words_so_far(s).1),
    decreases s.len(),
{
    if s.len() > 0 {
        lemma_words_so_far(s.drop_last());
        let (done, open) = words_so_far(s.drop_last());
        let now = words_so_far(s).0;
        assert forall|i: int| 0 <= i < now.len() implies (#[trigger] now[i]).len() > 0 && no_space(
            now[i],
        ) by {
            if i < done.len() {
                assert(now[i] == done[i]);
            } else {
                assert(now[i] == open);
            }
        }
    }
}

/// No word is empty, and none holds a space.
pub proof fn lemma_words_are_words(s: Seq<char>)
    ensures
        forall|i: int|
            0 <= i < words_of(s).len() ==> (#[trigger] words_of(s)[i]).len() > 0 && no_space(
                words_of(s)[i],
            ),
{
    lemma_words_so_far(s);
}

/// A word that stands at `from` in `s`, behind complete words, up to a space or the end.
pub proof fn lemma_word_at(s: Seq<char>, done: Seq<Seq<char>>, from: int, to: int)
    requires
        0 <= from < to <= s.len(),
        words_so_far(s.take(from)) == (done, Seq::<char>::empty()),
        forall|i: int| from <= i < to ==> !is_space(#[trigger] s[i]),
    ensures
        words_so_far(s.take(to)) == (done, s.subrange(from, to)),
        to < s.len() && is_space(s[to]) ==> words_so_far(s.take(to + 1)) == (
            done.push(s.subrange(from, to)),
            Seq::<char>::empty(),
        ),
        to == s.len() ==> words_of(s) == done.push(s.subrange(from, to)),
    decreases to - from,
{
    assert(s.take(to).drop_last() =~= s.take(to - 1));
    assert(s.take(to).last() == s[to - 1]);
    if to - 1 > from {
        lemma_word_at(s, done, from, to - 1);
        assert(s.subrange(from, to - 1).push(s[to - 1]) =~= s.subrange(from, to));
    } else {
        assert(Seq::<char>::empty().push(s[to - 1]) =~= s.subrange(from, to));
    }
    assert(words_so_far(s.take(to)) == (done, s.subrange(from, to)));
    if to < s.len() {
        assert(s.take(to + 1).drop_last() =~= s.take(to));
        assert(s.take(to + 1).last() == s[to]);
    } else {
        assert(s.take(to) =~= s);
    }
}

pub fn words(s: &str) -> (r: Vec<String>)
    ensures
        texts(r@) == words_of(s@),
{
    let v = chars_of(s);
    let mut done: Vec<String> = Vec::new();
    let mut from: usize = 0;
    let mut i: usize = 0;
    assert(texts(done@) =~= Seq::<Seq<char>>::empty());
    assert(v@.take(0) =~= Seq::<char>::empty());
    assert(v@.subrange(0, 0) =~= Seq::<char>::empty());
    while i < v.len()
        invariant
            from <= i <= v.len(),
            words_so_far(v@.take(i as int)) == (texts(done@), v@.subrange(from as int, i as int)),
        decreases v.len() - i,
    {
        let c = v[i];
        assert(v@.take(i + 1).drop_last() =~= v@.take(i as int));
        assert(v@.take(i + 1).last() == c);
        if space(c) {
            if from < i {
                let w = text_of(&v, from, i);
                proof {
                    lemma_texts_push(done@, w);
                }
                done.push(w);
            }
            from = i + 1;
            assert(v@.subrange(i + 1, i + 1) =~= Seq::<char>::empty());
            assert(v@.subrange(from as int, i + 1) =~= Seq::<char>::empty());
        } else {
            assert(v@.subrange(from as int, i as int).push(c) =~= v@.subrange(
                from as int,
                i + 1,
            ));
        }
        i = i + 1;
    }
    assert(v@.take(v.len() as int) =~= v@);
    if from < v.len() {
        let w = text_of(&v, from, v.len());
        proof {
            lemma_texts_push(done@, w);
        }
        done.push(w);
    }
    done
}

// ---------------------------------------------------------------- pieces

/// The pieces of `s` between occurrences of `sep`; always at least one.
pub open spec fn pieces(s: Seq<char>, sep: char) -> Seq<Seq<char>>
    decreases s.len(),
{
    if s.len() == 0 {
        seq![Seq::empty()]
    } else {
        let p = pieces(s.drop_last(), sep);
        if s.last() == sep {
            p.push(Seq::empty())
        } else {
            p.drop_last().push(p.last().push(s.last()))
        }
    }
}

pub proof fn lemma_pieces_nonempty(s: Seq<char>, sep: char)
    ensures
        pieces(s, sep).len() >= 1,
    decreases s.len(),
{
    if s.len() > 0 {
        lemma_pieces_nonempty(s.drop_last(), sep);
    }
}

pub fn split(s: &str, sep: char) -> (r: Vec<String>)
    ensures
        texts(r@) == pieces(s@, sep),
        r.len() >= 1,
{
    let v = chars_of(s);
    let mut done: Vec<String> = Vec::new();
    let mut from: usize = 0;
    let mut i: usize = 0;
    assert(v@.take(0) =~= Seq::<char>::empty());
    assert(texts(done@).push(v@.subrange(0, 0)) =~= pieces(v@.take(0), sep));
    while i < v.len()
        invariant
            from <= i <= v.len(),
            pieces(v@.take(i as int), sep) == texts(done@).push(
                v@.subrange(from as int, i as int),
            ),
        decreases v.len() - i,
    {
        let c = v[i];
        assert(v@.take(i + 1).drop_last() =~= v@.take(i as int));
        assert(v@.take(i + 1).last() == c);
        if c == sep {
            let w = text_of(&v, from, i);
            proof {
                lemma_texts_push(done@, w);
            }
            done.push(w);
            from = i + 1;
            assert(v@.subrange(i + 1, i + 1) =~= Seq::<char>::empty());
        } else {
            assert(v@.subrange(from as int, i as int).push(c) =~= v@.subrange(
                from as int,
                i + 1,
            ));
            assert(texts(done@).push(v@.subrange(from as int, i as int)).drop_last() =~= texts(
                done@,
            ));
        }
        i = i + 1;
    }
    assert(v@.take(v.len() as int) =~= v@);
    let w = text_of(&v, from, v.len());
    proof {
        lemma_texts_push(done@, w);
    }
    done.push(w);
    done
}

/// How many characters of `s` come before the first `c`; all of them when there is none.
pub open spec fn position(s: Seq<char>, c: char) -> nat
    decreases s.len(),
{
    if s.len() == 0 || s[0] == c {
        0
    } else {
        1 + position(s.drop_first(), c)
    }
}

pub proof fn lemma_position(s: Seq<char>, c: char)
    ensures
        position(s, c) <= s.len(),
        position(s, c) < s.len() ==> s[position(s, c) as int] == c,
        forall|i: int| 0 <= i < position(s, c) ==> #[trigger] s[i] != c,
    decreases s.len(),
{
    if s.len() == 0 || s[0] == c {
    } else {
        let t = s.drop_first();
        lemma_position(t, c);
        assert forall|i: int| 0 <= i < position(s, c) implies #[trigger] s[i] != c by {
            if i > 0 {
                assert(s[i] == t[i - 1]);
            }
        }
    }
}

pub proof fn lemma_position_unique(s: Seq<char>, c: char, i: int)
    requires
        0 <= i <= s.len(),
        i < s.len() ==> s[i] == c,
        forall|j: int| 0 <= j < i ==> #[trigger] s[j] != c,
    ensures
        position(s, c) == i,
{
    lemma_position(s, c);
    if position(s, c) < i {
        assert(s[position(s, c) as int] != c);
    }
}

fn first_index(v: &Vec<char>, c: char) -> (r: usize)
    ensures
        r == position(v@, c),
        r <= v.len(),
{
    let mut i: usize = 0;
    while i < v.len() && v[i] != c
        invariant
            i <= v.len(),
            forall|j: int| 0 <= j < i ==> #[trigger] v@[j] != c,
        decreases v.len() - i,
    {
        i = i + 1;
    }
    proof {
        lemma_position_unique(v@, c, i as int);
    }
    i
}

/// What stands before and after the first `sep`, when there is one.
pub open spec fn cut(s: Seq<char>, sep: char) -> Option<(Seq<char>, Seq<char>)> {
    let i = position(s, sep) as int;
    if i < s.len() {
        Some((s.take(i), s.skip(i + 1)))
    } else {
        None
    }
}

pub fn split_once(s: &str, sep: char) -> (r: Option<(String, String)>)
    ensures
        match r {
            Some(p) => cut(s@, sep) == Some((p.0@, p.1@)),
            None => cut(s@, sep) is None,
        },
{
    let v = chars_of(s);
    let i = first_index(&v, sep);
    if i < v.len() {
        let a = text_of(&v, 0, i);
        let b = text_of(&v, i + 1, v.len());
        assert(a@ =~= s@.take(i as int));
        assert(b@ =~= s@.skip(i + 1));
        Some((a, b))
    } else {
        None
    }
}

/// What stands behind the last `sep`; all of `s` when there is none.
pub open spec fn after_last(s: Seq<char>, sep: char) -> Seq<char>
    decreases s.len(),
{
    if s.len() == 0 || s.last() == sep {
        Seq::empty()
    } else {
        after_last(s.drop_last(), sep).push(s.last())
    }
}

proof fn lemma_after_last(s: Seq<char>, sep: char, i: int)
    requires
        0 <= i <= s.len(),
        i > 0 ==> s[i - 1] == sep,
        forall|j: int| i <= j < s.len() ==> #[trigger] s[j] != sep,
    ensures
        after_last(s, sep) == s.skip(i),
    decreases s.len(),
{
    if s.len() == i {
        assert(s.skip(i) =~= Seq::<char>::empty());
    } else {
        assert(s[s.len() - 1] != sep);
        lemma_after_last(s.drop_last(), sep, i);
        assert(s.drop_last().skip(i).push(s.last()) =~= s.skip(i));
    }
}

pub fn tail_after(s: &str, sep: char) -> (r: String)
    ensures
        r@ == after_last(s@, sep),
{
    let v = chars_of(s);
    let mut i: usize = v.len();
    while i > 0 && v[i - 1] != sep
        invariant
            i <= v.len(),
            forall|j: int| i <= j < v.len() ==> #[trigger] v@[j] != sep,
        decreases i,
    {
        i = i - 1;
    }
    let r = text_of(&v, i, v.len());
    proof {
        lemma_after_last(v@, sep, i as int);
        assert(r@ =~= v@.skip(i as int));
    }
    r
}

/// The lines of `s`: each ends at a line feed, with an optional carriage return before it;
/// what follows the last line feed is a line unless it is empty.
pub open spec fn lines_of(s: Seq<char>) -> Seq<Seq<char>> {
    let p = pieces(s, '\n');
    let closed = p.drop_last().map_values(|l: Seq<char>| without_return(l));
    if p.last().len() == 0 {
        closed
    } else {
        closed.push(p.last())
    }
}

pub open spec fn without_return(l: Seq<char>) -> Seq<char> {
    if l.len() > 0 && l.last() == '\r' {
        l.drop_last()
    } else {
        l
    }
}

pub fn lines(s: &str) -> (r: Vec<String>)
    ensures
        texts(r@) == lines_of(s@),
{
    let p = split(s, '\n');
    let mut out: Vec<String> = Vec::new();
    let mut i: usize = 0;
    let ghost all = pieces(s@, '\n');
    let ghost f = |l: Seq<char>| without_return(l);
    assert(texts(out@) =~= all.drop_last().map_values(f).take(0));
    while i < p.len() - 1
        invariant
            p.len() >= 1,
            i <= p.len() - 1,
            texts(p@) == all,
            f == (|l: Seq<char>| without_return(l)),
            texts(out@) == all.drop_last().map_values(f).take(i as int),
        decreases p.len() - i,
    {
        let v = chars_of(p[i].as_str());
        assert(v@ == all[i as int]);
        let n = v.len();
        let l = if n > 0 && v[n - 1] == '\r' {
            text_of(&v, 0, n - 1)
        } else {
            text_of(&v, 0, n)
        };
        proof {
            assert(l@ =~= without_return(v@));
            lemma_texts_push(out@, l);
            assert(all.drop_last().map_values(f).take(i + 1) =~= all.drop_last().map_values(f).take(
                i as int,
            ).push(l@));
        }
        out.push(l);
        i = i + 1;
    }
    assert(all.drop_last().map_values(f).take(i as int) =~= all.drop_last().map_values(f));
    let last = p[p.len() - 1].clone();
    assert(last@ == all.last());
    if !last.as_str().is_empty() {
        proof {
            lemma_texts_push(out@, last);
        }
        out.push(last);
    }
    out
}

/// How many bytes a text takes in UTF-8.
pub fn byte_len(s: &str) -> (r: usize)
    ensures
        r == encode_utf8(s@).len(),
{
    let bytes = s.as_bytes();
    bytes.len()
}

/// The first `n` characters of `s`, or all of it when it is shorter.
pub open spec fn clipped(s: Seq<char>, n: nat) -> Seq<char> {
    if s.len() <= n {
        s
    } else {
        s.take(n as int)
    }
}

pub fn clip(s: &str, n: usize) -> (r: String)
    ensures
        r@ == clipped(s@, n as nat),
{
    let v = chars_of(s);
    if v.len() <= n {
        s.to_owned()
    } else {
        let t = text_of(&v, 0, n);
        assert(t@ =~= s@.take(n as int));
        t
    }
}

/// Where the first white space stands, or the length when there is none.
pub open spec fn first_space(s: Seq<char>) -> nat
    decreases s.len(),
{
    if s.len() == 0 || is_space(s[0]) {
        0
    } else {
        1 + first_space(s.drop_first())
    }
}

proof fn lemma_first_space(s: Seq<char>, i: int)
    requires
        0 <= i <= s.len(),
        forall|j: int| 0 <= j < i ==> !is_space(s[j]),
        i == s.len() || is_space(s[i]),
    ensures
        first_space(s) == i,
    decreases s.len(),
{
    if i > 0 {
        assert(!is_space(s[0]));
        let t = s.drop_first();
        assert forall|j: int| 0 <= j < i - 1 implies !is_space(t[j]) by {
            assert(t[j] == s[j + 1]);
        }
        lemma_first_space(t, i - 1);
    }
}

/// What stands before and after the first white space, when there is any.
pub open spec fn cut_space(s: Seq<char>) -> Option<(Seq<char>, Seq<char>)> {
    let i = first_space(s) as int;
    if i < s.len() {
        Some((s.take(i), s.skip(i + 1)))
    } else {
        None
    }
}

pub fn split_space(s: &str) -> (r: Option<(String, String)>)
    ensures
        match r {
            Some(p) => cut_space(s@) == Some((p.0@, p.1@)),
            None => cut_space(s@) is None,
        },
{
    let v = chars_of(s);
    let mut i: usize = 0;
    while i < v.len() && !space(v[i])
        invariant
            i <= v.len(),
            v@ == s@,
            forall|j: int| 0 <= j < i ==> !is_space(v@[j]),
        decreases v.len() - i,
    {
        i = i + 1;
    }
    proof {
        lemma_first_space(s@, i as int);
    }
    if i < v.len() {
        let a = text_of(&v, 0, i);
        let b = text_of(&v, i + 1, v.len());
        assert(a@ =~= s@.take(i as int));
        assert(b@ =~= s@.skip(i + 1));
        Some((a, b))
    } else {
        None
    }
}

// ---------------------------------------------------------------- beginnings, ends, insides

pub fn starts_with(s: &str, p: &str) -> (r: bool)
    ensures
        r == p@.is_prefix_of(s@),
{
    let v = chars_of(s);
    let w = chars_of(p);
    if w.len() > v.len() {
        return false;
    }
    let head = text_of(&v, 0, w.len());
    same(head.as_str(), p)
}

pub fn ends_with(s: &str, p: &str) -> (r: bool)
    ensures
        r == p@.is_suffix_of(s@),
{
    let v = chars_of(s);
    let w = chars_of(p);
    if w.len() > v.len() {
        return false;
    }
    let tail = text_of(&v, v.len() - w.len(), v.len());
    same(tail.as_str(), p)
}

pub fn strip_prefix(s: &str, p: &str) -> (r: Option<String>)
    ensures
        match r {
            Some(t) => p@.is_prefix_of(s@) && t@ == s@.skip(p@.len() as int),
            None => !p@.is_prefix_of(s@),
        },
{
    if starts_with(s, p) {
        let v = chars_of(s);
        let w = chars_of(p);
        let t = text_of(&v, w.len(), v.len());
        assert(t@ =~= s@.skip(p@.len() as int));
        Some(t)
    } else {
        None
    }
}

pub fn strip_suffix(s: &str, p: &str) -> (r: Option<String>)
    ensures
        match r {
            Some(t) => p@.is_suffix_of(s@) && t@ == s@.take(s@.len() - p@.len()),
            None => !p@.is_suffix_of(s@),
        },
{
    if ends_with(s, p) {
        let v = chars_of(s);
        let w = chars_of(p);
        let t = text_of(&v, 0, v.len() - w.len());
        assert(t@ =~= s@.take(s@.len() - p@.len()));
        Some(t)
    } else {
        None
    }
}

/// `part` stands in `s` from index `i` on.
pub open spec fn stands_at(s: Seq<char>, part: Seq<char>, i: int) -> bool {
    0 <= i && i + part.len() <= s.len() && s.subrange(i, i + part.len()) == part
}

/// `part` stands somewhere in `s`.
pub open spec fn occurs(s: Seq<char>, part: Seq<char>) -> bool {
    exists|i: int| #[trigger] stands_at(s, part, i)
}

pub fn contains(s: &str, part: &str) -> (r: bool)
    ensures
        r == occurs(s@, part@),
{
    let v = chars_of(s);
    let w = chars_of(part);
    if w.len() > v.len() {
        return false;
    }
    let last: usize = v.len() - w.len();
    let mut i: usize = 0;
    loop
        invariant
            last == v.len() - w.len(),
            i <= last,
            v@ == s@,
            w@ == part@,
            forall|j: int| 0 <= j < i ==> !#[trigger] stands_at(s@, part@, j),
        decreases last - i,
    {
        let here = text_of(&v, i, i + w.len());
        if same(here.as_str(), part) {
            assert(stands_at(s@, part@, i as int));
            return true;
        }
        if i == last {
            return false;
        }
        i = i + 1;
    }
}

/// Where `part` first stands in `s`.
pub open spec fn first_at(s: Seq<char>, part: Seq<char>) -> Option<nat>
    decreases s.len(),
{
    if part.is_prefix_of(s) {
        Some(0)
    } else if s.len() == 0 {
        None
    } else {
        match first_at(s.drop_first(), part) {
            Some(i) => Some(i + 1),
            None => None,
        }
    }
}

/// `part` stands in the characters from index `i` on.
fn begins_at(v: &Vec<char>, i: usize, part: &str, len: usize) -> (r: bool)
    requires
        i <= v.len(),
        len == part@.len(),
    ensures
        r == part@.is_prefix_of(v@.skip(i as int)),
{
    if len > v.len() - i {
        return false;
    }
    let here = text_of(v, i, i + len);
    assert(here@ =~= v@.skip(i as int).subrange(0, len as int));
    same(here.as_str(), part)
}

pub fn find(s: &str, part: &str) -> (r: Option<usize>)
    ensures
        (match r {
            Some(i) => Some(i as nat),
            None => None,
        }) == first_at(s@, part@),
        r matches Some(i) ==> i + part@.len() <= s@.len(),
{
    let v = chars_of(s);
    let n = chars_of(part).len();
    let mut i: usize = 0;
    assert(s@.skip(0) =~= s@);
    while i < v.len()
        invariant
            i <= v.len(),
            v@ == s@,
            n == part@.len(),
            first_at(s@, part@) == (match first_at(s@.skip(i as int), part@) {
                Some(k) => Some(k + i as nat),
                None => None,
            }),
        decreases v.len() - i,
    {
        if begins_at(&v, i, part, n) {
            return Some(i);
        }
        assert(s@.skip(i as int).drop_first() =~= s@.skip(i + 1));
        i = i + 1;
    }
    if n == 0 {
        assert(part@.is_prefix_of(s@.skip(i as int)));
        Some(i)
    } else {
        None
    }
}

/// How often `part` stands in `s`, occurrences that overlap an earlier one not counted.
pub open spec fn occurrences(s: Seq<char>, part: Seq<char>) -> nat
    decreases s.len(),
{
    if part.len() == 0 || s.len() < part.len() {
        0
    } else if part.is_prefix_of(s) {
        1 + occurrences(s.skip(part.len() as int), part)
    } else {
        occurrences(s.drop_first(), part)
    }
}

pub fn count(s: &str, part: &str) -> (r: usize)
    requires
        part@.len() > 0,
    ensures
        r == occurrences(s@, part@),
        r <= s@.len(),
{
    let v = chars_of(s);
    let n = chars_of(part).len();
    let mut i: usize = 0;
    let mut c: usize = 0;
    assert(s@.skip(0) =~= s@);
    while n <= v.len() - i
        invariant
            i <= v.len(),
            c <= i,
            v@ == s@,
            n == part@.len(),
            n > 0,
            occurrences(s@, part@) == c + occurrences(s@.skip(i as int), part@),
        decreases v.len() - i,
    {
        if begins_at(&v, i, part, n) {
            assert(s@.skip(i as int).skip(n as int) =~= s@.skip(i + n));
            c = c + 1;
            i = i + n;
        } else {
            assert(s@.skip(i as int).drop_first() =~= s@.skip(i + 1));
            i = i + 1;
        }
    }
    c
}

pub fn contains_char(s: &str, c: char) -> (r: bool)
    ensures
        r == s@.contains(c),
{
    let v = chars_of(s);
    let i = first_index(&v, c);
    proof {
        lemma_position(v@, c);
        if i < v.len() {
            assert(s@[i as int] == c);
        }
    }
    i < v.len()
}

/// `s` with every `from` replaced by `to`.
pub open spec fn replaced(s: Seq<char>, from: char, to: Seq<char>) -> Seq<char>
    decreases s.len(),
{
    if s.len() == 0 {
        s
    } else if s.last() == from {
        replaced(s.drop_last(), from, to) + to
    } else {
        replaced(s.drop_last(), from, to).push(s.last())
    }
}

pub fn replace(s: &str, from: char, to: &str) -> (r: String)
    ensures
        r@ == replaced(s@, from, to@),
{
    let v = chars_of(s);
    let mut out = String::new();
    let mut i: usize = 0;
    assert(v@.take(0) =~= Seq::<char>::empty());
    while i < v.len()
        invariant
            i <= v.len(),
            out@ == replaced(v@.take(i as int), from, to@),
        decreases v.len() - i,
    {
        assert(v@.take(i + 1).drop_last() =~= v@.take(i as int));
        if v[i] == from {
            out.append(to);
        } else {
            out.push(v[i]);
        }
        i = i + 1;
    }
    assert(v@.take(v.len() as int) =~= v@);
    out
}

// ---------------------------------------------------------------- what std makes of a text

/// The lower case of a text, as `str::to_lowercase` gives it.
pub uninterp spec fn lowercase(s: Seq<char>) -> Seq<char>;

/// The upper case of a text, as `str::to_uppercase` gives it.
pub uninterp spec fn uppercase(s: Seq<char>) -> Seq<char>;

/// What the `Debug` form of `str` writes between its double quotes.
pub uninterp spec fn escaped(s: Seq<char>) -> Seq<char>;

/// A text in double quotes with escapes, as the `Debug` form of `str` gives it.
pub open spec fn quoted(s: Seq<char>) -> Seq<char> {
    seq!['"'] + escaped(s) + seq!['"']
}

/// `str::to_lowercase`: each character in the lower case that Unicode gives it.
#[verifier::external_body]
pub(crate) fn to_lowercase(s: &str) -> (r: String)
    ensures
        r@ == lowercase(s@),
{
    s.to_lowercase()
}

/// `str::to_uppercase`: each character in the upper case that Unicode gives it.
#[verifier::external_body]
pub(crate) fn to_uppercase(s: &str) -> (r: String)
    ensures
        r@ == uppercase(s@),
{
    s.to_uppercase()
}

/// The `Debug` form of a string slice: the text in double quotes, with escapes in it. What is
/// escaped, and how, is not stated.
#[verifier::external_body]
pub(crate) fn debug_text(s: &str) -> (r: String)
    ensures
        r@ == seq!['"'] + escaped(s@) + seq!['"'],
{
    format!("{s:?}")
}

/// What `char::is_alphanumeric` says of a character.
pub uninterp spec fn alphanumeric(c: char) -> bool;

/// `char::is_alphanumeric`: whether Unicode counts the character as a letter or a number.
/// Which characters those are is not stated.
#[verifier::external_body]
pub(crate) fn is_alphanumeric(c: char) -> (r: bool)
    ensures
        r == alphanumeric(c),
{
    c.is_alphanumeric()
}

/// What `String::from_utf8_lossy` reads out of bytes.
pub uninterp spec fn lossy_text(bytes: Seq<u8>) -> Seq<char>;

/// `String::from_utf8_lossy`: the text that the bytes encode, with a replacement character
/// for what is not UTF-8. Where the replacements fall is not stated.
#[verifier::external_body]
pub(crate) fn lossy(bytes: &Vec<u8>) -> (r: String)
    ensures
        r@ == lossy_text(bytes@),
{
    String::from_utf8_lossy(bytes).into_owned()
}

// ---------------------------------------------------------------- order

/// `a` comes before `b`: code point by code point, a shorter text before its extensions.
pub open spec fn lt(a: Seq<char>, b: Seq<char>) -> bool
    decreases a.len(),
{
    if b.len() == 0 {
        false
    } else if a.len() == 0 {
        true
    } else if a[0] != b[0] {
        a[0] < b[0]
    } else {
        lt(a.drop_first(), b.drop_first())
    }
}

pub proof fn lemma_lt_irreflexive(a: Seq<char>)
    ensures
        !lt(a, a),
    decreases a.len(),
{
    if a.len() > 0 {
        lemma_lt_irreflexive(a.drop_first());
    }
}

pub proof fn lemma_lt_transitive(a: Seq<char>, b: Seq<char>, c: Seq<char>)
    requires
        lt(a, b),
        lt(b, c),
    ensures
        lt(a, c),
    decreases a.len(),
{
    if a.len() > 0 && a[0] == b[0] && b[0] == c[0] {
        lemma_lt_transitive(a.drop_first(), b.drop_first(), c.drop_first());
    }
}

pub proof fn lemma_lt_total(a: Seq<char>, b: Seq<char>)
    ensures
        lt(a, b) || lt(b, a) || a == b,
    decreases a.len(),
{
    if a.len() > 0 && b.len() > 0 {
        if a[0] == b[0] {
            lemma_lt_total(a.drop_first(), b.drop_first());
            if a.drop_first() == b.drop_first() {
                assert(a =~= seq![a[0]] + a.drop_first());
                assert(b =~= seq![b[0]] + b.drop_first());
            }
        }
    } else if a.len() == 0 && b.len() == 0 {
        assert(a =~= b);
    }
}

pub fn before(a: &str, b: &str) -> (r: bool)
    ensures
        r == lt(a@, b@),
{
    let v = chars_of(a);
    let w = chars_of(b);
    let mut i: usize = 0;
    assert(v@.skip(0) =~= v@);
    assert(w@.skip(0) =~= w@);
    while i < v.len() && i < w.len() && v[i] == w[i]
        invariant
            i <= v.len(),
            i <= w.len(),
            lt(v@, w@) == lt(v@.skip(i as int), w@.skip(i as int)),
        decreases v.len() - i,
    {
        assert(v@.skip(i as int).drop_first() =~= v@.skip(i + 1));
        assert(w@.skip(i as int).drop_first() =~= w@.skip(i + 1));
        i = i + 1;
    }
    if i == w.len() {
        false
    } else if i == v.len() {
        true
    } else {
        v[i] < w[i]
    }
}

} // verus!
