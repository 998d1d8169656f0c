//! What a numeral is worth, and in which order texts stand.

use vstd::multiset::Multiset;
use vstd::prelude::*;
use crate::numeral::{
    exceeds, exponent_mark, exponent_of, greater_at, lies_between, lowered, nothing, place,
    point_mark, real_of, standing_of, Bound, Numeral, Real, Standing,
};
use crate::order::{lemma_ordered, ordered};
use crate::sampling::{positional, zeros};
use crate::text::{all_digits, cut, dec, dec_int, is_digit, lt, num, position};

verus! {

// ---------------------------------------------------------------- worth

/// What stands before the last digit of a numeral.
spec fn before(x: Numeral) -> Numeral {
    Numeral {
        digits: if x.digits.len() > 0 {
            x.digits.drop_last()
        } else {
            x.digits
        },
        scale: x.scale + 1,
    }
}

proof fn lemma_places(x: Numeral, p: int)
    requires
        forall|i: int| 0 <= i < x.digits.len() ==> is_digit(#[trigger] x.digits[i]),
    ensures
        p < x.scale ==> place(x, p) == 0,
        p > x.scale ==> place(x, p) == place(before(x), p),
        p <= x.scale ==> place(before(x), p) == 0,
        x.digits.len() > 0 ==> place(x, x.scale) == x.digits.last() as int - 48,
        x.digits.len() == 0 ==> place(x, p) == 0,
        0 <= place(x, p) <= 9,
        num(x.digits) == 10 * num(before(x).digits) + place(x, x.scale),
{
    let i = x.digits.len() - 1 - (p - x.scale);
    if 0 <= i < x.digits.len() {
        assert(is_digit(x.digits[i]));
    }
    let last = x.digits.len() - 1;
    if x.digits.len() > 0 {
        assert(is_digit(x.digits[last]));
    }
}

/// Of two numerals with the same last place the one that writes the greater number is the
/// greater.
pub proof fn law_the_greater_number_is_the_greater_numeral(x: Numeral, y: Numeral)
    requires
        x.scale == y.scale,
        forall|i: int| 0 <= i < x.digits.len() ==> is_digit(#[trigger] x.digits[i]),
        forall|i: int| 0 <= i < y.digits.len() ==> is_digit(#[trigger] y.digits[i]),
    ensures
        exceeds(x, y) <==> num(x.digits) > num(y.digits),
        (forall|p: int| #[trigger] place(x, p) == place(y, p)) <==> num(x.digits) == num(y.digits),
    decreases x.digits.len() + y.digits.len(),
{
    if x.digits.len() == 0 && y.digits.len() == 0 {
        assert forall|p: int| #[trigger] place(x, p) == place(y, p) by {}
        if exceeds(x, y) {
            let p = choose|p: int| #[trigger] greater_at(x, y, p);
            assert(place(x, p) > place(y, p));
        }
    } else {
        let (u, v) = (before(x), before(y));
        assert forall|i: int| 0 <= i < u.digits.len() implies is_digit(#[trigger] u.digits[i]) by {
            assert(u.digits[i] == x.digits[i]);
        }
        assert forall|i: int| 0 <= i < v.digits.len() implies is_digit(#[trigger] v.digits[i]) by {
            assert(v.digits[i] == y.digits[i]);
        }
        law_the_greater_number_is_the_greater_numeral(u, v);
        let s = x.scale;
        lemma_places(x, s);
        lemma_places(y, s);
        assert forall|p: int|
            (p > s ==> #[trigger] place(x, p) == place(u, p)) && (p < s ==> place(x, p) == 0) by {
            lemma_places(x, p);
        }
        assert forall|p: int|
            (p > s ==> #[trigger] place(y, p) == place(v, p)) && (p < s ==> place(y, p) == 0) by {
            lemma_places(y, p);
        }
        assert forall|p: int| p <= s implies #[trigger] place(u, p) == 0 by {
            lemma_places(x, p);
        }
        assert forall|p: int| p <= s implies #[trigger] place(v, p) == 0 by {
            lemma_places(y, p);
        }
        let (a, b) = (place(x, s), place(y, s));
        if exceeds(u, v) {
            let p = choose|p: int| #[trigger] greater_at(u, v, p);
            assert(place(u, p) > place(v, p));
            assert(p > s);
            assert forall|q: int| q > p implies #[trigger] place(x, q) == place(y, q) by {
                assert(place(u, q) == place(v, q));
            }
            assert(greater_at(x, y, p));
        }
        if num(u.digits) == num(v.digits) && a > b {
            assert forall|q: int| q > s implies #[trigger] place(x, q) == place(y, q) by {
                assert(place(u, q) == place(v, q));
            }
            assert(greater_at(x, y, s));
        }
        if exceeds(x, y) {
            let p = choose|p: int| #[trigger] greater_at(x, y, p);
            assert(place(x, p) > place(y, p));
            if p > s {
                assert forall|q: int| q > p implies #[trigger] place(u, q) == place(v, q) by {
                    assert(place(x, q) == place(y, q));
                }
                assert(greater_at(u, v, p));
            } else {
                assert(p == s);
                assert forall|q: int| #[trigger] place(u, q) == place(v, q) by {
                    if q > s {
                        assert(place(x, q) == place(y, q));
                    }
                }
            }
        }
        if forall|p: int| #[trigger] place(x, p) == place(y, p) {
            assert(a == b);
            assert forall|q: int| #[trigger] place(u, q) == place(v, q) by {
                if q > s {
                    assert(place(x, q) == place(y, q));
                }
            }
        }
        if num(x.digits) == num(y.digits) {
            assert(num(u.digits) == num(v.digits) && a == b);
            assert forall|p: int| #[trigger] place(x, p) == place(y, p) by {
                assert(place(u, p) == place(v, p));
                if p == s {
                    assert(place(x, s) == a);
                }
            }
        }
    }
}

/// Zeros behind a numeral, with its last place moved as far, change nothing of what it is
/// worth.
pub proof fn law_trailing_zeros_change_no_worth(x: Numeral, k: nat, p: int)
    ensures
        place(Numeral { digits: x.digits + zeros(k), scale: x.scale - k }, p) == place(x, p),
{
}

// ---------------------------------------------------------------- reading

proof fn lemma_mark(s: Seq<char>, i: int, k: int)
    requires
        0 <= i <= k <= s.len(),
        forall|j: int| i <= j < k ==> s[j] != 'e' && s[j] != 'E',
        k < s.len() ==> s[k] == 'e' || s[k] == 'E',
    ensures
        exponent_mark(s, i) == k,
    decreases k - i,
{
    if i < k {
        lemma_mark(s, i + 1, k);
    }
}

proof fn lemma_point(s: Seq<char>, i: int, k: int)
    requires
        0 <= i <= k <= s.len(),
        forall|j: int| i <= j < k ==> s[j] != '.',
        k < s.len() ==> s[k] == '.',
    ensures
        point_mark(s, i) == k,
    decreases k - i,
{
    if i < k {
        lemma_point(s, i + 1, k);
    }
}

proof fn lemma_not_a_word(body: Seq<char>)
    requires
        body.len() > 0,
        is_digit(body[0]) || body[0] == '.',
    ensures
        lowered(body) != "inf"@,
        lowered(body) != "infinity"@,
        lowered(body) != "nan"@,
{
    reveal_strlit("inf");
    reveal_strlit("infinity");
    reveal_strlit("nan");
    assert(lowered(body)[0] == body[0]);
    assert("inf"@[0] == 'i' && "infinity"@[0] == 'i' && "nan"@[0] == 'n');
}

/// Digits, a point and digits are a number: the digits of both, with as many places behind
/// the point as there are digits there. Without a point it is the digits.
pub proof fn law_a_decimal_is_read(w: Seq<char>, f: Seq<char>)
    requires
        all_digits(w),
        forall|i: int| 0 <= i < f.len() ==> is_digit(#[trigger] f[i]),
    ensures
        real_of(w + seq!['.'] + f) == Some(
            Real::Finite { negative: false, size: Numeral { digits: w + f, scale: -(f.len() as int) } },
        ),
        real_of(w) == Some(
            Real::Finite { negative: false, size: Numeral { digits: w, scale: 0 } },
        ),
        real_of(seq!['-'] + w + seq!['.'] + f) == Some(
            Real::Finite { negative: true, size: Numeral { digits: w + f, scale: -(f.len() as int) } },
        ),
{
    let s = w + seq!['.'] + f;
    assert(is_digit(w[0]));
    lemma_not_a_word(s);
    lemma_not_a_word(w);
    assert forall|j: int| 0 <= j < s.len() implies s[j] != 'e' && s[j] != 'E' by {
        if j < w.len() {
            assert(is_digit(w[j]));
        } else if j > w.len() {
            assert(is_digit(f[j - w.len() - 1]));
        }
    }
    lemma_mark(s, 0, s.len() as int);
    assert(s.take(s.len() as int) =~= s);
    assert forall|j: int| 0 <= j < w.len() implies s[j] != '.' && w[j] != '.' && w[j] != 'e' && w[j]
        != 'E' by {
        assert(is_digit(w[j]));
    }
    lemma_point(s, 0, w.len() as int);
    assert(s.take(w.len() as int) + s.skip((w.len() + 1) as int) =~= w + f);
    assert forall|i: int| 0 <= i < (w + f).len() implies is_digit(#[trigger] (w + f)[i]) by {
        if i < w.len() {
            assert(is_digit(w[i]));
        } else {
            assert(is_digit(f[i - w.len()]));
        }
    }
    assert(all_digits(w + f));
    lemma_mark(w, 0, w.len() as int);
    lemma_point(w, 0, w.len() as int);
    assert(w.take(w.len() as int) =~= w);
    let m = seq!['-'] + w + seq!['.'] + f;
    assert(m.drop_first() =~= s);
    assert(m[0] == '-');
}

/// A power of ten behind a number moves its places.
pub proof fn law_a_power_of_ten_moves_the_places(w: Seq<char>, n: int)
    requires
        all_digits(w),
    ensures
        real_of(w + seq!['e'] + dec_int(n)) == Some(
            Real::Finite { negative: false, size: Numeral { digits: w, scale: n } },
        ),
        real_of(w + seq!['E'] + dec_int(n)) == Some(
            Real::Finite { negative: false, size: Numeral { digits: w, scale: n } },
        ),
{
    assert(is_digit(w[0]));
    assert forall|j: int| 0 <= j < w.len() implies w[j] != '.' && w[j] != 'e' && w[j] != 'E' by {
        assert(is_digit(w[j]));
    }
    lemma_point(w, 0, w.len() as int);
    let p = dec_int(n);
    lemma_exponent(n);
    let a = w + seq!['e'] + p;
    lemma_not_a_word(a);
    lemma_mark(a, 0, w.len() as int);
    assert(a.take(w.len() as int) =~= w);
    assert(a.skip((w.len() + 1) as int) =~= p);
    let b = w + seq!['E'] + p;
    lemma_not_a_word(b);
    lemma_mark(b, 0, w.len() as int);
    assert(b.take(w.len() as int) =~= w);
    assert(b.skip((w.len() + 1) as int) =~= p);
}

proof fn lemma_exponent(n: int)
    ensures
        exponent_of(dec_int(n)) == Some(n),
{
    let m: nat = if n < 0 {
        (-n) as nat
    } else {
        n as nat
    };
    crate::text::law_a_numeral_reads_back(m);
    crate::text::lemma_dec_starts_with_a_digit(m);
    let s = dec_int(n);
    if n < 0 {
        assert(s.drop_first() =~= dec(m));
        assert(s[0] == '-');
    }
}

/// The names of what is no finite number are read in any case, and with a sign.
pub proof fn law_infinity_and_no_number_are_read(s: Seq<char>)
    requires
        s.len() > 0,
        s[0] != '-',
        s[0] != '+',
    ensures
        lowered(s) == "inf"@ || lowered(s) == "infinity"@ ==> real_of(s) == Some(
            Real::Infinite { negative: false },
        ) && real_of(seq!['-'] + s) == Some(Real::Infinite { negative: true }),
        lowered(s) == "nan"@ ==> real_of(s) == Some(Real::NotANumber),
{
    reveal_strlit("inf");
    reveal_strlit("infinity");
    reveal_strlit("nan");
    assert("inf"@.len() == 3 && "infinity"@.len() == 8 && "nan"@.len() == 3);
    assert("inf"@[0] == 'i' && "nan"@[0] == 'n');
    assert((seq!['-'] + s).drop_first() =~= s);
}

/// A whole number stands against zero and against the number above it as numbers do.
pub proof fn law_a_whole_number_stands_as_it_is_worth(n: nat, top: nat)
    requires
        1 <= top <= 9,
    ensures
        n == 0 ==> standing_of(dec(n), (top + 48) as u8 as char) == Standing::Zero,
        1 <= n <= top ==> standing_of(dec(n), (top + 48) as u8 as char) == Standing::Within,
        n > top ==> standing_of(dec(n), (top + 48) as u8 as char) == Standing::Above,
{
    let c = (top + 48) as u8 as char;
    crate::text::law_a_numeral_reads_back(n);
    crate::text::lemma_dec_starts_with_a_digit(n);
    assert(all_digits(dec(n)));
    assert(num(dec(n)) == n);
    law_a_decimal_is_read(dec(n), Seq::empty());
    let x = Numeral { digits: dec(n), scale: 0 };
    let z = Numeral { digits: seq![c], scale: 0 };
    assert(is_digit(c));
    assert(seq![c].drop_last() =~= Seq::<char>::empty());
    assert(num(seq![c]) == top) by {
        assert(num(Seq::<char>::empty()) == 0);
        assert(seq![c].last() == c);
    }
    law_the_greater_number_is_the_greater_numeral(x, z);
    law_the_greater_number_is_the_greater_numeral(x, nothing());
}

/// A number with a fraction stands likewise: by its digits against as many zeros behind the
/// number above.
pub proof fn law_a_fraction_stands_as_it_is_worth(w: Seq<char>, f: Seq<char>, top: char)
    requires
        all_digits(w),
        forall|i: int| 0 <= i < f.len() ==> is_digit(#[trigger] f[i]),
        '1' <= top <= '9',
    ensures
        ({
            let s = w + seq!['.'] + f;
            let most = num(seq![top] + zeros(f.len()));
            &&& standing_of(s, top) == Standing::Zero <==> num(w + f) == 0
            &&& standing_of(s, top) == Standing::Within <==> 0 < num(w + f) <= most
            &&& standing_of(s, top) == Standing::Above <==> num(w + f) > most
            &&& num(w + f) > 0 ==> standing_of(seq!['-'] + s, top) == Standing::Negative
        }),
{
    law_a_decimal_is_read(w, f);
    let k = f.len();
    let x = Numeral { digits: w + f, scale: -(k as int) };
    let t = Numeral { digits: seq![top], scale: 0 };
    let y = Numeral { digits: seq![top] + zeros(k), scale: -(k as int) };
    assert forall|i: int| 0 <= i < x.digits.len() implies is_digit(#[trigger] x.digits[i]) by {
        if i < w.len() {
            assert(is_digit(w[i]));
        } else {
            assert(is_digit(f[i - w.len()]));
        }
    }
    law_the_greater_number_is_the_greater_numeral(x, y);
    assert forall|p: int| #[trigger] place(y, p) == place(t, p) by {
        law_trailing_zeros_change_no_worth(t, k, p);
    }
    assert(exceeds(x, y) == exceeds(x, t)) by {
        if exceeds(x, y) {
            let p = choose|p: int| #[trigger] greater_at(x, y, p);
            assert(place(y, p) == place(t, p));
            assert forall|q: int| q > p implies #[trigger] place(x, q) == place(t, q) by {
                assert(place(y, q) == place(t, q));
            }
            assert(greater_at(x, t, p));
        }
        if exceeds(x, t) {
            let p = choose|p: int| #[trigger] greater_at(x, t, p);
            assert(place(y, p) == place(t, p));
            assert forall|q: int| q > p implies #[trigger] place(x, q) == place(y, q) by {
                assert(place(y, q) == place(t, q));
            }
            assert(greater_at(x, y, p));
        }
    }
    let none = Numeral { digits: Seq::empty(), scale: -(k as int) };
    law_the_greater_number_is_the_greater_numeral(x, none);
    assert(exceeds(x, none) == exceeds(x, nothing())) by {
        assert forall|p: int| #[trigger] place(none, p) == 0 by {}
        assert forall|p: int| #[trigger] place(nothing(), p) == 0 by {}
        if exceeds(x, none) {
            let p = choose|p: int| #[trigger] greater_at(x, none, p);
            assert(place(none, p) == place(nothing(), p));
            assert forall|q: int| q > p implies #[trigger] place(x, q) == place(nothing(), q) by {
                assert(place(none, q) == 0);
            }
            assert(greater_at(x, nothing(), p));
        }
        if exceeds(x, nothing()) {
            let p = choose|p: int| #[trigger] greater_at(x, nothing(), p);
            assert(place(none, p) == place(nothing(), p));
            assert forall|q: int| q > p implies #[trigger] place(x, q) == place(none, q) by {
                assert(place(nothing(), q) == 0);
            }
            assert(greater_at(x, none, p));
        }
    }
    let s = w + seq!['.'] + f;
    assert(seq!['-'] + s =~= seq!['-'] + w + seq!['.'] + f);
}

/// Only a finite number lies between bounds; below zero none does, but for what a double
/// rounds to zero where zero is the lower one.
pub proof fn law_only_a_finite_number_lies_between(size: Numeral, negative: bool, min: Bound)
    ensures
        !lies_between(Real::NotANumber, min),
        !lies_between(Real::Infinite { negative }, min),
        min != Bound::Zero && exceeds(size, nothing()) ==> !lies_between(
            Real::Finite { negative: true, size },
            min,
        ),
        exceeds(size, Bound::One.edge()) ==> !lies_between(
            Real::Finite { negative: false, size },
            min,
        ),
        exceeds(min.edge(), size) && min != Bound::Zero ==> !lies_between(
            Real::Finite { negative: false, size },
            min,
        ),
        !exceeds(size, Bound::One.edge()) ==> lies_between(
            Real::Finite { negative: false, size },
            Bound::Zero,
        ),
        !exceeds(size, Bound::One.edge()) && !exceeds(min.edge(), size) ==> lies_between(
            Real::Finite { negative: false, size },
            min,
        ),
{
}

// ---------------------------------------------------------------- writing

/// A small number is written out with the zeros behind its point, a large one with those
/// before it, and one between with the point inside.
pub proof fn law_an_exponent_is_written_out(d: Seq<char>, k: nat)
    requires
        all_digits(d),
        1 <= k <= 400,
    ensures
        k >= d.len() ==> positional(d + seq!['e'] + dec_int(-(k as int))) == "0."@ + zeros(
            (k - d.len()) as nat,
        ) + d,
        k < d.len() ==> positional(d + seq!['e'] + dec_int(-(k as int))) == d.take(d.len() - k)
            + "."@ + d.skip(d.len() - k),
        positional(d + seq!['e'] + dec_int(k as int)) == d + zeros(k),
{
    assert forall|j: int| 0 <= j < d.len() implies d[j] != '.' && d[j] != 'e' by {
        assert(is_digit(d[j]));
    }
    lemma_cut(d, 'e', dec_int(-(k as int)));
    lemma_cut(d, 'e', dec_int(k as int));
    crate::laws::text::law_a_signed_numeral_reads_back(-(k as int));
    crate::laws::text::law_a_signed_numeral_reads_back(k as int);
    crate::text::lemma_position(d, '.');
    assert(cut(d, '.') is None) by {
        if position(d, '.') < d.len() {
            assert(d[position(d, '.') as int] == '.');
        }
    }
}

proof fn lemma_cut(a: Seq<char>, sep: char, b: Seq<char>)
    requires
        forall|j: int| 0 <= j < a.len() ==> a[j] != sep,
    ensures
        cut(a + seq![sep] + b, sep) == Some((a, b)),
{
    let s = a + seq![sep] + b;
    assert(s[a.len() as int] == sep);
    crate::text::lemma_position_unique(s, sep, a.len() as int);
    assert(s.take(a.len() as int) =~= a);
    assert(s.skip((a.len() + 1) as int) =~= b);
}

// ---------------------------------------------------------------- order

/// A text stands before another when it is a beginning of it, or where they first differ has
/// the smaller character.
pub proof fn law_texts_stand_by_their_first_difference(
    p: Seq<char>,
    x: char,
    a: Seq<char>,
    y: char,
    b: Seq<char>,
)
    ensures
        x != y ==> (lt(p + seq![x] + a, p + seq![y] + b) <==> x < y),
        lt(p, p + seq![y] + b),
        !lt(p + a, p),
    decreases p.len(),
{
    let l = p + seq![x] + a;
    let r = p + seq![y] + b;
    if p.len() == 0 {
        assert(l[0] == x && r[0] == y);
    } else {
        let t = p.drop_first();
        law_texts_stand_by_their_first_difference(t, x, a, y, b);
        assert(l.drop_first() =~= t + seq![x] + a);
        assert(r.drop_first() =~= t + seq![y] + b);
        assert((p + a).drop_first() =~= t + a);
        assert(l[0] == p[0] && r[0] == p[0] && (p + a)[0] == p[0]);
    }
}

/// Sorting keeps what there is and leaves nothing before what it stands behind.
pub proof fn law_sorting_keeps_everything_in_order<T>(s: Seq<(Seq<char>, T)>, i: int, j: int)
    ensures
        ordered(s).to_multiset() == s.to_multiset(),
        ordered(s).len() == s.len(),
        0 <= i < j < s.len() ==> !lt(ordered(s)[j].0, ordered(s)[i].0),
{
    lemma_ordered(s);
}

} // verus!
