//! Real numbers as they are written: the decimal grammar, and exact comparison of what is
//! written with a decimal edge, place by place.

use vstd::prelude::*;
use crate::text::{all_digits, chars_of, is_digit, num};

verus! {

/// A magnitude written in decimal: the digits, and the power of ten of the last one.
pub struct Numeral {
    pub digits: Seq<char>,
    pub scale: int,
}

/// The digit of `x` at the place of the power of ten `p`.
pub open spec fn place(x: Numeral, p: int) -> int {
    let i = x.digits.len() - 1 - (p - x.scale);
    if 0 <= i < x.digits.len() {
        x.digits[i] as int - 48
    } else {
        0
    }
}

/// `x` is the greater at place `p`, and the two agree at every higher place.
pub open spec fn greater_at(x: Numeral, y: Numeral, p: int) -> bool {
    place(x, p) > place(y, p) && forall|q: int| q > p ==> #[trigger] place(x, q) == place(y, q)
}

/// `x` is a greater number than `y`.
pub open spec fn exceeds(x: Numeral, y: Numeral) -> bool {
    exists|p: int| #[trigger] greater_at(x, y, p)
}

/// What a text says about a real number.
pub enum Real {
    Finite { negative: bool, size: Numeral },
    Infinite { negative: bool },
    NotANumber,
}

pub open spec fn lower(c: char) -> char {
    if 'A' <= c <= 'Z' {
        ((c as u32 + 32) as u32) as char
    } else {
        c
    }
}

pub open spec fn lowered(s: Seq<char>) -> Seq<char> {
    Seq::new(s.len(), |i: int| lower(s[i]))
}

/// The index of the first exponent mark at or after `i`; the length when there is none.
pub open spec fn exponent_mark(s: Seq<char>, i: int) -> int
    decreases s.len() - i,
{
    if i >= s.len() || s[i] == 'e' || s[i] == 'E' {
        i
    } else {
        exponent_mark(s, i + 1)
    }
}

/// The index of the first point at or after `i`; the length when there is none.
pub open spec fn point_mark(s: Seq<char>, i: int) -> int
    decreases s.len() - i,
{
    if i >= s.len() || s[i] == '.' {
        i
    } else {
        point_mark(s, i + 1)
    }
}

/// The exponent written behind the mark: digits behind an optional sign.
pub open spec fn exponent_of(s: Seq<char>) -> Option<int> {
    let signed = s.len() > 0 && (s[0] == '-' || s[0] == '+');
    let d = if signed {
        s.drop_first()
    } else {
        s
    };
    if !all_digits(d) {
        None
    } else if signed && s[0] == '-' {
        Some(-(num(d) as int))
    } else {
        Some(num(d) as int)
    }
}

/// The characters of a mantissa without its point.
pub open spec fn mantissa_digits(m: Seq<char>) -> Seq<char> {
    let i = point_mark(m, 0);
    if i < m.len() {
        m.take(i) + m.skip(i + 1)
    } else {
        m
    }
}

/// How many characters stand behind the point of a mantissa.
pub open spec fn fraction_len(m: Seq<char>) -> int {
    let i = point_mark(m, 0);
    if i < m.len() {
        m.len() - i - 1
    } else {
        0
    }
}

/// The number that an unsigned numeral writes: digits with at most one point among or
/// beside them, then an optional exponent.
pub open spec fn magnitude_of(s: Seq<char>) -> Option<Numeral> {
    let e = exponent_mark(s, 0);
    let m = s.take(e);
    let exponent = if e < s.len() {
        exponent_of(s.skip(e + 1))
    } else {
        Some(0int)
    };
    if all_digits(mantissa_digits(m)) && exponent is Some {
        Some(Numeral { digits: mantissa_digits(m), scale: exponent->0 - fraction_len(m) })
    } else {
        None
    }
}

/// The real number that `s` writes: a numeral, an infinity or "nan", in any letter case,
/// behind an optional sign.
pub open spec fn real_of(s: Seq<char>) -> Option<Real> {
    let signed = s.len() > 0 && (s[0] == '-' || s[0] == '+');
    let negative = signed && s[0] == '-';
    let body = if signed {
        s.drop_first()
    } else {
        s
    };
    if lowered(body) == "inf"@ || lowered(body) == "infinity"@ {
        Some(Real::Infinite { negative })
    } else if lowered(body) == "nan"@ {
        Some(Real::NotANumber)
    } else {
        match magnitude_of(body) {
            Some(size) => Some(Real::Finite { negative, size }),
            None => None,
        }
    }
}

// ---------------------------------------------------------------- ranges

/// An end of a closed range of doubles.
#[derive(Debug, Clone, Copy, PartialEq, Eq, Structural)]
pub enum Bound {
    Zero,
    FiveHundredths,
    One,
}

/// The digits of the least number whose nearest double is 0.05; the last stands for ten to
/// the power of -58.
pub const FIVE_HUNDREDTHS_EDGE: &'static str =
    "499999999999999993061106096092771622352302074432373046875";

/// The digits of the greatest number whose nearest double is 1; the last stands for ten to
/// the power of -53.
pub const ONE_EDGE: &'static str = "100000000000000011102230246251565404236316680908203125";

/// The digits of the greatest number whose nearest double is 0, which is two to the power
/// of -1075; the last stands for ten to the power of -1075.
pub const ZERO_EDGE: &'static str = "24703282292062327208828439643411068618252990130716238221279284125033775363510437593264991818081799618989828234772285886546332835517796989819938739800539093906315035659515570226392290858392449105184435931802849936536152500319370457678249219365623669863658480757001585769269903706311928279558551332927834338409351978015531246597263579574622766465272827220056374006485499977096599470454020828166226237857393450736339007967761930577506740176324673600968951340535537458516661134223766678604162159680461914467291840300530057530849048765391711386591646239524912623653881879636239373280423891018672348497668235089863388587925628302755995657524455507255189313690836254779186948667994968324049705821028513185451396213837722826145437693412532098591327667236328125";

impl Bound {
    /// The bound as it is shown.
    pub fn shown(self) -> (r: &'static str)
        ensures
            r@ == (match self {
                Bound::Zero => "0"@,
                Bound::FiveHundredths => "0.05"@,
                Bound::One => "1"@,
            }),
    {
        match self {
            Bound::Zero => "0",
            Bound::FiveHundredths => "0.05",
            Bound::One => "1",
        }
    }

    /// The outermost number that rounds to the bound: the least for 0.05, the greatest for
    /// 1, and for 0 the size of the least, which is negative.
    pub open spec fn edge(self) -> Numeral {
        match self {
            Bound::Zero => Numeral { digits: ZERO_EDGE@, scale: -1075 },
            Bound::FiveHundredths => Numeral { digits: FIVE_HUNDREDTHS_EDGE@, scale: -58 },
            Bound::One => Numeral { digits: ONE_EDGE@, scale: -53 },
        }
    }
}

pub open spec fn nothing() -> Numeral {
    Numeral { digits: Seq::empty(), scale: 0 }
}

/// Whether the number lies in the range from `min` to 1 once it is rounded to the nearest
/// double: the written number is compared with the outermost ones that round into it.
pub open spec fn lies_between(x: Real, min: Bound) -> bool {
    match x {
        Real::Finite { negative, size } => if negative && exceeds(size, nothing()) {
            min == Bound::Zero && !exceeds(size, min.edge())
        } else {
            (min == Bound::Zero || !exceeds(min.edge(), size)) && !exceeds(
                size,
                Bound::One.edge(),
            )
        },
        _ => false,
    }
}

// ---------------------------------------------------------------- comparing

#[derive(Debug, Clone, Copy, PartialEq, Eq, Structural)]
enum Side {
    Less,
    Equal,
    Greater,
}

spec fn far() -> int {
    0x1_0000_0000_0000_0000_0000_0000
}

/// `given` stands for the power `true_power`: it is that power, or both are far out on one side.
spec fn stands_for(given: int, true_power: int) -> bool {
    ||| given == true_power
    ||| given >= far() && true_power >= far()
    ||| given <= -far() && true_power <= -far()
}

spec fn digits_only(s: Seq<char>) -> bool {
    forall|i: int| 0 <= i < s.len() ==> is_digit(#[trigger] s[i])
}

/// Numerals that agree at every place exceed each other nowhere.
proof fn lemma_equal_places(x: Numeral, y: Numeral)
    requires
        forall|p: int| #[trigger] place(x, p) == place(y, p),
    ensures
        !exceeds(x, y),
        !exceeds(y, x),
{
    if exceeds(x, y) {
        let p = choose|p: int| #[trigger] greater_at(x, y, p);
        assert(place(x, p) == place(y, p));
    }
    if exceeds(y, x) {
        let p = choose|p: int| #[trigger] greater_at(y, x, p);
        assert(place(x, p) == place(y, p));
    }
}

proof fn lemma_greater(x: Numeral, y: Numeral, p: int)
    requires
        greater_at(x, y, p),
    ensures
        exceeds(x, y),
        !exceeds(y, x),
{
    if exceeds(y, x) {
        let q = choose|q: int| #[trigger] greater_at(y, x, q);
        if q > p {
            assert(place(x, q) == place(y, q));
        } else if q < p {
            assert(place(y, p) == place(x, p));
        }
    }
}

/// Compares the number `d` at a power that `scale` stands for with the number `e` at the
/// power `edge_scale`.
fn side(
    d: &Vec<char>,
    scale: i128,
    power: Ghost<int>,
    e: &Vec<char>,
    edge_scale: i128,
) -> (r: Side)
    requires
        digits_only(d@),
        e.len() > 0,
        e@[0] > '0',
        stands_for(scale as int, power@),
        -0x2_0000_0000_0000_0000_0000_0000 <= scale <= 0x2_0000_0000_0000_0000_0000_0000,
        -2000 <= edge_scale <= 2000,
    ensures
        (r == Side::Greater) == exceeds(
            Numeral { digits: d@, scale: power@ },
            Numeral { digits: e@, scale: edge_scale as int },
        ),
        (r == Side::Less) == exceeds(
            Numeral { digits: e@, scale: edge_scale as int },
            Numeral { digits: d@, scale: power@ },
        ),
{
    let ghost x = Numeral { digits: d@, scale: power@ };
    let ghost y = Numeral { digits: e@, scale: edge_scale as int };
    let n: usize = d.len();
    let m: usize = e.len();
    let mut z: usize = 0;
    while z < n && d[z] == '0'
        invariant
            n == d.len(),
            z <= n,
            forall|i: int| 0 <= i < z ==> #[trigger] d@[i] == '0',
        decreases n - z,
    {
        z = z + 1;
    }
    let ghost top_y = edge_scale + m - 1;
    proof {
        assert(place(y, top_y) == e@[0] as int - 48);
        assert forall|q: int| q > top_y implies #[trigger] place(y, q) == 0 by {}
    }
    if z == n {
        proof {
            assert forall|q: int| #[trigger] place(x, q) == 0 by {}
            assert(greater_at(y, x, top_y));
            lemma_greater(y, x, top_y);
        }
        return Side::Less;
    }
    let ghost top_x = power@ + n - 1 - z;
    proof {
        assert(is_digit(d@[z as int]));
        assert(place(x, top_x) == d@[z as int] as int - 48);
        assert forall|q: int| q > top_x implies #[trigger] place(x, q) == 0 by {
            let i = n - 1 - (q - power@);
            if 0 <= i < n {
                assert(d@[i] == '0');
            }
        }
    }
    let tx: i128 = scale + (n as i128) - 1 - (z as i128);
    let ty: i128 = edge_scale + (m as i128) - 1;
    if tx > ty {
        proof {
            assert(greater_at(x, y, top_x));
            lemma_greater(x, y, top_x);
        }
        return Side::Greater;
    }
    if tx < ty {
        proof {
            assert(greater_at(y, x, top_y));
            lemma_greater(y, x, top_y);
        }
        return Side::Less;
    }
    let rest: usize = n - z;
    let mut k: usize = 0;
    while k < rest || k < m
        invariant
            n == d.len(),
            m == e.len(),
            z < n,
            rest == n - z,
            k <= rest || k <= m,
            x == (Numeral { digits: d@, scale: power@ }),
            y == (Numeral { digits: e@, scale: edge_scale as int }),
            top_x == power@ + n - 1 - z,
            top_y == edge_scale + m - 1,
            top_x == top_y,
            forall|q: int| q > top_x - k ==> #[trigger] place(x, q) == place(y, q),
        decreases rest + m - k,
    {
        let a: char = if k < rest {
            d[z + k]
        } else {
            '0'
        };
        let b: char = if k < m {
            e[k]
        } else {
            '0'
        };
        let ghost p = top_x - k;
        proof {
            assert(place(x, p) == a as int - 48);
            assert(place(y, p) == b as int - 48);
        }
        if a > b {
            proof {
                assert(greater_at(x, y, p));
                lemma_greater(x, y, p);
            }
            return Side::Greater;
        }
        if a < b {
            proof {
                assert(greater_at(y, x, p));
                lemma_greater(y, x, p);
            }
            return Side::Less;
        }
        k = k + 1;
    }
    proof {
        assert forall|p: int| #[trigger] place(x, p) == place(y, p) by {
            if p <= top_x - k {
                assert(place(x, p) == 0);
                assert(place(y, p) == 0);
            }
        }
        lemma_equal_places(x, y);
    }
    Side::Equal
}

fn same_lowered(v: &Vec<char>, from: usize, w: &str) -> (r: bool)
    requires
        from <= v.len(),
    ensures
        r == (lowered(v@.skip(from as int)) == w@),
{
    let u = chars_of(w);
    let ghost low = lowered(v@.skip(from as int));
    if u.len() != v.len() - from {
        return false;
    }
    let mut i: usize = 0;
    while i < u.len()
        invariant
            i <= u.len(),
            u.len() == v.len() - from,
            u@ == w@,
            low == lowered(v@.skip(from as int)),
            forall|j: int| 0 <= j < i ==> #[trigger] low[j] == u@[j],
        decreases u.len() - i,
    {
        let c = v[from + i];
        assert(low[i as int] == lower(c));
        if u[i] != to_lower(c) {
            return false;
        }
        i = i + 1;
    }
    assert(low =~= u@);
    true
}

pub fn to_lower(c: char) -> (r: char)
    ensures
        r == lower(c),
{
    if 'A' <= c && c <= 'Z' {
        ((c as u8) + 32) as char
    } else {
        c
    }
}

/// The power that `v[from..]` writes, as far as it matters.
fn exponent(v: &Vec<char>, from: usize) -> (r: Option<i128>)
    requires
        from <= v.len(),
    ensures
        r is Some == exponent_of(v@.skip(from as int)) is Some,
        r is Some ==> {
            &&& -0x1_1000_0000_0000_0000_0000_0000 <= r->0 <= 0x1_1000_0000_0000_0000_0000_0000
            &&& {
                ||| r->0 == exponent_of(v@.skip(from as int))->0
                ||| r->0 > 0x1_0800_0000_0000_0000_0000_0000 && exponent_of(
                    v@.skip(from as int),
                )->0 > 0x1_0800_0000_0000_0000_0000_0000
                ||| r->0 < -0x1_0800_0000_0000_0000_0000_0000 && exponent_of(
                    v@.skip(from as int),
                )->0 < -0x1_0800_0000_0000_0000_0000_0000
            }
        },
{
    let ghost s = v@.skip(from as int);
    let signed = from < v.len() && (v[from] == '-' || v[from] == '+');
    let start: usize = if signed {
        from + 1
    } else {
        from
    };
    let ghost d = if signed { s.drop_first() } else { s };
    assert(d =~= v@.skip(start as int));
    if start == v.len() {
        return None;
    }
    let mut acc: i128 = 0;
    let mut i: usize = start;
    while i < v.len()
        invariant
            start <= i <= v.len(),
            from <= v.len(),
            s == v@.skip(from as int),
            signed == (s.len() > 0 && (s[0] == '-' || s[0] == '+')),
            d == (if signed {
                s.drop_first()
            } else {
                s
            }),
            d == v@.skip(start as int),
            digits_only(d.take(i - start)),
            0 <= acc <= 0x1_1000_0000_0000_0000_0000_0000,
            acc == num(d.take(i - start)) || (acc > 0x1_0800_0000_0000_0000_0000_0000 && num(
                d.take(i - start),
            ) > 0x1_0800_0000_0000_0000_0000_0000),
        decreases v.len() - i,
    {
        let c = v[i];
        assert(d[i - start] == c);
        if c < '0' || c > '9' {
            assert(!is_digit(d[i - start]));
            return None;
        }
        let ghost t = d.take(i - start);
        let ghost t1 = d.take(i - start + 1);
        proof {
            assert(t1.drop_last() =~= t);
            assert(t1.last() == c);
            assert forall|j: int| 0 <= j < t1.len() implies is_digit(#[trigger] t1[j]) by {
                if j < t.len() {
                    assert(t1[j] == t[j]);
                }
            }
        }
        let x: i128 = (c as u32 - 48) as i128;
        if acc > 0x1b00_0000_0000_0000_0000_0000 {
            acc = 0x1_1000_0000_0000_0000_0000_0000;
        } else {
            acc = acc * 10 + x;
        }
        i = i + 1;
    }
    assert(d.take(v.len() - start) =~= d);
    assert(all_digits(d));
    if signed && v[from] == '-' {
        Some(-acc)
    } else {
        Some(acc)
    }
}

proof fn lemma_exponent_mark(s: Seq<char>, i: int, k: int)
    requires
        0 <= i <= k <= s.len(),
        forall|j: int| i <= j < k ==> s[j] != 'e' && s[j] != 'E',
        k < s.len() ==> s[k] == 'e' || s[k] == 'E',
    ensures
        exponent_mark(s, i) == k,
    decreases k - i,
{
    if i < k {
        lemma_exponent_mark(s, i + 1, k);
    }
}

proof fn lemma_point_mark(s: Seq<char>, i: int, k: int)
    requires
        0 <= i <= k <= s.len(),
        forall|j: int| i <= j < k ==> s[j] != '.',
        k < s.len() ==> s[k] == '.',
    ensures
        point_mark(s, i) == k,
    decreases k - i,
{
    if i < k {
        lemma_point_mark(s, i + 1, k);
    }
}

/// The digits of an unsigned numeral and its power of ten, as far as that matters.
fn magnitude(v: &Vec<char>, from: usize) -> (r: Option<(Vec<char>, i128)>)
    requires
        from <= v.len(),
    ensures
        r is Some == magnitude_of(v@.skip(from as int)) is Some,
        r is Some ==> {
            let x = magnitude_of(v@.skip(from as int))->0;
            let (digits, scale) = r->0;
            &&& digits@ == x.digits
            &&& digits_only(x.digits)
            &&& stands_for(scale as int, x.scale)
            &&& -0x2_0000_0000_0000_0000_0000_0000 <= scale <= 0x2_0000_0000_0000_0000_0000_0000
        },
{
    let ghost s = v@.skip(from as int);
    let mut e: usize = from;
    while e < v.len() && v[e] != 'e' && v[e] != 'E'
        invariant
            from <= e <= v.len(),
            s == v@.skip(from as int),
            forall|j: int| 0 <= j < e - from ==> s[j] != 'e' && s[j] != 'E',
        decreases v.len() - e,
    {
        assert(s[e - from] == v@[e as int]);
        e = e + 1;
    }
    let ghost m = s.take(e - from);
    proof {
        if e < v.len() {
            assert(s[e - from] == v@[e as int]);
        }
        lemma_exponent_mark(s, 0, e - from);
        if e < v.len() {
            assert(s.skip(e - from + 1) =~= v@.skip(e + 1));
        }
    }
    let exp: i128 = if e < v.len() {
        match exponent(v, e + 1) {
            Some(p) => p,
            None => {
                return None;
            },
        }
    } else {
        0
    };
    let mut p: usize = from;
    while p < e && v[p] != '.'
        invariant
            from <= p <= e <= v.len(),
            s == v@.skip(from as int),
            m == s.take(e - from),
            forall|j: int| 0 <= j < p - from ==> m[j] != '.',
        decreases e - p,
    {
        assert(m[p - from] == v@[p as int]);
        p = p + 1;
    }
    proof {
        if p < e {
            assert(m[p - from] == v@[p as int]);
        }
        lemma_point_mark(m, 0, p - from);
    }
    let mut digits: Vec<char> = Vec::new();
    let mut i: usize = from;
    let ghost want = mantissa_digits(m);
    while i < e
        invariant
            from <= p <= e <= v.len(),
            from <= i <= e,
            s == v@.skip(from as int),
            m == s.take(e - from),
            exponent_mark(s, 0) == e - from,
            want == mantissa_digits(m),
            want == (if p < e {
                m.take(p - from) + m.skip(p - from + 1)
            } else {
                m
            }),
            digits.len() == (if i <= p {
                i - from
            } else {
                i - from - 1
            }),
            digits@ == want.take(digits.len() as int),
            digits_only(digits@),
        decreases e - i,
    {
        if i != p {
            let c = v[i];
            proof {
                assert(m[i - from] == c);
                let k = digits.len() as int;
                assert(want[k] == c);
                assert(want.take(k + 1) =~= want.take(k).push(c));
            }
            if c < '0' || c > '9' {
                assert(!is_digit(want[digits.len() as int]));
                return None;
            }
            digits.push(c);
        }
        i = i + 1;
    }
    assert(digits@ =~= want);
    if digits.len() == 0 {
        return None;
    }
    let frac: usize = if p < e {
        e - p - 1
    } else {
        0
    };
    Some((digits, exp - (frac as i128)))
}

/// Whether `s` writes a number, and whether that number, rounded to the nearest double,
/// lies between `min` and 1.
pub fn read_between(s: &str, min: Bound) -> (r: Option<bool>)
    ensures
        r == (match real_of(s@) {
            Some(x) => Some(lies_between(x, min)),
            None => None,
        }),
{
    let v = chars_of(s);
    let signed = v.len() > 0 && (v[0] == '-' || v[0] == '+');
    let negative = signed && v[0] == '-';
    let from: usize = if signed {
        1
    } else {
        0
    };
    let ghost body = if signed { s@.drop_first() } else { s@ };
    assert(body =~= v@.skip(from as int));
    if same_lowered(&v, from, "inf") || same_lowered(&v, from, "infinity") || same_lowered(
        &v,
        from,
        "nan",
    ) {
        return Some(false);
    }
    match magnitude(&v, from) {
        None => None,
        Some((digits, scale)) => {
            let ghost x = magnitude_of(body)->0;
            let one = chars_of(ONE_EDGE);
            proof {
                reveal_strlit("100000000000000011102230246251565404236316680908203125");
                reveal_strlit("499999999999999993061106096092771622352302074432373046875");
                reveal_strlit("24703282292062327208828439643411068618252990130716238221279284125033775363510437593264991818081799618989828234772285886546332835517796989819938739800539093906315035659515570226392290858392449105184435931802849936536152500319370457678249219365623669863658480757001585769269903706311928279558551332927834338409351978015531246597263579574622766465272827220056374006485499977096599470454020828166226237857393450736339007967761930577506740176324673600968951340535537458516661134223766678604162159680461914467291840300530057530849048765391711386591646239524912623653881879636239373280423891018672348497668235089863388587925628302755995657524455507255189313690836254779186948667994968324049705821028513185451396213837722826145437693412532098591327667236328125");
            }
            if negative && nonzero(&digits, Ghost(x.scale)) {
                if min == Bound::Zero {
                    let low = chars_of(ZERO_EDGE);
                    Some(side(&digits, scale, Ghost(x.scale), &low, -1075) != Side::Greater)
                } else {
                    Some(false)
                }
            } else {
                let above = if min == Bound::FiveHundredths {
                    let low = chars_of(FIVE_HUNDREDTHS_EDGE);
                    side(&digits, scale, Ghost(x.scale), &low, -58) != Side::Less
                } else if min == Bound::One {
                    side(&digits, scale, Ghost(x.scale), &one, -53) != Side::Less
                } else {
                    true
                };
                Some(above && side(&digits, scale, Ghost(x.scale), &one, -53) != Side::Greater)
            }
        },
    }
}

/// Whether a number is more than nothing.
fn nonzero(d: &Vec<char>, power: Ghost<int>) -> (r: bool)
    requires
        digits_only(d@),
    ensures
        r == exceeds(Numeral { digits: d@, scale: power@ }, nothing()),
{
    let ghost x = Numeral { digits: d@, scale: power@ };
    let n: usize = d.len();
    let mut z: usize = 0;
    while z < n && d[z] == '0'
        invariant
            n == d.len(),
            z <= n,
            forall|i: int| 0 <= i < z ==> #[trigger] d@[i] == '0',
        decreases n - z,
    {
        z = z + 1;
    }
    proof {
        if z == n {
            assert forall|q: int| #[trigger] place(x, q) == place(nothing(), q) by {}
            lemma_equal_places(x, nothing());
        } else {
            let top = power@ + n - 1 - z;
            assert(is_digit(d@[z as int]));
            assert forall|q: int| q > top implies #[trigger] place(x, q) == place(nothing(), q) by {
                let i = n - 1 - (q - power@);
                if 0 <= i < n {
                    assert(d@[i] == '0');
                }
            }
            assert(greater_at(x, nothing(), top));
        }
    }
    z < n
}

// ---------------------------------------------------------------- standing

/// Where a number stands, against zero and a whole number above it.
#[derive(Debug, Clone, Copy, PartialEq, Eq, Structural)]
pub enum Standing {
    NotANumber,
    Negative,
    Zero,
    /// More than zero and at most the upper number.
    Within,
    Above,
}

/// Where the number that `s` writes stands, against zero and the digit `top`.
pub open spec fn standing_of(s: Seq<char>, top: char) -> Standing {
    match real_of(s) {
        None | Some(Real::NotANumber) => Standing::NotANumber,
        Some(Real::Infinite { negative }) => if negative {
            Standing::Negative
        } else {
            Standing::Above
        },
        Some(Real::Finite { negative, size }) => if !exceeds(size, nothing()) {
            Standing::Zero
        } else if negative {
            Standing::Negative
        } else if exceeds(size, Numeral { digits: seq![top], scale: 0 }) {
            Standing::Above
        } else {
            Standing::Within
        },
    }
}

pub fn read_standing(s: &str, top: char) -> (r: Standing)
    requires
        '1' <= top <= '9',
    ensures
        r == standing_of(s@, top),
{
    let v = chars_of(s);
    let signed = v.len() > 0 && (v[0] == '-' || v[0] == '+');
    let negative = signed && v[0] == '-';
    let from: usize = if signed {
        1
    } else {
        0
    };
    let ghost body = if signed { s@.drop_first() } else { s@ };
    assert(body =~= v@.skip(from as int));
    if same_lowered(&v, from, "inf") || same_lowered(&v, from, "infinity") {
        return if negative {
            Standing::Negative
        } else {
            Standing::Above
        };
    }
    if same_lowered(&v, from, "nan") {
        return Standing::NotANumber;
    }
    match magnitude(&v, from) {
        None => Standing::NotANumber,
        Some((digits, scale)) => {
            let ghost x = magnitude_of(body)->0;
            if !nonzero(&digits, Ghost(x.scale)) {
                Standing::Zero
            } else if negative {
                Standing::Negative
            } else {
                let edge: Vec<char> = vec![top];
                assert(edge@ =~= seq![top]);
                if side(&digits, scale, Ghost(x.scale), &edge, 0) == Side::Greater {
                    Standing::Above
                } else {
                    Standing::Within
                }
            }
        },
    }
}

} // verus!
