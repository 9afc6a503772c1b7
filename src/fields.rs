//! Reading the values of single script cells: decimal numbers, times in
//! milliseconds, and lists separated by a character.
use vstd::prelude::*;

verus! {

pub open spec fn is_digit(c: char) -> bool {
    '0' <= c && c <= '9'
}

pub open spec fn all_digits(s: Seq<char>) -> bool {
    forall|i: int| 0 <= i < s.len() ==> is_digit(#[trigger] s[i])
}

pub open spec fn digit_value(c: char) -> nat {
    (c as u32 - '0' as u32) as nat
}

/// The number that a string of decimal digits denotes (0 for the empty
/// string).
pub open spec fn digits_value(s: Seq<char>) -> nat
    decreases s.len(),
{
    if s.len() == 0 {
        0
    } else {
        digits_value(s.drop_last()) * 10 + digit_value(s.last())
    }
}

pub open spec fn pow10(n: nat) -> nat
    decreases n,
{
    if n == 0 { 1 } else { 10 * pow10((n - 1) as nat) }
}

/// The pieces of `s` between occurrences of `sep`; a string without `sep`
/// is one piece, and the empty string is one empty piece.
pub open spec fn split_spec(s: Seq<char>, sep: char) -> Seq<Seq<char>>
    decreases s.len(),
{
    if s.len() == 0 {
        seq![Seq::empty()]
    } else {
        let p = split_spec(s.drop_last(), sep);
        if s.last() == sep {
            p.push(Seq::empty())
        } else {
            p.update(p.len() - 1, p.last().push(s.last()))
        }
    }
}

/// `d * 10^shift`, rounded toward zero.
pub open spec fn scaled(d: nat, shift: int) -> nat {
    if shift >= 0 {
        d * pow10(shift as nat)
    } else {
        d / pow10((-shift) as nat)
    }
}

/// A mantissa (`12`, `1.5`, `.25` or `3.`): its digits run together, and how
/// many of them follow the point.
pub open spec fn mantissa_spec(m: Seq<char>) -> Option<(Seq<char>, nat)> {
    let p = split_spec(m, '.');
    if p.len() == 1 && p[0].len() > 0 && all_digits(p[0]) {
        Some((p[0], 0))
    } else if p.len() == 2 && p[0].len() + p[1].len() > 0 && all_digits(p[0]) && all_digits(p[1]) {
        Some((p[0] + p[1], p[1].len()))
    } else {
        None
    }
}

/// The pieces of `s` around the exponent marker, `e` or else `E`.
pub open spec fn exponent_split(s: Seq<char>) -> Seq<Seq<char>> {
    let p = split_spec(s, 'e');
    if p.len() == 1 { split_spec(s, 'E') } else { p }
}

/// A non-negative number of seconds in decimal or exponent notation (`12`,
/// `1.5`, `.25`, `3.`, `2e3`, `1.5E-2`), as whole milliseconds rounded toward
/// zero. A sign before the mantissa, `inf` and `NaN` are not accepted here.
pub open spec fn unsigned_millis_spec(s: Seq<char>) -> Option<nat> {
    let p = exponent_split(s);
    let x: Option<int> = if p.len() == 1 { Some(0) } else if p.len() == 2 { signed_spec(p[1]) } else { None };
    if p.len() == 0 {
        None
    } else {
        match (mantissa_spec(p[0]), x) {
            (Some((g, f)), Some(x)) => Some(scaled(digits_value(g), x - f + 3)),
            _ => None,
        }
    }
}

/// A time in seconds, with an optional leading `+`, as whole milliseconds
/// (see [`unsigned_millis_spec`]); negative times are not accepted.
pub open spec fn millis_spec(s: Seq<char>) -> Option<nat> {
    if s.len() > 0 && s[0] == '+' {
        unsigned_millis_spec(s.drop_first())
    } else {
        unsigned_millis_spec(s)
    }
}

/// A base-10 integer with an optional `+` or `-` sign, as a mathematical
/// integer (before any range check).
pub open spec fn signed_spec(s: Seq<char>) -> Option<int> {
    if s.len() > 1 && (s[0] == '-' || s[0] == '+') && all_digits(s.drop_first()) {
        if s[0] == '-' {
            Some(-digits_value(s.drop_first()))
        } else {
            Some(digits_value(s.drop_first()) as int)
        }
    } else if s.len() > 0 && all_digits(s) {
        Some(digits_value(s) as int)
    } else {
        None
    }
}

proof fn lemma_digits_monotone(s: Seq<char>, k: int)
    requires
        all_digits(s),
        0 <= k <= s.len(),
    ensures
        digits_value(s.subrange(0, k)) <= digits_value(s),
    decreases s.len(),
{
    if k < s.len() {
        assert(s.drop_last().subrange(0, k) == s.subrange(0, k));
        lemma_digits_monotone(s.drop_last(), k);
    } else {
        assert(s.subrange(0, k) == s);
    }
}

/// The characters of `s`, as a vector.
pub fn chars_of(s: &str) -> (r: Vec<char>)
    ensures
        r@ == s@,
{
    let n = s.unicode_len();
    let mut r: Vec<char> = Vec::new();
    let mut i: usize = 0;
    while i < n
        invariant
            n == s@.len(),
            i <= n,
            r@ == s@.subrange(0, i as int),
        decreases n - i,
    {
        r.push(s.get_char(i));
        i = i + 1;
    }
    proof {
        assert(s@.subrange(0, n as int) == s@);
    }
    r
}

/// Whether the characters of `v` are exactly those of `lit`.
pub fn matches_literal(v: &Vec<char>, lit: &str) -> (r: bool)
    ensures
        r == (v@ == lit@),
{
    let n = lit.unicode_len();
    if n != v.len() {
        return false;
    }
    let mut i: usize = 0;
    while i < n
        invariant
            n == lit@.len(),
            n == v@.len(),
            i <= n,
            v@.subrange(0, i as int) == lit@.subrange(0, i as int),
        decreases n - i,
    {
        if v[i] != lit.get_char(i) {
            return false;
        }
        proof {
            assert(v@.subrange(0, i + 1) == v@.subrange(0, i as int).push(v@[i as int]));
            assert(lit@.subrange(0, i + 1) == lit@.subrange(0, i as int).push(lit@[i as int]));
        }
        i = i + 1;
    }
    proof {
        assert(v@.subrange(0, n as int) == v@);
        assert(lit@.subrange(0, n as int) == lit@);
    }
    true
}

/// The value of the digits of `s` from `from` to `to`, if there is at least
/// one, all are digits, and the value is at most `limit`.
pub fn parse_digits(s: &Vec<char>, from: usize, to: usize, limit: u128) -> (r: Option<u128>)
    requires
        from <= to <= s@.len(),
    ensures
        ({
            let d = s@.subrange(from as int, to as int);
            match r {
                Some(v) => d.len() > 0 && all_digits(d) && v == digits_value(d) && v <= limit,
                None => !(d.len() > 0 && all_digits(d) && digits_value(d) <= limit),
            }
        }),
{
    let ghost d = s@.subrange(from as int, to as int);
    if from == to {
        return None;
    }
    let mut i: usize = from;
    while i < to
        invariant
            from <= i <= to <= s@.len(),
            d == s@.subrange(from as int, to as int),
            forall|k: int| from <= k < i ==> is_digit(#[trigger] s@[k]),
        decreases to - i,
    {
        if !(s[i] >= '0' && s[i] <= '9') {
            assert(!is_digit(d[i - from]));
            return None;
        }
        i = i + 1;
    }
    assert(all_digits(d));
    let mut acc: u128 = 0;
    let mut j: usize = from;
    while j < to
        invariant
            from <= j <= to <= s@.len(),
            d == s@.subrange(from as int, to as int),
            all_digits(d),
            acc == digits_value(d.subrange(0, j - from)),
            acc <= limit,
        decreases to - j,
    {
        let c = s[j];
        assert(is_digit(d[j - from]));
        let dv: u128 = (c as u32 - '0' as u32) as u128;
        let ghost prefix = d.subrange(0, j - from + 1);
        assert(prefix.drop_last() == d.subrange(0, j - from));
        assert(prefix.last() == c);
        assert(digits_value(prefix) == acc * 10 + dv);
        if dv > limit || acc > (limit - dv) / 10 {
            assert(acc * 10 + dv > limit) by (nonlinear_arith)
                requires
                    dv > limit || acc > (limit - dv) / 10,
                    acc >= 0,
            ;
            proof {
                lemma_digits_monotone(d, j - from + 1);
            }
            return None;
        }
        assert(acc * 10 + dv <= limit) by (nonlinear_arith)
            requires
                acc <= (limit - dv) / 10,
                dv <= limit,
        ;
        acc = acc * 10 + dv;
        j = j + 1;
    }
    assert(d.subrange(0, to - from) == d);
    Some(acc)
}

/// The pieces of a split, as character sequences.
pub open spec fn pieces_view(p: Seq<Vec<char>>) -> Seq<Seq<char>> {
    p.map_values(|v: Vec<char>| v@)
}

/// Splits `s` at every occurrence of `sep`.
pub fn split_chars(s: &Vec<char>, sep: char) -> (r: Vec<Vec<char>>)
    ensures
        pieces_view(r@) == split_spec(s@, sep),
{
    let mut parts: Vec<Vec<char>> = Vec::new();
    let mut cur: Vec<char> = Vec::new();
    let mut i: usize = 0;
    proof {
        assert(s@.subrange(0, 0) =~= Seq::<char>::empty());
        assert(pieces_view(parts@).push(cur@) =~= seq![Seq::<char>::empty()]);
    }
    while i < s.len()
        invariant
            i <= s@.len(),
            pieces_view(parts@).push(cur@) == split_spec(s@.subrange(0, i as int), sep),
        decreases s@.len() - i,
    {
        let c = s[i];
        let ghost prefix = s@.subrange(0, i + 1);
        let ghost before = pieces_view(parts@).push(cur@);
        assert(prefix.drop_last() == s@.subrange(0, i as int));
        assert(prefix.last() == c);
        if c == sep {
            parts.push(cur);
            cur = Vec::new();
            assert(pieces_view(parts@).push(cur@) =~= before.push(Seq::empty()));
        } else {
            let ghost old_parts = parts@;
            cur.push(c);
            assert(pieces_view(parts@).push(cur@) =~= before.update(before.len() - 1, before.last().push(c)));
        }
        i = i + 1;
    }
    proof {
        assert(s@.subrange(0, s@.len() as int) == s@);
    }
    let ghost before = pieces_view(parts@).push(cur@);
    parts.push(cur);
    assert(pieces_view(parts@) =~= before);
    parts
}

/// Whether every character of `s` from `from` to `to` is a digit.
pub fn digits_only(s: &Vec<char>, from: usize, to: usize) -> (r: bool)
    requires
        from <= to <= s@.len(),
    ensures
        r == all_digits(s@.subrange(from as int, to as int)),
{
    let ghost d = s@.subrange(from as int, to as int);
    let mut i: usize = from;
    while i < to
        invariant
            from <= i <= to <= s@.len(),
            d == s@.subrange(from as int, to as int),
            forall|k: int| from <= k < i ==> is_digit(#[trigger] s@[k]),
        decreases to - i,
    {
        if !(s[i] >= '0' && s[i] <= '9') {
            assert(!is_digit(d[i - from]));
            return false;
        }
        i = i + 1;
    }
    assert forall|k: int| 0 <= k < d.len() implies is_digit(#[trigger] d[k]) by {
        assert(d[k] == s@[k + from]);
    }
    true
}

/// `v` without its first character.
fn tail_of(v: &Vec<char>) -> (r: Vec<char>)
    requires
        v@.len() > 0,
    ensures
        r@ == v@.drop_first(),
{
    let mut r: Vec<char> = Vec::new();
    let mut i: usize = 1;
    while i < v.len()
        invariant
            1 <= i <= v@.len(),
            r@ == v@.subrange(1, i as int),
        decreases v@.len() - i,
    {
        r.push(v[i]);
        i = i + 1;
    }
    r
}

/// Reads a time in seconds (see [`millis_spec`]) as milliseconds; `None`
/// when malformed or beyond the range of `u64`.
pub fn parse_millis(s: &Vec<char>) -> (r: Option<u64>)
    ensures
        r is Some <==> (millis_spec(s@) is Some && millis_spec(s@)->0 <= u64::MAX),
        r is Some ==> r->0 == millis_spec(s@)->0,
{
    if s.len() > 0 && s[0] == '+' {
        parse_unsigned_millis(&tail_of(s))
    } else {
        parse_unsigned_millis(s)
    }
}

proof fn lemma_pow10_positive(n: nat)
    ensures
        pow10(n) >= 1,
    decreases n,
{
    if n > 0 {
        lemma_pow10_positive((n - 1) as nat);
    }
}

proof fn lemma_pow10_monotone(a: nat, b: nat)
    requires
        a <= b,
    ensures
        pow10(a) <= pow10(b),
    decreases b,
{
    if a < b {
        lemma_pow10_monotone(a, (b - 1) as nat);
        lemma_pow10_positive((b - 1) as nat);
    }
}

proof fn lemma_pow10_twenty()
    ensures
        pow10(20) > u64::MAX,
{
    reveal_with_fuel(pow10, 21);
}

/// The digits of `s` split before its last `k`: the front scaled up, plus
/// the back, which is below `10^k`.
proof fn lemma_digits_split(s: Seq<char>, k: nat)
    requires
        all_digits(s),
        k <= s.len(),
    ensures
        digits_value(s) == digits_value(s.subrange(0, s.len() - k)) * pow10(k)
            + digits_value(s.subrange(s.len() - k, s.len() as int)),
        digits_value(s.subrange(s.len() - k, s.len() as int)) < pow10(k),
    decreases k,
{
    let back = s.subrange(s.len() - k, s.len() as int);
    assert(all_digits(back));
    lemma_digits_below_pow10(back);
    if k == 0 {
        assert(s.subrange(0, s.len() as int) == s);
        assert(back.len() == 0);
    } else {
        let t = s.drop_last();
        assert(all_digits(t));
        lemma_digits_split(t, (k - 1) as nat);
        assert(t.subrange(0, t.len() - (k - 1)) == s.subrange(0, s.len() - k));
        let tb = t.subrange(t.len() - (k - 1), t.len() as int);
        assert(back.drop_last() == tb);
        assert(back.last() == s.last());
        let front = digits_value(s.subrange(0, s.len() - k));
        let p = pow10((k - 1) as nat);
        let b = digits_value(tb);
        let d = digit_value(s.last());
        assert((front * p + b) * 10 + d == front * (10 * p) + (b * 10 + d)) by (nonlinear_arith);
    }
}

/// `v` and `w` one after the other.
fn join_chars(v: &Vec<char>, w: &Vec<char>) -> (r: Vec<char>)
    ensures
        r@ == v@ + w@,
{
    let mut r: Vec<char> = Vec::new();
    let mut i: usize = 0;
    while i < v.len()
        invariant
            i <= v@.len(),
            r@ == v@.subrange(0, i as int),
        decreases v@.len() - i,
    {
        r.push(v[i]);
        i = i + 1;
    }
    let mut j: usize = 0;
    while j < w.len()
        invariant
            j <= w@.len(),
            r@ == v@ + w@.subrange(0, j as int),
        decreases w@.len() - j,
    {
        r.push(w[j]);
        j = j + 1;
    }
    assert(v@.subrange(0, v@.len() as int) == v@);
    assert(w@.subrange(0, w@.len() as int) == w@);
    r
}

/// The digits and the count after the point of a mantissa.
fn read_mantissa(m: &Vec<char>) -> (r: Option<(Vec<char>, usize)>)
    ensures
        r is Some <==> mantissa_spec(m@) is Some,
        r matches Some((g, f)) ==> mantissa_spec(m@) == Some((g@, f as nat)),
{
    let p = split_chars(m, '.');
    let ghost ps = split_spec(m@, '.');
    assert(p@.len() == ps.len());
    if p.len() == 1 {
        assert(p@[0]@ == ps[0]);
        let n = p[0].len();
        if n > 0 && digits_only(&p[0], 0, n) {
            assert(p[0]@.subrange(0, n as int) == p[0]@);
            let g = join_chars(&p[0], &Vec::new());
            assert(g@ =~= ps[0]);
            Some((g, 0))
        } else {
            assert(p[0]@.subrange(0, n as int) == p[0]@);
            None
        }
    } else if p.len() == 2 {
        assert(p@[0]@ == ps[0]);
        assert(p@[1]@ == ps[1]);
        let n0 = p[0].len();
        let n1 = p[1].len();
        assert(p[0]@.subrange(0, n0 as int) == p[0]@);
        assert(p[1]@.subrange(0, n1 as int) == p[1]@);
        if (n0 > 0 || n1 > 0) && digits_only(&p[0], 0, n0) && digits_only(&p[1], 0, n1) {
            Some((join_chars(&p[0], &p[1]), n1))
        } else {
            None
        }
    } else {
        None
    }
}

/// `d * 10^shift` rounded toward zero, where `d` is the value of the digits
/// `g`, if it fits in `u64`.
fn scale_digits(g: &Vec<char>, shift: i128) -> (r: Option<u64>)
    requires
        all_digits(g@),
        g@.len() > 0,
        shift > i128::MIN,
    ensures
        r is Some <==> scaled(digits_value(g@), shift as int) <= u64::MAX,
        r matches Some(v) ==> v == scaled(digits_value(g@), shift as int),
{
    let n = g.len();
    let ghost d = digits_value(g@);
    assert(g@.subrange(0, n as int) == g@);
    if shift >= 0 {
        let ghost e = pow10(shift as nat);
        proof {
            lemma_pow10_positive(shift as nat);
            assert(d * e >= d) by (nonlinear_arith)
                requires
                    e >= 1,
            ;
        }
        let v = match parse_digits(g, 0, n, u64::MAX as u128) {
            Some(v) => v,
            None => {
                assert(d > u64::MAX);
                assert(scaled(d, shift as int) == d * e);
                return None;
            },
        };
        if v == 0 {
            assert(d * e == 0 * e);
            return Some(0);
        }
        if shift >= 20 {
            proof {
                lemma_pow10_monotone(20, shift as nat);
                lemma_pow10_twenty();
                assert(d * e >= e) by (nonlinear_arith)
                    requires
                        d >= 1,
                ;
            }
            return None;
        }
        let mut acc: u128 = v;
        let mut j: i128 = 0;
        assert(pow10(0) == 1);
        assert(acc == d * pow10(0));
        while j < shift
            invariant
                0 <= j <= shift < 20,
                v == d,
                d == digits_value(g@),
                acc == d * pow10(j as nat),
                acc <= u64::MAX,
                e == pow10(shift as nat),
            decreases shift - j,
        {
            let next = acc * 10;
            proof {
                assert(pow10((j + 1) as nat) == 10 * pow10(j as nat));
                assert(next == d * pow10((j + 1) as nat)) by (nonlinear_arith)
                    requires
                        next == acc * 10,
                        acc == d * pow10(j as nat),
                        pow10((j + 1) as nat) == 10 * pow10(j as nat),
                ;
            }
            if next > u64::MAX as u128 {
                proof {
                    lemma_pow10_split(d, (j + 1) as nat, shift as nat);
                    assert(d * pow10(shift as nat) > u64::MAX);
                    assert(scaled(d, shift as int) == d * pow10(shift as nat));
                }
                return None;
            }
            acc = next;
            j = j + 1;
        }
        Some(acc as u64)
    } else {
        let k: i128 = 0 - shift;
        let ghost e = pow10(k as nat);
        if k >= n as i128 {
            proof {
                lemma_digits_below_pow10(g@);
                lemma_pow10_monotone(n as nat, k as nat);
                vstd::arithmetic::div_mod::lemma_basic_div(d as int, e as int);
            }
            return Some(0);
        }
        let keep: usize = n - (k as usize);
        proof {
            lemma_digits_split(g@, k as nat);
            lemma_pow10_positive(k as nat);
            let front = digits_value(g@.subrange(0, keep as int));
            let back = digits_value(g@.subrange(keep as int, n as int));
            vstd::arithmetic::div_mod::lemma_fundamental_div_mod_converse(d as int, e as int, front as int, back as int);
        }
        match parse_digits(g, 0, keep, u64::MAX as u128) {
            Some(v) => Some(v as u64),
            None => None,
        }
    }
}

/// Multiplying on by further powers of ten keeps a value above a bound it
/// already passed.
proof fn lemma_pow10_split(d: nat, j: nat, shift: nat)
    requires
        j <= shift,
    ensures
        d * pow10(shift) >= d * pow10(j),
{
    lemma_pow10_monotone(j, shift);
    assert(d * pow10(shift) >= d * pow10(j)) by (nonlinear_arith)
        requires
            pow10(shift) >= pow10(j),
    ;
}

/// Exponents beyond this (2^100) are handled without computing the shift.
const EXPONENT_LIMIT: u128 = 1267650600228229401496703205376;

fn parse_unsigned_millis(s: &Vec<char>) -> (r: Option<u64>)
    ensures
        r is Some <==> (unsigned_millis_spec(s@) is Some && unsigned_millis_spec(s@)->0 <= u64::MAX),
        r is Some ==> r->0 == unsigned_millis_spec(s@)->0,
{
    let mut p = split_chars(s, 'e');
    if p.len() == 1 {
        p = split_chars(s, 'E');
    }
    let ghost ps = exponent_split(s@);
    assert(pieces_view(p@) == ps);
    assert(p@.len() == ps.len());
    if p.len() == 0 || p.len() > 2 {
        return None;
    }
    assert(p@[0]@ == ps[0]);
    let (g, f) = match read_mantissa(&p[0]) {
        Some(m) => m,
        None => return None,
    };
    let ghost d = digits_value(g@);
    proof {
        assert(mantissa_spec(ps[0]) is Some);
        if split_spec(ps[0], '.').len() == 2 {
            let q = split_spec(ps[0], '.');
            assert forall|i: int| 0 <= i < (q[0] + q[1]).len() implies is_digit(#[trigger] (q[0] + q[1])[i]) by {
                if i < q[0].len() {
                    assert((q[0] + q[1])[i] == q[0][i]);
                } else {
                    assert((q[0] + q[1])[i] == q[1][i - q[0].len()]);
                }
            }
        }
    }
    assert(all_digits(g@));
    if p.len() == 1 {
        return scale_digits(&g, 3 - (f as i128));
    }
    assert(p@[1]@ == ps[1]);
    let e = &p[1];
    let n = e.len();
    let (negative, from): (bool, usize) = if n > 1 && (e[0] == '-' || e[0] == '+') {
        (e[0] == '-', 1)
    } else {
        (false, 0)
    };
    if from == n || !digits_only(e, from, n) {
        proof {
            assert(e@.subrange(0, n as int) == e@);
            assert(e@.subrange(1, n as int) == e@.drop_first());
            assert(!is_digit(e@[0]) || from == 0);
        }
        return None;
    }
    proof {
        assert(e@.subrange(0, n as int) == e@);
        assert(e@.subrange(1, n as int) == e@.drop_first());
        if from == 1 {
            assert(!is_digit(e@[0]));
        }
    }
    let ghost x = signed_spec(e@)->0;
    match parse_digits(e, from, n, EXPONENT_LIMIT) {
        Some(m) => {
            let shift: i128 = if negative { 0 - (m as i128) } else { m as i128 } - (f as i128) + 3;
            scale_digits(&g, shift)
        },
        None => {
            // The exponent is so large that the result is either zero or far
            // beyond `u64`.
            let ghost shift = x - f + 3;
            let n_g = g.len();
            assert(g@.subrange(0, n_g as int) == g@);
            if negative {
                proof {
                    lemma_digits_below_pow10(g@);
                    lemma_pow10_monotone(n_g as nat, (-shift) as nat);
                    lemma_pow10_positive((-shift) as nat);
                    vstd::arithmetic::div_mod::lemma_basic_div(d as int, pow10((-shift) as nat) as int);
                }
                Some(0)
            } else {
                match parse_digits(&g, 0, n_g, u64::MAX as u128) {
                    Some(0) => {
                        assert(d * pow10(shift as nat) == 0 * pow10(shift as nat));
                        Some(0)
                    },
                    _ => {
                        proof {
                            lemma_pow10_monotone(20, shift as nat);
                            lemma_pow10_twenty();
                            assert(d * pow10(shift as nat) >= pow10(shift as nat)) by (nonlinear_arith)
                                requires
                                    d >= 1,
                            ;
                        }
                        None
                    },
                }
            }
        },
    }
}

proof fn lemma_digits_below_pow10(s: Seq<char>)
    requires
        all_digits(s),
    ensures
        digits_value(s) < pow10(s.len()),
    decreases s.len(),
{
    if s.len() > 0 {
        let d = s.drop_last();
        assert(all_digits(d));
        lemma_digits_below_pow10(d);
        assert(is_digit(s.last()));
        let a = digits_value(d);
        let b = digit_value(s.last());
        let p = pow10(d.len());
        assert(a * 10 + b < 10 * p) by (nonlinear_arith)
            requires
                a < p,
                b <= 9,
        ;
    }
}

/// Reads a base-10 `i32` with an optional sign; `None` when malformed or out
/// of range.
pub fn parse_i32(s: &Vec<char>) -> (r: Option<i32>)
    ensures
        r is Some <==> (signed_spec(s@) is Some && i32::MIN <= signed_spec(s@)->0 <= i32::MAX),
        r is Some ==> r->0 == signed_spec(s@)->0,
{
    let n = s.len();
    if n > 1 && (s[0] == '-' || s[0] == '+') {
        assert(s@.subrange(1, n as int) == s@.drop_first());
        assert(!is_digit(s@[0]));
        if s[0] == '-' {
            match parse_digits(s, 1, n, 2147483648) {
                Some(v) => Some((0 - (v as i64)) as i32),
                None => None,
            }
        } else {
            match parse_digits(s, 1, n, 2147483647) {
                Some(v) => Some(v as i32),
                None => None,
            }
        }
    } else {
        assert(s@.subrange(0, n as int) == s@);
        match parse_digits(s, 0, n, 2147483647) {
            Some(v) => Some(v as i32),
            None => None,
        }
    }
}

/// Reads a base-10 `usize` without sign; `None` when malformed or out of
/// range.
pub fn parse_usize(s: &Vec<char>) -> (r: Option<usize>)
    ensures
        r is Some <==> (s@.len() > 0 && all_digits(s@) && digits_value(s@) <= usize::MAX),
        r is Some ==> r->0 == digits_value(s@),
{
    assert(s@.subrange(0, s@.len() as int) == s@);
    match parse_digits(s, 0, s.len(), usize::MAX as u128) {
        Some(v) => Some(v as usize),
        None => None,
    }
}

} // verus!
