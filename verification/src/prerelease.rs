//! Semver precedence of prerelease identifiers (`1.2.1-rc.1` < `1.2.1-rc.2`).
//!
//! Every comparison here returns `1` when its second argument is the greater
//! one, `-1` when its first is, and `0` when they rank the same.
use vstd::prelude::*;

use crate::version::{digit_value, digits_value, is_digit};

verus! {

// ── Numbers written in decimal ───────────────────────────────────────

pub open spec fn pow10(n: nat) -> nat
    decreases n,
{
    if n == 0 {
        1
    } else {
        10 * pow10((n - 1) as nat)
    }
}

pub open spec fn all_digits(s: Seq<char>) -> bool {
    forall|j: int| 0 <= j < s.len() ==> is_digit(#[trigger] s[j])
}

/// `1` when `y > x`, `-1` when `y < x`, `0` when equal.
pub open spec fn compare_nat(x: nat, y: nat) -> int {
    if y > x {
        1
    } else if y < x {
        -1
    } else {
        0
    }
}

proof fn lemma_pow10_positive(n: nat)
    ensures
        pow10(n) >= 1,
    decreases n,
{
    if n > 0 {
        lemma_pow10_positive((n - 1) as nat);
    }
}

/// A leading digit is worth its value times the power of ten of the rest.
proof fn lemma_prepend_digit(c: char, s: Seq<char>)
    ensures
        digits_value(seq![c] + s) == digit_value(c) * pow10(s.len()) + digits_value(s),
    decreases s.len(),
{
    let w = seq![c] + s;
    if s.len() == 0 {
        assert(w.drop_last() =~= Seq::<char>::empty());
        assert(w.last() == c);
        assert(digits_value(w) == digits_value(w.drop_last()) * 10 + digit_value(c));
        assert(pow10(0) == 1);
    } else {
        assert(w.drop_last() =~= seq![c] + s.drop_last());
        assert(w.last() == s.last());
        lemma_prepend_digit(c, s.drop_last());
        let d = digit_value(c);
        let p = pow10((s.len() - 1) as nat);
        let v = digits_value(s.drop_last());
        assert(digits_value(w) == digits_value(w.drop_last()) * 10 + digit_value(w.last()));
        assert(digits_value(s) == v * 10 + digit_value(s.last()));
        assert(pow10(s.len()) == 10 * p);
        assert((d * p + v) * 10 + digit_value(s.last()) == d * (10 * p) + (v * 10 + digit_value(
            s.last(),
        ))) by (nonlinear_arith);
    }
}

/// A digit string is less than ten to the power of its length.
proof fn lemma_digits_bound(s: Seq<char>)
    requires
        all_digits(s),
    ensures
        digits_value(s) < pow10(s.len()),
    decreases s.len(),
{
    if s.len() > 0 {
        let t = s.drop_last();
        assert(all_digits(t)) by {
            assert forall|j: int| 0 <= j < t.len() implies is_digit(#[trigger] t[j]) by {
                assert(t[j] == s[j]);
            }
        }
        lemma_digits_bound(t);
        assert(is_digit(s[s.len() - 1]));
    }
}

/// Leading zeros do not change a number.
proof fn lemma_leading_zeros(k: nat, s: Seq<char>)
    ensures
        digits_value(Seq::new(k, |i: int| '0') + s) == digits_value(s),
    decreases k,
{
    if k > 0 {
        let z = Seq::new(k, |i: int| '0');
        let z1 = Seq::new((k - 1) as nat, |i: int| '0');
        assert(z + s =~= seq!['0'] + (z1 + s));
        lemma_prepend_digit('0', z1 + s);
        lemma_leading_zeros((k - 1) as nat, s);
        let p = pow10((z1 + s).len());
        assert(digit_value('0') == 0);
        assert(0 * p == 0) by (nonlinear_arith);
    }
}

/// Two digit strings of one length compare as their first differing digit.
proof fn lemma_compare_same_length(a: Seq<char>, b: Seq<char>)
    requires
        a.len() == b.len(),
        a.len() > 0,
        all_digits(a),
        all_digits(b),
    ensures
        a[0] == b[0] ==> compare_nat(digits_value(a), digits_value(b)) == compare_nat(
            digits_value(a.drop_first()),
            digits_value(b.drop_first()),
        ),
        (a[0] as u32) < (b[0] as u32) ==> digits_value(a) < digits_value(b),
        (a[0] as u32) > (b[0] as u32) ==> digits_value(a) > digits_value(b),
{
    let ta = a.drop_first();
    let tb = b.drop_first();
    assert(a =~= seq![a[0]] + ta);
    assert(b =~= seq![b[0]] + tb);
    lemma_prepend_digit(a[0], ta);
    lemma_prepend_digit(b[0], tb);
    assert(all_digits(ta)) by {
        assert forall|j: int| 0 <= j < ta.len() implies is_digit(#[trigger] ta[j]) by {
            assert(ta[j] == a[j + 1]);
        }
    }
    assert(all_digits(tb)) by {
        assert forall|j: int| 0 <= j < tb.len() implies is_digit(#[trigger] tb[j]) by {
            assert(tb[j] == b[j + 1]);
        }
    }
    lemma_digits_bound(ta);
    lemma_digits_bound(tb);
    assert(is_digit(a[0]) && is_digit(b[0]));
    let p = pow10(ta.len());
    let da = digit_value(a[0]);
    let db = digit_value(b[0]);
    let va = digits_value(ta);
    let vb = digits_value(tb);
    if (a[0] as u32) < (b[0] as u32) {
        assert(da + 1 <= db);
        assert(da * p + va < db * p + vb) by (nonlinear_arith)
            requires
                da + 1 <= db,
                va < p,
                vb >= 0,
        ;
    }
    if (a[0] as u32) > (b[0] as u32) {
        assert(db + 1 <= da);
        assert(db * p + vb < da * p + va) by (nonlinear_arith)
            requires
                db + 1 <= da,
                vb < p,
                va >= 0,
        ;
    }
}

/// `s` left-padded with zeros to length `n`.
pub open spec fn zero_padded(s: Seq<char>, n: nat) -> Seq<char> {
    Seq::new((n - s.len()) as nat, |i: int| '0') + s
}

/// Numeric comparison of two strings of decimal digits, of any length.
fn compare_digit_strings(a: &str, b: &str) -> (r: i8)
    requires
        all_digits(a@),
        all_digits(b@),
    ensures
        r as int == compare_nat(digits_value(a@), digits_value(b@)),
{
    let la = a.unicode_len();
    let lb = b.unicode_len();
    let n = if la >= lb {
        la
    } else {
        lb
    };
    let ghost pa = zero_padded(a@, n as nat);
    let ghost pb = zero_padded(b@, n as nat);
    proof {
        lemma_leading_zeros((n - la) as nat, a@);
        lemma_leading_zeros((n - lb) as nat, b@);
        assert(all_digits(pa)) by {
            assert forall|j: int| 0 <= j < pa.len() implies is_digit(#[trigger] pa[j]) by {
                if j >= n - la {
                    assert(pa[j] == a@[j - (n - la)]);
                }
            }
        }
        assert(all_digits(pb)) by {
            assert forall|j: int| 0 <= j < pb.len() implies is_digit(#[trigger] pb[j]) by {
                if j >= n - lb {
                    assert(pb[j] == b@[j - (n - lb)]);
                }
            }
        }
        assert(pa.skip(0) =~= pa);
        assert(pb.skip(0) =~= pb);
    }
    let mut i: usize = 0;
    while i < n
        invariant
            la == a@.len(),
            lb == b@.len(),
            n == (if la >= lb {
                la
            } else {
                lb
            }),
            i <= n,
            pa == zero_padded(a@, n as nat),
            pb == zero_padded(b@, n as nat),
            pa.len() == n,
            pb.len() == n,
            all_digits(pa),
            all_digits(pb),
            compare_nat(digits_value(a@), digits_value(b@)) == compare_nat(
                digits_value(pa.skip(i as int)),
                digits_value(pb.skip(i as int)),
            ),
        decreases n - i,
    {
        let ca = if i < n - la {
            '0'
        } else {
            a.get_char(i - (n - la))
        };
        let cb = if i < n - lb {
            '0'
        } else {
            b.get_char(i - (n - lb))
        };
        let ghost xa = pa.skip(i as int);
        let ghost xb = pb.skip(i as int);
        proof {
            assert(pa[i as int] == ca);
            assert(pb[i as int] == cb);
            assert(xa[0] == ca);
            assert(xb[0] == cb);
            assert(xa.drop_first() =~= pa.skip(i + 1));
            assert(xb.drop_first() =~= pb.skip(i + 1));
            assert(all_digits(xa)) by {
                assert forall|j: int| 0 <= j < xa.len() implies is_digit(#[trigger] xa[j]) by {
                    assert(xa[j] == pa[j + i]);
                }
            }
            assert(all_digits(xb)) by {
                assert forall|j: int| 0 <= j < xb.len() implies is_digit(#[trigger] xb[j]) by {
                    assert(xb[j] == pb[j + i]);
                }
            }
            lemma_compare_same_length(xa, xb);
        }
        if (ca as u32) < (cb as u32) {
            return 1;
        }
        if (ca as u32) > (cb as u32) {
            return -1;
        }
        i = i + 1;
    }
    proof {
        assert(pa.skip(n as int) =~= Seq::<char>::empty());
        assert(pb.skip(n as int) =~= Seq::<char>::empty());
    }
    0
}

// ── Identifiers ───────────────────────────────────────────────────────

/// A numeric identifier: one or more digits.
pub open spec fn is_numeric_ident(s: Seq<char>) -> bool {
    s.len() > 0 && all_digits(s)
}

/// Character-by-character comparison in code-point (for ASCII: ASCII sort)
/// order; a proper prefix ranks lower.
pub open spec fn compare_text(a: Seq<char>, b: Seq<char>) -> int
    decreases a.len(),
{
    if a.len() == 0 && b.len() == 0 {
        0
    } else if a.len() == 0 {
        1
    } else if b.len() == 0 {
        -1
    } else if (b[0] as u32) > (a[0] as u32) {
        1
    } else if (b[0] as u32) < (a[0] as u32) {
        -1
    } else {
        compare_text(a.drop_first(), b.drop_first())
    }
}

/// Semver precedence of two prerelease identifiers: numeric ones compare
/// numerically, others lexically, and a numeric identifier ranks below an
/// alphanumeric one.
pub open spec fn compare_ident(a: Seq<char>, b: Seq<char>) -> int {
    let na = is_numeric_ident(a);
    let nb = is_numeric_ident(b);
    if na && nb {
        compare_nat(digits_value(a), digits_value(b))
    } else if na {
        1
    } else if nb {
        -1
    } else {
        compare_text(a, b)
    }
}

/// Semver precedence of two lists of identifiers: the first difference
/// decides; when one list is a prefix of the other, the longer ranks higher.
pub open spec fn compare_idents(a: Seq<Seq<char>>, b: Seq<Seq<char>>) -> int
    decreases a.len(),
{
    if a.len() == 0 && b.len() == 0 {
        0
    } else if a.len() == 0 {
        1
    } else if b.len() == 0 {
        -1
    } else if compare_ident(a[0], b[0]) != 0 {
        compare_ident(a[0], b[0])
    } else {
        compare_idents(a.drop_first(), b.drop_first())
    }
}

/// The dot-separated pieces of the rest `s`, `cur` being the piece read so
/// far (`str::split('.')`).
pub open spec fn pieces_from(s: Seq<char>, cur: Seq<char>) -> Seq<Seq<char>>
    decreases s.len(),
{
    if s.len() == 0 {
        seq![cur]
    } else if s[0] == '.' {
        seq![cur] + pieces_from(s.drop_first(), Seq::empty())
    } else {
        pieces_from(s.drop_first(), cur.push(s[0]))
    }
}

/// The identifiers of a prerelease: its dot-separated pieces.
pub open spec fn identifiers(s: Seq<char>) -> Seq<Seq<char>> {
    pieces_from(s, Seq::empty())
}

// ── Laws of the comparisons ───────────────────────────────────────────

proof fn lemma_compare_text_laws(a: Seq<char>, b: Seq<char>)
    ensures
        compare_text(a, b) == -compare_text(b, a),
        -1 <= compare_text(a, b) <= 1,
        compare_text(a, a) == 0,
    decreases a.len(),
{
    if a.len() > 0 && b.len() > 0 {
        lemma_compare_text_laws(a.drop_first(), b.drop_first());
    }
    if a.len() > 0 {
        lemma_compare_text_laws(a.drop_first(), a.drop_first());
    }
}

proof fn lemma_compare_text_transitive(x: Seq<char>, y: Seq<char>, z: Seq<char>)
    requires
        compare_text(x, y) >= 0,
        compare_text(y, z) >= 0,
    ensures
        compare_text(x, z) >= 0,
        (compare_text(x, y) == 1 || compare_text(y, z) == 1) ==> compare_text(x, z) == 1,
    decreases x.len(),
{
    if x.len() > 0 && y.len() > 0 && z.len() > 0 && (x[0] as u32) == (y[0] as u32) && (y[0] as u32)
        == (z[0] as u32) {
        lemma_compare_text_transitive(x.drop_first(), y.drop_first(), z.drop_first());
    }
}

proof fn lemma_compare_ident_laws(a: Seq<char>, b: Seq<char>)
    ensures
        compare_ident(a, b) == -compare_ident(b, a),
        -1 <= compare_ident(a, b) <= 1,
        compare_ident(a, a) == 0,
{
    lemma_compare_text_laws(a, b);
}

proof fn lemma_compare_ident_transitive(x: Seq<char>, y: Seq<char>, z: Seq<char>)
    requires
        compare_ident(x, y) >= 0,
        compare_ident(y, z) >= 0,
    ensures
        compare_ident(x, z) >= 0,
        (compare_ident(x, y) == 1 || compare_ident(y, z) == 1) ==> compare_ident(x, z) == 1,
{
    if !is_numeric_ident(x) && !is_numeric_ident(y) && !is_numeric_ident(z) {
        lemma_compare_text_transitive(x, y, z);
    }
}

/// A proper prefix ranks lower: `beta` before `beta2`, `rc` before `rc.1`'s
/// text `rc1`. (1 means the second argument ranks higher.)
pub proof fn lemma_text_prefix_ranks_lower(a: Seq<char>, t: Seq<char>)
    requires
        t.len() > 0,
    ensures
        compare_text(a, a + t) == 1,
        compare_text(a + t, a) == -1,
    decreases a.len(),
{
    if a.len() > 0 {
        assert((a + t).drop_first() =~= a.drop_first() + t);
        assert((a + t)[0] == a[0]);
        lemma_text_prefix_ranks_lower(a.drop_first(), t);
    } else {
        assert(a + t =~= t);
    }
}

/// Text is ordered by its first differing character: after a common
/// prefix, the side with the smaller character ranks lower.
pub proof fn lemma_text_first_difference_decides(
    p: Seq<char>,
    c: char,
    d: char,
    r: Seq<char>,
    q: Seq<char>,
)
    requires
        (c as u32) < (d as u32),
    ensures
        compare_text(p.push(c) + r, p.push(d) + q) == 1,
        compare_text(p.push(d) + q, p.push(c) + r) == -1,
    decreases p.len(),
{
    let a = p.push(c) + r;
    let b = p.push(d) + q;
    if p.len() > 0 {
        assert(a.drop_first() =~= p.drop_first().push(c) + r);
        assert(b.drop_first() =~= p.drop_first().push(d) + q);
        assert(a[0] == p[0] && b[0] == p[0]);
        lemma_text_first_difference_decides(p.drop_first(), c, d, r, q);
    } else {
        assert(a[0] == c && b[0] == d);
    }
}

/// Numeric identifiers rank below alphanumeric ones, and among themselves
/// by their value (`2` < `11`; `007` and `7` rank the same).
pub proof fn lemma_numeric_idents_rank_by_value(a: Seq<char>, b: Seq<char>)
    ensures
        is_numeric_ident(a) && !is_numeric_ident(b) ==> compare_ident(a, b) == 1 && compare_ident(b, a) == -1,
        is_numeric_ident(a) && is_numeric_ident(b) ==> {
            &&& digits_value(a) < digits_value(b) ==> compare_ident(a, b) == 1
            &&& digits_value(a) == digits_value(b) ==> compare_ident(a, b) == 0
        },
{
}

/// An alphanumeric identifier ranks above every proper prefix of it:
/// `beta` < `beta2`, `1` < `1a`.
pub proof fn lemma_ident_prefix_ranks_lower(a: Seq<char>, t: Seq<char>)
    requires
        t.len() > 0,
        !is_numeric_ident(a + t),
    ensures
        compare_ident(a, a + t) == 1,
        compare_ident(a + t, a) == -1,
{
    lemma_text_prefix_ranks_lower(a, t);
}

/// Identifiers are compared in order, and extending the last one (into an
/// alphanumeric identifier) ranks higher: `rc.beta` < `rc.beta2`; so does
/// adding identifiers: `alpha` < `alpha.1`.
pub proof fn lemma_extended_prerelease_ranks_higher(
    x: Seq<Seq<char>>,
    a: Seq<char>,
    t: Seq<char>,
    more: Seq<Seq<char>>,
)
    requires
        t.len() > 0,
        !is_numeric_ident(a + t),
        more.len() > 0,
    ensures
        compare_idents(x.push(a), x.push(a + t)) == 1,
        compare_idents(x.push(a + t), x.push(a)) == -1,
        compare_idents(x, x + more) == 1,
        compare_idents(x + more, x) == -1,
    decreases x.len(),
{
    if x.len() == 0 {
        lemma_ident_prefix_ranks_lower(a, t);
        assert(x.push(a) =~= seq![a]);
        assert(x.push(a + t) =~= seq![a + t]);
        assert(x + more =~= more);
    } else {
        lemma_compare_ident_laws(x[0], x[0]);
        lemma_extended_prerelease_ranks_higher(x.drop_first(), a, t, more);
        assert(x.push(a).drop_first() =~= x.drop_first().push(a));
        assert(x.push(a + t).drop_first() =~= x.drop_first().push(a + t));
        assert((x + more).drop_first() =~= x.drop_first() + more);
        assert(x.push(a)[0] == x[0]);
        assert(x.push(a + t)[0] == x[0]);
        assert((x + more)[0] == x[0]);
    }
}

pub proof fn lemma_compare_idents_laws(a: Seq<Seq<char>>, b: Seq<Seq<char>>)
    ensures
        compare_idents(a, b) == -compare_idents(b, a),
        -1 <= compare_idents(a, b) <= 1,
        compare_idents(a, a) == 0,
    decreases a.len(),
{
    if a.len() > 0 && b.len() > 0 {
        lemma_compare_ident_laws(a[0], b[0]);
        lemma_compare_idents_laws(a.drop_first(), b.drop_first());
    }
    if a.len() > 0 {
        lemma_compare_ident_laws(a[0], a[0]);
        lemma_compare_idents_laws(a.drop_first(), a.drop_first());
    }
}

pub proof fn lemma_compare_idents_transitive(x: Seq<Seq<char>>, y: Seq<Seq<char>>, z: Seq<Seq<char>>)
    requires
        compare_idents(x, y) >= 0,
        compare_idents(y, z) >= 0,
    ensures
        compare_idents(x, z) >= 0,
        (compare_idents(x, y) == 1 || compare_idents(y, z) == 1) ==> compare_idents(x, z) == 1,
    decreases x.len(),
{
    if x.len() > 0 && y.len() > 0 && z.len() > 0 {
        let cxy = compare_ident(x[0], y[0]);
        let cyz = compare_ident(y[0], z[0]);
        lemma_compare_ident_laws(x[0], y[0]);
        lemma_compare_ident_laws(y[0], z[0]);
        lemma_compare_ident_laws(x[0], z[0]);
        lemma_compare_ident_transitive(x[0], y[0], z[0]);
        if cxy == 0 && cyz == 0 {
            // Equal heads: the reverse chain gives the reverse inequality.
            lemma_compare_ident_transitive(z[0], y[0], x[0]);
            lemma_compare_idents_transitive(x.drop_first(), y.drop_first(), z.drop_first());
        }
    }
}

// ── Executable comparisons ────────────────────────────────────────────

fn is_numeric_piece(s: &str) -> (b: bool)
    ensures
        b == is_numeric_ident(s@),
{
    let n = s.unicode_len();
    if n == 0 {
        return false;
    }
    let mut i: usize = 0;
    while i < n
        invariant
            n == s@.len(),
            i <= n,
            forall|j: int| 0 <= j < i ==> is_digit(#[trigger] s@[j]),
        decreases n - i,
    {
        let c = s.get_char(i);
        if !('0' <= c && c <= '9') {
            assert(!is_digit(s@[i as int]));
            return false;
        }
        i = i + 1;
    }
    true
}

fn compare_text_exec(a: &str, b: &str) -> (r: i8)
    ensures
        r as int == compare_text(a@, b@),
{
    let la = a.unicode_len();
    let lb = b.unicode_len();
    let mut i: usize = 0;
    proof {
        assert(a@.skip(0) =~= a@);
        assert(b@.skip(0) =~= b@);
    }
    while i < la && i < lb
        invariant
            la == a@.len(),
            lb == b@.len(),
            i <= la,
            i <= lb,
            compare_text(a@, b@) == compare_text(a@.skip(i as int), b@.skip(i as int)),
        decreases la - i,
    {
        let ca = a.get_char(i);
        let cb = b.get_char(i);
        proof {
            let xa = a@.skip(i as int);
            let xb = b@.skip(i as int);
            assert(xa[0] == ca && xb[0] == cb);
            assert(xa.drop_first() =~= a@.skip(i + 1));
            assert(xb.drop_first() =~= b@.skip(i + 1));
        }
        if (cb as u32) > (ca as u32) {
            return 1;
        }
        if (cb as u32) < (ca as u32) {
            return -1;
        }
        i = i + 1;
    }
    if i == la && i == lb {
        proof {
            assert(a@.skip(i as int) =~= Seq::<char>::empty());
            assert(b@.skip(i as int) =~= Seq::<char>::empty());
        }
        0
    } else if i == la {
        proof {
            assert(a@.skip(i as int) =~= Seq::<char>::empty());
        }
        1
    } else {
        proof {
            assert(b@.skip(i as int) =~= Seq::<char>::empty());
        }
        -1
    }
}

fn compare_ident_exec(a: &str, b: &str) -> (r: i8)
    ensures
        r as int == compare_ident(a@, b@),
{
    let na = is_numeric_piece(a);
    let nb = is_numeric_piece(b);
    if na && nb {
        compare_digit_strings(a, b)
    } else if na {
        1
    } else if nb {
        -1
    } else {
        compare_text_exec(a, b)
    }
}

/// The texts of a list of string slices.
pub open spec fn slice_texts(v: Seq<&str>) -> Seq<Seq<char>> {
    v.map_values(|s: &str| s@)
}

/// `s.split('.')`.
fn split_dots<'a>(s: &'a str) -> (r: Vec<&'a str>)
    ensures
        slice_texts(r@) == identifiers(s@),
{
    let n = s.unicode_len();
    let mut out: Vec<&'a str> = Vec::new();
    let mut start: usize = 0;
    let mut i: usize = 0;
    proof {
        assert(s@.skip(0) =~= s@);
        assert(s@.subrange(0, 0) =~= Seq::<char>::empty());
        assert(slice_texts(out@) + identifiers(s@) =~= identifiers(s@));
    }
    while i < n
        invariant
            n == s@.len(),
            start <= i <= n,
            identifiers(s@) == slice_texts(out@) + pieces_from(
                s@.skip(i as int),
                s@.subrange(start as int, i as int),
            ),
        decreases n - i,
    {
        let c = s.get_char(i);
        let ghost seg = s@.subrange(start as int, i as int);
        let ghost rest = s@.skip(i as int);
        assert(rest[0] == c);
        assert(rest.drop_first() =~= s@.skip(i + 1));
        if c == '.' {
            let piece = s.substring_char(start, i);
            let ghost before = out@;
            out.push(piece);
            proof {
                assert(slice_texts(out@) =~= slice_texts(before) + seq![seg]);
                assert(s@.subrange(i + 1, i + 1) =~= Seq::<char>::empty());
                assert(identifiers(s@) =~= slice_texts(out@) + pieces_from(
                    s@.skip(i + 1),
                    s@.subrange(i + 1, i + 1),
                ));
            }
            start = i + 1;
        } else {
            proof {
                assert(s@.subrange(start as int, i + 1) =~= seg.push(c));
            }
        }
        i = i + 1;
    }
    let piece = s.substring_char(start, n);
    let ghost before = out@;
    out.push(piece);
    proof {
        assert(s@.skip(n as int) =~= Seq::<char>::empty());
        assert(slice_texts(out@) =~= slice_texts(before) + seq![s@.subrange(start as int, n as int)]);
        assert(slice_texts(out@) =~= identifiers(s@));
    }
    out
}

/// Semver precedence of two prereleases (the text after `-`), by their
/// dot-separated identifiers.
pub fn compare_prerelease_text(a: &str, b: &str) -> (r: i8)
    ensures
        r as int == compare_idents(identifiers(a@), identifiers(b@)),
{
    let xs = split_dots(a);
    let ys = split_dots(b);
    let ghost sx = slice_texts(xs@);
    let ghost sy = slice_texts(ys@);
    let la = xs.len();
    let lb = ys.len();
    let mut i: usize = 0;
    proof {
        assert(sx.skip(0) =~= sx);
        assert(sy.skip(0) =~= sy);
    }
    while i < la && i < lb
        invariant
            la == xs@.len(),
            lb == ys@.len(),
            sx == slice_texts(xs@),
            sy == slice_texts(ys@),
            sx == identifiers(a@),
            sy == identifiers(b@),
            i <= la,
            i <= lb,
            compare_idents(sx, sy) == compare_idents(sx.skip(i as int), sy.skip(i as int)),
        decreases la - i,
    {
        let c = compare_ident_exec(xs[i], ys[i]);
        proof {
            let tx = sx.skip(i as int);
            let ty = sy.skip(i as int);
            assert(tx[0] == xs@[i as int]@);
            assert(ty[0] == ys@[i as int]@);
            assert(tx.drop_first() =~= sx.skip(i + 1));
            assert(ty.drop_first() =~= sy.skip(i + 1));
        }
        if c != 0 {
            return c;
        }
        i = i + 1;
    }
    if i == la && i == lb {
        proof {
            assert(sx.skip(i as int) =~= Seq::<Seq<char>>::empty());
            assert(sy.skip(i as int) =~= Seq::<Seq<char>>::empty());
        }
        0
    } else if i == la {
        proof {
            assert(sx.skip(i as int) =~= Seq::<Seq<char>>::empty());
        }
        1
    } else {
        proof {
            assert(sy.skip(i as int) =~= Seq::<Seq<char>>::empty());
        }
        -1
    }
}

} // verus!
