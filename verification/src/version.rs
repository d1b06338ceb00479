//! Release version comparison for the self-updater.
use vstd::prelude::*;

use crate::prerelease::{
    compare_idents, compare_prerelease_text, identifiers, lemma_compare_idents_laws,
    lemma_compare_idents_transitive,
};

verus! {

pub open spec fn is_digit(c: char) -> bool {
    '0' as u32 <= c as u32 && c as u32 <= '9' as u32
}

/// A character of the `MAJOR.MINOR.PATCH` part of a version.
pub open spec fn is_core_char(c: char) -> bool {
    is_digit(c) || c == '.'
}

/// Length of the leading run of digits and dots.
pub open spec fn core_len(s: Seq<char>) -> nat
    decreases s.len(),
{
    if s.len() > 0 && is_core_char(s[0]) {
        1 + core_len(s.drop_first())
    } else {
        0
    }
}

/// A version without its prerelease (`-rc.1`) or build-metadata
/// (`+nightly.42`) suffix: everything before the first character that is
/// neither a digit nor a dot.
pub open spec fn version_core(s: Seq<char>) -> Seq<char> {
    s.take(core_len(s) as int)
}

pub open spec fn digit_value(c: char) -> nat {
    (c as u32 - '0' as u32) as nat
}

/// The number a string of decimal digits denotes.
pub open spec fn digits_value(s: Seq<char>) -> nat
    decreases s.len(),
{
    if s.len() == 0 {
        0
    } else {
        digits_value(s.drop_last()) * 10 + digit_value(s.last())
    }
}

/// What `seg.parse::<u64>()` keeps of one dot-separated piece of digits:
/// its value, unless the piece is empty or the value overflows `u64`.
pub open spec fn kept(seg: Seq<char>) -> Seq<u64> {
    if seg.len() > 0 && digits_value(seg) <= u64::MAX {
        seq![digits_value(seg) as u64]
    } else {
        Seq::empty()
    }
}

/// The numbers of a version core: the remaining input `s` is split on `.`,
/// `cur` being the piece read so far, and every piece that parses as a
/// `u64` is kept, in order.
pub open spec fn numbers_from(s: Seq<char>, cur: Seq<char>) -> Seq<u64>
    decreases s.len(),
{
    if s.len() == 0 {
        kept(cur)
    } else if s[0] == '.' {
        kept(cur) + numbers_from(s.drop_first(), Seq::empty())
    } else {
        numbers_from(s.drop_first(), cur.push(s[0]))
    }
}

/// `core.split('.').filter_map(|s| s.parse::<u64>().ok())`.
pub open spec fn version_numbers(core: Seq<char>) -> Seq<u64> {
    numbers_from(core, Seq::empty())
}

pub open spec fn head_or_zero(s: Seq<u64>) -> u64 {
    if s.len() > 0 {
        s[0]
    } else {
        0
    }
}

pub open spec fn tail_or_empty(s: Seq<u64>) -> Seq<u64> {
    if s.len() > 0 {
        s.drop_first()
    } else {
        s
    }
}

/// Compares two number lists as if the shorter were padded with zeros:
/// `1` when `l` is greater, `-1` when `c` is, `0` when they are equal.
pub open spec fn compare_numbers(c: Seq<u64>, l: Seq<u64>) -> int
    decreases c.len() + l.len(),
{
    if c.len() == 0 && l.len() == 0 {
        0
    } else {
        let x = head_or_zero(c);
        let y = head_or_zero(l);
        if y > x {
            1
        } else if y < x {
            -1
        } else {
            compare_numbers(tail_or_empty(c), tail_or_empty(l))
        }
    }
}

/// Length of the leading run of characters other than `+`.
pub open spec fn plus_free_len(s: Seq<char>) -> nat
    decreases s.len(),
{
    if s.len() > 0 && s[0] != '+' {
        1 + plus_free_len(s.drop_first())
    } else {
        0
    }
}

/// Where the prerelease of a version starts: right after the core, past a
/// `-` when there is one.
pub open spec fn prerelease_start(v: Seq<char>) -> int {
    let k = core_len(v) as int;
    if v[k] == '-' {
        k + 1
    } else {
        k
    }
}

/// The prerelease of a version (`rc.1` in `1.2.1-rc.1+b7`): what follows
/// the core (and its `-`) up to any `+build` metadata. A version whose core
/// is followed by nothing or by `+` has none.
pub open spec fn prerelease(v: Seq<char>) -> Option<Seq<char>> {
    let k = core_len(v) as int;
    if k >= v.len() || v[k] == '+' {
        None
    } else {
        let t = v.skip(prerelease_start(v));
        Some(t.take(plus_free_len(t) as int))
    }
}

/// Semver precedence of two optional prereleases: a release (none) ranks
/// above any prerelease; two prereleases compare by their identifiers.
pub open spec fn compare_prerelease(a: Option<Seq<char>>, b: Option<Seq<char>>) -> int {
    match (a, b) {
        (None, None) => 0,
        (Some(_), None) => 1,
        (None, Some(_)) => -1,
        (Some(x), Some(y)) => compare_idents(identifiers(x), identifiers(y)),
    }
}

/// Semver precedence of two versions: `1` when `latest` ranks above
/// `current`, `-1` when below, `0` when they rank the same. The numbers
/// decide first (missing numbers count as zero), then the prereleases;
/// build metadata never counts.
pub open spec fn compare_versions(current: Seq<char>, latest: Seq<char>) -> int {
    let r = compare_numbers(
        version_numbers(version_core(current)),
        version_numbers(version_core(latest)),
    );
    if r != 0 {
        r
    } else {
        compare_prerelease(prerelease(current), prerelease(latest))
    }
}

/// `latest` is newer than `current` by semver precedence.
pub open spec fn newer(current: Seq<char>, latest: Seq<char>) -> bool {
    compare_versions(current, latest) == 1
}

/// The leading core run ends exactly at the first non-core character.
pub proof fn lemma_core_len_is(s: Seq<char>, i: int)
    requires
        0 <= i <= s.len(),
        forall|j: int| 0 <= j < i ==> is_core_char(#[trigger] s[j]),
        i == s.len() || !is_core_char(s[i]),
    ensures
        core_len(s) == i,
    decreases i,
{
    if i > 0 {
        let t = s.drop_first();
        assert forall|j: int| 0 <= j < i - 1 implies is_core_char(#[trigger] t[j]) by {
            assert(t[j] == s[j + 1]);
        }
        if i < s.len() {
            assert(t[i - 1] == s[i]);
        }
        lemma_core_len_is(t, i - 1);
    }
}

pub proof fn lemma_core_len_bound(s: Seq<char>)
    ensures
        core_len(s) <= s.len(),
    decreases s.len(),
{
    if s.len() > 0 && is_core_char(s[0]) {
        lemma_core_len_bound(s.drop_first());
    }
}

/// `compare_numbers` unfolds the same way whether or not the lists are
/// exhausted.
pub proof fn lemma_compare_unfold(c: Seq<u64>, l: Seq<u64>)
    ensures
        compare_numbers(c, l) == (if head_or_zero(l) > head_or_zero(c) {
            1
        } else if head_or_zero(l) < head_or_zero(c) {
            -1
        } else {
            compare_numbers(tail_or_empty(c), tail_or_empty(l))
        }),
{
    if c.len() == 0 && l.len() == 0 {
        assert(tail_or_empty(c) == c);
        assert(tail_or_empty(l) == l);
    }
}

pub proof fn lemma_compare_range(c: Seq<u64>, l: Seq<u64>)
    ensures
        -1 <= compare_numbers(c, l) <= 1,
    decreases c.len() + l.len(),
{
    if !(c.len() == 0 && l.len() == 0) {
        lemma_compare_range(tail_or_empty(c), tail_or_empty(l));
    }
}

pub proof fn lemma_compare_reflexive(c: Seq<u64>)
    ensures
        compare_numbers(c, c) == 0,
    decreases c.len(),
{
    if c.len() > 0 {
        lemma_compare_reflexive(c.drop_first());
    }
}

pub proof fn lemma_compare_antisymmetric(c: Seq<u64>, l: Seq<u64>)
    ensures
        compare_numbers(c, l) == -compare_numbers(l, c),
    decreases c.len() + l.len(),
{
    if !(c.len() == 0 && l.len() == 0) {
        lemma_compare_antisymmetric(tail_or_empty(c), tail_or_empty(l));
    }
}

pub proof fn lemma_compare_transitive(x: Seq<u64>, y: Seq<u64>, z: Seq<u64>)
    requires
        compare_numbers(x, y) >= 0,
        compare_numbers(y, z) >= 0,
    ensures
        compare_numbers(x, z) >= 0,
        (compare_numbers(x, y) == 1 || compare_numbers(y, z) == 1) ==> compare_numbers(x, z) == 1,
    decreases x.len() + y.len() + z.len(),
{
    lemma_compare_unfold(x, y);
    lemma_compare_unfold(y, z);
    lemma_compare_unfold(x, z);
    if x.len() == 0 && y.len() == 0 && z.len() == 0 {
    } else if head_or_zero(x) == head_or_zero(y) && head_or_zero(y) == head_or_zero(z) {
        lemma_compare_transitive(tail_or_empty(x), tail_or_empty(y), tail_or_empty(z));
    }
}

proof fn lemma_compare_prerelease_laws(a: Option<Seq<char>>, b: Option<Seq<char>>)
    ensures
        compare_prerelease(a, b) == -compare_prerelease(b, a),
        compare_prerelease(a, a) == 0,
{
    if let (Some(x), Some(y)) = (a, b) {
        lemma_compare_idents_laws(identifiers(x), identifiers(y));
    }
    if let Some(x) = a {
        lemma_compare_idents_laws(identifiers(x), identifiers(x));
    }
}

proof fn lemma_compare_prerelease_transitive(
    x: Option<Seq<char>>,
    y: Option<Seq<char>>,
    z: Option<Seq<char>>,
)
    requires
        compare_prerelease(x, y) >= 0,
        compare_prerelease(y, z) >= 0,
    ensures
        compare_prerelease(x, z) >= 0,
        (compare_prerelease(x, y) == 1 || compare_prerelease(y, z) == 1) ==> compare_prerelease(
            x,
            z,
        ) == 1,
{
    if let (Some(a), Some(b), Some(c)) = (x, y, z) {
        lemma_compare_idents_transitive(identifiers(a), identifiers(b), identifiers(c));
    }
}

/// Precedence is antisymmetric and every version ranks the same as itself.
pub proof fn lemma_compare_versions_laws(a: Seq<char>, b: Seq<char>)
    ensures
        compare_versions(a, b) == -compare_versions(b, a),
        compare_versions(a, a) == 0,
{
    lemma_compare_antisymmetric(
        version_numbers(version_core(a)),
        version_numbers(version_core(b)),
    );
    lemma_compare_reflexive(version_numbers(version_core(a)));
    lemma_compare_prerelease_laws(prerelease(a), prerelease(b));
    lemma_compare_prerelease_laws(prerelease(a), prerelease(a));
}

/// Precedence is transitive.
pub proof fn lemma_compare_versions_transitive(a: Seq<char>, b: Seq<char>, c: Seq<char>)
    requires
        compare_versions(a, b) >= 0,
        compare_versions(b, c) >= 0,
    ensures
        compare_versions(a, c) >= 0,
        (compare_versions(a, b) == 1 || compare_versions(b, c) == 1) ==> compare_versions(a, c)
            == 1,
{
    let na = version_numbers(version_core(a));
    let nb = version_numbers(version_core(b));
    let nc = version_numbers(version_core(c));
    lemma_compare_range(na, nb);
    lemma_compare_range(nb, nc);
    lemma_compare_range(na, nc);
    lemma_compare_transitive(na, nb, nc);
    if compare_numbers(na, nb) == 0 && compare_numbers(nb, nc) == 0 {
        lemma_compare_antisymmetric(na, nb);
        lemma_compare_antisymmetric(nb, nc);
        lemma_compare_antisymmetric(na, nc);
        lemma_compare_transitive(nc, nb, na);
        lemma_compare_prerelease_transitive(prerelease(a), prerelease(b), prerelease(c));
    }
}

/// No version is newer than itself.
pub proof fn lemma_newer_irreflexive(v: Seq<char>)
    ensures
        !newer(v, v),
{
    lemma_compare_versions_laws(v, v);
}

/// Of two versions, at most one is newer than the other.
pub proof fn lemma_newer_asymmetric(a: Seq<char>, b: Seq<char>)
    ensures
        newer(a, b) ==> !newer(b, a),
{
    lemma_compare_versions_laws(a, b);
}

/// Newer-than chains: if `b` is newer than `a` and `c` newer than `b`, then
/// `c` is newer than `a`.
pub proof fn lemma_newer_transitive(a: Seq<char>, b: Seq<char>, c: Seq<char>)
    ensures
        newer(a, b) && newer(b, c) ==> newer(a, c),
{
    if newer(a, b) && newer(b, c) {
        lemma_compare_versions_transitive(a, b, c);
    }
}

/// The core of `v + suffix` is `v` when `v` is all digits and dots and the
/// suffix starts with neither.
proof fn lemma_core_of_suffixed(v: Seq<char>, suffix: Seq<char>)
    requires
        forall|j: int| 0 <= j < v.len() ==> is_core_char(#[trigger] v[j]),
        suffix.len() > 0,
        !is_core_char(suffix[0]),
    ensures
        core_len(v + suffix) == v.len(),
        core_len(v) == v.len(),
        version_core(v + suffix) == v,
        version_core(v) == v,
{
    let w = v + suffix;
    assert forall|j: int| 0 <= j < v.len() implies is_core_char(#[trigger] w[j]) by {
        assert(w[j] == v[j]);
    }
    assert(w[v.len() as int] == suffix[0]);
    lemma_core_len_is(w, v.len() as int);
    lemma_core_len_is(v, v.len() as int);
    assert(version_core(w) =~= v);
    assert(version_core(v) =~= v);
}

/// A stable release is newer than its own prerelease: the core `v` followed
/// by a suffix that starts with neither a digit, a dot nor `+`.
pub proof fn lemma_release_newer_than_its_prerelease(v: Seq<char>, suffix: Seq<char>)
    requires
        forall|j: int| 0 <= j < v.len() ==> is_core_char(#[trigger] v[j]),
        suffix.len() > 0,
        !is_core_char(suffix[0]),
        suffix[0] != '+',
    ensures
        newer(v + suffix, v),
        !newer(v, v + suffix),
{
    let w = v + suffix;
    lemma_core_of_suffixed(v, suffix);
    assert(w[v.len() as int] == suffix[0]);
    lemma_compare_reflexive(version_numbers(v));
    lemma_newer_asymmetric(v, w);
}

/// Build metadata does not change precedence: `v+build` ranks the same as
/// `v`, so neither is newer than the other.
pub proof fn lemma_build_metadata_ignored(v: Seq<char>, build: Seq<char>)
    requires
        forall|j: int| 0 <= j < v.len() ==> is_core_char(#[trigger] v[j]),
        build.len() > 0,
        build[0] == '+',
    ensures
        compare_versions(v, v + build) == 0,
        !newer(v, v + build),
        !newer(v + build, v),
{
    let w = v + build;
    lemma_core_of_suffixed(v, build);
    assert(w[v.len() as int] == build[0]);
    lemma_compare_reflexive(version_numbers(v));
    lemma_compare_versions_laws(v, w);
}

/// Stripping the suffix of a stripped version changes nothing.
pub proof fn lemma_version_core_idempotent(v: Seq<char>)
    ensures
        version_core(version_core(v)) == version_core(v),
{
    let c = version_core(v);
    lemma_core_len_bound(v);
    assert forall|j: int| 0 <= j < c.len() implies is_core_char(#[trigger] c[j]) by {
        lemma_core_prefix_chars(v, j);
    }
    lemma_core_len_is(c, c.len() as int);
    assert(version_core(c) =~= c);
}

/// Strip a prerelease (`-rc.1`) or build-metadata (`+nightly.42`) suffix,
/// leaving just the `MAJOR.MINOR.PATCH` portion.
pub fn strip_prerelease_metadata(v: &str) -> (r: &str)
    ensures
        r@ == version_core(v@),
{
    let n = v.unicode_len();
    let mut i: usize = 0;
    while i < n && is_core(v.get_char(i))
        invariant
            n == v@.len(),
            i <= n,
            forall|j: int| 0 <= j < i ==> is_core_char(#[trigger] v@[j]),
        decreases n - i,
    {
        i = i + 1;
    }
    proof {
        lemma_core_len_is(v@, i as int);
    }
    v.substring_char(0, i)
}

fn is_core(c: char) -> (b: bool)
    ensures
        b == is_core_char(c),
{
    ('0' <= c && c <= '9') || c == '.'
}

/// The `u64` numbers of a version core (digits and dots only).
fn parse_numbers(core: &str) -> (r: Vec<u64>)
    requires
        forall|j: int| 0 <= j < core@.len() ==> is_core_char(#[trigger] core@[j]),
    ensures
        r@ == version_numbers(core@),
{
    let n = core.unicode_len();
    let mut out: Vec<u64> = Vec::new();
    let mut start: usize = 0;
    let mut value: u64 = 0;
    let mut overflow = false;
    let mut i: usize = 0;
    proof {
        assert(core@.skip(0) =~= core@);
        assert(core@.subrange(0, 0) =~= Seq::<char>::empty());
        assert(out@ + version_numbers(core@) =~= version_numbers(core@));
    }
    while i < n
        invariant
            n == core@.len(),
            forall|j: int| 0 <= j < core@.len() ==> is_core_char(#[trigger] core@[j]),
            start <= i <= n,
            forall|j: int| start <= j < i ==> is_digit(#[trigger] core@[j]),
            overflow <==> digits_value(core@.subrange(start as int, i as int)) > u64::MAX,
            !overflow ==> value == digits_value(core@.subrange(start as int, i as int)),
            version_numbers(core@) == out@ + numbers_from(
                core@.skip(i as int),
                core@.subrange(start as int, i as int),
            ),
        decreases n - i,
    {
        let c = core.get_char(i);
        let ghost seg = core@.subrange(start as int, i as int);
        let ghost rest = core@.skip(i as int);
        assert(rest[0] == c);
        assert(rest.drop_first() =~= core@.skip(i + 1));
        if c == '.' {
            proof {
                assert(numbers_from(rest, seg) == kept(seg) + numbers_from(
                    rest.drop_first(),
                    Seq::empty(),
                ));
                assert(core@.subrange(i + 1, i + 1) =~= Seq::<char>::empty());
            }
            if i > start && !overflow {
                out.push(value);
                proof {
                    assert(kept(seg) =~= seq![value]);
                }
            } else {
                proof {
                    assert(kept(seg) =~= Seq::<u64>::empty());
                }
            }
            proof {
                assert(version_numbers(core@) =~= out@ + numbers_from(
                    core@.skip(i + 1),
                    core@.subrange(i + 1, i + 1),
                ));
            }
            start = i + 1;
            value = 0;
            overflow = false;
        } else {
            let d = (c as u32 - '0' as u32) as u64;
            let ghost seg2 = core@.subrange(start as int, i + 1);
            proof {
                assert(seg2 =~= seg.push(c));
                assert(seg2.drop_last() =~= seg);
                assert(digits_value(seg2) == digits_value(seg) * 10 + digit_value(c));
                assert(numbers_from(rest, seg) == numbers_from(rest.drop_first(), seg.push(c)));
            }
            if !overflow {
                if value <= (u64::MAX - d) / 10 {
                    value = value * 10 + d;
                } else {
                    overflow = true;
                }
            }
        }
        i = i + 1;
    }
    proof {
        assert(core@.skip(n as int) =~= Seq::<char>::empty());
        let seg = core@.subrange(start as int, n as int);
        assert(numbers_from(core@.skip(n as int), seg) == kept(seg));
    }
    if n > start && !overflow {
        out.push(value);
        proof {
            assert(out@ =~= version_numbers(core@));
        }
    } else {
        proof {
            assert(kept(core@.subrange(start as int, n as int)) =~= Seq::<u64>::empty());
            assert(out@ =~= version_numbers(core@));
        }
    }
    out
}

/// The list with its first `i` numbers dropped (empty past its end).
pub open spec fn skip_or_empty(s: Seq<u64>, i: int) -> Seq<u64> {
    if i <= s.len() {
        s.skip(i)
    } else {
        Seq::empty()
    }
}

/// True if `latest` is newer than `current` (semver, prerelease-aware).
pub fn is_newer(current: &str, latest: &str) -> (b: bool)
    ensures
        b == newer(current@, latest@),
{
    let current_stripped = strip_prerelease_metadata(current);
    let latest_stripped = strip_prerelease_metadata(latest);
    proof {
        lemma_core_len_bound(current@);
        lemma_core_len_bound(latest@);
        assert forall|j: int| 0 <= j < current_stripped@.len() implies is_core_char(
            #[trigger] current_stripped@[j],
        ) by {
            lemma_core_prefix_chars(current@, j);
        }
        assert forall|j: int| 0 <= j < latest_stripped@.len() implies is_core_char(
            #[trigger] latest_stripped@[j],
        ) by {
            lemma_core_prefix_chars(latest@, j);
        }
    }
    let c = parse_numbers(current_stripped);
    let l = parse_numbers(latest_stripped);
    let len = if c.len() >= l.len() {
        c.len()
    } else {
        l.len()
    };
    let mut i: usize = 0;
    proof {
        assert(skip_or_empty(c@, 0) =~= c@);
        assert(skip_or_empty(l@, 0) =~= l@);
    }
    while i < len
        invariant
            len == if c@.len() >= l@.len() {
                c@.len()
            } else {
                l@.len()
            },
            i <= len,
            c@ == version_numbers(version_core(current@)),
            l@ == version_numbers(version_core(latest@)),
            compare_numbers(c@, l@) == compare_numbers(skip_or_empty(c@, i as int), skip_or_empty(l@, i as int)),
        decreases len - i,
    {
        let cv: u64 = if i < c.len() {
            c[i]
        } else {
            0
        };
        let lv: u64 = if i < l.len() {
            l[i]
        } else {
            0
        };
        proof {
            let sc = skip_or_empty(c@, i as int);
            let sl = skip_or_empty(l@, i as int);
            lemma_compare_unfold(sc, sl);
            assert(head_or_zero(sc) == cv);
            assert(head_or_zero(sl) == lv);
            assert(tail_or_empty(sc) =~= skip_or_empty(c@, i + 1));
            assert(tail_or_empty(sl) =~= skip_or_empty(l@, i + 1));
        }
        if lv > cv {
            return true;
        }
        if lv < cv {
            return false;
        }
        i = i + 1;
    }
    proof {
        assert(skip_or_empty(c@, i as int) =~= Seq::<u64>::empty());
        assert(skip_or_empty(l@, i as int) =~= Seq::<u64>::empty());
    }
    // Numeric parts equal: the prereleases decide.
    let pc = prerelease_of(current);
    let pl = prerelease_of(latest);
    match (pc, pl) {
        (None, None) => false,
        (Some(_), None) => true,
        (None, Some(_)) => false,
        (Some(a), Some(b)) => compare_prerelease_text(a, b) == 1,
    }
}

/// The leading `+`-free run ends exactly at the first `+`.
proof fn lemma_plus_free_len_is(s: Seq<char>, i: int)
    requires
        0 <= i <= s.len(),
        forall|j: int| 0 <= j < i ==> #[trigger] s[j] != '+',
        i == s.len() || s[i] == '+',
    ensures
        plus_free_len(s) == i,
    decreases i,
{
    if i > 0 {
        let t = s.drop_first();
        assert forall|j: int| 0 <= j < i - 1 implies #[trigger] t[j] != '+' by {
            assert(t[j] == s[j + 1]);
        }
        if i < s.len() {
            assert(t[i - 1] == s[i]);
        }
        lemma_plus_free_len_is(t, i - 1);
    }
}

/// The prerelease of a version (see [`prerelease`]).
pub fn prerelease_of(v: &str) -> (r: Option<&str>)
    ensures
        match r {
            Some(p) => prerelease(v@) == Some(p@),
            None => prerelease(v@) is None,
        },
{
    let n = v.unicode_len();
    let k = strip_prerelease_metadata(v).unicode_len();
    proof {
        lemma_core_len_bound(v@);
    }
    if k >= n {
        return None;
    }
    let c = v.get_char(k);
    if c == '+' {
        return None;
    }
    let start = if c == '-' {
        k + 1
    } else {
        k
    };
    let mut end: usize = start;
    while end < n && v.get_char(end) != '+'
        invariant
            n == v@.len(),
            start <= end <= n,
            forall|j: int| start <= j < end ==> #[trigger] v@[j] != '+',
        decreases n - end,
    {
        end = end + 1;
    }
    proof {
        let t = v@.skip(start as int);
        assert(prerelease_start(v@) == start);
        assert forall|j: int| 0 <= j < end - start implies #[trigger] t[j] != '+' by {
            assert(t[j] == v@[j + start]);
        }
        if end < n {
            assert(t[end - start] == v@[end as int]);
        }
        lemma_plus_free_len_is(t, end - start);
        assert(t.take((end - start) as int) =~= v@.subrange(start as int, end as int));
    }
    Some(v.substring_char(start, end))
}

/// Every character of a version core is a digit or a dot.
pub proof fn lemma_core_prefix_chars(s: Seq<char>, j: int)
    requires
        0 <= j < core_len(s),
    ensures
        is_core_char(s[j]),
    decreases s.len(),
{
    lemma_core_len_bound(s);
    if j > 0 {
        let t = s.drop_first();
        lemma_core_len_bound(t);
        lemma_core_prefix_chars(t, j - 1);
        assert(s[j] == t[j - 1]);
    }
}

/// Whether a freshly-installed `--version` matches the expected release tag
/// (both stripped of any prerelease/build-metadata suffix).
pub fn post_install_version_ok(installed: &str, expected: &str) -> (b: bool)
    ensures
        b == (version_core(installed@).len() > 0 && version_core(installed@) == version_core(
            expected@,
        )),
{
    let installed_stripped = strip_prerelease_metadata(installed);
    let expected_stripped = strip_prerelease_metadata(expected);
    installed_stripped.unicode_len() != 0 && crate::text::str_eq(
        installed_stripped,
        expected_stripped,
    )
}

} // verus!
