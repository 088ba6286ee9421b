//! Exit patterns: bounded globs that select one transition.

use crate::plan::error::{PlanError, PlanErrorView};
use crate::text::{
    byte_len, chars_of, contains_control, copy_text, has_control, has_outer_space, is_space,
};
use crate::tokens::ExitCode;
use vstd::prelude::*;
use vstd::string::*;
use vstd::utf8::encode_utf8;

verus! {

/// The maximum length of one exit pattern in UTF-8 bytes.
pub const MAX_PATTERN_BYTES: usize = 64;

/// `*` stands for any run of characters, `?` for exactly one, and every other
/// character for itself.
pub open spec fn glob(pattern: Seq<char>, value: Seq<char>) -> bool
    decreases pattern.len() + value.len(),
{
    if pattern.len() == 0 {
        value.len() == 0
    } else if pattern[0] == '*' {
        ||| glob(pattern.drop_first(), value)
        ||| (value.len() > 0 && glob(pattern, value.drop_first()))
    } else {
        &&& value.len() > 0
        &&& (pattern[0] == '?' || pattern[0] == value[0])
        &&& glob(pattern.drop_first(), value.drop_first())
    }
}

/// Some value exists that both patterns match.
pub open spec fn overlap(left: Seq<char>, right: Seq<char>) -> bool {
    exists|value: Seq<char>| #[trigger] glob(left, value) && glob(right, value)
}

/// Every character is `*`.
pub open spec fn all_stars(pattern: Seq<char>) -> bool {
    forall|i: int| 0 <= i < pattern.len() ==> #[trigger] pattern[i] == '*'
}

/// The text that a valid exit pattern may hold.
pub open spec fn valid_pattern(text: Seq<char>) -> bool {
    &&& text.len() > 0
    &&& encode_utf8(text).len() <= MAX_PATTERN_BYTES
    &&& !has_outer_space(text)
    &&& !has_control(text)
}

/// The number of `*` and `?` characters of `pattern`.
pub open spec fn wildcard_count(pattern: Seq<char>) -> nat
    decreases pattern.len(),
{
    if pattern.len() == 0 {
        0
    } else {
        wildcard_count(pattern.drop_last()) + (if pattern.last() == '*' || pattern.last() == '?' {
            1nat
        } else {
            0nat
        })
    }
}

proof fn wildcard_count_bound(pattern: Seq<char>)
    ensures
        wildcard_count(pattern) <= pattern.len(),
    decreases pattern.len(),
{
    if pattern.len() > 0 {
        wildcard_count_bound(pattern.drop_last());
    }
}

/// The pattern from `i` on matches the value from `j` on.
spec fn from_at(p: Seq<char>, v: Seq<char>, i: int, j: int) -> bool {
    glob(p.skip(i), v.skip(j))
}

proof fn from_at_step(p: Seq<char>, v: Seq<char>, i: int, j: int)
    requires
        0 <= i <= p.len(),
        0 <= j <= v.len(),
    ensures
        i == p.len() ==> from_at(p, v, i, j) == (j == v.len()),
        i < p.len() && p[i] == '*' ==> from_at(p, v, i, j) == (from_at(p, v, i + 1, j) || (j
            < v.len() && from_at(p, v, i, j + 1))),
        i < p.len() && p[i] != '*' ==> from_at(p, v, i, j) == (j < v.len() && (p[i] == '?' || p[i]
            == v[j]) && from_at(p, v, i + 1, j + 1)),
{
    let ps = p.skip(i);
    let vs = v.skip(j);
    if i < p.len() {
        assert(ps[0] == p[i]);
        assert(ps.drop_first() =~= p.skip(i + 1));
    }
    if j < v.len() {
        assert(vs[0] == v[j]);
        assert(vs.drop_first() =~= v.skip(j + 1));
    }
}

proof fn star_covers_earlier(p: Seq<char>, v: Seq<char>, i: int, j: int, k: int)
    requires
        0 <= i < p.len(),
        p[i] == '*',
        0 <= j <= k <= v.len(),
        from_at(p, v, i, k),
    ensures
        from_at(p, v, i, j),
    decreases k - j,
{
    if j < k {
        star_covers_earlier(p, v, i, j + 1, k);
        from_at_step(p, v, i, j);
    }
}

proof fn segment_moves_on(p: Seq<char>, v: Seq<char>, a: int, b: int, k: int)
    requires
        0 <= a <= b <= p.len(),
        0 <= k <= v.len(),
        forall|x: int| a <= x < b ==> #[trigger] p[x] != '*',
        from_at(p, v, a, k),
    ensures
        k + (b - a) <= v.len(),
        from_at(p, v, b, k + (b - a)),
    decreases b - a,
{
    if a < b {
        from_at_step(p, v, a, k);
        segment_moves_on(p, v, a + 1, b, k + 1);
    }
}

/// A star at `si` that may resume at `r` succeeds exactly when the attempt at
/// `(pi, vi)` does, once that attempt stands before another star or the end.
proof fn attempt_decides(p: Seq<char>, v: Seq<char>, si: int, r: int, pi: int, vi: int)
    requires
        0 <= si < pi <= p.len(),
        p[si] == '*',
        0 <= r <= vi <= v.len(),
        vi - r == pi - si - 1,
        forall|x: int| si < x < pi ==> #[trigger] p[x] != '*',
        from_at(p, v, si + 1, r) == from_at(p, v, pi, vi),
        vi == v.len() || (pi < p.len() && p[pi] == '*'),
    ensures
        from_at(p, v, si, r) == from_at(p, v, pi, vi),
{
    from_at_step(p, v, si, r);
    if from_at(p, v, si, r) && !from_at(p, v, si + 1, r) {
        let k = star_witness(p, v, si, r + 1);
        segment_moves_on(p, v, si + 1, pi, k);
        assert(k + (pi - (si + 1)) > vi);
        star_covers_earlier(p, v, pi, vi, k + (pi - (si + 1)));
    }
}

proof fn star_witness(p: Seq<char>, v: Seq<char>, si: int, j: int) -> (k: int)
    requires
        0 <= si < p.len(),
        p[si] == '*',
        0 <= j <= v.len(),
        from_at(p, v, si, j),
    ensures
        j <= k <= v.len(),
        from_at(p, v, si + 1, k),
    decreases v.len() - j,
{
    from_at_step(p, v, si, j);
    if from_at(p, v, si + 1, j) {
        j
    } else {
        star_witness(p, v, si, j + 1)
    }
}

proof fn stars_match_nothing(p: Seq<char>, v: Seq<char>, i: int)
    requires
        0 <= i <= p.len(),
    ensures
        from_at(p, v, i, v.len() as int) == all_stars(p.skip(i)),
    decreases p.len() - i,
{
    from_at_step(p, v, i, v.len() as int);
    let rest = p.skip(i);
    if i < p.len() {
        stars_match_nothing(p, v, i + 1);
        assert(rest[0] == p[i]);
        let tail = p.skip(i + 1);
        assert(tail =~= rest.drop_first());
        if all_stars(rest) {
            assert forall|x: int| 0 <= x < tail.len() implies #[trigger] tail[x] == '*' by {
                assert(tail[x] == rest[x + 1]);
            }
        }
        if p[i] == '*' && all_stars(tail) {
            assert forall|x: int| 0 <= x < rest.len() implies #[trigger] rest[x] == '*' by {
                if x > 0 {
                    assert(rest[x] == tail[x - 1]);
                }
            }
        }
    }
}

/// Reports whether every character from `start` on is `*`.
fn only_stars_from(pattern: &Vec<char>, start: usize) -> (r: bool)
    requires
        start <= pattern.len(),
    ensures
        r == all_stars(pattern@.skip(start as int)),
{
    let mut i: usize = start;
    let ghost rest = pattern@.skip(start as int);
    while i < pattern.len()
        invariant
            start <= i <= pattern.len(),
            rest == pattern@.skip(start as int),
            forall|x: int| start <= x < i ==> #[trigger] pattern@[x] == '*',
        decreases pattern.len() - i,
    {
        if pattern[i] != '*' {
            assert(rest[i - start] != '*');
            return false;
        }
        i = i + 1;
    }
    assert forall|x: int| 0 <= x < rest.len() implies #[trigger] rest[x] == '*' by {
        assert(rest[x] == pattern@[x + start]);
    }
    true
}

/// Matches `value` against `pattern`, resuming at the latest star on a
/// mismatch.
fn matches_from(pattern: &Vec<char>, value: &Vec<char>) -> (r: bool)
    ensures
        r == glob(pattern@, value@),
{
    let mut pattern_index: usize = 0;
    let mut value_index: usize = 0;
    let mut starred: bool = false;
    let mut star: usize = 0;
    let mut resume: usize = 0;
    let ghost p = pattern@;
    let ghost v = value@;
    proof {
        assert(p.skip(0) =~= p);
        assert(v.skip(0) =~= v);
    }
    while value_index < value.len()
        invariant
            p == pattern@,
            v == value@,
            pattern_index <= p.len(),
            value_index <= v.len(),
            resume <= value_index,
            starred || resume == 0,
            !starred ==> glob(p, v) == from_at(p, v, pattern_index as int, value_index as int),
            starred ==> {
                &&& star < pattern_index
                &&& p[star as int] == '*'
                &&& value_index - resume == pattern_index - star - 1
                &&& forall|x: int| star < x < pattern_index ==> #[trigger] p[x] != '*'
                &&& from_at(p, v, star + 1, resume as int) == from_at(
                    p,
                    v,
                    pattern_index as int,
                    value_index as int,
                )
                &&& glob(p, v) == from_at(p, v, star as int, resume as int)
            },
        decreases value.len() - resume, pattern.len() - pattern_index,
    {
        proof {
            from_at_step(p, v, pattern_index as int, value_index as int);
        }
        if pattern_index < pattern.len() && pattern[pattern_index] == '*' {
            proof {
                if starred {
                    attempt_decides(
                        p,
                        v,
                        star as int,
                        resume as int,
                        pattern_index as int,
                        value_index as int,
                    );
                }
            }
            starred = true;
            star = pattern_index;
            resume = value_index;
            pattern_index = pattern_index + 1;
        } else if pattern_index < pattern.len() && (pattern[pattern_index] == '?'
            || pattern[pattern_index] == value[value_index]) {
            pattern_index = pattern_index + 1;
            value_index = value_index + 1;
        } else if starred {
            proof {
                from_at_step(p, v, star as int, resume as int);
            }
            pattern_index = star + 1;
            value_index = resume + 1;
            resume = resume + 1;
        } else {
            return false;
        }
    }
    proof {
        stars_match_nothing(p, v, pattern_index as int);
        if starred {
            attempt_decides(
                p,
                v,
                star as int,
                resume as int,
                pattern_index as int,
                value_index as int,
            );
        }
    }
    only_stars_from(pattern, pattern_index)
}

/// Two patterns overlap, read off their first characters.
spec fn overlap_at(l: Seq<char>, r: Seq<char>, i: int, j: int) -> bool {
    overlap(l.skip(i), r.skip(j))
}

proof fn glob_star(p: Seq<char>, v: Seq<char>)
    requires
        p.len() > 0,
        p[0] == '*',
        glob(p.drop_first(), v),
    ensures
        glob(p, v),
{
}

proof fn empty_overlap(p: Seq<char>)
    ensures
        overlap(Seq::empty(), p) == all_stars(p),
        overlap(p, Seq::empty()) == all_stars(p),
{
    let none = Seq::<char>::empty();
    stars_match_nothing(p, none, 0);
    assert(p.skip(0) =~= p);
    assert(none.skip(0) =~= none);
    assert(glob(none, none));
    assert forall|w: Seq<char>| glob(none, w) implies w =~= none by {}
    if overlap(none, p) {
        let w = choose|w: Seq<char>| #[trigger] glob(none, w) && glob(p, w);
        assert(w =~= none);
    }
    if overlap(p, none) {
        let w = choose|w: Seq<char>| #[trigger] glob(p, w) && glob(none, w);
        assert(w =~= none);
    }
}

/// A common value of two patterns, the left of which starts with a star, is a
/// common value after dropping that star or after moving the right on.
proof fn star_overlap_splits(l: Seq<char>, r: Seq<char>, w: Seq<char>)
    requires
        l.len() > 0,
        l[0] == '*',
        r.len() > 0,
        glob(l, w),
        glob(r, w),
    ensures
        overlap(l.drop_first(), r) || overlap(l, r.drop_first()),
    decreases w.len(),
{
    if glob(l.drop_first(), w) {
    } else {
        let rest = w.drop_first();
        if r[0] == '*' {
            if glob(r.drop_first(), w) {
            } else {
                star_overlap_splits(l, r, rest);
            }
        } else {
            assert(glob(l, rest) && glob(r.drop_first(), rest));
        }
    }
}

proof fn star_overlap_joins(l: Seq<char>, r: Seq<char>)
    requires
        l.len() > 0,
        l[0] == '*',
        r.len() > 0,
        overlap(l.drop_first(), r) || overlap(l, r.drop_first()),
    ensures
        overlap(l, r),
{
    if overlap(l.drop_first(), r) {
        let w = choose|w: Seq<char>| #[trigger] glob(l.drop_first(), w) && glob(r, w);
        assert(glob(l, w));
    } else {
        let w = choose|w: Seq<char>| #[trigger] glob(l, w) && glob(r.drop_first(), w);
        if r[0] == '*' {
            glob_star(r, w);
            assert(glob(l, w));
        } else {
            let c = r[0];
            let longer = seq![c] + w;
            assert(longer.drop_first() =~= w);
            assert(longer[0] == c);
            assert(glob(r, longer));
            assert(glob(l, longer));
        }
    }
}

proof fn overlap_symmetric(l: Seq<char>, r: Seq<char>)
    ensures
        overlap(l, r) == overlap(r, l),
{
    if overlap(l, r) {
        let w = choose|w: Seq<char>| #[trigger] glob(l, w) && glob(r, w);
        assert(glob(r, w));
    }
    if overlap(r, l) {
        let w = choose|w: Seq<char>| #[trigger] glob(r, w) && glob(l, w);
        assert(glob(l, w));
    }
}

proof fn overlap_heads(l: Seq<char>, r: Seq<char>)
    requires
        l.len() > 0,
        r.len() > 0,
    ensures
        l[0] == '*' || r[0] == '*' ==> overlap(l, r) == (overlap(l.drop_first(), r) || overlap(
            l,
            r.drop_first(),
        )),
        l[0] != '*' && r[0] != '*' ==> overlap(l, r) == ((l[0] == '?' || r[0] == '?' || l[0]
            == r[0]) && overlap(l.drop_first(), r.drop_first())),
{
    if l[0] == '*' {
        if overlap(l, r) {
            let w = choose|w: Seq<char>| #[trigger] glob(l, w) && glob(r, w);
            star_overlap_splits(l, r, w);
        }
        if overlap(l.drop_first(), r) || overlap(l, r.drop_first()) {
            star_overlap_joins(l, r);
        }
    } else if r[0] == '*' {
        overlap_symmetric(l, r);
        overlap_symmetric(l.drop_first(), r);
        overlap_symmetric(l, r.drop_first());
        if overlap(r, l) {
            let w = choose|w: Seq<char>| #[trigger] glob(r, w) && glob(l, w);
            star_overlap_splits(r, l, w);
        }
        if overlap(r.drop_first(), l) || overlap(r, l.drop_first()) {
            star_overlap_joins(r, l);
        }
    } else {
        if overlap(l, r) {
            let w = choose|w: Seq<char>| #[trigger] glob(l, w) && glob(r, w);
            assert(glob(l.drop_first(), w.drop_first()));
        }
        if (l[0] == '?' || r[0] == '?' || l[0] == r[0]) && overlap(
            l.drop_first(),
            r.drop_first(),
        ) {
            let w = choose|w: Seq<char>|
                #[trigger] glob(l.drop_first(), w) && glob(r.drop_first(), w);
            let c = if l[0] == '?' {
                r[0]
            } else {
                l[0]
            };
            let longer = seq![c] + w;
            assert(longer.drop_first() =~= w);
            assert(glob(l, longer));
            assert(glob(r, longer));
        }
    }
}

proof fn overlap_at_step(l: Seq<char>, r: Seq<char>, i: int, j: int)
    requires
        0 <= i <= l.len(),
        0 <= j <= r.len(),
    ensures
        i == l.len() ==> overlap_at(l, r, i, j) == all_stars(r.skip(j)),
        j == r.len() ==> overlap_at(l, r, i, j) == all_stars(l.skip(i)),
        i < l.len() && j < r.len() && (l[i] == '*' || r[j] == '*') ==> overlap_at(l, r, i, j) == (
        overlap_at(l, r, i + 1, j) || overlap_at(l, r, i, j + 1)),
        i < l.len() && j < r.len() && l[i] != '*' && r[j] != '*' ==> overlap_at(l, r, i, j) == ((
        l[i] == '?' || r[j] == '?' || l[i] == r[j]) && overlap_at(l, r, i + 1, j + 1)),
{
    let ls = l.skip(i);
    let rs = r.skip(j);
    if i == l.len() {
        assert(ls =~= Seq::empty());
        empty_overlap(rs);
    }
    if j == r.len() {
        assert(rs =~= Seq::empty());
        empty_overlap(ls);
    }
    if i < l.len() && j < r.len() {
        assert(ls[0] == l[i]);
        assert(rs[0] == r[j]);
        assert(ls.drop_first() =~= l.skip(i + 1));
        assert(rs.drop_first() =~= r.skip(j + 1));
        overlap_heads(ls, rs);
    }
}

/// Fills one row of the overlap table, from the row below it.
fn overlap_row(left: &Vec<char>, right: &Vec<char>, i: usize, below: &Vec<bool>) -> (row: Vec<bool>)
    requires
        i < left.len(),
        below.len() == right.len() + 1,
        forall|j: int|
            0 <= j <= right.len() ==> #[trigger] below@[j] == overlap_at(
                left@,
                right@,
                i + 1,
                j,
            ),
    ensures
        row.len() == right.len() + 1,
        forall|j: int|
            0 <= j <= right.len() ==> #[trigger] row@[j] == overlap_at(
                left@,
                right@,
                i as int,
                j,
            ),
{
    let n: usize = right.len();
    let mut row: Vec<bool> = below.clone();
    let last: bool = only_stars_from(left, i);
    proof {
        overlap_at_step(left@, right@, i as int, n as int);
    }
    row.set(n, last);
    let mut j: usize = n;
    while j > 0
        invariant
            j <= n,
            n == right.len(),
            i < left.len(),
            row.len() == n + 1,
            below.len() == n + 1,
            forall|k: int|
                0 <= k <= n ==> #[trigger] below@[k] == overlap_at(left@, right@, i + 1, k),
            forall|k: int|
                j <= k <= n ==> #[trigger] row@[k] == overlap_at(left@, right@, i as int, k),
        decreases j,
    {
        let k: usize = j - 1;
        proof {
            overlap_at_step(left@, right@, i as int, k as int);
        }
        let answer: bool = if left[i] == '*' || right[k] == '*' {
            below[k] || row[k + 1]
        } else {
            (left[i] == '?' || right[k] == '?' || left[i] == right[k]) && below[k + 1]
        };
        row.set(k, answer);
        j = k;
    }
    row
}

/// Reports whether two patterns have a common value.
fn patterns_overlap(left: &Vec<char>, right: &Vec<char>) -> (r: bool)
    ensures
        r == overlap(left@, right@),
{
    let m: usize = left.len();
    let n: usize = right.len();
    let mut row: Vec<bool> = Vec::new();
    let mut j: usize = 0;
    while j < n
        invariant
            j <= n,
            n == right.len(),
            m == left.len(),
            row.len() == j,
            forall|k: int|
                0 <= k < j ==> #[trigger] row@[k] == overlap_at(left@, right@, m as int, k),
        decreases n - j,
    {
        proof {
            overlap_at_step(left@, right@, m as int, j as int);
        }
        row.push(only_stars_from(right, j));
        j = j + 1;
    }
    proof {
        overlap_at_step(left@, right@, m as int, n as int);
    }
    row.push(only_stars_from(right, n));
    let mut i: usize = m;
    while i > 0
        invariant
            i <= m,
            m == left.len(),
            row.len() == right.len() + 1,
            forall|k: int|
                0 <= k <= right.len() ==> #[trigger] row@[k] == overlap_at(
                    left@,
                    right@,
                    i as int,
                    k,
                ),
        decreases i,
    {
        row = overlap_row(left, right, i - 1, &row);
        i = i - 1;
    }
    proof {
        assert(left@.skip(0) =~= left@);
        assert(right@.skip(0) =~= right@);
        assert(row@[0] == overlap_at(left@, right@, 0, 0));
    }
    row[0]
}

/// The computed specificity of one exit pattern.
///
/// Ordering compares more literal characters first, then fewer wildcards, then
/// a longer UTF-8 byte length. A greater value is evaluated first.
#[derive(Clone, Copy, Debug, PartialEq, Eq, Structural)]
pub struct PatternSpecificity {
    literals: usize,
    wildcards: usize,
    bytes: usize,
}

/// The order of two specificities given by their parts.
pub open spec fn less_specific(
    literals: int,
    wildcards: int,
    bytes: int,
    other_literals: int,
    other_wildcards: int,
    other_bytes: int,
) -> bool {
    ||| literals < other_literals
    ||| (literals == other_literals && wildcards > other_wildcards)
    ||| (literals == other_literals && wildcards == other_wildcards && bytes < other_bytes)
}

impl PatternSpecificity {
    /// The number of literal characters.
    pub closed spec fn spec_literals(self) -> nat {
        self.literals as nat
    }

    /// The number of wildcard characters.
    pub closed spec fn spec_wildcards(self) -> nat {
        self.wildcards as nat
    }

    /// The length in UTF-8 bytes.
    pub closed spec fn spec_bytes(self) -> nat {
        self.bytes as nat
    }

    /// `self` is evaluated after `other`.
    pub open spec fn below(self, other: Self) -> bool {
        less_specific(
            self.spec_literals() as int,
            self.spec_wildcards() as int,
            self.spec_bytes() as int,
            other.spec_literals() as int,
            other.spec_wildcards() as int,
            other.spec_bytes() as int,
        )
    }

    /// Returns the number of literal characters.
    pub fn literals(self) -> (r: usize)
        ensures
            r == self.spec_literals(),
    {
        self.literals
    }

    /// Returns the number of `*` and `?` characters.
    pub fn wildcards(self) -> (r: usize)
        ensures
            r == self.spec_wildcards(),
    {
        self.wildcards
    }

    /// Returns the pattern length in UTF-8 bytes.
    pub fn bytes(self) -> (r: usize)
        ensures
            r == self.spec_bytes(),
    {
        self.bytes
    }

    /// Reports whether `self` is evaluated after `other`.
    pub fn is_below(self, other: Self) -> (r: bool)
        ensures
            r == self.below(other),
    {
        if self.literals != other.literals {
            self.literals < other.literals
        } else if self.wildcards != other.wildcards {
            self.wildcards > other.wildcards
        } else {
            self.bytes < other.bytes
        }
    }

    /// Reports whether both are equally specific.
    pub fn same(self, other: Self) -> (r: bool)
        ensures
            r == (self == other),
    {
        self.literals == other.literals && self.wildcards == other.wildcards && self.bytes
            == other.bytes
    }

    /// Specificity is a strict total order: exactly one of the two orders or
    /// equality holds.
    pub proof fn strict_total(a: Self, b: Self)
        ensures
            !a.below(a),
            !(a.below(b) && b.below(a)),
            a.below(b) || b.below(a) || a == b,
    {
    }

    /// Specificity is transitive.
    pub proof fn transitive(a: Self, b: Self, c: Self)
        requires
            a.below(b),
            b.below(c),
        ensures
            a.below(c),
    {
    }
}

impl PartialOrd for PatternSpecificity {
    fn partial_cmp(&self, other: &Self) -> (r: Option<core::cmp::Ordering>) {
        if self.is_below(*other) {
            Some(core::cmp::Ordering::Less)
        } else if self.same(*other) {
            Some(core::cmp::Ordering::Equal)
        } else {
            Some(core::cmp::Ordering::Greater)
        }
    }
}

impl vstd::std_specs::cmp::PartialOrdSpecImpl for PatternSpecificity {
    open spec fn obeys_partial_cmp_spec() -> bool {
        true
    }

    open spec fn partial_cmp_spec(&self, other: &Self) -> Option<core::cmp::Ordering> {
        if self.below(*other) {
            Some(core::cmp::Ordering::Less)
        } else if *self == *other {
            Some(core::cmp::Ordering::Equal)
        } else {
            Some(core::cmp::Ordering::Greater)
        }
    }
}

/// A bounded exit-outcome pattern used to select one transition.
///
/// A pattern contains literal characters plus `*` for zero or more characters
/// and `?` for exactly one character. It matches the bounded [`ExitCode`],
/// never a batch status.
#[derive(Debug, PartialEq, Eq, PartialOrd, Ord, Hash)]
pub struct ExitPattern {
    text: String,
}

impl View for ExitPattern {
    type V = Seq<char>;

    closed spec fn view(&self) -> Seq<char> {
        self.text@
    }
}

impl ExitPattern {
    #[verifier::type_invariant]
    spec fn well_formed(self) -> bool {
        valid_pattern(self.text@)
    }

    /// Validates and constructs an exit pattern.
    ///
    /// An empty pattern, one longer than 64 UTF-8 bytes, surrounding white
    /// space and a control character are rejected.
    pub fn new(value: &str) -> (r: Result<Self, PlanError>)
        ensures
            match r {
                Ok(pattern) => valid_pattern(value@) && pattern@ == value@,
                Err(error) => !valid_pattern(value@) && error@ == PlanErrorView::InvalidPattern(
                    MAX_PATTERN_BYTES as nat,
                ),
            },
    {
        let chars: Vec<char> = chars_of(value);
        let error: PlanError = PlanError::InvalidPattern { max_bytes: MAX_PATTERN_BYTES };
        if chars.len() == 0 {
            return Err(error);
        }
        if byte_len(value) > MAX_PATTERN_BYTES {
            return Err(error);
        }
        if is_space(chars[0]) || is_space(chars[chars.len() - 1]) {
            return Err(error);
        }
        if contains_control(value) {
            return Err(error);
        }
        Ok(ExitPattern { text: copy_text(value) })
    }

    /// Borrows the validated pattern.
    pub fn as_str(&self) -> (r: &str)
        ensures
            r@ == self@,
            valid_pattern(self@),
    {
        proof {
            use_type_invariant(self);
        }
        self.text.as_str()
    }

    /// Returns whether this pattern matches one exit code.
    pub fn matches(&self, code: &ExitCode) -> (r: bool)
        ensures
            r == glob(self@, code@),
    {
        let pattern: Vec<char> = chars_of(self.text.as_str());
        let value: Vec<char> = chars_of(code.as_str());
        matches_from(&pattern, &value)
    }

    /// Returns the computed specificity used to order transitions.
    ///
    /// A greater specificity is evaluated first.
    pub fn specificity(&self) -> (r: PatternSpecificity)
        ensures
            r == specificity_of(self@),
            r.spec_wildcards() == wildcard_count(self@),
            r.spec_literals() == self@.len() - wildcard_count(self@),
            r.spec_bytes() == encode_utf8(self@).len(),
    {
        let chars: Vec<char> = chars_of(self.text.as_str());
        let mut wildcards: usize = 0;
        let mut i: usize = 0;
        while i < chars.len()
            invariant
                i <= chars.len(),
                wildcards <= i,
                chars@ == self@,
                wildcards == wildcard_count(self@.take(i as int)),
            decreases chars.len() - i,
        {
            proof {
                let next = self@.take(i + 1);
                assert(next.drop_last() =~= self@.take(i as int));
                assert(next.last() == self@[i as int]);
            }
            if chars[i] == '*' || chars[i] == '?' {
                wildcards = wildcards + 1;
            }
            i = i + 1;
        }
        assert(self@.take(self@.len() as int) =~= self@);
        PatternSpecificity {
            literals: chars.len() - wildcards,
            wildcards,
            bytes: byte_len(self.text.as_str()),
        }
    }

    /// Returns whether some exit code exists that both patterns match.
    pub fn intersects(&self, other: &Self) -> (r: bool)
        ensures
            r == overlap(self@, other@),
    {
        let left: Vec<char> = chars_of(self.text.as_str());
        let right: Vec<char> = chars_of(other.text.as_str());
        patterns_overlap(&left, &right)
    }

    /// The pattern as displayed text.
    pub fn to_text(&self) -> (r: String)
        ensures
            r@ == self@,
    {
        self.text.clone()
    }
}

impl Clone for ExitPattern {
    fn clone(&self) -> (r: Self)
        ensures
            r@ == self@,
            r == *self,
    {
        proof {
            use_type_invariant(self);
        }
        ExitPattern { text: self.text.clone() }
    }
}

/// The specificity of a pattern with the given text.
pub closed spec fn specificity_of(text: Seq<char>) -> PatternSpecificity {
    PatternSpecificity {
        literals: (text.len() - wildcard_count(text)) as usize,
        wildcards: wildcard_count(text) as usize,
        bytes: encode_utf8(text).len() as usize,
    }
}

/// The parts of a valid pattern's specificity are its counts.
pub proof fn specificity_parts(text: Seq<char>)
    requires
        valid_pattern(text),
    ensures
        specificity_of(text).spec_wildcards() == wildcard_count(text),
        specificity_of(text).spec_literals() == text.len() - wildcard_count(text),
        specificity_of(text).spec_bytes() == encode_utf8(text).len(),
{
    wildcard_count_bound(text);
    chars_within_bytes(text);
}

/// A text has no more characters than its encoding has bytes.
pub proof fn chars_within_bytes(text: Seq<char>)
    ensures
        text.len() <= encode_utf8(text).len(),
    decreases text.len(),
{
    if text.len() > 0 {
        chars_within_bytes(text.drop_first());
    }
}

/// The pattern `*` matches every value.
pub proof fn star_matches_everything(value: Seq<char>)
    ensures
        glob(seq!['*'], value),
    decreases value.len(),
{
    let star = seq!['*'];
    assert(star.drop_first() =~= Seq::empty());
    if value.len() == 0 {
        assert(glob(star.drop_first(), value));
    } else {
        star_matches_everything(value.drop_first());
    }
}

/// A pattern without wildcards matches its own text and nothing else.
pub proof fn literal_matches_itself(pattern: Seq<char>, value: Seq<char>)
    requires
        forall|i: int| 0 <= i < pattern.len() ==> #[trigger] pattern[i] != '*' && pattern[i] != '?',
    ensures
        glob(pattern, value) == (pattern == value),
    decreases pattern.len(),
{
    if pattern.len() == 0 {
        assert(pattern == value <==> value.len() == 0) by {
            if value.len() == 0 {
                assert(pattern =~= value);
            }
        }
    } else {
        assert(pattern[0] != '*' && pattern[0] != '?');
        let rest = pattern.drop_first();
        assert forall|i: int| 0 <= i < rest.len() implies #[trigger] rest[i] != '*' && rest[i]
            != '?' by {
            assert(rest[i] == pattern[i + 1]);
        }
        if value.len() > 0 {
            literal_matches_itself(rest, value.drop_first());
            assert(pattern =~= seq![pattern[0]] + rest);
            assert(value =~= seq![value[0]] + value.drop_first());
        }
    }
}

/// Every pattern matches some value, so it overlaps itself.
pub proof fn pattern_overlaps_itself(pattern: Seq<char>)
    ensures
        overlap(pattern, pattern),
    decreases pattern.len(),
{
    if pattern.len() == 0 {
        assert(glob(pattern, Seq::empty()));
    } else {
        let rest = pattern.drop_first();
        pattern_overlaps_itself(rest);
        let w = choose|w: Seq<char>| #[trigger] glob(rest, w) && glob(rest, w);
        if pattern[0] == '*' {
            assert(glob(pattern, w));
        } else {
            let longer = seq![pattern[0]] + w;
            assert(longer.drop_first() =~= w);
            assert(glob(pattern, longer));
        }
    }
}

} // verus!
