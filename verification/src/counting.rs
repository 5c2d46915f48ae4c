//! Counting and summing over sequences, shared by the table models.

use vstd::prelude::*;

verus! {

/// Number of elements of `s` that satisfy `p`.
pub open spec fn count<T>(s: Seq<T>, p: spec_fn(T) -> bool) -> nat
    decreases s.len(),
{
    if s.len() == 0 {
        0
    } else {
        count(s.drop_last(), p) + if p(s.last()) {
            1nat
        } else {
            0nat
        }
    }
}

/// Sum of `f` over the elements of `s`.
pub open spec fn total<T>(s: Seq<T>, f: spec_fn(T) -> nat) -> nat
    decreases s.len(),
{
    if s.len() == 0 {
        0
    } else {
        total(s.drop_last(), f) + f(s.last())
    }
}

/// A count never exceeds the length, is zero exactly when no element
/// qualifies, and equals the length exactly when every element does.
pub proof fn count_bounds<T>(s: Seq<T>, p: spec_fn(T) -> bool)
    ensures
        count(s, p) <= s.len(),
        count(s, p) == 0 <==> (forall|i: int| 0 <= i < s.len() ==> !p(#[trigger] s[i])),
        count(s, p) == s.len() <==> (forall|i: int| 0 <= i < s.len() ==> p(#[trigger] s[i])),
    decreases s.len(),
{
    if s.len() > 0 {
        count_bounds(s.drop_last(), p);
        let n = s.len() - 1;
        if count(s, p) == 0 {
            assert forall|i: int| 0 <= i < s.len() implies !p(#[trigger] s[i]) by {
                if i < n {
                    assert(s.drop_last()[i] == s[i]);
                }
            }
        }
        if count(s, p) == s.len() {
            assert forall|i: int| 0 <= i < s.len() implies p(#[trigger] s[i]) by {
                if i < n {
                    assert(s.drop_last()[i] == s[i]);
                }
            }
        }
        if forall|i: int| 0 <= i < s.len() ==> !p(#[trigger] s[i]) {
            assert forall|i: int| 0 <= i < s.drop_last().len() implies !p(
                #[trigger] s.drop_last()[i],
            ) by {
                assert(s.drop_last()[i] == s[i]);
            }
            assert(!p(s[n]));
        }
        if forall|i: int| 0 <= i < s.len() ==> p(#[trigger] s[i]) {
            assert forall|i: int| 0 <= i < s.drop_last().len() implies p(
                #[trigger] s.drop_last()[i],
            ) by {
                assert(s.drop_last()[i] == s[i]);
            }
            assert(p(s[n]));
        }
    }
}

/// Counting one more element.
pub proof fn count_push<T>(s: Seq<T>, v: T, p: spec_fn(T) -> bool)
    ensures
        count(s.push(v), p) == count(s, p) + if p(v) {
            1nat
        } else {
            0nat
        },
{
    assert(s.push(v).drop_last() =~= s);
}

/// Counting after one element was replaced.
pub proof fn count_update<T>(s: Seq<T>, i: int, v: T, p: spec_fn(T) -> bool)
    requires
        0 <= i < s.len(),
    ensures
        count(s.update(i, v), p) == count(s, p) - (if p(s[i]) {
            1int
        } else {
            0
        }) + (if p(v) {
            1int
        } else {
            0
        }),
    decreases s.len(),
{
    let u = s.update(i, v);
    if i == s.len() - 1 {
        assert(u.drop_last() =~= s.drop_last());
    } else {
        count_update(s.drop_last(), i, v, p);
        assert(u.drop_last() =~= s.drop_last().update(i, v));
    }
}

/// The count over a prefix grows by one element at a time.
pub proof fn count_take_next<T>(s: Seq<T>, i: int, p: spec_fn(T) -> bool)
    requires
        0 <= i < s.len(),
    ensures
        count(s.take(i + 1), p) == count(s.take(i), p) + if p(s[i]) {
            1nat
        } else {
            0nat
        },
{
    assert(s.take(i + 1).drop_last() =~= s.take(i));
}

/// The count over a prefix never exceeds the count over the whole.
pub proof fn count_take_le<T>(s: Seq<T>, i: int, p: spec_fn(T) -> bool)
    requires
        0 <= i <= s.len(),
    ensures
        count(s.take(i), p) <= count(s, p),
    decreases s.len() - i,
{
    if i == s.len() {
        assert(s.take(i) =~= s);
    } else {
        count_take_next(s, i, p);
        count_take_le(s, i + 1, p);
    }
}

/// Two predicates that agree on every element give the same count.
pub proof fn count_agrees<T>(s: Seq<T>, t: Seq<T>, p: spec_fn(T) -> bool, q: spec_fn(T) -> bool)
    requires
        s.len() == t.len(),
        forall|i: int| 0 <= i < s.len() ==> p(#[trigger] s[i]) == q(t[i]),
    ensures
        count(s, p) == count(t, q),
    decreases s.len(),
{
    if s.len() > 0 {
        let a = s.drop_last();
        let b = t.drop_last();
        assert forall|i: int| 0 <= i < a.len() implies p(#[trigger] a[i]) == q(b[i]) by {
            assert(a[i] == s[i] && b[i] == t[i]);
        }
        count_agrees(a, b, p, q);
        let n = s.len() - 1;
        assert(p(s[n]) == q(t[n]));
    }
}

/// Elements that satisfy one of two predicates that exclude each other are
/// among those that satisfy a weaker one.
pub proof fn count_disjoint<T>(
    s: Seq<T>,
    p: spec_fn(T) -> bool,
    q: spec_fn(T) -> bool,
    either: spec_fn(T) -> bool,
)
    requires
        forall|i: int| 0 <= i < s.len() ==> !(p(#[trigger] s[i]) && q(s[i])),
        forall|i: int|
            0 <= i < s.len() && (p(#[trigger] s[i]) || q(s[i])) ==> either(s[i]),
    ensures
        count(s, p) + count(s, q) <= count(s, either),
    decreases s.len(),
{
    if s.len() > 0 {
        let rest = s.drop_last();
        assert forall|i: int| 0 <= i < rest.len() implies rest[i] == s[i] by {}
        count_disjoint(rest, p, q, either);
        let n = s.len() - 1;
        assert(s[n] == s.last());
    }
}

/// Summing one more element.
pub proof fn total_push<T>(s: Seq<T>, v: T, f: spec_fn(T) -> nat)
    ensures
        total(s.push(v), f) == total(s, f) + f(v),
{
    assert(s.push(v).drop_last() =~= s);
}

/// Summing after one element was replaced.
pub proof fn total_update<T>(s: Seq<T>, i: int, v: T, f: spec_fn(T) -> nat)
    requires
        0 <= i < s.len(),
    ensures
        total(s.update(i, v), f) == total(s, f) - f(s[i]) + f(v),
    decreases s.len(),
{
    let u = s.update(i, v);
    if i == s.len() - 1 {
        assert(u.drop_last() =~= s.drop_last());
    } else {
        total_update(s.drop_last(), i, v, f);
        assert(u.drop_last() =~= s.drop_last().update(i, v));
    }
}

/// The sum over a prefix grows by one element at a time.
pub proof fn total_take_next<T>(s: Seq<T>, i: int, f: spec_fn(T) -> nat)
    requires
        0 <= i < s.len(),
    ensures
        total(s.take(i + 1), f) == total(s.take(i), f) + f(s[i]),
{
    assert(s.take(i + 1).drop_last() =~= s.take(i));
}

/// The sum over a prefix never exceeds the sum over the whole.
pub proof fn total_take_le<T>(s: Seq<T>, i: int, f: spec_fn(T) -> nat)
    requires
        0 <= i <= s.len(),
    ensures
        total(s.take(i), f) <= total(s, f),
    decreases s.len() - i,
{
    if i == s.len() {
        assert(s.take(i) =~= s);
    } else {
        total_take_next(s, i, f);
        total_take_le(s, i + 1, f);
    }
}

/// A single element never exceeds the sum.
pub proof fn total_at_least<T>(s: Seq<T>, i: int, f: spec_fn(T) -> nat)
    requires
        0 <= i < s.len(),
    ensures
        f(s[i]) <= total(s, f),
{
    total_take_next(s, i, f);
    total_take_le(s, i + 1, f);
}

} // verus!
