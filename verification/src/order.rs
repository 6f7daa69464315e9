//! Order: text by its characters, and a stable sort for records with a rank.

use vstd::prelude::*;
use vstd::seq_lib::to_multiset_build;

use crate::value::views;

verus! {

/// Whether `a` comes before `b`, character by character; a proper prefix comes
/// first. On text this is also the order of its UTF-8 bytes.
pub open spec fn text_lt(a: Seq<char>, b: Seq<char>) -> bool
    decreases a.len(),
{
    if b.len() == 0 {
        false
    } else if a.len() == 0 {
        true
    } else if a[0] != b[0] {
        (a[0] as int) < (b[0] as int)
    } else {
        text_lt(a.drop_first(), b.drop_first())
    }
}

/// Whether `a` comes before `b` or is the same text.
pub open spec fn text_le(a: Seq<char>, b: Seq<char>) -> bool {
    a == b || text_lt(a, b)
}

/// Of two different texts exactly one comes before the other.
pub proof fn lemma_text_total(a: Seq<char>, b: Seq<char>)
    ensures
        text_le(a, b) || text_le(b, a),
        text_lt(a, b) ==> !text_lt(b, a) && a != b,
    decreases a.len(),
{
    if a.len() > 0 && b.len() > 0 && a[0] == b[0] {
        lemma_text_total(a.drop_first(), b.drop_first());
        if a.drop_first() == b.drop_first() {
            assert(a =~= seq![a[0]] + a.drop_first());
            assert(b =~= seq![b[0]] + b.drop_first());
            assert(a == b);
        }
    } else if a.len() == 0 && b.len() == 0 {
        assert(a =~= b);
    } else if a.len() > 0 && b.len() > 0 {
        assert(a[0] as int != b[0] as int);
    }
}

/// The order of text is transitive.
pub proof fn lemma_text_transitive(a: Seq<char>, b: Seq<char>, c: Seq<char>)
    requires
        text_le(a, b),
        text_le(b, c),
    ensures
        text_le(a, c),
    decreases a.len(),
{
    if a != b && b != c && a.len() > 0 && a[0] == b[0] && b[0] == c[0] {
        lemma_text_transitive(a.drop_first(), b.drop_first(), c.drop_first());
        if a.drop_first() == c.drop_first() {
            assert(a =~= seq![a[0]] + a.drop_first());
            assert(c =~= seq![c[0]] + c.drop_first());
        }
    }
}

/// Whether `a` comes before `b` or is the same text.
pub fn text_at_most(a: &str, b: &str) -> (answer: bool)
    ensures
        answer == text_le(a@, b@),
{
    let a_length: usize = a.unicode_len();
    let b_length: usize = b.unicode_len();
    let mut i: usize = 0;
    assert(a@.skip(0) =~= a@);
    assert(b@.skip(0) =~= b@);
    while i < a_length && i < b_length
        invariant
            i <= a_length,
            i <= b_length,
            a_length == a@.len(),
            b_length == b@.len(),
            text_lt(a@, b@) == text_lt(a@.skip(i as int), b@.skip(i as int)),
            forall|j: int| 0 <= j < i ==> a@[j] == b@[j],
        decreases a_length - i,
    {
        let left: char = a.get_char(i);
        let right: char = b.get_char(i);
        if left != right {
            assert(a@[i as int] != b@[i as int]);
            return left < right;
        }
        assert(a@.skip(i as int).drop_first() =~= a@.skip(i + 1));
        assert(b@.skip(i as int).drop_first() =~= b@.skip(i + 1));
        i += 1;
    }
    if a_length == b_length {
        assert(a@ =~= b@);
    }
    a_length <= b_length
}

/// Records with a rank, by which they can be sorted.
pub trait Ranked: View {
    /// Whether `a` ranks before `b` or equal to it.
    spec fn rank_le(a: Self::V, b: Self::V) -> bool;

    /// Whether this record ranks before another or equal to it.
    fn at_most(&self, other: &Self) -> (answer: bool)
        ensures
            answer == Self::rank_le(self@, other@),
    ;

    /// Any two records can be ranked.
    proof fn rank_total(a: Self::V, b: Self::V)
        ensures
            Self::rank_le(a, b) || Self::rank_le(b, a),
    ;

    /// The rank is transitive.
    proof fn rank_transitive(a: Self::V, b: Self::V, c: Self::V)
        requires
            Self::rank_le(a, b),
            Self::rank_le(b, c),
        ensures
            Self::rank_le(a, c),
    ;
}

impl Ranked for String {
    open spec fn rank_le(a: Seq<char>, b: Seq<char>) -> bool {
        text_le(a, b)
    }

    fn at_most(&self, other: &Self) -> (answer: bool) {
        text_at_most(self.as_str(), other.as_str())
    }

    proof fn rank_total(a: Seq<char>, b: Seq<char>) {
        lemma_text_total(a, b);
    }

    proof fn rank_transitive(a: Seq<char>, b: Seq<char>, c: Seq<char>) {
        lemma_text_transitive(a, b, c);
    }
}

/// Whether the records are in order of rank.
pub open spec fn in_order<T: Ranked>(s: Seq<T::V>) -> bool {
    forall|i: int, j: int| 0 <= i <= j < s.len() ==> T::rank_le(#[trigger] s[i], #[trigger] s[j])
}

/// An ordered sequence with one more record, behind those of the same rank.
pub open spec fn inserted<T: Ranked>(s: Seq<T::V>, x: T::V) -> Seq<T::V>
    decreases s.len(),
{
    if s.len() == 0 || T::rank_le(s.last(), x) {
        s.push(x)
    } else {
        inserted::<T>(s.drop_last(), x).push(s.last())
    }
}

/// The records in order of rank; those of the same rank stay as they were.
pub open spec fn ranked<T: Ranked>(s: Seq<T::V>) -> Seq<T::V>
    decreases s.len(),
{
    if s.len() == 0 {
        s
    } else {
        inserted::<T>(ranked::<T>(s.drop_last()), s.last())
    }
}

proof fn lemma_inserted_at<T: Ranked>(s: Seq<T::V>, x: T::V, p: int)
    requires
        0 <= p <= s.len(),
        p > 0 ==> T::rank_le(s[p - 1], x),
        forall|k: int| p <= k < s.len() ==> !T::rank_le(#[trigger] s[k], x),
    ensures
        inserted::<T>(s, x) == s.insert(p, x),
    decreases s.len(),
{
    if p == s.len() {
        assert(s.insert(p, x) =~= s.push(x));
    } else {
        lemma_inserted_at::<T>(s.drop_last(), x, p);
        assert(s.drop_last().insert(p, x).push(s.last()) =~= s.insert(p, x));
    }
}

proof fn lemma_inserted<T: Ranked>(s: Seq<T::V>, x: T::V)
    requires
        in_order::<T>(s),
    ensures
        in_order::<T>(inserted::<T>(s, x)),
        inserted::<T>(s, x).to_multiset() == s.to_multiset().insert(x),
        inserted::<T>(s, x).len() == s.len() + 1,
        forall|i: int|
            0 <= i < inserted::<T>(s, x).len() ==> s.contains(#[trigger] inserted::<T>(s, x)[i])
                || inserted::<T>(s, x)[i] == x,
    decreases s.len(),
{
    let t = inserted::<T>(s, x);
    if s.len() == 0 || T::rank_le(s.last(), x) {
        to_multiset_build(s, x);
        assert forall|i: int, j: int| 0 <= i <= j < t.len() implies T::rank_le(
            #[trigger] t[i],
            #[trigger] t[j],
        ) by {
            if j == s.len() {
                T::rank_total(x, x);
                if i < s.len() {
                    assert(T::rank_le(s[i], s[s.len() - 1]));
                    T::rank_transitive(s[i], s.last(), x);
                }
            }
        }
    } else {
        let rest = s.drop_last();
        let u = inserted::<T>(rest, x);
        lemma_inserted::<T>(rest, x);
        to_multiset_build(u, s.last());
        to_multiset_build(rest, s.last());
        assert(rest.push(s.last()) =~= s);
        assert(t.to_multiset() =~= s.to_multiset().insert(x));
        T::rank_total(s.last(), x);
        assert forall|i: int, j: int| 0 <= i <= j < t.len() implies T::rank_le(
            #[trigger] t[i],
            #[trigger] t[j],
        ) by {
            if j == u.len() {
                T::rank_total(s.last(), s.last());
                if i < u.len() && u[i] != x {
                    assert(rest.contains(u[i]));
                    let k = choose|k: int| 0 <= k < rest.len() && rest[k] == u[i];
                    assert(T::rank_le(s[k], s[s.len() - 1]));
                }
            } else {
                assert(T::rank_le(u[i], u[j]));
            }
        }
        assert forall|i: int| 0 <= i < t.len() implies s.contains(#[trigger] t[i]) || t[i] == x by {
            if i < u.len() {
                if u[i] != x {
                    assert(rest.contains(u[i]));
                    let k = choose|k: int| 0 <= k < rest.len() && rest[k] == u[i];
                    assert(s[k] == t[i]);
                }
            } else {
                assert(s[s.len() - 1] == t[i]);
            }
        }
    }
}

/// Sorting puts the records in order and neither loses nor adds one.
pub proof fn lemma_ranked<T: Ranked>(s: Seq<T::V>)
    ensures
        in_order::<T>(ranked::<T>(s)),
        ranked::<T>(s).to_multiset() == s.to_multiset(),
        ranked::<T>(s).len() == s.len(),
    decreases s.len(),
{
    if s.len() > 0 {
        lemma_ranked::<T>(s.drop_last());
        lemma_inserted::<T>(ranked::<T>(s.drop_last()), s.last());
        to_multiset_build(s.drop_last(), s.last());
        assert(s.drop_last().push(s.last()) =~= s);
    }
}

/// Sorts records by rank.
pub fn sort<T: Ranked>(records: Vec<T>) -> (sorted: Vec<T>)
    ensures
        views(sorted@) == ranked::<T>(views(records@)),
{
    let ghost models = views(records@);
    let mut sorted: Vec<T> = Vec::new();
    let mut rest: Vec<T> = reversed(records);
    assert(views(sorted@) =~= ranked::<T>(models.subrange(0, 0)));
    let ghost mut done: int = 0;
    while rest.len() > 0
        invariant
            0 <= done <= models.len(),
            rest.len() + done == models.len(),
            forall|j: int|
                0 <= j < rest.len() ==> (#[trigger] rest@[j])@ == models[models.len() - 1 - j],
            views(sorted@) == ranked::<T>(models.subrange(0, done)),
        decreases rest.len(),
    {
        let ghost before = sorted@;
        if let Some(record) = rest.pop() {
            assert(record@ == models[done]);
            let mut place: usize = sorted.len();
            while place > 0 && !sorted[place - 1].at_most(&record)
                invariant
                    place <= sorted.len(),
                    sorted@ == before,
                    forall|k: int|
                        place <= k < sorted.len() ==> !T::rank_le(
                            #[trigger] views(before)[k],
                            record@,
                        ),
                decreases place,
            {
                assert(views(before)[place - 1] == before[place - 1]@);
                place -= 1;
            }
            sorted.insert(place, record);
            proof {
                if place > 0 {
                    assert(views(before)[place - 1] == before[place - 1]@);
                }
                lemma_inserted_at::<T>(views(before), record@, place as int);
                assert(views(sorted@) =~= views(before).insert(place as int, record@));
                assert(models.subrange(0, done + 1).drop_last() =~= models.subrange(0, done));
                done = done + 1;
            }
        }
    }
    assert(models.subrange(0, done) =~= models);
    sorted
}

/// The same records, last first.
pub fn reversed<T: View>(records: Vec<T>) -> (backwards: Vec<T>)
    ensures
        backwards.len() == records.len(),
        forall|j: int|
            0 <= j < backwards.len() ==> (#[trigger] backwards@[j])@ == records@[records.len() - 1
                - j]@,
{
    let ghost all = records@;
    let mut left: Vec<T> = records;
    let mut backwards: Vec<T> = Vec::new();
    while left.len() > 0
        invariant
            left.len() + backwards.len() == all.len(),
            left@ == all.subrange(0, left.len() as int),
            forall|j: int|
                0 <= j < backwards.len() ==> (#[trigger] backwards@[j])@ == all[all.len() - 1
                    - j]@,
        decreases left.len(),
    {
        if let Some(record) = left.pop() {
            assert(record == all[all.len() - 1 - backwards.len()]);
            backwards.push(record);
        }
    }
    backwards
}

} // verus!
