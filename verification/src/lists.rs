//! Searching sequences.
use vstd::prelude::*;

verus! {

/// The first element with the property, if there is one.
pub open spec fn find<T>(s: Seq<T>, p: spec_fn(T) -> bool) -> Option<T>
    decreases s.len(),
{
    if s.len() == 0 {
        None
    } else if p(s[0]) {
        Some(s[0])
    } else {
        find(s.drop_first(), p)
    }
}

/// Some element has the property.
pub open spec fn any<T>(s: Seq<T>, p: spec_fn(T) -> bool) -> bool {
    exists|i: int| 0 <= i < s.len() && p(#[trigger] s[i])
}

/// What a search from position `i` on finds, one step unfolded.
pub(crate) proof fn find_step<T>(s: Seq<T>, p: spec_fn(T) -> bool, i: int)
    requires
        0 <= i <= s.len(),
    ensures
        i == s.len() ==> find(s.skip(i), p) is None,
        i < s.len() && p(s[i]) ==> find(s.skip(i), p) == Some(s[i]),
        i < s.len() && !p(s[i]) ==> find(s.skip(i), p) == find(s.skip(i + 1), p),
{
    if i < s.len() {
        assert(s.skip(i)[0] == s[i]);
        assert(s.skip(i).drop_first() =~= s.skip(i + 1));
    }
}

/// A search from the beginning is a search from position zero.
pub(crate) proof fn find_start<T>(s: Seq<T>, p: spec_fn(T) -> bool)
    ensures
        find(s.skip(0), p) == find(s, p),
{
    assert(s.skip(0) =~= s);
}

/// What a search finds is in the sequence and has the property; it finds
/// nothing only where nothing has it.
pub proof fn find_is_exact<T>(s: Seq<T>, p: spec_fn(T) -> bool)
    ensures
        find(s, p) matches Some(x) ==> p(x) && s.contains(x),
        find(s, p) is None <==> !any(s, p),
    decreases s.len(),
{
    if s.len() > 0 {
        if p(s[0]) {
            assert(any(s, p));
        } else {
            let rest = s.drop_first();
            find_is_exact(rest, p);
            if any(rest, p) {
                let i = choose|i: int| 0 <= i < rest.len() && p(#[trigger] rest[i]);
                assert(p(s[i + 1]));
            }
            if any(s, p) {
                let i = choose|i: int| 0 <= i < s.len() && p(#[trigger] s[i]);
                assert(p(rest[i - 1]));
            }
            if let Some(x) = find(s, p) {
                let i = choose|i: int| 0 <= i < rest.len() && rest[i] == x;
                assert(s[i + 1] == x);
            }
        }
    }
}

/// A search finds the first element with the property: those before it do not
/// have it.
pub proof fn a_search_finds_the_first<T>(s: Seq<T>, p: spec_fn(T) -> bool) -> (at: int)
    ensures
        find(s, p) is Some ==> 0 <= at < s.len() && find(s, p) == Some(s[at]) && p(s[at]) && (
        forall|j: int| 0 <= j < at ==> !p(#[trigger] s[j])),
        find(s, p) is None ==> forall|j: int| 0 <= j < s.len() ==> !p(#[trigger] s[j]),
    decreases s.len(),
{
    if s.len() == 0 || p(s[0]) {
        0
    } else {
        let rest = s.drop_first();
        let at = a_search_finds_the_first(rest, p);
        assert forall|j: int| 0 < j < s.len() implies s[j] == #[trigger] rest[j - 1] by {}
        assert forall|j: int| 0 <= j < s.len() && (find(s, p) is None || j < at + 1) implies !p(
            #[trigger] s[j],
        ) by {
            if j > 0 {
                assert(s[j] == rest[j - 1]);
            }
        }
        at + 1
    }
}

/// The places of the elements with a property, from the front to the back.
pub open spec fn places_of<T>(s: Seq<T>, p: spec_fn(T) -> bool, at: Seq<int>) -> bool {
    &&& forall|k: int| 0 <= k < at.len() ==> 0 <= #[trigger] at[k] < s.len() && p(s[at[k]])
    &&& forall|k: int, l: int| 0 <= k < l < at.len() ==> #[trigger] at[k] < #[trigger] at[l]
    &&& forall|i: int| 0 <= i < s.len() && p(#[trigger] s[i]) ==> at.contains(i)
}

/// Every element with the property, each once and in its order, and nothing
/// else; of each, what is taken of it.
pub open spec fn selects<A, B>(
    s: Seq<A>,
    p: spec_fn(A) -> bool,
    taken: spec_fn(A) -> B,
    r: Seq<B>,
) -> bool {
    exists|at: Seq<int>| #[trigger]
        places_of(s, p, at) && r.len() == at.len() && (forall|k: int|
            0 <= k < r.len() ==> #[trigger] r[k] == taken(s[at[k]]))
}

/// Going through a sequence front to back selects what is kept.
pub proof fn filtering_selects<A, B>(
    s: Seq<A>,
    f: spec_fn(A) -> Option<B>,
    p: spec_fn(A) -> bool,
    taken: spec_fn(A) -> B,
)
    requires
        forall|x: A| #[trigger] f(x) == if p(x) {
            Some(taken(x))
        } else {
            None
        },
    ensures
        selects(s, p, taken, s.filter_map(f)),
    decreases s.len(),
{
    if s.len() == 0 {
        assert(places_of(s, p, Seq::<int>::empty()));
    } else {
        let rest = s.drop_last();
        filtering_selects(rest, f, p, taken);
        s.lemma_filter_map_take_succ(f, s.len() - 1);
        assert(s.take(s.len() as int) =~= s);
        assert(s.take(s.len() - 1) =~= rest);
        let r = rest.filter_map(f);
        let at = choose|at: Seq<int>| #[trigger]
            places_of(rest, p, at) && r.len() == at.len() && (forall|k: int|
                0 <= k < r.len() ==> #[trigger] r[k] == taken(rest[at[k]]));
        let all = if p(s.last()) {
            at.push(s.len() - 1)
        } else {
            at
        };
        assert forall|k: int| 0 <= k < all.len() implies 0 <= #[trigger] all[k] < s.len() && p(
            s[all[k]],
        ) by {
            if k < at.len() {
                assert(all[k] == at[k] && rest[at[k]] == s[at[k]]);
            }
        }
        assert forall|i: int| 0 <= i < s.len() && p(#[trigger] s[i]) implies all.contains(i) by {
            if i < s.len() - 1 {
                assert(rest[i] == s[i]);
                let k = choose|k: int| 0 <= k < at.len() && at[k] == i;
                assert(all[k] == i);
            } else {
                assert(all[at.len() as int] == i);
            }
        }
        assert(places_of(s, p, all));
        let w = s.filter_map(f);
        assert forall|k: int| 0 <= k < w.len() implies #[trigger] w[k] == taken(s[all[k]]) by {
            if k < at.len() {
                assert(w[k] == r[k] && all[k] == at[k]);
                assert(rest[at[k]] == s[at[k]]);
            }
        }
    }
}

} // verus!
