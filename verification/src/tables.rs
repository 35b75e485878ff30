//! Maps from ids and from names, and lists of entries.
use std::collections::HashMap;
use vstd::prelude::*;
use vstd::std_specs::hash::spec_keys_iter;
use vstd::std_specs::iter::IteratorSpec;
use crate::text;

verus! {

broadcast use vstd::std_specs::hash::group_hash_axioms;

/// The map a list of entries stands for; of several entries with one key, the
/// last counts.
pub open spec fn as_map<K, V>(entries: Seq<(K, V)>) -> Map<K, V>
    decreases entries.len(),
{
    if entries.len() == 0 {
        Map::empty()
    } else {
        as_map(entries.drop_last()).insert(entries.last().0, entries.last().1)
    }
}

/// Every id is smaller than the ids after it.
pub open spec fn ascending(ids: Seq<u64>) -> bool {
    forall|i: int, j: int| 0 <= i < j < ids.len() ==> ids[i] < ids[j]
}

/// The ids of a finite set, smallest first.
pub open spec fn sorted_ids(ids: Set<u64>) -> Seq<u64> {
    choose|s: Seq<u64>| ascending(s) && s.to_set() == ids
}

proof fn ascending_last(s: Seq<u64>)
    requires
        ascending(s),
        s.len() > 0,
    ensures
        s.drop_last().to_set() =~= s.to_set().remove(s.last()),
        ascending(s.drop_last()),
        forall|x: u64| s.to_set().contains(x) ==> x <= s.last(),
{
    assert forall|x: u64| s.drop_last().to_set().contains(x) <==> s.to_set().remove(
        s.last(),
    ).contains(x) by {
        if s.drop_last().contains(x) {
            let i = choose|i: int| 0 <= i < s.drop_last().len() && s.drop_last()[i] == x;
            assert(s[i] == x);
            assert(s.contains(x));
        }
        if s.contains(x) && x != s.last() {
            let i = choose|i: int| 0 <= i < s.len() && s[i] == x;
            assert(s.drop_last()[i] == x);
            assert(s.drop_last().contains(x));
        }
    }
}

/// An ascending list is determined by the ids in it.
pub proof fn ascending_is_unique(a: Seq<u64>, b: Seq<u64>)
    requires
        ascending(a),
        ascending(b),
        a.to_set() == b.to_set(),
    ensures
        a == b,
    decreases a.len(),
{
    if a.len() == 0 {
        if b.len() > 0 {
            assert(b.to_set().contains(b[0]));
            assert(a.to_set().contains(b[0]));
            assert(a.contains(b[0]));
        }
        assert(a =~= b);
    } else {
        assert(a.to_set().contains(a[0]));
        assert(b.contains(a[0]));
        assert(b.len() > 0);
        ascending_last(a);
        ascending_last(b);
        assert(a.contains(a.last()) && b.contains(b.last()));
        assert(a.to_set().contains(b.last()) && b.to_set().contains(a.last()));
        ascending_is_unique(a.drop_last(), b.drop_last());
        assert(a =~= a.drop_last().push(a.last()));
        assert(b =~= b.drop_last().push(b.last()));
    }
}

/// A list that is ascending and holds exactly these ids is the sorted one.
pub proof fn sorted_ids_is(s: Seq<u64>, ids: Set<u64>)
    requires
        ascending(s),
        s.to_set() == ids,
    ensures
        sorted_ids(ids) == s,
{
    let t = sorted_ids(ids);
    assert(ascending(t) && t.to_set() == ids);
    ascending_is_unique(s, t);
}

/// The map has a key exactly where some entry has it.
pub proof fn as_map_keys<K, V>(s: Seq<(K, V)>, key: K)
    ensures
        as_map(s).contains_key(key) <==> exists|i: int|
            0 <= i < s.len() && (#[trigger] s[i]).0 == key,
    decreases s.len(),
{
    if s.len() > 0 {
        let rest = s.drop_last();
        as_map_keys(rest, key);
        if exists|i: int| 0 <= i < rest.len() && (#[trigger] rest[i]).0 == key {
            let i = choose|i: int| 0 <= i < rest.len() && (#[trigger] rest[i]).0 == key;
            assert(s[i].0 == key);
        }
        if s.last().0 == key {
            assert(s[s.len() - 1].0 == key);
        }
        if exists|i: int| 0 <= i < s.len() && (#[trigger] s[i]).0 == key {
            let i = choose|i: int| 0 <= i < s.len() && (#[trigger] s[i]).0 == key;
            if i < s.len() - 1 {
                assert(rest[i].0 == key);
            }
        }
    }
}

/// The ids of a set that are below a bound, smallest first.
spec fn sorted_below(ids: Set<u64>, bound: int) -> Seq<u64>
    decreases bound,
{
    if bound <= 0 {
        Seq::empty()
    } else {
        let rest = sorted_below(ids, bound - 1);
        if bound <= u64::MAX + 1 && ids.contains((bound - 1) as u64) {
            rest.push((bound - 1) as u64)
        } else {
            rest
        }
    }
}

proof fn sorted_below_is_sorted(ids: Set<u64>, bound: int)
    requires
        0 <= bound <= u64::MAX + 1,
    ensures
        ascending(sorted_below(ids, bound)),
        forall|id: u64|
            #[trigger] sorted_below(ids, bound).contains(id) <==> ids.contains(id) && (id as int)
                < bound,
    decreases bound,
{
    if bound > 0 {
        let rest = sorted_below(ids, bound - 1);
        let all = sorted_below(ids, bound);
        let top = (bound - 1) as u64;
        sorted_below_is_sorted(ids, bound - 1);
        if ids.contains(top) {
            assert forall|i: int| 0 <= i < rest.len() implies rest[i] < top by {
                assert(rest.contains(rest[i]));
            }
            assert forall|id: u64| #[trigger]
                all.contains(id) <==> ids.contains(id) && (id as int) < bound by {
                if rest.contains(id) {
                    let i = choose|i: int| 0 <= i < rest.len() && rest[i] == id;
                    assert(all[i] == id);
                }
                if id == top {
                    assert(all[rest.len() as int] == id);
                }
                if all.contains(id) {
                    let i = choose|i: int| 0 <= i < all.len() && all[i] == id;
                    if i < rest.len() {
                        assert(rest[i] == id);
                    }
                }
            }
        }
    }
}

/// Every set of ids can be listed in ascending order.
pub proof fn sorted_ids_are_sorted(ids: Set<u64>)
    ensures
        ascending(sorted_ids(ids)),
        sorted_ids(ids).to_set() == ids,
{
    let all = sorted_below(ids, u64::MAX + 1);
    sorted_below_is_sorted(ids, u64::MAX + 1);
    assert(all.to_set() =~= ids);
    assert(ascending(all) && all.to_set() == ids);
}

/// A map keyed by ids is what its sorted entries list.
pub proof fn as_map_of_ids<V>(map: Map<u64, V>)
    ensures
        as_map(sorted_ids(map.dom()).map_values(|id: u64| (id, map[id]))) == map,
{
    let ids = sorted_ids(map.dom());
    let entries = ids.map_values(|id: u64| (id, map[id]));
    sorted_ids_are_sorted(map.dom());
    assert forall|id: u64| as_map(entries).contains_key(id) <==> map.contains_key(id) by {
        as_map_keys(entries, id);
        if as_map(entries).contains_key(id) {
            let i = choose|i: int| 0 <= i < entries.len() && (#[trigger] entries[i]).0 == id;
            assert(ids[i] == id);
            assert(ids.to_set().contains(id));
        }
        if map.contains_key(id) {
            assert(ids.to_set().contains(id));
            let i = choose|i: int| 0 <= i < ids.len() && ids[i] == id;
            assert(entries[i].0 == id);
        }
    }
    assert forall|id: u64| map.contains_key(id) implies as_map(entries)[id] == map[id] by {
        assert(ids.to_set().contains(id));
        let i = choose|i: int| 0 <= i < ids.len() && ids[i] == id;
        assert forall|j: int| i < j < entries.len() implies (#[trigger] entries[j]).0
            != entries[i].0 by {
            assert(ids[i] < ids[j]);
        }
        as_map_value(entries, i);
    }
    assert(as_map(entries) =~= map);
}

/// The map's value for a key is that of the last entry with the key.
proof fn as_map_value<K, V>(s: Seq<(K, V)>, at: int)
    requires
        0 <= at < s.len(),
        forall|j: int| at < j < s.len() ==> (#[trigger] s[j]).0 != s[at].0,
    ensures
        as_map(s).contains_key(s[at].0),
        as_map(s)[s[at].0] == s[at].1,
    decreases s.len(),
{
    if at < s.len() - 1 {
        let rest = s.drop_last();
        assert forall|j: int| at < j < rest.len() implies (#[trigger] rest[j]).0 != rest[at].0 by {
            assert(s[j].0 != s[at].0);
        }
        as_map_value(rest, at);
        assert(s[s.len() - 1].0 != s[at].0);
    }
}

/// Taking one entry out changes nothing for the other keys.
proof fn as_map_without<K, V>(s: Seq<(K, V)>, at: int)
    requires
        0 <= at < s.len(),
    ensures
        as_map(s.remove(at)).remove(s[at].0) == as_map(s).remove(s[at].0),
    decreases s.len(),
{
    let key = s[at].0;
    if at == s.len() - 1 {
        assert(s.remove(at) =~= s.drop_last());
    } else {
        as_map_without(s.drop_last(), at);
        assert(s.remove(at).drop_last() =~= s.drop_last().remove(at));
        assert(s.remove(at).last() == s.last());
        let a = as_map(s.drop_last().remove(at));
        let b = as_map(s.drop_last());
        assert forall|k: K| k != key implies (a.contains_key(k) <==> #[trigger] b.contains_key(k))
            && (a.contains_key(k) ==> a[k] == b[k]) by {
            assert(a.remove(key).contains_key(k) <==> b.remove(key).contains_key(k));
            if a.contains_key(k) {
                assert(a.remove(key)[k] == b.remove(key)[k]);
            }
        }
        let (last, value) = s.last();
        assert(as_map(s.remove(at)) == a.insert(last, value));
        assert(as_map(s) == b.insert(last, value));
        assert forall|k: K|
            a.insert(last, value).remove(key).contains_key(k) <==> #[trigger] b.insert(
                last,
                value,
            ).remove(key).contains_key(k) by {
            if k != key && k != last {
                assert(a.contains_key(k) <==> b.contains_key(k));
            }
        }
        assert forall|k: K| #[trigger]
            a.insert(last, value).remove(key).contains_key(k) implies a.insert(last, value).remove(
            key,
        )[k] == b.insert(last, value).remove(key)[k] by {
            if k != last {
                assert(b.contains_key(k));
            }
        }
    }
    assert(as_map(s.remove(at)).remove(key) =~= as_map(s).remove(key));
}

/// A map from window ids to values, whose ids can be listed in order.
#[derive(Debug)]
pub struct IdTable<V> {
    pub map: HashMap<u64, V>,
}

impl<V: DeepView> DeepView for IdTable<V> {
    type V = Map<u64, V::V>;

    open spec fn deep_view(&self) -> Map<u64, V::V> {
        self.map@.map_values(|value: V| value.deep_view())
    }
}

impl<V: DeepView> IdTable<V> {
    pub fn new() -> (r: Self)
        ensures
            r.deep_view() == Map::<u64, V::V>::empty(),
    {
        let r = IdTable { map: HashMap::new() };
        assert(r.deep_view() =~= Map::<u64, V::V>::empty());
        r
    }

    pub fn is_empty(&self) -> (r: bool)
        ensures
            r == (self.deep_view() == Map::<u64, V::V>::empty()),
    {
        let r = self.map.is_empty();
        proof {
            if r {
                assert(self.deep_view() =~= Map::<u64, V::V>::empty());
            }
            if self.deep_view() == Map::<u64, V::V>::empty() {
                assert forall|id: u64| !self.map@.contains_key(id) by {
                    assert(!self.deep_view().contains_key(id));
                }
                assert(self.map@ =~= Map::<u64, V>::empty());
            }
        }
        r
    }

    pub fn get(&self, id: u64) -> (r: Option<&V>)
        ensures
            r is Some <==> self.deep_view().contains_key(id),
            r matches Some(value) ==> value.deep_view() == self.deep_view()[id],
    {
        self.map.get(&id)
    }

    pub fn contains(&self, id: u64) -> (r: bool)
        ensures
            r == self.deep_view().contains_key(id),
    {
        self.map.contains_key(&id)
    }

    pub fn remove(&mut self, id: u64)
        ensures
            final(self).deep_view() == old(self).deep_view().remove(id),
    {
        let ghost before = self.deep_view();
        self.map.remove(&id);
        assert(self.deep_view() =~= before.remove(id));
    }

    pub fn insert(&mut self, id: u64, value: V)
        ensures
            final(self).deep_view() == old(self).deep_view().insert(id, value.deep_view()),
    {
        let ghost before = self.deep_view();
        self.map.insert(id, value);
        assert(self.deep_view() =~= before.insert(id, value.deep_view()));
    }

    /// The ids that have a value, smallest first.
    pub fn ids(&self) -> (r: Vec<u64>)
        ensures
            r@ == sorted_ids(self.deep_view().dom()),
            ascending(r@),
            forall|id: u64| r@.contains(id) <==> self.deep_view().contains_key(id),
    {
        let mut out: Vec<u64> = Vec::new();
        for id in iter: self.map.keys()
            invariant
                iter.seq().unref().to_set() == self.map@.dom(),
                ascending(out@),
                forall|x: u64| #[trigger]
                    out@.contains(x) <==> iter.seq().unref().take(iter.index()).contains(x),
        {
            let ghost seen = iter.seq().unref().take(iter.index());
            insert_id(&mut out, *id);
            assert(iter.seq().unref().take(iter.index() + 1) =~= seen.push(*id));
            assert forall|x: u64| #[trigger] out@.contains(x) <==> seen.push(*id).contains(x) by {
                one_more_id(seen, *id, x);
            }
        }
        proof {
            let all = IteratorSpec::remaining(&spec_keys_iter(&self.map)).unref();
            assert(all.take(all.len() as int) =~= all);
            assert forall|id: u64| out@.contains(id) <==> self.deep_view().contains_key(id) by {
                assert(all.to_set().contains(id) == self.map@.contains_key(id));
            }
            assert(out@.to_set() =~= self.deep_view().dom());
            sorted_ids_is(out@, self.deep_view().dom());
        }
        out
    }
}

/// What a list with one more id holds.
pub(crate) proof fn one_more_id(s: Seq<u64>, last: u64, x: u64)
    ensures
        s.push(last).contains(x) <==> s.contains(x) || x == last,
{
    if s.contains(x) {
        let i = choose|i: int| 0 <= i < s.len() && s[i] == x;
        assert(s.push(last)[i] == x);
    }
    if x == last {
        assert(s.push(last)[s.len() as int] == x);
    }
    if s.push(last).contains(x) && x != last {
        let i = choose|i: int| 0 <= i < s.push(last).len() && s.push(last)[i] == x;
        assert(s[i] == x);
    }
}

/// Put an id at its place in an ascending list, unless it is there already.
pub fn insert_id(ids: &mut Vec<u64>, id: u64)
    requires
        ascending(old(ids)@),
    ensures
        ascending(final(ids)@),
        forall|x: u64| #[trigger]
            final(ids)@.contains(x) <==> (old(ids)@.contains(x) || x == id),
{
    let ghost before = ids@;
    let mut at: usize = 0;
    while at < ids.len() && ids[at] < id
        invariant
            at <= ids@.len(),
            ids@ == before,
            forall|j: int| 0 <= j < at ==> ids@[j] < id,
        decreases ids.len() - at,
    {
        at = at + 1;
    }
    if at < ids.len() && ids[at] == id {
        assert(ids@[at as int] == id);
    } else {
        ids.insert(at, id);
        assert(ids@[at as int] == id);
        assert forall|x: u64| #[trigger] ids@.contains(x) <==> (before.contains(x) || x == id) by {
            if before.contains(x) {
                let j = choose|j: int| 0 <= j < before.len() && before[j] == x;
                if j < at {
                    assert(ids@[j] == x);
                } else {
                    assert(ids@[j + 1] == x);
                }
            }
            if ids@.contains(x) && x != id {
                let j = choose|j: int| 0 <= j < ids@.len() && ids@[j] == x;
                if j < at {
                    assert(before[j] == x);
                } else {
                    assert(before[j - 1] == x);
                }
            }
        }
    }
}

/// A map from names to values.
#[derive(Debug)]
pub struct LabelTable<V> {
    pub entries: Vec<(String, V)>,
}

impl<V: DeepView> DeepView for LabelTable<V> {
    type V = Map<Seq<char>, V::V>;

    open spec fn deep_view(&self) -> Map<Seq<char>, V::V> {
        as_map(self.entries.deep_view())
    }
}

/// The last value listed under a name.
pub fn lookup<'a, V: DeepView>(entries: &'a Vec<(String, V)>, label: &str) -> (r: Option<&'a V>)
    ensures
        r is Some <==> as_map(entries.deep_view()).contains_key(label@),
        r matches Some(value) ==> value.deep_view() == as_map(entries.deep_view())[label@],
{
    let ghost s = entries.deep_view();
    let mut i: usize = entries.len();
    while i > 0
        invariant
            i <= entries@.len(),
            s == entries.deep_view(),
            forall|j: int| i <= j < s.len() ==> (#[trigger] s[j]).0 != label@,
        decreases i,
    {
        i = i - 1;
        let entry = &entries[i];
        assert(s[i as int].0 == entry.0@);
        if text::same(entry.0.as_str(), label) {
            proof {
                as_map_value(s, i as int);
            }
            return Some(&entry.1);
        }
    }
    proof {
        as_map_keys(s, label@);
    }
    None
}

/// The last value listed under a name, without the others.
pub fn take<V: DeepView>(entries: Vec<(String, V)>, label: &str) -> (r: Option<V>)
    ensures
        r is Some <==> as_map(entries.deep_view()).contains_key(label@),
        r matches Some(value) ==> value.deep_view() == as_map(entries.deep_view())[label@],
{
    let mut left = entries;
    let ghost s = left.deep_view();
    let mut i: usize = left.len();
    while i > 0
        invariant
            i <= left@.len(),
            s == left.deep_view(),
            s == entries.deep_view(),
            forall|j: int| i <= j < s.len() ==> (#[trigger] s[j]).0 != label@,
        decreases i,
    {
        i = i - 1;
        assert(s[i as int].0 == left@[i as int].0@);
        if text::same(left[i].0.as_str(), label) {
            proof {
                as_map_value(s, i as int);
            }
            let (_, value) = left.remove(i);
            return Some(value);
        }
    }
    proof {
        as_map_keys(s, label@);
    }
    None
}

impl<V: DeepView> LabelTable<V> {
    pub fn new() -> (r: Self)
        ensures
            r.deep_view() == Map::<Seq<char>, V::V>::empty(),
    {
        let r = LabelTable { entries: Vec::new() };
        assert(r.entries.deep_view() =~= Seq::<(Seq<char>, V::V)>::empty());
        r
    }

    pub fn is_empty(&self) -> (r: bool)
        ensures
            r == (self.deep_view() == Map::<Seq<char>, V::V>::empty()),
    {
        proof {
            if self.entries@.len() > 0 {
                assert(self.deep_view().contains_key(self.entries.deep_view().last().0));
            } else {
                assert(self.entries.deep_view() =~= Seq::<(Seq<char>, V::V)>::empty());
            }
        }
        self.entries.len() == 0
    }

    pub fn get(&self, label: &str) -> (r: Option<&V>)
        ensures
            r is Some <==> self.deep_view().contains_key(label@),
            r matches Some(value) ==> value.deep_view() == self.deep_view()[label@],
    {
        lookup(&self.entries, label)
    }

    pub fn remove(&mut self, label: &str)
        ensures
            final(self).deep_view() == old(self).deep_view().remove(label@),
    {
        let ghost before = self.deep_view();
        let mut i: usize = 0;
        while i < self.entries.len()
            invariant
                i <= self.entries@.len(),
                self.deep_view().remove(label@) == before.remove(label@),
                forall|j: int| 0 <= j < i ==> (#[trigger] self.entries@[j]).0@ != label@,
            decreases self.entries.len() - i,
        {
            if text::same(self.entries[i].0.as_str(), label) {
                let ghost s = self.entries.deep_view();
                proof {
                    as_map_without(s, i as int);
                }
                self.entries.remove(i);
                assert(self.entries.deep_view() =~= s.remove(i as int));
            } else {
                i = i + 1;
            }
        }
        proof {
            let s = self.entries.deep_view();
            as_map_keys(s, label@);
            assert(forall|j: int|
                0 <= j < s.len() ==> (#[trigger] s[j]).0 == self.entries@[j].0@);
            assert(self.deep_view() =~= self.deep_view().remove(label@));
        }
    }

    pub fn insert(&mut self, label: &str, value: V)
        ensures
            final(self).deep_view() == old(self).deep_view().insert(label@, value.deep_view()),
    {
        let ghost before = self.deep_view();
        self.remove(label);
        let ghost s = self.entries.deep_view();
        self.entries.push((label.to_owned(), value));
        assert(self.entries.deep_view() =~= s.push((label@, value.deep_view())));
        assert(self.entries.deep_view().drop_last() =~= s);
        assert(before.remove(label@).insert(label@, value.deep_view()) =~= before.insert(
            label@,
            value.deep_view(),
        ));
    }
}

} // verus!
