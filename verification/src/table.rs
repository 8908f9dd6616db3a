//! Association tables keyed by text, and configuration lookups.
use vstd::prelude::*;
use crate::text::{opt_view, same};

verus! {

/// A table from text keys to values; no key occurs twice.
pub struct Table<T> {
    entries: Vec<(String, T)>,
}

/// Static configuration of an interface.
pub type Config = Table<String>;

pub open spec fn distinct_keys<T>(p: Seq<(Seq<char>, T)>) -> bool {
    forall|i: int, j: int| 0 <= i < j < p.len() ==> (#[trigger] p[i]).0 != (#[trigger] p[j]).0
}

/// The mapping that a list of pairs stands for.
pub open spec fn map_of<T>(p: Seq<(Seq<char>, T)>) -> Map<Seq<char>, T>
    decreases p.len(),
{
    if p.len() == 0 {
        Map::<Seq<char>, T>::empty()
    } else {
        map_of(p.drop_last()).insert(p.last().0, p.last().1)
    }
}

/// The value under a key, where there is one.
pub open spec fn lookup<T>(m: Map<Seq<char>, T>, key: Seq<char>) -> Option<T> {
    if m.contains_key(key) {
        Some(m[key])
    } else {
        None
    }
}

/// The text under a key of a configuration, where there is one.
pub open spec fn setting(m: Map<Seq<char>, String>, key: Seq<char>) -> Option<Seq<char>> {
    opt_view(lookup(m, key))
}

/// The value given by the caller if there is one, else that of the configuration.
pub open spec fn resolved(
    dynamic: Option<Seq<char>>,
    m: Map<Seq<char>, String>,
    key: Seq<char>,
) -> Option<Seq<char>> {
    match dynamic {
        Some(v) => Some(v),
        None => setting(m, key),
    }
}

pub proof fn lemma_map_of_keys<T>(p: Seq<(Seq<char>, T)>)
    ensures
        forall|k: Seq<char>| #[trigger]
            map_of(p).contains_key(k) <==> exists|i: int| 0 <= i < p.len() && (#[trigger] p[i]).0 == k,
        distinct_keys(p) ==> forall|i: int|
            0 <= i < p.len() ==> map_of(p)[(#[trigger] p[i]).0] == p[i].1,
    decreases p.len(),
{
    if p.len() > 0 {
        let q = p.drop_last();
        lemma_map_of_keys(q);
        assert forall|k: Seq<char>| #[trigger] map_of(p).contains_key(k) implies exists|i: int|
            0 <= i < p.len() && (#[trigger] p[i]).0 == k by {
            if k != p.last().0 {
                assert(map_of(q).contains_key(k));
                let i = choose|i: int| 0 <= i < q.len() && (#[trigger] q[i]).0 == k;
                assert(p[i].0 == k);
            } else {
                assert(p[p.len() - 1].0 == k);
            }
        }
        assert forall|k: Seq<char>| (exists|i: int|
            0 <= i < p.len() && (#[trigger] p[i]).0 == k) implies #[trigger] map_of(
            p,
        ).contains_key(k) by {
            let i = choose|i: int| 0 <= i < p.len() && (#[trigger] p[i]).0 == k;
            if i < q.len() {
                assert(q[i].0 == k);
                assert(map_of(q).contains_key(k));
            }
        }
        if distinct_keys(p) {
            assert(distinct_keys(q)) by {
                assert forall|i: int, j: int| 0 <= i < j < q.len() implies (#[trigger] q[i]).0 != (
                #[trigger] q[j]).0 by {
                    assert(p[i].0 != p[j].0);
                }
            }
            assert forall|i: int| 0 <= i < p.len() implies map_of(p)[(#[trigger] p[i]).0]
                == p[i].1 by {
                if i < q.len() {
                    assert(q[i] == p[i]);
                    assert(p[i].0 != p[p.len() - 1].0);
                }
            }
        }
    }
}

pub open spec fn pairs_of<T>(e: Seq<(String, T)>) -> Seq<(Seq<char>, T)> {
    e.map_values(|x: (String, T)| (x.0@, x.1))
}

proof fn lemma_update_value<T>(p: Seq<(Seq<char>, T)>, i: int, v: T)
    requires
        0 <= i < p.len(),
        distinct_keys(p),
    ensures
        distinct_keys(p.update(i, (p[i].0, v))),
        map_of(p.update(i, (p[i].0, v))) =~= map_of(p).insert(p[i].0, v),
{
    let q = p.update(i, (p[i].0, v));
    assert forall|a: int, b: int| 0 <= a < b < q.len() implies (#[trigger] q[a]).0 != (
    #[trigger] q[b]).0 by {
        assert(p[a].0 != p[b].0);
    }
    lemma_map_of_keys(p);
    lemma_map_of_keys(q);
    assert forall|k: Seq<char>| map_of(q).contains_key(k) <==> map_of(p).contains_key(k) by {
        if map_of(q).contains_key(k) {
            let j = choose|j: int| 0 <= j < q.len() && (#[trigger] q[j]).0 == k;
            assert(p[j].0 == k);
        }
        if map_of(p).contains_key(k) {
            let j = choose|j: int| 0 <= j < p.len() && (#[trigger] p[j]).0 == k;
            assert(q[j].0 == k);
        }
    }
    assert(map_of(p).contains_key(p[i].0));
    assert forall|k: Seq<char>| map_of(q).contains_key(k) implies map_of(q)[k] == map_of(p).insert(
        p[i].0,
        v,
    )[k] by {
        let j = choose|j: int| 0 <= j < q.len() && (#[trigger] q[j]).0 == k;
        assert(p[j].0 == k);
        assert(q[i].0 == p[i].0);
        if j != i {
            assert(q[j] == p[j]);
            if i < j {
                assert(p[i].0 != p[j].0);
            } else {
                assert(p[j].0 != p[i].0);
            }
        }
    }
}

proof fn lemma_remove_entry<T>(p: Seq<(Seq<char>, T)>, i: int)
    requires
        0 <= i < p.len(),
        distinct_keys(p),
    ensures
        distinct_keys(p.remove(i)),
        map_of(p.remove(i)) =~= map_of(p).remove(p[i].0),
{
    let q = p.remove(i);
    assert forall|a: int, b: int| 0 <= a < b < q.len() implies (#[trigger] q[a]).0 != (
    #[trigger] q[b]).0 by {
        let a2 = if a < i { a } else { a + 1 };
        let b2 = if b < i { b } else { b + 1 };
        assert(q[a] == p[a2] && q[b] == p[b2]);
        assert(p[a2].0 != p[b2].0);
    }
    lemma_map_of_keys(p);
    lemma_map_of_keys(q);
    assert forall|k: Seq<char>|
        map_of(q).contains_key(k) <==> map_of(p).remove(p[i].0).contains_key(k) by {
        if map_of(q).contains_key(k) {
            let j = choose|j: int| 0 <= j < q.len() && (#[trigger] q[j]).0 == k;
            let j2 = if j < i { j } else { j + 1 };
            assert(p[j2] == q[j]);
            if j2 < i {
                assert(p[j2].0 != p[i].0);
            } else {
                assert(p[i].0 != p[j2].0);
            }
        }
        if map_of(p).remove(p[i].0).contains_key(k) {
            let j = choose|j: int| 0 <= j < p.len() && (#[trigger] p[j]).0 == k;
            assert(j != i);
            let j2 = if j < i { j } else { j - 1 };
            assert(q[j2] == p[j]);
        }
    }
    assert forall|k: Seq<char>| map_of(q).contains_key(k) implies map_of(q)[k] == map_of(p).remove(
        p[i].0,
    )[k] by {
        let j = choose|j: int| 0 <= j < q.len() && (#[trigger] q[j]).0 == k;
        let j2 = if j < i { j } else { j + 1 };
        assert(p[j2] == q[j]);
        if j2 < i {
            assert(p[j2].0 != p[i].0);
        } else {
            assert(p[i].0 != p[j2].0);
        }
    }
}

impl<T> Table<T> {
    #[verifier::type_invariant]
    pub closed spec fn keys_distinct(&self) -> bool {
        distinct_keys(self.pairs())
    }

    /// The entries in the order in which their keys came in.
    pub closed spec fn pairs(&self) -> Seq<(Seq<char>, T)> {
        pairs_of(self.entries@)
    }

    pub open spec fn view(&self) -> Map<Seq<char>, T> {
        map_of(self.pairs())
    }

    pub fn new() -> (r: Table<T>)
        ensures
            r@ == Map::<Seq<char>, T>::empty(),
            r.pairs().len() == 0,
    {
        let entries: Vec<(String, T)> = Vec::new();
        let r = Table { entries };
        r
    }

    pub fn len(&self) -> (n: usize)
        ensures
            n == self.pairs().len(),
            distinct_keys(self.pairs()),
    {
        proof {
            use_type_invariant(self);
        }
        self.entries.len()
    }

    /// The entry at a place.
    pub fn at(&self, i: usize) -> (r: (&String, &T))
        requires
            i < self.pairs().len(),
        ensures
            r.0@ == self.pairs()[i as int].0,
            *r.1 == self.pairs()[i as int].1,
    {
        let e = &self.entries[i];
        (&e.0, &e.1)
    }

    fn position(&self, key: &str) -> (r: Option<usize>)
        ensures
            match r {
                Some(i) => i < self.entries@.len() && self.pairs()[i as int].0 == key@
                    && self@.contains_key(key@) && self@[key@] == self.pairs()[i as int].1,
                None => !self@.contains_key(key@),
            },
    {
        proof {
            use_type_invariant(self);
            lemma_map_of_keys(self.pairs());
        }
        let mut i: usize = 0;
        while i < self.entries.len()
            invariant
                i <= self.entries@.len(),
                forall|j: int| 0 <= j < i ==> (#[trigger] self.pairs()[j]).0 != key@,
            decreases self.entries@.len() - i,
        {
            assert(self.pairs()[i as int] == (self.entries@[i as int].0@, self.entries@[i as int].1));
            if same(self.entries[i].0.as_str(), key) {
                proof {
                    use_type_invariant(self);
                    lemma_map_of_keys(self.pairs());
                }
                return Some(i);
            }
            i = i + 1;
        }
        None
    }

    pub fn contains(&self, key: &str) -> (r: bool)
        ensures
            r == self@.contains_key(key@),
    {
        match self.position(key) {
            Some(_) => true,
            None => false,
        }
    }

    pub fn get(&self, key: &str) -> (r: Option<&T>)
        ensures
            match r {
                Some(v) => self@.contains_key(key@) && *v == self@[key@],
                None => !self@.contains_key(key@),
            },
    {
        match self.position(key) {
            Some(i) => Some(&self.entries[i].1),
            None => None,
        }
    }

    /// Puts a value under a key, in the place of an earlier one.
    pub fn insert(&mut self, key: String, value: T)
        ensures
            final(self)@ == old(self)@.insert(key@, value),
            !old(self)@.contains_key(key@) ==> final(self).pairs() == old(self).pairs().push(
                (key@, value),
            ),
    {
        proof {
            use_type_invariant(&*self);
            lemma_map_of_keys(self.pairs());
        }
        let ghost before = self.pairs();
        match self.position(&key) {
            Some(i) => {
                let mut entries: Vec<(String, T)> = Vec::new();
                std::mem::swap(&mut entries, &mut self.entries);
                entries.set(i, (key, value));
                proof {
                    lemma_update_value(before, i as int, value);
                }
                assert(pairs_of(entries@) =~= before.update(i as int, (before[i as int].0, value)));
                self.entries = entries;
            },
            None => {
                let mut entries: Vec<(String, T)> = Vec::new();
                std::mem::swap(&mut entries, &mut self.entries);
                entries.push((key, value));
                let ghost after = pairs_of(entries@);
                assert(after =~= before.push((key@, value)));
                assert(before.push((key@, value)).drop_last() == before);
                assert forall|a: int, b: int| 0 <= a < b < after.len() implies (
                #[trigger] after[a]).0 != (#[trigger] after[b]).0 by {
                    assert(after[a] == before[a]);
                    if b < before.len() {
                        assert(after[b] == before[b]);
                    }
                }
                self.entries = entries;
            },
        }
    }

    /// Takes the value under a key out of the table.
    pub fn remove(&mut self, key: &str) -> (r: Option<T>)
        ensures
            final(self)@ == old(self)@.remove(key@),
            r == lookup(old(self)@, key@),
    {
        proof {
            use_type_invariant(&*self);
        }
        let ghost before = self.pairs();
        match self.position(key) {
            Some(i) => {
                let mut entries: Vec<(String, T)> = Vec::new();
                std::mem::swap(&mut entries, &mut self.entries);
                let e = entries.remove(i);
                proof {
                    lemma_remove_entry(before, i as int);
                }
                assert(pairs_of(entries@) =~= before.remove(i as int));
                self.entries = entries;
                Some(e.1)
            },
            None => {
                assert(self@.remove(key@) =~= self@);
                None
            },
        }
    }
}

/// A value that belongs to a workload.
pub struct Owned<T> {
    pub workload_id: String,
    pub data: T,
}

/// What a plugin keeps for each component, by the component's id.
pub type Tracker<T> = Table<Owned<T>>;

/// The entries of the other workloads, in order.
pub open spec fn kept_of<T>(p: Seq<(Seq<char>, Owned<T>)>, workload: Seq<char>) -> Seq<
    (Seq<char>, Owned<T>),
>
    decreases p.len(),
{
    if p.len() == 0 {
        p
    } else if p.last().1.workload_id@ == workload {
        kept_of(p.drop_last(), workload)
    } else {
        kept_of(p.drop_last(), workload).push(p.last())
    }
}

/// The data of the entries of a workload, in order.
pub open spec fn data_of<T>(p: Seq<(Seq<char>, Owned<T>)>, workload: Seq<char>) -> Seq<T>
    decreases p.len(),
{
    if p.len() == 0 {
        Seq::<T>::empty()
    } else if p.last().1.workload_id@ == workload {
        data_of(p.drop_last(), workload).push(p.last().1.data)
    } else {
        data_of(p.drop_last(), workload)
    }
}

/// The part of a table that belongs to other workloads.
pub open spec fn outside_workload<T>(m: Map<Seq<char>, Owned<T>>, workload: Seq<char>) -> Map<
    Seq<char>,
    Owned<T>,
> {
    m.remove_keys(m.dom().filter(|k: Seq<char>| m[k].workload_id@ == workload))
}

/// The tables differ at most in what stands under `key`, and `after` holds something there.
pub open spec fn put_at<T>(before: Map<Seq<char>, T>, after: Map<Seq<char>, T>, key: Seq<char>) -> bool {
    after.contains_key(key) && after.remove(key) == before.remove(key)
}

pub proof fn lemma_put<T>(before: Map<Seq<char>, T>, key: Seq<char>, value: T)
    ensures
        put_at(before, before.insert(key, value), key),
        put_at(before, before.remove(key).insert(key, value), key),
{
    assert(before.insert(key, value).remove(key) =~= before.remove(key));
    assert(before.remove(key).insert(key, value).remove(key) =~= before.remove(key));
}

proof fn lemma_kept<T>(p: Seq<(Seq<char>, Owned<T>)>, workload: Seq<char>)
    requires
        distinct_keys(p),
    ensures
        map_of(kept_of(p, workload)) =~= outside_workload(map_of(p), workload),
    decreases p.len(),
{
    if p.len() > 0 {
        let q = p.drop_last();
        assert(distinct_keys(q)) by {
            assert forall|i: int, j: int| 0 <= i < j < q.len() implies (#[trigger] q[i]).0 != (
            #[trigger] q[j]).0 by {
                assert(p[i].0 != p[j].0);
            }
        }
        lemma_kept(q, workload);
        lemma_map_of_keys(q);
        let e = p.last();
        if map_of(q).contains_key(e.0) {
            let i = choose|i: int| 0 <= i < q.len() && (#[trigger] q[i]).0 == e.0;
            assert(p[i].0 != p[p.len() - 1].0);
        }
        let k = kept_of(q, workload);
        assert(k.push(e).drop_last() == k);
    }
}

impl<T> Table<Owned<T>> {
    /// Takes everything that belongs to a workload out of the table.
    pub fn remove_workload(&mut self, workload: &str) -> (r: Vec<T>)
        ensures
            final(self)@ == outside_workload(old(self)@, workload@),
            r@ == data_of(old(self).pairs(), workload@),
    {
        proof {
            use_type_invariant(&*self);
        }
        let ghost all = self.pairs();
        let mut entries: Vec<(String, Owned<T>)> = Vec::new();
        std::mem::swap(&mut entries, &mut self.entries);
        let ghost orig = entries@;
        let mut kept: Table<Owned<T>> = Table::new();
        let mut out: Vec<T> = Vec::new();
        let n: usize = entries.len();
        let mut i: usize = 0;
        assert(all.take(0) =~= Seq::empty());
        assert(orig.skip(0) == orig);
        assert(kept.pairs() =~= all.take(0));
        while i < n
            invariant
                i <= n,
                n == orig.len(),
                all == pairs_of(orig),
                distinct_keys(all),
                entries@ == orig.skip(i as int),
                kept.pairs() == kept_of(all.take(i as int), workload@),
                out@ == data_of(all.take(i as int), workload@),
            decreases n - i,
        {
            let e = entries.remove(0);
            assert(entries@ =~= orig.skip(i + 1));
            assert(all.take(i + 1).drop_last() == all.take(i as int));
            assert(all.take(i + 1).last() == all[i as int]);
            assert(all[i as int] == (e.0@, e.1));
            if same(e.1.workload_id.as_str(), workload) {
                out.push(e.1.data);
            } else {
                proof {
                    lemma_map_of_keys(kept.pairs());
                    lemma_kept_in(all.take(i as int), workload@);
                    if kept@.contains_key(e.0@) {
                        let k = choose|k: int|
                            0 <= k < kept.pairs().len() && (#[trigger] kept.pairs()[k]).0 == e.0@;
                        let j = choose|j: int|
                            0 <= j < i && all.take(i as int)[j] == kept.pairs()[k];
                        assert(all[j].0 != all[i as int].0);
                    }
                }
                kept.insert(e.0, e.1);
            }
            i = i + 1;
        }
        proof {
            assert(all.take(n as int) == all);
            lemma_kept(all, workload@);
        }
        std::mem::swap(self, &mut kept);
        out
    }
}

proof fn lemma_kept_in<T>(p: Seq<(Seq<char>, Owned<T>)>, workload: Seq<char>)
    ensures
        forall|k: int|
            0 <= k < kept_of(p, workload).len() ==> exists|j: int|
                0 <= j < p.len() && p[j] == #[trigger] kept_of(p, workload)[k],
    decreases p.len(),
{
    if p.len() > 0 {
        let q = p.drop_last();
        lemma_kept_in(q, workload);
        assert forall|k: int| 0 <= k < kept_of(p, workload).len() implies exists|j: int|
            0 <= j < p.len() && p[j] == #[trigger] kept_of(p, workload)[k] by {
            if k < kept_of(q, workload).len() {
                assert(kept_of(q, workload)[k] == kept_of(p, workload)[k]);
                let j = choose|j: int| 0 <= j < q.len() && q[j] == kept_of(q, workload)[k];
                assert(p[j] == kept_of(p, workload)[k]);
            } else {
                assert(p[p.len() - 1] == kept_of(p, workload)[k]);
            }
        }
    }
}

/// The text under a key of a configuration.
pub fn config_get(config: &Config, key: &str) -> (r: Option<String>)
    ensures
        opt_view(r) == setting(config@, key@),
{
    match config.get(key) {
        Some(v) => Some(v.clone()),
        None => None,
    }
}

/// The value given by the caller if there is one, else that of the configuration.
pub fn resolve_field(dynamic: Option<String>, config: &Config, key: &str) -> (r: Option<String>)
    ensures
        opt_view(r) == resolved(opt_view(dynamic), config@, key@),
{
    match dynamic {
        Some(v) => Some(v),
        None => config_get(config, key),
    }
}

/// A copy of a configuration.
pub fn copy_config(config: &Config) -> (r: Config)
    ensures
        r@ == config@,
        r.pairs() == config.pairs(),
{
    let mut r: Config = Table::new();
    let mut i: usize = 0;
    assert(r.pairs() =~= config.pairs().take(0));
    while i < config.len()
        invariant
            i <= config.pairs().len(),
            distinct_keys(config.pairs()) || i == 0,
            r.pairs() == config.pairs().take(i as int),
        decreases config.pairs().len() - i,
    {
        let e = config.at(i);
        proof {
            lemma_map_of_keys(r.pairs());
            assert(config.pairs().take(i + 1) =~= config.pairs().take(i as int).push(
                config.pairs()[i as int],
            ));
            if r@.contains_key(e.0@) {
                let j = choose|j: int|
                    0 <= j < r.pairs().len() && (#[trigger] r.pairs()[j]).0 == e.0@;
                assert(config.pairs()[j].0 != config.pairs()[i as int].0);
            }
        }
        r.insert(e.0.clone(), e.1.clone());
        i = i + 1;
    }
    assert(config.pairs().take(config.pairs().len() as int) == config.pairs());
    r
}

/// One configuration with another over it: where both hold a key, the value is that of `over`.
pub fn merge_config(under: &Config, over: &Config) -> (r: Config)
    ensures
        r@ == under@.union_prefer_right(over@),
{
    let mut r: Config = copy_config(under);
    let mut i: usize = 0;
    assert(under@.union_prefer_right(map_of(over.pairs().take(0))) =~= under@);
    while i < over.len()
        invariant
            i <= over.pairs().len(),
            r@ == under@.union_prefer_right(map_of(over.pairs().take(i as int))),
        decreases over.pairs().len() - i,
    {
        let e = over.at(i);
        r.insert(e.0.clone(), e.1.clone());
        proof {
            let next = over.pairs().take(i + 1);
            assert(next.drop_last() =~= over.pairs().take(i as int));
            assert(r@ =~= under@.union_prefer_right(map_of(next)));
        }
        i = i + 1;
    }
    assert(over.pairs().take(over.pairs().len() as int) == over.pairs());
    r
}

// ---- Laws ----

/// Unbinding a workload undoes the binding of its first component: what was tracked before is
/// tracked again, and nothing else.
pub proof fn unbinding_undoes_binding<T>(
    before: Map<Seq<char>, Owned<T>>,
    after: Map<Seq<char>, Owned<T>>,
    component_id: Seq<char>,
    workload: Seq<char>,
)
    requires
        !before.contains_key(component_id),
        forall|k: Seq<char>| #[trigger]
            before.contains_key(k) ==> before[k].workload_id@ != workload,
        put_at(before, after, component_id),
        after[component_id].workload_id@ == workload,
    ensures
        outside_workload(after, workload) == before,
{
    assert(before.remove(component_id) =~= before);
    assert forall|k: Seq<char>| after.contains_key(k) && k != component_id implies #[trigger] after[k]
        == before[k] && before.contains_key(k) by {
        assert(after.remove(component_id).contains_key(k));
        assert(after.remove(component_id)[k] == after[k]);
    }
    assert forall|k: Seq<char>| #[trigger] before.contains_key(k) implies after.contains_key(k)
        && k != component_id by {
        assert(after.remove(component_id).contains_key(k));
    }
    assert(outside_workload(after, workload) =~= before);
}

/// Unbinding a workload leaves the components of other workloads as they are, and none of its own.
pub proof fn unbinding_spares_other_workloads<T>(
    m: Map<Seq<char>, Owned<T>>,
    workload: Seq<char>,
    component_id: Seq<char>,
)
    ensures
        outside_workload(m, workload).contains_key(component_id) <==> m.contains_key(component_id)
            && m[component_id].workload_id@ != workload,
        outside_workload(m, workload).contains_key(component_id) ==> outside_workload(
            m,
            workload,
        )[component_id] == m[component_id],
{
}

/// What is looked up is what is there.
pub proof fn lookups_find_what_is_there<T>(m: Map<Seq<char>, T>, key: Seq<char>)
    ensures
        lookup(m, key) is Some <==> m.contains_key(key),
        m.contains_key(key) ==> lookup(m, key) == Some(m[key]),
{
}

/// A setting is the text under its name; what the guest passes goes before it.
pub proof fn settings_yield_to_the_guest(m: Map<Seq<char>, String>, key: Seq<char>, passed: Seq<char>)
    ensures
        setting(m, key) is Some <==> m.contains_key(key),
        m.contains_key(key) ==> setting(m, key) == Some(m[key]@),
        resolved(Some(passed), m, key) == Some(passed),
        resolved(None, m, key) == setting(m, key),
{
}

/// Putting a value in leaves every other one as it is.
pub proof fn putting_leaves_the_others<T>(
    before: Map<Seq<char>, T>,
    after: Map<Seq<char>, T>,
    key: Seq<char>,
    other: Seq<char>,
)
    requires
        put_at(before, after, key),
        other != key,
    ensures
        after.contains_key(key),
        lookup(after, other) == lookup(before, other),
{
    assert(after.remove(key).contains_key(other) == before.remove(key).contains_key(other));
    if after.contains_key(other) {
        assert(after.remove(key)[other] == before.remove(key)[other]);
    }
}

/// What a workload leaves behind is the data of its own components, in order, and of no other.
pub proof fn workloads_leave_their_own_data<T>(
    p: Seq<(Seq<char>, Owned<T>)>,
    more: (Seq<char>, Owned<T>),
    workload: Seq<char>,
)
    ensures
        more.1.workload_id@ == workload ==> data_of(p.push(more), workload) == data_of(
            p,
            workload,
        ).push(more.1.data) && kept_of(p.push(more), workload) == kept_of(p, workload),
        more.1.workload_id@ != workload ==> data_of(p.push(more), workload) == data_of(p, workload)
            && kept_of(p.push(more), workload) == kept_of(p, workload).push(more),
        data_of(Seq::<(Seq<char>, Owned<T>)>::empty(), workload).len() == 0,
{
    assert(p.push(more).drop_last() =~= p);
}

/// A table is its entries: each key has the value of its last entry.
pub proof fn tables_are_their_entries<T>(p: Seq<(Seq<char>, T)>, key: Seq<char>, value: T, other: Seq<char>)
    ensures
        map_of(p.push((key, value))).contains_key(key),
        map_of(p.push((key, value)))[key] == value,
        other != key ==> lookup(map_of(p.push((key, value))), other) == lookup(map_of(p), other),
        map_of(Seq::<(Seq<char>, T)>::empty()) == Map::<Seq<char>, T>::empty(),
{
    assert(p.push((key, value)).drop_last() =~= p);
}

} // verus!
