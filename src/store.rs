//! The reference-value store: accepted digests per artifact name.

use vstd::prelude::*;

verus! {

/// An accepted measurement of an artifact, valid up to `expiration`
/// (seconds since the Unix epoch, inclusive).
#[derive(Debug, Clone)]
pub struct ReferenceValue {
    pub name: String,
    pub version: String,
    pub expiration: i64,
    pub value: Vec<String>,
}

/// Map from artifact name to its reference values. Each name appears once;
/// ingesting a name replaces all its values.
#[derive(Debug)]
pub struct ReferenceValueStore {
    entries: Vec<(String, Vec<ReferenceValue>)>,
}

/// The digests of `r` as plain strings.
pub open spec fn digests_of(r: ReferenceValue) -> Seq<Seq<char>> {
    r.value@.map_values(|s: String| s@)
}

/// `r` has not expired at time `now`.
pub open spec fn is_live(r: ReferenceValue, now: i64) -> bool {
    now <= r.expiration
}

/// The digests of the values of `vals` that are live at `now`, in order.
pub open spec fn live_digests(vals: Seq<ReferenceValue>, now: i64) -> Seq<Seq<char>>
    decreases vals.len(),
{
    if vals.len() == 0 {
        Seq::empty()
    } else {
        let last = vals[vals.len() - 1];
        live_digests(vals.drop_last(), now) + if is_live(last, now) {
            digests_of(last)
        } else {
            Seq::empty()
        }
    }
}

/// No name appears twice in `s`.
pub open spec fn names_unique(s: Seq<(String, Vec<ReferenceValue>)>) -> bool {
    forall|i: int, j: int| 0 <= i < j < s.len() ==> s[i].0@ != s[j].0@
}

/// The strings of `r` are exactly the digests in `d`, each once.
pub open spec fn digest_set(r: Seq<String>, d: Seq<Seq<char>>) -> bool {
    let v = r.map_values(|s: String| s@);
    &&& v.no_duplicates()
    &&& forall|x: Seq<char>| v.contains(x) <==> d.contains(x)
}

/// What a concatenation contains.
proof fn lemma_concat_contains(a: Seq<Seq<char>>, b: Seq<Seq<char>>, x: Seq<char>)
    ensures
        (a + b).contains(x) <==> a.contains(x) || b.contains(x),
{
    if a.contains(x) {
        let k = choose|k: int| 0 <= k < a.len() && a[k] == x;
        assert((a + b)[k] == x);
    }
    if b.contains(x) {
        let k = choose|k: int| 0 <= k < b.len() && b[k] == x;
        assert((a + b)[a.len() + k] == x);
    }
    if (a + b).contains(x) {
        let k = choose|k: int| 0 <= k < (a + b).len() && (a + b)[k] == x;
        if k < a.len() {
            assert(a[k] == x);
        } else {
            assert(b[k - a.len()] == x);
        }
    }
}

impl ReferenceValueStore {
    /// The stored entries.
    pub closed spec fn entries(&self) -> Seq<(String, Vec<ReferenceValue>)> {
        self.entries@
    }

    /// Names are unique.
    pub open spec fn wf(&self) -> bool {
        names_unique(self.entries())
    }

    /// The values stored under `name`, if any.
    pub open spec fn lookup(&self, name: Seq<char>) -> Option<Seq<ReferenceValue>> {
        if exists|i: int| 0 <= i < self.entries().len() && self.entries()[i].0@ == name {
            let i = choose|i: int| 0 <= i < self.entries().len() && self.entries()[i].0@ == name;
            Some(self.entries()[i].1@)
        } else {
            None
        }
    }

    /// `r` is the snapshot of this store at time `now`: one pair per name, in
    /// store order, holding the set of digests of the live values, each once.
    pub open spec fn is_snapshot(&self, now: i64, r: Seq<(String, Vec<String>)>) -> bool {
        &&& r.len() == self.entries().len()
        &&& forall|i: int|
            0 <= i < r.len() ==> {
                &&& (#[trigger] r[i]).0@ == self.entries()[i].0@
                &&& digest_set(r[i].1@, live_digests(self.entries()[i].1@, now))
            }
    }

    /// An empty store.
    pub fn new() -> (r: ReferenceValueStore)
        ensures
            r.wf(),
            forall|n: Seq<char>| r.lookup(n) is None,
    {
        ReferenceValueStore { entries: Vec::new() }
    }

    /// Stores `values` under `name`, replacing what was there and leaving
    /// every other name as it was.
    pub fn ingest(&mut self, name: String, values: Vec<ReferenceValue>)
        requires
            old(self).wf(),
        ensures
            final(self).wf(),
            final(self).lookup(name@) == Some(values@),
            forall|n: Seq<char>| n != name@ ==> final(self).lookup(n) == old(self).lookup(n),
    {
        let ghost old_entries = self.entries@;
        assert(old(self).entries() == old_entries);
        assert(names_unique(old_entries));
        let mut i: usize = 0;
        while i < self.entries.len()
            invariant
                self.entries@ == old_entries,
                names_unique(old_entries),
                old(self).entries() == old_entries,
                i <= old_entries.len(),
                forall|j: int| 0 <= j < i ==> old_entries[j].0@ != name@,
            decreases old_entries.len() - i,
        {
            if self.entries[i].0 == name {
                let ghost nm = name@;
                self.entries.set(i, (name, values));
                proof {
                    lemma_replace_entry(*old(self), *self, i as int);
                }
                return;
            }
            i = i + 1;
        }
        let ghost nm = name@;
        self.entries.push((name, values));
        proof {
            let ne = self.entries@;
            assert forall|a: int, b: int| 0 <= a < b < ne.len() implies ne[a].0@ != ne[b].0@ by {
                if b < old_entries.len() {
                    assert(old_entries[a].0@ != old_entries[b].0@);
                }
            }
            assert(self.entries() == ne);
            assert forall|n: Seq<char>| n != nm implies self.lookup(n) == old(self).lookup(n) by {
                if exists|k: int| 0 <= k < ne.len() && ne[k].0@ == n {
                    let k = choose|k: int| 0 <= k < ne.len() && ne[k].0@ == n;
                    assert(old_entries[k].0@ == n);
                    let k2 = choose|k: int| 0 <= k < old_entries.len() && old_entries[k].0@ == n;
                    assert(k == k2 || old_entries[k].0@ != old_entries[k2].0@);
                } else {
                    assert forall|k: int| 0 <= k < old_entries.len() implies old_entries[k].0@ != n by {
                        assert(ne[k].0@ != n);
                    }
                }
            }
            let last = old_entries.len() as int;
            assert(ne[last].0@ == nm);
            let k = choose|k: int| 0 <= k < ne.len() && ne[k].0@ == nm;
            assert(k == last || ne[k].0@ != ne[last].0@);
        }
    }

    /// The digests live at `now` of the values in `vals`, each once.
    fn live_digest_list(vals: &Vec<ReferenceValue>, now: i64) -> (r: Vec<String>)
        ensures
            digest_set(r@, live_digests(vals@, now)),
    {
        let mut r: Vec<String> = Vec::new();
        let mut i: usize = 0;
        assert(live_digests(vals@.subrange(0, 0), now) =~= Seq::<Seq<char>>::empty());
        while i < vals.len()
            invariant
                i <= vals@.len(),
                digest_set(r@, live_digests(vals@.subrange(0, i as int), now)),
            decreases vals@.len() - i,
        {
            let v = &vals[i];
            let ghost l = live_digests(vals@.subrange(0, i as int), now);
            assert(vals@.subrange(0, i + 1).drop_last() =~= vals@.subrange(0, i as int));
            assert(vals@.subrange(0, i + 1)[i as int] == *v);
            if now <= v.expiration {
                let ghost dv = digests_of(*v);
                let mut j: usize = 0;
                assert(dv.subrange(0, 0) =~= Seq::<Seq<char>>::empty());
                while j < v.value.len()
                    invariant
                        j <= v.value@.len(),
                        dv == digests_of(*v),
                        r@.map_values(|s: String| s@).no_duplicates(),
                        forall|x: Seq<char>|
                            r@.map_values(|s: String| s@).contains(x) <==> (l.contains(x)
                                || dv.subrange(0, j as int).contains(x)),
                    decreases v.value@.len() - j,
                {
                    let ghost old_r = r@.map_values(|s: String| s@);
                    let ghost d = dv[j as int];
                    assert(dv.subrange(0, j + 1) =~= dv.subrange(0, j as int).push(d));
                    assert(d == v.value@[j as int]@);
                    if !contains_name(&r, &v.value[j]) {
                        r.push(v.value[j].clone());
                        let ghost new_r = r@.map_values(|s: String| s@);
                        assert(new_r =~= old_r.push(d));
                        assert forall|a: int, b: int| 0 <= a < new_r.len() && 0 <= b < new_r.len() && a != b implies new_r[a] != new_r[b] by {
                            if a < old_r.len() && b < old_r.len() {
                                assert(old_r[a] != old_r[b]);
                            } else if a == old_r.len() {
                                assert(r@[b]@ == old_r[b]);
                            } else {
                                assert(r@[a]@ == old_r[a]);
                            }
                        }
                        assert forall|x: Seq<char>| new_r.contains(x) <==> (l.contains(x) || dv.subrange(0, j + 1).contains(x)) by {
                            lemma_concat_contains(old_r, seq![d], x);
                            lemma_concat_contains(dv.subrange(0, j as int), seq![d], x);
                            assert(old_r.push(d) =~= old_r + seq![d]);
                            assert(dv.subrange(0, j as int).push(d) =~= dv.subrange(0, j as int) + seq![d]);
                        }
                    } else {
                        proof {
                            let k = choose|k: int| 0 <= k < r@.len() && r@[k]@ == d;
                            assert(old_r[k] == d);
                            assert forall|x: Seq<char>| old_r.contains(x) <==> (l.contains(x) || dv.subrange(0, j + 1).contains(x)) by {
                                lemma_concat_contains(dv.subrange(0, j as int), seq![d], x);
                                assert(seq![d].contains(x) <==> x == d) by {
                                    if x == d {
                                        assert(seq![d][0] == d);
                                    }
                                }
                                assert(old_r.contains(x) <==> (l.contains(x) || dv.subrange(0, j as int).contains(x)));
                                if x == d {
                                    assert(old_r[k] == x);
                                }
                                assert(dv.subrange(0, j as int).push(d) =~= dv.subrange(0, j as int) + seq![d]);
                            }
                        }
                    }
                    j = j + 1;
                }
                assert(dv.subrange(0, j as int) =~= dv);
                let ghost rv = r@.map_values(|s: String| s@);
                let ghost ln = live_digests(vals@.subrange(0, i + 1), now);
                assert(ln == l + dv);
                assert forall|x: Seq<char>| rv.contains(x) <==> ln.contains(x) by {
                    lemma_concat_contains(l, dv, x);
                    assert(rv.contains(x) <==> (l.contains(x) || dv.subrange(0, j as int).contains(x)));
                }
            } else {
                assert(live_digests(vals@.subrange(0, i + 1), now) =~= l);
            }
            i = i + 1;
        }
        assert(vals@.subrange(0, i as int) =~= vals@);
        r
    }

    /// The accepted digests per name at time `now`; expired values are left out.
    pub fn snapshot(&self, now: i64) -> (r: Vec<(String, Vec<String>)>)
        ensures
            self.is_snapshot(now, r@),
    {
        let mut r: Vec<(String, Vec<String>)> = Vec::new();
        let mut i: usize = 0;
        while i < self.entries.len()
            invariant
                i <= self.entries@.len(),
                r@.len() == i,
                forall|k: int|
                    0 <= k < i ==> {
                        &&& (#[trigger] r@[k]).0@ == self.entries@[k].0@
                        &&& digest_set(r@[k].1@, live_digests(self.entries@[k].1@, now))
                    },
            decreases self.entries@.len() - i,
        {
            let name = self.entries[i].0.clone();
            let digests = Self::live_digest_list(&self.entries[i].1, now);
            r.push((name, digests));
            i = i + 1;
        }
        r
    }
}

/// The values of `vals` named `n`, in order.
pub open spec fn named(vals: Seq<ReferenceValue>, n: Seq<char>) -> Seq<ReferenceValue>
    decreases vals.len(),
{
    if vals.len() == 0 {
        Seq::empty()
    } else {
        let last = vals[vals.len() - 1];
        named(vals.drop_last(), n) + if last.name@ == n {
            seq![last]
        } else {
            Seq::empty()
        }
    }
}

/// Replacing the values of the entry at `i` keeps names unique and leaves
/// every other name's values unchanged.
proof fn lemma_replace_entry(before: ReferenceValueStore, after: ReferenceValueStore, i: int)
    requires
        before.wf(),
        0 <= i < before.entries().len(),
        after.entries().len() == before.entries().len(),
        after.entries()[i].0@ == before.entries()[i].0@,
        forall|j: int| 0 <= j < before.entries().len() && j != i ==> after.entries()[j] == before.entries()[j],
    ensures
        after.wf(),
        before.lookup(before.entries()[i].0@) == Some(before.entries()[i].1@),
        after.lookup(before.entries()[i].0@) == Some(after.entries()[i].1@),
        forall|n: Seq<char>| n != before.entries()[i].0@ ==> after.lookup(n) == before.lookup(n),
{
    let oe = before.entries();
    let ne = after.entries();
    let nm = oe[i].0@;
    assert(names_unique(oe));
    assert forall|a: int, b: int| 0 <= a < b < ne.len() implies ne[a].0@ != ne[b].0@ by {
        assert(ne[a].0@ == oe[a].0@);
        assert(ne[b].0@ == oe[b].0@);
    }
    assert forall|n: Seq<char>| n != nm implies after.lookup(n) == before.lookup(n) by {
        if exists|k: int| 0 <= k < ne.len() && ne[k].0@ == n {
            let k = choose|k: int| 0 <= k < ne.len() && ne[k].0@ == n;
            assert(oe[k].0@ == n);
            let k2 = choose|k: int| 0 <= k < oe.len() && oe[k].0@ == n;
            assert(k == k2 || oe[k].0@ != oe[k2].0@);
        } else {
            assert forall|k: int| 0 <= k < oe.len() implies oe[k].0@ != n by {
                assert(ne[k].0@ != n);
            }
        }
    }
    assert(ne[i].0@ == nm);
    let k = choose|k: int| 0 <= k < ne.len() && ne[k].0@ == nm;
    assert(k == i || ne[k].0@ != ne[i].0@);
    let k2 = choose|k: int| 0 <= k < oe.len() && oe[k].0@ == nm;
    assert(k2 == i || oe[k2].0@ != oe[i].0@);
}

/// Whether `name` is among `names`.
fn contains_name(names: &Vec<String>, name: &String) -> (r: bool)
    ensures
        r == exists|k: int| 0 <= k < names@.len() && names@[k]@ == name@,
{
    let mut i: usize = 0;
    while i < names.len()
        invariant
            i <= names@.len(),
            forall|k: int| 0 <= k < i ==> names@[k]@ != name@,
        decreases names@.len() - i,
    {
        if names[i] == *name {
            return true;
        }
        i = i + 1;
    }
    false
}

impl ReferenceValueStore {
    /// Adds `v` after the values already stored under its name.
    fn append_value(&mut self, v: ReferenceValue)
        requires
            old(self).wf(),
            old(self).lookup(v.name@) is Some,
        ensures
            final(self).wf(),
            final(self).lookup(v.name@) == Some(old(self).lookup(v.name@).unwrap().push(v)),
            forall|n: Seq<char>| n != v.name@ ==> final(self).lookup(n) == old(self).lookup(n),
    {
        let ghost old_entries = self.entries@;
        assert(old(self).entries() == old_entries);
        let mut i: usize = 0;
        while i < self.entries.len()
            invariant
                self.entries@ == old_entries,
                old(self).entries() == old_entries,
                old(self).wf(),
                old(self).lookup(v.name@) is Some,
                i <= old_entries.len(),
                forall|j: int| 0 <= j < i ==> old_entries[j].0@ != v.name@,
            decreases old_entries.len() - i,
        {
            if self.entries[i].0 == v.name {
                let (nm, mut g) = self.entries.remove(i);
                g.push(v);
                self.entries.insert(i, (nm, g));
                assert(self.entries@ =~= old_entries.update(i as int, self.entries@[i as int]));
                proof {
                    lemma_replace_entry(*old(self), *self, i as int);
                }
                return;
            }
            i = i + 1;
        }
        assert(false);
    }

    /// Stores a batch of values: every name in the batch gets exactly the
    /// batch's values of that name, in order; names absent from the batch
    /// keep what they had.
    pub fn ingest_values(&mut self, values: Vec<ReferenceValue>)
        requires
            old(self).wf(),
        ensures
            final(self).wf(),
            forall|n: Seq<char>| #[trigger] named(values@, n).len() > 0 ==> final(self).lookup(n) == Some(named(values@, n)),
            forall|n: Seq<char>| #[trigger] named(values@, n).len() == 0 ==> final(self).lookup(n) == old(self).lookup(n),
    {
        let ghost orig = values@;
        let mut values = values;
        let mut seen: Vec<String> = Vec::new();
        let ghost mut i: int = 0;
        while values.len() > 0
            invariant
                self.wf(),
                0 <= i <= orig.len(),
                values@ == orig.subrange(i, orig.len() as int),
                forall|n: Seq<char>| #[trigger] named(orig.subrange(0, i), n).len() > 0 ==> self.lookup(n) == Some(named(orig.subrange(0, i), n)),
                forall|n: Seq<char>| #[trigger] named(orig.subrange(0, i), n).len() == 0 ==> self.lookup(n) == old(self).lookup(n),
                forall|n: Seq<char>| (exists|k: int| 0 <= k < seen@.len() && seen@[k]@ == n) <==> #[trigger] named(orig.subrange(0, i), n).len() > 0,
            decreases values@.len(),
        {
            let v = values.remove(0);
            let ghost prefix = orig.subrange(0, i);
            assert(v == orig[i]);
            assert(orig.subrange(0, i + 1).drop_last() =~= prefix);
            assert(forall|n: Seq<char>| #[trigger] named(orig.subrange(0, i + 1), n) == named(prefix, n) + if v.name@ == n {
                seq![v]
            } else {
                Seq::empty()
            });
            let name = v.name.clone();
            let ghost old_seen = seen@;
            let ghost np = orig.subrange(0, i + 1);
            if contains_name(&seen, &name) {
                assert(named(prefix, name@).len() > 0);
                self.append_value(v);
            } else {
                let mut g: Vec<ReferenceValue> = Vec::new();
                g.push(v);
                assert(named(prefix, name@).len() == 0);
                assert(g@ =~= named(prefix, name@) + seq![v]);
                self.ingest(name.clone(), g);
                seen.push(name);
            }
            proof {
                assert forall|n: Seq<char>| (exists|k: int| 0 <= k < seen@.len() && seen@[k]@ == n) <==> #[trigger] named(np, n).len() > 0 by {
                    assert(named(np, n) == named(prefix, n) + if v.name@ == n {
                        seq![v]
                    } else {
                        Seq::empty()
                    });
                    if n == name@ {
                        if seen@.len() > old_seen.len() {
                            assert(seen@[old_seen.len() as int]@ == n);
                        } else {
                            assert(named(prefix, n).len() > 0);
                            let k = choose|k: int| 0 <= k < old_seen.len() && old_seen[k]@ == n;
                            assert(seen@[k]@ == n);
                        }
                    } else {
                        if exists|k: int| 0 <= k < seen@.len() && seen@[k]@ == n {
                            let k = choose|k: int| 0 <= k < seen@.len() && seen@[k]@ == n;
                            assert(k < old_seen.len());
                            assert(old_seen[k]@ == n);
                        }
                        if named(prefix, n).len() > 0 {
                            let k = choose|k: int| 0 <= k < old_seen.len() && old_seen[k]@ == n;
                            assert(seen@[k]@ == n);
                        }
                    }
                }
                i = i + 1;
                assert(values@ =~= orig.subrange(i, orig.len() as int));
            }
        }
        assert(orig.subrange(0, i) =~= orig);
    }
}

/// Reads the system clock as whole seconds from the Unix epoch: `(true, s)`
/// for a clock `s` seconds at or after it, `(false, s)` for one `s` seconds
/// before it.
///
/// Relies on std's SystemTime::now and SystemTime::duration_since, which
/// reports a clock before the epoch as an error carrying the distance, so
/// no clock reading makes it panic. Nothing is promised of the value.
#[verifier::external_body]
fn clock_since_epoch() -> (r: (bool, u64)) {
    match std::time::SystemTime::now().duration_since(std::time::UNIX_EPOCH) {
        Ok(d) => (true, d.as_secs()),
        Err(e) => (false, e.duration().as_secs()),
    }
}

/// Signed seconds since the epoch for a clock `secs` seconds after
/// (`after`) or before it, saturated to the `i64` range.
pub fn signed_seconds(after: bool, secs: u64) -> (r: i64)
    ensures
        after && secs <= i64::MAX ==> r == secs,
        after && secs > i64::MAX ==> r == i64::MAX,
        !after && secs <= i64::MAX ==> r == -secs,
        !after && secs > i64::MAX ==> r == -i64::MAX,
{
    let m: i64 = if secs > i64::MAX as u64 {
        i64::MAX
    } else {
        secs as i64
    };
    if after {
        m
    } else {
        -m
    }
}

impl ReferenceValueStore {
    /// The accepted digests per name at the current time.
    pub fn get_digests(&self) -> (r: Vec<(String, Vec<String>)>)
        ensures
            exists|now: i64| self.is_snapshot(now, r@),
    {
        let (after, secs) = clock_since_epoch();
        let now = signed_seconds(after, secs);
        self.snapshot(now)
    }
}

/// Ingesting under one name leaves the values of every other name as they
/// were: the store after `ingest(a, values)` agrees with the store before it
/// on each name `b != a`.
pub proof fn lemma_ingest_isolated(
    before: ReferenceValueStore,
    after: ReferenceValueStore,
    a: Seq<char>,
    values: Seq<ReferenceValue>,
    b: Seq<char>,
)
    requires
        before.wf(),
        after.lookup(a) == Some(values),
        forall|n: Seq<char>| n != a ==> after.lookup(n) == before.lookup(n),
        a != b,
    ensures
        after.lookup(b) == before.lookup(b),
{
}

/// An expired value contributes no digest to a snapshot: removing it from
/// the list leaves the live digests unchanged.
pub proof fn lemma_expired_excluded(vals: Seq<ReferenceValue>, k: int, now: i64)
    requires
        0 <= k < vals.len(),
        vals[k].expiration < now,
    ensures
        live_digests(vals, now) == live_digests(vals.remove(k), now),
    decreases vals.len(),
{
    if k == vals.len() - 1 {
        assert(vals.remove(k) =~= vals.drop_last());
        assert(live_digests(vals, now) =~= live_digests(vals.drop_last(), now));
    } else {
        lemma_expired_excluded(vals.drop_last(), k, now);
        let r = vals.remove(k);
        assert(r.drop_last() =~= vals.drop_last().remove(k));
        assert(r[r.len() - 1] == vals[vals.len() - 1]);
    }
}

/// A value live at `now` contributes all its digests: they stand, in order,
/// in the live digests of any list that holds it last.
pub proof fn lemma_live_included(vals: Seq<ReferenceValue>, now: i64)
    requires
        vals.len() > 0,
        is_live(vals[vals.len() - 1], now),
    ensures
        live_digests(vals, now) == live_digests(vals.drop_last(), now) + digests_of(
            vals[vals.len() - 1],
        ),
{
}

} // verus!
