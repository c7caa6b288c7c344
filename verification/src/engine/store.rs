use crate::engine::chunk::{check_spans_ordered, spans_ordered, Span};
use crate::engine::fingerprint::{Fingerprint, FingerprintView};
use crate::text::text_eq;
use vstd::prelude::*;

verus! {

/// The layout version of the entries this library reads and writes.
pub const SCHEMA_VERSION: u32 = 1;

/// The cached index of one source file.
#[derive(Debug)]
pub struct SidecarEntry {
    /// The path of the source file.
    pub source: String,
    pub fingerprint: Fingerprint,
    /// The lines of each chunk, in file order.
    pub spans: Vec<Span>,
    /// How many embeddings the entry holds; `None` when it was built without a
    /// model.
    pub embedding_count: Option<usize>,
    pub schema_version: u32,
    pub size_bytes: u64,
}

impl SidecarEntry {
    /// The entry is complete: it has the current layout, its chunks are ordered
    /// and do not overlap, and it holds one embedding per chunk or none at all.
    pub open spec fn well_formed(self) -> bool {
        &&& self.schema_version == SCHEMA_VERSION
        &&& spans_ordered(self.spans@)
        &&& self.embedding_count matches Some(n) ==> n == self.spans@.len()
    }

    /// Whether the entry is complete. One that is not is treated as absent.
    pub fn is_well_formed(&self) -> (ok: bool)
        ensures
            ok == self.well_formed(),
    {
        if self.schema_version != SCHEMA_VERSION {
            return false;
        }
        if !check_spans_ordered(&self.spans) {
            return false;
        }
        match self.embedding_count {
            Some(n) => n == self.spans.len(),
            None => true,
        }
    }
}

/// The entry for `source` among `entries`: the last one that names it.
pub open spec fn find(entries: Seq<SidecarEntry>, source: Seq<char>) -> Option<SidecarEntry>
    decreases entries.len(),
{
    if entries.len() == 0 {
        None
    } else if entries.last().source@ == source {
        Some(entries.last())
    } else {
        find(entries.drop_last(), source)
    }
}

/// No two entries name the same source.
pub open spec fn distinct_sources(entries: Seq<SidecarEntry>) -> bool {
    forall|i: int, j: int|
        0 <= i < j < entries.len() ==> (#[trigger] entries[i]).source@ != (#[trigger] entries[j]).source@
}

/// The entries whose flag in `present` is set, in order.
pub open spec fn kept(entries: Seq<SidecarEntry>, present: Seq<bool>) -> Seq<SidecarEntry>
    decreases entries.len(),
{
    if entries.len() == 0 || present.len() != entries.len() {
        Seq::<SidecarEntry>::empty()
    } else if present.last() {
        kept(entries.drop_last(), present.drop_last()).push(entries.last())
    } else {
        kept(entries.drop_last(), present.drop_last())
    }
}

/// The complete entries among `entries`, in order.
pub open spec fn complete(entries: Seq<SidecarEntry>) -> Seq<SidecarEntry>
    decreases entries.len(),
{
    if entries.len() == 0 {
        entries
    } else if entries.last().well_formed() {
        complete(entries.drop_last()).push(entries.last())
    } else {
        complete(entries.drop_last())
    }
}

/// How many flags are not set.
pub open spec fn absent_count(present: Seq<bool>) -> nat
    decreases present.len(),
{
    if present.len() == 0 {
        0
    } else {
        absent_count(present.drop_last()) + if present.last() {
            0nat
        } else {
            1nat
        }
    }
}

/// `find` agrees with a look at each entry in turn.
pub proof fn lemma_find(entries: Seq<SidecarEntry>, source: Seq<char>)
    ensures
        find(entries, source) matches Some(e) ==> e.source@ == source && entries.contains(e),
        find(entries, source) is None <==> forall|i: int|
            0 <= i < entries.len() ==> (#[trigger] entries[i]).source@ != source,
        distinct_sources(entries) ==> forall|i: int|
            0 <= i < entries.len() && (#[trigger] entries[i]).source@ == source ==> find(
                entries,
                source,
            ) == Some(entries[i]),
    decreases entries.len(),
{
    if entries.len() > 0 {
        let front = entries.drop_last();
        lemma_find(front, source);
        if entries.last().source@ == source {
            assert(entries[entries.len() - 1] == entries.last());
        } else {
            if let Some(e) = find(front, source) {
                let k = choose|k: int| 0 <= k < front.len() && front[k] == e;
                assert(entries[k] == e);
            }
            if find(front, source) is None {
                assert forall|i: int| 0 <= i < entries.len() implies (#[trigger] entries[i]).source@
                    != source by {
                    if i < front.len() {
                        assert(front[i] == entries[i]);
                    }
                }
            }
            if find(front, source) is Some {
                let e = find(front, source)->0;
                let k = choose|k: int| 0 <= k < front.len() && front[k] == e;
                assert(entries[k].source@ == source);
            }
        }
        if distinct_sources(entries) {
            assert(distinct_sources(front)) by {
                assert forall|i: int, j: int| 0 <= i < j < front.len() implies (#[trigger] front[i]).source@
                    != (#[trigger] front[j]).source@ by {
                    assert(entries[i].source@ != entries[j].source@);
                }
            }
            assert forall|i: int|
                0 <= i < entries.len() && (#[trigger] entries[i]).source@ == source implies find(
                entries,
                source,
            ) == Some(entries[i]) by {
                if i < front.len() {
                    assert(front[i] == entries[i]);
                    assert(entries[i].source@ != entries[entries.len() - 1].source@);
                }
            }
        }
    }
}

/// What `kept` keeps: as many entries as flags are set, each of them one of
/// `entries` whose flag is set, in their old order.
pub proof fn lemma_kept(entries: Seq<SidecarEntry>, present: Seq<bool>)
    requires
        entries.len() == present.len(),
    ensures
        kept(entries, present).len() + absent_count(present) == entries.len(),
        forall|e: SidecarEntry| #[trigger]
            kept(entries, present).contains(e) <==> exists|i: int|
                0 <= i < entries.len() && present[i] && #[trigger] entries[i] == e,
        distinct_sources(entries) ==> distinct_sources(kept(entries, present)),
        (forall|i: int| 0 <= i < entries.len() ==> #[trigger] entries[i].well_formed()) ==> (forall|
            k: int,
        | 0 <= k < kept(entries, present).len() ==> #[trigger] kept(entries, present)[k].well_formed()),
    decreases entries.len(),
{
    let out = kept(entries, present);
    if entries.len() > 0 {
        let front = entries.drop_last();
        let flags = present.drop_last();
        lemma_kept(front, flags);
        let sub = kept(front, flags);
        assert forall|e: SidecarEntry| #[trigger] out.contains(e) <==> exists|i: int|
            0 <= i < entries.len() && present[i] && #[trigger] entries[i] == e by {
            if out.contains(e) {
                let k = choose|k: int| 0 <= k < out.len() && out[k] == e;
                if k < sub.len() {
                    assert(sub[k] == e);
                    assert(sub.contains(e));
                    let i = choose|i: int| 0 <= i < front.len() && flags[i] && #[trigger] front[i] == e;
                    assert(present[i] && entries[i] == e);
                } else {
                    assert(present[entries.len() - 1] && entries[entries.len() - 1] == e);
                }
            }
            if exists|i: int| 0 <= i < entries.len() && present[i] && #[trigger] entries[i] == e {
                let i = choose|i: int| 0 <= i < entries.len() && present[i] && #[trigger] entries[i] == e;
                if i < front.len() {
                    assert(flags[i] && front[i] == e);
                    assert(sub.contains(e));
                    let k = choose|k: int| 0 <= k < sub.len() && sub[k] == e;
                    assert(out[k] == e);
                } else {
                    assert(out[out.len() - 1] == e);
                }
            }
        }
        if distinct_sources(entries) {
            assert(distinct_sources(front)) by {
                assert forall|i: int, j: int| 0 <= i < j < front.len() implies (#[trigger] front[i]).source@
                    != (#[trigger] front[j]).source@ by {
                    assert(entries[i].source@ != entries[j].source@);
                }
            }
            assert forall|a: int, b: int| 0 <= a < b < out.len() implies (#[trigger] out[a]).source@ != (
            #[trigger] out[b]).source@ by {
                if b < sub.len() {
                    assert(sub[a].source@ != sub[b].source@);
                } else {
                    assert(sub[a] == out[a]);
                    assert(sub.contains(out[a]));
                    let i = choose|i: int| 0 <= i < front.len() && flags[i] && #[trigger] front[i] == out[a];
                    assert(entries[i].source@ != entries[entries.len() - 1].source@);
                }
            }
        }
        if forall|i: int| 0 <= i < entries.len() ==> #[trigger] entries[i].well_formed() {
            assert forall|k: int| 0 <= k < out.len() implies #[trigger] out[k].well_formed() by {
                assert(out.contains(out[k]));
                let i = choose|i: int| 0 <= i < entries.len() && present[i] && #[trigger] entries[i] == out[k];
                assert(entries[i].well_formed());
            }
        }
    }
}

/// The index: one entry per source file.
pub struct Store {
    pub entries: Vec<SidecarEntry>,
}

impl Store {
    /// Every entry is complete and no source has two entries.
    pub open spec fn well_formed(self) -> bool {
        &&& distinct_sources(self.entries@)
        &&& forall|i: int| 0 <= i < self.entries@.len() ==> #[trigger] self.entries@[i].well_formed()
    }

    /// The entry of `source`, if the store holds one.
    pub open spec fn lookup(self, source: Seq<char>) -> Option<SidecarEntry> {
        find(self.entries@, source)
    }

    /// The fingerprint each indexed source was indexed at.
    pub open spec fn fingerprints(self) -> Map<Seq<char>, FingerprintView> {
        Map::new(
            |s: Seq<char>| self.lookup(s) is Some,
            |s: Seq<char>| self.lookup(s)->0.fingerprint@,
        )
    }

    /// A store that holds nothing.
    pub fn new() -> (store: Self)
        ensures
            store.well_formed(),
            store.entries@.len() == 0,
    {
        Store { entries: Vec::new() }
    }

    /// The store of the entries as they were read: an entry that is not
    /// complete counts as absent, and where a source has several entries the
    /// last one counts.
    pub fn load(entries: Vec<SidecarEntry>) -> (store: Self)
        ensures
            store.well_formed(),
            forall|s: Seq<char>| #[trigger] store.lookup(s) == find(complete(entries@), s),
    {
        let mut store = Store::new();
        let mut rest = entries;
        while rest.len() > 0
            invariant
                store.well_formed(),
                forall|s: Seq<char>|
                    find(complete(entries@), s) == match #[trigger] store.lookup(s) {
                        Some(x) => Some(x),
                        None => find(complete(rest@), s),
                    },
            decreases rest@.len(),
        {
            let ghost before = rest@;
            let ghost held = store;
            let e = rest.pop().unwrap();
            proof {
                assert(before.drop_last() =~= rest@);
                assert(before.last() == e);
                lemma_find(held.entries@, e.source@);
            }
            if e.is_well_formed() && store.position(e.source.as_str()).is_none() {
                store.entries.push(e);
                proof {
                    let now = store.entries@;
                    assert(now.drop_last() =~= held.entries@);
                    assert(now.last() == e);
                    assert forall|a: int, b: int| 0 <= a < b < now.len() implies (#[trigger] now[a]).source@
                        != (#[trigger] now[b]).source@ by {
                        if b < held.entries@.len() {
                            assert(held.entries@[a].source@ != held.entries@[b].source@);
                        } else {
                            assert(held.entries@[a].source@ != e.source@);
                        }
                    }
                    assert forall|s: Seq<char>|
                        find(complete(entries@), s) == match #[trigger] store.lookup(s) {
                            Some(x) => Some(x),
                            None => find(complete(rest@), s),
                        } by {
                        assert(find(complete(entries@), s) == match held.lookup(s) {
                            Some(x) => Some(x),
                            None => find(complete(before), s),
                        });
                        let full = complete(rest@).push(e);
                        assert(complete(before) == full);
                        assert(full.drop_last() =~= complete(rest@));
                        assert(full.last() == e);
                        assert(held.lookup(e.source@) is None);
                    }
                }
            } else {
                proof {
                    assert forall|s: Seq<char>|
                        find(complete(entries@), s) == match #[trigger] store.lookup(s) {
                            Some(x) => Some(x),
                            None => find(complete(rest@), s),
                        } by {
                        assert(find(complete(entries@), s) == match held.lookup(s) {
                            Some(x) => Some(x),
                            None => find(complete(before), s),
                        });
                        if e.well_formed() {
                            let full = complete(rest@).push(e);
                            assert(complete(before) == full);
                            assert(full.drop_last() =~= complete(rest@));
                            assert(full.last() == e);
                            assert(held.lookup(e.source@) is Some);
                        } else {
                            assert(complete(before) == complete(rest@));
                        }
                    }
                }
            }
        }
        store
    }

    fn position(&self, source: &str) -> (at: Option<usize>)
        ensures
            at matches Some(i) ==> i < self.entries@.len() && self.entries@[i as int].source@
                == source@ && self.lookup(source@) == Some(self.entries@[i as int]),
            at is None ==> self.lookup(source@) is None,
    {
        let mut i: usize = self.entries.len();
        assert(self.entries@.take(i as int) =~= self.entries@);
        while i > 0
            invariant
                i <= self.entries@.len(),
                self.lookup(source@) == find(self.entries@.take(i as int), source@),
            decreases i,
        {
            let ghost upto = self.entries@.take(i as int);
            assert(upto.last() == self.entries@[i - 1]);
            assert(upto.drop_last() =~= self.entries@.take(i - 1));
            if text_eq(self.entries[i - 1].source.as_str(), source) {
                return Some(i - 1);
            }
            i = i - 1;
        }
        None
    }

    /// The entry of `source`: a complete one, or none.
    pub fn read(&self, source: &str) -> (entry: Option<&SidecarEntry>)
        ensures
            match entry {
                Some(e) => self.lookup(source@) == Some(*e),
                None => self.lookup(source@) is None,
            },
    {
        match self.position(source) {
            Some(i) => Some(&self.entries[i]),
            None => None,
        }
    }

    /// Puts `entry` in the place of whatever the store held for its source.
    /// Every other source keeps its entry.
    pub fn write(&mut self, entry: SidecarEntry)
        requires
            old(self).well_formed(),
            entry.well_formed(),
        ensures
            final(self).well_formed(),
            final(self).lookup(entry.source@) == Some(entry),
            forall|s: Seq<char>| s != entry.source@ ==> final(self).lookup(s) == old(self).lookup(s),
            final(self).fingerprints() == old(self).fingerprints().insert(
                entry.source@,
                entry.fingerprint@,
            ),
            final(self).entries@.len() == old(self).entries@.len() + if old(self).lookup(
                entry.source@,
            ) is Some {
                0int
            } else {
                1int
            },
    {
        let ghost before = self.entries@;
        let at = self.position(entry.source.as_str());
        proof {
            lemma_find(before, entry.source@);
        }
        match at {
            Some(i) => {
                self.entries.remove(i);
                proof {
                    let cut = self.entries@;
                    assert(cut == before.remove(i as int));
                    assert forall|a: int, b: int| 0 <= a < b < cut.len() implies (#[trigger] cut[a]).source@
                        != (#[trigger] cut[b]).source@ by {
                        let a0 = if a < i { a } else { a + 1 };
                        let b0 = if b < i { b } else { b + 1 };
                        assert(before[a0].source@ != before[b0].source@);
                    }
                    assert forall|a: int| 0 <= a < cut.len() implies (#[trigger] cut[a]).source@
                        != entry.source@ by {
                        let a0 = if a < i { a } else { a + 1 };
                        if a0 < i {
                            assert(before[a0].source@ != before[i as int].source@);
                        } else {
                            assert(before[i as int].source@ != before[a0].source@);
                        }
                    }
                    assert forall|s: Seq<char>| s != entry.source@ implies find(cut, s) == find(
                        before,
                        s,
                    ) by {
                        lemma_find_after_remove(before, i as int, s);
                    }
                    assert forall|a: int| 0 <= a < cut.len() implies #[trigger] cut[a].well_formed() by {
                        let a0 = if a < i { a } else { a + 1 };
                        assert(before[a0].well_formed());
                    }
                }
            },
            None => {},
        }
        let ghost cut = self.entries@;
        self.entries.push(entry);
        proof {
            let after = self.entries@;
            assert(after.drop_last() =~= cut);
            assert(after.last() == entry);
            assert forall|a: int, b: int| 0 <= a < b < after.len() implies (#[trigger] after[a]).source@
                != (#[trigger] after[b]).source@ by {
                if b < cut.len() {
                    assert(cut[a].source@ != cut[b].source@);
                } else {
                    assert(cut[a].source@ != entry.source@);
                }
            }
            assert forall|s: Seq<char>| s != entry.source@ implies find(after, s) == find(
                before,
                s,
            ) by {}
            assert(final(self).fingerprints() =~= old(self).fingerprints().insert(
                entry.source@,
                entry.fingerprint@,
            ));
        }
    }

    /// Removes every entry.
    pub fn clean(&mut self)
        ensures
            final(self).entries@.len() == 0,
            final(self).well_formed(),
            forall|s: Seq<char>| final(self).lookup(s) is None,
    {
        self.entries.clear();
    }

    /// Removes the entries whose source file is gone and says how many they
    /// were. `present[i]` tells whether the source of entry `i` still exists.
    /// The other entries stay as they are, in their order.
    pub fn clean_orphans(&mut self, present: &Vec<bool>) -> (removed: usize)
        requires
            old(self).well_formed(),
            present@.len() == old(self).entries@.len(),
        ensures
            final(self).well_formed(),
            final(self).entries@ == kept(old(self).entries@, present@),
            removed == absent_count(present@),
            removed + final(self).entries@.len() == old(self).entries@.len(),
    {
        let ghost before = self.entries@;
        let n = present.len();
        let mut removed: usize = 0;
        let mut i: usize = 0;
        assert(before.take(0) =~= Seq::<SidecarEntry>::empty());
        assert(present@.take(0) =~= Seq::<bool>::empty());
        assert(before.skip(0) =~= before);
        while i < n
            invariant
                i <= n,
                n == before.len(),
                n == present@.len(),
                removed == absent_count(present@.take(i as int)),
                removed <= i,
                self.entries@ == kept(before.take(i as int), present@.take(i as int)) + before.skip(
                    i as int,
                ),
                kept(before.take(i as int), present@.take(i as int)).len() == i - removed,
            decreases n - i,
        {
            let ghost head = kept(before.take(i as int), present@.take(i as int));
            proof {
                let part = before.take(i + 1);
                let flags = present@.take(i + 1);
                assert(part.drop_last() =~= before.take(i as int));
                assert(flags.drop_last() =~= present@.take(i as int));
                assert(part.last() == before[i as int]);
                assert(flags.last() == present@[i as int]);
            }
            if present[i] {
                proof {
                    assert(head.push(before[i as int]) + before.skip(i + 1) =~= head + before.skip(
                        i as int,
                    ));
                }
            } else {
                self.entries.remove(i - removed);
                proof {
                    assert(self.entries@ =~= head + before.skip(i + 1));
                }
                removed = removed + 1;
            }
            i = i + 1;
        }
        proof {
            assert(before.take(n as int) =~= before);
            assert(present@.take(n as int) =~= present@);
            assert(before.skip(n as int) =~= Seq::<SidecarEntry>::empty());
            assert(self.entries@ =~= kept(before, present@));
            lemma_kept(before, present@);
        }
        removed
    }
}

/// Taking out one entry changes nothing for the other sources.
proof fn lemma_find_after_remove(entries: Seq<SidecarEntry>, i: int, source: Seq<char>)
    requires
        0 <= i < entries.len(),
        entries[i].source@ != source,
    ensures
        find(entries.remove(i), source) == find(entries, source),
    decreases entries.len(),
{
    let cut = entries.remove(i);
    if i == entries.len() - 1 {
        assert(cut =~= entries.drop_last());
    } else {
        assert(cut.last() == entries.last());
        assert(cut.drop_last() =~= entries.drop_last().remove(i));
        if entries.last().source@ != source {
            lemma_find_after_remove(entries.drop_last(), i, source);
        }
    }
}

} // verus!
