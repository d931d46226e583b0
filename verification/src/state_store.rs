//! The state store: the catalog of policy snapshots, by experiment. Saves
//! and deletions change the catalog at once; the caller writes it to disk
//! when the store's timer fires.
use crate::config::ExperimentCacheConfig;
use crate::experiment::{DeleteState, LoadState, SaveState};
use crate::policies::policy::{Policy, PolicyState};
use crate::table::{as_map, distinct_keys, has_key, place_is_unique, place_of, Table};
use vstd::prelude::*;

verus! {

/// Whether every policy in the sequence is well formed.
pub open spec fn all_wf(s: Seq<(u128, Policy)>) -> bool {
    forall|i: int| 0 <= i < s.len() ==> (#[trigger] s[i]).1.wf()
}

/// The snapshots of the sequence, by experiment.
pub open spec fn snapshots(s: Seq<(u128, Policy)>) -> Map<u128, PolicyState> {
    Map::new(|id: u128| as_map(s).contains_key(id), |id: u128| as_map(s)[id]@)
}

/// Two sequences with the same identifiers in the same order, and policies
/// that look the same, hold the same snapshots.
pub proof fn same_snapshots(a: Seq<(u128, Policy)>, b: Seq<(u128, Policy)>)
    requires
        distinct_keys(a),
        a.len() == b.len(),
        forall|i: int| 0 <= i < a.len() ==> (#[trigger] a[i]).0 == b[i].0 && a[i].1@ == b[i].1@,
    ensures
        distinct_keys(b),
        snapshots(a) == snapshots(b),
{
    assert forall|i: int, j: int| 0 <= i < j < b.len() implies b[i].0 != b[j].0 by {
        assert(a[i].0 == b[i].0);
        assert(a[j].0 == b[j].0);
    }
    assert forall|id: u128| has_key(a, id) <==> has_key(b, id) by {
        if has_key(a, id) {
            let i = place_of(a, id);
            assert(a[i].0 == b[i].0);
        }
        if has_key(b, id) {
            let i = place_of(b, id);
            assert(a[i].0 == b[i].0);
        }
    }
    assert forall|id: u128| has_key(a, id) implies as_map(a)[id]@ == as_map(b)[id]@ by {
        let i = place_of(a, id);
        assert(a[i].0 == b[i].0);
        place_is_unique(a, i);
        place_is_unique(b, i);
    }
    assert(snapshots(a) =~= snapshots(b));
}

/// A copy of a table of policies, entry by entry.
pub fn copy_of(table: &Table<u128, Policy>) -> (copy: Table<u128, Policy>)
    requires
        table.wf(),
        all_wf(table@),
    ensures
        copy.wf(),
        all_wf(copy@),
        copy@.len() == table@.len(),
        forall|i: int|
            0 <= i < table@.len() ==> (#[trigger] copy@[i]).0 == table@[i].0 && copy@[i].1@
                == table@[i].1@,
        snapshots(copy@) == snapshots(table@),
{
    let mut copy: Table<u128, Policy> = Table::new();
    let mut place: usize = 0;
    while place < table.len()
        invariant
            table.wf(),
            all_wf(table@),
            copy.wf(),
            all_wf(copy@),
            place <= table@.len(),
            copy@.len() == place,
            forall|i: int|
                0 <= i < place ==> (#[trigger] copy@[i]).0 == table@[i].0 && copy@[i].1@
                    == table@[i].1@,
        decreases table@.len() - place,
    {
        let id = table.key_at(place);
        proof {
            assert(table@[place as int].1.wf());
            if has_key(copy@, id) {
                let k = place_of(copy@, id);
                assert(copy@[k].0 == table@[k].0);
                assert(table@[k].0 != table@[place as int].0);
            }
        }
        let policy = table.value_at(place).clone_snapshot();
        copy.put(id, policy);
        place += 1;
    }
    proof {
        same_snapshots(table@, copy@);
    }
    copy
}

/// The state store.
pub struct StateStore {
    storage: Table<u128, Policy>,
    config: ExperimentCacheConfig,
}

impl StateStore {
    /// What holds of every store: no experiment occurs twice, and every
    /// policy is well formed.
    pub closed spec fn wf(&self) -> bool {
        self.storage.wf() && all_wf(self.storage@)
    }

    /// The catalog: the snapshot of each experiment that has one.
    pub closed spec fn catalog(&self) -> Map<u128, PolicyState> {
        snapshots(self.storage@)
    }

    /// The number of entries.
    pub closed spec fn count(&self) -> nat {
        self.storage@.len()
    }

    /// The settings of the store: where the catalog is kept and how often
    /// it is written.
    pub closed spec fn settings(&self) -> ExperimentCacheConfig {
        self.config
    }

    /// A store with what was read from its file. Where the file was missing
    /// or could not be understood, the store starts empty.
    pub fn new(config: ExperimentCacheConfig, loaded: Option<Table<u128, Policy>>) -> (store: Self)
        requires
            loaded matches Some(table) ==> table.wf() && all_wf(table@),
        ensures
            store.wf(),
            store.settings() == config,
            store.catalog() == match loaded {
                Some(table) => snapshots(table@),
                None => Map::<u128, PolicyState>::empty(),
            },
    {
        let storage = match loaded {
            Some(table) => table,
            None => Table::new(),
        };
        proof {
            assert(snapshots(Seq::<(u128, Policy)>::empty()) =~= Map::<u128, PolicyState>::empty());
        }
        StateStore { storage, config }
    }

    /// The settings of the store.
    pub fn config(&self) -> (config: &ExperimentCacheConfig)
        ensures
            *config == self.settings(),
    {
        &self.config
    }

    /// The number of entries.
    pub fn len(&self) -> (n: usize)
        ensures
            n == self.count(),
    {
        self.storage.len()
    }

    /// Keeps the snapshot under the experiment's identifier, in place of an
    /// earlier one.
    pub fn save(&mut self, request: SaveState)
        requires
            old(self).wf(),
            request.policy.wf(),
        ensures
            final(self).wf(),
            final(self).settings() == old(self).settings(),
            final(self).catalog() == old(self).catalog().insert(
                request.experiment_id,
                request.policy@,
            ),
    {
        let ghost before = self.storage@;
        let ghost id = request.experiment_id;
        let ghost policy = request.policy;
        self.storage.put(request.experiment_id, request.policy);
        proof {
            let after = self.storage@;
            assert(as_map(after) == as_map(before).insert(id, policy));
            assert(snapshots(after) =~= snapshots(before).insert(id, policy@));
            assert forall|i: int| 0 <= i < after.len() implies (#[trigger] after[i]).1.wf() by {
                if has_key(before, id) {
                    if i != place_of(before, id) {
                        assert(before[i].1.wf());
                    }
                } else {
                    if i < before.len() {
                        assert(before[i].1.wf());
                    }
                }
            }
        }
    }

    /// Forgets the snapshot of the experiment, if there is one.
    pub fn delete(&mut self, request: DeleteState)
        requires
            old(self).wf(),
        ensures
            final(self).wf(),
            final(self).settings() == old(self).settings(),
            final(self).catalog() == old(self).catalog().remove(request.experiment_id),
    {
        let ghost before = self.storage@;
        let taken = self.storage.remove(request.experiment_id);
        proof {
            let after = self.storage@;
            assert(snapshots(after) =~= snapshots(before).remove(request.experiment_id));
            if taken is Some {
                let p = place_of(before, request.experiment_id);
                assert forall|i: int| 0 <= i < after.len() implies (#[trigger] after[i]).1.wf() by {
                    if i < p {
                        assert(before[i].1.wf());
                    } else {
                        assert(before[i + 1].1.wf());
                    }
                }
            }
        }
    }

    /// A copy of the snapshot of the experiment, if there is one.
    pub fn load(&self, request: LoadState) -> (snapshot: Option<Policy>)
        requires
            self.wf(),
        ensures
            snapshot is Some <==> self.catalog().contains_key(request.experiment_id),
            snapshot matches Some(policy) ==> policy.wf() && policy@
                == self.catalog()[request.experiment_id],
    {
        match self.storage.position(request.experiment_id) {
            Some(place) => {
                proof {
                    assert(self.storage@[place as int].1.wf());
                }
                Some(self.storage.value_at(place).clone_snapshot())
            },
            None => None,
        }
    }

    /// A copy of the whole catalog.
    pub fn load_all(&self) -> (copy: Table<u128, Policy>)
        requires
            self.wf(),
        ensures
            copy.wf(),
            all_wf(copy@),
            copy@.len() == self.count(),
            snapshots(copy@) == self.catalog(),
    {
        copy_of(&self.storage)
    }

    /// What is written to disk when the store's timer fires: a copy of the
    /// catalog, unless it is empty.
    pub fn persist(&self) -> (written: Option<Table<u128, Policy>>)
        requires
            self.wf(),
        ensures
            written is None <==> self.count() == 0,
            written matches Some(copy) ==> copy.wf() && all_wf(copy@) && snapshots(copy@)
                == self.catalog(),
    {
        if self.storage.is_empty() {
            None
        } else {
            Some(copy_of(&self.storage))
        }
    }
}

} // verus!
