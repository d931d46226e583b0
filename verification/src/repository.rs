//! The repository: the directory of the experiments that are alive, each
//! with the description of its policy and the address of its actor. It finds
//! the actor for a command and says what a failed dispatch means.
use crate::config::ExperimentConfig;
use crate::errors::{ExperimentError, MailboxFailure, RepositoryError};
use crate::policies::policy::{Policy, PolicyType};
use crate::state_store::all_wf;
use crate::table::{as_map, has_key, keys_of, place_of, value_of, with_entry, Table};
use uuid::Uuid;
use vstd::prelude::*;

verus! {

/// `Uuid::new_v4` and `Uuid::as_u128`: the 128 bits of a new random
/// identifier. Nothing is claimed of them. The call panics if the system
/// cannot provide randomness.
#[verifier::external_body]
fn fresh_id() -> u128 {
    Uuid::new_v4().as_u128()
}

/// What the repository keeps of an experiment.
pub struct RepositoryElement<A> {
    /// The address of the experiment's actor.
    pub address: A,
    /// The description of the experiment's policy.
    pub policy_type: PolicyType,
}

/// The directory of experiments. `A` is the type of an actor's address.
pub struct Repository<A> {
    experiments: Table<u128, RepositoryElement<A>>,
    experiment_config: ExperimentConfig,
}

impl<A> Repository<A> {
    /// The experiments under their identifiers, in the order of creation.
    pub closed spec fn view(&self) -> Seq<(u128, RepositoryElement<A>)> {
        self.experiments@
    }

    /// The settings that new experiments get.
    pub closed spec fn settings(&self) -> ExperimentConfig {
        self.experiment_config
    }

    /// What holds of every repository: no identifier occurs twice.
    pub closed spec fn wf(&self) -> bool {
        self.experiments.wf()
    }

    /// The invariant, stated over the view.
    pub proof fn wf_means_distinct(&self)
        requires
            self.wf(),
        ensures
            crate::table::distinct_keys(self@),
    {
    }

    /// Whether the address is what `start` returned for the experiment,
    /// started with a copy of the snapshot and the given seconds between two
    /// snapshots.
    pub open spec fn started_by<F: Fn(u128, Policy, u64) -> A>(
        start: F,
        experiment_id: u128,
        snapshot: Policy,
        save_every: u64,
        address: A,
    ) -> bool {
        exists|policy: Policy|
            policy@ == snapshot@ && policy.wf() && #[trigger] call_ensures(
                start,
                (experiment_id, policy, save_every),
                address,
            )
    }

    /// The listing of a directory: identifiers and descriptions, in order.
    pub open spec fn listing(s: Seq<(u128, RepositoryElement<A>)>) -> Seq<(u128, PolicyType)> {
        Seq::new(s.len(), |i: int| (s[i].0, s[i].1.policy_type))
    }

    /// An empty repository.
    pub fn new(experiment_config: ExperimentConfig) -> (repository: Self)
        ensures
            repository.wf(),
            repository@ == Seq::<(u128, RepositoryElement<A>)>::empty(),
            repository.settings() == experiment_config,
    {
        Repository { experiments: Table::new(), experiment_config }
    }

    /// The settings that new experiments get.
    pub fn experiment_config(&self) -> (config: ExperimentConfig)
        ensures
            config == self.settings(),
    {
        self.experiment_config
    }

    /// The address of the experiment's actor.
    pub fn get_experiment_address(&self, experiment_id: u128) -> (address: Result<
        &A,
        RepositoryError,
    >)
        requires
            self.wf(),
        ensures
            match address {
                Ok(found) => has_key(self@, experiment_id) && *found == value_of(
                    self@,
                    experiment_id,
                ).address,
                Err(error) => !has_key(self@, experiment_id) && error
                    == RepositoryError::ExperimentNotFound(experiment_id),
            },
    {
        match self.experiments.get(experiment_id) {
            Some(element) => Ok(&element.address),
            None => Err(RepositoryError::ExperimentNotFound(experiment_id)),
        }
    }

    /// The experiments with the descriptions of their policies. No actor is
    /// asked.
    pub fn iter_experiments(&self) -> (listed: Vec<(u128, PolicyType)>)
        ensures
            listed@ == Self::listing(self@),
    {
        let mut listed: Vec<(u128, PolicyType)> = Vec::new();
        let mut place: usize = 0;
        while place < self.experiments.len()
            invariant
                place <= self.experiments@.len(),
                listed@ == Self::listing(self@).take(place as int),
            decreases self.experiments@.len() - place,
        {
            listed.push((self.experiments.key_at(place), self.experiments.value_at(place).policy_type));
            place += 1;
            proof {
                assert(listed@ =~= Self::listing(self@).take(place as int));
            }
        }
        proof {
            assert(listed@ =~= Self::listing(self@));
        }
        listed
    }

    /// Drops every entry. The addresses go with them; an actor is not told
    /// to stop.
    pub fn clear(&mut self)
        ensures
            final(self).wf(),
            final(self)@ == Seq::<(u128, RepositoryElement<A>)>::empty(),
            final(self).settings() == old(self).settings(),
    {
        self.experiments.clear();
    }

    /// Enters an experiment whose actor runs under the given address. An
    /// identifier already in use keeps its place and gets the new entry.
    pub fn register(&mut self, experiment_id: u128, policy_type: PolicyType, address: A)
        requires
            old(self).wf(),
        ensures
            final(self).wf(),
            final(self)@ == with_entry(
                old(self)@,
                experiment_id,
                RepositoryElement { address, policy_type },
            ),
            keys_of(final(self)@) == keys_of(old(self)@).insert(experiment_id),
            as_map(final(self)@) == as_map(old(self)@).insert(
                experiment_id,
                RepositoryElement { address, policy_type },
            ),
            final(self).settings() == old(self).settings(),
    {
        self.experiments.put(experiment_id, RepositoryElement { address, policy_type });
    }

    /// Creates an experiment for the policy: under the given identifier, or
    /// under a new random one. `start` starts the experiment's actor with
    /// the identifier, the policy and the seconds between two snapshots, and
    /// returns its address.
    pub fn create_experiment<F>(
        &mut self,
        experiment_id: Option<u128>,
        policy: Policy,
        start: &F,
    ) -> (id: u128) where F: Fn(u128, Policy, u64) -> A
        requires
            old(self).wf(),
            policy.wf(),
            forall|id: u128| call_requires(start, (id, policy, old(self).settings().save_every)),
        ensures
            final(self).wf(),
            experiment_id matches Some(given) ==> id == given,
            has_key(final(self)@, id),
            value_of(final(self)@, id).policy_type == policy@.described(),
            call_ensures(
                start,
                (id, policy, old(self).settings().save_every),
                value_of(final(self)@, id).address,
            ),
            final(self)@ == with_entry(old(self)@, id, value_of(final(self)@, id)),
            keys_of(final(self)@) == keys_of(old(self)@).insert(id),
            final(self).settings() == old(self).settings(),
    {
        let id = match experiment_id {
            Some(given) => given,
            None => fresh_id(),
        };
        let policy_type = policy.policy_type();
        let address = start(id, policy, self.experiment_config.save_every);
        self.register(id, policy_type, address);
        proof {
            assert(as_map(self@).contains_key(id));
            assert(as_map(self@)[id] == RepositoryElement { address, policy_type });
        }
        id
    }

    /// Takes the experiment out of the directory and returns the address of
    /// its actor, for the caller to tell the actor to end.
    pub fn delete_experiment(&mut self, experiment_id: u128) -> (address: Result<A, RepositoryError>)
        requires
            old(self).wf(),
        ensures
            final(self).wf(),
            final(self).settings() == old(self).settings(),
            match address {
                Ok(found) => has_key(old(self)@, experiment_id) && found == value_of(
                    old(self)@,
                    experiment_id,
                ).address && final(self)@ == old(self)@.remove(place_of(old(self)@, experiment_id)),
                Err(error) => !has_key(old(self)@, experiment_id) && error
                    == RepositoryError::ExperimentNotFound(experiment_id) && final(self)@ == old(
                    self,
                )@,
            },
            keys_of(final(self)@) == keys_of(old(self)@).remove(experiment_id),
    {
        match self.experiments.remove(experiment_id) {
            Some(element) => Ok(element.address),
            None => Err(RepositoryError::ExperimentNotFound(experiment_id)),
        }
    }

    /// Creates an experiment for every snapshot that the state store has
    /// handed over, each under its identifier; `start` starts the actors as
    /// in `create_experiment`. Where the state store did not answer, nothing
    /// is created and the storage is reported as unavailable.
    pub fn load_experiments<F>(
        &mut self,
        loaded: Result<Table<u128, Policy>, MailboxFailure>,
        start: &F,
    ) -> (done: Result<(), RepositoryError>) where F: Fn(u128, Policy, u64) -> A
        requires
            old(self).wf(),
            loaded matches Ok(table) ==> table.wf() && all_wf(table@),
            forall|id: u128, policy: Policy|
                policy.wf() ==> call_requires(start, (id, policy, old(self).settings().save_every)),
        ensures
            final(self).wf(),
            final(self).settings() == old(self).settings(),
            match loaded {
                Ok(table) => {
                    &&& done is Ok
                    &&& keys_of(final(self)@) == keys_of(old(self)@).union(keys_of(table@))
                    &&& forall|id: u128| #[trigger]
                        has_key(table@, id) ==> value_of(final(self)@, id).policy_type == value_of(
                            table@,
                            id,
                        )@.described() && Self::started_by(
                            start,
                            id,
                            value_of(table@, id),
                            old(self).settings().save_every,
                            value_of(final(self)@, id).address,
                        )
                    &&& forall|id: u128|
                        !has_key(table@, id) && #[trigger] has_key(old(self)@, id) ==> value_of(
                            final(self)@,
                            id,
                        ) == value_of(old(self)@, id)
                },
                Err(_) => done == Err::<(), RepositoryError>(RepositoryError::StorageUnavailable)
                    && final(self)@ == old(self)@,
            },
    {
        let table = match loaded {
            Ok(table) => table,
            Err(_) => {
                return Err(RepositoryError::StorageUnavailable);
            },
        };
        let mut place: usize = 0;
        while place < table.len()
            invariant
                self.wf(),
                table.wf(),
                all_wf(table@),
                place <= table@.len(),
                self.settings() == old(self).settings(),
                forall|id: u128, policy: Policy|
                    policy.wf() ==> call_requires(start, (id, policy, old(self).settings().save_every)),
                keys_of(self@) == keys_of(old(self)@).union(keys_of(table@.take(place as int))),
                forall|k: int|
                    0 <= k < place ==> value_of(self@, (#[trigger] table@[k]).0).policy_type
                        == table@[k].1@.described() && Self::started_by(
                        start,
                        table@[k].0,
                        table@[k].1,
                        old(self).settings().save_every,
                        value_of(self@, table@[k].0).address,
                    ),
                forall|id: u128|
                    !has_key(table@.take(place as int), id) && #[trigger] has_key(old(self)@, id)
                        ==> value_of(self@, id) == value_of(old(self)@, id),
            decreases table@.len() - place,
        {
            let id = table.key_at(place);
            let ghost before = self@;
            proof {
                assert(table@[place as int].1.wf());
            }
            let snapshot = table.value_at(place).clone_snapshot();
            let ghost policy = snapshot;
            let _ = self.create_experiment(Some(id), snapshot, start);
            proof {
                let after = self@;
                let front = table@.take(place as int);
                let next = table@.take(place + 1);
                assert forall|x: u128| has_key(next, x) <==> (has_key(front, x) || x == id) by {
                    if has_key(next, x) {
                        let i = place_of(next, x);
                        if i < place {
                            assert(front[i].0 == x);
                        }
                    }
                    if has_key(front, x) {
                        let i = place_of(front, x);
                        assert(next[i].0 == x);
                    }
                    assert(next[place as int].0 == id);
                }
                assert(keys_of(after) =~= keys_of(old(self)@).union(keys_of(next)));
                crate::table::update_or_push_keeps_others(before, id, value_of(after, id));
                assert forall|k: int| 0 <= k < place + 1 implies value_of(
                    after,
                    (#[trigger] table@[k]).0,
                ).policy_type == table@[k].1@.described() && Self::started_by(
                    start,
                    table@[k].0,
                    table@[k].1,
                    old(self).settings().save_every,
                    value_of(after, table@[k].0).address,
                ) by {
                    if k < place {
                        assert(table@[k].0 != table@[place as int].0);
                        assert(front[k].0 == table@[k].0);
                        assert(has_key(front, table@[k].0));
                        assert(keys_of(before).contains(table@[k].0));
                    } else {
                        assert(call_ensures(
                            start,
                            (id, policy, old(self).settings().save_every),
                            value_of(after, id).address,
                        ));
                    }
                }
                assert forall|x: u128| !has_key(next, x) && #[trigger] has_key(old(self)@, x) implies value_of(
                    after,
                    x,
                ) == value_of(old(self)@, x) by {
                    assert(!has_key(front, x));
                    assert(x != id);
                    assert(keys_of(before).contains(x));
                }
            }
            place += 1;
        }
        proof {
            assert(table@.take(place as int) =~= table@);
            assert forall|id: u128| #[trigger] has_key(table@, id) implies value_of(
                self@,
                id,
            ).policy_type == value_of(table@, id)@.described() && Self::started_by(
                start,
                id,
                value_of(table@, id),
                old(self).settings().save_every,
                value_of(self@, id).address,
            ) by {
                let k = place_of(table@, id);
                assert(table@[k].0 == id);
            }
        }
        Ok(())
    }

    /// What a failed dispatch to an experiment means: its actor did not
    /// take the command.
    pub fn unavailable(experiment_id: u128, failure: MailboxFailure) -> (error: RepositoryError)
        ensures
            error == RepositoryError::ExperimentUnavailable(experiment_id),
    {
        RepositoryError::ExperimentUnavailable(experiment_id)
    }

    /// The outcome of a command for the caller, from what came back when it
    /// was sent: the command's own result where the actor answered, and
    /// that the experiment is unavailable where it did not.
    pub fn settle<T>(
        experiment_id: u128,
        answer: Result<Result<T, ExperimentError>, MailboxFailure>,
    ) -> (outcome: Result<T, RepositoryError>)
        ensures
            outcome == match answer {
                Ok(Ok(value)) => Ok::<T, RepositoryError>(value),
                Ok(Err(error)) => Err::<T, RepositoryError>(RepositoryError::Experiment(error)),
                Err(_) => Err::<T, RepositoryError>(
                    RepositoryError::ExperimentUnavailable(experiment_id),
                ),
            },
    {
        match answer {
            Ok(Ok(value)) => Ok(value),
            Ok(Err(error)) => Err(RepositoryError::Experiment(error)),
            Err(failure) => Err(Self::unavailable(experiment_id, failure)),
        }
    }
}

} // verus!
