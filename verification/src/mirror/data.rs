//! What the mirror remembers between runs: how far it has synced, which
//! changes came from git branches, and the e-mail of each Perforce user.

use std::collections::HashMap;
use vstd::prelude::*;
use crate::util::strmap::StrMap;

verus! {

broadcast use vstd::std_specs::hash::group_hash_axioms;

/// How a change that integrates a git branch is committed.
#[derive(Debug, Clone, Copy, PartialEq, Eq, Structural)]
pub enum IntegrateStrategy {
    /// Record the branch as a second parent and keep the tree of the change.
    MergeOurs,
}

/// The strategy a stored value reads as: every value reads as
/// `MergeOurs`, the only strategy.
pub open spec fn strategy_of(value: i64) -> IntegrateStrategy {
    IntegrateStrategy::MergeOurs
}

/// The value a strategy is stored as.
pub open spec fn strategy_code(s: IntegrateStrategy) -> i64 {
    match s {
        IntegrateStrategy::MergeOurs => 0,
    }
}

impl IntegrateStrategy {
    /// The strategy stored as `value` in the database.
    pub fn from_db(value: i64) -> (r: Self)
        ensures
            r == strategy_of(value),
    {
        IntegrateStrategy::MergeOurs
    }

    /// The value stored in the database for this strategy.
    pub fn to_db(self) -> (r: i64)
        ensures
            r == strategy_code(self),
    {
        match self {
            IntegrateStrategy::MergeOurs => 0,
        }
    }
}

/// Reading a stored strategy back gives the strategy that was stored.
pub proof fn lemma_integrate_strategy_round_trip(s: IntegrateStrategy)
    ensures
        strategy_of(strategy_code(s)) == s,
{
}

/// The state a mirror keeps between runs.
pub trait MirrorData {
    fn last_sync_change(&self) -> usize;

    fn set_last_sync_change(&mut self, change: usize);

    fn get_related_branch(&self, change: usize) -> Option<String>;

    fn get_user_email(&self, user: &str) -> Option<String>;

    fn set_user_email(&mut self, user: &str, email: &str);

    fn p4_client(&self) -> &str;

    fn integrate_strategy(&self) -> IntegrateStrategy;

    fn max_changes_query(&self) -> Option<usize>;

    fn map_commit_to_change(&self, commit: &str, change: usize);
}

/// Mirror state held in memory.
pub struct HashMapMirrorData {
    last_sync_change: usize,
    branch_mapping: HashMap<usize, String>,
    user_mapping: StrMap<String>,
    p4_client: String,
    integrate_strategy: IntegrateStrategy,
    max_changes_query: Option<usize>,
}

impl HashMapMirrorData {
    /// The last change mirrored.
    pub closed spec fn last_sync_spec(&self) -> usize {
        self.last_sync_change
    }

    /// Which git branch each change integrated.
    pub closed spec fn branches(&self) -> Map<usize, Seq<char>> {
        self.branch_mapping@.map_values(|b: String| b@)
    }

    /// The e-mail of each Perforce user.
    pub closed spec fn emails(&self) -> Map<Seq<char>, Seq<char>> {
        self.user_mapping.view().map_values(|e: String| e@)
    }

    /// The client the mirror reads from.
    pub closed spec fn client_spec(&self) -> Seq<char> {
        self.p4_client@
    }

    /// The strategy for integrated branches.
    pub closed spec fn strategy_spec(&self) -> IntegrateStrategy {
        self.integrate_strategy
    }

    /// The most changes one query fetches.
    pub closed spec fn max_changes_spec(&self) -> Option<usize> {
        self.max_changes_query
    }

    /// Empty state for `p4_client`, not yet synced.
    pub fn new(
        p4_client: String,
        integrate_strategy: IntegrateStrategy,
        max_changes_query: Option<usize>,
    ) -> (r: Self)
        ensures
            r.last_sync_spec() == 0,
            r.branches() == Map::<usize, Seq<char>>::empty(),
            r.emails() == Map::<Seq<char>, Seq<char>>::empty(),
            r.client_spec() == p4_client@,
            r.strategy_spec() == integrate_strategy,
            r.max_changes_spec() == max_changes_query,
    {
        let r = HashMapMirrorData {
            last_sync_change: 0,
            branch_mapping: HashMap::new(),
            user_mapping: StrMap::new(),
            p4_client,
            integrate_strategy,
            max_changes_query,
        };
        assert(r.branches() =~= Map::<usize, Seq<char>>::empty());
        assert(r.emails() =~= Map::<Seq<char>, Seq<char>>::empty());
        r
    }

    /// Records that `change` integrated `branch`.
    pub fn set_branch_mapping(&mut self, change: usize, branch: String)
        ensures
            final(self).branches() == old(self).branches().insert(change, branch@),
            final(self).emails() == old(self).emails(),
            final(self).last_sync_spec() == old(self).last_sync_spec(),
            final(self).client_spec() == old(self).client_spec(),
            final(self).strategy_spec() == old(self).strategy_spec(),
            final(self).max_changes_spec() == old(self).max_changes_spec(),
    {
        let ghost b = branch@;
        self.branch_mapping.insert(change, branch);
        assert(self.branches() =~= old(self).branches().insert(change, b));
    }
}

/// What the mirror state reads back after a write: once `set_user_email`
/// has set `email` for `user`, `get_user_email` gives that e-mail for
/// `user`, and every other user keeps the e-mail it had; once
/// `set_branch_mapping` has recorded `branch` for `change`,
/// `get_related_branch` gives that branch for `change`, and every other
/// change keeps its branch.
pub proof fn lemma_mirror_data_read_after_write(
    before: HashMapMirrorData,
    after_email: HashMapMirrorData,
    user: Seq<char>,
    email: Seq<char>,
    other_user: Seq<char>,
    after_branch: HashMapMirrorData,
    change: usize,
    branch: Seq<char>,
    other_change: usize,
)
    requires
        after_email.emails() == before.emails().insert(user, email),
        after_branch.branches() == before.branches().insert(change, branch),
        other_user != user,
        other_change != change,
    ensures
        after_email.emails().contains_key(user),
        after_email.emails()[user] == email,
        after_email.emails().contains_key(other_user) == before.emails().contains_key(other_user),
        before.emails().contains_key(other_user) ==> after_email.emails()[other_user]
            == before.emails()[other_user],
        after_branch.branches().contains_key(change),
        after_branch.branches()[change] == branch,
        after_branch.branches().contains_key(other_change) == before.branches().contains_key(
            other_change,
        ),
        before.branches().contains_key(other_change) ==> after_branch.branches()[other_change]
            == before.branches()[other_change],
{
}

impl MirrorData for HashMapMirrorData {
    fn last_sync_change(&self) -> (r: usize)
        ensures
            r == self.last_sync_spec(),
    {
        self.last_sync_change
    }

    fn set_last_sync_change(&mut self, change: usize)
        ensures
            final(self).last_sync_spec() == change,
            final(self).branches() == old(self).branches(),
            final(self).emails() == old(self).emails(),
            final(self).client_spec() == old(self).client_spec(),
            final(self).strategy_spec() == old(self).strategy_spec(),
            final(self).max_changes_spec() == old(self).max_changes_spec(),
    {
        self.last_sync_change = change;
    }

    fn get_related_branch(&self, change: usize) -> (r: Option<String>)
        ensures
            match r {
                Some(b) => self.branches().contains_key(change) && b@ == self.branches()[change],
                None => !self.branches().contains_key(change),
            },
    {
        match self.branch_mapping.get(&change) {
            Some(b) => Some(b.clone()),
            None => None,
        }
    }

    fn get_user_email(&self, user: &str) -> (r: Option<String>)
        ensures
            match r {
                Some(e) => self.emails().contains_key(user@) && e@ == self.emails()[user@],
                None => !self.emails().contains_key(user@),
            },
    {
        match self.user_mapping.get(user) {
            Some(e) => Some(e.clone()),
            None => None,
        }
    }

    fn set_user_email(&mut self, user: &str, email: &str)
        ensures
            final(self).emails() == old(self).emails().insert(user@, email@),
            final(self).last_sync_spec() == old(self).last_sync_spec(),
            final(self).branches() == old(self).branches(),
            final(self).client_spec() == old(self).client_spec(),
            final(self).strategy_spec() == old(self).strategy_spec(),
            final(self).max_changes_spec() == old(self).max_changes_spec(),
    {
        let ghost before = self.user_mapping.view();
        let e = email.to_owned();
        self.user_mapping.insert(user.to_owned(), e);
        assert(self.emails() =~= old(self).emails().insert(user@, email@));
    }

    fn p4_client(&self) -> (r: &str)
        ensures
            r@ == self.client_spec(),
    {
        self.p4_client.as_str()
    }

    fn integrate_strategy(&self) -> (r: IntegrateStrategy)
        ensures
            r == self.strategy_spec(),
    {
        self.integrate_strategy
    }

    fn max_changes_query(&self) -> (r: Option<usize>)
        ensures
            r == self.max_changes_spec(),
    {
        self.max_changes_query
    }

    /// Nothing is recorded for the in-memory state.
    fn map_commit_to_change(&self, _commit: &str, _change: usize) {
    }
}

} // verus!
