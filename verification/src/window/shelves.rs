//! Where each pushed branch stands in its shelving, for branches shelved in
//! the background.

use vstd::prelude::*;
use crate::util::strmap::StrMap;

verus! {

/// The shelving state of one branch.
#[derive(Debug)]
pub enum ShelveState {
    Queued,
    Shelving,
    Done { changelist: usize, client: String },
    Failed { error: String },
}

impl Clone for ShelveState {
    fn clone(&self) -> (r: Self)
        ensures
            r == *self,
    {
        match self {
            ShelveState::Queued => ShelveState::Queued,
            ShelveState::Shelving => ShelveState::Shelving,
            ShelveState::Done { changelist, client } => ShelveState::Done {
                changelist: *changelist,
                client: client.clone(),
            },
            ShelveState::Failed { error } => ShelveState::Failed { error: error.clone() },
        }
    }
}

/// The shelving state of every branch that was queued for shelving, keyed
/// by `group/name/branch`.
pub struct ActiveShelves {
    inner: StrMap<ShelveState>,
}

impl ActiveShelves {
    /// The states, by key.
    pub closed spec fn view(&self) -> Map<Seq<char>, ShelveState> {
        self.inner.view()
    }

    /// No branch is being shelved.
    pub fn new() -> (r: Self)
        ensures
            r@ == Map::<Seq<char>, ShelveState>::empty(),
    {
        ActiveShelves { inner: StrMap::new() }
    }

    /// Records that the branch under `key` waits to be shelved.
    pub fn set_queued(&mut self, key: &str)
        ensures
            final(self)@ == old(self)@.insert(key@, ShelveState::Queued),
    {
        self.inner.insert(key.to_owned(), ShelveState::Queued);
    }

    /// Records that the branch under `key` is being shelved.
    pub fn set_shelving(&mut self, key: &str)
        ensures
            final(self)@ == old(self)@.insert(key@, ShelveState::Shelving),
    {
        self.inner.insert(key.to_owned(), ShelveState::Shelving);
    }

    /// Records that the branch under `key` was shelved as `changelist` on
    /// the shelve client `client`.
    pub fn set_done(&mut self, key: &str, changelist: usize, client: String)
        ensures
            final(self)@ == old(self)@.insert(key@, ShelveState::Done { changelist, client }),
    {
        self.inner.insert(key.to_owned(), ShelveState::Done { changelist, client });
    }

    /// Records that shelving the branch under `key` failed with `error`.
    pub fn set_failed(&mut self, key: &str, error: String)
        ensures
            final(self)@ == old(self)@.insert(key@, ShelveState::Failed { error }),
    {
        self.inner.insert(key.to_owned(), ShelveState::Failed { error });
    }

    /// The state of the branch under `key`, if it was ever queued.
    pub fn get(&self, key: &str) -> (r: Option<ShelveState>)
        ensures
            match r {
                Some(s) => self@.dom().contains(key@) && s == self@[key@],
                None => !self@.dom().contains(key@),
            },
    {
        match self.inner.get(key) {
            Some(s) => Some(s.clone()),
            None => None,
        }
    }
}

/// What reading a key gives back after a write: once a `set_*` method has
/// written `state` under `key`, `get` gives that state for `key`, and
/// every other key keeps what it had.
pub proof fn lemma_get_after_set(
    before: ActiveShelves,
    after: ActiveShelves,
    key: Seq<char>,
    state: ShelveState,
    other: Seq<char>,
)
    requires
        after@ == before@.insert(key, state),
        other != key,
    ensures
        after@.dom().contains(key),
        after@[key] == state,
        after@.dom().contains(other) == before@.dom().contains(other),
        before@.dom().contains(other) ==> after@[other] == before@[other],
{
}

} // verus!
