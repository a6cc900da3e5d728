//! Where profiles are kept: an abstract store of profiles keyed by their
//! identifiers, and an in-memory implementation of it.

use vstd::prelude::*;

use crate::profile::{Profile, ProfileSpec};

pub mod mock;

verus! {

/// Why a store could not serve a request.
#[derive(Debug, PartialEq, Eq, Structural, Clone, Copy)]
pub enum StorageError {
    /// No profile is stored under the identifier.
    NotFound,
}

/// A store of profiles keyed by identifier.
pub trait Storage: Sized {
    /// The stored profiles, by identifier.
    spec fn profiles(&self) -> Map<Seq<char>, ProfileSpec>;

    /// A store holds finitely many profiles.
    proof fn lemma_profiles_finite(&self)
        ensures
            self.profiles().dom().finite(),
    ;

    /// The profile stored under `id`.
    fn get<'a>(&'a self, id: &String) -> (r: Result<&'a Profile, StorageError>)
        ensures
            r is Ok <==> self.profiles().contains_key(id@),
            r matches Ok(p) ==> p@ == self.profiles()[id@],
            r matches Err(e) ==> e == StorageError::NotFound,
    ;

    /// Stores `i` under its identifier, replacing what was stored there.
    fn put(&mut self, i: Profile) -> (r: Result<(), StorageError>)
        ensures
            r is Ok ==> final(self).profiles() == old(self).profiles().insert(i@.id(), i@),
            r is Err ==> final(self).profiles() == old(self).profiles(),
    ;

    /// Removes and returns the profile stored under `id`.
    fn del(&mut self, id: &String) -> (r: Result<Profile, StorageError>)
        ensures
            r is Ok <==> old(self).profiles().contains_key(id@),
            r matches Ok(p) ==> p@ == old(self).profiles()[id@] && final(self).profiles()
                == old(self).profiles().remove(id@),
            r matches Err(e) ==> e == StorageError::NotFound && final(self).profiles() == old(self).profiles(),
    ;
}

/// Reading back what was written: once `put(p)` has succeeded, the
/// identifier of `p` reads as `p`, and every other identifier reads as it did
/// before.
pub proof fn law_get_after_put(
    before: Map<Seq<char>, ProfileSpec>,
    after: Map<Seq<char>, ProfileSpec>,
    p: ProfileSpec,
    k: Seq<char>,
)
    requires
        after == before.insert(p.id(), p),
    ensures
        after.contains_key(p.id()),
        after[p.id()] == p,
        k != p.id() ==> (after.contains_key(k) <==> before.contains_key(k)),
        k != p.id() && before.contains_key(k) ==> after[k] == before[k],
{
}

/// Deleting what was written: deleting the identifier of a profile just put
/// hands that profile back, and afterwards the identifier is not found.
pub proof fn law_del_after_put(
    before: Map<Seq<char>, ProfileSpec>,
    middle: Map<Seq<char>, ProfileSpec>,
    after: Map<Seq<char>, ProfileSpec>,
    p: ProfileSpec,
)
    requires
        middle == before.insert(p.id(), p),
        after == middle.remove(p.id()),
    ensures
        middle.contains_key(p.id()),
        middle[p.id()] == p,
        !after.contains_key(p.id()),
        after == before.remove(p.id()),
{
    assert(after =~= before.remove(p.id()));
}

} // verus!
