//! The entity kinds of the voting application, each an instantiation of the
//! generic versioned record store, plus their validation hooks.
//!
//! Domain-specific validation is a pluggable hook invoked at create, update
//! and delete time; the hooks here accept every payload, which is the
//! behaviour the application ships with. The link hooks enforce the one rule
//! the versioning pattern itself needs: an update link must connect two
//! known records, and update links are never deleted.

use vstd::prelude::*;

use crate::substrate::RecordStore;
use crate::types::{Address, Payload, StoreError, ValidationOutcome};
use vstd::string::StringExecFns;

verus! {

/// A participant's profile.
#[derive(PartialEq, Debug)]
pub struct AgentProfile {
    pub name: String,
    pub email: String,
    pub password: String,
    pub region: String,
}

/// A ballot: a question put to the participants.
#[derive(PartialEq, Debug)]
pub struct Ballot {
    pub title: String,
    pub description: String,
    /// Author identity of the creator, as the substrate records authors.
    pub created_by: u64,
    /// Wall-clock creation time, in microseconds.
    pub created_at: i64,
}

/// One votable item of a ballot.
#[derive(PartialEq, Debug)]
pub struct VoteItem {
    pub ballot_name: String,
    pub vote_weight: u8,
}

impl Payload for AgentProfile {
    fn duplicate(&self) -> (r: Self)
        ensures
            r == *self,
    {
        AgentProfile {
            name: self.name.clone(),
            email: self.email.clone(),
            password: self.password.clone(),
            region: self.region.clone(),
        }
    }
}

impl Payload for Ballot {
    fn duplicate(&self) -> (r: Self)
        ensures
            r == *self,
    {
        Ballot {
            title: self.title.clone(),
            description: self.description.clone(),
            created_by: self.created_by,
            created_at: self.created_at,
        }
    }
}

impl Payload for VoteItem {
    fn duplicate(&self) -> (r: Self)
        ensures
            r == *self,
    {
        VoteItem { ballot_name: self.ballot_name.clone(), vote_weight: self.vote_weight }
    }
}

/// The rule every update-link creation is held to, whatever the entity
/// kind: both ends of the link must resolve to records the store knows.
/// An unknown end is reported as `NotFound` — the hook cannot judge a link
/// whose records it cannot fetch.
pub fn validate_update_link<P: Payload>(
    record_store: &RecordStore<P>,
    base_address: Address,
    target_address: Address,
) -> (result: Result<ValidationOutcome, StoreError>)
    ensures
        base_address.0 < record_store.records().len() && target_address.0 < record_store.records().len()
            ==> result == Ok::<ValidationOutcome, StoreError>(ValidationOutcome::Valid),
        !(base_address.0 < record_store.records().len() && target_address.0 < record_store.records().len())
            ==> result == Err::<ValidationOutcome, StoreError>(StoreError::NotFound),
{
    if !record_store.knows(base_address) {
        return Err(StoreError::NotFound);
    }
    if !record_store.knows(target_address) {
        return Err(StoreError::NotFound);
    }
    Ok(ValidationOutcome::Valid)
}

/// Validation hook for creating an agent profile: every payload is accepted.
pub fn validate_create_agent_profile(_profile: &AgentProfile) -> (result: ValidationOutcome)
    ensures
        result == ValidationOutcome::Valid,
{
    ValidationOutcome::Valid
}

/// Validation hook for updating an agent profile: every update is accepted.
pub fn validate_update_agent_profile(
    _profile: &AgentProfile,
    _original_profile: &AgentProfile,
) -> (result: ValidationOutcome)
    ensures
        result == ValidationOutcome::Valid,
{
    ValidationOutcome::Valid
}

/// Validation hook for deleting an agent profile: every delete is accepted.
pub fn validate_delete_agent_profile(_original_profile: &AgentProfile) -> (result:
    ValidationOutcome)
    ensures
        result == ValidationOutcome::Valid,
{
    ValidationOutcome::Valid
}

/// Both ends of a profile-updates link must be known records.
pub fn validate_create_link_agent_profile_updates(
    record_store: &RecordStore<AgentProfile>,
    base_address: Address,
    target_address: Address,
) -> (result: Result<ValidationOutcome, StoreError>)
    ensures
        base_address.0 < record_store.records().len() && target_address.0 < record_store.records().len()
            ==> result == Ok::<ValidationOutcome, StoreError>(ValidationOutcome::Valid),
        !(base_address.0 < record_store.records().len() && target_address.0 < record_store.records().len())
            ==> result == Err::<ValidationOutcome, StoreError>(StoreError::NotFound),
{
    validate_update_link(record_store, base_address, target_address)
}

/// Profile-updates links are never deleted.
pub fn validate_delete_link_agent_profile_updates() -> (result: ValidationOutcome)
    ensures
        result matches ValidationOutcome::Invalid(reason) && reason@
            == "AgentProfileUpdates links cannot be deleted"@,
{
    ValidationOutcome::Invalid(String::from_str("AgentProfileUpdates links cannot be deleted"))
}

/// Validation hook for creating a ballot: every payload is accepted.
pub fn validate_create_ballot(_ballot: &Ballot) -> (result: ValidationOutcome)
    ensures
        result == ValidationOutcome::Valid,
{
    ValidationOutcome::Valid
}

/// Validation hook for updating a ballot: every update is accepted.
pub fn validate_update_ballot(_ballot: &Ballot, _original_ballot: &Ballot) -> (result:
    ValidationOutcome)
    ensures
        result == ValidationOutcome::Valid,
{
    ValidationOutcome::Valid
}

/// Validation hook for deleting a ballot: every delete is accepted.
pub fn validate_delete_ballot(_original_ballot: &Ballot) -> (result: ValidationOutcome)
    ensures
        result == ValidationOutcome::Valid,
{
    ValidationOutcome::Valid
}

/// Both ends of a ballot-updates link must be known records.
pub fn validate_create_link_ballot_updates(
    record_store: &RecordStore<Ballot>,
    base_address: Address,
    target_address: Address,
) -> (result: Result<ValidationOutcome, StoreError>)
    ensures
        base_address.0 < record_store.records().len() && target_address.0 < record_store.records().len()
            ==> result == Ok::<ValidationOutcome, StoreError>(ValidationOutcome::Valid),
        !(base_address.0 < record_store.records().len() && target_address.0 < record_store.records().len())
            ==> result == Err::<ValidationOutcome, StoreError>(StoreError::NotFound),
{
    validate_update_link(record_store, base_address, target_address)
}

/// Ballot-updates links are never deleted.
pub fn validate_delete_link_ballot_updates() -> (result: ValidationOutcome)
    ensures
        result matches ValidationOutcome::Invalid(reason) && reason@
            == "BallotUpdates links cannot be deleted"@,
{
    ValidationOutcome::Invalid(String::from_str("BallotUpdates links cannot be deleted"))
}

/// Validation hook for creating a vote item: every payload is accepted.
pub fn validate_create_vote_item(_vote_item: &VoteItem) -> (result: ValidationOutcome)
    ensures
        result == ValidationOutcome::Valid,
{
    ValidationOutcome::Valid
}

/// Validation hook for updating a vote item: every update is accepted.
pub fn validate_update_vote_item(_vote_item: &VoteItem, _original_vote_item: &VoteItem) -> (result:
    ValidationOutcome)
    ensures
        result == ValidationOutcome::Valid,
{
    ValidationOutcome::Valid
}

/// Validation hook for deleting a vote item: every delete is accepted.
pub fn validate_delete_vote_item(_original_vote_item: &VoteItem) -> (result: ValidationOutcome)
    ensures
        result == ValidationOutcome::Valid,
{
    ValidationOutcome::Valid
}

/// Both ends of a vote-item-updates link must be known records.
pub fn validate_create_link_vote_item_updates(
    record_store: &RecordStore<VoteItem>,
    base_address: Address,
    target_address: Address,
) -> (result: Result<ValidationOutcome, StoreError>)
    ensures
        base_address.0 < record_store.records().len() && target_address.0 < record_store.records().len()
            ==> result == Ok::<ValidationOutcome, StoreError>(ValidationOutcome::Valid),
        !(base_address.0 < record_store.records().len() && target_address.0 < record_store.records().len())
            ==> result == Err::<ValidationOutcome, StoreError>(StoreError::NotFound),
{
    validate_update_link(record_store, base_address, target_address)
}

/// Vote-item-updates links are never deleted.
pub fn validate_delete_link_vote_item_updates() -> (result: ValidationOutcome)
    ensures
        result matches ValidationOutcome::Invalid(reason) && reason@
            == "VoteItemUpdates links cannot be deleted"@,
{
    ValidationOutcome::Invalid(String::from_str("VoteItemUpdates links cannot be deleted"))
}

} // verus!
