//! The admin service: projections of the credential pool and the operations
//! that an operator performs on it.
use std::sync::Arc;
use vstd::prelude::*;
use vstd::string::to_string_from_display_ensures;
use crate::classify::{balance_error_of, classify_balance_message, classify_message, simple_error_of};
use crate::types::{
    status_item_of, AdminServiceError, CredentialEntry, CredentialSnapshot, CredentialStatusItem,
    CredentialsStatusResponse, ErrorView,
};

verus! {

/// Declares anyhow::Error, with which the credential pool reports failures; it is
/// only carried through, and read by its `to_string`.
#[verifier::external_type_specification]
#[verifier::external_body]
pub struct ExAnyhowError(anyhow::Error);

/// The credential pool that the admin service works on. It keeps the credentials,
/// performs rotation and synchronises its own state.
pub trait CredentialPool {
    /// A fresh point-in-time copy of the pool.
    fn snapshot(&self) -> CredentialSnapshot;

    fn set_disabled(&self, index: usize, disabled: bool) -> Result<(), anyhow::Error>;

    fn set_priority(&self, index: usize, priority: u32) -> Result<(), anyhow::Error>;

    /// Clears the failure count of a credential and enables it.
    fn reset_and_enable(&self, index: usize) -> Result<(), anyhow::Error>;

    /// Makes another enabled credential the active one.
    fn switch_to_next(&self) -> Result<(), anyhow::Error>;
}

/// `r` shows the snapshot `s`: its counters, and one item per entry, in order.
pub open spec fn is_status_of(r: CredentialsStatusResponse, s: CredentialSnapshot) -> bool {
    &&& r.total == s.total
    &&& r.available == s.available
    &&& r.current_index == s.current_index
    &&& r.credentials@ == s.entries@.map_values(
        |e: CredentialEntry| status_item_of(e, s.current_index),
    )
}

/// Exactly one of `items` is marked as the active credential.
pub open spec fn exactly_one_current(items: Seq<CredentialStatusItem>) -> bool {
    exists|i: int|
        0 <= i < items.len() && items[i].is_current && forall|j: int|
            0 <= j < items.len() && j != i ==> !#[trigger] items[j].is_current
}

/// No two entries share an index.
pub open spec fn indices_unique(entries: Seq<CredentialEntry>) -> bool {
    forall|i: int, j: int|
        0 <= i < entries.len() && 0 <= j < entries.len() && i != j ==> entries[i].index
            != entries[j].index
}

/// `r` reports the outcome of a pool mutation of credential `index` in a pool of
/// `total` credentials: `Ok` exactly when the pool succeeded, and otherwise the
/// classification of the message that the pool's error displays.
pub open spec fn mutation_reported(
    outcome: Result<(), anyhow::Error>,
    index: usize,
    total: usize,
    r: Result<(), AdminServiceError>,
) -> bool {
    match outcome {
        Ok(()) => r is Ok,
        Err(e) => match r {
            Ok(()) => false,
            Err(err) => exists|m: String|
                to_string_from_display_ensures::<anyhow::Error>(&e, m) && err@ == simple_error_of(
                    m@,
                    index,
                    total,
                ),
        },
    }
}

/// Disabling the active credential calls for a switch to another one.
pub open spec fn failover_needed(index: usize, disabled: bool, current_index: usize) -> bool {
    disabled && index == current_index
}

/// Builds the operator's view of a snapshot.
pub fn status_response(snapshot: CredentialSnapshot) -> (r: CredentialsStatusResponse)
    ensures
        is_status_of(r, snapshot),
{
    let ghost snap = snapshot;
    let current = snapshot.current_index;
    let mut credentials: Vec<CredentialStatusItem> = Vec::new();
    for entry in it: snapshot.entries.into_iter()
        invariant
            it.seq() == snap.entries@,
            current == snap.current_index,
            credentials@ == snap.entries@.take(it.index() as int).map_values(
                |e: CredentialEntry| status_item_of(e, current),
            ),
    {
        proof {
            assert(snap.entries@.take(it.index() + 1) =~= snap.entries@.take(
                it.index() as int,
            ).push(entry));
        }
        let item = CredentialStatusItem {
            index: entry.index,
            priority: entry.priority,
            disabled: entry.disabled,
            failure_count: entry.failure_count,
            is_current: entry.index == current,
            expires_at: entry.expires_at,
            auth_method: entry.auth_method,
            has_profile_arn: entry.has_profile_arn,
        };
        credentials.push(item);
        proof {
            assert(credentials@ =~= snap.entries@.take(it.index() + 1).map_values(
                |e: CredentialEntry| status_item_of(e, current),
            ));
        }
    }
    proof {
        assert(snap.entries@.take(snap.entries@.len() as int) =~= snap.entries@);
    }
    CredentialsStatusResponse {
        total: snapshot.total,
        available: snapshot.available,
        current_index: current,
        credentials,
    }
}

/// Whether disabling credential `index` while `current_index` is active calls
/// for a switch to another credential.
pub fn needs_failover(index: usize, disabled: bool, current_index: usize) -> (r: bool)
    ensures
        r == failover_needed(index, disabled, current_index),
{
    disabled && index == current_index
}

/// The admin service over a credential pool. It keeps no state of its own: every
/// operation reads a fresh snapshot of the pool.
pub struct AdminService<P: CredentialPool> {
    token_manager: Arc<P>,
}

impl<P: CredentialPool> AdminService<P> {
    pub fn new(token_manager: Arc<P>) -> (r: Self)
        ensures
            r.pool() == token_manager,
    {
        AdminService { token_manager }
    }

    /// The pool this service works on.
    pub closed spec fn pool(&self) -> Arc<P> {
        self.token_manager
    }

    /// The pool this service works on.
    pub fn token_manager(&self) -> (r: &Arc<P>)
        ensures
            *r == self.pool(),
    {
        &self.token_manager
    }

    /// The status of every credential, read from one snapshot.
    pub fn get_all_credentials(&self) -> (r: CredentialsStatusResponse)
        ensures
            exists|s: CredentialSnapshot| is_status_of(r, s),
            forall|i: int|
                0 <= i < r.credentials@.len() ==> (#[trigger] r.credentials@[i]).is_current == (
                r.credentials@[i].index == r.current_index),
    {
        let snapshot = self.token_manager.snapshot();
        let ghost snap = snapshot;
        let r = status_response(snapshot);
        proof {
            assert(is_status_of(r, snap));
            assert forall|i: int| 0 <= i < r.credentials@.len() implies (
            #[trigger] r.credentials@[i]).is_current == (r.credentials@[i].index
                == r.current_index) by {
                assert(r.credentials@[i] == status_item_of(snap.entries@[i], snap.current_index));
            }
        }
        r
    }

    /// Disables or enables credential `index`. The result reports the pool's own
    /// mutation alone. When the active credential is disabled, the pool is then
    /// asked to switch to another one; that switch is best effort, and its failure
    /// (no other credential left, say) does not fail the operation.
    pub fn set_disabled(&self, index: usize, disabled: bool) -> (r: Result<(), AdminServiceError>)
        ensures
            exists|outcome: Result<(), anyhow::Error>, total: usize|
                mutation_reported(outcome, index, total, r),
    {
        let snapshot = self.token_manager.snapshot();
        let current_index = snapshot.current_index;
        let total = snapshot.total;
        let outcome = self.token_manager.set_disabled(index, disabled);
        let ghost seen = outcome;
        let result = self.report_mutation(outcome, index, total);
        if result.is_ok() && needs_failover(index, disabled, current_index) {
            // Best effort: the credential is disabled whether or not another can
            // take over, so what the switch returns is dropped.
            let _ = self.token_manager.switch_to_next();
        }
        proof {
            assert(mutation_reported(seen, index, total, result));
        }
        result
    }

    pub fn set_priority(&self, index: usize, priority: u32) -> (r: Result<(), AdminServiceError>)
        ensures
            exists|outcome: Result<(), anyhow::Error>, total: usize|
                mutation_reported(outcome, index, total, r),
    {
        let total = self.token_manager.snapshot().total;
        let outcome = self.token_manager.set_priority(index, priority);
        let ghost seen = outcome;
        let result = self.report_mutation(outcome, index, total);
        proof {
            assert(mutation_reported(seen, index, total, result));
        }
        result
    }

    /// Clears the failure count of credential `index` and enables it.
    pub fn reset_and_enable(&self, index: usize) -> (r: Result<(), AdminServiceError>)
        ensures
            exists|outcome: Result<(), anyhow::Error>, total: usize|
                mutation_reported(outcome, index, total, r),
    {
        let total = self.token_manager.snapshot().total;
        let outcome = self.token_manager.reset_and_enable(index);
        let ghost seen = outcome;
        let result = self.report_mutation(outcome, index, total);
        proof {
            assert(mutation_reported(seen, index, total, result));
        }
        result
    }

    /// Reports the outcome of a mutation of credential `index` in a pool of
    /// `total` credentials: success stays success, and a failure is classified
    /// by its message.
    pub fn report_mutation(&self, outcome: Result<(), anyhow::Error>, index: usize, total: usize) -> (r:
        Result<(), AdminServiceError>)
        ensures
            mutation_reported(outcome, index, total, r),
    {
        match outcome {
            Ok(()) => Ok(()),
            Err(e) => Err(self.classify_error(e, index, total)),
        }
    }

    /// Classifies a failure of an in-pool operation by its message.
    pub fn classify_error(&self, e: anyhow::Error, index: usize, total: usize) -> (r:
        AdminServiceError)
        ensures
            exists|m: String|
                to_string_from_display_ensures::<anyhow::Error>(&e, m) && r@ == simple_error_of(
                    m@,
                    index,
                    total,
                ),
    {
        let msg = e.to_string();
        let ghost text = msg;
        let r = classify_message(msg, index, total);
        proof {
            assert(to_string_from_display_ensures::<anyhow::Error>(&e, text));
        }
        r
    }

    /// Classifies a failure of a balance query by its message.
    pub fn classify_balance_error(&self, e: anyhow::Error, index: usize, total: usize) -> (r:
        AdminServiceError)
        ensures
            exists|m: String|
                to_string_from_display_ensures::<anyhow::Error>(&e, m) && r@ == balance_error_of(
                    m@,
                    index,
                    total,
                ),
    {
        let msg = e.to_string();
        let ghost text = msg;
        let r = classify_balance_message(msg, index, total);
        proof {
            assert(to_string_from_display_ensures::<anyhow::Error>(&e, text));
        }
        r
    }
}

/// With unique credential indices, exactly one credential is shown as the active
/// one if and only if some credential carries the snapshot's current index.
pub proof fn lemma_single_current(s: CredentialSnapshot, r: CredentialsStatusResponse)
    requires
        indices_unique(s.entries@),
        is_status_of(r, s),
    ensures
        exactly_one_current(r.credentials@) <==> exists|i: int|
            0 <= i < s.entries@.len() && (#[trigger] s.entries@[i]).index == s.current_index,
{
    let items = r.credentials@;
    assert forall|i: int| 0 <= i < items.len() implies (#[trigger] items[i]).is_current == (
    s.entries@[i].index == s.current_index) by {}
    if exists|i: int| 0 <= i < s.entries@.len() && (#[trigger] s.entries@[i]).index == s.current_index {
        let i = choose|i: int|
            0 <= i < s.entries@.len() && (#[trigger] s.entries@[i]).index == s.current_index;
        assert(items[i].is_current);
        assert forall|j: int| 0 <= j < items.len() && j != i implies !#[trigger] items[j].is_current by {
            assert(s.entries@[j].index != s.entries@[i].index);
        }
    }
    if exactly_one_current(items) {
        let i = choose|i: int|
            0 <= i < items.len() && items[i].is_current && forall|j: int|
                0 <= j < items.len() && j != i ==> !#[trigger] items[j].is_current;
        assert(s.entries@[i].index == s.current_index);
    }
}

} // verus!
