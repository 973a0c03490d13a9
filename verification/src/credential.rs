//! The life of a credential file, from its unlocking to the removal of what
//! the unlocking left on disk.

use vstd::prelude::*;

verus! {

/// Where a credential file stands.
#[derive(Debug, Clone, Copy, PartialEq, Eq, Structural)]
pub enum CredentialLifecycle {
    /// Only the encrypted file is on disk.
    Locked,
    /// The decryption tool is running.
    Unlocking,
    /// The decrypted file is on disk, and its removal is scheduled.
    Unlocked,
    /// The decrypted file has been removed.
    Deleted,
    /// The decryption tool failed; nothing was decrypted.
    Failed,
}

/// What happens to a credential file.
#[derive(Debug, Clone, Copy, PartialEq, Eq, Structural)]
pub enum CredentialEvent {
    /// The decryption tool was started.
    Attempt,
    /// The decryption tool succeeded.
    Decrypted,
    /// The decryption tool failed or could not be started.
    DecryptFailed,
    /// The delay has passed and the decrypted file was removed.
    Removed,
}

impl CredentialLifecycle {
    /// The state that `event` leads to from `self`, if `event` can happen
    /// there at all.
    pub open spec fn after(self, event: CredentialEvent) -> Option<CredentialLifecycle> {
        match (self, event) {
            (CredentialLifecycle::Locked, CredentialEvent::Attempt) => Some(
                CredentialLifecycle::Unlocking,
            ),
            (CredentialLifecycle::Unlocking, CredentialEvent::Decrypted) => Some(
                CredentialLifecycle::Unlocked,
            ),
            (CredentialLifecycle::Unlocking, CredentialEvent::DecryptFailed) => Some(
                CredentialLifecycle::Failed,
            ),
            (CredentialLifecycle::Unlocked, CredentialEvent::Removed) => Some(
                CredentialLifecycle::Deleted,
            ),
            _ => None,
        }
    }

    /// Whether nothing can happen any more.
    pub open spec fn is_final(self) -> bool {
        self == CredentialLifecycle::Deleted || self == CredentialLifecycle::Failed
    }

    /// Whether a decrypted file is on disk, waiting for its removal.
    pub open spec fn awaits_deletion(self) -> bool {
        self == CredentialLifecycle::Unlocked
    }

    /// The state that `event` leads to, or `None` where `event` cannot
    /// happen in this state.
    pub fn on(self, event: CredentialEvent) -> (r: Option<CredentialLifecycle>)
        ensures
            r == self.after(event),
    {
        match (self, event) {
            (CredentialLifecycle::Locked, CredentialEvent::Attempt) => Some(
                CredentialLifecycle::Unlocking,
            ),
            (CredentialLifecycle::Unlocking, CredentialEvent::Decrypted) => Some(
                CredentialLifecycle::Unlocked,
            ),
            (CredentialLifecycle::Unlocking, CredentialEvent::DecryptFailed) => Some(
                CredentialLifecycle::Failed,
            ),
            (CredentialLifecycle::Unlocked, CredentialEvent::Removed) => Some(
                CredentialLifecycle::Deleted,
            ),
            _ => None,
        }
    }

    /// Whether nothing can happen any more.
    pub fn is_terminal(&self) -> (r: bool)
        ensures
            r == self.is_final(),
    {
        match self {
            CredentialLifecycle::Deleted => true,
            CredentialLifecycle::Failed => true,
            _ => false,
        }
    }
}

/// Nothing leads out of a final state, and every other state has an event
/// that leads on.
pub proof fn lemma_final_states(state: CredentialLifecycle)
    ensures
        state.is_final() <==> forall|event: CredentialEvent| state.after(event) is None,
{
    if !state.is_final() {
        let event = match state {
            CredentialLifecycle::Locked => CredentialEvent::Attempt,
            CredentialLifecycle::Unlocking => CredentialEvent::Decrypted,
            _ => CredentialEvent::Removed,
        };
        assert(state.after(event) is Some);
    }
}

/// Once the decrypted file is on disk, the only thing that can happen is
/// its removal: a scheduled removal cannot be called off.
pub proof fn lemma_no_cancellation(event: CredentialEvent)
    ensures
        CredentialLifecycle::Unlocked.after(event) is Some ==> event == CredentialEvent::Removed
            && CredentialLifecycle::Unlocked.after(event) == Some(CredentialLifecycle::Deleted),
{
}

/// A file is removed only after it was decrypted, and a failure is
/// recorded only while the tool runs.
pub proof fn lemma_way_into_final_states(state: CredentialLifecycle, event: CredentialEvent)
    ensures
        state.after(event) == Some(CredentialLifecycle::Deleted) ==> state
            == CredentialLifecycle::Unlocked && event == CredentialEvent::Removed,
        state.after(event) == Some(CredentialLifecycle::Failed) ==> state
            == CredentialLifecycle::Unlocking && event == CredentialEvent::DecryptFailed,
{
}

} // verus!
