//! Validation of the Git bundles that a workflow publishes as artifacts.

use std::sync::atomic::{AtomicBool, Ordering};

use vstd::prelude::*;

pub mod delta;
pub mod delta_laws;
pub mod encoding;
pub mod format_laws;
pub mod header;
pub mod laws;
pub mod object;
pub mod pack;
pub mod refusals;
pub mod resolve;
pub mod varint;

verus! {

/// The largest accepted bundle header, terminating blank line included.
pub const MAXIMUM_BUNDLE_HEADER_BYTES: usize = 1_048_576;

/// The largest accepted number of pack entries.
pub const MAXIMUM_PACK_ENTRIES: usize = 1_000_000;

/// The largest total of inflated and reconstructed bytes that one budget admits.
pub const MAXIMUM_INFLATED_GIT_BYTES: u64 = 4_294_967_296;

/// The longest accepted chain of deltas.
pub const MAXIMUM_DELTA_DEPTH: u8 = 64;

/// The length of the checksum that ends a pack.
pub const PACK_CHECKSUM_BYTES: u64 = 20;

/// Why a bundle was refused.
#[derive(Clone, Copy, Debug, PartialEq, Eq, Structural)]
pub enum GitArtifactFailure {
    Header,
    Profile,
    Pack,
    Checksum,
    Content,
    StructureLimit,
    Unavailable,
    Scratch,
    Interrupted,
}

/// The object identifiers that a bundle is expected to carry.
#[derive(Clone, Copy)]
pub struct GitArtifactDescriptor<'a> {
    pub base_oid: &'a str,
    pub head_oid: &'a str,
    pub tree_oid: &'a str,
}

/// The bytes that validation has inflated and reconstructed so far, over every
/// bundle checked against the same budget.
pub struct GitArtifactValidationBudget {
    inflated_bytes: u64,
    scratch_bytes: u64,
}

impl GitArtifactValidationBudget {
    #[verifier::type_invariant]
    spec fn within_limit(&self) -> bool {
        self.inflated_bytes == self.scratch_bytes && self.inflated_bytes
            <= MAXIMUM_INFLATED_GIT_BYTES
    }

    /// The number of bytes charged so far as inflated.
    pub closed spec fn used(&self) -> int {
        self.inflated_bytes as int
    }

    /// The number of bytes charged so far as kept.
    pub closed spec fn scratch(&self) -> int {
        self.scratch_bytes as int
    }

    /// The number of bytes charged so far.
    pub fn used_bytes(&self) -> (used: u64)
        ensures
            used == self.used(),
            used == self.scratch(),
            used <= MAXIMUM_INFLATED_GIT_BYTES,
    {
        proof {
            use_type_invariant(self);
        }
        self.inflated_bytes
    }

    /// Charges the bytes that inflating a pack entry produced.
    pub fn add_inflated(&mut self, bytes: u64) -> (charged: Result<(), GitArtifactFailure>)
        ensures
            charged is Ok <==> old(self).used() + bytes <= MAXIMUM_INFLATED_GIT_BYTES,
            charged is Ok ==> final(self).used() == old(self).used() + bytes,
            final(self).scratch() == final(self).used(),
            charged matches Err(failure) ==> failure == GitArtifactFailure::StructureLimit
                && final(self).used() == old(self).used(),
    {
        proof {
            use_type_invariant(&*self);
        }
        let inflated_bytes: u64 = bounded_add(self.inflated_bytes, bytes)?;
        let scratch_bytes: u64 = bounded_add(self.scratch_bytes, bytes)?;
        *self = GitArtifactValidationBudget { inflated_bytes, scratch_bytes };
        Ok(())
    }

    /// Charges the bytes that applying a delta reconstructs.
    pub fn add_reconstructed(&mut self, bytes: u64) -> (charged: Result<(), GitArtifactFailure>)
        ensures
            charged is Ok <==> old(self).used() + bytes <= MAXIMUM_INFLATED_GIT_BYTES,
            charged is Ok ==> final(self).used() == old(self).used() + bytes,
            final(self).scratch() == final(self).used(),
            charged matches Err(failure) ==> failure == GitArtifactFailure::StructureLimit
                && final(self).used() == old(self).used(),
    {
        proof {
            use_type_invariant(&*self);
        }
        let inflated_bytes: u64 = bounded_add(self.inflated_bytes, bytes)?;
        let scratch_bytes: u64 = bounded_add(self.scratch_bytes, bytes)?;
        *self = GitArtifactValidationBudget { inflated_bytes, scratch_bytes };
        Ok(())
    }
}

impl Default for GitArtifactValidationBudget {
    fn default() -> (budget: Self)
        ensures
            budget.used() == 0,
            budget.scratch() == 0,
    {
        GitArtifactValidationBudget { inflated_bytes: 0, scratch_bytes: 0 }
    }
}

/// The sum of `current` and `bytes`, where it stays within the byte limit.
pub fn bounded_add(current: u64, bytes: u64) -> (total: Result<u64, GitArtifactFailure>)
    ensures
        total is Ok <==> current + bytes <= MAXIMUM_INFLATED_GIT_BYTES,
        total matches Ok(sum) ==> sum == current + bytes,
        total matches Err(failure) ==> failure == GitArtifactFailure::StructureLimit,
{
    match current.checked_add(bytes) {
        Some(total) if total <= MAXIMUM_INFLATED_GIT_BYTES => Ok(total),
        _ => Err(GitArtifactFailure::StructureLimit),
    }
}

/// Whether validation goes on, given what a poll of the cancellation flag saw.
pub fn interruption(cancelled: bool) -> (outcome: Result<(), GitArtifactFailure>)
    ensures
        outcome == (if cancelled {
            Err(GitArtifactFailure::Interrupted)
        } else {
            Ok(())
        }),
{
    if cancelled {
        Err(GitArtifactFailure::Interrupted)
    } else {
        Ok(())
    }
}

/// Whether `seen` came back from an acquiring load of the flag.
pub open spec fn polled(flag: &AtomicBool, seen: bool) -> bool {
    call_ensures(AtomicBool::load, (flag, Ordering::Acquire), seen)
}

/// Whether an outcome is an interruption.
pub open spec fn is_interruption<T>(outcome: Result<T, GitArtifactFailure>) -> bool {
    outcome matches Err(failure) && failure == GitArtifactFailure::Interrupted
}

/// Whether validation ended because a load saw the cancellation flag set.
pub open spec fn interrupted(cancelled: Option<&AtomicBool>, failure: GitArtifactFailure) -> bool {
    cancelled matches Some(flag) && polled(flag, true) && failure
        == GitArtifactFailure::Interrupted
}

/// Whether a load of the cancellation flag, where there is one, bears an outcome out: it
/// saw the flag set exactly if the outcome is an interruption.
pub open spec fn bears_out<T>(
    cancelled: Option<&AtomicBool>,
    outcome: Result<T, GitArtifactFailure>,
) -> bool {
    match cancelled {
        Some(flag) => polled(flag, is_interruption(outcome)),
        None => !is_interruption(outcome),
    }
}

/// Polls the cancellation flag: validation is interrupted exactly if the load saw it
/// set. Without a flag validation is never interrupted. What a load of a flag sees is
/// up to the thread that sets it, so nothing is said of that.
pub fn check_cancelled(cancelled: Option<&AtomicBool>) -> (outcome: Result<
    (),
    GitArtifactFailure,
>)
    ensures
        match cancelled {
            Some(flag) => polled(flag, outcome is Err),
            None => outcome is Ok,
        },
        outcome matches Err(failure) ==> failure == GitArtifactFailure::Interrupted,
{
    match cancelled {
        Some(flag) => interruption(flag.load(Ordering::Acquire)),
        None => Ok(()),
    }
}

} // verus!
