//! The check that the invoking project declares the `client` and `server`
//! capabilities, and the process-wide memo of its result.
use vstd::prelude::*;

verus! {

/// What reading the invoking project's manifest gave.
#[derive(Clone, Copy, Debug, PartialEq, Eq, Structural)]
pub enum ManifestRead {
    /// The project's root, where the manifest lies, is not known.
    NoProjectRoot,
    /// The manifest could not be read.
    Unreadable,
    /// The manifest is not structured configuration with a feature table.
    Malformed,
    /// The manifest's feature table, by whether it declares each capability.
    Features { client: bool, server: bool },
}

/// Why the capability check failed.
#[derive(Clone, Copy, Debug, PartialEq, Eq, Structural)]
pub enum CapabilityError {
    /// The manifest could not be located: the project's root is not known.
    UnknownProjectRoot,
    /// The manifest could not be read.
    Io,
    /// The manifest could not be parsed.
    Format,
    /// No `client` capability: outgoing requests and incoming responses
    /// could not be enabled.
    MissingClient,
    /// No `server` capability: incoming requests and outgoing responses
    /// could not be enabled.
    MissingServer,
}

/// The outcome of the check on what the manifest gave.
pub open spec fn capability_outcome(m: ManifestRead) -> Result<(), CapabilityError> {
    match m {
        ManifestRead::NoProjectRoot => Err(CapabilityError::UnknownProjectRoot),
        ManifestRead::Unreadable => Err(CapabilityError::Io),
        ManifestRead::Malformed => Err(CapabilityError::Format),
        ManifestRead::Features { client, server } => {
            if !client {
                Err(CapabilityError::MissingClient)
            } else if !server {
                Err(CapabilityError::MissingServer)
            } else {
                Ok(())
            }
        },
    }
}

/// Decides the capability check from what the manifest gave.
pub fn check_capabilities(m: ManifestRead) -> (r: Result<(), CapabilityError>)
    ensures
        r == capability_outcome(m),
{
    match m {
        ManifestRead::NoProjectRoot => Err(CapabilityError::UnknownProjectRoot),
        ManifestRead::Unreadable => Err(CapabilityError::Io),
        ManifestRead::Malformed => Err(CapabilityError::Format),
        ManifestRead::Features { client, server } => {
            if !client {
                Err(CapabilityError::MissingClient)
            } else if !server {
                Err(CapabilityError::MissingServer)
            } else {
                Ok(())
            }
        },
    }
}

/// The result of a check through a memo holding `memo`, and what the memo
/// holds afterwards: the first result is kept, whatever later reads give.
pub open spec fn memo_step(memo: Option<Result<(), CapabilityError>>, m: ManifestRead) -> (Result<(), CapabilityError>, Option<Result<(), CapabilityError>>) {
    match memo {
        Some(r) => (r, memo),
        None => (capability_outcome(m), Some(capability_outcome(m))),
    }
}

/// A memo of the capability check, computed on first use.
pub struct CapabilityCache {
    pub result: Option<Result<(), CapabilityError>>,
}

impl CapabilityCache {
    /// An empty memo.
    pub fn new() -> (r: CapabilityCache)
        ensures
            r.result is None,
    {
        CapabilityCache { result: None }
    }

    /// The memoized result, if the check has run.
    pub fn cached(&self) -> (r: Option<Result<(), CapabilityError>>)
        ensures
            r == self.result,
    {
        self.result
    }

    /// The check's result: the memoized one if there is one, otherwise the
    /// outcome on `m`, which is then memoized.
    pub fn check(&mut self, m: ManifestRead) -> (r: Result<(), CapabilityError>)
        ensures
            (r, final(self).result) == memo_step(old(self).result, m),
    {
        match self.result {
            Some(r) => r,
            None => {
                let r = check_capabilities(m);
                self.result = Some(r);
                r
            },
        }
    }
}

/// Two checks in a row through one memo give the same result, even when
/// the manifest read differently in between.
pub proof fn lemma_memo_is_stable(memo: Option<Result<(), CapabilityError>>, m1: ManifestRead, m2: ManifestRead)
    ensures
        memo_step(memo_step(memo, m1).1, m2).0 == memo_step(memo, m1).0,
{
}

} // verus!
