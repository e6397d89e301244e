//! API keys in the OS keychain, with a soft fallback to the settings
//! document. The keychain calls are the caller's; this module turns their
//! outcomes into the availability flag and decides what to read, write
//! and strip.
use vstd::prelude::*;

verus! {

/// Service name under which the keys are stored.
pub const KEYRING_SERVICE: &'static str = "dev.boothe.boothrflow";
/// Account of the cleanup LLM's key.
pub const KEYRING_LLM_ACCOUNT: &'static str = "llm_api_key";
/// Account of the embedding endpoint's key.
pub const KEYRING_EMBED_ACCOUNT: &'static str = "embed_api_key";

/// Keychain availability, decided by the first probe.
#[derive(Debug, Clone, Copy, PartialEq, Eq, Structural)]
pub enum KeychainStatus {
    /// Not probed yet.
    Unknown,
    /// Secrets live in the OS keychain.
    Available,
    /// No backend: secrets stay in the settings document.
    Unavailable,
}

/// How a keychain call ended, as far as the decisions here need.
#[derive(Debug, Clone, Copy, PartialEq, Eq, Structural)]
pub enum KeychainError {
    /// No value stored for the account.
    NoEntry,
    /// The platform backend failed.
    PlatformFailure,
    /// The store exists but cannot be accessed.
    NoStorageAccess,
    /// Any other error.
    Other,
}

/// The probe: opening a sentinel entry, then reading it.
#[derive(Debug, Clone, Copy, PartialEq, Eq, Structural)]
pub enum ProbeOutcome {
    /// The entry could not even be constructed.
    EntryFailed,
    /// The read returned a value.
    Read,
    /// The read failed.
    ReadFailed(KeychainError),
}

/// The backend counts as reachable unless the entry cannot be built or
/// the read reports a platform failure or no storage access.
pub open spec fn classify_spec(o: ProbeOutcome) -> KeychainStatus {
    match o {
        ProbeOutcome::EntryFailed => KeychainStatus::Unavailable,
        ProbeOutcome::Read => KeychainStatus::Available,
        ProbeOutcome::ReadFailed(e) => match e {
            KeychainError::PlatformFailure | KeychainError::NoStorageAccess => KeychainStatus::Unavailable,
            KeychainError::NoEntry | KeychainError::Other => KeychainStatus::Available,
        },
    }
}

pub fn classify_probe(o: ProbeOutcome) -> (s: KeychainStatus)
    ensures
        s == classify_spec(o),
{
    match o {
        ProbeOutcome::EntryFailed => KeychainStatus::Unavailable,
        ProbeOutcome::Read => KeychainStatus::Available,
        ProbeOutcome::ReadFailed(e) => match e {
            KeychainError::PlatformFailure | KeychainError::NoStorageAccess => KeychainStatus::Unavailable,
            KeychainError::NoEntry | KeychainError::Other => KeychainStatus::Available,
        },
    }
}

/// The availability flag, probed once per process.
#[derive(Debug)]
pub struct KeychainCache {
    pub status: KeychainStatus,
}

impl KeychainCache {
    pub fn new() -> (c: KeychainCache)
        ensures
            c.status == KeychainStatus::Unknown,
    {
        KeychainCache { status: KeychainStatus::Unknown }
    }

    /// Whether the caller still has to run the probe.
    pub fn needs_probe(&self) -> (b: bool)
        ensures
            b == (self.status == KeychainStatus::Unknown),
    {
        match self.status {
            KeychainStatus::Unknown => true,
            _ => false,
        }
    }
}

/// The cached status after a call: a known status stays; an unknown one
/// takes the probe's verdict, if a probe was run.
pub open spec fn status_after(status: KeychainStatus, probe: Option<ProbeOutcome>) -> KeychainStatus {
    if status != KeychainStatus::Unknown {
        status
    } else {
        match probe {
            Some(o) => classify_spec(o),
            None => KeychainStatus::Unknown,
        }
    }
}

/// The keychain's availability: the first probe's verdict is kept, and
/// later probes change nothing.
pub fn keychain_status(cache: &mut KeychainCache, probe: Option<ProbeOutcome>) -> (s: KeychainStatus)
    ensures
        final(cache).status == status_after(old(cache).status, probe),
        s == final(cache).status,
{
    if cache.needs_probe() {
        if let Some(o) = probe {
            cache.status = classify_probe(o);
        }
    }
    cache.status
}

/// When the caller runs the probe whenever `needs_probe` asks for it, the
/// status is never unknown afterwards, and every later call answers the
/// same, whatever it is handed: the backend is probed at most once.
pub proof fn keychain_status_settles(status: KeychainStatus, probe: Option<ProbeOutcome>, later: Option<ProbeOutcome>)
    requires
        status == KeychainStatus::Unknown ==> probe is Some,
    ensures
        status_after(status, probe) != KeychainStatus::Unknown,
        status_after(status_after(status, probe), later) == status_after(status, probe),
{
}

/// Reads and writes go to the keychain unless it is known to be missing.
pub fn use_keychain(status: KeychainStatus) -> (b: bool)
    ensures
        b == (status != KeychainStatus::Unavailable),
{
    match status {
        KeychainStatus::Unavailable => false,
        _ => true,
    }
}

/// Secrets are stripped from the settings document only when the keychain
/// is the authoritative store.
pub fn strip_from_json(status: KeychainStatus) -> (b: bool)
    ensures
        b == (status == KeychainStatus::Available),
{
    match status {
        KeychainStatus::Available => true,
        _ => false,
    }
}

/// A read gives the stored value, or `None` when there is none or the
/// read failed (the caller then falls back to the settings document).
pub fn read_result(r: Result<String, KeychainError>) -> (v: Option<String>)
    ensures
        match r {
            Ok(s) => v == Some(s),
            Err(_) => v is None,
        },
{
    match r {
        Ok(s) => Some(s),
        Err(_) => None,
    }
}

/// What a write does to the account.
#[derive(Debug)]
pub enum WriteAction {
    /// Store this value.
    Store(String),
    /// Remove the entry.
    Delete,
}

/// A non-empty value is stored; an empty or absent one deletes the entry.
pub fn write_action(value: Option<&str>) -> (a: WriteAction)
    ensures
        match value {
            Some(v) if v@.len() > 0 => a matches WriteAction::Store(s) && s@ == v@,
            _ => a is Delete,
        },
{
    match value {
        Some(v) => {
            if v.is_empty() {
                WriteAction::Delete
            } else {
                WriteAction::Store(v.to_string())
            }
        },
        None => WriteAction::Delete,
    }
}

} // verus!
