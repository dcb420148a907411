//! Choosing a backend and planning a retrieval or follow session on it.
use vstd::prelude::*;
use crate::entry::RMesgError;
use crate::text::chars_of;

verus! {

/// The backend a caller asks for.
#[derive(Clone, Copy, Debug, PartialEq, Eq, Structural)]
pub enum Backend {
    /// The structured device when it can be used, else the ring buffer.
    Default,
    /// The ring buffer, through the kernel's log control call.
    KLogCtl,
    /// The structured kernel message device.
    DevKMsg,
}

/// What opening the structured device found.
#[derive(Clone, Copy, Debug, PartialEq, Eq, Structural)]
pub enum DeviceProbe {
    Available,
    Missing,
    Forbidden,
}

/// The backend used for a request, given what the device probe found.
pub open spec fn selection(requested: Backend, probe: DeviceProbe) -> Result<Backend, RMesgError> {
    match (requested, probe) {
        (Backend::KLogCtl, _) => Ok(Backend::KLogCtl),
        (_, DeviceProbe::Available) => Ok(Backend::DevKMsg),
        (Backend::Default, _) => Ok(Backend::KLogCtl),
        (_, DeviceProbe::Missing) => Err(RMesgError::BackendUnavailable),
        (_, DeviceProbe::Forbidden) => Err(RMesgError::PermissionDenied),
    }
}

/// Picks the concrete backend. Automatic selection prefers the structured
/// device and falls back to the ring buffer when the device is missing or
/// forbidden; an explicit request for the device fails in those cases.
pub fn select_backend(requested: Backend, probe: DeviceProbe) -> (r: Result<Backend, RMesgError>)
    ensures
        r == selection(requested, probe),
        r matches Ok(b) ==> b != Backend::Default,
{
    match (requested, probe) {
        (Backend::KLogCtl, _) => Ok(Backend::KLogCtl),
        (_, DeviceProbe::Available) => Ok(Backend::DevKMsg),
        (Backend::Default, _) => Ok(Backend::KLogCtl),
        (_, DeviceProbe::Missing) => Err(RMesgError::BackendUnavailable),
        (_, DeviceProbe::Forbidden) => Err(RMesgError::PermissionDenied),
    }
}

/// How a session runs on its backend.
#[derive(Clone, Copy, Debug, PartialEq, Eq, Structural)]
pub struct SessionPlan {
    /// The backend, never `Default`.
    pub backend: Backend,
    /// Whether the session starts at the end of the device's backlog.
    pub skip_backlog: bool,
    /// Whether the ring buffer is cleared after a successful full read.
    pub clear_after_read: bool,
}

/// Plans a session. The clear flag empties the ring buffer after a full read;
/// the structured device cannot be emptied, so there it makes a follow
/// session start past the backlog instead, and a one-shot read is unaffected.
pub fn plan_session(requested: Backend, probe: DeviceProbe, follow: bool, clear: bool) -> (r: Result<
    SessionPlan,
    RMesgError,
>)
    ensures
        match selection(requested, probe) {
            Ok(b) => r == Ok::<SessionPlan, RMesgError>(
                SessionPlan {
                    backend: b,
                    skip_backlog: b == Backend::DevKMsg && follow && clear,
                    clear_after_read: b == Backend::KLogCtl && clear,
                },
            ),
            Err(e) => r == Err::<SessionPlan, RMesgError>(e),
        },
{
    match select_backend(requested, probe) {
        Ok(b) => {
            let device = match b {
                Backend::DevKMsg => true,
                _ => false,
            };
            Ok(
                SessionPlan {
                    backend: b,
                    skip_backlog: device && follow && clear,
                    clear_after_read: !device && clear,
                },
            )
        },
        Err(e) => Err(e),
    }
}

/// Whether two strings hold the same characters.
fn same_text(a: &str, b: &str) -> (r: bool)
    ensures
        r == (a@ == b@),
{
    let x = chars_of(a);
    let y = chars_of(b);
    if x.len() != y.len() {
        return false;
    }
    let mut i: usize = 0;
    while i < x.len()
        invariant
            x@ == a@,
            y@ == b@,
            x@.len() == y@.len(),
            i <= x@.len(),
            forall|j: int| 0 <= j < i ==> x@[j] == y@[j],
        decreases x.len() - i,
    {
        if x[i] != y[i] {
            assert(x@[i as int] != y@[i as int]);
            return false;
        }
        i = i + 1;
    }
    assert(x@ =~= y@);
    true
}

/// The backend a command-line name stands for: none given means `Default`.
pub open spec fn backend_named(name: Option<Seq<char>>) -> Option<Backend> {
    match name {
        None => Some(Backend::Default),
        Some(n) => if n == "klogctl"@ {
            Some(Backend::KLogCtl)
        } else if n == "devkmsg"@ {
            Some(Backend::DevKMsg)
        } else {
            None
        },
    }
}

/// Reads a backend name; `None` for a name that is not a backend.
pub fn backend_from_name(name: Option<&str>) -> (r: Option<Backend>)
    ensures
        r == backend_named(
            match name {
                Some(n) => Some(n@),
                None => None,
            },
        ),
{
    match name {
        None => Some(Backend::Default),
        Some(n) => if same_text(n, "klogctl") {
            Some(Backend::KLogCtl)
        } else if same_text(n, "devkmsg") {
            Some(Backend::DevKMsg)
        } else {
            None
        },
    }
}

/// The settings of one run of the command-line tool.
#[derive(Clone, Copy, Debug, PartialEq, Eq, Structural)]
pub struct Options {
    pub follow: bool,
    pub clear: bool,
    pub raw: bool,
    pub backend: Backend,
}

impl Options {
    /// Options from the tool's flags; `None` when the backend name is unknown.
    pub fn from_flags(follow: bool, clear: bool, raw: bool, backend: Option<&str>) -> (r: Option<
        Options,
    >)
        ensures
            match backend_named(
                match backend {
                    Some(n) => Some(n@),
                    None => None,
                },
            ) {
                Some(b) => r == Some(Options { follow, clear, raw, backend: b }),
                None => r is None,
            },
    {
        match backend_from_name(backend) {
            Some(b) => Some(Options { follow, clear, raw, backend: b }),
            None => None,
        }
    }
}

} // verus!
