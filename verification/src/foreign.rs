//! Status codes shared with host applications, and the decisions of the
//! store that keeps node state through host-provided callbacks: which
//! callbacks must be present, and what each callback's status means.

use vstd::prelude::*;

verus! {

/// Status codes exchanged with host applications.
#[derive(Debug, Clone, Copy, PartialEq, Eq, Structural)]
pub enum WispersStatus {
    Success,
    NullPointer,
    InvalidUtf8,
    StoreError,
    AlreadyRegistered,
    NotRegistered,
    UnexpectedStage,
    NotFound,
    BufferTooSmall,
    MissingCallback,
    InvalidPairingCode,
    ActivationFailed,
    InvalidState,
    HubError,
}

pub open spec fn status_name(s: WispersStatus) -> Seq<char> {
    match s {
        WispersStatus::Success => "Success"@,
        WispersStatus::NullPointer => "NullPointer"@,
        WispersStatus::InvalidUtf8 => "InvalidUtf8"@,
        WispersStatus::StoreError => "StoreError"@,
        WispersStatus::AlreadyRegistered => "AlreadyRegistered"@,
        WispersStatus::NotRegistered => "NotRegistered"@,
        WispersStatus::UnexpectedStage => "UnexpectedStage"@,
        WispersStatus::NotFound => "NotFound"@,
        WispersStatus::BufferTooSmall => "BufferTooSmall"@,
        WispersStatus::MissingCallback => "MissingCallback"@,
        WispersStatus::InvalidPairingCode => "InvalidPairingCode"@,
        WispersStatus::ActivationFailed => "ActivationFailed"@,
        WispersStatus::InvalidState => "InvalidState"@,
        WispersStatus::HubError => "HubError"@,
    }
}

impl WispersStatus {
    /// The variant's name, as its debug text shows it.
    pub fn name(&self) -> (r: &'static str)
        ensures
            r@ == status_name(*self),
    {
        match self {
            WispersStatus::Success => "Success",
            WispersStatus::NullPointer => "NullPointer",
            WispersStatus::InvalidUtf8 => "InvalidUtf8",
            WispersStatus::StoreError => "StoreError",
            WispersStatus::AlreadyRegistered => "AlreadyRegistered",
            WispersStatus::NotRegistered => "NotRegistered",
            WispersStatus::UnexpectedStage => "UnexpectedStage",
            WispersStatus::NotFound => "NotFound",
            WispersStatus::BufferTooSmall => "BufferTooSmall",
            WispersStatus::MissingCallback => "MissingCallback",
            WispersStatus::InvalidPairingCode => "InvalidPairingCode",
            WispersStatus::ActivationFailed => "ActivationFailed",
            WispersStatus::InvalidState => "InvalidState",
            WispersStatus::HubError => "HubError",
        }
    }
}

/// The status an FFI entry point answers before it starts any work: a null
/// handle is `NullPointer`, a missing completion callback is
/// `MissingCallback`, and otherwise the call goes ahead with `Success`.
pub fn entry_status(handle_is_null: bool, has_callback: bool) -> (r: WispersStatus)
    ensures
        r == (if handle_is_null {
            WispersStatus::NullPointer
        } else if !has_callback {
            WispersStatus::MissingCallback
        } else {
            WispersStatus::Success
        }),
{
    if handle_is_null {
        WispersStatus::NullPointer
    } else if !has_callback {
        WispersStatus::MissingCallback
    } else {
        WispersStatus::Success
    }
}

/// Size of the first buffer offered to the host for the registration.
pub const INITIAL_REGISTRATION_BUFFER: usize = 256;

/// Errors of the callback-backed store.
#[derive(Debug)]
pub enum ForeignStoreError {
    /// The host did not provide the named callback.
    MissingCallback(&'static str),
    RegistrationEncode,
    RegistrationDecode,
    /// A callback returned this status.
    Status(WispersStatus),
}

impl ForeignStoreError {
    /// A description of the error.
    pub fn message(&self) -> (r: String)
        ensures
            r@ == match self {
                ForeignStoreError::MissingCallback(name) => "missing callback: "@ + name@,
                ForeignStoreError::RegistrationEncode => "failed to encode registration"@,
                ForeignStoreError::RegistrationDecode => "failed to decode registration"@,
                ForeignStoreError::Status(s) => "store callback returned "@ + status_name(*s),
            },
    {
        match self {
            ForeignStoreError::MissingCallback(name) => {
                let mut s = String::from_str("missing callback: ");
                s.append(name);
                s
            },
            ForeignStoreError::RegistrationEncode => String::from_str(
                "failed to encode registration",
            ),
            ForeignStoreError::RegistrationDecode => String::from_str(
                "failed to decode registration",
            ),
            ForeignStoreError::Status(status) => {
                let mut s = String::from_str("store callback returned ");
                s.append(status.name());
                s
            },
        }
    }
}

/// The status a store error is reported to the host with: a callback's own
/// status passes through, a missing callback is `MissingCallback`, and a
/// registration that cannot be encoded or decoded is a `StoreError`.
pub open spec fn spec_error_status(e: ForeignStoreErrorView) -> WispersStatus {
    match e {
        ForeignStoreErrorView::Status(s) => s,
        ForeignStoreErrorView::MissingCallback(_) => WispersStatus::MissingCallback,
        ForeignStoreErrorView::RegistrationEncode => WispersStatus::StoreError,
        ForeignStoreErrorView::RegistrationDecode => WispersStatus::StoreError,
    }
}

impl ForeignStoreError {
    /// The status this error is reported to the host with.
    pub fn status(&self) -> (r: WispersStatus)
        ensures
            r == spec_error_status(self@),
    {
        match self {
            ForeignStoreError::Status(s) => *s,
            ForeignStoreError::MissingCallback(_) => WispersStatus::MissingCallback,
            ForeignStoreError::RegistrationEncode | ForeignStoreError::RegistrationDecode => {
                WispersStatus::StoreError
            },
        }
    }
}

/// Which of the six storage callbacks the host provided.
#[derive(Debug, Clone, Copy)]
pub struct CallbackPresence {
    pub load_root_key: bool,
    pub save_root_key: bool,
    pub delete_root_key: bool,
    pub load_registration: bool,
    pub save_registration: bool,
    pub delete_registration: bool,
}

/// The first callback, in declaration order, that the host left out.
pub open spec fn first_missing(p: CallbackPresence) -> Option<Seq<char>> {
    if !p.load_root_key {
        Some("load_root_key"@)
    } else if !p.save_root_key {
        Some("save_root_key"@)
    } else if !p.delete_root_key {
        Some("delete_root_key"@)
    } else if !p.load_registration {
        Some("load_registration"@)
    } else if !p.save_registration {
        Some("save_registration"@)
    } else if !p.delete_registration {
        Some("delete_registration"@)
    } else {
        None
    }
}

pub enum ForeignStoreErrorView {
    MissingCallback(Seq<char>),
    RegistrationEncode,
    RegistrationDecode,
    Status(WispersStatus),
}

impl View for ForeignStoreError {
    type V = ForeignStoreErrorView;

    open spec fn view(&self) -> ForeignStoreErrorView {
        match self {
            ForeignStoreError::MissingCallback(n) => ForeignStoreErrorView::MissingCallback(n@),
            ForeignStoreError::RegistrationEncode => ForeignStoreErrorView::RegistrationEncode,
            ForeignStoreError::RegistrationDecode => ForeignStoreErrorView::RegistrationDecode,
            ForeignStoreError::Status(s) => ForeignStoreErrorView::Status(*s),
        }
    }
}

pub open spec fn outcome_view<T>(r: Result<T, ForeignStoreError>) -> Result<T, ForeignStoreErrorView> {
    match r {
        Ok(v) => Ok(v),
        Err(e) => Err(e@),
    }
}

/// Accepts a callback set only when all six callbacks are present, and
/// otherwise names the first one missing.
pub fn check_callbacks(p: &CallbackPresence) -> (r: Result<(), ForeignStoreError>)
    ensures
        outcome_view(r) == match first_missing(*p) {
            None => Ok(()),
            Some(name) => Err(ForeignStoreErrorView::MissingCallback(name)),
        },
{
    if !p.load_root_key {
        return Err(ForeignStoreError::MissingCallback("load_root_key"));
    }
    if !p.save_root_key {
        return Err(ForeignStoreError::MissingCallback("save_root_key"));
    }
    if !p.delete_root_key {
        return Err(ForeignStoreError::MissingCallback("delete_root_key"));
    }
    if !p.load_registration {
        return Err(ForeignStoreError::MissingCallback("load_registration"));
    }
    if !p.save_registration {
        return Err(ForeignStoreError::MissingCallback("save_registration"));
    }
    if !p.delete_registration {
        return Err(ForeignStoreError::MissingCallback("delete_registration"));
    }
    Ok(())
}

/// What the status of a root-key load means: `Ok(true)` when the key was
/// written to the buffer, `Ok(false)` when no key is stored.
pub open spec fn spec_root_key_load(status: WispersStatus) -> Result<bool, ForeignStoreErrorView> {
    match status {
        WispersStatus::Success => Ok(true),
        WispersStatus::NotFound => Ok(false),
        other => Err(ForeignStoreErrorView::Status(other)),
    }
}

/// Interprets the status of a root-key load.
pub fn root_key_load_outcome(status: WispersStatus) -> (r: Result<bool, ForeignStoreError>)
    ensures
        outcome_view(r) == spec_root_key_load(status),
{
    match status {
        WispersStatus::Success => Ok(true),
        WispersStatus::NotFound => Ok(false),
        other => Err(ForeignStoreError::Status(other)),
    }
}

/// What the status of a save callback means: only `Success` succeeds.
pub open spec fn spec_save_outcome(status: WispersStatus) -> Result<(), ForeignStoreErrorView> {
    match status {
        WispersStatus::Success => Ok(()),
        other => Err(ForeignStoreErrorView::Status(other)),
    }
}

/// Interprets the status of a save callback.
pub fn save_outcome(status: WispersStatus) -> (r: Result<(), ForeignStoreError>)
    ensures
        outcome_view(r) == spec_save_outcome(status),
{
    match status {
        WispersStatus::Success => Ok(()),
        other => Err(ForeignStoreError::Status(other)),
    }
}

/// What the status of a delete callback means: deleting what is not there
/// succeeds too.
pub open spec fn spec_delete_outcome(status: WispersStatus) -> Result<(), ForeignStoreErrorView> {
    match status {
        WispersStatus::Success => Ok(()),
        WispersStatus::NotFound => Ok(()),
        other => Err(ForeignStoreErrorView::Status(other)),
    }
}

/// Interprets the status of a delete callback.
pub fn delete_outcome(status: WispersStatus) -> (r: Result<(), ForeignStoreError>)
    ensures
        outcome_view(r) == spec_delete_outcome(status),
{
    match status {
        WispersStatus::Success | WispersStatus::NotFound => Ok(()),
        other => Err(ForeignStoreError::Status(other)),
    }
}

/// The next step of loading the registration through the host.
#[derive(Debug)]
pub enum RegistrationLoadStep {
    /// Decode the first this many bytes of the buffer.
    Decode(usize),
    /// No registration is stored.
    Absent,
    /// Call again with a buffer of this many bytes.
    Grow(usize),
    Fail(ForeignStoreError),
}

pub enum RegistrationLoadStepView {
    Decode(usize),
    Absent,
    Grow(usize),
    Fail(ForeignStoreErrorView),
}

impl View for RegistrationLoadStep {
    type V = RegistrationLoadStepView;

    open spec fn view(&self) -> RegistrationLoadStepView {
        match self {
            RegistrationLoadStep::Decode(n) => RegistrationLoadStepView::Decode(*n),
            RegistrationLoadStep::Absent => RegistrationLoadStepView::Absent,
            RegistrationLoadStep::Grow(n) => RegistrationLoadStepView::Grow(*n),
            RegistrationLoadStep::Fail(e) => RegistrationLoadStepView::Fail(e@),
        }
    }
}

/// The step after the host answered a registration load with `status`,
/// reporting `required` bytes, into a buffer of `buffer_len` bytes: on
/// success the buffer is cut to `required` (when that is shorter) and
/// decoded; a too-small buffer is grown to what the host asked for.
pub open spec fn spec_registration_load_step(status: WispersStatus, required: usize, buffer_len: usize) -> RegistrationLoadStepView {
    match status {
        WispersStatus::Success => RegistrationLoadStepView::Decode(
            if required < buffer_len {
                required
            } else {
                buffer_len
            },
        ),
        WispersStatus::NotFound => RegistrationLoadStepView::Absent,
        WispersStatus::BufferTooSmall => if required == 0 {
            RegistrationLoadStepView::Fail(ForeignStoreErrorView::Status(WispersStatus::BufferTooSmall))
        } else {
            RegistrationLoadStepView::Grow(required)
        },
        other => RegistrationLoadStepView::Fail(ForeignStoreErrorView::Status(other)),
    }
}

/// Decides the next step of a registration load.
pub fn registration_load_step(status: WispersStatus, required: usize, buffer_len: usize) -> (r:
    RegistrationLoadStep)
    ensures
        r@ == spec_registration_load_step(status, required, buffer_len),
{
    match status {
        WispersStatus::Success => RegistrationLoadStep::Decode(
            if required < buffer_len {
                required
            } else {
                buffer_len
            },
        ),
        WispersStatus::NotFound => RegistrationLoadStep::Absent,
        WispersStatus::BufferTooSmall => {
            if required == 0 {
                RegistrationLoadStep::Fail(ForeignStoreError::Status(WispersStatus::BufferTooSmall))
            } else {
                RegistrationLoadStep::Grow(required)
            }
        },
        other => RegistrationLoadStep::Fail(ForeignStoreError::Status(other)),
    }
}

} // verus!
