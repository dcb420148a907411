//! The structured log record and the syslog categories it carries.
use vstd::prelude::*;

verus! {

/// The syslog facility a record was logged under.
#[derive(Clone, Copy, Debug, PartialEq, Eq, Structural)]
pub enum LogFacility {
    Kern,
    User,
    Mail,
    Daemon,
    Auth,
    Syslog,
    Lpr,
    News,
    Uucp,
    Cron,
    AuthPriv,
    Ftp,
    Ntp,
    Audit,
    Alert,
    Clock,
    Local0,
    Local1,
    Local2,
    Local3,
    Local4,
    Local5,
    Local6,
    Local7,
}

/// The severity of a record, from the most to the least urgent.
#[derive(Clone, Copy, Debug, PartialEq, Eq, Structural)]
pub enum LogLevel {
    Emergency,
    Alert,
    Critical,
    Error,
    Warning,
    Notice,
    Info,
    Debug,
}

/// The facilities in the order of their syslog codes.
pub open spec fn facility_table() -> Seq<LogFacility> {
    seq![
        LogFacility::Kern, LogFacility::User, LogFacility::Mail, LogFacility::Daemon,
        LogFacility::Auth, LogFacility::Syslog, LogFacility::Lpr, LogFacility::News,
        LogFacility::Uucp, LogFacility::Cron, LogFacility::AuthPriv, LogFacility::Ftp,
        LogFacility::Ntp, LogFacility::Audit, LogFacility::Alert, LogFacility::Clock,
        LogFacility::Local0, LogFacility::Local1, LogFacility::Local2, LogFacility::Local3,
        LogFacility::Local4, LogFacility::Local5, LogFacility::Local6, LogFacility::Local7,
    ]
}

/// The levels in the order of their syslog codes.
pub open spec fn level_table() -> Seq<LogLevel> {
    seq![
        LogLevel::Emergency, LogLevel::Alert, LogLevel::Critical, LogLevel::Error,
        LogLevel::Warning, LogLevel::Notice, LogLevel::Info, LogLevel::Debug,
    ]
}

/// The facility with syslog code `n`, if there is one.
pub open spec fn facility_of(n: nat) -> Option<LogFacility> {
    if n < 24 {
        Some(facility_table()[n as int])
    } else {
        None
    }
}

/// The level with syslog code `n`, if there is one.
pub open spec fn level_of(n: nat) -> Option<LogLevel> {
    if n < 8 {
        Some(level_table()[n as int])
    } else {
        None
    }
}

impl LogFacility {
    /// The syslog code of this facility.
    pub open spec fn spec_code(self) -> nat {
        match self {
            LogFacility::Kern => 0,
            LogFacility::User => 1,
            LogFacility::Mail => 2,
            LogFacility::Daemon => 3,
            LogFacility::Auth => 4,
            LogFacility::Syslog => 5,
            LogFacility::Lpr => 6,
            LogFacility::News => 7,
            LogFacility::Uucp => 8,
            LogFacility::Cron => 9,
            LogFacility::AuthPriv => 10,
            LogFacility::Ftp => 11,
            LogFacility::Ntp => 12,
            LogFacility::Audit => 13,
            LogFacility::Alert => 14,
            LogFacility::Clock => 15,
            LogFacility::Local0 => 16,
            LogFacility::Local1 => 17,
            LogFacility::Local2 => 18,
            LogFacility::Local3 => 19,
            LogFacility::Local4 => 20,
            LogFacility::Local5 => 21,
            LogFacility::Local6 => 22,
            LogFacility::Local7 => 23,
        }
    }

    pub fn code(&self) -> (r: u8)
        ensures
            r as nat == self.spec_code(),
            r < 24,
            facility_of(r as nat) == Some(*self),
    {
        match self {
            LogFacility::Kern => 0,
            LogFacility::User => 1,
            LogFacility::Mail => 2,
            LogFacility::Daemon => 3,
            LogFacility::Auth => 4,
            LogFacility::Syslog => 5,
            LogFacility::Lpr => 6,
            LogFacility::News => 7,
            LogFacility::Uucp => 8,
            LogFacility::Cron => 9,
            LogFacility::AuthPriv => 10,
            LogFacility::Ftp => 11,
            LogFacility::Ntp => 12,
            LogFacility::Audit => 13,
            LogFacility::Alert => 14,
            LogFacility::Clock => 15,
            LogFacility::Local0 => 16,
            LogFacility::Local1 => 17,
            LogFacility::Local2 => 18,
            LogFacility::Local3 => 19,
            LogFacility::Local4 => 20,
            LogFacility::Local5 => 21,
            LogFacility::Local6 => 22,
            LogFacility::Local7 => 23,
        }
    }

    /// The facility with syslog code `n`; `None` above 23.
    pub fn from_code(n: u64) -> (r: Option<LogFacility>)
        ensures
            r == facility_of(n as nat),
    {
        match n {
            0 => Some(LogFacility::Kern),
            1 => Some(LogFacility::User),
            2 => Some(LogFacility::Mail),
            3 => Some(LogFacility::Daemon),
            4 => Some(LogFacility::Auth),
            5 => Some(LogFacility::Syslog),
            6 => Some(LogFacility::Lpr),
            7 => Some(LogFacility::News),
            8 => Some(LogFacility::Uucp),
            9 => Some(LogFacility::Cron),
            10 => Some(LogFacility::AuthPriv),
            11 => Some(LogFacility::Ftp),
            12 => Some(LogFacility::Ntp),
            13 => Some(LogFacility::Audit),
            14 => Some(LogFacility::Alert),
            15 => Some(LogFacility::Clock),
            16 => Some(LogFacility::Local0),
            17 => Some(LogFacility::Local1),
            18 => Some(LogFacility::Local2),
            19 => Some(LogFacility::Local3),
            20 => Some(LogFacility::Local4),
            21 => Some(LogFacility::Local5),
            22 => Some(LogFacility::Local6),
            23 => Some(LogFacility::Local7),
            _ => None,
        }
    }
}

impl LogLevel {
    /// The syslog code of this level.
    pub open spec fn spec_code(self) -> nat {
        match self {
            LogLevel::Emergency => 0,
            LogLevel::Alert => 1,
            LogLevel::Critical => 2,
            LogLevel::Error => 3,
            LogLevel::Warning => 4,
            LogLevel::Notice => 5,
            LogLevel::Info => 6,
            LogLevel::Debug => 7,
        }
    }

    pub fn code(&self) -> (r: u8)
        ensures
            r as nat == self.spec_code(),
            r < 8,
            level_of(r as nat) == Some(*self),
    {
        match self {
            LogLevel::Emergency => 0,
            LogLevel::Alert => 1,
            LogLevel::Critical => 2,
            LogLevel::Error => 3,
            LogLevel::Warning => 4,
            LogLevel::Notice => 5,
            LogLevel::Info => 6,
            LogLevel::Debug => 7,
        }
    }

    /// The level with syslog code `n`; `None` above 7.
    pub fn from_code(n: u64) -> (r: Option<LogLevel>)
        ensures
            r == level_of(n as nat),
    {
        match n {
            0 => Some(LogLevel::Emergency),
            1 => Some(LogLevel::Alert),
            2 => Some(LogLevel::Critical),
            3 => Some(LogLevel::Error),
            4 => Some(LogLevel::Warning),
            5 => Some(LogLevel::Notice),
            6 => Some(LogLevel::Info),
            7 => Some(LogLevel::Debug),
            _ => None,
        }
    }
}

/// What can go wrong while reading or decoding the kernel log.
#[derive(Clone, Copy, Debug, PartialEq, Eq, Structural)]
pub enum RMesgError {
    /// The backend needs a privilege that the caller lacks.
    PermissionDenied,
    /// The requested backend does not exist on this system.
    BackendUnavailable,
    /// A record lacks one of its mandatory fields.
    MalformedRecord,
    /// The transport failed while reading.
    IoFailure,
}

/// The facility and level packed in a syslog priority value:
/// `None` when the facility part is above 23.
pub open spec fn priority_model(p: nat) -> Option<(LogFacility, LogLevel)> {
    match (facility_of(p / 8), level_of(p % 8)) {
        (Some(f), Some(l)) => Some((f, l)),
        _ => None,
    }
}

/// Splits a packed priority into facility (`p >> 3`) and level (`p & 7`).
pub fn decode_priority(p: u64) -> (r: Result<(LogFacility, LogLevel), RMesgError>)
    ensures
        r matches Ok(fl) ==> priority_model(p as nat) == Some(fl),
        r matches Err(e) ==> priority_model(p as nat) is None && e == RMesgError::MalformedRecord,
        r is Ok <==> p < 192,
{
    match (LogFacility::from_code(p / 8), LogLevel::from_code(p % 8)) {
        (Some(f), Some(l)) => Ok((f, l)),
        _ => Err(RMesgError::MalformedRecord),
    }
}

/// Packs a facility and a level into one priority value.
pub fn encode_priority(f: LogFacility, l: LogLevel) -> (r: u8)
    ensures
        r as nat == f.spec_code() * 8 + l.spec_code(),
        r < 192,
{
    f.code() * 8 + l.code()
}

/// Decoding the packing of any facility and level gives them back, and no
/// priority from 192 on decodes.
pub proof fn lemma_priority_round_trip(f: nat, l: nat, p: nat)
    requires
        f <= 23,
        l <= 7,
    ensures
        priority_model(f * 8 + l) == Some((facility_of(f)->0, level_of(l)->0)),
        p >= 192 ==> priority_model(p) is None,
{
    assert((f * 8 + l) / 8 == f);
    assert((f * 8 + l) % 8 == l);
}

/// A facility's code leads back to it.
pub proof fn lemma_facility_code(f: LogFacility)
    ensures
        f.spec_code() < 24,
        facility_of(f.spec_code()) == Some(f),
{
}

/// A level's code leads back to it.
pub proof fn lemma_level_code(l: LogLevel)
    ensures
        l.spec_code() < 8,
        level_of(l.spec_code()) == Some(l),
{
}

/// The packed priority of a facility and a level decodes to them.
pub proof fn lemma_priority_codes(f: LogFacility, l: LogLevel)
    ensures
        f.spec_code() * 8 + l.spec_code() < 192,
        priority_model(f.spec_code() * 8 + l.spec_code()) == Some((f, l)),
{
    lemma_facility_code(f);
    lemma_level_code(l);
    lemma_priority_round_trip(f.spec_code(), l.spec_code(), 0);
}

/// The mathematical content of an `Entry`.
pub ghost struct EntryModel {
    pub timestamp: Option<nat>,
    pub facility: Option<LogFacility>,
    pub level: Option<LogLevel>,
    pub sequence: Option<nat>,
    pub message: Seq<char>,
}

/// One parsed kernel log record.
#[derive(Clone, Debug)]
pub struct Entry {
    /// Time since boot, in microseconds.
    pub timestamp_from_system_start: Option<u64>,
    pub facility: Option<LogFacility>,
    pub level: Option<LogLevel>,
    pub sequence_num: Option<u64>,
    pub message: String,
}

impl View for Entry {
    type V = EntryModel;

    open spec fn view(&self) -> EntryModel {
        EntryModel {
            timestamp: match self.timestamp_from_system_start {
                Some(t) => Some(t as nat),
                None => None,
            },
            facility: self.facility,
            level: self.level,
            sequence: match self.sequence_num {
                Some(s) => Some(s as nat),
                None => None,
            },
            message: self.message@,
        }
    }
}

impl Entry {
    /// A facility is never present without a level.
    pub open spec fn well_formed(&self) -> bool {
        self.facility is Some ==> self.level is Some
    }

    /// Every optional field is present.
    pub open spec fn is_complete(&self) -> bool {
        &&& self.timestamp_from_system_start is Some
        &&& self.facility is Some
        &&& self.level is Some
        &&& self.sequence_num is Some
    }
}

impl PartialEq for Entry {
    fn eq(&self, other: &Entry) -> (r: bool) {
        let msg_eq = self.message == other.message;
        self.timestamp_from_system_start == other.timestamp_from_system_start
            && self.facility == other.facility && self.level == other.level
            && self.sequence_num == other.sequence_num && msg_eq
    }
}

impl vstd::std_specs::cmp::PartialEqSpecImpl for Entry {
    open spec fn obeys_eq_spec() -> bool {
        true
    }

    open spec fn eq_spec(&self, other: &Entry) -> bool {
        self@ == other@
    }
}

} // verus!
