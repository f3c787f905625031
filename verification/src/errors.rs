//! Error kinds and identifiers shared by every module of the crate.
use vstd::prelude::*;

verus! {

/// Errors raised by the firewall engine, each with a human readable message.
#[derive(Debug, Clone, PartialEq, Eq)]
pub enum AegisError {
    Validation(String),
    Firewall(String),
    Storage(String),
    Internal(String),
    Timeout(String),
    NotFound(String),
    Permission(String),
    Conflict(String),
}

impl AegisError {
    /// The message that the error carries.
    pub open spec fn message_of(&self) -> Seq<char> {
        match self {
            AegisError::Validation(m) => m@,
            AegisError::Firewall(m) => m@,
            AegisError::Storage(m) => m@,
            AegisError::Internal(m) => m@,
            AegisError::Timeout(m) => m@,
            AegisError::NotFound(m) => m@,
            AegisError::Permission(m) => m@,
            AegisError::Conflict(m) => m@,
        }
    }

    /// The message that the error carries.
    pub fn message(&self) -> (r: &str)
        ensures
            r@ == self.message_of(),
    {
        match self {
            AegisError::Validation(m) => m.as_str(),
            AegisError::Firewall(m) => m.as_str(),
            AegisError::Storage(m) => m.as_str(),
            AegisError::Internal(m) => m.as_str(),
            AegisError::Timeout(m) => m.as_str(),
            AegisError::NotFound(m) => m.as_str(),
            AegisError::Permission(m) => m.as_str(),
            AegisError::Conflict(m) => m.as_str(),
        }
    }
}

/// Identifier of a firewall or NAT policy (a UUID held as its 128-bit value).
#[derive(Debug, Clone, Copy, PartialEq, Eq, Hash, Structural)]
pub struct PolicyId(pub u128);

/// Identifier of a single rule, as written in the policy document.
#[derive(Debug, Clone, PartialEq, Eq, Hash)]
pub struct RuleId(pub String);

/// Identifier of a ruleset snapshot (a UUID held as its 128-bit value).
#[derive(Debug, Clone, Copy, PartialEq, Eq, Hash, Structural)]
pub struct SnapshotId(pub u128);

/// Identifier of one apply execution (a UUID held as its 128-bit value).
#[derive(Debug, Clone, Copy, PartialEq, Eq, Hash, Structural)]
pub struct ExecutionId(pub u128);

/// Identifier of a block-list record (a UUID held as its 128-bit value).
#[derive(Debug, Clone, Copy, PartialEq, Eq, Hash, Structural)]
pub struct BlockEntryId(pub u128);

/// Greatest number of seconds since the Unix epoch that a calendar timestamp may hold
/// (the last second of year 262142).
pub const MAX_UNIX_SECS: i64 = 8_210_266_876_799i64;

/// Least number of seconds since the Unix epoch that a calendar timestamp may hold
/// (the first second of year -262143).
pub const MIN_UNIX_SECS: i64 = -8_334_601_315_200i64;

/// Greatest magnitude, in seconds, of a time span.
pub const MAX_SPAN_SECS: i64 = 9_223_372_036_854_775i64;

/// A point in UTC time: whole seconds since the Unix epoch and the nanoseconds past them.
#[derive(Debug, Clone, Copy, PartialEq, Eq, Hash, Structural)]
pub struct Timestamp {
    pub secs: i64,
    pub nanos: u32,
}

impl Timestamp {
    /// The timestamp lies in the calendar range and its nanosecond part is below one second.
    pub open spec fn wf(self) -> bool {
        &&& MIN_UNIX_SECS <= self.secs <= MAX_UNIX_SECS
        &&& self.nanos < 1_000_000_000
    }

    /// `self` is strictly later than `other`.
    pub open spec fn later_than(self, other: Timestamp) -> bool {
        self.secs > other.secs || (self.secs == other.secs && self.nanos > other.nanos)
    }

    /// `self` is at least as late as `other`.
    pub open spec fn not_before(self, other: Timestamp) -> bool {
        !other.later_than(self)
    }

    /// A time span of `secs` seconds may be added to or taken from this timestamp without
    /// leaving the calendar range.
    pub open spec fn shift_ok(self, secs: int) -> bool {
        &&& -MAX_SPAN_SECS <= secs <= MAX_SPAN_SECS
        &&& MIN_UNIX_SECS <= self.secs + secs <= MAX_UNIX_SECS
    }

    /// This timestamp moved by `secs` seconds.
    pub open spec fn plus_secs(self, secs: int) -> Timestamp {
        Timestamp { secs: (self.secs + secs) as i64, nanos: self.nanos }
    }

    /// Whether `self` is strictly later than `other`.
    pub fn is_after(&self, other: &Timestamp) -> (r: bool)
        ensures
            r == self.later_than(*other),
    {
        self.secs > other.secs || (self.secs == other.secs && self.nanos > other.nanos)
    }

    /// This timestamp moved by `secs` seconds (forward for a positive span).
    pub fn shifted(&self, secs: i64) -> (r: Timestamp)
        requires
            self.shift_ok(secs as int),
        ensures
            r.secs == self.secs + secs,
            r.nanos == self.nanos,
            r == self.plus_secs(secs as int),
    {
        Timestamp { secs: self.secs + secs, nanos: self.nanos }
    }
}

} // verus!
