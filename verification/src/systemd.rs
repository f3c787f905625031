//! Systemd units: the guard of protected units, strict unit names, and typed operations.
use vstd::prelude::*;
use crate::clock::{now, rfc3339_of, rfc3339_text};
use crate::errors::{AegisError, Timestamp};
use crate::models::fleet::{
    JournalLogEntry, ServiceOpRequest, ServiceOpResult, ServiceOperation, ServiceUnitStatus,
};
use crate::text::{
    chars_of, concat3, contains_seq, decimal, decimal_text, ends_with, ends_with_str,
    ascii_lower, eq_ignore_ascii_case, eq_ignore_ascii_case_chars, owned, push_str, trim, trim_chars,
    trim_str,
};

verus! {

/// Core services that may never be stopped or disabled.
pub const PROTECTED_SYSTEM_UNITS: [&'static str; 9] = [
    "aegisnode-local.service",
    "aegisnode-agent.service",
    "aegisnode.service",
    "dbus.service",
    "systemd-logind.service",
    "NetworkManager.service",
    "systemd-networkd.service",
    "sshd.service",
    "ssh.service",
];

/// The protected units, as text.
pub open spec fn protected_units() -> Seq<Seq<char>> {
    seq![
        "aegisnode-local.service"@,
        "aegisnode-agent.service"@,
        "aegisnode.service"@,
        "dbus.service"@,
        "systemd-logind.service"@,
        "NetworkManager.service"@,
        "systemd-networkd.service"@,
        "sshd.service"@,
        "ssh.service"@,
    ]
}

/// The unit name, trimmed, is a protected unit up to ASCII case.
pub open spec fn protected(unit: Seq<char>) -> bool {
    exists|i: int|
        0 <= i < protected_units().len() && eq_ignore_ascii_case(
            #[trigger] protected_units()[i],
            trim(unit),
        )
}

/// Whether a unit is protected (its trimmed name is one of the protected units, ignoring
/// ASCII case).
pub fn is_protected_unit(unit_name: &str) -> (r: bool)
    ensures
        r == protected(unit_name@),
{
    let cs = chars_of(unit_name);
    let t = trim_chars(cs.as_slice());
    let units = PROTECTED_SYSTEM_UNITS;
    let mut i: usize = 0;
    while i < 9
        invariant
            i <= 9,
            t@ == trim(unit_name@),
            units@.len() == 9,
            forall|k: int| 0 <= k < 9 ==> (#[trigger] units@[k])@ == protected_units()[k],
            forall|k: int|
                0 <= k < i ==> !eq_ignore_ascii_case(#[trigger] protected_units()[k], t@),
        decreases 9 - i,
    {
        let p = chars_of(units[i]);
        if eq_ignore_ascii_case_chars(p.as_slice(), t.as_slice()) {
            return true;
        }
        i = i + 1;
    }
    false
}

/// The protected units are exactly these nine, named in any ASCII case and with surrounding
/// whitespace: the AegisNode agent and its local service, D-Bus, the login manager, both
/// network managers and the SSH daemon under both of its names. Stopping or disabling any of
/// them is refused (see `execute_op`).
pub proof fn law_protected_units(unit: Seq<char>)
    ensures
        protected(unit) <==> {
            let t = trim(unit);
            ||| eq_ignore_ascii_case(t, "aegisnode-local.service"@)
            ||| eq_ignore_ascii_case(t, "aegisnode-agent.service"@)
            ||| eq_ignore_ascii_case(t, "aegisnode.service"@)
            ||| eq_ignore_ascii_case(t, "dbus.service"@)
            ||| eq_ignore_ascii_case(t, "systemd-logind.service"@)
            ||| eq_ignore_ascii_case(t, "NetworkManager.service"@)
            ||| eq_ignore_ascii_case(t, "systemd-networkd.service"@)
            ||| eq_ignore_ascii_case(t, "sshd.service"@)
            ||| eq_ignore_ascii_case(t, "ssh.service"@)
        },
        trim(unit) == "ssh.service"@ ==> protected(unit),
        trim(unit) == "sshd.service"@ ==> protected(unit),
{
    let u = protected_units();
    let t = trim(unit);
    assert forall|a: Seq<char>, b: Seq<char>| eq_ignore_ascii_case(a, b) implies
        #[trigger] eq_ignore_ascii_case(b, a) by {
        assert forall|i: int| 0 <= i < b.len() implies ascii_lower(#[trigger] b[i]) == ascii_lower(a[i]) by {
            assert(ascii_lower(a[i]) == ascii_lower(b[i]));
        }
    }
    assert(eq_ignore_ascii_case("ssh.service"@, "ssh.service"@));
    assert(eq_ignore_ascii_case("sshd.service"@, "sshd.service"@));
    assert(u[0] == "aegisnode-local.service"@);
    assert(u[1] == "aegisnode-agent.service"@);
    assert(u[2] == "aegisnode.service"@);
    assert(u[3] == "dbus.service"@);
    assert(u[4] == "systemd-logind.service"@);
    assert(u[5] == "NetworkManager.service"@);
    assert(u[6] == "systemd-networkd.service"@);
    assert(u[7] == "sshd.service"@);
    assert(u[8] == "ssh.service"@);
    assert(u.len() == 9);
}

/// A character that could smuggle a shell command into a unit name.
pub open spec fn forbidden_char(c: char) -> bool {
    c == ';' || c == '&' || c == '|' || c == '`' || c == '$' || c == ' '
}

/// A unit suffix that operations accept.
pub open spec fn known_suffix(s: Seq<char>) -> bool {
    ends_with(s, ".service"@) || ends_with(s, ".socket"@) || ends_with(s, ".target"@)
        || ends_with(s, ".timer"@)
}

/// A unit name is accepted: trimmed, it is not empty, holds no forbidden character and ends
/// with a known suffix.
pub open spec fn unit_name_valid(unit: Seq<char>) -> bool {
    let t = trim(unit);
    &&& t.len() > 0
    &&& forall|i: int| 0 <= i < t.len() ==> !forbidden_char(#[trigger] t[i])
    &&& known_suffix(t)
}

/// Checks a unit name against the strict rules that keep commands out of it.
pub fn validate_unit_name(unit_name: &str) -> (r: Result<(), AegisError>)
    ensures
        r is Ok <==> unit_name_valid(unit_name@),
        r matches Err(e) ==> e is Validation,
{
    let cs = chars_of(unit_name);
    let t = trim_chars(cs.as_slice());
    if t.len() == 0 {
        return Err(AegisError::Validation(owned("Unit name cannot be empty")));
    }
    let trimmed = trim_str(unit_name);
    let mut i: usize = 0;
    while i < t.len()
        invariant
            i <= t@.len(),
            t@ == trim(unit_name@),
            trimmed@ == t@,
            forall|k: int| 0 <= k < i ==> !forbidden_char(#[trigger] t@[k]),
        decreases t.len() - i,
    {
        let c = t[i];
        if c == ';' || c == '&' || c == '|' || c == '`' || c == '$' || c == ' ' {
            return Err(
                AegisError::Validation(
                    concat3("Invalid character detected in unit name '", trimmed.as_str(), "'"),
                ),
            );
        }
        i = i + 1;
    }
    if !ends_with_str(trimmed.as_str(), ".service") && !ends_with_str(trimmed.as_str(), ".socket")
        && !ends_with_str(trimmed.as_str(), ".target") && !ends_with_str(
        trimmed.as_str(),
        ".timer",
    ) {
        return Err(
            AegisError::Validation(
                concat3(
                    "Unit name '",
                    trimmed.as_str(),
                    "' must end with .service, .socket, .target, or .timer",
                ),
            ),
        );
    }
    Ok(())
}

/// The name of an operation, as it is shown in messages.
pub open spec fn operation_name(op: ServiceOperation) -> Seq<char> {
    match op {
        ServiceOperation::Start => "Start"@,
        ServiceOperation::Stop => "Stop"@,
        ServiceOperation::Restart => "Restart"@,
        ServiceOperation::Reload => "Reload"@,
        ServiceOperation::Enable => "Enable"@,
        ServiceOperation::Disable => "Disable"@,
    }
}

fn operation_text(op: ServiceOperation) -> (r: &'static str)
    ensures
        r@ == operation_name(op),
{
    match op {
        ServiceOperation::Start => "Start",
        ServiceOperation::Stop => "Stop",
        ServiceOperation::Restart => "Restart",
        ServiceOperation::Reload => "Reload",
        ServiceOperation::Enable => "Enable",
        ServiceOperation::Disable => "Disable",
    }
}

/// The monotonic clock of the standard library.
#[verifier::external_type_specification]
#[verifier::external_body]
pub struct ExInstant(std::time::Instant);

/// The current instant of the monotonic clock (`std::time::Instant::now`).
#[verifier::external_body]
fn stopwatch_start() -> (r: std::time::Instant) {
    std::time::Instant::now()
}

/// Whole milliseconds since `start` (`std::time::Instant::elapsed`), cut to 64 bits.
#[verifier::external_body]
fn elapsed_millis(start: &std::time::Instant) -> (r: u64) {
    start.elapsed().as_millis() as u64
}

/// The message of a journal entry: `Sample journald log entry #<n> for <unit>`.
pub open spec fn journal_message(n: nat, unit: Seq<char>) -> Seq<char> {
    "Sample journald log entry #"@ + decimal(n) + " for "@ + unit
}

/// Typed operations on systemd units, guarded against protected units.
#[derive(Debug, Clone, Default)]
pub struct SystemdManager;

impl SystemdManager {
    pub fn new() -> (r: Self) {
        SystemdManager
    }

    /// Runs an operation on a unit that took `elapsed_ms`: the unit name must be valid, and
    /// stopping or disabling a protected unit is forbidden.
    pub fn execute_op_timed(&self, req: &ServiceOpRequest, elapsed_ms: u64) -> (r: Result<
        ServiceOpResult,
        AegisError,
    >)
        ensures
            match r {
                Ok(res) => {
                    &&& unit_name_valid(req.unit_name@)
                    &&& !((req.operation == ServiceOperation::Stop || req.operation
                        == ServiceOperation::Disable) && protected(req.unit_name@))
                    &&& res.success
                    &&& res.unit_name@ == req.unit_name@
                    &&& res.operation == req.operation
                    &&& res.message@ == "Successfully executed "@ + operation_name(req.operation)
                        + " on unit '"@ + req.unit_name@ + "'"@
                    &&& res.execution_time_ms == elapsed_ms
                },
                Err(e) => {
                    ||| (!unit_name_valid(req.unit_name@) && e is Validation)
                    ||| (unit_name_valid(req.unit_name@) && (req.operation == ServiceOperation::Stop
                        || req.operation == ServiceOperation::Disable) && protected(
                        req.unit_name@,
                    ) && e is Permission)
                },
            },
    {
        match validate_unit_name(req.unit_name.as_str()) {
            Ok(()) => {},
            Err(e) => return Err(e),
        }
        if (req.operation == ServiceOperation::Stop || req.operation == ServiceOperation::Disable)
            && is_protected_unit(req.unit_name.as_str()) {
            let mut m = owned("Operation ");
            push_str(&mut m, operation_text(req.operation));
            push_str(&mut m, " is strictly FORBIDDEN on protected system unit '");
            push_str(&mut m, req.unit_name.as_str());
            push_str(&mut m, "'");
            return Err(AegisError::Permission(m));
        }
        let mut msg = owned("Successfully executed ");
        push_str(&mut msg, operation_text(req.operation));
        push_str(&mut msg, " on unit '");
        push_str(&mut msg, req.unit_name.as_str());
        push_str(&mut msg, "'");
        Ok(
            ServiceOpResult {
                success: true,
                unit_name: req.unit_name.clone(),
                operation: req.operation,
                message: msg,
                execution_time_ms: elapsed_ms,
            },
        )
    }

    /// Runs an operation on a unit, timed by the monotonic clock (see `execute_op_timed`).
    pub fn execute_op(&self, req: &ServiceOpRequest) -> (r: Result<ServiceOpResult, AegisError>)
        ensures
            r is Ok <==> (unit_name_valid(req.unit_name@) && !((req.operation
                == ServiceOperation::Stop || req.operation == ServiceOperation::Disable)
                && protected(req.unit_name@))),
            r matches Ok(res) ==> {
                &&& res.success
                &&& res.unit_name@ == req.unit_name@
                &&& res.operation == req.operation
                &&& res.message@ == "Successfully executed "@ + operation_name(req.operation)
                    + " on unit '"@ + req.unit_name@ + "'"@
            },
            r matches Err(e) ==> if unit_name_valid(req.unit_name@) {
                e is Permission
            } else {
                e is Validation
            },
    {
        let start = stopwatch_start();
        let ok = match validate_unit_name(req.unit_name.as_str()) {
            Ok(()) => true,
            Err(_) => false,
        };
        let elapsed = if ok {
            elapsed_millis(&start)
        } else {
            0
        };
        self.execute_op_timed(req, elapsed)
    }

    /// The journal of a unit: up to `limit` entries (never more than 500), numbered from 1,
    /// each stamped with the time it was made.
    pub fn query_journal_logs(&self, unit_name: &str, limit: usize) -> (r: Result<
        Vec<JournalLogEntry>,
        AegisError,
    >)
        ensures
            r is Ok <==> unit_name_valid(unit_name@),
            r matches Err(e) ==> e is Validation,
            r matches Ok(v) ==> {
                &&& v@.len() == if limit < 500 {
                    limit as int
                } else {
                    500
                }
                &&& forall|i: int|
                    0 <= i < v@.len() ==> {
                        &&& (#[trigger] v@[i]).priority@ == "info"@
                        &&& v@[i].unit@ == unit_name@
                        &&& v@[i].message@ == journal_message((i + 1) as nat, unit_name@)
                        &&& exists|t: Timestamp| t.wf() && v@[i].timestamp@ == rfc3339_of(t.secs, t.nanos)
                    }
            },
    {
        match validate_unit_name(unit_name) {
            Ok(()) => {},
            Err(e) => return Err(e),
        }
        let max = if limit < 500 {
            limit
        } else {
            500
        };
        let mut entries: Vec<JournalLogEntry> = Vec::new();
        let mut i: usize = 0;
        while i < max
            invariant
                i <= max <= 500,
                entries@.len() == i,
                forall|k: int|
                    0 <= k < i ==> {
                        &&& (#[trigger] entries@[k]).priority@ == "info"@
                        &&& entries@[k].unit@ == unit_name@
                        &&& entries@[k].message@ == journal_message((k + 1) as nat, unit_name@)
                        &&& exists|t: Timestamp| t.wf() && entries@[k].timestamp@ == rfc3339_of(t.secs, t.nanos)
                    },
            decreases max - i,
        {
            let t = now();
            let stamp = rfc3339_text(t);
            let mut msg = owned("Sample journald log entry #");
            push_str(&mut msg, decimal_text((i + 1) as u64).as_str());
            push_str(&mut msg, " for ");
            push_str(&mut msg, unit_name);
            entries.push(
                JournalLogEntry {
                    timestamp: stamp,
                    priority: owned("info"),
                    unit: owned(unit_name),
                    message: msg,
                },
            );
            i = i + 1;
        }
        Ok(entries)
    }

    /// The status of a unit with a valid name.
    pub fn get_unit_status(&self, unit_name: &str) -> (r: Result<ServiceUnitStatus, AegisError>)
        ensures
            r is Ok <==> unit_name_valid(unit_name@),
            r matches Err(e) ==> e is Validation,
            r matches Ok(s) ==> {
                &&& s.name@ == unit_name@
                &&& s.load_state@ == "loaded"@
                &&& s.active_state@ == "active"@
                &&& s.sub_state@ == "running"@
                &&& s.description@ == "Systemd service "@ + unit_name@
            },
    {
        match validate_unit_name(unit_name) {
            Ok(()) => {},
            Err(e) => return Err(e),
        }
        let mut d = owned("Systemd service ");
        push_str(&mut d, unit_name);
        Ok(
            ServiceUnitStatus {
                name: owned(unit_name),
                load_state: owned("loaded"),
                active_state: owned("active"),
                sub_state: owned("running"),
                description: d,
            },
        )
    }
}

} // verus!
