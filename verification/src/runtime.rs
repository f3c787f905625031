//! Commands run on the host, what their output means for the nftables runtime, and the host
//! capability report.
use vstd::prelude::*;
use crate::errors::AegisError;
use crate::text::{
    chars_of, concat3, contains_chars, contains_seq, contains_str, join, join_strings, lines,
    lines_chars, owned, pieces_are, str_eq, string_of, trim, trim_chars, trim_str, views,
};

verus! {

/// A command to run: a program and its arguments, never through a shell.
#[derive(Debug, Clone, PartialEq, Eq)]
pub struct ProcessRequest {
    pub program: String,
    pub args: Vec<String>,
    pub timeout_seconds: Option<u64>,
}

impl ProcessRequest {
    /// A request with the default timeout of 10 seconds.
    pub fn new(program: &str, args: Vec<String>) -> (r: Self)
        ensures
            r.program@ == program@,
            r.args == args,
            r.timeout_seconds == Some(10u64),
    {
        ProcessRequest { program: owned(program), args, timeout_seconds: Some(10) }
    }
}

/// What a finished command gave back.
#[derive(Debug, Clone, PartialEq, Eq)]
pub struct ProcessOutput {
    pub status_code: i32,
    pub stdout: String,
    pub stderr: String,
}

impl ProcessOutput {
    /// A successful run (status 0) that printed `stdout`.
    pub fn success(stdout: &str) -> (r: Self)
        ensures
            r.status_code == 0,
            r.stdout@ == stdout@,
            r.stderr@.len() == 0,
    {
        ProcessOutput { status_code: 0, stdout: owned(stdout), stderr: String::new() }
    }

    /// A failed run with status `code` that printed `stderr`.
    pub fn failure(code: i32, stderr: &str) -> (r: Self)
        ensures
            r.status_code == code,
            r.stdout@.len() == 0,
            r.stderr@ == stderr@,
    {
        ProcessOutput { status_code: code, stdout: String::new(), stderr: owned(stderr) }
    }

    /// Whether the command exited with status 0.
    pub fn is_success(&self) -> (r: bool)
        ensures
            r == (self.status_code == 0),
    {
        self.status_code == 0
    }
}

/// A copy of an output.
pub fn copy_output(o: &ProcessOutput) -> (r: ProcessOutput)
    ensures
        r == *o,
{
    ProcessOutput { status_code: o.status_code, stdout: o.stdout.clone(), stderr: o.stderr.clone() }
}

/// Runs commands on the host with `tokio::process::Command` and a timeout.
pub struct DefaultProcessRunner;

impl DefaultProcessRunner {
    pub fn new() -> (r: Self) {
        DefaultProcessRunner
    }
}

impl Default for DefaultProcessRunner {
    fn default() -> (r: Self) {
        DefaultProcessRunner
    }
}

/// The command line of a request: the program followed by its arguments, joined by single
/// spaces (`nft list tables`).
pub open spec fn command_line(program: Seq<char>, args: Seq<Seq<char>>) -> Seq<char> {
    join(seq![program] + args, " "@)
}

/// The command line of `request`.
pub fn command_text(request: &ProcessRequest) -> (r: String)
    ensures
        r@ == command_line(request.program@, views(request.args@)),
{
    let mut parts: Vec<String> = Vec::new();
    parts.push(request.program.clone());
    let mut i: usize = 0;
    while i < request.args.len()
        invariant
            i <= request.args@.len(),
            views(parts@) == seq![request.program@] + views(request.args@).take(i as int),
        decreases request.args.len() - i,
    {
        let ghost before = views(parts@);
        parts.push(request.args[i].clone());
        assert(views(parts@) =~= before.push(request.args@[i as int]@));
        assert(views(request.args@).take(i + 1) =~= views(request.args@).take(i as int).push(
            request.args@[i as int]@,
        ));
        i = i + 1;
    }
    assert(views(request.args@).take(request.args@.len() as int) =~= views(request.args@));
    join_strings(parts.as_slice(), " ")
}

/// Canned outputs by command line (program and arguments joined by single spaces), for
/// tests that run without root or a kernel.
pub struct MockProcessRunner {
    mock_responses: Vec<(String, ProcessOutput)>,
}

/// The output registered last under command line `command`, if any.
pub open spec fn registered(responses: Seq<(String, ProcessOutput)>, command: Seq<char>) -> Option<
    ProcessOutput,
>
    decreases responses.len(),
{
    if responses.len() == 0 {
        None
    } else if responses.last().0@ == command {
        Some(responses.last().1)
    } else {
        registered(responses.drop_last(), command)
    }
}

impl MockProcessRunner {
    /// The registered outputs, oldest first.
    pub closed spec fn responses(&self) -> Seq<(String, ProcessOutput)> {
        self.mock_responses@
    }

    /// A runner with no canned output.
    pub fn new() -> (r: Self)
        ensures
            r.responses().len() == 0,
    {
        MockProcessRunner { mock_responses: Vec::new() }
    }

    /// From now on, the command line `command` answers with `output`.
    pub fn register_response(&mut self, command: &str, output: ProcessOutput)
        ensures
            registered(final(self).responses(), command@) == Some(output),
            forall|p: Seq<char>|
                p != command@ ==> registered(final(self).responses(), p) == registered(
                    old(self).responses(),
                    p,
                ),
    {
        let ghost before = self.mock_responses@;
        self.mock_responses.push((owned(command), output));
        assert(self.mock_responses@.drop_last() =~= before);
    }

    /// Same as `register_response`.
    pub fn set_response(&mut self, command: &str, output: ProcessOutput)
        ensures
            registered(final(self).responses(), command@) == Some(output),
            forall|p: Seq<char>|
                p != command@ ==> registered(final(self).responses(), p) == registered(
                    old(self).responses(),
                    p,
                ),
    {
        self.register_response(command, output);
    }

    /// What running `request` gives: the output registered under its command line, or a
    /// success with empty output.
    pub fn response_for(&self, request: &ProcessRequest) -> (r: ProcessOutput)
        ensures
            match registered(
                self.responses(),
                command_line(request.program@, views(request.args@)),
            ) {
                Some(o) => r == o,
                None => r.status_code == 0 && r.stdout@.len() == 0 && r.stderr@.len() == 0,
            },
    {
        let command = command_text(request);
        let mut j: usize = self.mock_responses.len();
        assert(self.mock_responses@.take(j as int) =~= self.mock_responses@);
        while j > 0
            invariant
                j <= self.mock_responses@.len(),
                command@ == command_line(request.program@, views(request.args@)),
                registered(self.mock_responses@, command@) == registered(
                    self.mock_responses@.take(j as int),
                    command@,
                ),
            decreases j,
        {
            if str_eq(self.mock_responses[j - 1].0.as_str(), command.as_str()) {
                return copy_output(&self.mock_responses[j - 1].1);
            }
            assert(self.mock_responses@.take(j as int).drop_last() =~= self.mock_responses@.take(
                j - 1,
            ));
            j = j - 1;
        }
        ProcessOutput { status_code: 0, stdout: String::new(), stderr: String::new() }
    }
}

// ───────────────────────── nftables runtime ─────────────────────────

/// Runtime state of the managed firewall.
#[derive(Debug, Clone, PartialEq, Eq)]
pub struct FirewallState {
    pub managed_tables: Vec<String>,
    pub rules_count: usize,
    pub active_policy_hash: Option<String>,
}

/// A line of a listed ruleset that holds a rule: it has a counter or an AegisNode rule
/// comment.
pub open spec fn is_rule_line(l: Seq<char>) -> bool {
    contains_seq(l, "counter"@) || contains_seq(l, "comment \"aegis:rule:"@)
}

/// The number of rule lines.
pub open spec fn rule_lines(ls: Seq<Seq<char>>) -> nat
    decreases ls.len(),
{
    if ls.len() == 0 {
        0
    } else {
        rule_lines(ls.drop_last()) + if is_rule_line(ls.last()) {
            1nat
        } else {
            0nat
        }
    }
}

/// The text that a listing command gave: its output when it succeeded, nothing otherwise.
pub fn listing_text(output: &ProcessOutput) -> (r: String)
    ensures
        r@ == if output.status_code == 0 {
            output.stdout@
        } else {
            seq![]
        },
{
    if output.is_success() {
        output.stdout.clone()
    } else {
        String::new()
    }
}

/// The firewall state that the listing of the managed table shows: the table when the
/// listing is not empty, and the number of its rule lines.
pub fn firewall_state_from(managed_ruleset: &str) -> (r: FirewallState)
    ensures
        r.rules_count == rule_lines(lines(managed_ruleset@)),
        r.managed_tables@.len() == if managed_ruleset@.len() > 0 {
            1int
        } else {
            0int
        },
        managed_ruleset@.len() > 0 ==> r.managed_tables@[0]@ == "inet aegis_filter"@,
        r.active_policy_hash is None,
{
    let cs = chars_of(managed_ruleset);
    let ls = lines_chars(cs.as_slice());
    let ghost spec_lines = lines(managed_ruleset@);
    let counter = chars_of("counter");
    let comment = chars_of("comment \"aegis:rule:");
    let mut count: usize = 0;
    let mut i: usize = 0;
    assert(spec_lines.take(0) =~= seq![]);
    while i < ls.len()
        invariant
            pieces_are(ls@, spec_lines),
            i <= ls@.len(),
            counter@ == "counter"@,
            comment@ == "comment \"aegis:rule:"@,
            count as nat == rule_lines(spec_lines.take(i as int)),
            count <= i,
        decreases ls.len() - i,
    {
        assert(spec_lines.take(i + 1).drop_last() =~= spec_lines.take(i as int));
        assert(ls@[i as int]@ == spec_lines[i as int]);
        if contains_chars(ls[i].as_slice(), counter.as_slice()) || contains_chars(
            ls[i].as_slice(),
            comment.as_slice(),
        ) {
            count = count + 1;
        }
        i = i + 1;
    }
    assert(spec_lines.take(spec_lines.len() as int) =~= spec_lines);
    let mut tables: Vec<String> = Vec::new();
    if cs.len() > 0 {
        tables.push(owned("inet aegis_filter"));
    }
    FirewallState { managed_tables: tables, rules_count: count, active_policy_hash: None }
}

/// Outcome of an `nft` run that loads or checks a ruleset: success, or a firewall error
/// that quotes `what` and the command's error output.
pub fn nft_run_outcome(output: &ProcessOutput, what: &str) -> (r: Result<(), AegisError>)
    ensures
        r is Ok <==> output.status_code == 0,
        match r {
            Ok(_) => true,
            Err(AegisError::Firewall(m)) => m@ == what@ + ": "@ + output.stderr@,
            Err(_) => false,
        },
{
    if output.is_success() {
        Ok(())
    } else {
        Err(AegisError::Firewall(concat3(what, ": ", output.stderr.as_str())))
    }
}

/// What restoring a snapshot does: an empty ruleset means destroying the managed table,
/// anything else is loaded as it is.
#[derive(Debug, Clone, Copy, PartialEq, Eq, Structural)]
pub enum RestoreAction {
    DestroyManagedTable,
    LoadRuleset,
}

/// How a snapshot with ruleset `content` is restored.
pub fn restore_action(content: &str) -> (r: RestoreAction)
    ensures
        r == if trim(content@).len() == 0 {
            RestoreAction::DestroyManagedTable
        } else {
            RestoreAction::LoadRuleset
        },
{
    let t = trim_str(content);
    if t.as_str().unicode_len() == 0 {
        RestoreAction::DestroyManagedTable
    } else {
        RestoreAction::LoadRuleset
    }
}

// ───────────────────────── host capabilities ─────────────────────────

/// What the host offers to run nftables.
#[derive(Debug, Clone, PartialEq, Eq)]
pub struct NftCapabilityReport {
    pub nft_installed: bool,
    pub nft_version: String,
    pub has_permissions: bool,
    pub kernel_support: bool,
    pub ipv6_support: bool,
}

/// The capability report from the output of `nft --version` and of `nft list tables`
/// (`None` when the command could not be run) and whether `/proc/sys/net/ipv6` exists.
///
/// Without a working `nft` nothing else is looked at. With one, listing the tables shows
/// kernel support and permissions, or kernel support alone when it is refused for want of
/// permission.
pub fn capability_report(
    version_out: Option<&ProcessOutput>,
    tables_out: Option<&ProcessOutput>,
    ipv6_present: bool,
) -> (r: NftCapabilityReport)
    ensures
        r.nft_installed == (version_out matches Some(o) && o.status_code == 0),
        r.nft_installed ==> r.nft_version@ == trim(version_out->Some_0.stdout@),
        !r.nft_installed ==> {
            &&& r.nft_version@.len() == 0
            &&& !r.has_permissions
            &&& !r.kernel_support
            &&& !r.ipv6_support
        },
        r.nft_installed ==> {
            &&& r.ipv6_support == ipv6_present
            &&& r.has_permissions == (tables_out matches Some(o) && o.status_code == 0)
            &&& r.kernel_support == (tables_out matches Some(o) && (o.status_code == 0
                || contains_seq(o.stderr@, "Permission denied"@) || contains_seq(
                o.stderr@,
                "Operation not permitted"@,
            )))
        },
{
    let mut report = NftCapabilityReport {
        nft_installed: false,
        nft_version: String::new(),
        has_permissions: false,
        kernel_support: false,
        ipv6_support: false,
    };
    match version_out {
        Some(o) => {
            if o.is_success() {
                report.nft_installed = true;
                report.nft_version = trim_str(o.stdout.as_str());
            }
        },
        None => {},
    }
    if !report.nft_installed {
        return report;
    }
    match tables_out {
        Some(o) => {
            if o.is_success() {
                report.has_permissions = true;
                report.kernel_support = true;
            } else if contains_str(o.stderr.as_str(), "Permission denied") || contains_str(
                o.stderr.as_str(),
                "Operation not permitted",
            ) {
                report.kernel_support = true;
                report.has_permissions = false;
            }
        },
        None => {},
    }
    report.ipv6_support = ipv6_present;
    report
}

} // verus!
