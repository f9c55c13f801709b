use vstd::prelude::*;

use crate::errors::ExecError;
use crate::host::HostIdentity;
use crate::text::find_idx;

verus! {

/// The four concurrency strategies for a remote `run` stage.
#[derive(Debug, PartialEq, Eq)]
pub enum Mode {
    Interactive,
    Once,
    Serial(usize),
    Parallel,
}

/// The mode a command's flags select, in priority order: the interactive
/// (stdin) flag first, then the once flag, then a configured serial batch
/// size, and parallel by default.
pub open spec fn mode_spec(stdin_flag: bool, once: bool, serial: Option<usize>) -> Mode {
    if stdin_flag {
        Mode::Interactive
    } else if once {
        Mode::Once
    } else {
        match serial {
            Some(b) => Mode::Serial(b),
            None => Mode::Parallel,
        }
    }
}

/// Select the concurrency mode from a command's flags.
pub fn select_mode(stdin_flag: bool, once: bool, serial: Option<usize>) -> (m: Mode)
    ensures
        m == mode_spec(stdin_flag, once, serial),
{
    if stdin_flag {
        Mode::Interactive
    } else if once {
        Mode::Once
    } else {
        match serial {
            Some(b) => Mode::Serial(b),
            None => Mode::Parallel,
        }
    }
}

/// How a per-host failure is treated in each mode: fatal to the invocation
/// in the single-host modes, contained to that host in the fan-out modes.
#[derive(Debug, Clone, Copy, PartialEq, Eq)]
pub enum FailurePolicy {
    Fatal,
    Contained,
}

/// The failure policy of a mode, as one auditable value rather than
/// scattered error-handling branches.
pub fn failure_policy(m: &Mode) -> (p: FailurePolicy)
    ensures
        (m is Interactive || m is Once) ==> p is Fatal,
        (m is Serial || m is Parallel) ==> p is Contained,
{
    match m {
        Mode::Interactive => FailurePolicy::Fatal,
        Mode::Once => FailurePolicy::Fatal,
        Mode::Serial(_) => FailurePolicy::Contained,
        Mode::Parallel => FailurePolicy::Contained,
    }
}

/// What one host's session came to, as reported to the outcome decision.
pub struct HostOutcome {
    pub host: String,
    pub ok: bool,
}

/// Whether the invocation as a whole succeeds given the per-host outcomes.
/// Under the contained policy the invocation reports success whatever the
/// individual hosts did; under the fatal policy every outcome must be good.
pub fn invocation_outcome(policy: FailurePolicy, outcomes: &Vec<HostOutcome>) -> (ok: bool)
    ensures
        policy is Contained ==> ok,
        policy is Fatal ==> (ok <==> (forall|i: int|
            0 <= i < outcomes@.len() ==> #[trigger] outcomes@[i].ok)),
{
    match policy {
        FailurePolicy::Contained => true,
        FailurePolicy::Fatal => all_outcomes_ok(outcomes),
    }
}

/// Whether every host outcome in the batch succeeded.
fn all_outcomes_ok(outcomes: &Vec<HostOutcome>) -> (ok: bool)
    ensures
        ok <==> (forall|i: int| 0 <= i < outcomes@.len() ==> #[trigger] outcomes@[i].ok),
{
    let n = outcomes.len();
    let mut i: usize = 0;
    while i < n
        invariant
            n == outcomes@.len(),
            0 <= i <= n,
            forall|j: int| 0 <= j < i ==> #[trigger] outcomes@[j].ok,
        decreases n - i,
    {
        if !outcomes[i].ok {
            return false;
        }
        i = i + 1;
    }
    true
}

/// Partition the filtered host list into consecutive batches of `batch_size`
/// hosts, preserving order; the last batch may be shorter. A batch size of
/// zero is invalid input and is rejected before any scheduling.
pub fn plan_batches(hosts: &Vec<String>, batch_size: usize) -> (r: Result<
    Vec<Vec<String>>,
    ExecError,
>)
    ensures
        batch_size == 0 <==> (r matches Err(e) && e is ZeroBatchSize),
        batch_size > 0 ==> (r matches Ok(batches) && {
            let n = hosts@.len() as int;
            let b = batch_size as int;
            &&& batches@.len() == (n + b - 1) / b
            &&& forall|i: int|
                0 <= i < batches@.len() ==> #[trigger] batches@[i]@ == hosts@.subrange(
                    i * b,
                    if (i + 1) * b <= n {
                        (i + 1) * b
                    } else {
                        n
                    },
                )
        }),
{
    if batch_size == 0 {
        return Err(ExecError::ZeroBatchSize);
    }
    let n = hosts.len();
    let ghost gb = batch_size as int;
    let ghost gn = n as int;
    let mut batches: Vec<Vec<String>> = Vec::new();
    let mut idx: usize = 0;
    proof {
        assert(0 * gb == 0) by (nonlinear_arith);
    }
    while idx < n
        invariant
            n == hosts@.len(),
            gb == batch_size as int,
            gn == n as int,
            batch_size >= 1,
            0 <= idx <= n,
            idx < n ==> idx == batches@.len() * gb,
            idx == n ==> batches@.len() * gb >= gn,
            batches@.len() * gb <= idx + gb - 1,
            forall|i: int|
                0 <= i < batches@.len() ==> #[trigger] batches@[i]@ == hosts@.subrange(
                    i * gb,
                    if (i + 1) * gb <= gn {
                        (i + 1) * gb
                    } else {
                        gn
                    },
                ),
        decreases n - idx,
    {
        let take = if n - idx < batch_size {
            n - idx
        } else {
            batch_size
        };
        let ghost start = idx as int;
        let ghost blen = batches@.len() as int;
        let mut chunk: Vec<String> = Vec::new();
        let mut j: usize = 0;
        while j < take
            invariant
                n == hosts@.len(),
                idx + take <= n,
                0 <= j <= take,
                chunk@.len() == j,
                forall|q: int| 0 <= q < j ==> #[trigger] chunk@[q] == hosts@[start + q],
                start == idx as int,
            decreases take - j,
        {
            chunk.push(hosts[idx + j].clone());
            j = j + 1;
        }
        proof {
            assert(chunk@ =~= hosts@.subrange(start, start + take as int));
            assert((blen + 1) * gb == blen * gb + gb) by (nonlinear_arith);
        }
        batches.push(chunk);
        idx = idx + take;
        proof {
            let newend = if (blen + 1) * gb <= gn {
                (blen + 1) * gb
            } else {
                gn
            };
            assert(start + take as int == newend);
            assert(batches@[blen]@ == hosts@.subrange(blen * gb, newend));
        }
    }
    proof {
        let blen = batches@.len() as int;
        if gn == 0 {
            assert(blen * gb <= gb - 1);
            assert(blen == 0) by (nonlinear_arith)
                requires
                    gb >= 1,
                    blen >= 0,
                    blen * gb <= gb - 1,
            ;
            assert((gn + gb - 1) / gb == 0) by (nonlinear_arith)
                requires
                    gb >= 1,
                    gn == 0,
            ;
        } else {
            assert(blen * gb >= gn && blen * gb <= gn + gb - 1);
            assert(blen == (gn + gb - 1) / gb) by (nonlinear_arith)
                requires
                    gb >= 1,
                    blen * gb >= gn,
                    blen * gb <= gn + gb - 1,
            ;
        }
    }
    Ok(batches)
}

/// The single session once mode runs: the first filtered host, parsed; an
/// empty host list succeeds trivially with no session; a malformed first
/// host literal is fatal here.
pub fn plan_once(hosts: &Vec<String>) -> (r: Result<Option<HostIdentity>, ExecError>)
    ensures
        hosts@.len() == 0 ==> (r matches Ok(t) && t is None),
        hosts@.len() > 0 ==> match find_idx(hosts@[0]@, '@') {
            Some(i) => r matches Ok(t) && t matches Some(h) && h.username@
                == hosts@[0]@.subrange(0, i) && h.hostname@ == hosts@[0]@.subrange(
                i + 1,
                hosts@[0]@.len() as int,
            ),
            None => r matches Err(e) && e matches ExecError::HostMissingAt { host } && host@
                == hosts@[0]@,
        },
{
    if hosts.len() == 0 {
        return Ok(None);
    }
    match HostIdentity::parse(hosts[0].as_str()) {
        Ok(h) => Ok(Some(h)),
        Err(e) => Err(e),
    }
}

/// The single session interactive mode runs: exactly one host must remain
/// after resolution and filtering, else the invocation fails fatally before
/// any session is attempted — an empty list included.
pub fn plan_interactive(hosts: &Vec<String>) -> (r: Result<HostIdentity, ExecError>)
    ensures
        hosts@.len() != 1 ==> (r matches Err(e) && e matches ExecError::InteractiveHostCount {
            count,
        } && count == hosts@.len()),
        hosts@.len() == 1 ==> match find_idx(hosts@[0]@, '@') {
            Some(i) => r matches Ok(h) && h.username@ == hosts@[0]@.subrange(0, i)
                && h.hostname@ == hosts@[0]@.subrange(i + 1, hosts@[0]@.len() as int),
            None => r matches Err(e) && e matches ExecError::HostMissingAt { host } && host@
                == hosts@[0]@,
        },
{
    if hosts.len() != 1 {
        return Err(ExecError::InteractiveHostCount { count: hosts.len() });
    }
    HostIdentity::parse(hosts[0].as_str())
}

/// One planned task of a fan-out batch: either a session on a parsed host
/// identity, or a host literal skipped (and reported) because it had no `@`
/// — a contained failure that must not touch sibling hosts.
pub enum FanoutItem {
    Session(HostIdentity),
    Invalid(String),
}

/// Plan one fan-out batch: each host literal becomes its own task, and a
/// malformed literal affects only its own entry.
pub fn plan_fanout(hosts: &Vec<String>) -> (r: Vec<FanoutItem>)
    ensures
        r@.len() == hosts@.len(),
        forall|i: int|
            0 <= i < hosts@.len() ==> match #[trigger] r@[i] {
                FanoutItem::Session(h) => find_idx(hosts@[i]@, '@') matches Some(k)
                    && h.username@ == hosts@[i]@.subrange(0, k) && h.hostname@
                    == hosts@[i]@.subrange(k + 1, hosts@[i]@.len() as int),
                FanoutItem::Invalid(s) => find_idx(hosts@[i]@, '@') is None && s@ == hosts@[i]@,
            },
{
    let n = hosts.len();
    let mut r: Vec<FanoutItem> = Vec::new();
    let mut i: usize = 0;
    while i < n
        invariant
            n == hosts@.len(),
            0 <= i <= n,
            r@.len() == i,
            forall|q: int|
                0 <= q < i ==> match #[trigger] r@[q] {
                    FanoutItem::Session(h) => find_idx(hosts@[q]@, '@') matches Some(k)
                        && h.username@ == hosts@[q]@.subrange(0, k) && h.hostname@
                        == hosts@[q]@.subrange(k + 1, hosts@[q]@.len() as int),
                    FanoutItem::Invalid(s) => find_idx(hosts@[q]@, '@') is None && s@
                        == hosts@[q]@,
                },
        decreases n - i,
    {
        match HostIdentity::parse(hosts[i].as_str()) {
            Ok(h) => r.push(FanoutItem::Session(h)),
            Err(_) => r.push(FanoutItem::Invalid(hosts[i].clone())),
        }
        i = i + 1;
    }
    r
}

/// The argument list handed to the remote-shell client for one captured
/// session: the target, then the command wrapped to run through a
/// non-interactive shell on the far side.
pub fn ssh_run_args(target: &HostIdentity, prepared_cmd: &str) -> (r: Vec<String>)
    ensures
        r@.len() == 4,
        r@[0]@ == target.render(),
        r@[1]@ == "sh"@,
        r@[2]@ == "-c"@,
        r@[3]@ == prepared_cmd@,
{
    let mut v: Vec<String> = Vec::new();
    v.push(target.to_string());
    v.push(String::from_str("sh"));
    v.push(String::from_str("-c"));
    v.push(String::from_str(prepared_cmd));
    v
}

/// The argument list for an interactive session: force a pseudo-terminal,
/// then the target, then the raw command.
pub fn ssh_interactive_args(target: &HostIdentity, cmd: &str) -> (r: Vec<String>)
    ensures
        r@.len() == 3,
        r@[0]@ == "-tt"@,
        r@[1]@ == target.render(),
        r@[2]@ == cmd@,
{
    let mut v: Vec<String> = Vec::new();
    v.push(String::from_str("-tt"));
    v.push(target.to_string());
    v.push(String::from_str(cmd));
    v
}

/// The argument list for one plain remote command (directory creation and
/// stream extraction in the upload path): the target, then the command.
pub fn ssh_command_args(target: &HostIdentity, remote_cmd: &str) -> (r: Vec<String>)
    ensures
        r@.len() == 2,
        r@[0]@ == target.render(),
        r@[1]@ == remote_cmd@,
{
    let mut v: Vec<String> = Vec::new();
    v.push(target.to_string());
    v.push(String::from_str(remote_cmd));
    v
}

/// How one of a session's standard-error lines is presented.
pub fn format_stderr_line(line: &str) -> (r: String)
    ensures
        r@ == "stderr: "@ + line@,
{
    let mut out = String::from_str("stderr: ");
    out.append(line);
    out
}

/// How one multiplexed output line is presented: the line alone when host
/// prefixing is disabled, else the host name, a space, and the line.
pub fn format_relayed_line(host: &str, line: &str, disable_prefix: bool) -> (r: String)
    ensures
        disable_prefix ==> r@ == line@,
        !disable_prefix ==> r@ == host@ + " "@ + line@,
{
    if disable_prefix {
        String::from_str(line)
    } else {
        let mut out = String::from_str(host);
        out.append(" ");
        out.append(line);
        out
    }
}

} // verus!
