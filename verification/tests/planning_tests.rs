use sup::config::Network;
use sup::dispatch::{
    failure_policy, format_relayed_line, format_stderr_line, invocation_outcome, plan_batches,
    plan_fanout, plan_interactive, plan_once, select_mode, ssh_command_args, ssh_interactive_args,
    ssh_run_args, FailurePolicy, FanoutItem, HostOutcome, Mode,
};
use sup::envmap::EnvMap;
use sup::errors::ExecError;
use sup::executor::Executor;
use sup::host::HostIdentity;
use sup::resolve::{merge_hosts, parse_inventory_output};
use sup::text::trim_str;

fn hosts(v: &[&str]) -> Vec<String> {
    v.iter().map(|s| s.to_string()).collect()
}

#[test]
fn test_parse_host_identity() {
    let h = HostIdentity::parse("alex@bigbox").unwrap();
    assert_eq!(h.username, "alex");
    assert_eq!(h.hostname, "bigbox");

    // The literal splits at the first `@`.
    let h = HostIdentity::parse("a@b@c").unwrap();
    assert_eq!(h.username, "a");
    assert_eq!(h.hostname, "b@c");

    // A literal without `@` fails.
    let e = HostIdentity::parse("nohost").unwrap_err();
    assert_eq!(e, ExecError::HostMissingAt { host: "nohost".to_string() });
}

#[test]
fn test_host_to_string() {
    let h = HostIdentity::parse("alex@100.106.66.7").unwrap();
    assert_eq!(h.to_string(), "alex@100.106.66.7");
}

#[test]
fn test_mode_selection() {
    assert_eq!(select_mode(true, true, Some(2)), Mode::Interactive);
    assert_eq!(select_mode(false, true, Some(2)), Mode::Once);
    assert_eq!(select_mode(false, false, Some(3)), Mode::Serial(3));
    assert_eq!(select_mode(false, false, None), Mode::Parallel);
}

#[test]
fn test_serial_batches() {
    // Five hosts with batch size two give ceil(5/2) = 3 ordered batches.
    let hs = hosts(&["a@1", "b@2", "c@3", "d@4", "e@5"]);
    let batches = plan_batches(&hs, 2).unwrap();
    assert_eq!(batches.len(), 3);
    assert_eq!(batches[0], hosts(&["a@1", "b@2"]));
    assert_eq!(batches[1], hosts(&["c@3", "d@4"]));
    assert_eq!(batches[2], hosts(&["e@5"]));

    // A batch size covering everything gives one batch.
    let batches = plan_batches(&hs, 10).unwrap();
    assert_eq!(batches.len(), 1);
    assert_eq!(batches[0], hs);

    // No hosts, no batches.
    let batches = plan_batches(&hosts(&[]), 4).unwrap();
    assert_eq!(batches.len(), 0);

    // A batch size of zero is rejected before scheduling.
    assert_eq!(plan_batches(&hs, 0).unwrap_err(), ExecError::ZeroBatchSize);
}

#[test]
fn test_once_mode() {
    // Once mode runs exactly on the first host.
    let hs = hosts(&["h1@x", "h2@y", "h3@z"]);
    let t = plan_once(&hs).unwrap().unwrap();
    assert_eq!(t.username, "h1");
    assert_eq!(t.hostname, "x");

    // An empty filtered list succeeds with no session.
    assert!(plan_once(&hosts(&[])).unwrap().is_none());

    // A malformed first literal is fatal here.
    let e = plan_once(&hosts(&["bad", "h2@y"])).unwrap_err();
    assert_eq!(e, ExecError::HostMissingAt { host: "bad".to_string() });
}

#[test]
fn test_interactive_single_host() {
    let hs = hosts(&["h1@x"]);
    let t = plan_interactive(&hs).unwrap();
    assert_eq!(t.username, "h1");
}

#[test]
fn test_interactive_multiple_hosts() {
    // Anything but exactly one filtered host fails fatally, before any
    // session is attempted.
    let hs = hosts(&["h1@x", "h2@y"]);
    let e = plan_interactive(&hs).unwrap_err();
    assert_eq!(e, ExecError::InteractiveHostCount { count: 2 });
    let e = plan_interactive(&hosts(&[])).unwrap_err();
    assert_eq!(e, ExecError::InteractiveHostCount { count: 0 });
}

#[test]
fn test_fanout_contained_failure() {
    // A malformed literal affects only its own entry of the plan.
    let hs = hosts(&["good@h", "bad"]);
    let plan = plan_fanout(&hs);
    assert_eq!(plan.len(), 2);
    match &plan[0] {
        FanoutItem::Session(h) => {
            assert_eq!(h.username, "good");
            assert_eq!(h.hostname, "h");
        }
        FanoutItem::Invalid(_) => panic!("first host should parse"),
    }
    match &plan[1] {
        FanoutItem::Invalid(s) => assert_eq!(s, "bad"),
        FanoutItem::Session(_) => panic!("second host should not parse"),
    }

    // One failed host and one successful host still report overall success
    // under the fan-out policy.
    let outcomes = vec![
        HostOutcome { host: "a@1".to_string(), ok: false },
        HostOutcome { host: "b@2".to_string(), ok: true },
    ];
    let policy = failure_policy(&select_mode(false, false, None));
    assert_eq!(policy, FailurePolicy::Contained);
    assert!(invocation_outcome(policy, &outcomes));

    // The single-host policy is fatal on any failure.
    assert!(!invocation_outcome(FailurePolicy::Fatal, &outcomes));
    assert!(invocation_outcome(FailurePolicy::Fatal, &Vec::new()));
}

#[test]
fn test_ssh_argument_lists() {
    let h = HostIdentity::parse("alex@box").unwrap();
    assert_eq!(ssh_run_args(&h, "echo hi"), hosts(&["alex@box", "sh", "-c", "echo hi"]));
    assert_eq!(ssh_interactive_args(&h, "bash"), hosts(&["-tt", "alex@box", "bash"]));
    assert_eq!(ssh_command_args(&h, "mkdir -p '/tmp/'"), hosts(&["alex@box", "mkdir -p '/tmp/'"]));
}

#[test]
fn test_output_formatting() {
    assert_eq!(format_relayed_line("host1", "all good", false), "host1 all good");
    assert_eq!(format_relayed_line("host1", "all good", true), "all good");
    assert_eq!(format_stderr_line("boom"), "stderr: boom");
}

#[test]
fn test_inventory_parsing() {
    // Lines are trimmed, empty lines dropped, order kept.
    let out = "a@x\n  b@y  \n\n\tc@z\n";
    assert_eq!(parse_inventory_output(out), hosts(&["a@x", "b@y", "c@z"]));
    assert_eq!(parse_inventory_output(""), hosts(&[]));
    assert_eq!(parse_inventory_output("   \n \n"), hosts(&[]));
}

#[test]
fn test_merge_hosts_keeps_duplicates() {
    // Static hosts come first; a host listed by both sources is kept twice.
    let stat = hosts(&["a@x"]);
    let inv = hosts(&["a@x", "c@z"]);
    assert_eq!(merge_hosts(&stat, &inv), hosts(&["a@x", "a@x", "c@z"]));
}

#[test]
fn test_filter_hosts() {
    let network = Network { hosts: hosts(&[]), inventory: None, env: EnvMap::new() };
    let ex = Executor::new(
        network,
        EnvMap::new(),
        Some("^alex".to_string()),
        Some("prod".to_string()),
        false,
    )
    .unwrap();
    let candidates = hosts(&["alex@dev", "alex@prod", "bob@dev"]);
    assert_eq!(ex.filter_hosts(&candidates), hosts(&["alex@dev"]));
}

#[test]
fn test_invalid_filter_pattern() {
    let network = Network { hosts: hosts(&[]), inventory: None, env: EnvMap::new() };
    let e = Executor::new(network, EnvMap::new(), Some("[".to_string()), None, false).unwrap_err();
    assert_eq!(e, ExecError::InvalidPattern { pattern: "[".to_string() });
}

#[test]
fn test_resolve_hosts() {
    // Static hosts, then inventory lines, then filtering, duplicates kept.
    let network = Network { hosts: hosts(&["alex@dev"]), inventory: None, env: EnvMap::new() };
    let ex =
        Executor::new(network, EnvMap::new(), None, Some("skip".to_string()), false).unwrap();
    let resolved = ex.resolve_hosts(Some("alex@dev\nbob@skipme\n carol@z \n"));
    assert_eq!(resolved, hosts(&["alex@dev", "alex@dev", "carol@z"]));
    let resolved = ex.resolve_hosts(None);
    assert_eq!(resolved, hosts(&["alex@dev"]));
}

#[test]
fn test_trim() {
    assert_eq!(trim_str("  a b \t\r\n"), "a b");
    assert_eq!(trim_str(""), "");
    assert_eq!(trim_str("   "), "");
    // The whole Unicode whitespace set is trimmed, as std's trim does.
    assert_eq!(trim_str("\u{000C}\u{00A0} x \u{3000}\u{2028}"), "x");
}
