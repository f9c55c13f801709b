use sup::config::{Command, Network, Supfile, Upload};
use sup::envmap::{build_environment, parse_env_override, EnvMap};
use sup::errors::ExecError;
use sup::executor::{command_stages, local_shell_args, Stage};

fn env_of(pairs: &[(&str, &str)]) -> EnvMap {
    let mut m = EnvMap::new();
    for (k, v) in pairs {
        m.insert(k.to_string(), v.to_string());
    }
    m
}

fn plain_command(run: Option<&str>) -> Command {
    Command {
        desc: None,
        local: None,
        run: run.map(|s| s.to_string()),
        script: None,
        upload: None,
        stdin: false,
        once: false,
        serial: None,
    }
}

fn sample_supfile() -> Supfile {
    let build = Command { desc: Some("Build".to_string()), ..plain_command(Some("make")) };
    let test = plain_command(Some("make test"));
    Supfile {
        version: "0.4".to_string(),
        env: env_of(&[("GLOBAL", "value")]),
        networks: vec![(
            "dev".to_string(),
            Network {
                hosts: vec!["alex@bigbox".to_string()],
                inventory: None,
                env: env_of(&[("LOCAL", "dev_value")]),
            },
        )],
        commands: vec![("build".to_string(), build), ("test".to_string(), test)],
        targets: vec![("deploy".to_string(), vec!["build".to_string(), "test".to_string()])],
    }
}

#[test]
fn test_env_precedence() {
    // Process X=1, global X=2, network X=3, CLI override X=4: the override
    // wins; dropping it leaves the network value.
    let process = env_of(&[("X", "1"), ("HOME", "/home/alex")]);
    let global = env_of(&[("X", "2")]);
    let network = env_of(&[("X", "3")]);
    let overrides = env_of(&[("X", "4")]);
    let merged = build_environment(
        process.duplicate(),
        "2024-01-01T00:00:00".to_string(),
        "alex".to_string(),
        "dev".to_string(),
        &global,
        &network,
        &overrides,
    );
    assert_eq!(merged.get("X"), Some(&"4".to_string()));
    assert_eq!(merged.get("HOME"), Some(&"/home/alex".to_string()));
    assert_eq!(merged.get("SUP_TIME"), Some(&"2024-01-01T00:00:00".to_string()));
    assert_eq!(merged.get("SUP_USER"), Some(&"alex".to_string()));
    assert_eq!(merged.get("SUP_NETWORK"), Some(&"dev".to_string()));
    assert_eq!(merged.get("MISSING"), None);

    let merged = build_environment(
        process.duplicate(),
        "2024-01-01T00:00:00".to_string(),
        "alex".to_string(),
        "dev".to_string(),
        &global,
        &network,
        &EnvMap::new(),
    );
    assert_eq!(merged.get("X"), Some(&"3".to_string()));
}

#[test]
fn test_env_insert_overwrites() {
    let mut m = EnvMap::new();
    m.insert("X".to_string(), "1".to_string());
    m.insert("X".to_string(), "2".to_string());
    assert_eq!(m.get("X"), Some(&"2".to_string()));
}

#[test]
fn test_parse_env_override() {
    assert_eq!(parse_env_override("KEY=VALUE"), Some(("KEY".to_string(), "VALUE".to_string())));
    // The split happens at the first `=`; later ones stay in the value.
    assert_eq!(parse_env_override("KEY=a=b"), Some(("KEY".to_string(), "a=b".to_string())));
    assert_eq!(parse_env_override("KEY"), None);
}

#[test]
fn test_expand_invocation() {
    let sup = sample_supfile();

    // A target expands to its referenced commands, in order.
    let cmds = sup.expand_invocation("deploy").unwrap();
    assert_eq!(cmds.len(), 2);
    assert_eq!(cmds[0].run.as_deref(), Some("make"));
    assert_eq!(cmds[1].run.as_deref(), Some("make test"));

    // A plain command name gives that one command.
    let cmds = sup.expand_invocation("build").unwrap();
    assert_eq!(cmds.len(), 1);
    assert_eq!(cmds[0].desc.as_deref(), Some("Build"));

    // An unknown name is a fatal configuration error.
    let e = sup.expand_invocation("missing").unwrap_err();
    assert_eq!(e, ExecError::UnknownCommand { name: "missing".to_string() });
}

#[test]
fn test_expand_target_with_missing_command() {
    let mut sup = sample_supfile();
    sup.targets = vec![(
        "deploy".to_string(),
        vec!["build".to_string(), "push".to_string(), "test".to_string()],
    )];
    let e = sup.expand_invocation("deploy").unwrap_err();
    assert_eq!(e, ExecError::UnknownCommand { name: "push".to_string() });
}

#[test]
fn test_require_network() {
    let sup = sample_supfile();
    let net = sup.require_network("dev").unwrap();
    assert_eq!(net.hosts, vec!["alex@bigbox".to_string()]);
    let e = sup.require_network("staging").unwrap_err();
    assert_eq!(e, ExecError::UnknownNetwork { name: "staging".to_string() });
}

#[test]
fn test_command_stages_order() {
    let cmd = Command {
        desc: None,
        local: Some("make dist".to_string()),
        run: Some("systemctl restart app".to_string()),
        script: Some("./scripts/health.sh".to_string()),
        upload: Some(vec![Upload { src: "./dist".to_string(), dst: "/tmp/".to_string() }]),
        stdin: false,
        once: false,
        serial: None,
    };
    let stages = command_stages(&cmd);
    assert_eq!(stages.len(), 4);
    assert!(matches!(&stages[0], Stage::Local(c) if c == "make dist"));
    assert!(matches!(&stages[1], Stage::Script(s) if s == "./scripts/health.sh"));
    assert!(matches!(&stages[2], Stage::Run(r) if r == "systemctl restart app"));
    assert!(matches!(&stages[3], Stage::Uploads));

    let stages = command_stages(&plain_command(None));
    assert_eq!(stages.len(), 0);

    let stages = command_stages(&plain_command(Some("uptime")));
    assert_eq!(stages.len(), 1);
    assert!(matches!(&stages[0], Stage::Run(r) if r == "uptime"));
}

#[test]
fn test_local_shell_args() {
    assert_eq!(local_shell_args("echo hi"), vec!["-c".to_string(), "echo hi".to_string()]);
}

#[test]
fn test_error_messages() {
    let e = ExecError::HostMissingAt { host: "bad".to_string() };
    assert_eq!(e.describe(), "host must be in format user@host: bad");
    let e = ExecError::InteractiveHostCount { count: 3 };
    assert_eq!(e.describe(), "interactive mode requires exactly one host");
    assert_eq!(ExecError::ZeroBatchSize.describe(), "serial batch size must be positive");
    let e = ExecError::InvalidPattern { pattern: "[".to_string() };
    assert_eq!(e.describe(), "invalid host filter pattern: [");
    let e = ExecError::UnknownNetwork { name: "prod".to_string() };
    assert_eq!(e.describe(), "network not found: prod");
    let e = ExecError::UnknownCommand { name: "ship".to_string() };
    assert_eq!(e.describe(), "command not found: ship");
    let e = ExecError::InvalidUploadSource { src: "/".to_string() };
    assert_eq!(e.describe(), "upload source has no base name: /");
}
