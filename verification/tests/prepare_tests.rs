use sup::config::Network;
use sup::envmap::EnvMap;
use sup::executor::Executor;

fn create_test_executor() -> Executor {
    let network = Network {
        hosts: vec!["test@localhost".to_string()],
        inventory: None,
        env: EnvMap::new(),
    };
    let env = EnvMap::new();
    Executor::new(network, env, None, None, false).unwrap()
}

#[test]
fn test_prepare_remote_command() {
    let executor = create_test_executor();

    // Regular command passes through unchanged.
    let cmd = "echo 'hello world'";
    assert_eq!(executor.prepare_remote_command(cmd), cmd.to_string());

    // Sudo command gets the elevation wrapper.
    let sudo_cmd = "sudo apt-get install -y package";
    let prepared = executor.prepare_remote_command(sudo_cmd);
    assert!(prepared.starts_with("sudo -E bash -c "));
    assert!(prepared.contains("apt-get"));
    assert!(prepared.contains("install"));
    assert!(prepared.contains("package"));

    // Sudo command with complex arguments.
    let complex_sudo = r#"sudo sh -c 'echo "complex argument" > /etc/file'"#;
    let prepared = executor.prepare_remote_command(complex_sudo);
    assert!(prepared.starts_with("sudo -E bash -c "));
    assert!(prepared.contains("complex argument"));
    assert!(prepared.contains("/etc/file"));

    // Sudo command with environment variables.
    let env_sudo = r#"sudo DEBIAN_FRONTEND=noninteractive apt-get install -y package"#;
    let prepared = executor.prepare_remote_command(env_sudo);
    assert!(prepared.starts_with("sudo -E bash -c "));
    assert!(prepared.contains("DEBIAN_FRONTEND=noninteractive"));
    assert!(prepared.contains("apt-get"));
}

#[test]
fn test_sudo_command_whitespace() {
    let executor = create_test_executor();

    // Sudo command with leading whitespace.
    let cmd_with_space = "   sudo apt-get install -y package";
    let prepared = executor.prepare_remote_command(cmd_with_space);
    assert!(prepared.starts_with("sudo -E bash -c "));
    assert!(prepared.contains("apt-get"));

    // Sudo command with multiple spaces.
    let cmd_multi_space = "sudo   apt-get    install   -y    package";
    let prepared = executor.prepare_remote_command(cmd_multi_space);
    assert!(prepared.starts_with("sudo -E bash -c "));
    assert!(prepared.contains("apt-get"));
    assert!(prepared.contains("install"));
    assert!(prepared.contains("package"));
}

#[test]
fn test_prepare_quotes_remainder() {
    // The remainder of a sudo command is run through the shell quoter; a
    // remainder with spaces comes back ANSI-C quoted, so the result must
    // differ from the raw remainder.
    let executor = create_test_executor();
    let prepared = executor.prepare_remote_command("sudo echo hi there");
    assert!(prepared.starts_with("sudo -E bash -c '"));
    assert!(prepared.contains("$'"));
    assert!(prepared.ends_with("'"));

    // A bare sudo token leaves an empty, still-quoted remainder.
    let prepared = executor.prepare_remote_command("sudo");
    assert!(prepared.starts_with("sudo -E bash -c '"));

    // A command whose first token merely begins with "sudo" is untouched.
    let cmd = "sudoedit /etc/hosts";
    assert_eq!(executor.prepare_remote_command(cmd), cmd.to_string());

    // Unicode whitespace counts as whitespace around the sudo token.
    let prepared = executor.prepare_remote_command("\u{000C}sudo\u{00A0}ls -l");
    assert!(prepared.starts_with("sudo -E bash -c "));
    assert!(prepared.contains("ls"));
}
