use contract_deployer::command::{command_line, decimal, forge_command, is_accepted, signed};
use contract_deployer::cli::Args;
use contract_deployer::config::{DeploymentConfig, EnvConfig, NetworkConfig, ProjectConfig};
use contract_deployer::deployer::{
    Action, ContractDeployer, DeployError, ErrorKind, Event, Stage,
};
use contract_deployer::environment::Environment;

const SENDER: &str = "0xaa31349a2eF4A37Dc4Dd742E3b0E32182F524A6A";

fn strings(items: &[&str]) -> Vec<String> {
    items.iter().map(|s| s.to_string()).collect()
}

fn pairs(items: &[(&str, &str)]) -> Vec<(String, String)> {
    items.iter().map(|(k, v)| (k.to_string(), v.to_string())).collect()
}

fn sample_config(repo: Option<&str>, path: Option<&str>) -> DeploymentConfig {
    DeploymentConfig {
        project: ProjectConfig {
            name: "test-contract".to_string(),
            script: "Deploy".to_string(),
            network: "sepolia".to_string(),
            setup_command: "bun install".to_string(),
            repo: repo.map(|s| s.to_string()),
            path: path.map(|s| s.to_string()),
        },
        env: EnvConfig {
            vars: pairs(&[
                ("KEYSTORE_ACCOUNT", "deployer"),
                ("KEYSTORE_PASSWORD", "****"),
                ("BROADCAST_ACCOUNT", SENDER),
            ]),
            load_files: Some(strings(&[".env"])),
        },
        networks: vec![(
            "sepolia".to_string(),
            NetworkConfig {
                chain_id: 11155111,
                rpc_url: "https://eth-sepolia.g.alchemy.com/v2/${ALCHEMY_API_KEY}".to_string(),
                verify: true,
            },
        )],
        extra_args: Some(pairs(&[("gas-limit", "1000000"), ("priority-fee", "2"), ("legacy", "")])),
    }
}

fn environment_read() -> Event {
    Event::EnvironmentRead {
        files: vec![Some("ALCHEMY_API_KEY=abc123\n".to_string())],
        process: pairs(&[("HOME", "/root")]),
    }
}

fn deployer(repo: Option<&str>, skip: bool) -> ContractDeployer {
    ContractDeployer::new(sample_config(repo, Some(" '/work' ")), skip, None, None, strings(&["--legacy"]))
}

fn expected_args() -> Vec<String> {
    strings(&[
        "script",
        "script/Deploy.s.sol",
        "--chain-id",
        "11155111",
        "--rpc-url",
        "sepolia",
        "--broadcast",
        "--verify",
        "--account",
        "deployer",
        "--password",
        "****",
        "--sender",
        SENDER,
        "--resume",
        "--legacy",
    ])
}

/// Drives a deployer without a repository up to the confirmation prompt.
fn at_confirmation() -> ContractDeployer {
    let mut d = deployer(None, false);
    assert!(matches!(d.deploy(Event::Started), Action::LocateCurrentDirectory));
    assert!(matches!(d.deploy(Event::Located("/here".to_string())), Action::ReadEnvironment { .. }));
    assert!(matches!(d.deploy(environment_read()), Action::RunSetup { .. }));
    assert!(matches!(d.deploy(Event::Exited(Some(0))), Action::Confirm { .. }));
    assert_eq!(d.stage, Stage::Confirming);
    d
}

#[test]
fn test_config_parsing() {
    let config = sample_config(None, None);
    assert_eq!(config.project.name, "test-contract");
    assert_eq!(config.project.script, "Deploy");
    assert_eq!(config.project.network, "sepolia");
    assert_eq!(config.get_script_name(), "Deploy.s.sol");
    assert_eq!(config.get_network("sepolia").unwrap().chain_id, 11155111);

    let args = config.extra_args;
    if let None = args {
        assert!(false, "args should be Some");
    }
    let args = args.unwrap();
    let find = |name: &str| args.iter().find(|(k, _)| k == name).map(|(_, v)| v.clone());
    assert_eq!(find("gas-limit"), Some("1000000".to_string()));
    assert_eq!(find("priority-fee"), Some("2".to_string()));
    assert_eq!(find("legacy"), Some("".to_string()));
}

#[test]
fn test_deployer_creation() {
    let mut config = sample_config(None, None);
    config.project.setup_command = "echo 'test'".to_string();
    let d = ContractDeployer::new(config, false, None, None, Vec::new());
    assert_eq!(d.stage, Stage::Created);
    assert!(!d.is_finished());
    assert!(d.failure.is_none());
    assert!(d.context.cleanup_path.is_none());
}

#[test]
fn overrides_replace_network_and_script() {
    let args = Args {
        config: "deploy.toml".to_string(),
        skip_confirmation: true,
        script: Some("Upgrade".to_string()),
        network: Some("mainnet".to_string()),
        extra_args: strings(&["--slow"]),
    };
    let d = ContractDeployer::new(
        sample_config(None, None),
        args.skip_confirmation,
        args.network,
        args.script,
        args.extra_args,
    );
    assert_eq!(d.extra_args, strings(&["--slow"]));
    assert_eq!(d.config.project.network, "mainnet");
    assert_eq!(d.config.project.script, "Upgrade");
    assert_eq!(d.config.project.name, "test-contract");
    assert_eq!(d.config.get_script_name(), "Upgrade.s.sol");
    assert!(d.skip_confirmation);
}

#[test]
fn get_network_finds_by_exact_name() {
    let mut config = sample_config(None, None);
    config.networks.push((
        "sepolia".to_string(),
        NetworkConfig { chain_id: 5, rpc_url: "later".to_string(), verify: false },
    ));
    config.networks.push((
        "mainnet".to_string(),
        NetworkConfig { chain_id: 1, rpc_url: "main".to_string(), verify: true },
    ));
    assert_eq!(config.get_network("sepolia").unwrap().chain_id, 5);
    assert_eq!(config.get_network("mainnet").unwrap().rpc_url, "main");
    assert!(config.get_network("Sepolia").is_none());
    assert!(config.get_network("").is_none());
}

#[test]
fn unknown_network_is_named_in_the_failure() {
    let d = ContractDeployer::new(
        sample_config(None, None),
        false,
        Some("goerli".to_string()),
        None,
        Vec::new(),
    );
    let err: DeployError = d.resolve_network().unwrap_err();
    assert_eq!(err.kind, ErrorKind::Network);
    assert_eq!(err.details, strings(&["goerli"]));
    assert_eq!(err.message(), "Network 'goerli' not found in configuration");
    assert!(err.message().contains("goerli"));
}

#[test]
fn known_network_is_resolved_with_expanded_endpoint() {
    let mut d = deployer(None, false);
    d.env.set("ALCHEMY_API_KEY".to_string(), "abc123".to_string());
    let network = d.resolve_network().unwrap();
    assert_eq!(network.chain_id, 11155111);
    assert!(network.verify);
    assert_eq!(network.rpc_url, "https://eth-sepolia.g.alchemy.com/v2/abc123");
}

#[test]
fn decimal_writes_numbers() {
    assert_eq!(decimal(0), "0");
    assert_eq!(decimal(7), "7");
    assert_eq!(decimal(10), "10");
    assert_eq!(decimal(11155111), "11155111");
    assert_eq!(decimal(u64::MAX), "18446744073709551615");
    assert_eq!(signed(0), "0");
    assert_eq!(signed(-1), "-1");
    assert_eq!(signed(255), "255");
    assert_eq!(signed(i32::MIN), "-2147483648");
    assert_eq!(signed(i32::MAX), "2147483647");
}

#[test]
fn answers_are_accepted_only_as_y_or_yes() {
    for yes in ["y", "Y", "yes", "YES", "Yes", "yEs", "  y\n", "yes\r\n"] {
        assert!(is_accepted(yes), "{:?}", yes);
    }
    for no in ["", "\n", "n", "no", "yess", "ye", "y es", "yy", "ok", "ｙ", "1"] {
        assert!(!is_accepted(no), "{:?}", no);
    }
}

#[test]
fn forge_command_holds_only_defined_credentials() {
    let mut env = Environment::new();
    env.set("KEYSTORE_PASSWORD".to_string(), "pw".to_string());
    let args = forge_command("local", 31337, false, "Deploy.s.sol", &env, &strings(&["-vvv", "--slow"]));
    assert_eq!(
        args,
        strings(&[
            "script",
            "script/Deploy.s.sol",
            "--chain-id",
            "31337",
            "--rpc-url",
            "local",
            "--broadcast",
            "--password",
            "pw",
            "--resume",
            "-vvv",
            "--slow",
        ])
    );
    assert_eq!(
        command_line("local", 31337, false, "Deploy.s.sol", &env),
        "forge script script/Deploy.s.sol --chain-id 31337 --rpc-url local --broadcast --sender  "
    );
}

#[test]
fn summary_lists_api_keys_masked_and_endpoints_in_full() {
    let mut d = deployer(None, false);
    d.env.set("ALCHEMY_API_KEY".to_string(), "s3cret".to_string());
    d.env.set("HOME".to_string(), "/root".to_string());
    d.env.set("SEPOLIA_RPC_URL".to_string(), "https://rpc.example".to_string());
    d.env.set("RPC_URL_API_KEY".to_string(), "both".to_string());
    d.env.set("ETHERSCAN_API_KEY".to_string(), "other".to_string());
    d.env.set("ALCHEMY_API_KEY".to_string(), "s3cret-again".to_string());
    let network = NetworkConfig {
        chain_id: 1,
        rpc_url: "https://x/${ALCHEMY_API_KEY}/${HOME}".to_string(),
        verify: false,
    };
    assert_eq!(
        d.variable_info(),
        strings(&[
            "ALCHEMY_API_KEY: ********",
            "SEPOLIA_RPC_URL: https://rpc.example",
            "RPC_URL_API_KEY: ********",
            "ETHERSCAN_API_KEY: ********",
        ])
    );
    let lines = d.display_deployment_info(&network);
    assert_eq!(
        lines,
        strings(&[
            "PROJECT: test-contract",
            "SCRIPT: Deploy.s.sol",
            "NETWORK: sepolia",
            "CHAIN_ID: 1",
            "RPC_URL: https://x/********//root",
            "VERIFY: false",
            "ALCHEMY_API_KEY: ********",
            "SEPOLIA_RPC_URL: https://rpc.example",
            "RPC_URL_API_KEY: ********",
            "ETHERSCAN_API_KEY: ********",
        ])
    );
    assert!(lines.iter().all(|line| !line.contains("s3cret")));
    let plain = deployer(None, false);
    assert_eq!(plain.variable_info(), Vec::<String>::new());
    assert_eq!(plain.display_deployment_info(&network).len(), 6);
}

#[test]
fn first_step_without_repository_only_locates() {
    let mut d = deployer(None, false);
    assert!(matches!(d.prepare_deployment_context(), Action::LocateCurrentDirectory));
    assert_eq!(d.stage, Stage::LocatingDirectory);
    assert!(d.context.cleanup_path.is_none());
    assert!(matches!(
        d.deploy(Event::Located("/cwd".to_string())),
        Action::ReadEnvironment { .. }
    ));
    assert_eq!(d.context.working_directory, "/cwd");
    assert!(d.context.cleanup_path.is_none());
}

#[test]
fn base_path_is_sanitized_or_defaults() {
    let d = deployer(Some("https://example.com/repo.git"), false);
    assert_eq!(d.get_deployment_base_path(), "/work");
    assert_eq!(d.prepare_repo_deployment(), "/work/test-contract");
    assert_eq!(d.sanitize_path(" \"`/a b`\" "), "/a b");
    let plain = ContractDeployer::new(
        sample_config(Some("https://example.com/repo.git"), None),
        false,
        None,
        None,
        Vec::new(),
    );
    assert_eq!(plain.get_deployment_base_path(), "/tmp");
    assert_eq!(plain.prepare_repo_deployment(), "/tmp/test-contract");
}

#[test]
fn run_with_repository_clears_fetches_and_cleans_up() {
    let url = "https://example.com/repo.git";
    let mut d = deployer(Some(url), false);

    match d.deploy(Event::Started) {
        Action::RemoveDirectory { path } => assert_eq!(path, "/work/test-contract"),
        other => panic!("{:?}", other),
    }
    assert_eq!(d.stage, Stage::ClearingTarget);
    assert!(d.context.cleanup_path.is_none());

    match d.deploy(Event::Completed) {
        Action::CloneRepository { url: u, target } => {
            assert_eq!(u, url);
            assert_eq!(target, "/work/test-contract");
        }
        other => panic!("{:?}", other),
    }

    match d.deploy(Event::Completed) {
        Action::ReadEnvironment { directory, files } => {
            assert_eq!(directory, "/work/test-contract");
            assert_eq!(files, strings(&[".env"]));
        }
        other => panic!("{:?}", other),
    }
    assert_eq!(d.context.cleanup_path, Some("/work/test-contract".to_string()));

    match d.deploy(environment_read()) {
        Action::RunSetup { program, args, directory } => {
            assert_eq!(program, "bun");
            assert_eq!(args, strings(&["install"]));
            assert_eq!(directory, "/work/test-contract");
        }
        other => panic!("{:?}", other),
    }

    match d.deploy(Event::Exited(Some(0))) {
        Action::Confirm { summary, command_line } => {
            assert_eq!(
                summary,
                strings(&[
                    "PROJECT: test-contract",
                    "SCRIPT: Deploy.s.sol",
                    "NETWORK: sepolia",
                    "CHAIN_ID: 11155111",
                    "RPC_URL: https://eth-sepolia.g.alchemy.com/v2/********",
                    "VERIFY: true",
                    "ALCHEMY_API_KEY: ********",
                ])
            );
            assert_eq!(
                command_line,
                format!(
                    "forge script script/Deploy.s.sol --chain-id 11155111 --rpc-url sepolia --broadcast --sender {}  --verify",
                    SENDER
                )
            );
            assert!(!command_line.contains("abc123"));
            assert!(summary.iter().all(|line| !line.contains("abc123")));
        }
        other => panic!("{:?}", other),
    }

    match d.deploy(Event::Answered("yes\n".to_string())) {
        Action::Execute { args, directory, variables } => {
            assert_eq!(args, expected_args());
            assert_eq!(directory, "/work/test-contract");
            let mut env = Environment::new();
            for (k, v) in variables {
                env.set(k, v);
            }
            assert_eq!(env.get("ALCHEMY_API_KEY"), Some(&"abc123".to_string()));
            assert_eq!(env.get("KEYSTORE_ACCOUNT"), Some(&"deployer".to_string()));
            assert_eq!(env.get("HOME"), Some(&"/root".to_string()));
        }
        other => panic!("{:?}", other),
    }

    match d.deploy(Event::Exited(Some(0))) {
        Action::RemoveDirectory { path } => assert_eq!(path, "/work/test-contract"),
        other => panic!("{:?}", other),
    }
    assert_eq!(d.stage, Stage::CleaningUp);
    assert!(matches!(d.deploy(Event::Completed), Action::Finish));
    assert!(d.is_finished());
    assert!(d.succeeded());
    assert!(matches!(d.deploy(Event::Completed), Action::Finish));
    assert!(d.succeeded());
}

#[test]
fn run_without_repository_never_fetches_nor_marks_cleanup() {
    let mut d = deployer(None, false);
    let events = vec![
        Event::Started,
        Event::Located("/here".to_string()),
        environment_read(),
        Event::Exited(Some(0)),
        Event::Answered("y".to_string()),
        Event::Exited(Some(0)),
        Event::Completed,
    ];
    let mut kinds = Vec::new();
    for event in events {
        let action = d.deploy(event);
        assert!(!matches!(action, Action::CloneRepository { .. } | Action::RemoveDirectory { .. }));
        assert!(d.context.cleanup_path.is_none());
        kinds.push(format!("{:?}", action).split(|c: char| !c.is_alphanumeric()).next().unwrap().to_string());
    }
    assert_eq!(
        kinds,
        strings(&[
            "LocateCurrentDirectory",
            "ReadEnvironment",
            "RunSetup",
            "Confirm",
            "Execute",
            "Finish",
            "Finish",
        ])
    );
    assert_eq!(d.context.working_directory, "/here");
    assert!(d.succeeded());
}

#[test]
fn declining_ends_in_success_without_execution() {
    for answer in ["n", "", "no", "yes please", "\n"] {
        let mut d = at_confirmation();
        assert!(!d.was_declined());
        assert!(matches!(d.deploy(Event::Answered(answer.to_string())), Action::Finish));
        assert!(d.was_declined());
        assert!(d.succeeded());
        assert!(matches!(d.deploy(Event::Exited(Some(0))), Action::Finish));
        assert!(d.succeeded());
    }
}

#[test]
fn declining_after_a_fetch_still_cleans_up() {
    let mut d = deployer(Some("https://example.com/repo.git"), false);
    d.deploy(Event::Started);
    d.deploy(Event::Completed);
    d.deploy(Event::Completed);
    d.deploy(environment_read());
    d.deploy(Event::Exited(Some(0)));
    match d.deploy(Event::Answered("n".to_string())) {
        Action::RemoveDirectory { path } => assert_eq!(path, "/work/test-contract"),
        other => panic!("{:?}", other),
    }
    assert!(matches!(d.deploy(Event::Completed), Action::Finish));
    assert!(d.succeeded());
}

#[test]
fn setup_failure_stops_the_run() {
    let mut d = deployer(None, false);
    d.deploy(Event::Started);
    d.deploy(Event::Located("/here".to_string()));
    d.deploy(environment_read());
    assert_eq!(d.stage, Stage::SettingUp);
    assert!(matches!(d.deploy(Event::Exited(Some(2))), Action::Finish));
    assert!(d.is_finished());
    assert!(!d.succeeded());
    let failure = d.failure.as_ref().unwrap();
    assert_eq!(failure.kind, ErrorKind::Setup);
    assert_eq!(failure.code, Some(2));
    assert_eq!(failure.message(), "Setup command execution failed (exit code 2)");
    assert!(d.command.is_empty());
    assert!(matches!(d.deploy(Event::Answered("y".to_string())), Action::Finish));
    assert!(matches!(d.deploy(Event::Exited(Some(0))), Action::Finish));
    assert_eq!(d.failure.as_ref().unwrap().kind, ErrorKind::Setup);
}

#[test]
fn setup_killed_by_signal_is_a_failure() {
    let mut d = deployer(None, false);
    d.deploy(Event::Started);
    d.deploy(Event::Located("/here".to_string()));
    d.deploy(environment_read());
    assert!(matches!(d.deploy(Event::Exited(None)), Action::Finish));
    assert_eq!(d.failure.as_ref().unwrap().kind, ErrorKind::Setup);
    assert_eq!(d.failure.as_ref().unwrap().code, None);
    assert_eq!(d.failure.as_ref().unwrap().message(), "Setup command execution failed");
}

#[test]
fn empty_setup_command_is_passed_over() {
    let mut config = sample_config(None, None);
    config.project.setup_command = "   ".to_string();
    let mut d = ContractDeployer::new(config, false, None, None, Vec::new());
    d.deploy(Event::Started);
    d.deploy(Event::Located("/here".to_string()));
    assert!(matches!(d.deploy(environment_read()), Action::Confirm { .. }));
    assert_eq!(d.stage, Stage::Confirming);
}

#[test]
fn skipping_confirmation_executes_at_once() {
    let mut d = deployer(None, true);
    d.deploy(Event::Started);
    d.deploy(Event::Located("/here".to_string()));
    d.deploy(environment_read());
    match d.deploy(Event::Exited(Some(0))) {
        Action::Execute { args, directory, .. } => {
            assert_eq!(args, expected_args());
            assert_eq!(directory, "/here");
        }
        other => panic!("{:?}", other),
    }
    assert_eq!(d.stage, Stage::Executing);
}

#[test]
fn missing_variables_fail_before_setup_and_clean_up() {
    let mut config = sample_config(Some("https://example.com/repo.git"), None);
    config.env.vars = pairs(&[("KEYSTORE_PASSWORD", "****")]);
    let mut d = ContractDeployer::new(config, false, None, None, Vec::new());
    d.deploy(Event::Started);
    d.deploy(Event::Completed);
    d.deploy(Event::Completed);
    match d.deploy(environment_read()) {
        Action::RemoveDirectory { path } => assert_eq!(path, "/tmp/test-contract"),
        other => panic!("{:?}", other),
    }
    assert!(matches!(d.deploy(Event::Completed), Action::Finish));
    assert!(!d.succeeded());
    let failure = d.failure.as_ref().unwrap();
    assert_eq!(failure.kind, ErrorKind::MissingVariables);
    assert_eq!(failure.details, strings(&["KEYSTORE_ACCOUNT", "BROADCAST_ACCOUNT"]));
    assert_eq!(
        failure.message(),
        "Missing required environment variables: KEYSTORE_ACCOUNT, BROADCAST_ACCOUNT"
    );
}

#[test]
fn unknown_network_fails_after_setup() {
    let mut d = ContractDeployer::new(
        sample_config(None, None),
        false,
        Some("goerli".to_string()),
        None,
        Vec::new(),
    );
    d.deploy(Event::Started);
    d.deploy(Event::Located("/here".to_string()));
    d.deploy(environment_read());
    assert!(matches!(d.deploy(Event::Exited(Some(0))), Action::Finish));
    let failure = d.failure.as_ref().unwrap();
    assert_eq!(failure.kind, ErrorKind::Network);
    assert_eq!(failure.message(), "Network 'goerli' not found in configuration");
}

#[test]
fn execution_failure_reports_the_exit_code() {
    let mut d = at_confirmation();
    d.deploy(Event::Answered("Y".to_string()));
    assert!(matches!(d.deploy(Event::Exited(Some(17))), Action::Finish));
    let failure = d.failure.as_ref().unwrap();
    assert_eq!(failure.kind, ErrorKind::Execution);
    assert_eq!(failure.code, Some(17));
    assert_eq!(failure.message(), "Script execution failed (exit code 17)");
}

#[test]
fn collaborator_faults_are_told_apart_by_stage() {
    let mut d = deployer(Some("https://example.com/repo.git"), false);
    d.deploy(Event::Started);
    assert!(matches!(d.deploy(Event::Failed("busy".to_string())), Action::Finish));
    assert_eq!(d.failure.as_ref().unwrap().kind, ErrorKind::Filesystem);
    assert_eq!(d.failure.as_ref().unwrap().message(), "Failed to remove directory: busy");

    let mut d = deployer(Some("https://example.com/repo.git"), false);
    d.deploy(Event::Started);
    d.deploy(Event::Completed);
    assert!(matches!(d.deploy(Event::Failed("no route".to_string())), Action::Finish));
    assert_eq!(d.failure.as_ref().unwrap().kind, ErrorKind::Repository);
    assert_eq!(d.failure.as_ref().unwrap().message(), "Failed to clone repository: no route");
    assert!(d.context.cleanup_path.is_none());

    let mut d = deployer(Some("https://example.com/repo.git"), false);
    d.deploy(Event::Started);
    d.deploy(Event::Completed);
    d.deploy(Event::Completed);
    assert!(matches!(
        d.deploy(Event::Failed("denied".to_string())),
        Action::RemoveDirectory { .. }
    ));
    assert_eq!(d.failure.as_ref().unwrap().kind, ErrorKind::Environment);
    assert_eq!(d.failure.as_ref().unwrap().message(), "Failed to read env file: denied");

    let mut d = at_confirmation();
    assert!(matches!(d.deploy(Event::Failed("closed".to_string())), Action::Finish));
    assert_eq!(d.failure.as_ref().unwrap().kind, ErrorKind::Prompt);
    assert_eq!(d.failure.as_ref().unwrap().message(), "Failed to read confirmation: closed");

    let mut d = at_confirmation();
    d.deploy(Event::Answered("y".to_string()));
    assert!(matches!(d.deploy(Event::Failed("forge: not found".to_string())), Action::Finish));
    assert_eq!(d.failure.as_ref().unwrap().kind, ErrorKind::Execution);
    assert_eq!(
        d.failure.as_ref().unwrap().message(),
        "Script execution failed: forge: not found"
    );

    let mut d = deployer(None, false);
    d.deploy(Event::Started);
    d.deploy(Event::Located("/here".to_string()));
    d.deploy(environment_read());
    assert!(matches!(d.deploy(Event::Failed("bun: not found".to_string())), Action::Finish));
    assert_eq!(d.failure.as_ref().unwrap().kind, ErrorKind::Setup);
    assert_eq!(
        d.failure.as_ref().unwrap().message(),
        "Setup command execution failed: bun: not found"
    );

    let mut d = deployer(None, false);
    assert!(matches!(d.deploy(Event::Completed), Action::Finish));
    assert_eq!(d.failure.as_ref().unwrap().kind, ErrorKind::Protocol);
    assert_eq!(d.failure.as_ref().unwrap().message(), "Unexpected event");
}

#[test]
fn cleanup_failure_does_not_mask_the_first_failure() {
    let mut d = deployer(Some("https://example.com/repo.git"), false);
    d.deploy(Event::Started);
    d.deploy(Event::Completed);
    d.deploy(Event::Completed);
    d.deploy(environment_read());
    assert!(matches!(d.deploy(Event::Exited(Some(1))), Action::RemoveDirectory { .. }));
    assert!(matches!(d.deploy(Event::Failed("in use".to_string())), Action::Finish));
    assert_eq!(d.failure.as_ref().unwrap().kind, ErrorKind::Setup);
    assert_eq!(d.cleanup_failure, Some("in use".to_string()));
    assert!(!d.succeeded());
}

#[test]
fn cleanup_failure_after_success_is_no_success() {
    let mut d = deployer(Some("https://example.com/repo.git"), true);
    d.deploy(Event::Started);
    d.deploy(Event::Completed);
    d.deploy(Event::Completed);
    d.deploy(environment_read());
    d.deploy(Event::Exited(Some(0)));
    assert!(matches!(d.deploy(Event::Exited(Some(0))), Action::RemoveDirectory { .. }));
    assert!(matches!(d.deploy(Event::Failed("in use".to_string())), Action::Finish));
    assert!(d.failure.is_none());
    assert_eq!(d.cleanup_failure, Some("in use".to_string()));
    assert!(d.is_finished());
    assert!(!d.succeeded());
}
