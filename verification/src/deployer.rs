//! The run of one deployment as a state machine: each event that the driver
//! reports gives the next state and the next action.

use crate::command::{
    accepts, command_echo, command_line, copy_texts, decimal, decimal_text, forge_args, push_text,
    forge_command, is_accepted, signed, signed_text,
};
use crate::config::{script_file, DeploymentConfig, NetworkConfig, ProjectConfig};
use crate::environment::{
    distinct_names, expand, join_names, joined, lemma_unlisted_is_undefined, masked, missing_of,
    resolve, table, Environment, MissingVariables, Table,
};
use crate::text::{clean, cleaned, contains_text, has_text, split_words, texts, words};
use vstd::prelude::*;
use vstd::string::*;

verus! {

/// Where a run stands.
#[derive(Debug, Clone, Copy, PartialEq, Eq, Structural)]
pub enum Stage {
    Created,
    ClearingTarget,
    FetchingRepository,
    LocatingDirectory,
    LoadingEnvironment,
    SettingUp,
    Confirming,
    Executing,
    CleaningUp,
    Finished,
}

/// The kinds of failure that end a run.
#[derive(Debug, Clone, Copy, PartialEq, Eq, Structural)]
pub enum ErrorKind {
    Repository,
    Environment,
    MissingVariables,
    Setup,
    Network,
    Execution,
    Prompt,
    Filesystem,
    Protocol,
}

/// A failure: its kind, what it is about (the missing names, the unknown
/// network, or what a collaborator reported), and the exit code where a
/// command ended with one.
#[derive(Debug)]
pub struct DeployError {
    pub kind: ErrorKind,
    pub details: Vec<String>,
    pub code: Option<i32>,
}

/// What a `DeployError` holds.
pub struct Failure {
    pub kind: ErrorKind,
    pub details: Seq<Seq<char>>,
    pub code: Option<i32>,
}

impl View for DeployError {
    type V = Failure;

    open spec fn view(&self) -> Failure {
        Failure { kind: self.kind, details: texts(self.details@), code: self.code }
    }
}

/// How the message of a failure of kind `kind` begins.
pub open spec fn message_head(kind: ErrorKind) -> Seq<char> {
    match kind {
        ErrorKind::Repository => "Failed to clone repository"@,
        ErrorKind::Environment => "Failed to read env file"@,
        ErrorKind::MissingVariables => "Missing required environment variables"@,
        ErrorKind::Setup => "Setup command execution failed"@,
        ErrorKind::Network => "Network '"@,
        ErrorKind::Execution => "Script execution failed"@,
        ErrorKind::Prompt => "Failed to read confirmation"@,
        ErrorKind::Filesystem => "Failed to remove directory"@,
        ErrorKind::Protocol => "Unexpected event"@,
    }
}

/// How the exit code of a failure is shown.
pub open spec fn code_text(code: Option<i32>) -> Seq<char> {
    match code {
        Some(c) => " (exit code "@ + signed_text(c as int) + ")"@,
        None => Seq::empty(),
    }
}

/// How the details of a failure are shown: an unknown network between
/// quotes, with what is wrong about it; any other details, where there are
/// some, after a colon.
pub open spec fn details_text(kind: ErrorKind, details: Seq<Seq<char>>) -> Seq<char> {
    if kind == ErrorKind::Network {
        joined(details) + "' not found in configuration"@
    } else if details.len() > 0 {
        ": "@ + joined(details)
    } else {
        Seq::empty()
    }
}

/// The message of a failure: how its kind begins, then the details, then the
/// exit code where there is one.
pub open spec fn message_text(f: Failure) -> Seq<char> {
    message_head(f.kind) + details_text(f.kind, f.details) + code_text(f.code)
}

impl DeployError {
    /// The failure as a line of text.
    pub fn message(&self) -> (r: String)
        ensures
            r@ == message_text(self@),
    {
        let head: &str = match self.kind {
            ErrorKind::Repository => "Failed to clone repository",
            ErrorKind::Environment => "Failed to read env file",
            ErrorKind::MissingVariables => "Missing required environment variables",
            ErrorKind::Setup => "Setup command execution failed",
            ErrorKind::Network => "Network '",
            ErrorKind::Execution => "Script execution failed",
            ErrorKind::Prompt => "Failed to read confirmation",
            ErrorKind::Filesystem => "Failed to remove directory",
            ErrorKind::Protocol => "Unexpected event",
        };
        let mut r: String = head.to_owned();
        match self.kind {
            ErrorKind::Network => {
                r.append(join_names(&self.details).as_str());
                r.append("' not found in configuration");
            },
            _ => {
                if self.details.len() > 0 {
                    r.append(": ");
                    r.append(join_names(&self.details).as_str());
                }
            },
        }
        assert(r@ =~= message_head(self.kind) + details_text(self.kind, texts(self.details@)));
        match self.code {
            Some(c) => {
                r.append(" (exit code ");
                r.append(signed(c).as_str());
                r.append(")");
            },
            None => {},
        }
        assert(r@ =~= message_text(self@));
        r
    }
}

/// The working directory of a run and, where the run made it, the directory
/// to remove when the run ends.
#[derive(Debug)]
pub struct DeploymentContext {
    pub working_directory: String,
    pub cleanup_path: Option<String>,
}

/// What the driver reports back after it has done what it was asked to.
#[derive(Debug)]
pub enum Event {
    /// The run begins.
    Started,
    /// A removal or a fetch went through.
    Completed,
    /// The current directory of the process.
    Located(String),
    /// The contents of the environment files, in the order asked for, `None`
    /// for a file that does not exist; and the process environment.
    EnvironmentRead { files: Vec<Option<String>>, process: Vec<(String, String)> },
    /// A command ran and ended with this exit code; `None` where it had none.
    Exited(Option<i32>),
    /// The line read in answer to the confirmation prompt.
    Answered(String),
    /// What was asked for could not be done.
    Failed(String),
}

/// What the driver is asked to do next.
#[derive(Debug)]
pub enum Action {
    /// Remove the directory at `path` with all it holds, if it exists.
    RemoveDirectory { path: String },
    /// Fetch the repository at `url` into the directory `target`.
    CloneRepository { url: String, target: String },
    /// Report the current directory of the process.
    LocateCurrentDirectory,
    /// Read the environment files, each relative to `directory`, and the
    /// process environment.
    ReadEnvironment { directory: String, files: Vec<String> },
    /// Run the setup command in `directory`.
    RunSetup { program: String, args: Vec<String>, directory: String },
    /// Show the lines of `summary` (the six lines of the summary, then a line
    /// for each variable that is shown) and the command, and ask whether to
    /// go on.
    Confirm { summary: Vec<String>, command_line: String },
    /// Run `forge` with `args` in `directory`, with `variables` added to its
    /// environment.
    Execute { args: Vec<String>, directory: String, variables: Vec<(String, String)> },
    /// The run is over; the deployer holds how it ended.
    Finish,
}

/// What an `Action` holds.
pub enum ActionView {
    RemoveDirectory { path: Seq<char> },
    CloneRepository { url: Seq<char>, target: Seq<char> },
    LocateCurrentDirectory,
    ReadEnvironment { directory: Seq<char>, files: Seq<Seq<char>> },
    RunSetup { program: Seq<char>, args: Seq<Seq<char>>, directory: Seq<char> },
    Confirm { summary: Seq<Seq<char>>, variables: Set<Seq<char>>, command_line: Seq<char> },
    Execute { args: Seq<Seq<char>>, directory: Seq<char>, variables: Table },
    Finish,
}

impl View for Action {
    type V = ActionView;

    open spec fn view(&self) -> ActionView {
        match *self {
            Action::RemoveDirectory { path } => ActionView::RemoveDirectory { path: path@ },
            Action::CloneRepository { url, target } => ActionView::CloneRepository {
                url: url@,
                target: target@,
            },
            Action::LocateCurrentDirectory => ActionView::LocateCurrentDirectory,
            Action::ReadEnvironment { directory, files } => ActionView::ReadEnvironment {
                directory: directory@,
                files: texts(files@),
            },
            Action::RunSetup { program, args, directory } => ActionView::RunSetup {
                program: program@,
                args: texts(args@),
                directory: directory@,
            },
            Action::Confirm { summary, command_line } => ActionView::Confirm {
                summary: header_of(texts(summary@)),
                variables: variables_of(texts(summary@)),
                command_line: command_line@,
            },
            Action::Execute { args, directory, variables } => ActionView::Execute {
                args: texts(args@),
                directory: directory@,
                variables: table(variables@),
            },
            Action::Finish => ActionView::Finish,
        }
    }
}

/// What changes in the course of a run.
pub struct Snapshot {
    pub stage: Stage,
    pub env: Table,
    pub working_directory: Seq<char>,
    pub cleanup_path: Option<Seq<char>>,
    pub command: Seq<Seq<char>>,
    pub failure: Option<Failure>,
    pub cleanup_failure: Option<Seq<char>>,
    pub declined: bool,
}

/// The names that the environment must define before any command runs.
pub open spec fn required_names() -> Seq<&'static str> {
    seq!["KEYSTORE_ACCOUNT", "KEYSTORE_PASSWORD", "BROADCAST_ACCOUNT"]
}

/// The directory under which a fetched project is placed: the configured
/// path, stripped of surrounding white space and quote characters, or `/tmp`
/// where none is configured.
pub open spec fn base_path(config: DeploymentConfig) -> Seq<char> {
    match config.project.path {
        Some(p) => clean(p@),
        None => "/tmp"@,
    }
}

/// The directory into which the project is fetched.
pub open spec fn target_directory(config: DeploymentConfig) -> Seq<char> {
    base_path(config) + "/"@ + config.project.name@
}

/// The environment files to read, in order.
pub open spec fn env_files(config: DeploymentConfig) -> Seq<Seq<char>> {
    match config.env.load_files {
        Some(files) => texts(files@),
        None => Seq::empty(),
    }
}

/// The lines shown before confirmation. The endpoint is expanded with the
/// sensitive values masked.
pub open spec fn summary_lines(config: DeploymentConfig, network: NetworkConfig, env: Table) -> Seq<
    Seq<char>,
> {
    seq![
        "PROJECT: "@ + config.project.name@,
        "SCRIPT: "@ + script_file(config.project.script@),
        "NETWORK: "@ + config.project.network@,
        "CHAIN_ID: "@ + decimal_text(network.chain_id as nat),
        "RPC_URL: "@ + expand(network.rpc_url@, masked(env)),
        "VERIFY: "@ + (if network.verify {
            "true"@
        } else {
            "false"@
        }),
    ]
}

/// Whether the variable `name` has a line of its own in what is shown before
/// confirmation: the API keys and the endpoints.
pub open spec fn is_shown(name: Seq<char>) -> bool {
    contains_text(name, "API_KEY"@) || contains_text(name, "RPC_URL"@)
}

/// The line of the variable `name` with the value `value`: the value of an
/// API key is replaced by a row of asterisks.
pub open spec fn variable_line(name: Seq<char>, value: Seq<char>) -> Seq<char> {
    name + ": "@ + (if contains_text(name, "API_KEY"@) {
        "********"@
    } else {
        value
    })
}

/// The lines of the variables of `entries` that are shown, in the order of
/// `entries`.
pub open spec fn variable_lines(entries: Seq<(String, String)>) -> Seq<Seq<char>>
    decreases entries.len(),
{
    if entries.len() == 0 {
        Seq::empty()
    } else {
        let rest = variable_lines(entries.drop_last());
        if is_shown(entries.last().0@) {
            rest.push(variable_line(entries.last().0@, entries.last().1@))
        } else {
            rest
        }
    }
}

/// The line of the variable `name` as `env` defines it.
pub open spec fn line_of(env: Table, name: Seq<char>) -> Seq<char> {
    variable_line(name, env[name])
}

/// The lines of the variables of `env` that are shown, in no order.
pub open spec fn variable_line_set(env: Table) -> Set<Seq<char>> {
    Set::new(
        |line: Seq<char>|
            exists|name: Seq<char>|
                env.contains_key(name) && is_shown(name) && line == #[trigger] line_of(env, name),
    )
}

/// All that is shown before confirmation: the six lines of the summary, then
/// the lines of the variables in the order of `entries`.
pub open spec fn deployment_info(
    config: DeploymentConfig,
    network: NetworkConfig,
    env: Table,
    entries: Seq<(String, String)>,
) -> Seq<Seq<char>> {
    summary_lines(config, network, env) + variable_lines(entries)
}

/// The summary among the lines shown before confirmation: the first six.
pub open spec fn header_of(lines: Seq<Seq<char>>) -> Seq<Seq<char>> {
    if lines.len() >= 6 {
        lines.take(6)
    } else {
        lines
    }
}

/// The lines of the variables among the lines shown before confirmation:
/// those after the first six, in no order.
pub open spec fn variables_of(lines: Seq<Seq<char>>) -> Set<Seq<char>> {
    if lines.len() >= 6 {
        lines.skip(6).to_set()
    } else {
        Set::empty()
    }
}

/// Every shown variable of a list without repeated names has its line among
/// the lines of the list, and every line is that of such a variable.
pub proof fn lemma_variable_lines_cover(entries: Seq<(String, String)>)
    requires
        distinct_names(entries),
    ensures
        variable_lines(entries).to_set() == variable_line_set(table(entries)),
    decreases entries.len(),
{
    let lines = variable_lines(entries);
    let env = table(entries);
    if entries.len() == 0 {
        assert forall|line: Seq<char>| !lines.to_set().contains(line) by {
            if lines.contains(line) {
            }
        }
        assert(lines.to_set() =~= variable_line_set(env));
    } else {
        let front = entries.drop_last();
        let rest = variable_lines(front);
        let before = table(front);
        let k = entries.last().0@;
        let v = entries.last().1@;
        let last = entries.len() - 1;
        assert(distinct_names(front)) by {
            assert forall|a: int, b: int| 0 <= a < b < front.len() implies (#[trigger] front[a]).0@
                != (#[trigger] front[b]).0@ by {
                assert(entries[a].0@ != entries[b].0@);
            }
        }
        lemma_variable_lines_cover(front);
        assert forall|i: int| 0 <= i < front.len() implies (#[trigger] front[i]).0@ != k by {
            assert(entries[i].0@ != entries[last].0@);
        }
        lemma_unlisted_is_undefined(front, k);
        assert(env == before.insert(k, v));
        assert forall|line: Seq<char>| lines.to_set().contains(line) implies variable_line_set(
            env,
        ).contains(line) by {
            let i = choose|i: int| 0 <= i < lines.len() && lines[i] == line;
            assert(lines.contains(line));
            if is_shown(k) && i == lines.len() - 1 {
                assert(line == line_of(env, k));
            } else {
                assert(rest[i] == line);
                assert(rest.contains(line));
                assert(rest.to_set().contains(line));
                assert(variable_line_set(before).contains(line));
                let name = choose|name: Seq<char>|
                    before.contains_key(name) && is_shown(name) && line == #[trigger] line_of(
                        before,
                        name,
                    );
                assert(name != k);
                assert(line == line_of(env, name));
            }
        }
        assert forall|line: Seq<char>| variable_line_set(env).contains(
            line,
        ) implies lines.to_set().contains(line) by {
            let name = choose|name: Seq<char>|
                env.contains_key(name) && is_shown(name) && line == #[trigger] line_of(env, name);
            if name == k {
                assert(lines[lines.len() - 1] == line);
                assert(lines.contains(line));
            } else {
                assert(before.contains_key(name));
                assert(line == line_of(before, name));
                assert(variable_line_set(before).contains(line));
                assert(rest.to_set().contains(line));
                assert(rest.contains(line));
                let i = choose|i: int| 0 <= i < rest.len() && rest[i] == line;
                assert(lines[i] == line);
                assert(lines.contains(line));
            }
        }
        assert(lines.to_set() =~= variable_line_set(env));
    }
}

/// The run ends with `failure` (`None` for success): where a directory is
/// marked for cleanup its removal comes first.
pub open spec fn ended(s: Snapshot, failure: Option<Failure>) -> (Snapshot, ActionView) {
    match s.cleanup_path {
        Some(path) => (
            Snapshot { stage: Stage::CleaningUp, failure: failure, ..s },
            ActionView::RemoveDirectory { path: path },
        ),
        None => (Snapshot { stage: Stage::Finished, failure: failure, ..s }, ActionView::Finish),
    }
}

/// The kind of failure that a collaborator's fault at `stage` gives.
pub open spec fn fault_kind(stage: Stage) -> ErrorKind {
    match stage {
        Stage::Created => ErrorKind::Protocol,
        Stage::ClearingTarget => ErrorKind::Filesystem,
        Stage::FetchingRepository => ErrorKind::Repository,
        Stage::LocatingDirectory => ErrorKind::Filesystem,
        Stage::LoadingEnvironment => ErrorKind::Environment,
        Stage::SettingUp => ErrorKind::Setup,
        Stage::Confirming => ErrorKind::Prompt,
        Stage::Executing => ErrorKind::Execution,
        Stage::CleaningUp => ErrorKind::Filesystem,
        Stage::Finished => ErrorKind::Protocol,
    }
}

/// The run ends in failure on an event that does not carry it on: a fault
/// that a collaborator reported, or an event that the stage does not take.
pub open spec fn rejected(s: Snapshot, event: Event) -> (Snapshot, ActionView) {
    match event {
        Event::Failed(reason) => ended(
            s,
            Some(Failure { kind: fault_kind(s.stage), details: seq![reason@], code: None }),
        ),
        _ => ended(
            s,
            Some(Failure { kind: ErrorKind::Protocol, details: Seq::empty(), code: None }),
        ),
    }
}

/// The first step: with a source repository the target directory is cleared
/// for the fetch; without one the run works where the process stands.
pub open spec fn prepared(config: DeploymentConfig, s: Snapshot) -> (Snapshot, ActionView) {
    if config.project.repo.is_some() {
        (
            Snapshot {
                stage: Stage::ClearingTarget,
                working_directory: target_directory(config),
                ..s
            },
            ActionView::RemoveDirectory { path: target_directory(config) },
        )
    } else {
        (Snapshot { stage: Stage::LocatingDirectory, ..s }, ActionView::LocateCurrentDirectory)
    }
}

/// With the working directory known, the environment is read next.
pub open spec fn located(config: DeploymentConfig, s: Snapshot) -> (Snapshot, ActionView) {
    (
        Snapshot { stage: Stage::LoadingEnvironment, ..s },
        ActionView::ReadEnvironment { directory: s.working_directory, files: env_files(config) },
    )
}

/// With the environment resolved: a missing required variable ends the run;
/// else the setup command runs, or is passed over where none is configured.
pub open spec fn after_environment(
    config: DeploymentConfig,
    skip: bool,
    extra: Seq<Seq<char>>,
    s: Snapshot,
) -> (Snapshot, ActionView) {
    let missing = missing_of(required_names(), s.env);
    let parts = words(config.project.setup_command@);
    if missing.len() > 0 {
        ended(
            s,
            Some(Failure { kind: ErrorKind::MissingVariables, details: missing, code: None }),
        )
    } else if parts.len() == 0 {
        after_setup(config, skip, extra, s)
    } else {
        (
            Snapshot { stage: Stage::SettingUp, ..s },
            ActionView::RunSetup {
                program: parts[0],
                args: parts.subrange(1, parts.len() as int),
                directory: s.working_directory,
            },
        )
    }
}

/// With the project set up: an unknown network ends the run; else the
/// command is built, and either confirmed first or run at once.
pub open spec fn after_setup(
    config: DeploymentConfig,
    skip: bool,
    extra: Seq<Seq<char>>,
    s: Snapshot,
) -> (Snapshot, ActionView) {
    let name = config.project.network@;
    if !config.has_network(name) {
        ended(s, Some(Failure { kind: ErrorKind::Network, details: seq![name], code: None }))
    } else {
        let network = config.network(name);
        let script = script_file(config.project.script@);
        let args = forge_args(name, network.chain_id, network.verify, script, s.env, extra);
        if skip {
            (
                Snapshot { stage: Stage::Executing, command: args, ..s },
                ActionView::Execute {
                    args: args,
                    directory: s.working_directory,
                    variables: s.env,
                },
            )
        } else {
            (
                Snapshot { stage: Stage::Confirming, command: args, ..s },
                ActionView::Confirm {
                    summary: summary_lines(config, network, s.env),
                    variables: variable_line_set(s.env),
                    command_line: command_echo(
                        name,
                        network.chain_id,
                        network.verify,
                        script,
                        s.env,
                    ),
                },
            )
        }
    }
}

/// Whether `event` is an answer to the confirmation prompt that does not
/// accept.
pub open spec fn declines(event: Event) -> bool {
    match event {
        Event::Answered(line) => !accepts(line@),
        _ => false,
    }
}

/// Whether `event` is the exit of a command with a code other than zero, or
/// with none.
pub open spec fn exits_badly(event: Event) -> bool {
    match event {
        Event::Exited(code) => code != Some(0i32),
        _ => false,
    }
}

/// One step of a run: the state and the action that follow from the state
/// `s` and the event `event`, for the configuration `config`, with `skip`
/// set where no confirmation is asked for and `extra` the arguments that are
/// passed through to the command.
pub open spec fn next(
    config: DeploymentConfig,
    skip: bool,
    extra: Seq<Seq<char>>,
    s: Snapshot,
    event: Event,
) -> (Snapshot, ActionView) {
    match s.stage {
        Stage::Created => match event {
            Event::Started => prepared(config, s),
            _ => rejected(s, event),
        },
        Stage::ClearingTarget => match (event, config.project.repo) {
            (Event::Completed, Some(url)) => (
                Snapshot { stage: Stage::FetchingRepository, ..s },
                ActionView::CloneRepository { url: url@, target: s.working_directory },
            ),
            _ => rejected(s, event),
        },
        Stage::FetchingRepository => match (event, config.project.repo) {
            (Event::Completed, Some(url)) => located(
                config,
                Snapshot { cleanup_path: Some(s.working_directory), ..s },
            ),
            _ => rejected(s, event),
        },
        Stage::LocatingDirectory => match event {
            Event::Located(directory) => located(
                config,
                Snapshot { working_directory: directory@, ..s },
            ),
            _ => rejected(s, event),
        },
        Stage::LoadingEnvironment => match event {
            Event::EnvironmentRead { files, process } => after_environment(
                config,
                skip,
                extra,
                Snapshot { env: resolve(s.env, files@, config.env.vars@, process@), ..s },
            ),
            _ => rejected(s, event),
        },
        Stage::SettingUp => match event {
            Event::Exited(code) => if code == Some(0i32) {
                after_setup(config, skip, extra, s)
            } else {
                ended(
                    s,
                    Some(Failure { kind: ErrorKind::Setup, details: Seq::empty(), code: code }),
                )
            },
            _ => rejected(s, event),
        },
        Stage::Confirming => match event {
            Event::Answered(line) => if accepts(line@) {
                (
                    Snapshot { stage: Stage::Executing, ..s },
                    ActionView::Execute {
                        args: s.command,
                        directory: s.working_directory,
                        variables: s.env,
                    },
                )
            } else {
                ended(Snapshot { declined: true, ..s }, None)
            },
            _ => rejected(s, event),
        },
        Stage::Executing => match event {
            Event::Exited(code) => if code == Some(0i32) {
                ended(s, None)
            } else {
                ended(
                    s,
                    Some(
                        Failure { kind: ErrorKind::Execution, details: Seq::empty(), code: code },
                    ),
                )
            },
            _ => rejected(s, event),
        },
        Stage::CleaningUp => match event {
            Event::Completed => (Snapshot { stage: Stage::Finished, ..s }, ActionView::Finish),
            Event::Failed(reason) => (
                Snapshot { stage: Stage::Finished, cleanup_failure: Some(reason@), ..s },
                ActionView::Finish,
            ),
            _ => (
                Snapshot { stage: Stage::Finished, cleanup_failure: Some("unexpected event"@), ..s },
                ActionView::Finish,
            ),
        },
        Stage::Finished => (s, ActionView::Finish),
    }
}

/// The deployment of one project: its configuration, the environment as far
/// as it is resolved, and how far the run has come.
#[derive(Debug)]
pub struct ContractDeployer {
    pub config: DeploymentConfig,
    pub env: Environment,
    pub skip_confirmation: bool,
    pub extra_args: Vec<String>,
    pub stage: Stage,
    pub context: DeploymentContext,
    pub command: Vec<String>,
    pub failure: Option<DeployError>,
    pub cleanup_failure: Option<String>,
    pub declined: bool,
}

/// What an optional string holds.
pub open spec fn text_of(o: Option<String>) -> Option<Seq<char>> {
    match o {
        Some(s) => Some(s@),
        None => None,
    }
}

/// What an optional failure holds.
pub open spec fn failure_of(o: Option<DeployError>) -> Option<Failure> {
    match o {
        Some(e) => Some(e@),
        None => None,
    }
}

/// `config` with the network and the script replaced where an override is
/// given.
pub open spec fn overridden(
    config: DeploymentConfig,
    network: Option<String>,
    script: Option<String>,
) -> DeploymentConfig {
    DeploymentConfig {
        project: ProjectConfig {
            network: match network {
                Some(n) => n,
                None => config.project.network,
            },
            script: match script {
                Some(s) => s,
                None => config.project.script,
            },
            ..config.project
        },
        ..config
    }
}

/// The state in which every run begins.
pub open spec fn initial() -> Snapshot {
    Snapshot {
        stage: Stage::Created,
        env: Map::empty(),
        working_directory: Seq::empty(),
        cleanup_path: None,
        command: Seq::empty(),
        failure: None,
        cleanup_failure: None,
        declined: false,
    }
}

impl View for ContractDeployer {
    type V = Snapshot;

    open spec fn view(&self) -> Snapshot {
        Snapshot {
            stage: self.stage,
            env: self.env@,
            working_directory: self.context.working_directory@,
            cleanup_path: text_of(self.context.cleanup_path),
            command: texts(self.command@),
            failure: failure_of(self.failure),
            cleanup_failure: text_of(self.cleanup_failure),
            declined: self.declined,
        }
    }
}

impl ContractDeployer {
    /// Whether two deployers agree in what a run never changes.
    pub open spec fn same_plan(&self, other: &ContractDeployer) -> bool {
        &&& self.config == other.config
        &&& self.skip_confirmation == other.skip_confirmation
        &&& self.extra_args == other.extra_args
    }

    /// What `deploy` gives for `event` in this state.
    pub open spec fn step(&self, event: Event) -> (Snapshot, ActionView) {
        next(self.config, self.skip_confirmation, texts(self.extra_args@), self@, event)
    }

    /// A deployer for `config` at the start of its run. `network` and
    /// `script`, where given, replace those of the configuration;
    /// `extra_args` are passed through to the deployment command.
    pub fn new(
        config: DeploymentConfig,
        skip_confirmation: bool,
        network: Option<String>,
        script: Option<String>,
        extra_args: Vec<String>,
    ) -> (r: Self)
        ensures
            r.config == overridden(config, network, script),
            r.skip_confirmation == skip_confirmation,
            r.extra_args == extra_args,
            r@ == initial(),
    {
        let mut config = config;
        match network {
            Some(n) => {
                config.project.network = n;
            },
            None => {},
        }
        match script {
            Some(s) => {
                config.project.script = s;
            },
            None => {},
        }
        let r = ContractDeployer {
            config: config,
            env: Environment::new(),
            skip_confirmation: skip_confirmation,
            extra_args: extra_args,
            stage: Stage::Created,
            context: DeploymentContext { working_directory: String::new(), cleanup_path: None },
            command: Vec::new(),
            failure: None,
            cleanup_failure: None,
            declined: false,
        };
        assert(texts(r.command@) =~= Seq::<Seq<char>>::empty());
        r
    }

    /// Whether the run is over.
    pub fn is_finished(&self) -> (b: bool)
        ensures
            b == (self@.stage == Stage::Finished),
    {
        match self.stage {
            Stage::Finished => true,
            _ => false,
        }
    }

    /// Whether the run is over and nothing failed, the cleanup included.
    pub fn succeeded(&self) -> (b: bool)
        ensures
            b == (self@.stage == Stage::Finished && self@.failure.is_none()
                && self@.cleanup_failure.is_none()),
    {
        self.is_finished() && self.failure.is_none() && self.cleanup_failure.is_none()
    }

    /// Whether the deployment was called off at the confirmation prompt.
    pub fn was_declined(&self) -> (b: bool)
        ensures
            b == self@.declined,
    {
        self.declined
    }

    /// Strips `path` of surrounding white space and quote characters.
    pub fn sanitize_path(&self, path: &str) -> (r: String)
        ensures
            r@ == clean(path@),
    {
        cleaned(path).to_owned()
    }

    /// The directory under which a fetched project is placed.
    pub fn get_deployment_base_path(&self) -> (r: String)
        ensures
            r@ == base_path(self.config),
    {
        match &self.config.project.path {
            Some(p) => self.sanitize_path(p.as_str()),
            None => "/tmp".to_owned(),
        }
    }

    /// The directory into which the project is fetched.
    pub fn prepare_repo_deployment(&self) -> (r: String)
        ensures
            r@ == target_directory(self.config),
    {
        let mut r: String = self.get_deployment_base_path();
        r.append("/");
        r.append(self.config.project.name.as_str());
        r
    }

    /// Checks that the environment defines every required name.
    pub fn validate_environment(&self) -> (r: Result<(), MissingVariables>)
        ensures
            r.is_ok() == (missing_of(required_names(), self.env@).len() == 0),
            r.is_err() ==> r.unwrap_err().names_view() == missing_of(required_names(), self.env@),
    {
        let mut required: Vec<&'static str> = Vec::new();
        required.push("KEYSTORE_ACCOUNT");
        required.push("KEYSTORE_PASSWORD");
        required.push("BROADCAST_ACCOUNT");
        assert(required@ =~= required_names());
        self.env.validate_required(required.as_slice())
    }

    /// The failure to find the selected network.
    fn network_not_found(&self) -> (e: DeployError)
        ensures
            e@ == (Failure {
                kind: ErrorKind::Network,
                details: seq![self.config.project.network@],
                code: None,
            }),
    {
        let mut details: Vec<String> = Vec::new();
        details.push(self.config.project.network.clone());
        assert(texts(details@) =~= seq![self.config.project.network@]);
        DeployError { kind: ErrorKind::Network, details: details, code: None }
    }

    /// Looks up the selected network and expands its endpoint.
    pub fn resolve_network(&self) -> (r: Result<NetworkConfig, DeployError>)
        ensures
            r.is_ok() == self.config.has_network(self.config.project.network@),
            r.is_ok() ==> {
                let found = self.config.network(self.config.project.network@);
                &&& r.unwrap().chain_id == found.chain_id
                &&& r.unwrap().verify == found.verify
                &&& r.unwrap().rpc_url@ == expand(found.rpc_url@, self.env@)
            },
            r.is_err() ==> r.unwrap_err()@ == (Failure {
                kind: ErrorKind::Network,
                details: seq![self.config.project.network@],
                code: None,
            }),
    {
        match self.config.get_network(self.config.project.network.as_str()) {
            Some(found) => Ok(
                NetworkConfig {
                    chain_id: found.chain_id,
                    rpc_url: self.env.expand_variables(found.rpc_url.as_str()),
                    verify: found.verify,
                },
            ),
            None => Err(self.network_not_found()),
        }
    }

    /// The arguments of the `forge` invocation for `network_config`.
    pub fn build_forge_command(
        &self,
        network_config: &NetworkConfig,
        script_name: &str,
        extra_args: &Vec<String>,
    ) -> (r: Vec<String>)
        ensures
            texts(r@) == forge_args(
                self.config.project.network@,
                network_config.chain_id,
                network_config.verify,
                script_name@,
                self.env@,
                texts(extra_args@),
            ),
    {
        forge_command(
            self.config.project.network.as_str(),
            network_config.chain_id,
            network_config.verify,
            script_name,
            &self.env,
            extra_args,
        )
    }

    /// The lines of the variables that are shown before confirmation, in the
    /// order of `get_vars`: a name that holds `API_KEY` with a row of
    /// asterisks, any other name that holds `RPC_URL` with its value.
    pub fn variable_info(&self) -> (r: Vec<String>)
        ensures
            texts(r@) == variable_lines(self.env.listing()),
            texts(r@).to_set() == variable_line_set(self.env@),
    {
        let vars = self.env.get_vars();
        let mut r: Vec<String> = Vec::new();
        let mut i: usize = 0;
        assert(texts(r@) =~= variable_lines(vars@.take(0)));
        while i < vars.len()
            invariant
                i <= vars@.len(),
                texts(r@) == variable_lines(vars@.take(i as int)),
            decreases vars@.len() - i,
        {
            proof {
                assert(vars@.take(i as int + 1).drop_last() =~= vars@.take(i as int));
            }
            let masked = has_text(vars[i].0.as_str(), "API_KEY");
            if masked || has_text(vars[i].0.as_str(), "RPC_URL") {
                let mut line: String = vars[i].0.clone();
                line.append(": ");
                if masked {
                    line.append("********");
                } else {
                    line.append(vars[i].1.as_str());
                }
                push_text(&mut r, line);
            }
            i += 1;
        }
        proof {
            assert(vars@.take(vars@.len() as int) =~= vars@);
            lemma_variable_lines_cover(vars@);
        }
        r
    }

    /// The lines that describe the deployment before it is confirmed: the
    /// summary, then the variables that are shown.
    pub fn display_deployment_info(&self, network_config: &NetworkConfig) -> (r: Vec<String>)
        ensures
            texts(r@) == deployment_info(
                self.config,
                *network_config,
                self.env@,
                self.env.listing(),
            ),
            header_of(texts(r@)) == summary_lines(self.config, *network_config, self.env@),
            variables_of(texts(r@)) == variable_line_set(self.env@),
    {
        let mut project: String = "PROJECT: ".to_owned();
        project.append(self.config.project.name.as_str());
        let mut script: String = "SCRIPT: ".to_owned();
        script.append(self.config.get_script_name().as_str());
        let mut network: String = "NETWORK: ".to_owned();
        network.append(self.config.project.network.as_str());
        let mut chain: String = "CHAIN_ID: ".to_owned();
        chain.append(decimal(network_config.chain_id).as_str());
        let mut endpoint: String = "RPC_URL: ".to_owned();
        endpoint.append(
            self.env.masked().expand_variables(network_config.rpc_url.as_str()).as_str(),
        );
        let mut verify: String = "VERIFY: ".to_owned();
        if network_config.verify {
            verify.append("true");
        } else {
            verify.append("false");
        }
        let mut r: Vec<String> = Vec::new();
        r.push(project);
        r.push(script);
        r.push(network);
        r.push(chain);
        r.push(endpoint);
        r.push(verify);
        assert(texts(r@) =~= summary_lines(self.config, *network_config, self.env@));
        let mut variables: Vec<String> = self.variable_info();
        let ghost header = texts(r@);
        let ghost lines = texts(variables@);
        r.append(&mut variables);
        proof {
            assert(texts(r@) =~= header + lines);
            assert(texts(r@).take(6) =~= header);
            assert(texts(r@).skip(6) =~= lines);
        }
        r
    }

    /// The command as it is echoed before confirmation.
    pub fn display_command_info(&self, network_config: &NetworkConfig, script_name: &str) -> (r:
        String)
        ensures
            r@ == command_echo(
                self.config.project.network@,
                network_config.chain_id,
                network_config.verify,
                script_name@,
                self.env@,
            ),
    {
        command_line(
            self.config.project.network.as_str(),
            network_config.chain_id,
            network_config.verify,
            script_name,
            &self.env,
        )
    }

    /// Whether `line`, the answer to the confirmation prompt, accepts.
    pub fn confirm_execution(&self, line: &str) -> (b: bool)
        ensures
            b == accepts(line@),
    {
        is_accepted(line)
    }

    /// Ends the run with `failure`, by way of the cleanup where a directory
    /// is marked for it.
    fn cleanup(&mut self, failure: Option<DeployError>) -> (action: Action)
        ensures
            final(self)@ == ended(old(self)@, failure_of(failure)).0,
            action@ == ended(old(self)@, failure_of(failure)).1,
            final(self).same_plan(old(self)),
    {
        self.failure = failure;
        match &self.context.cleanup_path {
            Some(path) => {
                let path: String = path.clone();
                self.stage = Stage::CleaningUp;
                Action::RemoveDirectory { path: path }
            },
            None => {
                self.stage = Stage::Finished;
                Action::Finish
            },
        }
    }

    /// Ends the run on an event that does not carry it on.
    fn reject(&mut self, event: Event) -> (action: Action)
        ensures
            final(self)@ == rejected(old(self)@, event).0,
            action@ == rejected(old(self)@, event).1,
            final(self).same_plan(old(self)),
    {
        let mut details: Vec<String> = Vec::new();
        match event {
            Event::Failed(reason) => {
                let kind = match self.stage {
                    Stage::Created => ErrorKind::Protocol,
                    Stage::ClearingTarget => ErrorKind::Filesystem,
                    Stage::FetchingRepository => ErrorKind::Repository,
                    Stage::LocatingDirectory => ErrorKind::Filesystem,
                    Stage::LoadingEnvironment => ErrorKind::Environment,
                    Stage::SettingUp => ErrorKind::Setup,
                    Stage::Confirming => ErrorKind::Prompt,
                    Stage::Executing => ErrorKind::Execution,
                    Stage::CleaningUp => ErrorKind::Filesystem,
                    Stage::Finished => ErrorKind::Protocol,
                };
                details.push(reason);
                assert(texts(details@) =~= seq![reason@]);
                self.cleanup(Some(DeployError { kind: kind, details: details, code: None }))
            },
            _ => {
                assert(texts(details@) =~= Seq::<Seq<char>>::empty());
                self.cleanup(
                    Some(DeployError { kind: ErrorKind::Protocol, details: details, code: None }),
                )
            },
        }
    }

    /// Ends the run on a command that exited with a code other than zero.
    fn exit_failure(&mut self, kind: ErrorKind, code: Option<i32>) -> (action: Action)
        ensures
            final(self)@ == ended(
                old(self)@,
                Some(Failure { kind: kind, details: Seq::empty(), code: code }),
            ).0,
            action@ == ended(
                old(self)@,
                Some(Failure { kind: kind, details: Seq::empty(), code: code }),
            ).1,
            final(self).same_plan(old(self)),
    {
        let details: Vec<String> = Vec::new();
        assert(texts(details@) =~= Seq::<Seq<char>>::empty());
        self.cleanup(Some(DeployError { kind: kind, details: details, code: code }))
    }

    /// Takes the first step of the run: with a source repository it asks for
    /// the target directory to be cleared, without one for the current
    /// directory; nothing is marked for cleanup yet.
    pub fn prepare_deployment_context(&mut self) -> (action: Action)
        ensures
            final(self)@ == prepared(old(self).config, old(self)@).0,
            action@ == prepared(old(self).config, old(self)@).1,
            final(self).same_plan(old(self)),
            old(self).config.project.repo.is_none() ==> action@
                == ActionView::LocateCurrentDirectory && final(self)@.cleanup_path == old(self)@.cleanup_path,
            old(self).config.project.repo.is_some() ==> action@ == (ActionView::RemoveDirectory {
                path: target_directory(old(self).config),
            }),
    {
        if self.config.project.repo.is_some() {
            let target: String = self.prepare_repo_deployment();
            self.context.working_directory = target.clone();
            self.stage = Stage::ClearingTarget;
            Action::RemoveDirectory { path: target }
        } else {
            self.stage = Stage::LocatingDirectory;
            Action::LocateCurrentDirectory
        }
    }

    /// Asks for the environment to be read in the working directory.
    fn load_environment(&mut self) -> (action: Action)
        ensures
            final(self)@ == located(old(self).config, old(self)@).0,
            action@ == located(old(self).config, old(self)@).1,
            final(self).same_plan(old(self)),
    {
        self.stage = Stage::LoadingEnvironment;
        let files: Vec<String> = match &self.config.env.load_files {
            Some(files) => copy_texts(files),
            None => {
                let none: Vec<String> = Vec::new();
                assert(texts(none@) =~= Seq::<Seq<char>>::empty());
                none
            },
        };
        Action::ReadEnvironment { directory: self.context.working_directory.clone(), files: files }
    }

    /// Resolves the environment from what was read, checks it, and goes on
    /// to the setup.
    fn load_and_validate_environment(
        &mut self,
        files: &Vec<Option<String>>,
        process: &Vec<(String, String)>,
    ) -> (action: Action)
        ensures
            final(self)@ == after_environment(
                old(self).config,
                old(self).skip_confirmation,
                texts(old(self).extra_args@),
                Snapshot {
                    env: resolve(old(self)@.env, files@, old(self).config.env.vars@, process@),
                    ..old(self)@
                },
            ).0,
            action@ == after_environment(
                old(self).config,
                old(self).skip_confirmation,
                texts(old(self).extra_args@),
                Snapshot {
                    env: resolve(old(self)@.env, files@, old(self).config.env.vars@, process@),
                    ..old(self)@
                },
            ).1,
            final(self).same_plan(old(self)),
    {
        self.env.load_from_config(&self.config.env, files, process);
        match self.validate_environment() {
            Err(missing) => {
                self.cleanup(
                    Some(
                        DeployError {
                            kind: ErrorKind::MissingVariables,
                            details: missing.names,
                            code: None,
                        },
                    ),
                )
            },
            Ok(_) => self.setup_project(),
        }
    }

    /// Asks for the setup command to be run, or passes on where none is
    /// configured.
    fn setup_project(&mut self) -> (action: Action)
        requires
            missing_of(required_names(), old(self)@.env).len() == 0,
        ensures
            final(self)@ == after_environment(
                old(self).config,
                old(self).skip_confirmation,
                texts(old(self).extra_args@),
                old(self)@,
            ).0,
            action@ == after_environment(
                old(self).config,
                old(self).skip_confirmation,
                texts(old(self).extra_args@),
                old(self)@,
            ).1,
            final(self).same_plan(old(self)),
    {
        let mut parts: Vec<String> = split_words(self.config.project.setup_command.as_str());
        assert(texts(parts@) =~= words(self.config.project.setup_command@));
        if parts.len() == 0 {
            return self.deploy_contract();
        }
        let ghost all = texts(parts@);
        let program: String = parts.remove(0);
        assert(texts(parts@) =~= all.subrange(1, all.len() as int));
        self.stage = Stage::SettingUp;
        Action::RunSetup {
            program: program,
            args: parts,
            directory: self.context.working_directory.clone(),
        }
    }

    /// Resolves the network, builds the command, and asks for it to be
    /// confirmed or run.
    pub fn deploy_contract(&mut self) -> (action: Action)
        ensures
            final(self)@ == after_setup(
                old(self).config,
                old(self).skip_confirmation,
                texts(old(self).extra_args@),
                old(self)@,
            ).0,
            action@ == after_setup(
                old(self).config,
                old(self).skip_confirmation,
                texts(old(self).extra_args@),
                old(self)@,
            ).1,
            final(self).same_plan(old(self)),
            !old(self).skip_confirmation ==> !(action@ is Execute),
            !old(self).config.has_network(old(self).config.project.network@) ==> !(action@
                is Execute) && !(action@ is Confirm),
    {
        let found = match self.config.get_network(self.config.project.network.as_str()) {
            Some(found) => NetworkConfig {
                chain_id: found.chain_id,
                rpc_url: found.rpc_url.clone(),
                verify: found.verify,
            },
            None => {
                let e = self.network_not_found();
                return self.cleanup(Some(e));
            },
        };
        let script_name: String = self.config.get_script_name();
        let args: Vec<String> = self.build_forge_command(
            &found,
            script_name.as_str(),
            &self.extra_args,
        );
        if self.skip_confirmation {
            self.command = copy_texts(&args);
            self.stage = Stage::Executing;
            Action::Execute {
                args: args,
                directory: self.context.working_directory.clone(),
                variables: self.env.entries(),
            }
        } else {
            let summary: Vec<String> = self.display_deployment_info(&found);
            let echo: String = self.display_command_info(&found, script_name.as_str());
            self.command = args;
            self.stage = Stage::Confirming;
            Action::Confirm { summary: summary, command_line: echo }
        }
    }

    /// Asks for the command that was built to be run.
    fn execute_forge_command(&mut self) -> (action: Action)
        ensures
            final(self)@ == (Snapshot { stage: Stage::Executing, ..old(self)@ }),
            action@ == (ActionView::Execute {
                args: old(self)@.command,
                directory: old(self)@.working_directory,
                variables: old(self)@.env,
            }),
            final(self).same_plan(old(self)),
    {
        self.stage = Stage::Executing;
        Action::Execute {
            args: copy_texts(&self.command),
            directory: self.context.working_directory.clone(),
            variables: self.env.entries(),
        }
    }

    /// Advances the run by one event: the driver does what the returned
    /// action asks for and hands back what came of it, starting with
    /// `Event::Started` and until the action is `Action::Finish`.
    pub fn deploy(&mut self, event: Event) -> (action: Action)
        ensures
            final(self)@ == old(self).step(event).0,
            action@ == old(self).step(event).1,
            final(self).same_plan(old(self)),
            old(self).config.project.repo.is_none() ==> !(action@ is CloneRepository),
            old(self).config.project.repo.is_none() && old(self)@.cleanup_path.is_none() ==> !(
            action@ is RemoveDirectory) && final(self)@.cleanup_path.is_none(),
            old(self)@.stage == Stage::Confirming && declines(event) ==> !(action@ is Execute)
                && final(self)@.declined && final(self)@.failure.is_none() && (final(self)@.stage
                == Stage::CleaningUp || final(self)@.stage == Stage::Finished),
            old(self)@.stage == Stage::SettingUp && exits_badly(event) ==> !(action@ is Execute)
                && !(action@ is Confirm) && final(self)@.failure.is_some() && final(self)@.command == old(self)@.command,
    {
        match self.stage {
            Stage::Created => match event {
                Event::Started => self.prepare_deployment_context(),
                other => self.reject(other),
            },
            Stage::ClearingTarget => match event {
                Event::Completed => {
                    let url: String = match &self.config.project.repo {
                        Some(url) => url.clone(),
                        None => {
                            return self.reject(Event::Completed);
                        },
                    };
                    self.stage = Stage::FetchingRepository;
                    Action::CloneRepository {
                        url: url,
                        target: self.context.working_directory.clone(),
                    }
                },
                other => self.reject(other),
            },
            Stage::FetchingRepository => match event {
                Event::Completed => {
                    if self.config.project.repo.is_none() {
                        return self.reject(Event::Completed);
                    }
                    self.context.cleanup_path = Some(self.context.working_directory.clone());
                    self.load_environment()
                },
                other => self.reject(other),
            },
            Stage::LocatingDirectory => match event {
                Event::Located(directory) => {
                    self.context.working_directory = directory;
                    self.load_environment()
                },
                other => self.reject(other),
            },
            Stage::LoadingEnvironment => match event {
                Event::EnvironmentRead { files, process } => {
                    self.load_and_validate_environment(&files, &process)
                },
                other => self.reject(other),
            },
            Stage::SettingUp => match event {
                Event::Exited(code) => {
                    if is_zero(code) {
                        self.deploy_contract()
                    } else {
                        self.exit_failure(ErrorKind::Setup, code)
                    }
                },
                other => self.reject(other),
            },
            Stage::Confirming => match event {
                Event::Answered(line) => {
                    if self.confirm_execution(line.as_str()) {
                        self.execute_forge_command()
                    } else {
                        self.declined = true;
                        self.cleanup(None)
                    }
                },
                other => self.reject(other),
            },
            Stage::Executing => match event {
                Event::Exited(code) => {
                    if is_zero(code) {
                        self.cleanup(None)
                    } else {
                        self.exit_failure(ErrorKind::Execution, code)
                    }
                },
                other => self.reject(other),
            },
            Stage::CleaningUp => {
                match event {
                    Event::Completed => {},
                    Event::Failed(reason) => {
                        self.cleanup_failure = Some(reason);
                    },
                    _ => {
                        self.cleanup_failure = Some("unexpected event".to_owned());
                    },
                }
                self.stage = Stage::Finished;
                Action::Finish
            },
            Stage::Finished => Action::Finish,
        }
    }
}

/// Whether `code` is the exit code of a command that succeeded.
pub fn is_zero(code: Option<i32>) -> (b: bool)
    ensures
        b == (code == Some(0i32)),
{
    match code {
        Some(c) => c == 0,
        None => false,
    }
}

} // verus!
