//! The command line: the commands it takes, the action each resolves to,
//! and the text printed for each daemon response.
use vstd::prelude::*;
use vstd::std_specs::convert::FromSpecImpl;

use crate::ipc::{
    DaemonCommand, DaemonError, DaemonHealth, DaemonHealthView, DaemonMetrics, DaemonMetricsView,
    DaemonResponse, DaemonResponseView, FsMonitorSnapshot, JobKind, JobMetrics, LogEntry,
    LogEntryView, RepoGenerationView, RepoHealthDetail, RepoHealthDetailView, RepoMetricsView,
    RepoStatusDetail, RepoSummary, RepoSummaryView, StatusView, DaemonNotification,
    NotificationView, WatchEventKind, JobEventKind,
};
use crate::text::{decimal, join_lines, join_with, names_of, push_decimal};

verus! {

broadcast use vstd::string::group_string_axioms;

/// CLI definition shared by the binary and tests.
#[derive(Debug)]
pub struct Cli {
    pub command: Commands,
}

#[derive(Debug)]
pub enum Commands {
    /// Register a repository with the daemon.
    Register { repo_path: String },
    /// Remove a repository from the daemon.
    Unregister { repo_path: String },
    /// List registered repositories, with daemon metrics when `stats`.
    List { stats: bool },
    /// Stream daemon notifications (e.g., watcher events).
    Events,
    /// Display cached status for a repository.
    Status { repo_path: String },
    /// List files changed since a generation token.
    Changed { repo_path: String, since: Option<u64> },
    /// Print daemon logs for a repository.
    Logs { repo_path: String, follow: bool, limit: usize },
    /// Git fsmonitor helper entrypoint (invoked by core.fsmonitor).
    FsmonitorHelper { version: u8, token: Option<String>, repo: Option<String> },
    /// Trigger background prefetch for a repository; with `now`, ahead of
    /// the jobs already queued.
    Prefetch { repo_path: String, now: bool },
    /// Force maintenance tasks (commit-graph, GC) for a repository.
    Maintain { repo_path: String },
    /// Run health diagnostics for a repository.
    Health { repo_path: String },
    /// Launch the system tray UI.
    Tray,
    /// Talk to the daemon control plane.
    Daemon(DaemonCommands),
}

#[derive(Debug)]
pub enum DaemonCommands {
    /// Start the daemon in the current process (foreground).
    Run,
    /// Start the daemon as a detached background process.
    Start,
    /// Stop a running daemon gracefully.
    Stop,
    /// Run daemon for a single repo, service queued jobs, then exit.
    Oneshot { repo_path: String },
    /// Fetch daemon health from a running instance.
    Health,
    /// Print daemon metrics and exit.
    Metrics,
    /// Request that a background job runs immediately.
    QueueJob { repo_path: String, job: CliJobKind },
}

#[derive(Debug, Clone, Copy, PartialEq, Eq, Structural)]
pub enum CliJobKind {
    Prefetch,
    Maintenance,
}

pub open spec fn spec_job_kind(k: CliJobKind) -> JobKind {
    match k {
        CliJobKind::Prefetch => JobKind::Prefetch,
        CliJobKind::Maintenance => JobKind::Maintenance,
    }
}

impl From<CliJobKind> for JobKind {
    fn from(value: CliJobKind) -> (k: JobKind) {
        match value {
            CliJobKind::Prefetch => JobKind::Prefetch,
            CliJobKind::Maintenance => JobKind::Maintenance,
        }
    }
}

impl FromSpecImpl<CliJobKind> for JobKind {
    open spec fn obeys_from_spec() -> bool {
        true
    }

    open spec fn from_spec(v: CliJobKind) -> JobKind {
        spec_job_kind(v)
    }
}

/// High-level action resolved from the CLI.
#[derive(Debug)]
pub enum CliAction {
    Rpc(DaemonCommand),
    List { stats: bool },
    Logs { repo_path: String, follow: bool, limit: usize },
    FsMonitorHelper { version: u8, token: Option<String>, repo: Option<String> },
    StreamEvents,
    RunDaemon,
    StartDaemon,
    StopDaemon,
    OneshotDaemon { repo_path: String },
    RunTray,
}

/// The action each command resolves to.
pub open spec fn spec_into_action(command: Commands) -> CliAction {
    match command {
        Commands::Register { repo_path } => CliAction::Rpc(DaemonCommand::RegisterRepo { repo_path }),
        Commands::Unregister { repo_path } => CliAction::Rpc(
            DaemonCommand::UnregisterRepo { repo_path },
        ),
        Commands::List { stats } => CliAction::List { stats },
        Commands::Events => CliAction::StreamEvents,
        Commands::Changed { repo_path, since } => CliAction::Rpc(
            DaemonCommand::FsMonitorSnapshot { repo_path, last_seen_generation: since },
        ),
        Commands::Logs { repo_path, follow, limit } => CliAction::Logs { repo_path, follow, limit },
        Commands::FsmonitorHelper { version, token, repo } => CliAction::FsMonitorHelper {
            version,
            token,
            repo,
        },
        Commands::Status { repo_path } => CliAction::Rpc(
            DaemonCommand::Status { repo_path, known_generation: None },
        ),
        Commands::Prefetch { repo_path, now } => CliAction::Rpc(
            DaemonCommand::QueueJob { repo_path, job: JobKind::Prefetch, immediate: now },
        ),
        Commands::Maintain { repo_path } => CliAction::Rpc(
            DaemonCommand::QueueJob { repo_path, job: JobKind::Maintenance, immediate: false },
        ),
        Commands::Health { repo_path } => CliAction::Rpc(DaemonCommand::RepoHealth { repo_path }),
        Commands::Tray => CliAction::RunTray,
        Commands::Daemon(cmd) => match cmd {
            DaemonCommands::Run => CliAction::RunDaemon,
            DaemonCommands::Start => CliAction::StartDaemon,
            DaemonCommands::Stop => CliAction::StopDaemon,
            DaemonCommands::Oneshot { repo_path } => CliAction::OneshotDaemon { repo_path },
            DaemonCommands::Health => CliAction::Rpc(DaemonCommand::HealthCheck),
            DaemonCommands::Metrics => CliAction::Rpc(DaemonCommand::Metrics),
            DaemonCommands::QueueJob { repo_path, job } => CliAction::Rpc(
                DaemonCommand::QueueJob { repo_path, job: spec_job_kind(job), immediate: false },
            ),
        },
    }
}

/// The repository path a command line names, if it names one.
pub open spec fn command_repo_path(c: Commands) -> Option<Seq<char>> {
    match c {
        Commands::Register { repo_path } => Some(repo_path@),
        Commands::Unregister { repo_path } => Some(repo_path@),
        Commands::Status { repo_path } => Some(repo_path@),
        Commands::Changed { repo_path, .. } => Some(repo_path@),
        Commands::Logs { repo_path, .. } => Some(repo_path@),
        Commands::Prefetch { repo_path, .. } => Some(repo_path@),
        Commands::Maintain { repo_path } => Some(repo_path@),
        Commands::Health { repo_path } => Some(repo_path@),
        Commands::Daemon(DaemonCommands::Oneshot { repo_path }) => Some(repo_path@),
        Commands::Daemon(DaemonCommands::QueueJob { repo_path, .. }) => Some(repo_path@),
        _ => None,
    }
}

/// The repository path an action names, if it names one.
pub open spec fn action_repo_path(a: CliAction) -> Option<Seq<char>> {
    match a {
        CliAction::Rpc(d) => crate::validated_path::command_path(d),
        CliAction::Logs { repo_path, .. } => Some(repo_path@),
        CliAction::OneshotDaemon { repo_path } => Some(repo_path@),
        _ => None,
    }
}

/// Each command line resolves to the request or action of its own name:
/// `register` and only `register` registers, `unregister` and only
/// `unregister` unregisters, and so on for every request; the repository
/// path a command names reaches its action unchanged, and no action names a
/// path the command did not; a queued job is of the kind asked for, and goes
/// to the front of the queue exactly for `prefetch --now`.
pub proof fn lemma_into_action_targets(c: Commands)
    ensures
        action_repo_path(spec_into_action(c)) == command_repo_path(c),
        (spec_into_action(c) matches CliAction::Rpc(DaemonCommand::RegisterRepo { .. })) <==> (c is Register),
        (spec_into_action(c) matches CliAction::Rpc(DaemonCommand::UnregisterRepo { .. })) <==> (c is Unregister),
        (spec_into_action(c) matches CliAction::Rpc(DaemonCommand::Status { known_generation, .. })
            && known_generation is None) <==> (c is Status),
        (spec_into_action(c) matches CliAction::Rpc(DaemonCommand::Status { .. })) <==> (c is Status),
        (spec_into_action(c) matches CliAction::Rpc(DaemonCommand::FsMonitorSnapshot { .. })) <==> (c is Changed),
        (spec_into_action(c) matches CliAction::Rpc(DaemonCommand::RepoHealth { .. })) <==> (c is Health),
        (spec_into_action(c) matches CliAction::Rpc(DaemonCommand::QueueJob { job: JobKind::Prefetch, .. }))
            <==> ((c is Prefetch) || (c matches Commands::Daemon(
            DaemonCommands::QueueJob { job: CliJobKind::Prefetch, .. },
        ))),
        (spec_into_action(c) matches CliAction::Rpc(DaemonCommand::QueueJob { job: JobKind::Maintenance, .. }))
            <==> ((c is Maintain) || (c matches Commands::Daemon(
            DaemonCommands::QueueJob { job: CliJobKind::Maintenance, .. },
        ))),
        (spec_into_action(c) matches CliAction::Rpc(DaemonCommand::QueueJob { immediate: true, .. }))
            <==> (c matches Commands::Prefetch { now: true, .. }),
        (spec_into_action(c) matches CliAction::Rpc(DaemonCommand::HealthCheck)) <==> (c matches Commands::Daemon(
            DaemonCommands::Health,
        )),
        (spec_into_action(c) matches CliAction::Rpc(DaemonCommand::Metrics)) <==> (c matches Commands::Daemon(
            DaemonCommands::Metrics,
        )),
        !(spec_into_action(c) matches CliAction::Rpc(DaemonCommand::ListRepos)),
        !(spec_into_action(c) matches CliAction::Rpc(DaemonCommand::FetchLogs { .. })),
        !(spec_into_action(c) matches CliAction::Rpc(DaemonCommand::Shutdown)),
        (spec_into_action(c) matches CliAction::List { .. }) <==> (c is List),
        (spec_into_action(c) matches CliAction::Logs { .. }) <==> (c is Logs),
        (spec_into_action(c) matches CliAction::StreamEvents) <==> (c is Events),
        (spec_into_action(c) matches CliAction::RunTray) <==> (c is Tray),
        (spec_into_action(c) matches CliAction::RunDaemon) <==> (c matches Commands::Daemon(DaemonCommands::Run)),
        (spec_into_action(c) matches CliAction::StartDaemon) <==> (c matches Commands::Daemon(DaemonCommands::Start)),
        (spec_into_action(c) matches CliAction::StopDaemon) <==> (c matches Commands::Daemon(DaemonCommands::Stop)),
        (spec_into_action(c) matches CliAction::OneshotDaemon { .. }) <==> (c matches Commands::Daemon(
            DaemonCommands::Oneshot { .. },
        )),
{
}

impl Cli {
    /// The action the parsed command line asks for.
    pub fn into_action(self) -> (a: CliAction)
        ensures
            a == spec_into_action(self.command),
    {
        match self.command {
            Commands::Register { repo_path } => CliAction::Rpc(DaemonCommand::RegisterRepo { repo_path }),
            Commands::Unregister { repo_path } => CliAction::Rpc(
                DaemonCommand::UnregisterRepo { repo_path },
            ),
            Commands::List { stats } => CliAction::List { stats },
            Commands::Events => CliAction::StreamEvents,
            Commands::Changed { repo_path, since } => CliAction::Rpc(
                DaemonCommand::FsMonitorSnapshot { repo_path, last_seen_generation: since },
            ),
            Commands::Logs { repo_path, follow, limit } => CliAction::Logs { repo_path, follow, limit },
            Commands::FsmonitorHelper { version, token, repo } => CliAction::FsMonitorHelper {
                version,
                token,
                repo,
            },
            Commands::Status { repo_path } => CliAction::Rpc(
                DaemonCommand::Status { repo_path, known_generation: None },
            ),
            Commands::Prefetch { repo_path, now } => CliAction::Rpc(
                DaemonCommand::QueueJob { repo_path, job: JobKind::Prefetch, immediate: now },
            ),
            Commands::Maintain { repo_path } => CliAction::Rpc(
                DaemonCommand::QueueJob { repo_path, job: JobKind::Maintenance, immediate: false },
            ),
            Commands::Health { repo_path } => CliAction::Rpc(DaemonCommand::RepoHealth { repo_path }),
            Commands::Tray => CliAction::RunTray,
            Commands::Daemon(cmd) => match cmd {
                DaemonCommands::Run => CliAction::RunDaemon,
                DaemonCommands::Start => CliAction::StartDaemon,
                DaemonCommands::Stop => CliAction::StopDaemon,
                DaemonCommands::Oneshot { repo_path } => CliAction::OneshotDaemon { repo_path },
                DaemonCommands::Health => CliAction::Rpc(DaemonCommand::HealthCheck),
                DaemonCommands::Metrics => CliAction::Rpc(DaemonCommand::Metrics),
                DaemonCommands::QueueJob { repo_path, job } => CliAction::Rpc(
                    DaemonCommand::QueueJob { repo_path, job: JobKind::from(job), immediate: false },
                ),
            },
        }
    }
}

pub struct CliOutput {
    pub message: String,
}

/// Error type returned by the CLI harness.
#[derive(Debug)]
pub enum CliError {
    Message(String),
    Daemon(DaemonError),
}

impl CliError {
    pub open spec fn spec_message(&self) -> Seq<char> {
        match self {
            CliError::Message(m) => m@,
            CliError::Daemon(e) => e.spec_message(),
        }
    }

    /// The error's human-readable text.
    pub fn message(&self) -> (s: String)
        ensures
            s@ == self.spec_message(),
    {
        match self {
            CliError::Message(m) => m.clone(),
            CliError::Daemon(e) => e.message(),
        }
    }
}

impl From<DaemonError> for CliError {
    fn from(value: DaemonError) -> (e: CliError) {
        CliError::Daemon(value)
    }
}

impl FromSpecImpl<DaemonError> for CliError {
    open spec fn obeys_from_spec() -> bool {
        true
    }

    open spec fn from_spec(v: DaemonError) -> CliError {
        CliError::Daemon(v)
    }
}

/// Each path on a line of its own, indented by two spaces.
pub open spec fn indented(paths: Seq<Seq<char>>) -> Seq<Seq<char>> {
    paths.map_values(|p: Seq<char>| "  "@ + p)
}

/// "<path> (generation <g>):"
pub open spec fn listing_header(repo_path: Seq<char>, generation: u64) -> Seq<char> {
    repo_path + " (generation "@ + decimal(generation as nat) + "):"@
}

/// `header` followed by the indented paths.
fn listing(header: String, paths: &Vec<String>) -> (lines: Vec<String>)
    ensures
        names_of(lines@) == seq![header@] + indented(names_of(paths@)),
{
    let ghost ps = names_of(paths@);
    let mut lines: Vec<String> = Vec::new();
    lines.push(header);
    let mut i: usize = 0;
    while i < paths.len()
        invariant
            i <= paths@.len(),
            ps == names_of(paths@),
            names_of(lines@) =~= seq![header@] + indented(ps.take(i as int)),
        decreases paths@.len() - i,
    {
        let ghost before = names_of(lines@);
        let mut line = String::from_str("  ");
        line.append(paths[i].as_str());
        lines.push(line);
        proof {
            assert(indented(ps.take(i + 1)) =~= indented(ps.take(i as int)).push("  "@ + ps[i as int]));
            assert(names_of(lines@) =~= before.push(line@));
        }
        i = i + 1;
    }
    proof {
        assert(ps.take(paths@.len() as int) =~= ps);
    }
    lines
}

pub open spec fn spec_format_repo_status(d: StatusView) -> Seq<char> {
    if d.dirty_paths.len() == 0 {
        d.repo_path + ": clean (generation "@ + decimal(d.generation as nat) + ")"@
    } else {
        join_with(seq![listing_header(d.repo_path, d.generation)] + indented(d.dirty_paths), "\n"@)
    }
}

/// A repository's status: "clean", or its dirty paths one per line.
pub fn format_repo_status(detail: &RepoStatusDetail) -> (s: String)
    ensures
        s@ == spec_format_repo_status(detail@),
{
    format_status_text(&detail.repo_path, &detail.dirty_paths, detail.generation, ": clean (generation ")
}

/// "<path><clean_text><g>)" with no dirty paths, else the listing.
fn format_status_text(repo_path: &String, dirty_paths: &Vec<String>, generation: u64, clean_text: &str) -> (s:
    String)
    ensures
        s@ == if dirty_paths@.len() == 0 {
            repo_path@ + clean_text@ + decimal(generation as nat) + ")"@
        } else {
            join_with(
                seq![listing_header(repo_path@, generation)] + indented(names_of(dirty_paths@)),
                "\n"@,
            )
        },
{
    if dirty_paths.len() == 0 {
        let mut s = repo_path.clone();
        s.append(clean_text);
        push_decimal(&mut s, generation);
        s.append(")");
        s
    } else {
        let mut header = repo_path.clone();
        header.append(" (generation ");
        push_decimal(&mut header, generation);
        header.append("):");
        let lines = listing(header, dirty_paths);
        join_lines(&lines)
    }
}

pub open spec fn spec_format_fsmonitor_snapshot(d: StatusView) -> Seq<char> {
    if d.dirty_paths.len() == 0 {
        d.repo_path + ": no changes (generation "@ + decimal(d.generation as nat) + ")"@
    } else {
        join_with(seq![listing_header(d.repo_path, d.generation)] + indented(d.dirty_paths), "\n"@)
    }
}

/// A snapshot: "no changes", or its dirty paths one per line.
pub fn format_fsmonitor_snapshot(snapshot: &FsMonitorSnapshot) -> (s: String)
    ensures
        s@ == spec_format_fsmonitor_snapshot(snapshot@),
{
    format_status_text(
        &snapshot.repo_path,
        &snapshot.dirty_paths,
        snapshot.generation,
        ": no changes (generation ",
    )
}

pub open spec fn generation_line(g: RepoGenerationView) -> Seq<char> {
    "  "@ + g.repo_path + " -> generation "@ + decimal(g.generation as nat)
}

pub open spec fn spec_format_health(h: DaemonHealthView) -> Seq<char> {
    let first = "repos: "@ + decimal(h.repo_count as nat) + ", pending jobs: "@ + decimal(
        h.pending_jobs as nat,
    ) + ", uptime: "@ + decimal(h.uptime_seconds as nat) + "s"@;
    let rest = if h.repo_generations.len() == 0 {
        Seq::empty()
    } else {
        seq!["repo generations:"@] + h.repo_generations.map_values(|g: RepoGenerationView| generation_line(g))
    };
    join_with(seq![first] + rest, "\n"@)
}

/// Daemon health: counts and uptime, then each repository's generation.
pub fn format_health(health: &DaemonHealth) -> (s: String)
    ensures
        s@ == spec_format_health(health@),
{
    let mut first = String::from_str("repos: ");
    push_decimal(&mut first, health.repo_count as u64);
    first.append(", pending jobs: ");
    push_decimal(&mut first, health.pending_jobs as u64);
    first.append(", uptime: ");
    push_decimal(&mut first, health.uptime_seconds);
    first.append("s");
    let ghost gens = health@.repo_generations;
    let ghost first_v = first@;
    let mut lines: Vec<String> = Vec::new();
    lines.push(first);
    proof {
        assert(names_of(lines@) =~= seq![first_v]);
    }
    if health.repo_generations.len() > 0 {
        lines.push(String::from_str("repo generations:"));
        let ghost base = names_of(lines@);
        let mut i: usize = 0;
        while i < health.repo_generations.len()
            invariant
                i <= gens.len(),
                gens == health@.repo_generations,
                gens.len() == health.repo_generations@.len(),
                names_of(lines@) =~= base + gens.take(i as int).map_values(
                    |g: RepoGenerationView| generation_line(g),
                ),
            decreases gens.len() - i,
        {
            let ghost before = names_of(lines@);
            let entry = &health.repo_generations[i];
            let mut line = String::from_str("  ");
            line.append(entry.repo_path.as_str());
            line.append(" -> generation ");
            push_decimal(&mut line, entry.generation);
            lines.push(line);
            proof {
                assert(gens[i as int] == entry@);
                assert(gens.take(i + 1).map_values(|g: RepoGenerationView| generation_line(g))
                    =~= gens.take(i as int).map_values(|g: RepoGenerationView| generation_line(g)).push(
                    generation_line(gens[i as int]),
                ));
                assert(names_of(lines@) =~= before.push(line@));
            }
            i = i + 1;
        }
        proof {
            assert(gens.take(gens.len() as int) =~= gens);
        }
    }
    proof {
        let rest = if gens.len() == 0 {
            Seq::empty()
        } else {
            seq!["repo generations:"@] + gens.map_values(|g: RepoGenerationView| generation_line(g))
        };
        assert(names_of(lines@) =~= seq![first_v] + rest);
    }
    join_lines(&lines)
}

pub open spec fn on_off(b: bool, yes: Seq<char>, no: Seq<char>) -> Seq<char> {
    if b {
        yes
    } else {
        no
    }
}

pub open spec fn spec_format_repo_health(d: RepoHealthDetailView) -> Seq<char> {
    let lines = seq![
        "Health report for "@ + d.repo_path,
        "  generation: "@ + decimal(d.generation as nat),
        "  pending jobs: "@ + decimal(d.pending_jobs as nat),
        "  watcher: "@ + on_off(d.watcher_active, "active"@, "inactive"@),
        match d.last_event {
            Some(t) => "  last event: "@ + decimal(t.secs as nat) + " (unix)"@,
            None => "  last event: none"@,
        },
        "  dirty paths: "@ + decimal(d.dirty_path_count as nat),
        "  sled integrity: "@ + on_off(d.sled_ok, "ok"@, "ERROR"@),
        "  needs reconciliation: "@ + on_off(d.needs_reconciliation, "yes"@, "no"@),
        "  throttling: "@ + on_off(d.throttling_active, "active"@, "off"@),
    ];
    join_with(
        match d.next_scheduled_job {
            Some(j) => lines.push("  next scheduled job: "@ + j),
            None => lines,
        },
        "\n"@,
    )
}

fn labelled(label: &str, value: &str) -> (s: String)
    ensures
        s@ == label@ + value@,
{
    let mut s = String::from_str(label);
    s.append(value);
    s
}

fn labelled_number(label: &str, n: u64) -> (s: String)
    ensures
        s@ == label@ + decimal(n as nat),
{
    let mut s = String::from_str(label);
    push_decimal(&mut s, n);
    s
}

/// A repository's health report, one fact per line.
pub fn format_repo_health(detail: &RepoHealthDetail) -> (s: String)
    ensures
        s@ == spec_format_repo_health(detail@),
{
    let mut lines: Vec<String> = Vec::new();
    lines.push(labelled("Health report for ", detail.repo_path.as_str()));
    lines.push(labelled_number("  generation: ", detail.generation));
    lines.push(labelled_number("  pending jobs: ", detail.pending_jobs as u64));
    lines.push(labelled("  watcher: ", if detail.watcher_active { "active" } else { "inactive" }));
    match detail.last_event {
        Some(t) => {
            let mut line = labelled_number("  last event: ", t.secs);
            line.append(" (unix)");
            lines.push(line);
        },
        None => lines.push(String::from_str("  last event: none")),
    }
    lines.push(labelled_number("  dirty paths: ", detail.dirty_path_count as u64));
    lines.push(labelled("  sled integrity: ", if detail.sled_ok { "ok" } else { "ERROR" }));
    lines.push(
        labelled("  needs reconciliation: ", if detail.needs_reconciliation { "yes" } else { "no" }),
    );
    lines.push(labelled("  throttling: ", if detail.throttling_active { "active" } else { "off" }));
    match &detail.next_scheduled_job {
        Some(j) => lines.push(labelled("  next scheduled job: ", j.as_str())),
        None => {},
    }
    proof {
        let d = detail@;
        let base = seq![
            "Health report for "@ + d.repo_path,
            "  generation: "@ + decimal(d.generation as nat),
            "  pending jobs: "@ + decimal(d.pending_jobs as nat),
            "  watcher: "@ + on_off(d.watcher_active, "active"@, "inactive"@),
            match d.last_event {
                Some(t) => "  last event: "@ + decimal(t.secs as nat) + " (unix)"@,
                None => "  last event: none"@,
            },
            "  dirty paths: "@ + decimal(d.dirty_path_count as nat),
            "  sled integrity: "@ + on_off(d.sled_ok, "ok"@, "ERROR"@),
            "  needs reconciliation: "@ + on_off(d.needs_reconciliation, "yes"@, "no"@),
            "  throttling: "@ + on_off(d.throttling_active, "active"@, "off"@),
        ];
        assert(names_of(lines@) =~= match d.next_scheduled_job {
            Some(j) => base.push("  next scheduled job: "@ + j),
            None => base,
        });
    }
    join_lines(&lines)
}

pub open spec fn summary_line(s: RepoSummaryView) -> Seq<char> {
    s.repo_path + " ["@ + decimal(s.pending_jobs as nat) + " jobs, status "@ + s.status.spec_as_str()
        + ", gen "@ + decimal(s.generation as nat) + "]"@
}

/// "<path> [<n> jobs, status <status>, gen <g>]"
pub fn format_repo_summary_line(summary: &RepoSummary) -> (s: String)
    ensures
        s@ == summary_line(summary@),
{
    let mut s = summary.repo_path.clone();
    s.append(" [");
    push_decimal(&mut s, summary.pending_jobs as u64);
    s.append(" jobs, status ");
    s.append(summary.status.as_str());
    s.append(", gen ");
    push_decimal(&mut s, summary.generation);
    s.append("]");
    s
}

pub open spec fn spec_format_repo_list(list: Seq<RepoSummaryView>) -> Seq<char> {
    if list.len() == 0 {
        "no repositories registered"@
    } else {
        join_with(list.map_values(|s: RepoSummaryView| summary_line(s)), "\n"@)
    }
}

/// One line per repository.
pub fn format_repo_list(list: &Vec<RepoSummary>) -> (s: String)
    ensures
        s@ == spec_format_repo_list(list@.map_values(|x: RepoSummary| x@)),
{
    let ghost views = list@.map_values(|x: RepoSummary| x@);
    if list.len() == 0 {
        return String::from_str("no repositories registered");
    }
    let mut lines: Vec<String> = Vec::new();
    let mut i: usize = 0;
    while i < list.len()
        invariant
            i <= list@.len(),
            views == list@.map_values(|x: RepoSummary| x@),
            names_of(lines@) =~= views.take(i as int).map_values(|s: RepoSummaryView| summary_line(s)),
        decreases list@.len() - i,
    {
        let ghost before = names_of(lines@);
        let line = format_repo_summary_line(&list[i]);
        lines.push(line);
        proof {
            assert(views.take(i + 1).map_values(|s: RepoSummaryView| summary_line(s)) =~= views.take(
                i as int,
            ).map_values(|s: RepoSummaryView| summary_line(s)).push(summary_line(views[i as int])));
            assert(names_of(lines@) =~= before.push(line@));
        }
        i = i + 1;
    }
    proof {
        assert(views.take(list@.len() as int) =~= views);
    }
    join_lines(&lines)
}

pub open spec fn log_line(e: LogEntryView) -> Seq<char> {
    "["@ + decimal(e.timestamp.secs as nat) + "] "@ + e.repo_path + ": "@ + e.message
}

/// "[<unix seconds>] <path>: <message>"
pub fn format_log_entry(entry: &LogEntry) -> (s: String)
    ensures
        s@ == log_line(entry@),
{
    let mut s = String::from_str("[");
    push_decimal(&mut s, entry.timestamp.secs);
    s.append("] ");
    s.append(entry.repo_path.as_str());
    s.append(": ");
    s.append(entry.message.as_str());
    s
}

pub open spec fn spec_format_logs(entries: Seq<LogEntryView>) -> Seq<char> {
    if entries.len() == 0 {
        "no log entries found"@
    } else {
        join_with(entries.map_values(|e: LogEntryView| log_line(e)), "\n"@)
    }
}

/// One line per log entry.
pub fn format_logs(entries: &Vec<LogEntry>) -> (s: String)
    ensures
        s@ == spec_format_logs(entries@.map_values(|e: LogEntry| e@)),
{
    let ghost views = entries@.map_values(|e: LogEntry| e@);
    if entries.len() == 0 {
        return String::from_str("no log entries found");
    }
    let mut lines: Vec<String> = Vec::new();
    let mut i: usize = 0;
    while i < entries.len()
        invariant
            i <= entries@.len(),
            views == entries@.map_values(|e: LogEntry| e@),
            names_of(lines@) =~= views.take(i as int).map_values(|e: LogEntryView| log_line(e)),
        decreases entries@.len() - i,
    {
        let ghost before = names_of(lines@);
        let line = format_log_entry(&entries[i]);
        lines.push(line);
        proof {
            assert(views.take(i + 1).map_values(|e: LogEntryView| log_line(e)) =~= views.take(
                i as int,
            ).map_values(|e: LogEntryView| log_line(e)).push(log_line(views[i as int])));
            assert(names_of(lines@) =~= before.push(line@));
        }
        i = i + 1;
    }
    proof {
        assert(views.take(entries@.len() as int) =~= views);
    }
    join_lines(&lines)
}

pub open spec fn metric_line(kind: JobKind, counts: JobMetrics) -> Seq<char> {
    kind.spec_as_str() + ": spawned="@ + decimal(counts.spawned as nat) + ", completed="@ + decimal(
        counts.completed as nat,
    ) + ", failed="@ + decimal(counts.failed as nat)
}

/// "<kind>: spawned=<n>, completed=<n>, failed=<n>"
pub fn render_metric_line(kind: JobKind, counts: JobMetrics) -> (s: String)
    ensures
        s@ == metric_line(kind, counts),
{
    let mut s = String::from_str(kind.as_str());
    s.append(": spawned=");
    push_decimal(&mut s, counts.spawned);
    s.append(", completed=");
    push_decimal(&mut s, counts.completed);
    s.append(", failed=");
    push_decimal(&mut s, counts.failed);
    s
}

pub open spec fn two_pow(e: nat) -> nat
    decreases e,
{
    if e == 0 {
        1
    } else {
        2 * two_pow((e - 1) as nat)
    }
}

proof fn lemma_two_pow_mono(i: nat, j: nat)
    requires
        i <= j,
    ensures
        two_pow(i) <= two_pow(j),
    decreases j,
{
    if i < j {
        lemma_two_pow_mono(i, (j - 1) as nat);
    }
}

/// `x / d` rounded to the nearest integer, ties to even.
pub open spec fn round_half_even(x: nat, d: nat) -> nat {
    let q = x / d;
    let r = x % d;
    if 2 * r > d || (2 * r == d && q % 2 == 1) {
        q + 1
    } else {
        q
    }
}

/// The least `t` from `s` on, up to 11, with `n < 2^t * 2^53`: how many low
/// bits of `n` an `f64` cannot hold.
pub open spec fn f64_shift(n: nat, s: nat) -> nat
    decreases 11 - s,
{
    if s >= 11 || n < two_pow(s) * 9007199254740992 {
        s
    } else {
        f64_shift(n, s + 1)
    }
}

/// The value of `n as f64`: `n` rounded to 53 significant bits, ties to even.
pub open spec fn as_f64(n: u64) -> nat {
    let unit = two_pow(f64_shift(n as nat, 0));
    round_half_even(n as nat, unit) * unit
}

/// 1024 to the power `k`, for `k` up to 4.
pub open spec fn unit_divisor(k: nat) -> nat {
    if k == 0 {
        1
    } else if k == 1 {
        1024
    } else if k == 2 {
        1048576
    } else if k == 3 {
        1073741824
    } else {
        1099511627776
    }
}

/// The unit `{B, KiB, MiB, GiB, TiB}[k]` a value of `v` bytes is shown in:
/// the largest whose size is at most `v`.
pub open spec fn byte_unit(v: nat, k: nat) -> nat
    decreases 4 - k,
{
    if k >= 4 || v < unit_divisor(k + 1) {
        k
    } else {
        byte_unit(v, k + 1)
    }
}

pub open spec fn unit_name(k: nat) -> Seq<char> {
    if k == 0 {
        "B"@
    } else if k == 1 {
        "KiB"@
    } else if k == 2 {
        "MiB"@
    } else if k == 3 {
        "GiB"@
    } else {
        "TiB"@
    }
}

/// A count of tenths written with one decimal, as `{:.1}` writes it.
pub open spec fn tenths_text(t: nat) -> Seq<char> {
    decimal(t / 10) + "."@ + decimal(t % 10)
}

/// A byte count in binary units: whole bytes below 1 KiB, else the value in
/// the largest unit it reaches (up to TiB) with one decimal. The value is
/// that of the count as a 64-bit float, rounded to the nearest tenth with
/// ties to even.
pub open spec fn spec_format_bytes(bytes: u64) -> Seq<char> {
    let v = as_f64(bytes);
    let k = byte_unit(v, 0);
    if k == 0 {
        decimal(bytes as nat) + " B"@
    } else {
        tenths_text(round_half_even(v * 10, unit_divisor(k))) + " "@ + unit_name(k)
    }
}

fn unit_name_str(k: u32) -> (s: &'static str)
    requires
        1 <= k <= 4,
    ensures
        s@ == unit_name(k as nat),
{
    if k == 1 {
        "KiB"
    } else if k == 2 {
        "MiB"
    } else if k == 3 {
        "GiB"
    } else {
        "TiB"
    }
}

/// `bytes` in human-readable binary units.
pub fn format_bytes(bytes: u64) -> (s: String)
    ensures
        s@ == spec_format_bytes(bytes),
{
    // The value `bytes as f64` takes.
    let mut shift: u32 = 0;
    let mut unit: u128 = 1;
    proof {
        assert(two_pow(11) == 2048) by {
            reveal_with_fuel(two_pow, 12);
        }
    }
    while shift < 11 && (bytes as u128) >= unit * 9007199254740992
        invariant
            shift <= 11,
            unit == two_pow(shift as nat),
            unit <= 2048,
            f64_shift(bytes as nat, 0) == f64_shift(bytes as nat, shift as nat),
            two_pow(11) == 2048,
        decreases 11 - shift,
    {
        proof {
            lemma_two_pow_mono((shift + 1) as nat, 11);
        }
        shift = shift + 1;
        unit = unit * 2;
    }
    proof {
        lemma_two_pow_mono(shift as nat, 11);
    }
    let q = (bytes as u128) / unit;
    let r = (bytes as u128) % unit;
    let rounded = if 2 * r > unit || (2 * r == unit && q % 2 == 1) { q + 1 } else { q };
    proof {
        assert(q <= bytes as u128);
        assert(rounded * unit <= 18446744073709551616 + 2048) by (nonlinear_arith)
            requires
                rounded <= q + 1,
                q == bytes as u128 / unit,
                1 <= unit <= 2048,
                bytes <= u64::MAX,
        {
            assert(q * unit <= bytes as u128);
            assert((q + 1) * unit == q * unit + unit);
        }
    }
    let v: u128 = rounded * unit;
    // The unit it is shown in.
    let mut k: u32 = 0;
    let mut div: u128 = 1;
    while k < 4 && v >= div * 1024
        invariant
            k <= 4,
            div == unit_divisor(k as nat),
            byte_unit(v as nat, 0) == byte_unit(v as nat, k as nat),
        decreases 4 - k,
    {
        k = k + 1;
        div = div * 1024;
    }
    if k == 0 {
        let mut s = crate::text::decimal_text(bytes);
        s.append(" B");
        return s;
    }
    let x = v * 10;
    let tq = x / div;
    let tr = x % div;
    proof {
        vstd::arithmetic::div_mod::lemma_div_is_ordered_by_denominator(x as int, 1024, div as int);
    }
    let t = if 2 * tr > div || (2 * tr == div && tq % 2 == 1) { tq + 1 } else { tq };
    let mut s = crate::text::decimal_text((t / 10) as u64);
    s.append(".");
    push_decimal(&mut s, (t % 10) as u64);
    s.append(" ");
    s.append(unit_name_str(k));
    s
}

pub open spec fn queue_depth_line(r: RepoMetricsView) -> Seq<char> {
    "  "@ + r.repo_path + " -> "@ + decimal(r.pending_jobs as nat) + " pending"@
}

pub open spec fn counts_of(m: Option<JobMetrics>) -> JobMetrics {
    match m {
        Some(c) => c,
        None => JobMetrics::spec_default(),
    }
}

pub open spec fn spec_format_metrics(m: DaemonMetricsView) -> Seq<char> {
    let first = "daemon: cpu="@ + tenths_text(m.global.cpu_percent_tenths as nat) + "%, rss="@
        + spec_format_bytes(m.global.rss_bytes) + ", uptime="@ + decimal(m.global.uptime_seconds as nat)
        + "s, pending jobs="@ + decimal(m.global.pending_jobs as nat);
    let repos = if m.repos.len() == 0 {
        Seq::empty()
    } else {
        seq!["repo queue depth:"@] + m.repos.map_values(|r: RepoMetricsView| queue_depth_line(r))
    };
    let counters = seq![
        "job counters:"@,
        "  "@ + metric_line(JobKind::Prefetch, counts_of(m.jobs.prefetch)),
        "  "@ + metric_line(JobKind::Maintenance, counts_of(m.jobs.maintenance)),
    ];
    join_with(seq![first] + repos + counters, "\n"@)
}

fn counter_line(kind: JobKind, m: Option<JobMetrics>) -> (s: String)
    ensures
        s@ == "  "@ + metric_line(kind, counts_of(m)),
{
    let counts = match m {
        Some(c) => c,
        None => JobMetrics::default(),
    };
    let mut s = String::from_str("  ");
    let line = render_metric_line(kind, counts);
    s.append(line.as_str());
    s
}

/// Daemon resources, each repository's queue depth and the job counters.
pub fn format_metrics(metrics: &DaemonMetrics) -> (s: String)
    ensures
        s@ == spec_format_metrics(metrics@),
{
    let g = metrics.global;
    let mut first = String::from_str("daemon: cpu=");
    push_decimal(&mut first, g.cpu_percent_tenths / 10);
    first.append(".");
    push_decimal(&mut first, g.cpu_percent_tenths % 10);
    first.append("%, rss=");
    let rss = format_bytes(g.rss_bytes);
    first.append(rss.as_str());
    first.append(", uptime=");
    push_decimal(&mut first, g.uptime_seconds);
    first.append("s, pending jobs=");
    push_decimal(&mut first, g.pending_jobs as u64);
    let ghost first_v = first@;
    let ghost repos = metrics@.repos;
    let mut lines: Vec<String> = Vec::new();
    lines.push(first);
    proof {
        assert(names_of(lines@) =~= seq![first_v]);
    }
    if metrics.repos.len() > 0 {
        lines.push(String::from_str("repo queue depth:"));
        let ghost base = names_of(lines@);
        let mut i: usize = 0;
        while i < metrics.repos.len()
            invariant
                i <= repos.len(),
                repos == metrics@.repos,
                repos.len() == metrics.repos@.len(),
                names_of(lines@) =~= base + repos.take(i as int).map_values(
                    |r: RepoMetricsView| queue_depth_line(r),
                ),
            decreases repos.len() - i,
        {
            let ghost before = names_of(lines@);
            let r = &metrics.repos[i];
            let mut line = String::from_str("  ");
            line.append(r.repo_path.as_str());
            line.append(" -> ");
            push_decimal(&mut line, r.pending_jobs as u64);
            line.append(" pending");
            lines.push(line);
            proof {
                assert(repos[i as int] == r@);
                assert(repos.take(i + 1).map_values(|r: RepoMetricsView| queue_depth_line(r))
                    =~= repos.take(i as int).map_values(|r: RepoMetricsView| queue_depth_line(r)).push(
                    queue_depth_line(repos[i as int]),
                ));
                assert(names_of(lines@) =~= before.push(line@));
            }
            i = i + 1;
        }
        proof {
            assert(repos.take(repos.len() as int) =~= repos);
        }
    }
    let ghost mid = names_of(lines@);
    lines.push(String::from_str("job counters:"));
    lines.push(counter_line(JobKind::Prefetch, metrics.jobs.prefetch));
    lines.push(counter_line(JobKind::Maintenance, metrics.jobs.maintenance));
    proof {
        let spec_first = "daemon: cpu="@ + tenths_text(g.cpu_percent_tenths as nat) + "%, rss="@
            + spec_format_bytes(g.rss_bytes) + ", uptime="@ + decimal(g.uptime_seconds as nat)
            + "s, pending jobs="@ + decimal(g.pending_jobs as nat);
        assert(first_v =~= spec_first);
        let rs = if repos.len() == 0 {
            Seq::empty()
        } else {
            seq!["repo queue depth:"@] + repos.map_values(|r: RepoMetricsView| queue_depth_line(r))
        };
        assert(mid =~= seq![first_v] + rs);
        let counters = seq![
            "job counters:"@,
            "  "@ + metric_line(JobKind::Prefetch, counts_of(metrics@.jobs.prefetch)),
            "  "@ + metric_line(JobKind::Maintenance, counts_of(metrics@.jobs.maintenance)),
        ];
        assert(names_of(lines@) =~= seq![first_v] + rs + counters);
    }
    join_lines(&lines)
}

pub open spec fn spec_format_response(r: DaemonResponseView) -> Seq<char> {
    match r {
        DaemonResponseView::Ack(m) => m,
        DaemonResponseView::RepoList(list) => spec_format_repo_list(list),
        DaemonResponseView::RepoStatus(d) => spec_format_repo_status(d),
        DaemonResponseView::RepoStatusUnchanged { repo_path, generation } => repo_path
            + ": unchanged (generation "@ + decimal(generation as nat) + ")"@,
        DaemonResponseView::Health(h) => spec_format_health(h),
        DaemonResponseView::RepoHealth(d) => spec_format_repo_health(d),
        DaemonResponseView::Metrics(m) => spec_format_metrics(m),
        DaemonResponseView::FsMonitorSnapshot(s) => spec_format_fsmonitor_snapshot(s),
        DaemonResponseView::Logs(entries) => spec_format_logs(entries),
        DaemonResponseView::Error(m) => m,
    }
}

/// The text printed for a daemon response.
pub fn format_response(response: &DaemonResponse) -> (s: String)
    ensures
        s@ == spec_format_response(response@),
{
    match response {
        DaemonResponse::Ack(ack) => ack.message.clone(),
        DaemonResponse::RepoList(list) => format_repo_list(list),
        DaemonResponse::RepoStatus(detail) => format_repo_status(detail),
        DaemonResponse::RepoStatusUnchanged { repo_path, generation } => {
            let mut s = repo_path.clone();
            s.append(": unchanged (generation ");
            push_decimal(&mut s, *generation);
            s.append(")");
            s
        },
        DaemonResponse::Health(health) => format_health(health),
        DaemonResponse::RepoHealth(detail) => format_repo_health(detail),
        DaemonResponse::Metrics(metrics) => format_metrics(metrics),
        DaemonResponse::FsMonitorSnapshot(snapshot) => format_fsmonitor_snapshot(snapshot),
        DaemonResponse::Logs(entries) => format_logs(entries),
        DaemonResponse::Error(msg) => msg.clone(),
    }
}

/// What `status` prints and caches for a daemon response, given the status
/// cached earlier.
pub struct StatusDecision {
    pub stdout: String,
    pub stderr: Option<String>,
    pub to_cache: Option<RepoStatusDetail>,
}

pub open spec fn opt_text(o: Option<String>) -> Option<Seq<char>> {
    match o {
        Some(s) => Some(s@),
        None => None,
    }
}

pub open spec fn opt_status(o: Option<RepoStatusDetail>) -> Option<StatusView> {
    match o {
        Some(d) => Some(d@),
        None => None,
    }
}

/// Fresh details are shown and cached; when the daemon reports no change or
/// fails, the cached details are shown instead (with a warning on failure).
pub open spec fn spec_status_decision(r: DaemonResponseView, cached: Option<StatusView>) -> (
    Seq<char>,
    Option<Seq<char>>,
    Option<StatusView>,
) {
    match r {
        DaemonResponseView::RepoStatus(d) => (spec_format_repo_status(d), None, Some(d)),
        DaemonResponseView::RepoStatusUnchanged { .. } => match cached {
            Some(d) => (spec_format_repo_status(d), None, None),
            None => (spec_format_response(r), None, None),
        },
        DaemonResponseView::Error(m) => match cached {
            Some(d) => (
                spec_format_repo_status(d),
                Some("daemon error: "@ + m + "; showing cached status"@),
                None,
            ),
            None => (m, None, None),
        },
        _ => (spec_format_response(r), None, None),
    }
}

pub fn resolve_status_decision(response: DaemonResponse, cached: Option<RepoStatusDetail>) -> (d:
    StatusDecision)
    ensures
        (d.stdout@, opt_text(d.stderr), opt_status(d.to_cache)) == spec_status_decision(
            response@,
            opt_status(cached),
        ),
{
    match response {
        DaemonResponse::RepoStatus(detail) => {
            let stdout = format_repo_status(&detail);
            StatusDecision { stdout, stderr: None, to_cache: Some(detail) }
        },
        DaemonResponse::RepoStatusUnchanged { repo_path, generation } => {
            match cached {
                Some(detail) => StatusDecision {
                    stdout: format_repo_status(&detail),
                    stderr: None,
                    to_cache: None,
                },
                None => StatusDecision {
                    stdout: format_response(&DaemonResponse::RepoStatusUnchanged { repo_path, generation }),
                    stderr: None,
                    to_cache: None,
                },
            }
        },
        DaemonResponse::Error(message) => {
            match cached {
                Some(detail) => {
                    let mut warning = String::from_str("daemon error: ");
                    warning.append(message.as_str());
                    warning.append("; showing cached status");
                    StatusDecision {
                        stdout: format_repo_status(&detail),
                        stderr: Some(warning),
                        to_cache: None,
                    }
                },
                None => StatusDecision { stdout: message, stderr: None, to_cache: None },
            }
        },
        other => StatusDecision { stdout: format_response(&other), stderr: None, to_cache: None },
    }
}

/// The fsmonitor protocol's answer: the generation as the token, then each
/// path, every one followed by a NUL.
pub open spec fn payload_text(generation: u64, paths: Seq<Seq<char>>) -> Seq<char>
    decreases paths.len(),
{
    if paths.len() == 0 {
        decimal(generation as nat) + "\0"@
    } else {
        payload_text(generation, paths.drop_last()) + paths.last() + "\0"@
    }
}

/// The bytes written to Git for `snapshot`.
pub fn fsmonitor_payload(snapshot: &FsMonitorSnapshot) -> (b: Vec<u8>)
    ensures
        b@ == vstd::utf8::encode_utf8(payload_text(snapshot.generation, names_of(snapshot.dirty_paths@))),
{
    let ghost ps = names_of(snapshot.dirty_paths@);
    let mut text = crate::text::decimal_text(snapshot.generation);
    text.append("\0");
    let mut i: usize = 0;
    while i < snapshot.dirty_paths.len()
        invariant
            i <= ps.len(),
            ps == names_of(snapshot.dirty_paths@),
            ps.len() == snapshot.dirty_paths@.len(),
            text@ == payload_text(snapshot.generation, ps.take(i as int)),
        decreases ps.len() - i,
    {
        proof {
            assert(ps.take(i + 1).drop_last() =~= ps.take(i as int));
        }
        text.append(snapshot.dirty_paths[i].as_str());
        text.append("\0");
        i = i + 1;
    }
    proof {
        assert(ps.take(ps.len() as int) =~= ps);
    }
    vstd::slice::slice_to_vec(text.as_str().as_bytes())
}

pub open spec fn is_ascii_alpha(c: char) -> bool {
    ('a' <= c && c <= 'z') || ('A' <= c && c <= 'Z')
}

/// A WSL mount of a Windows drive: `/mnt/` and then a drive letter.
pub open spec fn spec_is_windows_filesystem(path: Seq<char>) -> bool {
    path.len() > 5 && path.subrange(0, 5) == "/mnt/"@ && is_ascii_alpha(path[5])
}

pub fn is_windows_filesystem(path: &String) -> (b: bool)
    ensures
        b == spec_is_windows_filesystem(path@),
{
    let chars = crate::text::chars_of(path.as_str());
    proof {
        reveal_strlit("/mnt/");
    }
    if chars.len() <= 5 {
        return false;
    }
    let prefix = chars[0] == '/' && chars[1] == 'm' && chars[2] == 'n' && chars[3] == 't' && chars[4] == '/';
    proof {
        if path@.subrange(0, 5) == "/mnt/"@ {
            assert(path@.subrange(0, 5)[0] == path@[0]);
            assert(path@.subrange(0, 5)[1] == path@[1]);
            assert(path@.subrange(0, 5)[2] == path@[2]);
            assert(path@.subrange(0, 5)[3] == path@[3]);
            assert(path@.subrange(0, 5)[4] == path@[4]);
        }
        if prefix {
            assert(path@.subrange(0, 5) =~= "/mnt/"@);
        }
    }
    let c = chars[5];
    prefix && (('a' <= c && c <= 'z') || ('A' <= c && c <= 'Z'))
}

/// `path` validated, with the validation error's text on failure.
pub fn validated_path(path: String) -> (r: Result<crate::validated_path::ValidatedPath, CliError>)
    ensures
        match crate::validated_path::spec_validate(path@) {
            Ok(n) => r matches Ok(v) && v@ == n,
            Err(e) => r matches Err(CliError::Message(m)) && m@ == e.spec_message(),
        },
{
    match crate::validated_path::ValidatedPath::new(path) {
        Ok(v) => Ok(v),
        Err(e) => Err(CliError::Message(e.message())),
    }
}

pub open spec fn spec_watch_kind_text(kind: WatchEventKind) -> Seq<char> {
    match kind {
        WatchEventKind::Created => "created"@,
        WatchEventKind::Modified => "modified"@,
        WatchEventKind::Deleted => "deleted"@,
    }
}

/// Each watched change is printed under its own name: `created`,
/// `modified` or `deleted`, distinct kinds never alike.
pub proof fn lemma_watch_kind_text(a: WatchEventKind, b: WatchEventKind)
    ensures
        spec_watch_kind_text(a) == spec_watch_kind_text(b) ==> a == b,
        (spec_watch_kind_text(a) == "deleted"@) <==> (a == WatchEventKind::Deleted),
        (spec_watch_kind_text(a) == "created"@) <==> (a == WatchEventKind::Created),
        (spec_watch_kind_text(a) == "modified"@) <==> (a == WatchEventKind::Modified),
{
    reveal_strlit("created");
    reveal_strlit("modified");
    reveal_strlit("deleted");
    assert("created"@.len() != "modified"@.len());
    assert("deleted"@.len() != "modified"@.len());
    assert("created"@[0] != "deleted"@[0]);
}

/// Each job event is printed under its own name, distinct events never
/// alike.
pub proof fn lemma_job_event_text(a: JobEventKind, b: JobEventKind)
    ensures
        spec_job_event_text(a) == spec_job_event_text(b) ==> a == b,
        (spec_job_event_text(a) == "failed"@) <==> (a == JobEventKind::Failed),
        (spec_job_event_text(a) == "completed"@) <==> (a == JobEventKind::Completed),
        (spec_job_event_text(a) == "started"@) <==> (a == JobEventKind::Started),
        (spec_job_event_text(a) == "queued"@) <==> (a == JobEventKind::Queued),
{
    reveal_strlit("queued");
    reveal_strlit("started");
    reveal_strlit("completed");
    reveal_strlit("failed");
    assert("queued"@.len() != "started"@.len());
    assert("queued"@.len() != "completed"@.len());
    assert("queued"@[0] != "failed"@[0]);
    assert("started"@.len() != "completed"@.len());
    assert("started"@.len() != "failed"@.len());
    assert("completed"@.len() != "failed"@.len());
}

pub fn format_watch_kind(kind: WatchEventKind) -> (s: &'static str)
    ensures
        s@ == spec_watch_kind_text(kind),
{
    match kind {
        WatchEventKind::Created => "created",
        WatchEventKind::Modified => "modified",
        WatchEventKind::Deleted => "deleted",
    }
}

pub open spec fn spec_job_event_text(kind: JobEventKind) -> Seq<char> {
    match kind {
        JobEventKind::Queued => "queued"@,
        JobEventKind::Started => "started"@,
        JobEventKind::Completed => "completed"@,
        JobEventKind::Failed => "failed"@,
    }
}

pub fn format_job_event_kind(kind: JobEventKind) -> (s: &'static str)
    ensures
        s@ == spec_job_event_text(kind),
{
    match kind {
        JobEventKind::Queued => "queued",
        JobEventKind::Started => "started",
        JobEventKind::Completed => "completed",
        JobEventKind::Failed => "failed",
    }
}

/// The line `events` prints for a notification.
pub open spec fn spec_notification_line(n: NotificationView) -> Seq<char> {
    match n {
        NotificationView::WatchEvent { repo_path, path, kind } => "[watch] "@ + repo_path + " -> "@
            + path + " ("@ + spec_watch_kind_text(kind) + ")"@,
        NotificationView::JobEvent { repo_path, job, kind } => "[job] "@
            + crate::daemon::job_debug_name(job) + " for "@ + repo_path + " ("@ + spec_job_event_text(
            kind,
        ) + ")"@,
        NotificationView::RepoStatus(d) => "[status] "@ + d.repo_path + " dirty paths="@ + decimal(
            d.dirty_paths.len(),
        ) + ", generation="@ + decimal(d.generation as nat),
        NotificationView::Log(e) => spec_log_entry_line(e),
    }
}

/// The line printed for a log entry streamed from the daemon.
pub open spec fn spec_log_entry_line(e: LogEntryView) -> Seq<char> {
    "[log "@ + decimal(e.timestamp.secs as nat) + "] "@ + e.repo_path + ": "@ + e.message
}

pub fn print_log_entry_line(entry: &LogEntry) -> (s: String)
    ensures
        s@ == spec_log_entry_line(entry@),
{
    let mut s = String::from_str("[log ");
    push_decimal(&mut s, entry.timestamp.secs);
    s.append("] ");
    s.append(entry.repo_path.as_str());
    s.append(": ");
    s.append(entry.message.as_str());
    s
}

pub fn notification_line(n: &DaemonNotification) -> (s: String)
    ensures
        s@ == spec_notification_line(n@),
{
    match n {
        DaemonNotification::WatchEvent(e) => {
            let mut s = String::from_str("[watch] ");
            s.append(e.repo_path.as_str());
            s.append(" -> ");
            s.append(e.path.as_str());
            s.append(" (");
            s.append(format_watch_kind(e.kind));
            s.append(")");
            s
        },
        DaemonNotification::JobEvent(e) => {
            let mut s = String::from_str("[job] ");
            s.append(match e.job {
                JobKind::Prefetch => "Prefetch",
                JobKind::Maintenance => "Maintenance",
            });
            s.append(" for ");
            s.append(e.repo_path.as_str());
            s.append(" (");
            s.append(format_job_event_kind(e.kind));
            s.append(")");
            s
        },
        DaemonNotification::RepoStatus(d) => {
            let mut s = String::from_str("[status] ");
            s.append(d.repo_path.as_str());
            s.append(" dirty paths=");
            push_decimal(&mut s, d.dirty_paths.len() as u64);
            s.append(", generation=");
            push_decimal(&mut s, d.generation);
            proof {
                assert(d@.dirty_paths.len() == d.dirty_paths@.len());
            }
            s
        },
        DaemonNotification::Log(e) => print_log_entry_line(e),
    }
}

} // verus!
