//! The supervision record of one managed process: its lifecycle state,
//! health, pid and timestamps, restart count and the bounded buffer of
//! captured output lines, with the transitions the supervisor makes when a
//! spawn fails, a process starts, exits or is health-checked.
use vstd::prelude::*;
use std::collections::VecDeque;
use crate::config::AppConfig;
use crate::env_map::EnvMap;
use crate::text::{decimal, push_decimal, push_signed_decimal, signed_decimal};

verus! {

broadcast use vstd::std_specs::vecdeque::group_vec_dequeue_axioms;

/// Current lifecycle state of a managed process.
#[derive(Debug, Clone, Copy, PartialEq, Eq, Structural)]
pub enum ProcessState {
    /// Process has not been started yet.
    Pending,
    /// Process is running.
    Running,
    /// Process exited with the given code.
    Exited(i32),
    /// Process was killed: terminated on request or by a signal (or waiting for it failed).
    Killed,
    /// Process failed to start.
    Failed,
}

/// How a state reads on the dashboard.
pub open spec fn state_text(s: ProcessState) -> Seq<char> {
    match s {
        ProcessState::Pending => "pending"@,
        ProcessState::Running => "running"@,
        ProcessState::Exited(code) => "exited("@ + signed_decimal(code as int) + ")"@,
        ProcessState::Killed => "killed"@,
        ProcessState::Failed => "failed"@,
    }
}

impl ProcessState {
    /// The state as text: `pending`, `running`, `exited(CODE)`, `killed` or `failed`.
    pub fn to_string(&self) -> (s: String)
        ensures
            s@ == state_text(*self),
    {
        match self {
            ProcessState::Pending => String::from_str("pending"),
            ProcessState::Running => String::from_str("running"),
            ProcessState::Exited(code) => {
                let mut s = String::from_str("exited(");
                push_signed_decimal(&mut s, *code as i64);
                s.append(")");
                s
            },
            ProcessState::Killed => String::from_str("killed"),
            ProcessState::Failed => String::from_str("failed"),
        }
    }
}

/// Health-check outcome.
#[derive(Debug, Clone, Copy, PartialEq, Eq, Structural)]
pub enum HealthStatus {
    /// No health URL configured.
    NotConfigured,
    /// Health check has not run yet.
    Unknown,
    Healthy,
    Unhealthy,
}

/// A captured output line, as a value.
pub struct LogEntry {
    pub timestamp_millis: int,
    pub stream: Seq<char>,
    pub text: Seq<char>,
}

/// A single log line captured from stdout or stderr.
#[derive(Debug)]
pub struct LogLine {
    /// When the line was captured, in milliseconds since the Unix epoch.
    pub timestamp_millis: i64,
    /// `stdout` or `stderr`.
    pub stream: String,
    pub text: String,
}

impl View for LogLine {
    type V = LogEntry;

    open spec fn view(&self) -> LogEntry {
        LogEntry { timestamp_millis: self.timestamp_millis as int, stream: self.stream@, text: self.text@ }
    }
}

impl Clone for LogLine {
    /// A copy of the line.
    fn clone(&self) -> (c: Self)
        ensures
            c@ == self@,
    {
        LogLine { timestamp_millis: self.timestamp_millis, stream: self.stream.clone(), text: self.text.clone() }
    }
}

/// The values of a list of log lines.
pub open spec fn entries_of(s: Seq<LogLine>) -> Seq<LogEntry> {
    s.map_values(|l: LogLine| l@)
}

/// The buffer after one more line: the newest `max` lines of the buffer
/// with the line added last (none at all when `max` is 0).
pub open spec fn pushed_logs(logs: Seq<LogEntry>, max: nat, line: LogEntry) -> Seq<LogEntry> {
    let all = logs.push(line);
    if all.len() > max {
        all.subrange(all.len() - max, all.len() as int)
    } else {
        all
    }
}

/// What a process does after it ended.
#[derive(Debug, Clone, Copy, PartialEq, Eq, Structural)]
pub enum NextStep {
    /// Start it again (after the restart delay).
    Restart,
    /// Leave it stopped.
    Stop,
}

/// How waiting for a process ended.
#[derive(Debug)]
pub enum ExitOutcome {
    /// It exited by itself with this exit code.
    Exited(i32),
    /// It was killed: terminated on request, or ended by a signal.
    Killed,
    /// Waiting for it failed, with the error's text.
    WaitFailed(String),
}

impl ExitOutcome {
    /// How a process ended that waiting for returned with exit code `code`
    /// (none when a signal ended it): killed when a kill was requested or a
    /// signal ended it, else exited with its code.
    pub fn of_wait(code: Option<i32>, kill_requested: bool) -> (r: Self)
        ensures
            r == (match code {
                Some(c) => if kill_requested { ExitOutcome::Killed } else { ExitOutcome::Exited(c) },
                None => ExitOutcome::Killed,
            }),
    {
        match code {
            Some(c) => if kill_requested { ExitOutcome::Killed } else { ExitOutcome::Exited(c) },
            None => ExitOutcome::Killed,
        }
    }
}

/// The supervision record of one process.
#[derive(Debug)]
pub struct ProcessRecord {
    pub state: ProcessState,
    pub health: HealthStatus,
    pub pid: Option<u32>,
    /// When the process last started, in milliseconds since the Unix epoch.
    pub started_at_millis: Option<i64>,
    /// When the process last ended, in milliseconds since the Unix epoch.
    pub exit_time_millis: Option<i64>,
    pub restart_count: u32,
    pub logs: VecDeque<LogLine>,
    pub max_log_lines: usize,
}

/// Serialisable snapshot of a process's runtime state.
#[derive(Debug)]
pub struct ProcessStatus {
    pub name: String,
    pub command: String,
    pub args: Vec<String>,
    pub env: EnvMap,
    pub state: ProcessState,
    pub health: HealthStatus,
    pub pid: Option<u32>,
    pub started_at_millis: Option<i64>,
    pub exit_time_millis: Option<i64>,
    pub restart_count: u32,
    pub logs: Vec<LogLine>,
}

/// `Utc::now()` in milliseconds since the Unix epoch; nothing is promised of
/// the value, which is the time of the call.
#[verifier::external_body]
fn now_millis() -> (t: i64) {
    chrono::Utc::now().timestamp_millis()
}

/// The text of the log line that records a failed spawn.
pub open spec fn spawn_failed_text(error: Seq<char>) -> Seq<char> {
    "Failed to spawn: "@ + error
}

/// The text of the log line that records an exit code.
pub open spec fn exited_text(code: int) -> Seq<char> {
    "Process exited with code "@ + signed_decimal(code)
}

/// The text of the log line that records a failed `before` hook.
pub open spec fn hook_failed_text(command: Seq<char>, detail: Seq<char>) -> Seq<char> {
    "before hook "@ + command + " failed: "@ + detail
}

/// The text of the log line that records a kill.
pub open spec fn killed_text() -> Seq<char> {
    "Process was killed"@
}

/// The text of the log line that records a failed wait.
pub open spec fn wait_failed_text(error: Seq<char>) -> Seq<char> {
    "Process wait error: "@ + error
}

/// The text of the log line that announces a restart.
pub open spec fn restarting_text(count: nat) -> Seq<char> {
    "Restarting (attempt "@ + decimal(count) + ")…"@
}

/// The state an end leads to: the exit code when the process exited by
/// itself, `Killed` when it was killed (on request or by a signal) or
/// waiting for it failed.
pub open spec fn exit_state(outcome: ExitOutcome) -> ProcessState {
    match outcome {
        ExitOutcome::Exited(code) => ProcessState::Exited(code),
        ExitOutcome::Killed => ProcessState::Killed,
        ExitOutcome::WaitFailed(_) => ProcessState::Killed,
    }
}

/// The text of the log line that records an exit.
pub open spec fn exit_text(outcome: ExitOutcome) -> Seq<char> {
    match outcome {
        ExitOutcome::Exited(code) => exited_text(code as int),
        ExitOutcome::Killed => killed_text(),
        ExitOutcome::WaitFailed(e) => wait_failed_text(e@),
    }
}

/// Whether an end leads to a restart: restarts are configured and waiting
/// for the process did not fail (a process that exited or was killed comes
/// back).
pub open spec fn restarts_after(outcome: ExitOutcome, restart_on_exit: bool) -> bool {
    restart_on_exit && !(outcome is WaitFailed)
}

/// The stderr line with text `text` captured at `at`.
pub open spec fn stderr_entry(at: int, text: Seq<char>) -> LogEntry {
    LogEntry { timestamp_millis: at, stream: "stderr"@, text }
}

impl ProcessRecord {
    /// The captured lines, oldest first.
    pub open spec fn log_entries(&self) -> Seq<LogEntry> {
        entries_of(self.logs@)
    }

    /// The record of a process not started yet: `Pending`, with health
    /// `Unknown` when a health URL is configured and `NotConfigured` otherwise,
    /// and a log buffer of `log_lines` lines.
    pub fn new(config: &AppConfig) -> (r: Self)
        ensures
            r.state == ProcessState::Pending,
            r.health == (if config.health_url is Some { HealthStatus::Unknown } else { HealthStatus::NotConfigured }),
            r.pid is None,
            r.started_at_millis is None,
            r.exit_time_millis is None,
            r.restart_count == 0,
            r.log_entries() == Seq::<LogEntry>::empty(),
            r.max_log_lines == config.log_lines,
    {
        let health = if config.health_url.is_some() { HealthStatus::Unknown } else { HealthStatus::NotConfigured };
        let r = ProcessRecord {
            state: ProcessState::Pending,
            health,
            pid: None,
            started_at_millis: None,
            exit_time_millis: None,
            restart_count: 0,
            logs: VecDeque::new(),
            max_log_lines: config.log_lines,
        };
        assert(r.log_entries() =~= Seq::<LogEntry>::empty());
        r
    }

    /// Appends a line captured at `at` from `stream`, then drops the oldest
    /// lines until at most `max_log_lines` remain.
    pub fn push_log_at(&mut self, stream: &str, text: String, at: i64)
        ensures
            final(self).log_entries() == pushed_logs(
                old(self).log_entries(),
                old(self).max_log_lines as nat,
                LogEntry { timestamp_millis: at as int, stream: stream@, text: text@ },
            ),
            final(self).state == old(self).state,
            final(self).health == old(self).health,
            final(self).pid == old(self).pid,
            final(self).started_at_millis == old(self).started_at_millis,
            final(self).exit_time_millis == old(self).exit_time_millis,
            final(self).restart_count == old(self).restart_count,
            final(self).max_log_lines == old(self).max_log_lines,
    {
        let ghost e = LogEntry { timestamp_millis: at as int, stream: stream@, text: text@ };
        let ghost all = self.log_entries().push(e);
        let line = LogLine { timestamp_millis: at, stream: String::from_str(stream), text };
        self.logs.push_back(line);
        assert(self.log_entries() =~= all.subrange(all.len() - self.logs@.len(), all.len() as int));
        while self.logs.len() > self.max_log_lines
            invariant
                self.logs@.len() <= all.len(),
                all.len() > self.max_log_lines ==> self.logs@.len() >= self.max_log_lines,
                all.len() <= self.max_log_lines ==> self.logs@.len() == all.len(),
                self.log_entries() == all.subrange(all.len() - self.logs@.len(), all.len() as int),
                self.state == old(self).state,
                self.health == old(self).health,
                self.pid == old(self).pid,
                self.started_at_millis == old(self).started_at_millis,
                self.exit_time_millis == old(self).exit_time_millis,
                self.restart_count == old(self).restart_count,
                self.max_log_lines == old(self).max_log_lines,
            decreases self.logs@.len(),
        {
            let ghost before = self.log_entries();
            let _ = self.logs.pop_front();
            assert(self.log_entries() =~= before.drop_first());
            assert(before.drop_first() =~= all.subrange(all.len() - self.logs@.len(), all.len() as int));
        }
        assert(all.subrange(0, all.len() as int) =~= all);
    }

    /// Appends a line captured now from `stream`, as `push_log_at` does.
    pub fn push_log(&mut self, stream: &str, text: String)
        ensures
            final(self).log_entries() == pushed_logs(
                old(self).log_entries(),
                old(self).max_log_lines as nat,
                LogEntry { timestamp_millis: final(self).log_entries().last().timestamp_millis, stream: stream@, text: text@ },
            ),
            final(self).state == old(self).state,
            final(self).health == old(self).health,
            final(self).pid == old(self).pid,
            final(self).started_at_millis == old(self).started_at_millis,
            final(self).exit_time_millis == old(self).exit_time_millis,
            final(self).restart_count == old(self).restart_count,
            final(self).max_log_lines == old(self).max_log_lines,
    {
        let at = now_millis();
        self.push_log_at(stream, text, at);
    }

    /// Empties the log buffer.
    pub fn clear_logs(&mut self)
        ensures
            final(self).log_entries() == Seq::<LogEntry>::empty(),
            final(self).state == old(self).state,
            final(self).health == old(self).health,
            final(self).pid == old(self).pid,
            final(self).started_at_millis == old(self).started_at_millis,
            final(self).exit_time_millis == old(self).exit_time_millis,
            final(self).restart_count == old(self).restart_count,
            final(self).max_log_lines == old(self).max_log_lines,
    {
        self.logs.clear();
        assert(self.log_entries() =~= Seq::<LogEntry>::empty());
    }

    /// A spawn failed at `at`: the process is `Failed` and the error is logged on stderr.
    pub fn record_spawn_failed(&mut self, error: &str, at: i64)
        ensures
            final(self).state == ProcessState::Failed,
            final(self).log_entries() == pushed_logs(old(self).log_entries(), old(self).max_log_lines as nat,
                stderr_entry(at as int, spawn_failed_text(error@))),
            final(self).health == old(self).health,
            final(self).pid == old(self).pid,
            final(self).started_at_millis == old(self).started_at_millis,
            final(self).exit_time_millis == old(self).exit_time_millis,
            final(self).restart_count == old(self).restart_count,
            final(self).max_log_lines == old(self).max_log_lines,
    {
        self.state = ProcessState::Failed;
        let mut text = String::from_str("Failed to spawn: ");
        text.append(error);
        self.push_log_at("stderr", text, at);
    }

    /// A `before` hook failed at `at`, so the app was not started: the
    /// process is `Failed` and the hook and what went wrong are logged on
    /// stderr.
    pub fn record_before_hook_failed(&mut self, command: &str, detail: &str, at: i64)
        ensures
            final(self).state == ProcessState::Failed,
            final(self).log_entries() == pushed_logs(old(self).log_entries(), old(self).max_log_lines as nat,
                stderr_entry(at as int, hook_failed_text(command@, detail@))),
            final(self).health == old(self).health,
            final(self).pid == old(self).pid,
            final(self).started_at_millis == old(self).started_at_millis,
            final(self).exit_time_millis == old(self).exit_time_millis,
            final(self).restart_count == old(self).restart_count,
            final(self).max_log_lines == old(self).max_log_lines,
    {
        self.state = ProcessState::Failed;
        let mut text = String::from_str("before hook ");
        text.append(command);
        text.append(" failed: ");
        text.append(detail);
        self.push_log_at("stderr", text, at);
    }

    /// The process started at `at` with `pid`: it is `Running` and has not exited since.
    pub fn record_started(&mut self, pid: Option<u32>, at: i64)
        ensures
            final(self).state == ProcessState::Running,
            final(self).pid == pid,
            final(self).started_at_millis == Some(at),
            final(self).exit_time_millis is None,
            final(self).log_entries() == old(self).log_entries(),
            final(self).health == old(self).health,
            final(self).restart_count == old(self).restart_count,
            final(self).max_log_lines == old(self).max_log_lines,
    {
        self.state = ProcessState::Running;
        self.pid = pid;
        self.started_at_millis = Some(at);
        self.exit_time_millis = None;
    }

    /// The process ended at `at`. Its state becomes its exit code when it
    /// exited by itself, and `Killed` when it was killed (on request or by a
    /// signal) or waiting for it failed; this is logged on stderr. When
    /// restarts are configured and waiting did not fail, the restart count
    /// goes up by one, the attempt is logged, and it is to be started again.
    pub fn record_exit(&mut self, outcome: &ExitOutcome, restart_on_exit: bool, at: i64) -> (next: NextStep)
        requires
            restarts_after(*outcome, restart_on_exit) ==> old(self).restart_count < u32::MAX,
        ensures
            final(self).state == exit_state(*outcome),
            final(self).pid is None,
            final(self).exit_time_millis == Some(at),
            final(self).started_at_millis == old(self).started_at_millis,
            final(self).health == old(self).health,
            final(self).max_log_lines == old(self).max_log_lines,
            next == (if restarts_after(*outcome, restart_on_exit) { NextStep::Restart } else { NextStep::Stop }),
            restarts_after(*outcome, restart_on_exit) ==> {
                &&& final(self).restart_count == old(self).restart_count + 1
                &&& final(self).log_entries() == pushed_logs(
                    pushed_logs(old(self).log_entries(), old(self).max_log_lines as nat, stderr_entry(at as int, exit_text(*outcome))),
                    old(self).max_log_lines as nat,
                    stderr_entry(at as int, restarting_text(final(self).restart_count as nat)))
            },
            !restarts_after(*outcome, restart_on_exit) ==> {
                &&& final(self).restart_count == old(self).restart_count
                &&& final(self).log_entries() == pushed_logs(old(self).log_entries(), old(self).max_log_lines as nat,
                    stderr_entry(at as int, exit_text(*outcome)))
            },
    {
        self.pid = None;
        self.exit_time_millis = Some(at);
        match outcome {
            ExitOutcome::Exited(code) => {
                let c: i32 = *code;
                self.state = ProcessState::Exited(c);
                let mut text = String::from_str("Process exited with code ");
                push_signed_decimal(&mut text, c as i64);
                self.push_log_at("stderr", text, at);
            },
            ExitOutcome::Killed => {
                self.state = ProcessState::Killed;
                self.push_log_at("stderr", String::from_str("Process was killed"), at);
            },
            ExitOutcome::WaitFailed(e) => {
                self.state = ProcessState::Killed;
                let mut text = String::from_str("Process wait error: ");
                text.append(e.as_str());
                self.push_log_at("stderr", text, at);
            },
        }
        let wait_failed = match outcome {
            ExitOutcome::WaitFailed(_) => true,
            _ => false,
        };
        if restart_on_exit && !wait_failed {
            self.restart_count = self.restart_count + 1;
            let mut text = String::from_str("Restarting (attempt ");
            push_decimal(&mut text, self.restart_count as u64);
            text.append(")…");
            self.push_log_at("stderr", text, at);
            NextStep::Restart
        } else {
            NextStep::Stop
        }
    }

    /// Whether a health check is due: only a running process is checked.
    pub fn should_check_health(&self) -> (b: bool)
        ensures
            b == (self.state == ProcessState::Running),
    {
        match self.state {
            ProcessState::Running => true,
            _ => false,
        }
    }

    /// Records a health check: `Healthy` when the probe got a success
    /// response, `Unhealthy` otherwise.
    pub fn record_health(&mut self, success: bool)
        ensures
            final(self).health == (if success { HealthStatus::Healthy } else { HealthStatus::Unhealthy }),
            final(self).state == old(self).state,
            final(self).pid == old(self).pid,
            final(self).started_at_millis == old(self).started_at_millis,
            final(self).exit_time_millis == old(self).exit_time_millis,
            final(self).restart_count == old(self).restart_count,
            final(self).log_entries() == old(self).log_entries(),
            final(self).max_log_lines == old(self).max_log_lines,
    {
        self.health = if success { HealthStatus::Healthy } else { HealthStatus::Unhealthy };
    }

    /// A snapshot of this record for the app `config` describes.
    pub fn status(&self, config: &AppConfig) -> (s: ProcessStatus)
        ensures
            s.name@ == config.name@,
            s.command@ == config.command@,
            s.args@.map_values(|a: String| a@) == config.args@.map_values(|a: String| a@),
            s.env@ == config.env@,
            s.state == self.state,
            s.health == self.health,
            s.pid == self.pid,
            s.started_at_millis == self.started_at_millis,
            s.exit_time_millis == self.exit_time_millis,
            s.restart_count == self.restart_count,
            entries_of(s.logs@) == self.log_entries(),
    {
        let mut args: Vec<String> = Vec::new();
        let mut i: usize = 0;
        while i < config.args.len()
            invariant
                i <= config.args.len(),
                args.len() == i,
                forall|q: int| 0 <= q < i ==> #[trigger] args@[q]@ == config.args@[q]@,
            decreases config.args.len() - i,
        {
            args.push(config.args[i].clone());
            i = i + 1;
        }
        assert(args@.map_values(|a: String| a@) =~= config.args@.map_values(|a: String| a@));
        let mut logs: Vec<LogLine> = Vec::new();
        let mut k: usize = 0;
        while k < self.logs.len()
            invariant
                k <= self.logs@.len(),
                logs.len() == k,
                forall|q: int| 0 <= q < k ==> #[trigger] logs@[q]@ == self.logs@[q]@,
            decreases self.logs@.len() - k,
        {
            logs.push(self.logs[k].clone());
            k = k + 1;
        }
        assert(entries_of(logs@) =~= self.log_entries());
        ProcessStatus {
            name: config.name.clone(),
            command: config.command.clone(),
            args,
            env: config.env.clone(),
            state: self.state,
            health: self.health,
            pid: self.pid,
            started_at_millis: self.started_at_millis,
            exit_time_millis: self.exit_time_millis,
            restart_count: self.restart_count,
            logs,
        }
    }
}

/// The buffer never holds more than `max` lines: after a push it holds the
/// newest `min(len + 1, max)` of its lines and the new one, the new line
/// last unless `max` is 0.
pub proof fn log_buffer_stays_bounded(logs: Seq<LogEntry>, max: nat, line: LogEntry)
    ensures
        pushed_logs(logs, max, line).len() == if logs.len() + 1 <= max { logs.len() + 1 } else { max },
        pushed_logs(logs, max, line).len() <= max,
        max > 0 ==> pushed_logs(logs, max, line).last() == line,
        pushed_logs(logs, max, line) == logs.push(line).subrange(
            logs.push(line).len() - pushed_logs(logs, max, line).len(), logs.push(line).len() as int),
{
    let p = pushed_logs(logs, max, line);
    let all = logs.push(line);
    assert(p =~= all.subrange(all.len() - p.len(), all.len() as int));
}

} // verus!
