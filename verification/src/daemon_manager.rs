//! Daemon mode: where the broker of a command keeps its files, how a client finds or
//! starts it, and how it is stopped.

use vstd::prelude::*;
use vstd::string::*;

use crate::broker_manager::{broker_args_view, broker_idles_out, BrokerArgsView, IdleWatch};
use crate::cli::{cli_view, texts, ModeView};
use crate::json::{field, json_parse, opt_view, parse, str_of, Json, JsonView, NumberView};
use crate::logging::{cmd_hash, command_hash};
use crate::mcp_manager::VERSION;
use crate::text::{
    chars_of, decimal, decimal_text, ends_with, join, join3, law_decimal_reads_back,
    parse_unsigned, part, text_eq, trim, trimmed, unsigned_value,
};
use crate::transport::field_text;

verus! {

/// The files of a broker.
#[derive(Debug)]
pub struct DaemonPaths {
    pub hash: String,
    pub socket: String,
    pub lock: String,
    pub pid: String,
    pub meta: String,
}

/// The value of `DaemonPaths`.
#[verifier::ext_equal]
pub struct PathsView {
    pub hash: Seq<char>,
    pub socket: Seq<char>,
    pub lock: Seq<char>,
    pub pid: Seq<char>,
    pub meta: Seq<char>,
}

impl View for DaemonPaths {
    type V = PathsView;

    open spec fn view(&self) -> PathsView {
        PathsView {
            hash: self.hash@,
            socket: self.socket@,
            lock: self.lock@,
            pid: self.pid@,
            meta: self.meta@,
        }
    }
}

/// A path below another one.
pub open spec fn below(dir: Seq<char>, name: Seq<char>) -> Seq<char> {
    if dir.len() == 0 || dir.last() == '/' {
        dir + name
    } else {
        dir + "/"@ + name
    }
}

/// A path below another one.
pub fn join_path(dir: &str, name: &str) -> (path: String)
    ensures
        path@ == below(dir@, name@),
{
    let chars = chars_of(dir);
    if chars.len() == 0 || chars[chars.len() - 1] == '/' {
        join(dir, name)
    } else {
        join3(dir, "/", name)
    }
}

/// The directory for the files of brokers.
pub open spec fn base_dir(runtime_dir: Option<Seq<char>>) -> Seq<char> {
    match runtime_dir {
        Some(dir) => below(dir, "mcp-wrapper"@),
        None => "/tmp/mcp-wrapper"@,
    }
}

/// The directory for the files of brokers: under the runtime directory, if there is
/// one, else under `/tmp`.
pub fn daemon_dir(runtime_dir: Option<&str>) -> (dir: String)
    ensures
        dir@ == base_dir(
            match runtime_dir {
                Some(dir) => Some(dir@),
                None => None,
            },
        ),
{
    match runtime_dir {
        Some(dir) => join_path(dir, "mcp-wrapper"),
        None => "/tmp/mcp-wrapper".to_owned(),
    }
}

/// The files of the broker with an identity.
pub open spec fn paths_view(dir: Seq<char>, hash: Seq<char>) -> PathsView {
    PathsView {
        hash,
        socket: below(dir, hash + ".sock"@),
        lock: below(dir, hash + ".lock"@),
        pid: below(dir, hash + ".pid"@),
        meta: below(dir, hash + ".meta.json"@),
    }
}

/// The files of the broker with an identity.
pub fn paths_for_hash(dir: &str, hash: &str) -> (paths: DaemonPaths)
    ensures
        paths@ == paths_view(dir@, hash@),
{
    let socket = join(hash, ".sock");
    let lock = join(hash, ".lock");
    let pid = join(hash, ".pid");
    let meta = join(hash, ".meta.json");
    DaemonPaths {
        hash: hash.to_owned(),
        socket: join_path(dir, socket.as_str()),
        lock: join_path(dir, lock.as_str()),
        pid: join_path(dir, pid.as_str()),
        meta: join_path(dir, meta.as_str()),
    }
}

/// The files of the broker of a command.
pub fn daemon_paths(dir: &str, cmd: &str, args: &[String]) -> (paths: DaemonPaths)
    ensures
        paths@ == paths_view(dir@, command_hash(cmd@, texts(args@))),
{
    let hash = cmd_hash(cmd, args);
    paths_for_hash(dir, hash.as_str())
}

/// The process id that the content of a pid file gives.
pub fn pid_of(content: &str) -> (pid: Option<u32>)
    ensures
        match pid {
            Some(pid) => unsigned_value(trimmed(content@), u32::MAX as nat) == Some(pid as nat),
            None => unsigned_value(trimmed(content@), u32::MAX as nat) is None,
        },
{
    let text = trim(content);
    match parse_unsigned(text.as_str(), u32::MAX as u64) {
        Some(n) => Some(n as u32),
        None => None,
    }
}

/// Whether a line that a client wrote goes to the broker: blank ones do not.
pub fn is_relayed(line: &str) -> (b: bool)
    ensures
        b == (trimmed(line@).len() > 0),
{
    let text = trim(line);
    !text.as_str().is_empty()
}

// ── Starting a broker ───────────────────────────────────────────────

/// The command line that starts the broker of a command.
pub open spec fn broker_command(
    cmd: Seq<char>,
    args: Seq<Seq<char>>,
    init_timeout_secs: nat,
) -> Seq<Seq<char>> {
    seq![
        "--broker-internal"@,
        "--init-timeout"@,
        decimal(init_timeout_secs),
        "--no-idle-timeout"@,
        cmd,
    ] + args
}

/// Builds the command line that starts the broker of a command.
pub fn build_broker_args(cmd: &str, args: &[String], init_timeout_secs: u64) -> (line: Vec<String>)
    ensures
        texts(line@) == broker_command(cmd@, texts(args@), init_timeout_secs as nat),
{
    let mut line: Vec<String> = Vec::new();
    line.push("--broker-internal".to_owned());
    line.push("--init-timeout".to_owned());
    line.push(decimal_text(init_timeout_secs));
    line.push("--no-idle-timeout".to_owned());
    line.push(cmd.to_owned());
    let ghost front = broker_command(cmd@, Seq::empty(), init_timeout_secs as nat);
    assert(texts(line@) =~= front);
    let mut i: usize = 0;
    assert(front + texts(args@).take(0) =~= front);
    while i < args.len()
        invariant
            i <= args@.len(),
            texts(line@) == front + texts(args@).take(i as int),
        decreases args@.len() - i,
    {
        let ghost before = line@;
        line.push(args[i].clone());
        assert(texts(line@) =~= texts(before).push(texts(args@)[i as int]));
        i = i + 1;
        assert(texts(line@) =~= front + texts(args@).take(i as int));
    }
    assert(texts(args@).take(i as int) =~= texts(args@));
    assert(texts(line@) =~= broker_command(cmd@, texts(args@), init_timeout_secs as nat));
    line
}

/// A broker that is started for a command serves that command, with that time limit
/// (of a second at least), and keeps running when it is idle.
pub proof fn law_broker_command_is_read_back(
    program: Seq<char>,
    cmd: Seq<char>,
    args: Seq<Seq<char>>,
    init_timeout_secs: u64,
)
    ensures
        cli_view(seq![program] + broker_command(cmd, args, init_timeout_secs as nat)) matches Ok(
            ModeView::BrokerInternal(rest),
        ) && broker_args_view(rest) == Some(
            BrokerArgsView {
                init_timeout_secs: if init_timeout_secs >= 1 {
                    init_timeout_secs
                } else {
                    1
                },
                no_idle_timeout: true,
                cmd,
                args,
            },
        ),
{
    let line = seq![program] + broker_command(cmd, args, init_timeout_secs as nat);
    let rest = line.subrange(2, line.len() as int);
    reveal_strlit("--broker-internal");
    reveal_strlit("--version");
    reveal_strlit("-V");
    reveal_strlit("--help");
    reveal_strlit("-h");
    assert(line[1] == "--broker-internal"@);
    assert("--broker-internal"@.len() == 17);
    assert("--version"@.len() == 9 && "-V"@.len() == 2);
    assert("--help"@.len() == 6 && "-h"@.len() == 2);
    law_decimal_reads_back(init_timeout_secs as nat, u64::MAX as nat);
    assert(rest[0] == "--init-timeout"@);
    assert(rest[1] == decimal(init_timeout_secs as nat));
    let tail = rest.subrange(2, rest.len() as int);
    assert(tail[0] == "--no-idle-timeout"@);
    assert(tail.contains("--no-idle-timeout"@));
    assert(rest[3] == cmd);
    assert(rest.subrange(4, rest.len() as int) =~= args);
}

/// A broker that is started for a command never exits for being idle, however long it
/// has had no session.
pub proof fn law_started_broker_never_idles_out(
    program: Seq<char>,
    cmd: Seq<char>,
    args: Seq<Seq<char>>,
    init_timeout_secs: u64,
    watch: IdleWatch,
    now: u64,
    any_session: bool,
    ever_had_session: bool,
)
    ensures
        cli_view(seq![program] + broker_command(cmd, args, init_timeout_secs as nat)) matches Ok(
            ModeView::BrokerInternal(rest),
        ) && broker_args_view(rest) matches Some(parsed) && !broker_idles_out(
            watch,
            parsed.no_idle_timeout,
            now,
            any_session,
            ever_had_session,
        ),
{
    law_broker_command_is_read_back(program, cmd, args, init_timeout_secs);
}

// ── Finding or starting a broker ────────────────────────────────────

/// Milliseconds between two looks at a broker that is coming up.
pub const POLL_MILLIS: u64 = 50;

/// Milliseconds between two attempts after another client has started the broker.
pub const RETRY_MILLIS: u64 = 100;

/// Attempts after another client has started the broker.
pub const RETRIES: u32 = 20;

/// Seconds that a broker has to come up, besides those that its backend has for its
/// handshake.
pub const READY_GRACE_SECS: u64 = 5;

/// Milliseconds that an unreachable broker has to go away.
pub const STALE_WAIT_MILLIS: u64 = 500;

/// How far the search for a broker has come.
#[derive(Debug, Clone, Copy, PartialEq, Eq, Structural)]
pub enum ConnectPhase {
    /// The socket is tried for the first time.
    First,
    /// The lock is being taken.
    Locking,
    /// With the lock, the socket is tried again.
    Recheck,
    /// With the lock, the pid file is read.
    Stale,
    /// A broker is being started.
    Spawning,
    /// The new broker is coming up.
    Polling,
    /// Another client has the lock.
    Waiting,
    /// The broker of another client is tried.
    Retrying { left: u32 },
    /// The search is over.
    Over,
}

/// What came of a step.
#[derive(Debug)]
pub enum ConnectEvent {
    /// The socket was reached.
    Connected,
    /// The socket was not reached.
    Refused,
    /// The lock was free and is held now.
    LockTaken,
    /// Another client has the lock.
    LockBusy,
    /// The live process that the pid file names, if any.
    Pid(Option<u32>),
    /// The step is done.
    Done,
    /// The time is up.
    DeadlinePassed,
    /// The step failed.
    Failed(String),
}

/// What to do next.
#[derive(Debug)]
pub enum ConnectStep {
    /// Try the socket.
    Connect,
    /// Make the directory and try to take the lock.
    TryLock,
    /// Read the pid file and see whether the process lives.
    ReadPid,
    /// End that process, if any, remove the pid file and the socket, and start a
    /// broker.
    Spawn { kill: Option<u32> },
    /// Wait a moment; try the socket unless the time is up.
    Poll,
    /// Wait for the lock.
    WaitLock,
    /// Wait a moment and try the socket.
    Retry,
    /// Use the connection.
    Use,
    /// Give up.
    Fail(String),
}

/// The value of a `ConnectStep`.
#[verifier::ext_equal]
pub enum StepOf {
    Connect,
    TryLock,
    ReadPid,
    Spawn { kill: Option<u32> },
    Poll,
    WaitLock,
    Retry,
    Use,
    Fail(Seq<char>),
}

impl View for ConnectStep {
    type V = StepOf;

    open spec fn view(&self) -> StepOf {
        match self {
            ConnectStep::Connect => StepOf::Connect,
            ConnectStep::TryLock => StepOf::TryLock,
            ConnectStep::ReadPid => StepOf::ReadPid,
            ConnectStep::Spawn { kill } => StepOf::Spawn { kill: *kill },
            ConnectStep::Poll => StepOf::Poll,
            ConnectStep::WaitLock => StepOf::WaitLock,
            ConnectStep::Retry => StepOf::Retry,
            ConnectStep::Use => StepOf::Use,
            ConnectStep::Fail(why) => StepOf::Fail(why@),
        }
    }
}

/// How the search goes on. The socket is tried first; who gets the lock tries it once
/// more and then starts a broker, and waits until it answers; everybody else waits
/// for the lock and then tries a number of times. Events that do not belong to a
/// phase end the search.
pub open spec fn connect_next(phase: ConnectPhase, event: ConnectEvent) -> (ConnectPhase, StepOf) {
    match (phase, event) {
        (ConnectPhase::Over, _) => (
            ConnectPhase::Over,
            StepOf::Fail("broker search is over"@),
        ),
        (_, ConnectEvent::Connected) => (ConnectPhase::Over, StepOf::Use),
        (_, ConnectEvent::Failed(why)) => (ConnectPhase::Over, StepOf::Fail(why@)),
        (ConnectPhase::First, _) => (ConnectPhase::Locking, StepOf::TryLock),
        (ConnectPhase::Locking, ConnectEvent::LockTaken) => (
            ConnectPhase::Recheck,
            StepOf::Connect,
        ),
        (ConnectPhase::Locking, _) => (ConnectPhase::Waiting, StepOf::WaitLock),
        (ConnectPhase::Recheck, _) => (ConnectPhase::Stale, StepOf::ReadPid),
        (ConnectPhase::Stale, ConnectEvent::Pid(pid)) => (
            ConnectPhase::Spawning,
            StepOf::Spawn { kill: pid },
        ),
        (ConnectPhase::Stale, _) => (ConnectPhase::Spawning, StepOf::Spawn { kill: None }),
        (ConnectPhase::Spawning, _) => (ConnectPhase::Polling, StepOf::Poll),
        (ConnectPhase::Polling, ConnectEvent::DeadlinePassed) => (
            ConnectPhase::Over,
            StepOf::Fail("broker did not become ready in time"@),
        ),
        (ConnectPhase::Polling, _) => (ConnectPhase::Polling, StepOf::Poll),
        (ConnectPhase::Waiting, _) => (
            ConnectPhase::Retrying { left: (RETRIES - 1) as u32 },
            StepOf::Connect,
        ),
        (ConnectPhase::Retrying { left }, _) => if left == 0 {
            (ConnectPhase::Over, StepOf::Fail("broker not reachable after lock wait"@))
        } else {
            (ConnectPhase::Retrying { left: (left - 1) as u32 }, StepOf::Retry)
        },
    }
}

/// The search for the broker of a command. It begins by trying the socket.
#[derive(Debug)]
pub struct BrokerSearch {
    pub phase: ConnectPhase,
}

impl BrokerSearch {
    pub fn new() -> (s: BrokerSearch)
        ensures
            s.phase == ConnectPhase::First,
    {
        BrokerSearch { phase: ConnectPhase::First }
    }

    /// Goes on, given what came of the last step.
    pub fn next(&mut self, event: ConnectEvent) -> (step: ConnectStep)
        ensures
            (final(self).phase, step@) == connect_next(old(self).phase, event),
    {
        let (phase, step) = match (self.phase, event) {
            (ConnectPhase::Over, _) => (
                ConnectPhase::Over,
                ConnectStep::Fail("broker search is over".to_owned()),
            ),
            (_, ConnectEvent::Connected) => (ConnectPhase::Over, ConnectStep::Use),
            (_, ConnectEvent::Failed(why)) => (ConnectPhase::Over, ConnectStep::Fail(why)),
            (ConnectPhase::First, _) => (ConnectPhase::Locking, ConnectStep::TryLock),
            (ConnectPhase::Locking, ConnectEvent::LockTaken) => (
                ConnectPhase::Recheck,
                ConnectStep::Connect,
            ),
            (ConnectPhase::Locking, _) => (ConnectPhase::Waiting, ConnectStep::WaitLock),
            (ConnectPhase::Recheck, _) => (ConnectPhase::Stale, ConnectStep::ReadPid),
            (ConnectPhase::Stale, ConnectEvent::Pid(pid)) => (
                ConnectPhase::Spawning,
                ConnectStep::Spawn { kill: pid },
            ),
            (ConnectPhase::Stale, _) => (
                ConnectPhase::Spawning,
                ConnectStep::Spawn { kill: None },
            ),
            (ConnectPhase::Spawning, _) => (ConnectPhase::Polling, ConnectStep::Poll),
            (ConnectPhase::Polling, ConnectEvent::DeadlinePassed) => (
                ConnectPhase::Over,
                ConnectStep::Fail("broker did not become ready in time".to_owned()),
            ),
            (ConnectPhase::Polling, _) => (ConnectPhase::Polling, ConnectStep::Poll),
            (ConnectPhase::Waiting, _) => (
                ConnectPhase::Retrying { left: RETRIES - 1 },
                ConnectStep::Connect,
            ),
            (ConnectPhase::Retrying { left }, _) => if left == 0 {
                (
                    ConnectPhase::Over,
                    ConnectStep::Fail("broker not reachable after lock wait".to_owned()),
                )
            } else {
                (ConnectPhase::Retrying { left: left - 1 }, ConnectStep::Retry)
            },
        };
        self.phase = phase;
        step
    }
}

/// Only a client that has the lock starts a broker.
pub proof fn law_only_lock_holder_spawns(phase: ConnectPhase, event: ConnectEvent)
    ensures
        connect_next(phase, event).1 is Spawn ==> phase == ConnectPhase::Stale,
        connect_next(phase, event).0 == ConnectPhase::Stale ==> phase == ConnectPhase::Recheck,
        connect_next(phase, event).0 == ConnectPhase::Recheck ==> phase == ConnectPhase::Locking
            && event is LockTaken,
{
}

/// How the phase of a search is left after a number of refused attempts.
pub open spec fn after_refusals(phase: ConnectPhase, n: nat) -> ConnectPhase
    decreases n,
{
    if n == 0 {
        phase
    } else {
        connect_next(after_refusals(phase, (n - 1) as nat), ConnectEvent::Refused).0
    }
}

/// After the wait for the lock the socket is tried as often as is set down, and the
/// search ends if none of the attempts succeeds.
pub proof fn law_search_ends_after_retries(left: u32, n: nat)
    requires
        n <= left + 1,
    ensures
        after_refusals(ConnectPhase::Retrying { left }, n) == if n <= left {
            ConnectPhase::Retrying { left: (left - n) as u32 }
        } else {
            ConnectPhase::Over
        },
    decreases n,
{
    if n > 0 {
        law_search_ends_after_retries(left, (n - 1) as nat);
    }
}

// ── The state of a broker ───────────────────────────────────────────

/// What is known of a broker.
#[derive(Debug)]
pub struct BrokerStatus {
    pub hash: String,
    pub running: bool,
    pub pid: Option<u32>,
    pub socket_exists: bool,
    pub lock_exists: bool,
    pub socket: String,
    pub lock: String,
    pub pid_path: String,
    pub meta_path: String,
    pub meta: Option<Json>,
    pub meta_matches_current_exe: bool,
}

/// What is seen of a broker from outside.
#[derive(Debug)]
pub struct BrokerFacts {
    /// The live process that its pid file names.
    pub pid: Option<u32>,
    pub socket_exists: bool,
    pub lock_exists: bool,
    /// The content of its metadata file.
    pub meta_text: Option<String>,
    /// The program that is running here.
    pub current_exe: Option<String>,
}

/// The metadata that a text holds.
pub open spec fn meta_view(text: Option<String>) -> Option<JsonView> {
    match text {
        Some(text) => json_parse(text@),
        None => None,
    }
}

/// Whether a broker was started from a program.
pub open spec fn started_from(meta: Option<JsonView>, exe: Option<String>) -> bool {
    match (meta, exe) {
        (Some(meta), Some(exe)) => str_of(field(meta, "exe"@)) == Some(exe@),
        _ => false,
    }
}

/// Whether a broker was started from a program, by its metadata.
pub fn matches_exe(meta: &Option<Json>, exe: &Option<String>) -> (b: bool)
    ensures
        b == started_from(opt_view(*meta), *exe),
{
    match (meta, exe) {
        (Some(meta), Some(exe)) => match field_text(meta.get("exe")) {
            Some(text) => text_eq(text, exe.as_str()),
            None => false,
        },
        _ => false,
    }
}

/// The state of a broker: it runs where its process lives and its socket is there.
pub fn broker_status(paths: &DaemonPaths, facts: BrokerFacts) -> (status: BrokerStatus)
    ensures
        status.hash@ == paths@.hash,
        status.running == (facts.pid is Some && facts.socket_exists),
        status.pid == facts.pid,
        status.socket_exists == facts.socket_exists,
        status.lock_exists == facts.lock_exists,
        status.socket@ == paths@.socket,
        status.lock@ == paths@.lock,
        status.pid_path@ == paths@.pid,
        status.meta_path@ == paths@.meta,
        opt_view(status.meta) == meta_view(facts.meta_text),
        status.meta_matches_current_exe == started_from(
            meta_view(facts.meta_text),
            facts.current_exe,
        ),
{
    let meta = match &facts.meta_text {
        Some(text) => parse(text.as_str()),
        None => None,
    };
    let meta_matches_current_exe = matches_exe(&meta, &facts.current_exe);
    BrokerStatus {
        hash: paths.hash.clone(),
        running: facts.pid.is_some() && facts.socket_exists,
        pid: facts.pid,
        socket_exists: facts.socket_exists,
        lock_exists: facts.lock_exists,
        socket: paths.socket.clone(),
        lock: paths.lock.clone(),
        pid_path: paths.pid.clone(),
        meta_path: paths.meta.clone(),
        meta,
        meta_matches_current_exe,
    }
}

/// The metadata of a broker.
pub open spec fn broker_meta_view(hash: Seq<char>, pid: u32, exe: Seq<char>) -> JsonView {
    JsonView::Obj(
        Map::empty().insert("hash"@, JsonView::Str(hash)).insert(
            "pid"@,
            JsonView::Num(NumberView::Int(pid as int)),
        ).insert("exe"@, JsonView::Str(exe)).insert("version"@, JsonView::Str(VERSION@)),
    )
}

/// Builds the metadata of a broker.
pub fn broker_meta(hash: &str, pid: u32, exe: &str) -> (j: Json)
    ensures
        j@ == broker_meta_view(hash@, pid, exe@),
{
    let mut j = Json::object();
    j.set("hash", Json::text(hash));
    j.set("pid", Json::UInt(pid as u64));
    j.set("exe", Json::text(exe));
    j.set("version", Json::text(VERSION));
    j
}

/// A broker is recognised as started from the program that its metadata was written
/// for.
pub proof fn law_meta_matches_its_program(hash: Seq<char>, pid: u32, exe: String)
    ensures
        started_from(Some(broker_meta_view(hash, pid, exe@)), Some(exe)),
{
    reveal_strlit("exe");
    reveal_strlit("version");
    assert("exe"@.len() == 3);
    assert("version"@.len() == 7);
}

/// The identity of the broker that a file belongs to.
pub open spec fn hash_of_file(name: Seq<char>) -> Option<Seq<char>> {
    if ".sock"@.is_suffix_of(name) && name.len() > 5 {
        Some(name.subrange(0, name.len() - 5))
    } else if ".pid"@.is_suffix_of(name) && name.len() > 4 {
        Some(name.subrange(0, name.len() - 4))
    } else {
        None
    }
}

/// The identity of the broker that a file belongs to.
pub fn broker_of_file(name: &str) -> (hash: Option<String>)
    ensures
        match hash {
            Some(hash) => hash_of_file(name@) == Some(hash@),
            None => hash_of_file(name@) is None,
        },
{
    let chars = chars_of(name);
    if ends_with(name, ".sock") && chars.len() > 5 {
        Some(part(&chars, 0, chars.len() - 5))
    } else if ends_with(name, ".pid") && chars.len() > 4 {
        Some(part(&chars, 0, chars.len() - 4))
    } else {
        None
    }
}

/// The identities of the brokers that the files of a directory belong to, each once,
/// in the order in which they first appear.
pub open spec fn hashes_of_files(names: Seq<Seq<char>>) -> Seq<Seq<char>>
    decreases names.len(),
{
    if names.len() == 0 {
        Seq::empty()
    } else {
        let before = hashes_of_files(names.drop_last());
        match hash_of_file(names.last()) {
            Some(hash) => if before.contains(hash) {
                before
            } else {
                before.push(hash)
            },
            None => before,
        }
    }
}

fn contains_text(all: &Vec<String>, s: &str) -> (b: bool)
    ensures
        b == texts(all@).contains(s@),
{
    let mut i: usize = 0;
    while i < all.len()
        invariant
            i <= all@.len(),
            forall|k: int| 0 <= k < i ==> texts(all@)[k] != s@,
        decreases all@.len() - i,
    {
        assert(texts(all@)[i as int] == all@[i as int]@);
        if text_eq(all[i].as_str(), s) {
            return true;
        }
        i = i + 1;
    }
    false
}

/// The identities of the brokers that the files of a directory belong to.
pub fn list_brokers(names: &Vec<String>) -> (hashes: Vec<String>)
    ensures
        texts(hashes@) == hashes_of_files(texts(names@)),
{
    let mut hashes: Vec<String> = Vec::new();
    let ghost all = texts(names@);
    let mut i: usize = 0;
    assert(all.take(0) =~= Seq::empty());
    assert(texts(hashes@) =~= Seq::empty());
    while i < names.len()
        invariant
            i <= names@.len(),
            all == texts(names@),
            texts(hashes@) == hashes_of_files(all.take(i as int)),
        decreases names@.len() - i,
    {
        proof {
            assert(all.take(i + 1).drop_last() =~= all.take(i as int));
            assert(all.take(i + 1).last() == names@[i as int]@);
        }
        if let Some(hash) = broker_of_file(names[i].as_str()) {
            if !contains_text(&hashes, hash.as_str()) {
                let ghost before = hashes@;
                hashes.push(hash);
                assert(texts(hashes@) =~= texts(before).push(hash@));
            }
        }
        i = i + 1;
    }
    assert(all.take(i as int) =~= all);
    hashes
}

/// The brokers that are listed are distinct, none is without a name, and every one
/// that has a file is among them.
pub proof fn law_brokers_are_listed_once(names: Seq<Seq<char>>)
    ensures
        hashes_of_files(names).no_duplicates(),
        forall|k: int|
            0 <= k < hashes_of_files(names).len() ==> (#[trigger] hashes_of_files(names)[k]).len()
                > 0,
        forall|k: int|
            0 <= k < names.len() && hash_of_file(#[trigger] names[k]) is Some
                ==> hashes_of_files(names).contains(hash_of_file(names[k])->0),
    decreases names.len(),
{
    if names.len() > 0 {
        let front = names.drop_last();
        law_brokers_are_listed_once(front);
        let before = hashes_of_files(front);
        let now = hashes_of_files(names);
        assert forall|k: int|
            0 <= k < names.len() && hash_of_file(
                #[trigger] names[k],
            ) is Some implies now.contains(hash_of_file(names[k])->0) by {
            let hash = hash_of_file(names[k])->0;
            if k < front.len() {
                assert(front[k] == names[k]);
                assert(before.contains(hash));
                let j = choose|j: int| 0 <= j < before.len() && before[j] == hash;
                assert(now[j] == hash);
            } else if !before.contains(hash) {
                assert(now[now.len() - 1] == hash);
            }
        }
        assert forall|i: int, j: int| 0 <= i < j < now.len() implies now[i] != now[j] by {
            if j == before.len() {
                assert(before.contains(before[i]));
            }
        }
    }
}

/// The files of a broker belong to it.
pub proof fn law_broker_files_lead_back(hash: Seq<char>)
    requires
        hash.len() > 0,
    ensures
        hash_of_file(hash + ".sock"@) == Some(hash),
        hash_of_file(hash + ".pid"@) == Some(hash),
{
    reveal_strlit(".sock");
    reveal_strlit(".pid");
    let socket = hash + ".sock"@;
    let pid = hash + ".pid"@;
    assert(".sock"@.len() == 5 && ".pid"@.len() == 4);
    assert(socket.subrange(socket.len() - 5, socket.len() as int) =~= ".sock"@);
    assert(socket.subrange(0, socket.len() - 5) =~= hash);
    assert(pid.subrange(pid.len() - 4, pid.len() as int) =~= ".pid"@);
    assert(pid.subrange(0, pid.len() - 4) =~= hash);
    assert(pid.last() == 'd');
    assert(".sock"@.is_suffix_of(pid) ==> pid.subrange(pid.len() - 5, pid.len() as int)[4]
        == ".sock"@[4]);
}

// ── Ending a process ───────────────────────────────────────────────

/// Milliseconds between two looks at a process that is going away.
pub const STOP_POLL_MILLIS: u64 = 100;

/// Looks at a process that is going away before it is killed.
pub const STOP_POLLS: u32 = 50;

/// What to do next with a process that is to go away.
#[derive(Debug, Clone, Copy, PartialEq, Eq, Structural)]
pub enum StopStep {
    /// Ask it to end.
    Terminate { pid: u32 },
    /// Wait a moment and look whether it lives.
    Wait,
    /// Kill it.
    Kill { pid: u32 },
    /// It is gone: remove what it left.
    Clean,
}

/// A process that is to go away.
#[derive(Debug, Clone, Copy)]
pub struct Termination {
    pub pid: u32,
    pub looks: u32,
}

/// How the end of a process begins: without a live process only what it left goes.
pub fn begin_stop(pid: Option<u32>) -> (r: (StopStep, Option<Termination>))
    ensures
        r == match pid {
            Some(pid) => (StopStep::Terminate { pid }, Some(Termination { pid, looks: 0 })),
            None => (StopStep::Clean, None),
        },
{
    match pid {
        Some(pid) => (StopStep::Terminate { pid }, Some(Termination { pid, looks: 0 })),
        None => (StopStep::Clean, None),
    }
}

impl Termination {
    /// Goes on, given whether it still lives: it is killed when it has been looked at
    /// often enough.
    pub fn next(&mut self, alive: bool) -> (step: StopStep)
        requires
            old(self).looks <= STOP_POLLS,
        ensures
            final(self).pid == old(self).pid,
            final(self).looks <= STOP_POLLS,
            step == if !alive {
                StopStep::Clean
            } else if old(self).looks < STOP_POLLS {
                StopStep::Wait
            } else {
                StopStep::Kill { pid: old(self).pid }
            },
            final(self).looks == if alive && old(self).looks < STOP_POLLS {
                old(self).looks + 1
            } else {
                old(self).looks as int
            },
    {
        if !alive {
            StopStep::Clean
        } else if self.looks < STOP_POLLS {
            self.looks = self.looks + 1;
            StopStep::Wait
        } else {
            StopStep::Kill { pid: self.pid }
        }
    }
}

// ── What the files and the steps are for ────────────────────────────

/// A path below a directory begins with the directory and ends with the name, with one
/// separator between them.
pub proof fn law_path_below_a_directory(dir: &str, name: &str, path: String)
    requires
        call_ensures(join_path, (dir, name), path),
    ensures
        dir@.is_prefix_of(path@),
        name@.is_suffix_of(path@),
        dir@.len() > 0 && dir@.last() == '/' ==> path@ == dir@ + name@,
        dir@.len() > 0 && dir@.last() != '/' ==> path@ == dir@.push('/') + name@,
        dir@.len() == 0 ==> path@ == name@,
{
    reveal_strlit("/");
    assert("/"@ =~= seq!['/']);
    let d = dir@;
    let n = name@;
    assert(path@.subrange(0, d.len() as int) =~= d);
    assert(path@.subrange(path@.len() - n.len(), path@.len() as int) =~= n);
    if d.len() > 0 && d.last() != '/' {
        assert(path@ =~= d.push('/') + n);
    }
    if d.len() == 0 {
        assert(path@ =~= n);
    }
}

/// The files of brokers stand in a directory of their own, under the runtime directory
/// or else under `/tmp`.
pub proof fn law_directory_of_brokers(runtime: &str, under: String, without: String)
    requires
        call_ensures(daemon_dir, (Some(runtime),), under),
        call_ensures(daemon_dir, (None,), without),
    ensures
        runtime@.len() > 0 && runtime@.last() != '/' ==> under@ == runtime@ + "/"@
            + "mcp-wrapper"@,
        runtime@.is_prefix_of(under@),
        "mcp-wrapper"@.is_suffix_of(under@),
        without@ == "/tmp"@ + "/"@ + "mcp-wrapper"@,
{
    reveal_strlit("/tmp");
    reveal_strlit("/");
    reveal_strlit("mcp-wrapper");
    reveal_strlit("/tmp/mcp-wrapper");
    assert("/tmp"@.len() == 4);
    assert("/"@.len() == 1);
    assert("mcp-wrapper"@.len() == 11);
    assert("/tmp/mcp-wrapper"@.len() == 16);
    assert("/tmp"@ + "/"@ + "mcp-wrapper"@ =~= "/tmp/mcp-wrapper"@);
    let d = runtime@;
    let n = "mcp-wrapper"@;
    assert(under@.subrange(0, d.len() as int) =~= d);
    assert(under@.subrange(under@.len() - n.len(), under@.len() as int) =~= n);
}

/// The files of a broker are named by its identity, each with an ending of its own; they
/// are different files, and brokers with different identities have different files.
pub proof fn law_files_of_brokers(dir: &str, hash: &str, paths: DaemonPaths, other: &str, others: DaemonPaths)
    requires
        call_ensures(paths_for_hash, (dir, hash), paths),
        call_ensures(paths_for_hash, (dir, other), others),
    ensures
        paths.hash@ == hash@,
        dir@.is_prefix_of(paths.socket@) && (hash@ + ".sock"@).is_suffix_of(paths.socket@),
        dir@.is_prefix_of(paths.lock@) && (hash@ + ".lock"@).is_suffix_of(paths.lock@),
        dir@.is_prefix_of(paths.pid@) && (hash@ + ".pid"@).is_suffix_of(paths.pid@),
        dir@.is_prefix_of(paths.meta@) && (hash@ + ".meta.json"@).is_suffix_of(paths.meta@),
        paths.socket@ != paths.lock@,
        paths.socket@ != paths.pid@,
        paths.socket@ != paths.meta@,
        paths.lock@ != paths.pid@,
        paths.lock@ != paths.meta@,
        paths.pid@ != paths.meta@,
        hash@ != other@ && hash@.len() == other@.len() ==> paths.socket@ != others.socket@
            && paths.lock@ != others.lock@ && paths.pid@ != others.pid@ && paths.meta@
            != others.meta@,
{
    reveal_strlit(".sock");
    reveal_strlit(".lock");
    reveal_strlit(".pid");
    reveal_strlit(".meta.json");
    reveal_strlit("/");
    assert(".sock"@.len() == 5);
    assert(".lock"@.len() == 5);
    assert(".pid"@.len() == 4);
    assert(".meta.json"@.len() == 10);
    assert("/"@.len() == 1);
    assert(".sock"@[1] != ".lock"@[1]);
    lemma_below(dir@, hash@, ".sock"@);
    lemma_below(dir@, hash@, ".lock"@);
    lemma_below(dir@, hash@, ".pid"@);
    lemma_below(dir@, hash@, ".meta.json"@);
    lemma_below(dir@, other@, ".sock"@);
    lemma_below(dir@, other@, ".lock"@);
    lemma_below(dir@, other@, ".pid"@);
    lemma_below(dir@, other@, ".meta.json"@);
    assert(".sock"@[1] != ".lock"@[1]);
    let s = paths.socket@;
    let l = paths.lock@;
    assert(s[s.len() - 4] == ".sock"@[1]);
    assert(l[l.len() - 4] == ".lock"@[1]);
}

/// A path to a file with an ending: where its parts stand in it.
proof fn lemma_below(dir: Seq<char>, hash: Seq<char>, ending: Seq<char>)
    ensures
        ({
            let path = below(dir, hash + ending);
            let at = path.len() - hash.len() - ending.len();
            &&& dir.is_prefix_of(path)
            &&& (hash + ending).is_suffix_of(path)
            &&& at == dir.len() + if dir.len() == 0 || dir.last() == '/' {
                0int
            } else {
                1int
            }
            &&& path.subrange(at, at + hash.len()) == hash
            &&& forall|k: int|
                0 <= k < ending.len() ==> #[trigger] path[path.len() - ending.len() + k]
                    == ending[k]
            &&& forall|k: int| 0 <= k < ending.len() ==> path[at + hash.len() + k] == #[trigger] ending[k]
        }),
{
    reveal_strlit("/");
    let path = below(dir, hash + ending);
    let at = path.len() - hash.len() - ending.len();
    assert(path.subrange(0, dir.len() as int) =~= dir);
    assert(path.subrange(at, path.len() as int) =~= hash + ending);
    assert(path.subrange(at, at + hash.len()) =~= hash);
}

/// The broker of a command has the files of its identity.
pub proof fn law_files_of_a_command(
    dir: &str,
    cmd: &str,
    args: &[String],
    paths: DaemonPaths,
    hash: String,
    identity: &str,
    by_hash: DaemonPaths,
)
    requires
        call_ensures(daemon_paths, (dir, cmd, args), paths),
        call_ensures(cmd_hash, (cmd, args), hash),
        call_ensures(paths_for_hash, (dir, identity), by_hash),
        identity@ == hash@,
    ensures
        paths@ == by_hash@,
        paths.hash@ == hash@,
{
}

/// A pid file holds the number of a process in decimal, with white space around it or
/// without.
pub proof fn law_pid_is_read_back(content: &str, n: u32, front: Seq<char>, back: Seq<char>, pid: Option<u32>)
    requires
        call_ensures(pid_of, (content,), pid),
        content@ == front + decimal(n as nat) + back,
        forall|i: int| 0 <= i < front.len() ==> crate::text::is_white(#[trigger] front[i]),
        forall|i: int| 0 <= i < back.len() ==> crate::text::is_white(#[trigger] back[i]),
    ensures
        pid == Some(n),
{
    law_decimal_reads_back(n as nat, u32::MAX as nat);
    lemma_decimal_is_not_white(n as nat);
    crate::text::law_trimming_cuts_white_space_at_the_ends(front, decimal(n as nat), back);
}

proof fn lemma_decimal_is_not_white(n: nat)
    ensures
        decimal(n).len() > 0,
        !crate::text::is_white(decimal(n)[0]),
        !crate::text::is_white(decimal(n).last()),
    decreases n,
{
    if n >= 10 {
        lemma_decimal_is_not_white(n / 10);
        assert(decimal(n)[0] == decimal(n / 10)[0]);
    }
}

/// A line is relayed exactly where there is something in it that is no white space.
pub proof fn law_blank_lines_are_not_relayed(line: &str, relayed: bool)
    requires
        call_ensures(is_relayed, (line,), relayed),
    ensures
        relayed <==> exists|i: int|
            0 <= i < line@.len() && !crate::text::is_white(#[trigger] line@[i]),
{
    crate::text::law_blank_texts_are_white_space(line@);
}

/// A connection is used wherever it is made, and a failure ends the search; after its end
/// nothing more is tried.
pub proof fn law_connection_is_used(search: &mut BrokerSearch, event: ConnectEvent, step: ConnectStep)
    requires
        call_ensures(BrokerSearch::next, (search, event), step),
    ensures
        old(search).phase is Over ==> step@ is Fail && final(search).phase is Over,
        !(old(search).phase is Over) && event is Connected ==> step@ is Use && final(
            search).phase is Over,
        !(old(search).phase is Over) ==> (event matches ConnectEvent::Failed(why) ==> step@
            == StepOf::Fail(why@) && final(search).phase is Over),
        step@ is Use ==> event is Connected,
        step@ is Use || step@ is Fail ==> final(search).phase is Over,
        final(search).phase is Over ==> step@ is Use || step@ is Fail,
{
}

/// A client that finds no broker takes the lock, tries once more, reads which process is
/// in the way, has it ended and starts a broker, and looks for it until the time is up.
pub proof fn law_search_with_the_lock(pid: Option<u32>)
    ensures
        ({
            let first = connect_next(ConnectPhase::First, ConnectEvent::Refused);
            let locked = connect_next(first.0, ConnectEvent::LockTaken);
            let stale = connect_next(locked.0, ConnectEvent::Refused);
            let spawned = connect_next(stale.0, ConnectEvent::Pid(pid));
            let polling = connect_next(spawned.0, ConnectEvent::Done);
            let again = connect_next(polling.0, ConnectEvent::Refused);
            let late = connect_next(again.0, ConnectEvent::DeadlinePassed);
            &&& first.1 == StepOf::TryLock
            &&& locked.1 == StepOf::Connect
            &&& stale.1 == StepOf::ReadPid
            &&& spawned.1 == (StepOf::Spawn { kill: pid })
            &&& polling.1 == StepOf::Poll
            &&& again.1 == StepOf::Poll
            &&& again.0 == polling.0
            &&& late.1 is Fail
            &&& connect_next(again.0, ConnectEvent::Connected).1 == StepOf::Use
        }),
{
}

/// A client that finds the lock taken waits for it and tries the socket twenty times; at
/// no point does it start a broker.
pub proof fn law_search_without_the_lock(n: nat)
    ensures
        ({
            let first = connect_next(ConnectPhase::First, ConnectEvent::Refused);
            let waiting = connect_next(first.0, ConnectEvent::LockBusy);
            let trying = connect_next(waiting.0, ConnectEvent::Done);
            &&& waiting.1 == StepOf::WaitLock
            &&& trying.1 == StepOf::Connect
            &&& n < 20 ==> !(after_refusals(trying.0, n) is Over)
            &&& n < 19 ==> connect_next(after_refusals(trying.0, n), ConnectEvent::Refused).1
                == StepOf::Retry
            &&& n < 20 ==> connect_next(after_refusals(trying.0, n), ConnectEvent::Connected).1
                == StepOf::Use
            &&& n == 19 ==> connect_next(after_refusals(trying.0, n), ConnectEvent::Refused).1
                is Fail
        }),
{
    if n < 20 {
        law_search_ends_after_retries(19, n);
    }
}

/// A search begins with an attempt at the socket.
pub proof fn law_search_begins_at_the_socket(search: BrokerSearch)
    requires
        call_ensures(BrokerSearch::new, (), search),
    ensures
        connect_next(search.phase, ConnectEvent::Connected).1 == StepOf::Use,
        connect_next(search.phase, ConnectEvent::Refused).1 == StepOf::TryLock,
{
}

/// A broker runs exactly where its process lives and its socket is there; the rest of its
/// state is what was seen, and where its files are.
pub proof fn law_state_of_a_broker(paths: &DaemonPaths, facts: BrokerFacts, status: BrokerStatus)
    requires
        call_ensures(broker_status, (paths, facts), status),
    ensures
        status.running <==> facts.pid is Some && facts.socket_exists,
        status.pid == facts.pid,
        status.socket_exists == facts.socket_exists,
        status.lock_exists == facts.lock_exists,
        status.hash@ == paths.hash@,
        status.socket@ == paths.socket@,
        status.lock@ == paths.lock@,
        status.pid_path@ == paths.pid@,
        status.meta_path@ == paths.meta@,
        facts.meta_text is None ==> status.meta is None && !status.meta_matches_current_exe,
        facts.current_exe is None ==> !status.meta_matches_current_exe,
        (facts.meta_text matches Some(text) ==> opt_view(status.meta) == json_parse(text@)),
        (status.meta matches Some(meta) ==> (facts.current_exe matches Some(exe)
            ==> status.meta_matches_current_exe == (field(meta@, "exe"@) == Some(
            JsonView::Str(exe@),
        )))),
{
}

/// The metadata of a broker holds its identity, its process, its program and the version.
pub proof fn law_metadata_of_a_broker(hash: &str, pid: u32, exe: &str, j: Json)
    requires
        call_ensures(broker_meta, (hash, pid, exe), j),
    ensures
        field(j@, "hash"@) == Some(JsonView::Str(hash@)),
        field(j@, "pid"@) == Some(JsonView::Num(NumberView::Int(pid as int))),
        field(j@, "exe"@) == Some(JsonView::Str(exe@)),
        field(j@, "version"@) == Some(JsonView::Str(VERSION@)),
{
    reveal_strlit("hash");
    reveal_strlit("pid");
    reveal_strlit("exe");
    reveal_strlit("version");
    assert("hash"@.len() == 4);
    assert("pid"@.len() == 3);
    assert("exe"@.len() == 3);
    assert("version"@.len() == 7);
    assert("pid"@[0] != "exe"@[0]);
}

/// A file belongs to a broker exactly where its name is an identity and the ending of a
/// socket or of a pid file.
pub proof fn law_only_sockets_and_pids_show_a_broker(name: &str, found: Option<String>)
    requires
        call_ensures(broker_of_file, (name,), found),
    ensures
        (found matches Some(hash) ==> hash@.len() > 0 && (name@ == hash@ + ".sock"@ || name@
            == hash@ + ".pid"@)),
        found is None ==> forall|hash: Seq<char>|
            hash.len() > 0 ==> name@ != #[trigger] (hash + ".sock"@) && name@ != hash + ".pid"@,
{
    reveal_strlit(".sock");
    reveal_strlit(".pid");
    assert(".sock"@.len() == 5);
    assert(".pid"@.len() == 4);
    if let Some(hash) = found {
        if ".sock"@.is_suffix_of(name@) && name@.len() > 5 {
            assert(name@ =~= hash@ + ".sock"@);
        } else {
            assert(name@ =~= hash@ + ".pid"@);
        }
    } else {
        assert forall|hash: Seq<char>| hash.len() > 0 implies name@ != #[trigger] (hash
            + ".sock"@) && name@ != hash + ".pid"@ by {
            law_broker_files_lead_back(hash);
        }
    }
}

/// A broker that is listed has a file among those that were found.
pub proof fn law_listed_brokers_have_files(names: Seq<Seq<char>>, k: int)
    requires
        0 <= k < hashes_of_files(names).len(),
    ensures
        exists|i: int|
            0 <= i < names.len() && hash_of_file(#[trigger] names[i]) == Some(
                hashes_of_files(names)[k],
            ),
    decreases names.len(),
{
    if names.len() > 0 {
        let front = names.drop_last();
        let before = hashes_of_files(front);
        if k < before.len() {
            law_listed_brokers_have_files(front, k);
            let i = choose|i: int|
                0 <= i < front.len() && hash_of_file(#[trigger] front[i]) == Some(before[k]);
            assert(names[i] == front[i]);
        } else {
            assert(hash_of_file(names[names.len() - 1]) == Some(hashes_of_files(names)[k]));
        }
    }
}

/// A process that is to go away is asked to; where there is none, only what it left goes.
pub proof fn law_end_of_a_process_begins(pid: Option<u32>, r: (StopStep, Option<Termination>))
    requires
        call_ensures(begin_stop, (pid,), r),
    ensures
        pid is None ==> r.0 == StopStep::Clean && r.1 is None,
        (pid matches Some(pid) ==> r.0 == (StopStep::Terminate { pid }) && (r.1 matches Some(t)
            && t.pid == pid && t.looks == 0)),
{
}

/// A process that was asked to go away has five seconds, at ten looks a second; one that
/// lives after that is killed, and once it is gone what it left goes.
pub proof fn law_process_has_five_seconds(t: &mut Termination, alive: bool, step: StopStep)
    requires
        old(t).looks <= 50,
        call_ensures(Termination::next, (t, alive), step),
    ensures
        final(t).pid == old(t).pid,
        !alive ==> step == StopStep::Clean && *final(t) == *old(t),
        alive && old(t).looks * STOP_POLL_MILLIS < 5_000 ==> step == StopStep::Wait && final(
            t).looks == old(t).looks + 1,
        alive && old(t).looks * STOP_POLL_MILLIS >= 5_000 ==> step == (StopStep::Kill {
            pid: old(t).pid,
        }) && *final(t) == *old(t),
{
}

/// The line that starts a broker is read back by the broker: it serves that command with
/// its arguments, has that time for the start, of a second at least, and keeps running.
pub proof fn law_started_broker_serves_the_command(
    program: Seq<char>,
    cmd: &str,
    args: &[String],
    secs: u64,
    line: Vec<String>,
    whole: Vec<String>,
    r: Result<crate::cli::CliMode, crate::cli::CliError>,
)
    requires
        call_ensures(build_broker_args, (cmd, args, secs), line),
        texts(whole@) == seq![program] + texts(line@),
        call_ensures(crate::cli::parse, (whole,), r),
    ensures
        r matches Ok(crate::cli::CliMode::BrokerInternal(rest)) && broker_args_view(
            texts(rest@),
        ) matches Some(read) && read.cmd == cmd@ && read.args == texts(args@)
            && read.no_idle_timeout && read.init_timeout_secs == if secs == 0 {
            1
        } else {
            secs
        },
{
    law_broker_command_is_read_back(program, cmd@, texts(args@), secs);
}

/// The brokers that are listed are those with a socket or a pid file, each once.
pub proof fn law_listed_brokers(names: &Vec<String>, hashes: Vec<String>, hash: Seq<char>, i: int)
    requires
        call_ensures(list_brokers, (names,), hashes),
        0 <= i < names@.len(),
        hash.len() > 0,
    ensures
        names@[i]@ == hash + ".sock"@ || names@[i]@ == hash + ".pid"@ ==> texts(hashes@).contains(
            hash,
        ),
        texts(hashes@).no_duplicates(),
        hashes@.len() == texts(hashes@).len(),
{
    law_broker_files_lead_back(hash);
    law_brokers_are_listed_once(texts(names@));
    assert(texts(names@)[i] == names@[i]@);
}

/// A broker was started from a program where its metadata says so.
pub proof fn law_program_of_a_broker(meta: Option<Json>, exe: Option<String>, b: bool)
    requires
        call_ensures(matches_exe, (&meta, &exe), b),
    ensures
        b <==> meta is Some && exe is Some && field(meta->0@, "exe"@) == Some(
            JsonView::Str(exe->0@),
        ),
{
}

} // verus!
