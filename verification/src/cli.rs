//! The command line: proxy mode, the administration commands and their options.

use std::time::Duration;

use vstd::prelude::*;
use vstd::string::*;

use crate::text::{join, parse_unsigned, starts_with, text_eq, unsigned_value};
use crate::timeouts::{default_init_timeout, duration_from_secs, nanos, DEFAULT_INIT_TIMEOUT_SECS};

verus! {

/// What the command line asks for.
#[derive(Debug, PartialEq, Eq)]
pub enum CliMode {
    Version,
    Help,
    Proxy(ProxyArgs),
    BrokerInternal(Vec<String>),
    Admin(AdminArgs),
}

#[derive(Debug, PartialEq, Eq)]
pub struct ProxyArgs {
    pub daemon: bool,
    pub init_timeout: Duration,
    pub cmd: String,
    pub args: Vec<String>,
}

#[derive(Debug, PartialEq, Eq)]
pub struct AdminArgs {
    pub action: AdminAction,
    pub output_json: bool,
    pub start: bool,
    pub force: bool,
    pub init_timeout: Duration,
    pub target: Option<CommandTarget>,
}

#[derive(Debug, Clone, Copy, PartialEq, Eq, Structural)]
pub enum AdminAction {
    Status,
    BackendStatus,
    BackendPing,
    BackendRefresh,
    BackendRestart,
    BackendStop,
    BrokerList,
    BrokerStatus,
    BrokerStop,
    BrokerRestart,
    Doctor,
}

/// The command whose backend or broker is meant.
#[derive(Debug, PartialEq, Eq)]
pub struct CommandTarget {
    pub cmd: String,
    pub args: Vec<String>,
}

#[derive(Debug, PartialEq, Eq)]
pub struct CliError {
    pub message: String,
}

/// The texts of a list of strings.
pub open spec fn texts(v: Seq<String>) -> Seq<Seq<char>> {
    Seq::new(v.len(), |i: int| v[i]@)
}

/// The value of a `CommandTarget`.
#[verifier::ext_equal]
pub struct TargetView {
    pub cmd: Seq<char>,
    pub args: Seq<Seq<char>>,
}

impl View for CommandTarget {
    type V = TargetView;

    open spec fn view(&self) -> TargetView {
        TargetView { cmd: self.cmd@, args: texts(self.args@) }
    }
}

/// The value of a `CliMode`; the timeout is in seconds.
#[verifier::ext_equal]
pub enum ModeView {
    Version,
    Help,
    Proxy { daemon: bool, secs: nat, command: TargetView },
    BrokerInternal(Seq<Seq<char>>),
    Admin { action: AdminAction, options: OptionsView, target: Option<TargetView> },
}

/// The options of an administration command.
#[verifier::ext_equal]
pub struct OptionsView {
    pub output_json: bool,
    pub start: bool,
    pub force: bool,
    pub secs: nat,
}

/// Whether a parsed command line is `view`.
pub open spec fn mode_is(mode: CliMode, view: ModeView) -> bool {
    match (mode, view) {
        (CliMode::Version, ModeView::Version) => true,
        (CliMode::Help, ModeView::Help) => true,
        (CliMode::Proxy(p), ModeView::Proxy { daemon, secs, command }) => {
            &&& p.daemon == daemon
            &&& nanos(p.init_timeout) == secs * 1_000_000_000
            &&& p.cmd@ == command.cmd
            &&& texts(p.args@) == command.args
        },
        (CliMode::BrokerInternal(args), ModeView::BrokerInternal(view)) => texts(args@) == view,
        (CliMode::Admin(a), ModeView::Admin { action, options, target }) => {
            &&& a.action == action
            &&& a.output_json == options.output_json
            &&& a.start == options.start
            &&& a.force == options.force
            &&& nanos(a.init_timeout) == options.secs * 1_000_000_000
            &&& match (a.target, target) {
                (Some(t), Some(view)) => t@ == view,
                (None, None) => true,
                _ => false,
            }
        },
        _ => false,
    }
}

/// Whether the outcome of parsing is `view`: the mode, or the error message.
pub open spec fn parsed_as(
    r: Result<CliMode, CliError>,
    view: Result<ModeView, Seq<char>>,
) -> bool {
    match (r, view) {
        (Ok(mode), Ok(view)) => mode_is(mode, view),
        (Err(e), Err(message)) => e.message@ == message,
        _ => false,
    }
}

pub open spec fn action_name(action: AdminAction) -> Seq<char> {
    match action {
        AdminAction::Status => "status"@,
        AdminAction::BackendStatus => "backend.status"@,
        AdminAction::BackendPing => "backend.ping"@,
        AdminAction::BackendRefresh => "backend.refresh"@,
        AdminAction::BackendRestart => "backend.restart"@,
        AdminAction::BackendStop => "backend.stop"@,
        AdminAction::BrokerList => "broker.list"@,
        AdminAction::BrokerStatus => "broker.status"@,
        AdminAction::BrokerStop => "broker.stop"@,
        AdminAction::BrokerRestart => "broker.restart"@,
        AdminAction::Doctor => "doctor"@,
    }
}

impl AdminAction {
    /// The name of the action in answers.
    pub fn name(self) -> (name: &'static str)
        ensures
            name@ == action_name(self),
    {
        match self {
            AdminAction::Status => "status",
            AdminAction::BackendStatus => "backend.status",
            AdminAction::BackendPing => "backend.ping",
            AdminAction::BackendRefresh => "backend.refresh",
            AdminAction::BackendRestart => "backend.restart",
            AdminAction::BackendStop => "backend.stop",
            AdminAction::BrokerList => "broker.list",
            AdminAction::BrokerStatus => "broker.status",
            AdminAction::BrokerStop => "broker.stop",
            AdminAction::BrokerRestart => "broker.restart",
            AdminAction::Doctor => "doctor",
        }
    }

    /// Whether the action is about one command.
    pub fn requires_target(self) -> (b: bool)
        ensures
            b == (self != AdminAction::BrokerList),
    {
        match self {
            AdminAction::BrokerList => false,
            _ => true,
        }
    }
}

impl CliError {
    pub fn new(message: String) -> (e: CliError)
        ensures
            e.message@ == message@,
    {
        CliError { message }
    }
}

fn usage_error(message: &str) -> (e: CliError)
    ensures
        e.message@ == message@,
{
    CliError::new(message.to_owned())
}

/// The arguments from position `from` on.
fn rest(args: &Vec<String>, from: usize) -> (tail: Vec<String>)
    requires
        from <= args@.len(),
    ensures
        texts(tail@) == texts(args@).subrange(from as int, args@.len() as int),
{
    let mut tail: Vec<String> = Vec::new();
    let mut i: usize = from;
    while i < args.len()
        invariant
            from <= i <= args@.len(),
            tail@.len() == i - from,
            forall|j: int| 0 <= j < tail@.len() ==> (#[trigger] tail@[j])@ == args@[from + j]@,
        decreases args@.len() - i,
    {
        tail.push(args[i].clone());
        i = i + 1;
    }
    assert(texts(tail@) =~= texts(args@).subrange(from as int, args@.len() as int));
    tail
}

/// The number of seconds that an option is given.
pub open spec fn secs_view(value: Option<Seq<char>>, flag: Seq<char>) -> Result<nat, Seq<char>> {
    match value {
        None => Err(flag + " requires a value"@),
        Some(raw) => match unsigned_value(raw, u64::MAX as nat) {
            None => Err(flag + " requires a positive integer"@),
            Some(secs) => if secs == 0 {
                Err(flag + " must be greater than 0"@)
            } else {
                Ok(secs)
            },
        },
    }
}

/// Reads the number of seconds that an option is given.
pub fn parse_secs(value: Option<&String>, flag: &str) -> (r: Result<u64, CliError>)
    ensures
        match r {
            Ok(secs) => secs_view(
                match value {
                    Some(v) => Some(v@),
                    None => None,
                },
                flag@,
            ) == Ok::<nat, Seq<char>>(secs as nat),
            Err(e) => secs_view(
                match value {
                    Some(v) => Some(v@),
                    None => None,
                },
                flag@,
            ) == Err::<nat, Seq<char>>(e.message@),
        },
{
    let raw = match value {
        Some(raw) => raw,
        None => {
            return Err(CliError::new(join(flag, " requires a value")));
        },
    };
    match parse_unsigned(raw.as_str(), u64::MAX) {
        None => Err(CliError::new(join(flag, " requires a positive integer"))),
        Some(secs) => if secs == 0 {
            Err(CliError::new(join(flag, " must be greater than 0")))
        } else {
            Ok(secs)
        },
    }
}

/// The argument at a position, if there is one.
pub open spec fn arg_at(args: Seq<Seq<char>>, i: int) -> Option<Seq<char>> {
    if 0 <= i < args.len() {
        Some(args[i])
    } else {
        None
    }
}

/// The proxy options from position `i` on: whether `--daemon` is among them, the
/// timeout, and where the command begins.
pub open spec fn proxy_options(
    args: Seq<Seq<char>>,
    i: int,
    daemon: bool,
    secs: nat,
) -> Result<(bool, nat, int), Seq<char>>
    decreases args.len() - i,
{
    if i >= args.len() {
        Ok((daemon, secs, i))
    } else if args[i] == "--daemon"@ {
        proxy_options(args, i + 1, true, secs)
    } else if args[i] == "--init-timeout"@ {
        match secs_view(arg_at(args, i + 1), "--init-timeout"@) {
            Ok(secs) => proxy_options(args, i + 2, daemon, secs),
            Err(message) => Err(message),
        }
    } else if "-"@.is_prefix_of(args[i]) {
        Err("Unknown option: "@ + args[i])
    } else {
        Ok((daemon, secs, i))
    }
}

pub open spec fn proxy_view(args: Seq<Seq<char>>) -> Result<ModeView, Seq<char>> {
    match proxy_options(args, 1, false, DEFAULT_INIT_TIMEOUT_SECS as nat) {
        Err(message) => Err(message),
        Ok((daemon, secs, at)) => if at >= args.len() {
            Err("Missing <command> argument"@)
        } else {
            Ok(
                ModeView::Proxy {
                    daemon,
                    secs,
                    command: TargetView {
                        cmd: args[at],
                        args: args.subrange(at + 1, args.len() as int),
                    },
                },
            )
        },
    }
}

/// Parses a proxy command line: options, then the command and its arguments.
pub fn parse_proxy(args: &Vec<String>) -> (r: Result<CliMode, CliError>)
    requires
        args@.len() >= 1,
    ensures
        parsed_as(r, proxy_view(texts(args@))),
{
    let ghost all = texts(args@);
    let mut daemon = false;
    let mut secs: u64 = DEFAULT_INIT_TIMEOUT_SECS;
    let mut init_timeout = default_init_timeout();
    let mut index: usize = 1;
    let mut more = true;
    while more && index < args.len()
        invariant
            all == texts(args@),
            1 <= index <= args@.len(),
            nanos(init_timeout) == secs as nat * 1_000_000_000,
            more ==> proxy_options(all, 1, false, DEFAULT_INIT_TIMEOUT_SECS as nat)
                == proxy_options(all, index as int, daemon, secs as nat),
            !more ==> proxy_options(all, 1, false, DEFAULT_INIT_TIMEOUT_SECS as nat) == Ok::<
                (bool, nat, int),
                Seq<char>,
            >((daemon, secs as nat, index as int)) && index < args@.len(),
        decreases args@.len() - index, (if more { 1int } else { 0int }),
    {
        let arg = args[index].as_str();
        assert(all[index as int] == arg@);
        if text_eq(arg, "--daemon") {
            daemon = true;
            index = index + 1;
        } else if text_eq(arg, "--init-timeout") {
            let value = if index + 1 < args.len() {
                Some(&args[index + 1])
            } else {
                None
            };
            match parse_secs(value, "--init-timeout") {
                Ok(n) => {
                    secs = n;
                    init_timeout = duration_from_secs(n);
                    index = index + 2;
                },
                Err(e) => {
                    return Err(e);
                },
            }
        } else if starts_with(arg, "-") {
            return Err(CliError::new(join("Unknown option: ", arg)));
        } else {
            more = false;
        }
    }
    if index >= args.len() {
        return Err(usage_error("Missing <command> argument"));
    }
    Ok(
        CliMode::Proxy(
            ProxyArgs {
                daemon,
                init_timeout,
                cmd: args[index].clone(),
                args: rest(args, index + 1),
            },
        ),
    )
}

/// The action of a `backend` subcommand.
pub open spec fn backend_action(sub: Seq<char>) -> Option<AdminAction> {
    if sub == "status"@ {
        Some(AdminAction::BackendStatus)
    } else if sub == "ping"@ {
        Some(AdminAction::BackendPing)
    } else if sub == "refresh"@ {
        Some(AdminAction::BackendRefresh)
    } else if sub == "restart"@ {
        Some(AdminAction::BackendRestart)
    } else if sub == "stop"@ {
        Some(AdminAction::BackendStop)
    } else {
        None
    }
}

/// The action of a `broker` subcommand.
pub open spec fn broker_action(sub: Seq<char>) -> Option<AdminAction> {
    if sub == "list"@ {
        Some(AdminAction::BrokerList)
    } else if sub == "status"@ {
        Some(AdminAction::BrokerStatus)
    } else if sub == "stop"@ {
        Some(AdminAction::BrokerStop)
    } else if sub == "restart"@ {
        Some(AdminAction::BrokerRestart)
    } else {
        None
    }
}

/// The action that an administration command line names, and where its options
/// begin.
pub open spec fn admin_action(args: Seq<Seq<char>>) -> Result<(AdminAction, int), Seq<char>> {
    if args[1] == "status"@ {
        Ok((AdminAction::Status, 2))
    } else if args[1] == "doctor"@ {
        Ok((AdminAction::Doctor, 2))
    } else if args[1] == "backend"@ {
        match arg_at(args, 2) {
            None => Err("backend requires a subcommand"@),
            Some(sub) => match backend_action(sub) {
                Some(action) => Ok((action, 3)),
                None => Err("Unknown backend command: "@ + sub),
            },
        }
    } else {
        match arg_at(args, 2) {
            None => Err("broker requires a subcommand"@),
            Some(sub) => match broker_action(sub) {
                Some(action) => Ok((action, 3)),
                None => Err("Unknown broker command: "@ + sub),
            },
        }
    }
}

fn parse_admin_action(args: &Vec<String>) -> (r: Result<(AdminAction, usize), CliError>)
    requires
        args@.len() >= 2,
        is_admin_word(args@[1]@),
    ensures
        match r {
            Ok((action, at)) => {
                &&& at <= args@.len()
                &&& admin_action(texts(args@)) == Ok::<(AdminAction, int), Seq<char>>(
                    (action, at as int),
                )
            },
            Err(e) => admin_action(texts(args@)) == Err::<(AdminAction, int), Seq<char>>(
                e.message@,
            ),
        },
{
    let word = args[1].as_str();
    assert(texts(args@)[1] == word@);
    if text_eq(word, "status") {
        return Ok((AdminAction::Status, 2));
    }
    if text_eq(word, "doctor") {
        return Ok((AdminAction::Doctor, 2));
    }
    let backend = text_eq(word, "backend");
    if args.len() < 3 {
        return Err(
            usage_error(
                if backend {
                    "backend requires a subcommand"
                } else {
                    "broker requires a subcommand"
                },
            ),
        );
    }
    let sub = args[2].as_str();
    assert(texts(args@)[2] == sub@);
    if backend {
        if text_eq(sub, "status") {
            Ok((AdminAction::BackendStatus, 3))
        } else if text_eq(sub, "ping") {
            Ok((AdminAction::BackendPing, 3))
        } else if text_eq(sub, "refresh") {
            Ok((AdminAction::BackendRefresh, 3))
        } else if text_eq(sub, "restart") {
            Ok((AdminAction::BackendRestart, 3))
        } else if text_eq(sub, "stop") {
            Ok((AdminAction::BackendStop, 3))
        } else {
            Err(CliError::new(join("Unknown backend command: ", sub)))
        }
    } else {
        if text_eq(sub, "list") {
            Ok((AdminAction::BrokerList, 3))
        } else if text_eq(sub, "status") {
            Ok((AdminAction::BrokerStatus, 3))
        } else if text_eq(sub, "stop") {
            Ok((AdminAction::BrokerStop, 3))
        } else if text_eq(sub, "restart") {
            Ok((AdminAction::BrokerRestart, 3))
        } else {
            Err(CliError::new(join("Unknown broker command: ", sub)))
        }
    }
}

/// The administration options from position `i` on, and where the separator
/// stands, if there is one.
pub open spec fn admin_options(
    args: Seq<Seq<char>>,
    i: int,
    o: OptionsView,
) -> Result<(OptionsView, Option<int>), Seq<char>>
    decreases args.len() - i,
{
    if i >= args.len() {
        Ok((o, None))
    } else if args[i] == "--"@ {
        Ok((o, Some(i)))
    } else if args[i] == "--json"@ {
        admin_options(args, i + 1, OptionsView { output_json: true, ..o })
    } else if args[i] == "--start"@ {
        admin_options(args, i + 1, OptionsView { start: true, ..o })
    } else if args[i] == "--force"@ {
        admin_options(args, i + 1, OptionsView { force: true, ..o })
    } else if args[i] == "--init-timeout"@ {
        match secs_view(arg_at(args, i + 1), "--init-timeout"@) {
            Ok(secs) => admin_options(args, i + 2, OptionsView { secs, ..o }),
            Err(message) => Err(message),
        }
    } else if "-"@.is_prefix_of(args[i]) {
        Err("Unknown option: "@ + args[i])
    } else {
        Err("Unexpected argument before --: "@ + args[i])
    }
}

pub open spec fn no_options() -> OptionsView {
    OptionsView {
        output_json: false,
        start: false,
        force: false,
        secs: DEFAULT_INIT_TIMEOUT_SECS as nat,
    }
}

/// The command after the separator.
pub open spec fn target_after(
    args: Seq<Seq<char>>,
    separator: Option<int>,
) -> Result<Option<TargetView>, Seq<char>> {
    match separator {
        None => Ok(None),
        Some(at) => match arg_at(args, at + 1) {
            None => Err("Missing <command> after --"@),
            Some(cmd) => Ok(
                Some(TargetView { cmd, args: args.subrange(at + 2, args.len() as int) }),
            ),
        },
    }
}

/// An administration command line: the first thing that is wrong with it, or what
/// it asks for.
pub open spec fn admin_view(args: Seq<Seq<char>>) -> Result<ModeView, Seq<char>> {
    match admin_action(args) {
        Err(message) => Err(message),
        Ok((action, at)) => match admin_options(args, at, no_options()) {
            Err(message) => Err(message),
            Ok((options, separator)) => if action == AdminAction::BackendStop && options.start {
                Err("backend stop does not accept --start"@)
            } else if options.force && action != AdminAction::BackendRestart {
                Err("--force is only valid for backend restart"@)
            } else {
                match target_after(args, separator) {
                    Err(message) => Err(message),
                    Ok(target) => if action != AdminAction::BrokerList && target is None {
                        Err("Missing -- <command> [args...]"@)
                    } else if action == AdminAction::BrokerList && target is Some {
                        Err("broker list does not accept a command target"@)
                    } else {
                        Ok(ModeView::Admin { action, options, target })
                    },
                }
            },
        },
    }
}

pub open spec fn is_admin_word(word: Seq<char>) -> bool {
    word == "status"@ || word == "backend"@ || word == "broker"@ || word == "doctor"@
}

/// Parses an administration command line: action, options, and the command after
/// `--`.
pub fn parse_admin(args: &Vec<String>) -> (r: Result<CliMode, CliError>)
    requires
        args@.len() >= 2,
        is_admin_word(args@[1]@),
    ensures
        parsed_as(r, admin_view(texts(args@))),
{
    let ghost all = texts(args@);
    let (action, at) = match parse_admin_action(args) {
        Ok(found) => found,
        Err(e) => {
            return Err(e);
        },
    };
    let mut output_json = false;
    let mut start = false;
    let mut force = false;
    let mut secs: u64 = DEFAULT_INIT_TIMEOUT_SECS;
    let mut init_timeout = default_init_timeout();
    let mut separator: Option<usize> = None;
    let mut index: usize = at;
    let ghost wanted = admin_options(all, at as int, no_options());
    while separator.is_none() && index < args.len()
        invariant
            all == texts(args@),
            index <= args@.len(),
            nanos(init_timeout) == secs as nat * 1_000_000_000,
            match separator {
                None => wanted == admin_options(
                    all,
                    index as int,
                    OptionsView { output_json, start, force, secs: secs as nat },
                ),
                Some(s) => {
                    &&& s < args@.len()
                    &&& wanted == Ok::<(OptionsView, Option<int>), Seq<char>>(
                        (
                            OptionsView { output_json, start, force, secs: secs as nat },
                            Some(s as int),
                        ),
                    )
                },
            },
            admin_action(all) == Ok::<(AdminAction, int), Seq<char>>((action, at as int)),
            wanted == admin_options(all, at as int, no_options()),
        decreases args@.len() - index, (if separator is None { 1int } else { 0int }),
    {
        let arg = args[index].as_str();
        assert(all[index as int] == arg@);
        if text_eq(arg, "--") {
            separator = Some(index);
        } else if text_eq(arg, "--json") {
            output_json = true;
            index = index + 1;
        } else if text_eq(arg, "--start") {
            start = true;
            index = index + 1;
        } else if text_eq(arg, "--force") {
            force = true;
            index = index + 1;
        } else if text_eq(arg, "--init-timeout") {
            let value = if index + 1 < args.len() {
                Some(&args[index + 1])
            } else {
                None
            };
            match parse_secs(value, "--init-timeout") {
                Ok(n) => {
                    secs = n;
                    init_timeout = duration_from_secs(n);
                    index = index + 2;
                },
                Err(e) => {
                    return Err(e);
                },
            }
        } else if starts_with(arg, "-") {
            return Err(CliError::new(join("Unknown option: ", arg)));
        } else {
            return Err(CliError::new(join("Unexpected argument before --: ", arg)));
        }
    }
    if action == AdminAction::BackendStop && start {
        return Err(usage_error("backend stop does not accept --start"));
    }
    if force && action != AdminAction::BackendRestart {
        return Err(usage_error("--force is only valid for backend restart"));
    }
    let target = match separator {
        Some(pos) => {
            if args.len() - pos < 2 {
                return Err(usage_error("Missing <command> after --"));
            }
            assert(all[pos + 1] == args@[pos + 1]@);
            Some(CommandTarget { cmd: args[pos + 1].clone(), args: rest(args, pos + 2) })
        },
        None => None,
    };
    if action.requires_target() && target.is_none() {
        return Err(usage_error("Missing -- <command> [args...]"));
    }
    if !action.requires_target() && target.is_some() {
        return Err(usage_error("broker list does not accept a command target"));
    }
    Ok(CliMode::Admin(AdminArgs { action, output_json, start, force, init_timeout, target }))
}

/// A command line as a whole; the program's name comes first.
pub open spec fn cli_view(args: Seq<Seq<char>>) -> Result<ModeView, Seq<char>> {
    if args.len() < 2 {
        Err("Missing <command> argument"@)
    } else if args[1] == "--version"@ || args[1] == "-V"@ {
        Ok(ModeView::Version)
    } else if args[1] == "--help"@ || args[1] == "-h"@ {
        Ok(ModeView::Help)
    } else if args[1] == "--broker-internal"@ {
        Ok(ModeView::BrokerInternal(args.subrange(2, args.len() as int)))
    } else if is_admin_word(args[1]) {
        admin_view(args)
    } else {
        proxy_view(args)
    }
}

/// Parses a command line; the program's name comes first.
pub fn parse(args: Vec<String>) -> (r: Result<CliMode, CliError>)
    ensures
        parsed_as(r, cli_view(texts(args@))),
{
    if args.len() < 2 {
        return Err(usage_error("Missing <command> argument"));
    }
    let word = args[1].as_str();
    assert(texts(args@)[1] == word@);
    if text_eq(word, "--version") || text_eq(word, "-V") {
        return Ok(CliMode::Version);
    }
    if text_eq(word, "--help") || text_eq(word, "-h") {
        return Ok(CliMode::Help);
    }
    if text_eq(word, "--broker-internal") {
        return Ok(CliMode::BrokerInternal(rest(&args, 2)));
    }
    if text_eq(word, "status") || text_eq(word, "backend") || text_eq(word, "broker") || text_eq(
        word,
        "doctor",
    ) {
        return parse_admin(&args);
    }
    parse_proxy(&args)
}

/// A command that administers one backend or broker names its command, and
/// `broker list` names none; `--force` comes only with `backend restart`; and
/// `backend stop` never starts a broker.
pub proof fn law_admin_lines_are_consistent(args: Seq<Seq<char>>)
    ensures
        admin_view(args) matches Ok(ModeView::Admin { action, options, target }) ==> {
            &&& target is Some <==> action != AdminAction::BrokerList
            &&& options.force ==> action == AdminAction::BackendRestart
            &&& action == AdminAction::BackendStop ==> !options.start
        },
{
}

/// The words of administration lines and the names of actions, letter by letter.
proof fn lemma_action_words()
    ensures
        "backend"@.len() == 7,
        "broker"@.len() == 6,
        "."@.len() == 1,
        "backend"@ != "broker"@,
        "status"@ != "backend"@,
        "status"@ != "broker"@,
        "doctor"@ != "backend"@,
        "doctor"@ != "broker"@,
        "status"@ != "doctor"@,
        "backend"@ + "."@ + "status"@ == "backend.status"@,
        "backend"@ + "."@ + "ping"@ == "backend.ping"@,
        "backend"@ + "."@ + "refresh"@ == "backend.refresh"@,
        "backend"@ + "."@ + "restart"@ == "backend.restart"@,
        "backend"@ + "."@ + "stop"@ == "backend.stop"@,
        "broker"@ + "."@ + "list"@ == "broker.list"@,
        "broker"@ + "."@ + "status"@ == "broker.status"@,
        "broker"@ + "."@ + "stop"@ == "broker.stop"@,
        "broker"@ + "."@ + "restart"@ == "broker.restart"@,
        "status"@.len() == 6,
        "doctor"@.len() == 6,
{
    reveal_strlit("status");
    reveal_strlit("doctor");
    reveal_strlit("backend");
    reveal_strlit("broker");
    reveal_strlit("ping");
    reveal_strlit("refresh");
    reveal_strlit("restart");
    reveal_strlit("stop");
    reveal_strlit("list");
    reveal_strlit(".");
    reveal_strlit("backend.status");
    reveal_strlit("backend.ping");
    reveal_strlit("backend.refresh");
    reveal_strlit("backend.restart");
    reveal_strlit("backend.stop");
    reveal_strlit("broker.list");
    reveal_strlit("broker.status");
    reveal_strlit("broker.stop");
    reveal_strlit("broker.restart");
    assert("status"@.len() == 6);
    assert("doctor"@.len() == 6);
    assert("backend"@.len() == 7);
    assert("broker"@.len() == 6);
    assert("ping"@.len() == 4);
    assert("refresh"@.len() == 7);
    assert("restart"@.len() == 7);
    assert("stop"@.len() == 4);
    assert("list"@.len() == 4);
    assert("."@.len() == 1);
    assert("backend.status"@.len() == 14);
    assert("backend.ping"@.len() == 12);
    assert("backend.refresh"@.len() == 15);
    assert("backend.restart"@.len() == 15);
    assert("backend.stop"@.len() == 12);
    assert("broker.list"@.len() == 11);
    assert("broker.status"@.len() == 13);
    assert("broker.stop"@.len() == 11);
    assert("broker.restart"@.len() == 14);
    assert("status"@[0] != "doctor"@[0]);
    assert("status"@[0] != "broker"@[0]);
    assert("doctor"@[0] != "broker"@[0]);
    assert("backend"@[0] != "refresh"@[0]);
    assert("backend"@[0] != "restart"@[0]);
    assert("ping"@[0] != "stop"@[0]);
    assert("ping"@[0] != "list"@[0]);
    assert("refresh"@[2] != "restart"@[2]);
    assert("stop"@[0] != "list"@[0]);
    assert("backend.status"@[1] != "broker.restart"@[1]);
    assert("backend.ping"@[8] != "backend.stop"@[8]);
    assert("backend.refresh"@[10] != "backend.restart"@[10]);
    assert("broker.list"@[7] != "broker.stop"@[7]);
    assert("backend"@ + "."@ + "status"@ =~= "backend.status"@);
    assert("backend"@ + "."@ + "ping"@ =~= "backend.ping"@);
    assert("backend"@ + "."@ + "refresh"@ =~= "backend.refresh"@);
    assert("backend"@ + "."@ + "restart"@ =~= "backend.restart"@);
    assert("backend"@ + "."@ + "stop"@ =~= "backend.stop"@);
    assert("broker"@ + "."@ + "list"@ =~= "broker.list"@);
    assert("broker"@ + "."@ + "status"@ =~= "broker.status"@);
    assert("broker"@ + "."@ + "stop"@ =~= "broker.stop"@);
    assert("broker"@ + "."@ + "restart"@ =~= "broker.restart"@);
}

/// Different actions have different names.
pub proof fn law_action_names_differ(a: AdminAction, b: AdminAction)
    requires
        action_name(a) == action_name(b),
    ensures
        a == b,
{
    reveal_strlit("status");
    reveal_strlit("doctor");
    reveal_strlit("backend");
    reveal_strlit("broker");
    reveal_strlit("ping");
    reveal_strlit("refresh");
    reveal_strlit("restart");
    reveal_strlit("stop");
    reveal_strlit("list");
    reveal_strlit(".");
    reveal_strlit("backend.status");
    reveal_strlit("backend.ping");
    reveal_strlit("backend.refresh");
    reveal_strlit("backend.restart");
    reveal_strlit("backend.stop");
    reveal_strlit("broker.list");
    reveal_strlit("broker.status");
    reveal_strlit("broker.stop");
    reveal_strlit("broker.restart");
    assert("status"@.len() == 6);
    assert("doctor"@.len() == 6);
    assert("backend"@.len() == 7);
    assert("broker"@.len() == 6);
    assert("ping"@.len() == 4);
    assert("refresh"@.len() == 7);
    assert("restart"@.len() == 7);
    assert("stop"@.len() == 4);
    assert("list"@.len() == 4);
    assert("."@.len() == 1);
    assert("backend.status"@.len() == 14);
    assert("backend.ping"@.len() == 12);
    assert("backend.refresh"@.len() == 15);
    assert("backend.restart"@.len() == 15);
    assert("backend.stop"@.len() == 12);
    assert("broker.list"@.len() == 11);
    assert("broker.status"@.len() == 13);
    assert("broker.stop"@.len() == 11);
    assert("broker.restart"@.len() == 14);
    assert("status"@[0] != "doctor"@[0]);
    assert("status"@[0] != "broker"@[0]);
    assert("doctor"@[0] != "broker"@[0]);
    assert("backend"@[0] != "refresh"@[0]);
    assert("backend"@[0] != "restart"@[0]);
    assert("ping"@[0] != "stop"@[0]);
    assert("ping"@[0] != "list"@[0]);
    assert("refresh"@[2] != "restart"@[2]);
    assert("stop"@[0] != "list"@[0]);
    assert("backend.status"@[1] != "broker.restart"@[1]);
    assert("backend.ping"@[8] != "backend.stop"@[8]);
    assert("backend.refresh"@[10] != "backend.restart"@[10]);
    assert("broker.list"@[7] != "broker.stop"@[7]);
}

/// An accepted administration line asks for the action that it names: `backend X` or
/// `broker X` for the action of that group with that name, and `status` or `doctor` for
/// the action of that name.
pub proof fn law_admin_line_asks_for_what_it_names(args: Seq<Seq<char>>)
    requires
        cli_view(args) matches Ok(mode) && mode is Admin,
    ensures
        cli_view(args) matches Ok(ModeView::Admin { action, options, target }) && {
            &&& args.len() >= 2
            &&& args[1] == "status"@ || args[1] == "doctor"@ || args[1] == "backend"@ || args[1]
                == "broker"@
            &&& args[1] == "status"@ || args[1] == "doctor"@ ==> action_name(action) == args[1]
            &&& args[1] == "backend"@ || args[1] == "broker"@ ==> args.len() >= 3 && action_name(
                action,
            ) == args[1] + "."@ + args[2]
        },
{
    lemma_action_words();
}

/// The names of the actions are those of the lines that ask for them.
pub proof fn law_actions_are_named_by_group_and_command()
    ensures
        action_name(AdminAction::Status) == "status"@,
        action_name(AdminAction::Doctor) == "doctor"@,
        action_name(AdminAction::BackendStatus) == "backend"@ + "."@ + "status"@,
        action_name(AdminAction::BackendPing) == "backend"@ + "."@ + "ping"@,
        action_name(AdminAction::BackendRefresh) == "backend"@ + "."@ + "refresh"@,
        action_name(AdminAction::BackendRestart) == "backend"@ + "."@ + "restart"@,
        action_name(AdminAction::BackendStop) == "backend"@ + "."@ + "stop"@,
        action_name(AdminAction::BrokerList) == "broker"@ + "."@ + "list"@,
        action_name(AdminAction::BrokerStatus) == "broker"@ + "."@ + "status"@,
        action_name(AdminAction::BrokerStop) == "broker"@ + "."@ + "stop"@,
        action_name(AdminAction::BrokerRestart) == "broker"@ + "."@ + "restart"@,
{
    lemma_action_words();
}

/// Two accepted lines with the same action have the same words before their options.
pub proof fn law_different_commands_ask_for_different_actions(
    a: Seq<Seq<char>>,
    b: Seq<Seq<char>>,
)
    requires
        cli_view(a) matches Ok(mode) && mode is Admin,
        cli_view(b) matches Ok(mode) && mode is Admin,
        cli_view(a)->Ok_0->action == cli_view(b)->Ok_0->action,
    ensures
        a[1] == b[1],
        a[1] == "backend"@ || a[1] == "broker"@ ==> a[2] == b[2],
{
    lemma_action_words();
    law_admin_line_asks_for_what_it_names(a);
    law_admin_line_asks_for_what_it_names(b);
    let name = action_name(cli_view(a)->Ok_0->action);
    if a[1] == "backend"@ || a[1] == "broker"@ {
        assert(name[6] == (a[1] + "."@ + a[2])[6]);
    }
    if b[1] == "backend"@ || b[1] == "broker"@ {
        assert(name[6] == (b[1] + "."@ + b[2])[6]);
    }
    reveal_strlit("backend");
    reveal_strlit(".");
    assert("backend"@[6] != "."@[0]);
    if (a[1] == "backend"@ || a[1] == "broker"@) && a[1] == b[1] {
        let n = a[1].len() as int + 1;
        assert((a[1] + "."@ + a[2]).subrange(n, name.len() as int) =~= a[2]);
        assert((b[1] + "."@ + b[2]).subrange(n, name.len() as int) =~= b[2]);
    }
}

/// A line of the program, the words of a command, and what follows them.
pub open spec fn admin_line(
    program: Seq<char>,
    group: Seq<char>,
    sub: Option<Seq<char>>,
    after: Seq<Seq<char>>,
) -> Seq<Seq<char>> {
    match sub {
        Some(sub) => seq![program, group, sub] + after,
        None => seq![program, group] + after,
    }
}

/// Every action can be asked for: `status` and `doctor` by name, each other one by its
/// group and its command, with the command of the backend after the separator. Without
/// options nothing is forced or started, the answer is for people, and thirty seconds
/// are allowed for the start.
pub proof fn law_every_action_can_be_asked_for(
    action: AdminAction,
    program: Seq<char>,
    group: Seq<char>,
    sub: Option<Seq<char>>,
    command: TargetView,
)
    requires
        match sub {
            Some(sub) => (group == "backend"@ || group == "broker"@) && action_name(action)
                == group + "."@ + sub,
            None => (group == "status"@ || group == "doctor"@) && action_name(action) == group,
        },
    ensures
        action != AdminAction::BrokerList ==> cli_view(
            admin_line(program, group, sub, seq!["--"@, command.cmd] + command.args),
        ) == Ok::<ModeView, Seq<char>>(
            ModeView::Admin {
                action,
                options: OptionsView { output_json: false, start: false, force: false, secs: 30 },
                target: Some(command),
            },
        ),
        action == AdminAction::BrokerList ==> cli_view(
            admin_line(program, group, sub, Seq::empty()),
        ) == Ok::<ModeView, Seq<char>>(
            ModeView::Admin {
                action,
                options: OptionsView { output_json: false, start: false, force: false, secs: 30 },
                target: None,
            },
        ),
{
    lemma_action_words();
    lemma_front_words();
    let after = if action == AdminAction::BrokerList {
        Seq::empty()
    } else {
        seq!["--"@, command.cmd] + command.args
    };
    let line = admin_line(program, group, sub, after);
    assert(line[1] == group);
    let at = if sub is Some {
        3int
    } else {
        2int
    };
    if let Some(word) = sub {
        assert(line[2] == word);
        let n = group.len() as int + 1;
        assert((group + "."@ + word).subrange(n, n + word.len()) =~= word);
        assert((group + "."@ + word)[0] == group[0]);
        assert((group + "."@ + word)[6] == if group.len() == 7 {
            group[6]
        } else {
            "."@[0]
        });
        lemma_sub_words(group, word, action);
    } else {
        lemma_lone_words(action);
    }
    assert(admin_action(line) == Ok::<(AdminAction, int), Seq<char>>((action, at)));
    if action != AdminAction::BrokerList {
        assert(line[at] == "--"@);
        assert(line[at + 1] == command.cmd);
        assert(line.subrange(at + 2, line.len() as int) =~= command.args);
    }
}

/// The first words of lines that are no administration.
proof fn lemma_front_words()
    ensures
        !is_admin_word("--version"@) && !is_admin_word("-V"@) && !is_admin_word("--help"@)
            && !is_admin_word("-h"@) && !is_admin_word("--broker-internal"@),
        !is_admin_word("--daemon"@) && !is_admin_word("--init-timeout"@),
        "--daemon"@ != "--init-timeout"@,
        "--help"@ != "--version"@ && "--help"@ != "-V"@ && "-h"@ != "--version"@ && "-h"@ != "-V"@,
        "--broker-internal"@ != "--version"@ && "--broker-internal"@ != "-V"@
            && "--broker-internal"@ != "--help"@ && "--broker-internal"@ != "-h"@,
        "--daemon"@ != "--version"@ && "--daemon"@ != "-V"@ && "--daemon"@ != "--help"@
            && "--daemon"@ != "-h"@ && "--daemon"@ != "--broker-internal"@,
        "--init-timeout"@ != "--version"@ && "--init-timeout"@ != "-V"@ && "--init-timeout"@
            != "--help"@ && "--init-timeout"@ != "-h"@ && "--init-timeout"@
            != "--broker-internal"@,
{
    reveal_strlit("--version");
    reveal_strlit("-V");
    reveal_strlit("--help");
    reveal_strlit("-h");
    reveal_strlit("--broker-internal");
    reveal_strlit("status");
    reveal_strlit("doctor");
    reveal_strlit("backend");
    reveal_strlit("broker");
    reveal_strlit("--daemon");
    reveal_strlit("--init-timeout");
    assert("--version"@.len() == 9);
    assert("-V"@.len() == 2);
    assert("--help"@.len() == 6);
    assert("-h"@.len() == 2);
    assert("--broker-internal"@.len() == 17);
    assert("status"@.len() == 6);
    assert("doctor"@.len() == 6);
    assert("backend"@.len() == 7);
    assert("broker"@.len() == 6);
    assert("--daemon"@.len() == 8);
    assert("--init-timeout"@.len() == 14);
    assert("-V"@[1] != "-h"@[1]);
    assert("--help"@[0] != "status"@[0]);
    assert("--help"@[0] != "doctor"@[0]);
    assert("--help"@[0] != "broker"@[0]);
    assert("status"@[0] != "doctor"@[0]);
    assert("status"@[0] != "broker"@[0]);
    assert("doctor"@[0] != "broker"@[0]);
}

/// Which command a name of an action ends in.
proof fn lemma_sub_words(group: Seq<char>, word: Seq<char>, action: AdminAction)
    requires
        group == "backend"@ || group == "broker"@,
        action_name(action) == group + "."@ + word,
    ensures
        group == "backend"@ ==> backend_action(word) == Some(action),
        group == "broker"@ ==> broker_action(word) == Some(action),
{
    reveal_strlit("status");
    reveal_strlit("doctor");
    reveal_strlit("backend");
    reveal_strlit("broker");
    reveal_strlit("ping");
    reveal_strlit("refresh");
    reveal_strlit("restart");
    reveal_strlit("stop");
    reveal_strlit("list");
    reveal_strlit(".");
    reveal_strlit("backend.status");
    reveal_strlit("backend.ping");
    reveal_strlit("backend.refresh");
    reveal_strlit("backend.restart");
    reveal_strlit("backend.stop");
    reveal_strlit("broker.list");
    reveal_strlit("broker.status");
    reveal_strlit("broker.stop");
    reveal_strlit("broker.restart");
    assert("status"@.len() == 6);
    assert("doctor"@.len() == 6);
    assert("backend"@.len() == 7);
    assert("broker"@.len() == 6);
    assert("ping"@.len() == 4);
    assert("refresh"@.len() == 7);
    assert("restart"@.len() == 7);
    assert("stop"@.len() == 4);
    assert("list"@.len() == 4);
    assert("."@.len() == 1);
    assert("backend.status"@.len() == 14);
    assert("backend.ping"@.len() == 12);
    assert("backend.refresh"@.len() == 15);
    assert("backend.restart"@.len() == 15);
    assert("backend.stop"@.len() == 12);
    assert("broker.list"@.len() == 11);
    assert("broker.status"@.len() == 13);
    assert("broker.stop"@.len() == 11);
    assert("broker.restart"@.len() == 14);
    assert("status"@[0] != "doctor"@[0]);
    assert("status"@[0] != "broker"@[0]);
    assert("doctor"@[0] != "broker"@[0]);
    assert("backend"@[0] != "refresh"@[0]);
    assert("backend"@[0] != "restart"@[0]);
    assert("ping"@[0] != "stop"@[0]);
    assert("ping"@[0] != "list"@[0]);
    assert("refresh"@[2] != "restart"@[2]);
    assert("stop"@[0] != "list"@[0]);
    assert("backend.status"@[1] != "broker.restart"@[1]);
    assert("backend.ping"@[8] != "backend.stop"@[8]);
    assert("backend.refresh"@[10] != "backend.restart"@[10]);
    assert("broker.list"@[7] != "broker.stop"@[7]);
    lemma_action_words();
    let name = action_name(action);
    let n = group.len() as int + 1;
    assert(name.subrange(n, name.len() as int) =~= word);
    assert(name[0] == group[0]);
    assert(name[1] == group[1]);
    assert(name[6] == if group.len() == 7 {
        group[6]
    } else {
        "."@[0]
    });
    assert("backend.status"@.subrange(8, 14) =~= "status"@);
    assert("backend.ping"@.subrange(8, 12) =~= "ping"@);
    assert("backend.refresh"@.subrange(8, 15) =~= "refresh"@);
    assert("backend.restart"@.subrange(8, 15) =~= "restart"@);
    assert("backend.stop"@.subrange(8, 12) =~= "stop"@);
    assert("broker.list"@.subrange(7, 11) =~= "list"@);
    assert("broker.status"@.subrange(7, 13) =~= "status"@);
    assert("broker.stop"@.subrange(7, 11) =~= "stop"@);
    assert("broker.restart"@.subrange(7, 14) =~= "restart"@);
}

proof fn lemma_lone_words(action: AdminAction)
    ensures
        action_name(action) == "status"@ ==> action == AdminAction::Status,
        action_name(action) == "doctor"@ ==> action == AdminAction::Doctor,
{
    reveal_strlit("status");
    reveal_strlit("doctor");
    reveal_strlit("backend");
    reveal_strlit("broker");
    reveal_strlit("ping");
    reveal_strlit("refresh");
    reveal_strlit("restart");
    reveal_strlit("stop");
    reveal_strlit("list");
    reveal_strlit(".");
    reveal_strlit("backend.status");
    reveal_strlit("backend.ping");
    reveal_strlit("backend.refresh");
    reveal_strlit("backend.restart");
    reveal_strlit("backend.stop");
    reveal_strlit("broker.list");
    reveal_strlit("broker.status");
    reveal_strlit("broker.stop");
    reveal_strlit("broker.restart");
    assert("status"@.len() == 6);
    assert("doctor"@.len() == 6);
    assert("backend"@.len() == 7);
    assert("broker"@.len() == 6);
    assert("ping"@.len() == 4);
    assert("refresh"@.len() == 7);
    assert("restart"@.len() == 7);
    assert("stop"@.len() == 4);
    assert("list"@.len() == 4);
    assert("."@.len() == 1);
    assert("backend.status"@.len() == 14);
    assert("backend.ping"@.len() == 12);
    assert("backend.refresh"@.len() == 15);
    assert("backend.restart"@.len() == 15);
    assert("backend.stop"@.len() == 12);
    assert("broker.list"@.len() == 11);
    assert("broker.status"@.len() == 13);
    assert("broker.stop"@.len() == 11);
    assert("broker.restart"@.len() == 14);
    assert("status"@[0] != "doctor"@[0]);
    assert("status"@[0] != "broker"@[0]);
    assert("doctor"@[0] != "broker"@[0]);
    assert("backend"@[0] != "refresh"@[0]);
    assert("backend"@[0] != "restart"@[0]);
    assert("ping"@[0] != "stop"@[0]);
    assert("ping"@[0] != "list"@[0]);
    assert("refresh"@[2] != "restart"@[2]);
    assert("stop"@[0] != "list"@[0]);
    assert("backend.status"@[1] != "broker.restart"@[1]);
    assert("backend.ping"@[8] != "backend.stop"@[8]);
    assert("backend.refresh"@[10] != "backend.restart"@[10]);
    assert("broker.list"@[7] != "broker.stop"@[7]);
}

/// A positive number of seconds.
pub open spec fn is_secs(word: Seq<char>) -> bool {
    unsigned_value(word, u64::MAX as nat) matches Some(n) && n > 0
}

proof fn lemma_number_is_no_option(word: Seq<char>)
    requires
        is_secs(word),
    ensures
        word.len() > 0,
        word[0] != '-',
        !"-"@.is_prefix_of(word),
{
    reveal_strlit("-");
    let digits = crate::text::unsigned_digits(word);
    lemma_digits(digits);
    if word[0] != '+' {
        assert(digits[0] == word[0]);
    }
    if "-"@.is_prefix_of(word) {
        assert(word.subrange(0, 1)[0] == "-"@[0]);
    }
}

proof fn lemma_digits(digits: Seq<char>)
    requires
        crate::text::digits_value(digits) is Some,
    ensures
        forall|i: int|
            0 <= i < digits.len() ==> crate::text::digit_value(#[trigger] digits[i]) is Some,
    decreases digits.len(),
{
    if digits.len() > 0 {
        lemma_digits(digits.drop_last());
        assert forall|i: int| 0 <= i < digits.len() implies crate::text::digit_value(
            #[trigger] digits[i],
        ) is Some by {
            if i < digits.len() - 1 {
                assert(digits.drop_last()[i] == digits[i]);
            }
        }
    }
}

proof fn lemma_option_words()
    ensures
        "-"@.is_prefix_of("--"@) && "-"@.is_prefix_of("--json"@) && "-"@.is_prefix_of("--start"@)
            && "-"@.is_prefix_of("--force"@) && "-"@.is_prefix_of("--init-timeout"@)
            && "-"@.is_prefix_of("--daemon"@),
        "--"@ != "--json"@ && "--"@ != "--start"@ && "--"@ != "--force"@ && "--"@
            != "--init-timeout"@,
        "--json"@ != "--start"@ && "--json"@ != "--force"@ && "--json"@ != "--init-timeout"@,
        "--start"@ != "--force"@ && "--start"@ != "--init-timeout"@ && "--force"@
            != "--init-timeout"@,
        "--daemon"@ != "--init-timeout"@,
{
    reveal_strlit("-");
    reveal_strlit("--");
    reveal_strlit("--json");
    reveal_strlit("--start");
    reveal_strlit("--force");
    reveal_strlit("--init-timeout");
    reveal_strlit("--daemon");
    assert("-"@.len() == 1);
    assert("--"@.len() == 2);
    assert("--json"@.len() == 6);
    assert("--start"@.len() == 7);
    assert("--force"@.len() == 7);
    assert("--init-timeout"@.len() == 14);
    assert("--daemon"@.len() == 8);
    assert("--start"@[2] != "--force"@[2]);
}

/// The part of a line from one position to another holds a word.
#[verifier::opaque]
pub open spec fn has_word(args: Seq<Seq<char>>, from: int, to: int, word: Seq<char>) -> bool {
    exists|i: int| from <= i < to && #[trigger] args[i] == word
}

/// The seconds that the last timeout option from one position to another gives, or else
/// those that held before.
#[verifier::opaque]
pub open spec fn has_secs(
    args: Seq<Seq<char>>,
    from: int,
    to: int,
    before: nat,
    secs: nat,
) -> bool {
    if has_word(args, from, to, "--init-timeout"@) {
        exists|i: int| #![trigger args[i]]
            from <= i < to && args[i] == "--init-timeout"@ && !has_word(
                args,
                i + 1,
                to,
                "--init-timeout"@,
            ) && i + 1 < args.len() && unsigned_value(args[i + 1], u64::MAX as nat) == Some(secs)
                && secs > 0
    } else {
        secs == before
    }
}

/// A word stands in a part of a line where it comes first or later.
proof fn lemma_has_word(args: Seq<Seq<char>>, from: int, to: int, word: Seq<char>)
    ensures
        from >= to ==> !has_word(args, from, to, word),
        from < to ==> has_word(args, from, to, word) == (args[from] == word || has_word(
            args,
            from + 1,
            to,
            word,
        )),
{
    reveal(has_word);
}

proof fn lemma_no_secs(args: Seq<Seq<char>>, from: int, before: nat)
    ensures
        has_secs(args, from, from, before, before),
{
    reveal(has_secs);
    lemma_has_word(args, from, from, "--init-timeout"@);
}

proof fn lemma_secs_later(args: Seq<Seq<char>>, from: int, to: int, before: nat, secs: nat)
    requires
        from < to,
        args[from] != "--init-timeout"@,
        has_secs(args, from + 1, to, before, secs),
    ensures
        has_secs(args, from, to, before, secs),
{
    reveal(has_secs);
    lemma_has_word(args, from, to, "--init-timeout"@);
}

proof fn lemma_secs_here(
    args: Seq<Seq<char>>,
    from: int,
    to: int,
    before: nat,
    here: nat,
    secs: nat,
)
    requires
        0 <= from,
        from + 2 <= to <= args.len(),
        args[from] == "--init-timeout"@,
        args[from + 1] != "--init-timeout"@,
        unsigned_value(args[from + 1], u64::MAX as nat) == Some(here),
        here > 0,
        has_secs(args, from + 2, to, here, secs),
    ensures
        has_secs(args, from, to, before, secs),
{
    reveal(has_secs);
    lemma_has_word(args, from, to, "--init-timeout"@);
    lemma_has_word(args, from + 1, to, "--init-timeout"@);
    if has_word(args, from + 2, to, "--init-timeout"@) {
        let i = choose|i: int| #![trigger args[i]]
            from + 2 <= i < to && args[i] == "--init-timeout"@ && !has_word(
                args,
                i + 1,
                to,
                "--init-timeout"@,
            ) && i + 1 < args.len() && unsigned_value(args[i + 1], u64::MAX as nat) == Some(secs)
                && secs > 0;
        assert(args[i] == "--init-timeout"@);
    } else {
        assert(args[from] == "--init-timeout"@);
    }
}

proof fn lemma_admin_options(args: Seq<Seq<char>>, i: int, o: OptionsView)
    requires
        0 <= i <= args.len(),
        admin_options(args, i, o) is Ok,
    ensures
        ({
            let (options, separator) = admin_options(args, i, o)->Ok_0;
            let end = if separator is Some {
                separator->0
            } else {
                args.len() as int
            };
            &&& i <= end <= args.len()
            &&& separator is Some ==> end < args.len() && args[end] == "--"@
            &&& !has_word(args, i, end, "--"@)
            &&& options.output_json == (o.output_json || has_word(args, i, end, "--json"@))
            &&& options.start == (o.start || has_word(args, i, end, "--start"@))
            &&& options.force == (o.force || has_word(args, i, end, "--force"@))
            &&& has_secs(args, i, end, o.secs, options.secs)
        }),
    decreases args.len() - i,
{
    lemma_option_words();
    let (options, separator) = admin_options(args, i, o)->Ok_0;
    let end = if separator is Some {
        separator->0
    } else {
        args.len() as int
    };
    let words = seq!["--"@, "--json"@, "--start"@, "--force"@];
    assert(words[0] == "--"@ && words[1] == "--json"@ && words[2] == "--start"@ && words[3]
        == "--force"@);
    assert forall|k: int| 0 <= k < 4 implies #[trigger] has_word(args, i, end, words[k]) == (i
        < end && (args[i] == words[k] || has_word(args, i + 1, end, words[k]))) by {
        lemma_has_word(args, i, end, words[k]);
    }
    if i >= args.len() || args[i] == "--"@ {
        lemma_no_secs(args, i, o.secs);
    } else if args[i] == "--init-timeout"@ {
        let secs = secs_view(arg_at(args, i + 1), "--init-timeout"@)->Ok_0;
        lemma_number_is_no_option(args[i + 1]);
        lemma_admin_options(args, i + 2, OptionsView { secs, ..o });
        lemma_secs_here(args, i, end, o.secs, secs, options.secs);
        assert forall|k: int| 0 <= k < 4 implies #[trigger] has_word(args, i, end, words[k])
            == has_word(args, i + 2, end, words[k]) by {
            lemma_has_word(args, i + 1, end, words[k]);
        }
    } else {
        let next = if args[i] == "--json"@ {
            OptionsView { output_json: true, ..o }
        } else if args[i] == "--start"@ {
            OptionsView { start: true, ..o }
        } else {
            OptionsView { force: true, ..o }
        };
        lemma_admin_options(args, i + 1, next);
        lemma_secs_later(args, i, end, o.secs, options.secs);
    }
    assert(has_word(args, i, end, words[0]) == has_word(args, i, end, "--"@));
    assert(has_word(args, i, end, words[1]) == has_word(args, i, end, "--json"@));
    assert(has_word(args, i, end, words[2]) == has_word(args, i, end, "--start"@));
    assert(has_word(args, i, end, words[3]) == has_word(args, i, end, "--force"@));
}

/// An accepted administration line is read word by word: the first separator ends the
/// options, each option holds exactly where it stands before the separator, the last
/// timeout counts, and the command is what follows the separator.
pub proof fn law_admin_options_hold_where_they_stand(args: Seq<Seq<char>>, end: int)
    requires
        cli_view(args) matches Ok(mode) && mode is Admin,
        2 <= end <= args.len(),
        !has_word(args, 2, end, "--"@),
        end < args.len() ==> args[end] == "--"@,
    ensures
        cli_view(args) matches Ok(ModeView::Admin { action, options, target }) && {
            &&& options.output_json == has_word(args, 2, end, "--json"@)
            &&& options.start == has_word(args, 2, end, "--start"@)
            &&& options.force == has_word(args, 2, end, "--force"@)
            &&& has_secs(args, 2, end, 30, options.secs)
            &&& end == args.len() ==> target is None
            &&& end < args.len() ==> end + 1 < args.len() && target == Some(
                TargetView {
                    cmd: args[end + 1],
                    args: args.subrange(end + 2, args.len() as int),
                },
            )
        },
{
    lemma_option_words();
    let (action, at) = admin_action(args)->Ok_0;
    lemma_admin_options(args, at, no_options());
    if at == 3 {
        reveal_strlit("--");
        reveal_strlit("--json");
        reveal_strlit("--start");
        reveal_strlit("--force");
        reveal_strlit("--init-timeout");
        reveal_strlit("status");
        reveal_strlit("ping");
        reveal_strlit("refresh");
        reveal_strlit("restart");
        reveal_strlit("stop");
        reveal_strlit("list");
        assert("--"@.len() == 2);
        assert("--json"@.len() == 6);
        assert("--start"@.len() == 7);
        assert("--force"@.len() == 7);
        assert("--init-timeout"@.len() == 14);
        assert("status"@.len() == 6);
        assert("ping"@.len() == 4);
        assert("refresh"@.len() == 7);
        assert("restart"@.len() == 7);
        assert("stop"@.len() == 4);
        assert("list"@.len() == 4);
        assert("--json"@[0] != "status"@[0]);
        assert("--start"@[2] != "--force"@[2]);
        assert("--start"@[0] != "refresh"@[0]);
        assert("--start"@[0] != "restart"@[0]);
        assert("--force"@[0] != "refresh"@[0]);
        assert("--force"@[0] != "restart"@[0]);
        assert("ping"@[0] != "stop"@[0]);
        assert("ping"@[0] != "list"@[0]);
        assert("refresh"@[2] != "restart"@[2]);
        assert("stop"@[0] != "list"@[0]);
        assert(args[2] != "--"@ && args[2] != "--json"@ && args[2] != "--start"@ && args[2]
            != "--force"@ && args[2] != "--init-timeout"@);
        assert(end >= 3) by {
            reveal(has_word);
        }
    }
    let (options, separator) = admin_options(args, at, no_options())->Ok_0;
    let found = if separator is Some {
        separator->0
    } else {
        args.len() as int
    };
    assert(found == end) by {
        reveal(has_word);
        if found < end {
            assert(args[found] == "--"@);
        }
        if end < found {
            assert(args[end] == "--"@);
        }
    }
    if at == 3 {
        lemma_has_word(args, 2, end, "--json"@);
        lemma_has_word(args, 2, end, "--start"@);
        lemma_has_word(args, 2, end, "--force"@);
        lemma_secs_later(args, 2, end, 30, options.secs);
    }
}

/// Whether the words from one position to another are options that stand alone, or
/// timeouts with their seconds.
pub open spec fn are_options(
    args: Seq<Seq<char>>,
    from: int,
    to: int,
    alone: Set<Seq<char>>,
) -> bool {
    forall|i: int|
        from <= i < to ==> {
            ||| alone.contains(#[trigger] args[i])
            ||| args[i] == "--init-timeout"@ && i + 1 < to && is_secs(args[i + 1])
            ||| from < i && args[i - 1] == "--init-timeout"@ && is_secs(args[i])
        }
}

proof fn lemma_admin_options_accepted(args: Seq<Seq<char>>, i: int, end: int, o: OptionsView)
    requires
        0 <= i <= end <= args.len(),
        end < args.len() ==> args[end] == "--"@,
        are_options(args, i, end, set!["--json"@, "--start"@, "--force"@]),
    ensures
        admin_options(args, i, o) matches Ok((options, separator)) && separator == if end
            < args.len() {
            Some(end)
        } else {
            None
        },
    decreases end - i,
{
    lemma_option_words();
    if i < end {
        let flags = set!["--json"@, "--start"@, "--force"@];
        assert(flags.contains(args[i]) || args[i] == "--init-timeout"@);
        if args[i] == "--init-timeout"@ {
            lemma_number_is_no_option(args[i + 1]);
            let secs = secs_view(arg_at(args, i + 1), "--init-timeout"@)->Ok_0;
            lemma_admin_options_accepted(args, i + 2, end, OptionsView { secs, ..o });
        } else if args[i] == "--json"@ {
            lemma_admin_options_accepted(args, i + 1, end, OptionsView { output_json: true, ..o });
        } else if args[i] == "--start"@ {
            lemma_admin_options_accepted(args, i + 1, end, OptionsView { start: true, ..o });
        } else {
            lemma_admin_options_accepted(args, i + 1, end, OptionsView { force: true, ..o });
        }
    }
}

/// A line that names an action, has only options that it takes before its separator, and
/// has a command after it, is accepted: all but `broker list` take a command, only
/// `backend restart` takes `--force`, and all but `backend stop` take `--start`.
pub proof fn law_admin_lines_are_accepted(
    action: AdminAction,
    program: Seq<char>,
    group: Seq<char>,
    sub: Option<Seq<char>>,
    options: Seq<Seq<char>>,
    after: Seq<Seq<char>>,
)
    requires
        match sub {
            Some(sub) => (group == "backend"@ || group == "broker"@) && action_name(action)
                == group + "."@ + sub,
            None => (group == "status"@ || group == "doctor"@) && action_name(action) == group,
        },
        are_options(
            options,
            0,
            options.len() as int,
            set!["--json"@, "--start"@, "--force"@],
        ),
        action == AdminAction::BackendStop ==> !options.contains("--start"@),
        action != AdminAction::BackendRestart ==> !options.contains("--force"@),
        action == AdminAction::BrokerList ==> after.len() == 0,
        action != AdminAction::BrokerList ==> after.len() >= 2 && after[0] == "--"@,
    ensures
        cli_view(admin_line(program, group, sub, options + after)) matches Ok(mode) && mode
            is Admin && mode->action == action,
{
    lemma_action_words();
    lemma_front_words();
    lemma_option_words();
    let line = admin_line(program, group, sub, options + after);
    let at = if sub is Some {
        3int
    } else {
        2int
    };
    let end = at + options.len();
    assert(line[1] == group);
    if let Some(word) = sub {
        assert(line[2] == word);
        lemma_sub_words(group, word, action);
    } else {
        lemma_lone_words(action);
    }
    assert(admin_action(line) == Ok::<(AdminAction, int), Seq<char>>((action, at)));
    assert forall|i: int| 0 <= i < options.len() implies #[trigger] line[at + i] == options[i] by {}
    assert(end < line.len() ==> line[end] == after[0]);
    assert(are_options(line, at, end, set!["--json"@, "--start"@, "--force"@])) by {
        assert forall|i: int| at <= i < end implies {
            ||| set!["--json"@, "--start"@, "--force"@].contains(#[trigger] line[i])
            ||| line[i] == "--init-timeout"@ && i + 1 < end && is_secs(line[i + 1])
            ||| at < i && line[i - 1] == "--init-timeout"@ && is_secs(line[i])
        } by {
            assert(line[at + (i - at)] == options[i - at]);
            if i + 1 < end {
                assert(line[at + (i + 1 - at)] == options[i + 1 - at]);
            }
            if at < i {
                assert(line[at + (i - 1 - at)] == options[i - 1 - at]);
            }
        }
    }
    lemma_admin_options_accepted(line, at, end, no_options());
    lemma_admin_options(line, at, no_options());
    reveal(has_word);
    if has_word(line, at, end, "--start"@) {
        let i = choose|i: int| at <= i < end && #[trigger] line[i] == "--start"@;
        assert(line[at + (i - at)] == options[i - at]);
    }
    if has_word(line, at, end, "--force"@) {
        let i = choose|i: int| at <= i < end && #[trigger] line[i] == "--force"@;
        assert(line[at + (i - at)] == options[i - at]);
    }
}

proof fn lemma_proxy_options(args: Seq<Seq<char>>, i: int, daemon: bool, secs: nat)
    requires
        0 <= i <= args.len(),
        proxy_options(args, i, daemon, secs) is Ok,
    ensures
        ({
            let (found, time, at) = proxy_options(args, i, daemon, secs)->Ok_0;
            &&& i <= at <= args.len()
            &&& at < args.len() ==> !"-"@.is_prefix_of(args[at])
            &&& are_options(args, i, at, set!["--daemon"@])
            &&& found == (daemon || has_word(args, i, at, "--daemon"@))
            &&& has_secs(args, i, at, secs, time)
        }),
    decreases args.len() - i,
{
    lemma_option_words();
    let (found, time, at) = proxy_options(args, i, daemon, secs)->Ok_0;
    lemma_has_word(args, i, at, "--daemon"@);
    lemma_has_word(args, i + 1, at, "--daemon"@);
    if i < args.len() && args[i] == "--daemon"@ {
        lemma_proxy_options(args, i + 1, true, secs);
        lemma_secs_later(args, i, at, secs, time);
    } else if i < args.len() && args[i] == "--init-timeout"@ {
        let next = secs_view(arg_at(args, i + 1), "--init-timeout"@)->Ok_0;
        lemma_number_is_no_option(args[i + 1]);
        lemma_proxy_options(args, i + 2, daemon, next);
        lemma_secs_here(args, i, at, secs, next, time);
    } else {
        lemma_no_secs(args, i, secs);
    }
}

/// An accepted proxy line has options, and then the command with all its arguments, as
/// they stand. It asks for a daemon exactly where `--daemon` is among the options, and
/// the last timeout counts.
pub proof fn law_proxy_line_is_options_and_a_command(args: Seq<Seq<char>>)
    requires
        cli_view(args) matches Ok(mode) && mode is Proxy,
    ensures
        cli_view(args) matches Ok(ModeView::Proxy { daemon, secs, command }) && exists|at: int|
            #![trigger args[at]]
            {
                &&& 1 <= at < args.len()
                &&& command.cmd == args[at]
                &&& command.args == args.subrange(at + 1, args.len() as int)
                &&& !"-"@.is_prefix_of(args[at])
                &&& are_options(args, 1, at, set!["--daemon"@])
                &&& daemon == has_word(args, 1, at, "--daemon"@)
                &&& has_secs(args, 1, at, 30, secs)
            },
{
    lemma_proxy_options(args, 1, false, 30);
    let (daemon, secs, at) = proxy_options(args, 1, false, 30)->Ok_0;
    assert(args[at] == cli_view(args)->Ok_0->command.cmd);
}

proof fn lemma_proxy_options_accepted(
    args: Seq<Seq<char>>,
    i: int,
    at: int,
    daemon: bool,
    secs: nat,
)
    requires
        0 <= i <= at < args.len(),
        !"-"@.is_prefix_of(args[at]),
        are_options(args, i, at, set!["--daemon"@]),
    ensures
        proxy_options(args, i, daemon, secs) matches Ok((found, time, end)) && end == at,
    decreases at - i,
{
    lemma_option_words();
    if i < at {
        assert(set!["--daemon"@].contains(args[i]) || args[i] == "--init-timeout"@);
        if args[i] == "--init-timeout"@ {
            lemma_number_is_no_option(args[i + 1]);
            let next = secs_view(arg_at(args, i + 1), "--init-timeout"@)->Ok_0;
            lemma_proxy_options_accepted(args, i + 2, at, daemon, next);
        } else {
            lemma_proxy_options_accepted(args, i + 1, at, true, secs);
        }
    }
}

/// A line of options and a command is accepted as a proxy line, with that command.
pub proof fn law_proxy_lines_are_accepted(args: Seq<Seq<char>>, at: int)
    requires
        1 <= at < args.len(),
        !"-"@.is_prefix_of(args[at]),
        are_options(args, 1, at, set!["--daemon"@]),
        args[1] != "status"@ && args[1] != "doctor"@ && args[1] != "backend"@ && args[1]
            != "broker"@,
    ensures
        cli_view(args) matches Ok(mode) && mode is Proxy && mode->command == (TargetView {
            cmd: args[at],
            args: args.subrange(at + 1, args.len() as int),
        }),
{
    lemma_front_words();
    lemma_proxy_options_accepted(args, 1, at, false, 30);
    if at > 1 {
        assert(set!["--daemon"@].contains(args[1]) || args[1] == "--init-timeout"@);
    } else {
        reveal_strlit("-");
        reveal_strlit("--version");
        reveal_strlit("-V");
        reveal_strlit("--help");
        reveal_strlit("-h");
        reveal_strlit("--broker-internal");
        assert("-"@.len() == 1);
        assert("--version"@.len() == 9);
        assert("-V"@.len() == 2);
        assert("--help"@.len() == 6);
        assert("-h"@.len() == 2);
        assert("--broker-internal"@.len() == 17);
        assert("-V"@[1] != "-h"@[1]);
        assert("-"@.is_prefix_of("--version"@));
        assert("-"@.is_prefix_of("-V"@));
        assert("-"@.is_prefix_of("--help"@));
        assert("-"@.is_prefix_of("-h"@));
        assert("-"@.is_prefix_of("--broker-internal"@));
    }
}

/// The version, the help and the line of a broker are asked for by their own first word,
/// and by nothing else.
pub proof fn law_first_word_of_other_lines(args: Seq<Seq<char>>)
    ensures
        cli_view(args) == Ok::<ModeView, Seq<char>>(ModeView::Version) <==> args.len() >= 2 && (
        args[1] == "--version"@ || args[1] == "-V"@),
        cli_view(args) == Ok::<ModeView, Seq<char>>(ModeView::Help) <==> args.len() >= 2 && (args[1]
            == "--help"@ || args[1] == "-h"@),
        (cli_view(args) matches Ok(mode) && mode is BrokerInternal) <==> args.len() >= 2 && args[1]
            == "--broker-internal"@,
        (cli_view(args) matches Ok(ModeView::BrokerInternal(words)) ==> words == args.subrange(
            2,
            args.len() as int,
        )),
        (cli_view(args) matches Ok(mode) && mode is Admin) ==> args.len() >= 2 && is_admin_word(
            args[1],
        ),
        (cli_view(args) matches Ok(mode) && mode is Proxy) ==> args.len() >= 2 && !is_admin_word(
            args[1],
        ),
        args.len() < 2 ==> cli_view(args) is Err,
{
    lemma_front_words();
}

/// All actions but the list of brokers are about one command.
pub proof fn law_only_the_list_of_brokers_is_about_no_command(action: AdminAction, needed: bool)
    requires
        call_ensures(AdminAction::requires_target, (action,), needed),
    ensures
        needed == (action_name(action) != "broker"@ + "."@ + "list"@),
{
    reveal_strlit("status");
    reveal_strlit("doctor");
    reveal_strlit("backend");
    reveal_strlit("broker");
    reveal_strlit("ping");
    reveal_strlit("refresh");
    reveal_strlit("restart");
    reveal_strlit("stop");
    reveal_strlit("list");
    reveal_strlit(".");
    reveal_strlit("backend.status");
    reveal_strlit("backend.ping");
    reveal_strlit("backend.refresh");
    reveal_strlit("backend.restart");
    reveal_strlit("backend.stop");
    reveal_strlit("broker.list");
    reveal_strlit("broker.status");
    reveal_strlit("broker.stop");
    reveal_strlit("broker.restart");
    assert("status"@.len() == 6);
    assert("doctor"@.len() == 6);
    assert("backend"@.len() == 7);
    assert("broker"@.len() == 6);
    assert("ping"@.len() == 4);
    assert("refresh"@.len() == 7);
    assert("restart"@.len() == 7);
    assert("stop"@.len() == 4);
    assert("list"@.len() == 4);
    assert("."@.len() == 1);
    assert("backend.status"@.len() == 14);
    assert("backend.ping"@.len() == 12);
    assert("backend.refresh"@.len() == 15);
    assert("backend.restart"@.len() == 15);
    assert("backend.stop"@.len() == 12);
    assert("broker.list"@.len() == 11);
    assert("broker.status"@.len() == 13);
    assert("broker.stop"@.len() == 11);
    assert("broker.restart"@.len() == 14);
    assert("status"@[0] != "doctor"@[0]);
    assert("status"@[0] != "broker"@[0]);
    assert("doctor"@[0] != "broker"@[0]);
    assert("backend"@[0] != "refresh"@[0]);
    assert("backend"@[0] != "restart"@[0]);
    assert("ping"@[0] != "stop"@[0]);
    assert("ping"@[0] != "list"@[0]);
    assert("refresh"@[2] != "restart"@[2]);
    assert("stop"@[0] != "list"@[0]);
    assert("backend.status"@[1] != "broker.restart"@[1]);
    assert("backend.ping"@[8] != "backend.stop"@[8]);
    assert("backend.refresh"@[10] != "backend.restart"@[10]);
    assert("broker.list"@[7] != "broker.stop"@[7]);
    lemma_action_words();
}

/// A parsed administration line has the action that its words name, its options hold
/// where they stand before the separator, and its command is what follows that.
pub proof fn law_parsed_admin_line(args: Vec<String>, r: Result<CliMode, CliError>, end: int)
    requires
        call_ensures(parse, (args,), r),
        r matches Ok(mode) && mode is Admin,
        2 <= end <= args@.len(),
        !has_word(texts(args@), 2, end, "--"@),
        end < args@.len() ==> args@[end]@ == "--"@,
    ensures
        r matches Ok(CliMode::Admin(a)) && {
            let words = texts(args@);
            &&& words[1] == "status"@ || words[1] == "doctor"@ || words[1] == "backend"@
                || words[1] == "broker"@
            &&& words[1] == "status"@ || words[1] == "doctor"@ ==> action_name(a.action)
                == words[1]
            &&& words[1] == "backend"@ || words[1] == "broker"@ ==> words.len() >= 3
                && action_name(a.action) == words[1] + "."@ + words[2]
            &&& a.output_json == has_word(words, 2, end, "--json"@)
            &&& a.start == has_word(words, 2, end, "--start"@)
            &&& a.force == has_word(words, 2, end, "--force"@)
            &&& !has_word(words, 2, end, "--init-timeout"@) ==> nanos(a.init_timeout)
                == 30_000_000_000
            &&& a.target is Some <==> end < words.len()
            &&& (a.target matches Some(target) ==> end + 1 < words.len() && target.cmd@
                == words[end + 1] && texts(target.args@) == words.subrange(
                end + 2,
                words.len() as int,
            ))
        },
{
    let words = texts(args@);
    law_admin_line_asks_for_what_it_names(words);
    if end < args@.len() {
        assert(words[end] == args@[end]@);
    }
    law_admin_options_hold_where_they_stand(words, end);
    reveal(has_secs);
}

/// Every action can be asked for on a line, by its group and its command or by its name,
/// with the command that it is about after the separator.
pub proof fn law_every_action_can_be_parsed(
    action: AdminAction,
    program: Seq<char>,
    group: Seq<char>,
    sub: Option<Seq<char>>,
    command: TargetView,
    args: Vec<String>,
    r: Result<CliMode, CliError>,
)
    requires
        match sub {
            Some(sub) => (group == "backend"@ || group == "broker"@) && action_name(action)
                == group + "."@ + sub,
            None => (group == "status"@ || group == "doctor"@) && action_name(action) == group,
        },
        texts(args@) == if action == AdminAction::BrokerList {
            admin_line(program, group, sub, Seq::empty())
        } else {
            admin_line(program, group, sub, seq!["--"@, command.cmd] + command.args)
        },
        call_ensures(parse, (args,), r),
    ensures
        r matches Ok(CliMode::Admin(a)) && {
            &&& a.action == action
            &&& !a.output_json && !a.start && !a.force
            &&& nanos(a.init_timeout) == 30_000_000_000
            &&& a.target is Some <==> action != AdminAction::BrokerList
            &&& (a.target matches Some(target) ==> target.cmd@ == command.cmd && texts(
                target.args@,
            ) == command.args)
        },
{
    law_every_action_can_be_asked_for(action, program, group, sub, command);
}

/// A parsed proxy line has options and then the command with its arguments, as they
/// stand.
pub proof fn law_parsed_proxy_line(args: Vec<String>, r: Result<CliMode, CliError>)
    requires
        call_ensures(parse, (args,), r),
        r matches Ok(mode) && mode is Proxy,
    ensures
        r matches Ok(CliMode::Proxy(p)) && exists|at: int| #![trigger texts(args@)[at]]
            {
                let words = texts(args@);
                &&& 1 <= at < words.len()
                &&& p.cmd@ == words[at]
                &&& texts(p.args@) == words.subrange(at + 1, words.len() as int)
                &&& !"-"@.is_prefix_of(words[at])
                &&& are_options(words, 1, at, set!["--daemon"@])
                &&& p.daemon == has_word(words, 1, at, "--daemon"@)
                &&& !has_word(words, 1, at, "--init-timeout"@) ==> nanos(p.init_timeout)
                    == 30_000_000_000
            },
{
    let words = texts(args@);
    law_proxy_line_is_options_and_a_command(words);
    let view = cli_view(words)->Ok_0;
    let at = choose|at: int| #![trigger words[at]]
        {
            &&& 1 <= at < words.len()
            &&& view->command.cmd == words[at]
            &&& view->command.args == words.subrange(at + 1, words.len() as int)
            &&& !"-"@.is_prefix_of(words[at])
            &&& are_options(words, 1, at, set!["--daemon"@])
            &&& view->daemon == has_word(words, 1, at, "--daemon"@)
            &&& has_secs(words, 1, at, 30, view->Proxy_secs)
        };
    reveal(has_secs);
    assert(words[at] == view->command.cmd);
}

/// A line of options and a command is parsed as a proxy line for that command.
pub proof fn law_proxy_lines_are_parsed(
    args: Vec<String>,
    at: int,
    r: Result<CliMode, CliError>,
)
    requires
        call_ensures(parse, (args,), r),
        1 <= at < args@.len(),
        !"-"@.is_prefix_of(args@[at]@),
        are_options(texts(args@), 1, at, set!["--daemon"@]),
        args@[1]@ != "status"@ && args@[1]@ != "doctor"@ && args@[1]@ != "backend"@ && args@[1]@
            != "broker"@,
    ensures
        r matches Ok(CliMode::Proxy(p)) && p.cmd@ == args@[at]@ && texts(p.args@) == texts(
            args@,
        ).subrange(at + 1, args@.len() as int),
{
    let words = texts(args@);
    assert(words[at] == args@[at]@);
    assert(words[1] == args@[1]@);
    law_proxy_lines_are_accepted(words, at);
}

/// The version, the help and the line of a broker are parsed by their first word.
pub proof fn law_parsed_first_words(args: Vec<String>, r: Result<CliMode, CliError>)
    requires
        call_ensures(parse, (args,), r),
    ensures
        args@.len() < 2 ==> r is Err,
        args@.len() >= 2 && (args@[1]@ == "--version"@ || args@[1]@ == "-V"@) <==> (r matches Ok(
            mode,
        ) && mode is Version),
        args@.len() >= 2 && (args@[1]@ == "--help"@ || args@[1]@ == "-h"@) <==> (r matches Ok(mode)
            && mode is Help),
        args@.len() >= 2 && args@[1]@ == "--broker-internal"@ <==> (r matches Ok(mode) && mode
            is BrokerInternal),
        (r matches Ok(CliMode::BrokerInternal(words)) ==> texts(words@) == texts(args@).subrange(
            2,
            args@.len() as int,
        )),
{
    let words = texts(args@);
    law_first_word_of_other_lines(words);
    if args@.len() >= 2 {
        assert(words[1] == args@[1]@);
    }
}

/// A number of seconds is read where it is there, is a number, and is not zero; it is
/// refused with the name of its option otherwise.
pub proof fn law_seconds_are_positive(
    value: Option<&String>,
    flag: &str,
    r: Result<u64, CliError>,
    n: nat,
)
    requires
        call_ensures(parse_secs, (value, flag), r),
    ensures
        r is Ok <==> (value matches Some(text) && is_secs(text@)),
        (r matches Ok(secs) ==> secs > 0 && unsigned_value(value->0@, u64::MAX as nat) == Some(
            secs as nat,
        )),
        (r matches Err(e) ==> flag@.is_prefix_of(e.message@)),
        (value matches Some(text) ==> 0 < n <= u64::MAX && text@ == crate::text::decimal(n) ==> r
            == Ok::<u64, CliError>(n as u64)),
{
    if 0 < n <= u64::MAX {
        crate::text::law_decimal_reads_back(n, u64::MAX as nat);
    }
    if let Err(e) = r {
        assert(e.message@.subrange(0, flag@.len() as int) =~= flag@);
    }
}

/// The parsers of the two kinds of lines read what the parser of whole lines reads.
pub proof fn law_parsers_agree(
    args: Vec<String>,
    r: Result<CliMode, CliError>,
    admin: Result<CliMode, CliError>,
    proxy: Result<CliMode, CliError>,
    action: AdminAction,
    name: &'static str,
)
    requires
        args@.len() >= 2,
        call_ensures(parse, (args,), r),
        call_ensures(parse_admin, (&args,), admin),
        call_ensures(parse_proxy, (&args,), proxy),
        call_ensures(AdminAction::name, (action,), name),
    ensures
        is_admin_word(args@[1]@) ==> (r is Ok <==> admin is Ok) && (r matches Ok(CliMode::Admin(a))
            ==> admin matches Ok(CliMode::Admin(b)) && a.action == b.action && a.output_json
            == b.output_json && a.start == b.start && a.force == b.force),
        (r matches Ok(CliMode::Proxy(a)) ==> proxy matches Ok(CliMode::Proxy(b)) && a.daemon
            == b.daemon && a.cmd@ == b.cmd@ && texts(a.args@) == texts(b.args@)),
        name@ == action_name(action),
{
    lemma_front_words();
    assert(texts(args@)[1] == args@[1]@);
}

} // verus!
