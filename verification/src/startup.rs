//! How the program starts: its flags, its settings, its entry among the programs that run at
//! login, and the one instance that runs at a time.

use vstd::prelude::*;
use vstd::utf8::{decode_utf8, valid_utf8};

use crate::text::{
    contains, decimal_text, number_value, occurs, parse_number, same_text, trim, trimmed, utf16,
    wide,
};

verus! {

/// The time between two refreshes where none is set, in minutes.
pub const DEFAULT_REFRESH_MINS: u64 = 5;

/// `CreateMutexW`: another process has made the mutex.
pub const ERROR_ALREADY_EXISTS: u32 = 183;

/// Process flag: no console window.
pub const CREATE_NO_WINDOW: u32 = 0x0800_0000;

/// `MessageBoxW`: an error.
pub const MB_ICONERROR: u32 = 0x10;

/// `MessageBoxW`: a piece of information.
pub const MB_ICONINFORMATION: u32 = 0x40;

/// The minutes between two refreshes that a setting asks for: a number from one up, or else five.
pub open spec fn refresh_setting(setting: Option<Seq<char>>) -> u64 {
    match setting {
        Some(s) => match number_value(trimmed(s)) {
            Some(n) => if 1 <= n <= u64::MAX {
                n as u64
            } else {
                5
            },
            None => 5,
        },
        None => 5,
    }
}

/// The minutes between two refreshes, from the setting.
pub fn refresh_minutes(setting: Option<&str>) -> (mins: u64)
    ensures
        mins == refresh_setting(
            match setting {
                Some(s) => Some(s@),
                None => None,
            },
        ),
{
    match setting {
        Some(s) => match parse_number(trim(s), u64::MAX) {
            Some(n) => if n >= 1 {
                n
            } else {
                DEFAULT_REFRESH_MINS
            },
            None => DEFAULT_REFRESH_MINS,
        },
        None => DEFAULT_REFRESH_MINS,
    }
}

/// What a wait for the next refresh came to.
#[derive(Clone, Copy, Debug, PartialEq, Eq, Structural)]
pub enum Wait {
    /// A refresh was asked for.
    Asked,
    /// The time between two refreshes is over.
    Elapsed,
    /// The widget is gone.
    Gone,
}

/// Tells whether the services are asked again after a wait.
pub fn asks_again(wait: Wait) -> (yes: bool)
    ensures
        yes == (wait != Wait::Gone),
{
    match wait {
        Wait::Asked | Wait::Elapsed => true,
        Wait::Gone => false,
    }
}

/// What the program was started for.
#[derive(Debug)]
pub enum Launch {
    /// To show the widget.
    Run,
    /// To run at login from now on, or no longer.
    RunAtLogin(bool),
    /// For something that it does not know.
    Refuse(String),
}

/// What the program was started for, by its contents.
pub enum LaunchView {
    Run,
    RunAtLogin(bool),
    Refuse(Seq<char>),
}

impl View for Launch {
    type V = LaunchView;

    open spec fn view(&self) -> LaunchView {
        match self {
            Launch::Run => LaunchView::Run,
            Launch::RunAtLogin(enable) => LaunchView::RunAtLogin(*enable),
            Launch::Refuse(message) => LaunchView::Refuse(message@),
        }
    }
}

/// What an argument starts the program for.
pub open spec fn launched(flag: Option<Seq<char>>) -> LaunchView {
    match flag {
        None => LaunchView::Run,
        Some(f) => if f == "--startup"@ {
            LaunchView::RunAtLogin(true)
        } else if f == "--no-startup"@ {
            LaunchView::RunAtLogin(false)
        } else {
            LaunchView::Refuse(
                "unknown flag "@ + f + "\n\nusage: usage-widget [--startup | --no-startup]"@,
            )
        },
    }
}

/// The widget runs if and only if there is no argument. Two arguments register and remove it; every
/// other is refused, and the message names it and the two that are known.
pub proof fn law_arguments_are_told_apart(flag: Seq<char>)
    ensures
        launched(None) == LaunchView::Run,
        launched(Some(flag)) != LaunchView::Run,
        launched(Some(flag)) == LaunchView::RunAtLogin(true) <==> flag == "--startup"@,
        launched(Some(flag)) == LaunchView::RunAtLogin(false) <==> flag == "--no-startup"@,
        launched(Some(flag)) matches LaunchView::Refuse(message) ==> {
            &&& message.len() > 13 + flag.len()
            &&& message.subrange(13, 13 + flag.len() as int) == flag
            &&& occurs(message, "--startup"@)
            &&& occurs(message, "--no-startup"@)
        },
{
    reveal_strlit("--startup");
    reveal_strlit("--no-startup");
    reveal_strlit("unknown flag ");
    reveal_strlit("\n\nusage: usage-widget [--startup | --no-startup]");
    assert("--startup"@.len() != "--no-startup"@.len());
    if let LaunchView::Refuse(message) = launched(Some(flag)) {
        assert(message.subrange(13, 13 + flag.len() as int) =~= flag);
        let at: int = 13 + flag.len() as int + 23;
        assert(message.subrange(at, at + "--startup"@.len()) =~= "--startup"@);
        assert(message.subrange(at + 12, at + 12 + "--no-startup"@.len()) =~= "--no-startup"@);
    }
}

/// What the program is to do, from its first argument.
pub fn launch(flag: Option<&str>) -> (l: Launch)
    ensures
        match flag {
            None => l == Launch::Run,
            Some(f) => if f@ == "--startup"@ {
                l == Launch::RunAtLogin(true)
            } else if f@ == "--no-startup"@ {
                l == Launch::RunAtLogin(false)
            } else {
                l matches Launch::Refuse(message) && message@ == "unknown flag "@ + f@
                    + "\n\nusage: usage-widget [--startup | --no-startup]"@
            },
        },
        l@ == launched(
            match flag {
                Some(f) => Some(f@),
                None => None,
            },
        ),
{
    match flag {
        None => Launch::Run,
        Some(f) => if same_text(f, "--startup") {
            Launch::RunAtLogin(true)
        } else if same_text(f, "--no-startup") {
            Launch::RunAtLogin(false)
        } else {
            Launch::Refuse(
                "unknown flag ".to_owned().concat(f).concat(
                    "\n\nusage: usage-widget [--startup | --no-startup]",
                ),
            )
        },
    }
}

/// How the outcome of a flag is reported.
#[derive(Debug)]
pub struct Report {
    pub text: String,
    /// The icon of the message box.
    pub icon: u32,
    /// The text goes to the error output, and the program exits with status one.
    pub failed: bool,
}

/// The report of an outcome: its text, its icon, and whether it failed.
pub open spec fn reported(result: Result<Seq<char>, Seq<char>>) -> (Seq<char>, u32, bool) {
    match result {
        Ok(text) => (text, 0x40, false),
        Err(text) => (text, 0x10, true),
    }
}

/// An outcome is reported in its own words. It is a failure, with the icon of errors (16), if and
/// only if it is an error, and a piece of information (64) else.
pub proof fn law_errors_are_failures(result: Result<Seq<char>, Seq<char>>)
    ensures
        result is Ok ==> reported(result).0 == result->Ok_0,
        result is Err ==> reported(result).0 == result->Err_0,
        reported(result).2 <==> result is Err,
        reported(result).1 == 0x10 <==> result is Err,
        reported(result).1 == 0x40 <==> result is Ok,
{
}

/// Reports a flag's outcome.
pub fn finish(result: Result<String, String>) -> (r: Report)
    ensures
        match result {
            Ok(text) => r.text == text && r.icon == 0x40 && !r.failed,
            Err(text) => r.text == text && r.icon == 0x10 && r.failed,
        },
        (r.text@, r.icon, r.failed) == reported(message(result)),
{
    match result {
        Ok(text) => Report { text, icon: MB_ICONINFORMATION, failed: false },
        Err(text) => Report { text, icon: MB_ICONERROR, failed: true },
    }
}

/// How the system answered the request for the mutex of the single instance.
#[derive(Clone, Copy, Debug, PartialEq, Eq, Structural)]
pub enum MutexReply {
    /// The platform has no such mutex.
    Unsupported,
    /// The handle, zero on failure, and the error that was set.
    Created { handle: isize, last_error: u32 },
}

/// The name of the mutex, for the system: each login session has its own.
pub fn instance_name() -> (name: Vec<u16>)
    ensures
        name@ == utf16("Local\\usage-widget-single-instance"@).push(0),
{
    wide("Local\\usage-widget-single-instance")
}

/// Tells whether a process that was answered so is the single instance.
pub open spec fn claims(reply: MutexReply) -> bool {
    match reply {
        MutexReply::Unsupported => true,
        MutexReply::Created { handle, last_error } => handle == 0 || last_error != 183,
    }
}

/// Tells whether this process may run as the single instance: false if another already holds the
/// mutex. Where the mutex cannot be had at all, the process runs.
pub fn claim_single_instance(reply: MutexReply) -> (claimed: bool)
    ensures
        claimed == claims(reply),
{
    match reply {
        MutexReply::Unsupported => true,
        MutexReply::Created { handle, last_error } => handle == 0 || last_error
            != ERROR_ALREADY_EXISTS,
    }
}

/// A process is refused if and only if it got a handle and the error that says that the mutex exists
/// (183): it runs where there is no such mutex, and where none could be made.
pub proof fn law_refused_only_if_held(reply: MutexReply)
    ensures
        !claims(reply) <==> (reply matches MutexReply::Created { handle, last_error } && handle != 0
            && last_error == 183),
{
}

/// What happens to the processes of this program in a login session.
pub enum SessionEvent {
    /// A process asks for the mutex and is answered. It leaves the handle open.
    Asked { process: u32, reply: MutexReply },
    /// A process ends, and the system closes its handle.
    Ended { process: u32 },
}

/// The processes that have asked for the mutex and not ended, each with whether it is the single
/// instance.
pub open spec fn alive(events: Seq<SessionEvent>) -> Map<u32, bool>
    decreases events.len(),
{
    if events.len() == 0 {
        Map::empty()
    } else {
        let before = alive(events.drop_last());
        match events.last() {
            SessionEvent::Asked { process, reply } => before.insert(process, claims(reply)),
            SessionEvent::Ended { process } => before.remove(process),
        }
    }
}

/// Tells whether the system answers as it does for a named mutex that it can make: with a handle,
/// and with the error that says that the mutex exists if and only if a process has it open.
pub open spec fn named_mutex(reply: MutexReply, open: bool) -> bool {
    reply matches MutexReply::Created { handle, last_error } && handle != 0 && (last_error == 183
        <==> open)
}

/// Tells whether these events can happen in a login session: a process asks once in its life, and
/// is answered as for a named mutex that stays open in each process until it ends.
pub open spec fn session(events: Seq<SessionEvent>) -> bool
    decreases events.len(),
{
    events.len() > 0 ==> {
        let before = alive(events.drop_last());
        &&& session(events.drop_last())
        &&& match events.last() {
            SessionEvent::Asked { process, reply } => !before.contains_key(process) && named_mutex(
                reply,
                exists|p: u32| before.contains_key(p),
            ),
            SessionEvent::Ended { process } => before.contains_key(process),
        }
    }
}

/// At most one living process of a login session is the single instance.
pub proof fn law_at_most_one_instance(events: Seq<SessionEvent>, p: u32, q: u32)
    requires
        session(events),
        alive(events).contains_key(p) && alive(events)[p],
        alive(events).contains_key(q) && alive(events)[q],
    ensures
        p == q,
    decreases events.len(),
{
    if events.len() > 0 {
        let before = alive(events.drop_last());
        if before.contains_key(p) && before.contains_key(q) && before[p] && before[q] {
            law_at_most_one_instance(events.drop_last(), p, q);
        }
    }
}

/// A process that asks is the single instance if and only if no process that asked before it is
/// still alive. So it is refused while the single instance lives, and not once all have ended.
pub proof fn law_instance_if_alone(events: Seq<SessionEvent>, process: u32, reply: MutexReply)
    requires
        session(events.push(SessionEvent::Asked { process, reply })),
    ensures
        claims(reply) <==> forall|p: u32| !alive(events).contains_key(p),
        alive(events.push(SessionEvent::Asked { process, reply })) == alive(events).insert(
            process,
            claims(reply),
        ),
{
    assert(events.push(SessionEvent::Asked { process, reply }).drop_last() =~= events);
}

/// A process keeps what it was answered for its whole life: only its own end takes it away.
pub proof fn law_claim_lasts(events: Seq<SessionEvent>, event: SessionEvent, p: u32)
    requires
        session(events.push(event)),
        alive(events).contains_key(p),
        event != (SessionEvent::Ended { process: p }),
    ensures
        alive(events.push(event)).contains_key(p),
        alive(events.push(event))[p] == alive(events)[p],
{
    assert(events.push(event).drop_last() =~= events);
}

/// The program that opens a link in the default browser, where that is a program.
pub fn opener(macos: bool) -> (program: &'static str)
    ensures
        program@ == if macos {
            "open"@
        } else {
            "xdg-open"@
        },
{
    if macos {
        "open"
    } else {
        "xdg-open"
    }
}

/// What has happened on the way to running at login, or to no longer doing so.
#[derive(Debug)]
pub enum LoginEvent {
    /// It was asked for.
    Begin,
    /// The path of this program was looked up.
    ExePath(Result<String, String>),
    /// The registry tool could not be run.
    NotRun(String),
    /// The registry tool has run.
    Exited { success: bool, stderr: Vec<u8> },
}

/// What to do next.
#[derive(Debug)]
pub enum LoginStep {
    /// Look up the path of this program.
    FindExe,
    /// Run the registry tool with these arguments.
    RunReg(Vec<String>),
    Done(Result<String, String>),
}

/// What to do next, by its contents.
pub enum LoginStepView {
    FindExe,
    RunReg(Seq<Seq<char>>),
    Done(Result<Seq<char>, Seq<char>>),
}

/// The arguments of a command, by their contents.
pub open spec fn texts(args: Seq<String>) -> Seq<Seq<char>> {
    args.map_values(|a: String| a@)
}

/// A message, by its contents.
pub open spec fn message(result: Result<String, String>) -> Result<Seq<char>, Seq<char>> {
    match result {
        Ok(s) => Ok(s@),
        Err(s) => Err(s@),
    }
}

impl View for LoginStep {
    type V = LoginStepView;

    open spec fn view(&self) -> LoginStepView {
        match self {
            LoginStep::FindExe => LoginStepView::FindExe,
            LoginStep::RunReg(args) => LoginStepView::RunReg(texts(args@)),
            LoginStep::Done(result) => LoginStepView::Done(message(*result)),
        }
    }
}

/// The text that bytes spell in UTF-8, with what is no UTF-8 replaced.
pub uninterp spec fn lossy_utf8(bytes: Seq<u8>) -> Seq<char>;

/// `String::from_utf8_lossy`: bytes that are valid UTF-8 are decoded as they are. What stands in
/// for others is left to the name.
#[verifier::external_body]
fn from_utf8_lossy(bytes: &[u8]) -> (text: String)
    ensures
        text@ == lossy_utf8(bytes@),
        valid_utf8(bytes@) ==> text@ == decode_utf8(bytes@),
{
    String::from_utf8_lossy(bytes).into_owned()
}

/// The registry key of the programs that run at login.
pub open spec fn run_key() -> Seq<char> {
    "HKCU\\Software\\Microsoft\\Windows\\CurrentVersion\\Run"@
}

/// A path as a command: in quotes if it holds a space.
pub open spec fn command(exe: Seq<char>) -> Seq<char> {
    if exe.contains(' ') {
        "\""@ + exe + "\""@
    } else {
        exe
    }
}

/// The arguments that register a program.
pub open spec fn add_args(exe: Seq<char>) -> Seq<Seq<char>> {
    seq![
        "add"@,
        run_key(),
        "/v"@,
        "usage-widget"@,
        "/t"@,
        "REG_SZ"@,
        "/d"@,
        command(exe),
        "/f"@,
    ]
}

/// The arguments that remove it.
pub open spec fn delete_args() -> Seq<Seq<char>> {
    seq!["delete"@, run_key(), "/v"@, "usage-widget"@, "/f"@]
}

/// What is said once the registry tool has run; `stderr` is what it wrote. That there was nothing
/// to remove is no error.
pub open spec fn reg_message(enable: bool, success: bool, stderr: Seq<char>) -> Result<
    Seq<char>,
    Seq<char>,
> {
    if !success {
        if !enable && occurs(trimmed(stderr), "unable to find"@) {
            Ok("usage-widget was not registered to run at login."@)
        } else {
            Err("reg.exe failed: "@ + trimmed(stderr))
        }
    } else if enable {
        Ok(
            "usage-widget will start at login.\n\nRun `usage-widget --no-startup` to undo."@,
        )
    } else {
        Ok("usage-widget will no longer start at login."@)
    }
}

/// What is said once the registry tool has run.
pub fn reg_outcome(enable: bool, success: bool, stderr: &str) -> (r: Result<String, String>)
    ensures
        message(r) == reg_message(enable, success, stderr@),
{
    if !success {
        let error = trim(stderr);
        if !enable && contains(error, "unable to find") {
            return Ok("usage-widget was not registered to run at login.".to_owned());
        }
        return Err("reg.exe failed: ".to_owned().concat(error));
    }
    if enable {
        Ok(
            "usage-widget will start at login.\n\nRun `usage-widget --no-startup` to undo.".to_owned(),
        )
    } else {
        Ok("usage-widget will no longer start at login.".to_owned())
    }
}

fn has_space(s: &str) -> (yes: bool)
    ensures
        yes == s@.contains(' '),
{
    let chars = crate::text::chars_of(s);
    for i in 0..chars.len()
        invariant
            chars@ == s@,
            forall|j: int| 0 <= j < i ==> #[trigger] s@[j] != ' ',
    {
        if chars[i] == ' ' {
            assert(s@[i as int] == ' ');
            return true;
        }
    }
    false
}

fn quoted(exe: &str) -> (c: String)
    ensures
        c@ == command(exe@),
{
    if has_space(exe) {
        "\"".to_owned().concat(exe).concat("\"")
    } else {
        exe.to_owned()
    }
}

fn registration(exe: &str) -> (args: Vec<String>)
    ensures
        texts(args@) == add_args(exe@),
{
    let args = vec![
        "add".to_owned(),
        "HKCU\\Software\\Microsoft\\Windows\\CurrentVersion\\Run".to_owned(),
        "/v".to_owned(),
        "usage-widget".to_owned(),
        "/t".to_owned(),
        "REG_SZ".to_owned(),
        "/d".to_owned(),
        quoted(exe),
        "/f".to_owned(),
    ];
    assert(texts(args@) =~= add_args(exe@));
    args
}

fn removal() -> (args: Vec<String>)
    ensures
        texts(args@) == delete_args(),
{
    let args = vec![
        "delete".to_owned(),
        "HKCU\\Software\\Microsoft\\Windows\\CurrentVersion\\Run".to_owned(),
        "/v".to_owned(),
        "usage-widget".to_owned(),
        "/f".to_owned(),
    ];
    assert(texts(args@) =~= delete_args());
    args
}

/// What follows each event, with `stderr` the text that the registry tool wrote.
pub open spec fn login_step(windows: bool, enable: bool, event: LoginEvent) -> LoginStepView {
    if !windows {
        LoginStepView::Done(Err("--startup is only supported on Windows"@))
    } else {
        match event {
            LoginEvent::Begin => if enable {
                LoginStepView::FindExe
            } else {
                LoginStepView::RunReg(delete_args())
            },
            LoginEvent::ExePath(Ok(exe)) => LoginStepView::RunReg(add_args(exe@)),
            LoginEvent::ExePath(Err(e)) => LoginStepView::Done(Err(e@)),
            LoginEvent::NotRun(e) => LoginStepView::Done(Err("could not run reg.exe: "@ + e@)),
            LoginEvent::Exited { success, stderr } => LoginStepView::Done(
                reg_message(enable, success, lossy_utf8(stderr@)),
            ),
        }
    }
}

/// Registers this program among those that run at login, or removes it, through the registry
/// tool: given what has happened, says what to do next. The path is looked up only to register, and
/// one that has been found is registered.
pub fn set_run_at_login(windows: bool, enable: bool, event: LoginEvent) -> (step: LoginStep)
    ensures
        step@ == login_step(windows, enable, event),
        windows ==> (event matches LoginEvent::Exited { success, stderr } ==> (valid_utf8(stderr@)
            ==> step@ == LoginStepView::Done(
            reg_message(enable, success, decode_utf8(stderr@)),
        ))),
{
    if !windows {
        return LoginStep::Done(Err("--startup is only supported on Windows".to_owned()));
    }
    match event {
        LoginEvent::Begin => if enable {
            LoginStep::FindExe
        } else {
            LoginStep::RunReg(removal())
        },
        LoginEvent::ExePath(Ok(exe)) => LoginStep::RunReg(registration(exe.as_str())),
        LoginEvent::ExePath(Err(e)) => LoginStep::Done(Err(e)),
        LoginEvent::NotRun(e) => LoginStep::Done(
            Err("could not run reg.exe: ".to_owned().concat(e.as_str())),
        ),
        LoginEvent::Exited { success, stderr } => {
            let text = from_utf8_lossy(stderr.as_slice());
            LoginStep::Done(reg_outcome(enable, success, text.as_str()))
        },
    }
}

/// The widget always refreshes, and at the interval that the setting names in whole minutes.
pub proof fn law_refresh_setting_is_honoured(setting: Option<Seq<char>>, s: Seq<char>, n: nat)
    requires
        1 <= n <= u64::MAX,
        trimmed(s) == decimal_text(n),
    ensures
        refresh_setting(setting) >= 1,
        refresh_setting(Some(s)) == n,
        refresh_setting(None) == 5,
{
    crate::text::law_decimal_reads_back(n, s);
}

/// A setting that names a number of minutes from one up is taken as it is; every other counts as not
/// set, which is five minutes.
pub proof fn law_refresh_setting_or_default(s: Seq<char>)
    ensures
        match number_value(trimmed(s)) {
            Some(n) => if 1 <= n <= 0xFFFF_FFFF_FFFF_FFFF {
                refresh_setting(Some(s)) == n
            } else {
                refresh_setting(Some(s)) == refresh_setting(None)
            },
            None => refresh_setting(Some(s)) == refresh_setting(None),
        },
        refresh_setting(None) == 5,
{
}

/// What is registered is the path itself, and in quotes if and only if there is a space in it, so
/// that the path is one word of the command either way.
pub proof fn law_path_with_spaces_is_quoted(exe: Seq<char>)
    ensures
        !exe.contains(' ') ==> command(exe) == exe,
        exe.contains(' ') ==> {
            &&& command(exe).len() == exe.len() + 2
            &&& command(exe)[0] == '"'
            &&& command(exe).subrange(1, 1 + exe.len() as int) == exe
            &&& command(exe).last() == '"'
        },
{
    reveal_strlit("\"");
    if exe.contains(' ') {
        assert(command(exe).subrange(1, 1 + exe.len() as int) =~= exe);
    }
}

/// What registering writes, removing deletes: both name the same value of the same key, that of the
/// programs that run at login, and neither asks before it overwrites. What is written is the path,
/// as a text.
pub proof fn law_removing_undoes_registering(exe: Seq<char>)
    ensures
        add_args(exe).len() == 9,
        delete_args().len() == 5,
        add_args(exe)[0] == "add"@,
        delete_args()[0] == "delete"@,
        add_args(exe).subrange(1, 4) == delete_args().subrange(1, 4),
        add_args(exe)[1] == "HKCU\\Software\\Microsoft\\Windows\\CurrentVersion\\Run"@,
        add_args(exe)[2] == "/v"@,
        add_args(exe)[3] == "usage-widget"@,
        add_args(exe).subrange(4, 7) == seq!["/t"@, "REG_SZ"@, "/d"@],
        add_args(exe)[7] == command(exe),
        add_args(exe).last() == "/f"@,
        delete_args().last() == "/f"@,
{
    assert(add_args(exe).subrange(1, 4) =~= delete_args().subrange(1, 4));
    assert(add_args(exe).subrange(4, 7) =~= seq!["/t"@, "REG_SZ"@, "/d"@]);
}

/// A request fares as the registry tool did, save that there being nothing to remove is no failure. A
/// failure passes on what the tool wrote, and the three good outcomes are told apart.
pub proof fn law_registry_tool_decides(enable: bool, success: bool, stderr: Seq<char>)
    ensures
        reg_message(enable, success, stderr) is Ok <==> success || (!enable && occurs(
            stderr,
            "unable to find"@,
        )),
        reg_message(enable, success, stderr) matches Err(text) ==> {
            &&& text.take(16) == "reg.exe failed: "@
            &&& text.skip(16) == trimmed(stderr)
        },
        success ==> reg_message(enable, success, stderr) == Ok::<Seq<char>, Seq<char>>(
            if enable {
                "usage-widget will start at login.\n\nRun `usage-widget --no-startup` to undo."@
            } else {
                "usage-widget will no longer start at login."@
            },
        ),
        !success && reg_message(enable, success, stderr) is Ok ==> reg_message(
            enable,
            success,
            stderr,
        )->Ok_0 == "usage-widget was not registered to run at login."@,
{
    reveal_strlit("unable to find");
    reveal_strlit("reg.exe failed: ");
    if occurs(stderr, "unable to find"@) {
        crate::text::law_trim_keeps_words(stderr, "unable to find"@);
    }
    if occurs(trimmed(stderr), "unable to find"@) {
        lemma_trimmed_occurs(stderr, "unable to find"@);
    }
    let text = "reg.exe failed: "@ + trimmed(stderr);
    assert(text.take(16) =~= "reg.exe failed: "@);
    assert(text.skip(16) =~= trimmed(stderr));
}

proof fn lemma_trimmed_occurs(s: Seq<char>, part: Seq<char>)
    requires
        occurs(trimmed(s), part),
    ensures
        occurs(s, part),
{
    let (from, to) = crate::text::law_trim_drops_only_space(s);
    let t = trimmed(s);
    let at = choose|at: int|
        0 <= at <= t.len() - part.len() && #[trigger] t.subrange(at, at + part.len()) == part;
    assert(s.subrange(from + at, from + at + part.len()) =~= t.subrange(at, at + part.len()));
}

/// On Windows a request to register looks up the path and writes just that path, and one to remove
/// writes nothing; what goes wrong on the way is passed on. Elsewhere every request fails.
pub proof fn law_login_request_is_carried_out(enable: bool, event: LoginEvent)
    ensures
        login_step(true, true, LoginEvent::Begin) is FindExe,
        login_step(true, false, LoginEvent::Begin) == LoginStepView::RunReg(delete_args()),
        event matches LoginEvent::ExePath(Ok(exe)) ==> login_step(true, enable, event)
            == LoginStepView::RunReg(add_args(exe@)),
        event matches LoginEvent::ExePath(Err(e)) ==> login_step(true, enable, event)
            == LoginStepView::Done(Err(e@)),
        event matches LoginEvent::NotRun(e) ==> (login_step(
            true,
            enable,
            event,
        ) matches LoginStepView::Done(Err(text)) && text.take(23) == "could not run reg.exe: "@
            && text.skip(23) == e@),
        event matches LoginEvent::Exited { success, stderr } ==> login_step(true, enable, event)
            == LoginStepView::Done(reg_message(enable, success, lossy_utf8(stderr@))),
        login_step(false, enable, event) == LoginStepView::Done(
            Err("--startup is only supported on Windows"@),
        ),
{
    reveal_strlit("could not run reg.exe: ");
    if let LoginEvent::NotRun(e) = event {
        let text = "could not run reg.exe: "@ + e@;
        assert(text.take(23) =~= "could not run reg.exe: "@);
        assert(text.skip(23) =~= e@);
    }
}

/// Removing an entry that is not there is answered without an error, wherever in its message the
/// registry tool says so; the same message is one when the entry was to be made.
pub proof fn law_removing_nothing_is_no_error(stderr: Seq<char>)
    requires
        occurs(stderr, "unable to find"@),
    ensures
        reg_message(false, false, stderr) is Ok,
        reg_message(true, false, stderr) is Err,
{
    reveal_strlit("unable to find");
    crate::text::law_trim_keeps_words(stderr, "unable to find"@);
}

/// What becomes of a request: the path is looked up only to register, the registry tool runs at
/// most once, and its end is the end of the request.
pub proof fn law_login_request_ends(enable: bool, event: LoginEvent)
    ensures
        login_step(true, enable, LoginEvent::Begin) is FindExe <==> enable,
        login_step(true, enable, LoginEvent::Begin) is RunReg <==> !enable,
        event is ExePath ==> !(login_step(true, enable, event) is FindExe),
        event is NotRun || event is Exited ==> login_step(true, enable, event) is Done,
        login_step(false, enable, event) is Done,
{
}

} // verus!
