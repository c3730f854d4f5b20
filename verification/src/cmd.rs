//! The answers to the commands of the front end.

use vstd::prelude::*;
use vstd::string::StringExecFns;
use crate::config::{AppConfig, AppConfigView};

verus! {

/// The answer to a command.
#[derive(Debug, PartialEq, Eq)]
pub struct Response<T> {
    /// A status code in the manner of HTTP.
    pub code: i32,
    /// What the command hands back.
    pub data: T,
    /// A message, empty after a success.
    pub msg: String,
}

impl<T: Clone> Clone for Response<T> {
    fn clone(&self) -> (r: Self)
        ensures
            r.code == self.code,
            r.msg == self.msg,
    {
        Response { code: self.code, data: self.data.clone(), msg: self.msg.clone() }
    }
}

impl<T> Response<T> {
    /// The answer after a success: code 200, `value` and no message.
    pub fn success(value: T) -> (r: Response<T>)
        ensures
            r.code == 200,
            r.data == value,
            r.msg@ == Seq::<char>::empty(),
    {
        Response { code: 200, data: value, msg: String::new() }
    }

    /// The answer after a failure: the code and message given, and `false`
    /// for its data.
    pub fn error(err_code: i32, err_msg: String) -> (r: Response<bool>)
        ensures
            r.code == err_code,
            r.data == false,
            r.msg@ == err_msg@,
    {
        Response { code: err_code, data: false, msg: err_msg }
    }
}

/// The four groups of settings.
#[derive(Clone, Copy, Debug, PartialEq, Eq, Structural)]
pub enum ConfigGroup {
    System,
    Notify,
    Watcher,
    Screensaver,
}

impl ConfigGroup {
    /// The group that `name` names, if it names one.
    pub open spec fn spec_parse(name: Seq<char>) -> Option<ConfigGroup> {
        if name == "system"@ {
            Some(ConfigGroup::System)
        } else if name == "notify"@ {
            Some(ConfigGroup::Notify)
        } else if name == "watcher"@ {
            Some(ConfigGroup::Watcher)
        } else if name == "screensaver"@ {
            Some(ConfigGroup::Screensaver)
        } else {
            None
        }
    }

    /// The group that `name` names: `"system"`, `"notify"`, `"watcher"` or
    /// `"screensaver"`.
    pub fn parse(name: &str) -> (r: Option<ConfigGroup>)
        ensures
            r == Self::spec_parse(name@),
    {
        let n = String::from_str(name);
        if n == String::from_str("system") {
            Some(ConfigGroup::System)
        } else if n == String::from_str("notify") {
            Some(ConfigGroup::Notify)
        } else if n == String::from_str("watcher") {
            Some(ConfigGroup::Watcher)
        } else if n == String::from_str("screensaver") {
            Some(ConfigGroup::Screensaver)
        } else {
            None
        }
    }
}

/// The settings `cur` with the group `group` taken over from `config`.
pub open spec fn with_group(cur: AppConfigView, group: ConfigGroup, config: AppConfigView) -> AppConfigView {
    match group {
        ConfigGroup::System => AppConfigView { system: config.system, ..cur },
        ConfigGroup::Notify => AppConfigView { notify: config.notify, ..cur },
        ConfigGroup::Watcher => AppConfigView { watcher: config.watcher, ..cur },
        ConfigGroup::Screensaver => AppConfigView { screensaver: config.screensaver, ..cur },
    }
}

/// What [`sync_config`] does. Without `overwrite` the current settings
/// stay and come back, whatever the group is called. With it the named
/// group is taken over from `config` and the settings come back as they
/// stand then; a name that names no group changes nothing and is answered
/// with code 400 and the message `no match for group` and the name.
pub open spec fn config_synced(
    pre: AppConfigView,
    post: AppConfigView,
    group: Seq<char>,
    config: AppConfigView,
    overwrite: bool,
    r: Result<Response<AppConfig>, Response<bool>>,
) -> bool {
    if !overwrite {
        &&& post == pre
        &&& r matches Ok(answer) && answer.code == 200 && answer.data@ == post && answer.msg@
            == Seq::<char>::empty()
    } else {
        match ConfigGroup::spec_parse(group) {
            Some(g) => {
                &&& post == with_group(pre, g, config)
                &&& r matches Ok(answer) && answer.code == 200 && answer.data@ == post
                    && answer.msg@ == Seq::<char>::empty()
            },
            None => {
                &&& post == pre
                &&& r matches Err(answer) && answer.code == 400 && answer.data == false
                    && answer.msg@ == "no match for group "@ + group
            },
        }
    }
}

/// Brings the settings of the front end and of the back end together. See
/// [`config_synced`].
pub fn sync_config(group: &str, config: &AppConfig, overwrite: bool, cur: &mut AppConfig) -> (r: Result<
    Response<AppConfig>,
    Response<bool>,
>)
    ensures
        config_synced(old(cur)@, final(cur)@, group@, config@, overwrite, r),
{
    if overwrite {
        match ConfigGroup::parse(group) {
            Some(ConfigGroup::System) => {
                cur.system = config.system.clone();
            },
            Some(ConfigGroup::Notify) => {
                cur.notify = config.notify;
            },
            Some(ConfigGroup::Watcher) => {
                cur.watcher = config.watcher;
            },
            Some(ConfigGroup::Screensaver) => {
                cur.screensaver = config.screensaver.clone();
            },
            None => {
                let msg = String::from_str("no match for group ").concat(group);
                return Err(Response::<bool>::error(400, msg));
            },
        }
    }
    Ok(Response::success(cur.clone()))
}

/// How grave a line of the log is.
#[derive(Clone, Copy, Debug, PartialEq, Eq, Structural)]
pub enum LogLevel {
    Info,
    Warn,
    Error,
}

impl LogLevel {
    /// The level that `name` names, if it names one.
    pub open spec fn spec_parse(name: Seq<char>) -> Option<LogLevel> {
        if name == "info"@ {
            Some(LogLevel::Info)
        } else if name == "warn"@ {
            Some(LogLevel::Warn)
        } else if name == "error"@ {
            Some(LogLevel::Error)
        } else {
            None
        }
    }

    /// The level that `name` names: `"info"`, `"warn"` or `"error"`.
    pub fn parse(name: &str) -> (r: Option<LogLevel>)
        ensures
            r == Self::spec_parse(name@),
    {
        let n = String::from_str(name);
        if n == String::from_str("info") {
            Some(LogLevel::Info)
        } else if n == String::from_str("warn") {
            Some(LogLevel::Warn)
        } else if n == String::from_str("error") {
            Some(LogLevel::Error)
        } else {
            None
        }
    }
}

/// A line for the log.
#[derive(Debug, PartialEq, Eq)]
pub struct LogLine {
    pub level: LogLevel,
    pub text: String,
}

/// What [`web_log`] decides. While the log is not set up every message is
/// accepted and dropped. Else a message with a known level goes to the log
/// under that level and is accepted; one with any other level is answered
/// with code 400 and the message `no match for level` and the level, and
/// the log gets an error line that says so.
pub open spec fn web_logged(
    level: Seq<char>,
    msg: Seq<char>,
    logging: bool,
    line: Option<LogLine>,
    r: Result<Response<bool>, Response<bool>>,
) -> bool {
    if !logging {
        &&& line is None
        &&& r matches Ok(answer) && answer.code == 200 && answer.data && answer.msg@
            == Seq::<char>::empty()
    } else {
        match LogLevel::spec_parse(level) {
            Some(l) => {
                &&& line matches Some(written) && written.level == l && written.text@ == msg
                &&& r matches Ok(answer) && answer.code == 200 && answer.data && answer.msg@
                    == Seq::<char>::empty()
            },
            None => {
                &&& line matches Some(written) && written.level == LogLevel::Error
                    && written.text@ == "Failed to log, errMsg: no match for level "@ + level
                &&& r matches Err(answer) && answer.code == 400 && !answer.data && answer.msg@
                    == "no match for level "@ + level
            },
        }
    }
}

/// Takes a message of the front end for the log: says what line goes to
/// the log, if any, and what the front end is answered. See
/// [`web_logged`].
pub fn web_log(level: &str, msg: &str, logging: bool) -> (r: (
    Option<LogLine>,
    Result<Response<bool>, Response<bool>>,
))
    ensures
        web_logged(level@, msg@, logging, r.0, r.1),
{
    if !logging {
        return (None, Ok(Response::success(true)));
    }
    match LogLevel::parse(level) {
        Some(l) => (
            Some(LogLine { level: l, text: String::from_str(msg) }),
            Ok(Response::success(true)),
        ),
        None => {
            let text = String::from_str("Failed to log, errMsg: no match for level ").concat(level);
            let answer = String::from_str("no match for level ").concat(level);
            (
                Some(LogLine { level: LogLevel::Error, text }),
                Err(Response::<bool>::error(400, answer)),
            )
        },
    }
}

/// How one step with a window went.
#[derive(Debug, PartialEq, Eq)]
pub enum WindowStep {
    /// The step was made.
    Done,
    /// There is no such window.
    Missing,
    /// The window refused; the text says why.
    Failed(String),
}

/// What happened while the application was brought up: whether the
/// back end had to be set up and how that went, how closing the splash
/// screen went, and how showing the main window went. Steps behind a
/// failure were not made and do not count.
#[derive(Debug, PartialEq, Eq)]
pub struct InitSteps {
    /// Whether the back end was set up before.
    pub is_set: bool,
    /// How setting the back end up went; the text says why not.
    pub initialize: Result<(), String>,
    pub splashscreen: WindowStep,
    pub main_window: WindowStep,
}

/// What the front end is told after the application was brought up;
/// nothing where everything went through. The first step that did not go
/// through decides: a failure to set up the back end is answered with code
/// 500 and its reason, a missing window with code 404 and its name, and a
/// window that refused with code 500 and its reason. The splash screen
/// counts only where the back end had to be set up.
pub open spec fn init_failure(steps: InitSteps) -> Option<(i32, Seq<char>)> {
    if !steps.is_set && steps.initialize is Err {
        Some((500, steps.initialize->Err_0@))
    } else if !steps.is_set && steps.splashscreen is Failed {
        Some((500, steps.splashscreen->Failed_0@))
    } else if !steps.is_set && steps.splashscreen is Missing {
        Some((404, "missing splashsceen window"@))
    } else if steps.main_window is Failed {
        Some((500, steps.main_window->Failed_0@))
    } else if steps.main_window is Missing {
        Some((404, "missing main window"@))
    } else {
        None
    }
}

/// The answer of a failed start, if the start failed. See
/// [`init_failure`].
pub fn init_app(steps: InitSteps) -> (r: Result<(), Response<bool>>)
    ensures
        match r {
            Ok(_) => init_failure(steps) is None,
            Err(answer) => init_failure(steps) == Some((answer.code, answer.msg@)) && !answer.data,
        },
{
    if !steps.is_set {
        match steps.initialize {
            Err(reason) => {
                return Err(Response::<bool>::error(500, reason));
            },
            Ok(_) => {},
        }
        match steps.splashscreen {
            WindowStep::Failed(reason) => {
                return Err(Response::<bool>::error(500, reason));
            },
            WindowStep::Missing => {
                return Err(
                    Response::<bool>::error(404, String::from_str("missing splashsceen window")),
                );
            },
            WindowStep::Done => {},
        }
    }
    match steps.main_window {
        WindowStep::Failed(reason) => Err(Response::<bool>::error(500, reason)),
        WindowStep::Missing => Err(
            Response::<bool>::error(404, String::from_str("missing main window")),
        ),
        WindowStep::Done => Ok(()),
    }
}

/// What was done so far while the application is brought up. A step that
/// was not made yet has no outcome.
#[derive(Debug, PartialEq, Eq)]
pub struct InitProgress {
    /// Whether the back end was set up before.
    pub is_set: bool,
    /// How setting the back end up went; the text says why not.
    pub initialize: Option<Result<(), String>>,
    /// How closing the splash screen went.
    pub splashscreen: Option<WindowStep>,
    /// How showing the main window went.
    pub main_window: Option<WindowStep>,
}

/// What is to be done next while the application is brought up.
#[derive(Clone, Copy, Debug, PartialEq, Eq, Structural)]
pub enum InitAction {
    /// Set the back end up.
    Initialize,
    /// Close the splash screen.
    CloseSplashscreen,
    /// Show the main window.
    ShowMainWindow,
    /// Nothing is left to do: answer the front end.
    Answer,
}

/// The next step of the start. A back end that was not set up before is
/// set up first, and then the splash screen is closed; after that, or at
/// once where the back end was set up before, the main window is shown.
/// The first step that does not go through ends the start, and so does
/// the last step.
pub open spec fn next_action(p: InitProgress) -> InitAction {
    if !p.is_set && p.initialize is None {
        InitAction::Initialize
    } else if !p.is_set && p.initialize matches Some(Err(_)) {
        InitAction::Answer
    } else if !p.is_set && p.splashscreen is None {
        InitAction::CloseSplashscreen
    } else if !p.is_set && !(p.splashscreen matches Some(WindowStep::Done)) {
        InitAction::Answer
    } else if p.main_window is None {
        InitAction::ShowMainWindow
    } else {
        InitAction::Answer
    }
}

/// The steps of a start as they count in the end: a step that was not
/// made counts as one that went through.
pub open spec fn steps_of(p: InitProgress) -> InitSteps {
    InitSteps {
        is_set: p.is_set,
        initialize: match p.initialize {
            Some(done) => done,
            None => Ok(()),
        },
        splashscreen: match p.splashscreen {
            Some(done) => done,
            None => WindowStep::Done,
        },
        main_window: match p.main_window {
            Some(done) => done,
            None => WindowStep::Done,
        },
    }
}

/// How many steps of a start have no outcome yet.
pub open spec fn steps_open(p: InitProgress) -> nat {
    (if p.initialize is None {
        1nat
    } else {
        0nat
    }) + (if p.splashscreen is None {
        1nat
    } else {
        0nat
    }) + (if p.main_window is None {
        1nat
    } else {
        0nat
    })
}

/// `q` is the progress `p` with an outcome of the step `a` noted, and
/// nothing else changed.
pub open spec fn noted(p: InitProgress, a: InitAction, q: InitProgress) -> bool {
    match a {
        InitAction::Initialize => q.initialize is Some && q == (InitProgress {
            initialize: q.initialize,
            ..p
        }),
        InitAction::CloseSplashscreen => q.splashscreen is Some && q == (InitProgress {
            splashscreen: q.splashscreen,
            ..p
        }),
        InitAction::ShowMainWindow => q.main_window is Some && q == (InitProgress {
            main_window: q.main_window,
            ..p
        }),
        InitAction::Answer => q == p,
    }
}

/// A start comes to its end: every step that is asked for is one without
/// an outcome so far, so that noting its outcome leaves fewer steps open
/// and no step is made twice. After three steps at most the front end is
/// answered.
pub proof fn lemma_start_ends(p: InitProgress, q: InitProgress)
    requires
        next_action(p) != InitAction::Answer,
        noted(p, next_action(p), q),
    ensures
        steps_open(q) < steps_open(p) <= 3,
{
}

impl InitProgress {
    /// The start of a start: no step was made yet.
    pub fn begin(is_set: bool) -> (p: InitProgress)
        ensures
            p == (InitProgress { is_set, initialize: None, splashscreen: None, main_window: None }),
    {
        InitProgress { is_set, initialize: None, splashscreen: None, main_window: None }
    }

    /// What is to be done next. See [`next_action`].
    pub fn next(&self) -> (a: InitAction)
        ensures
            a == next_action(*self),
    {
        if !self.is_set {
            match &self.initialize {
                None => {
                    return InitAction::Initialize;
                },
                Some(Err(_)) => {
                    return InitAction::Answer;
                },
                Some(Ok(_)) => {},
            }
            match &self.splashscreen {
                None => {
                    return InitAction::CloseSplashscreen;
                },
                Some(WindowStep::Done) => {},
                Some(_) => {
                    return InitAction::Answer;
                },
            }
        }
        match &self.main_window {
            None => InitAction::ShowMainWindow,
            Some(_) => InitAction::Answer,
        }
    }

    /// The steps as they count in the end. See [`steps_of`].
    pub fn into_steps(self) -> (steps: InitSteps)
        ensures
            steps == steps_of(self),
    {
        InitSteps {
            is_set: self.is_set,
            initialize: match self.initialize {
                Some(done) => done,
                None => Ok(()),
            },
            splashscreen: match self.splashscreen {
                Some(done) => done,
                None => WindowStep::Done,
            },
            main_window: match self.main_window {
                Some(done) => done,
                None => WindowStep::Done,
            },
        }
    }
}

/// The answer to the command that shuts the application down, given how
/// shutting the back end down went: accepted after a success, and code
/// 500 with the reason after a failure.
pub fn shutdown_app(shutdown: Result<(), String>) -> (r: Result<Response<bool>, Response<bool>>)
    ensures
        match shutdown {
            Ok(_) => r matches Ok(answer) && answer.code == 200 && answer.data && answer.msg@
                == Seq::<char>::empty(),
            Err(reason) => r matches Err(answer) && answer.code == 500 && !answer.data
                && answer.msg@ == reason@,
        },
{
    match shutdown {
        Ok(_) => Ok(Response::success(true)),
        Err(reason) => Err(Response::<bool>::error(500, reason)),
    }
}

} // verus!
