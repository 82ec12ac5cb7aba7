//! The decisions of the control loop.
//!
//! The loop is in one of three modes: the supervised process runs, nothing
//! runs, or the supervisor is shutting down. Each request is answered
//! from the mode, the request line, the session that the request's cookie
//! names and the fields of its body. The answer is an outcome: the reply,
//! a command for the supervised process if there is one, and the mode after
//! the request. The caller carries the outcome out.

use crate::command_watcher::command_line;
use crate::config::{Access, Config};
use crate::fields::{lookup, text_view};
use crate::reply::{Notice, Reply};
use crate::server::{RequestView, ServerStream};
use crate::session::{
    fresh_number, lemma_contains_push, lemma_fresh_number, lemma_push_distinct, lemma_without,
    lemma_without_distinct, token_of, without, SessionStore,
};
use vstd::prelude::*;

verus! {

/// `rand::rngs::ThreadRng`, the caller's random number generator, taken as
/// it is: nothing is known of what is inside.
#[verifier::external_type_specification]
#[verifier::external_body]
pub struct ExThreadRng(rand::rngs::ThreadRng);

/// The mode of the control loop.
#[derive(Clone, Copy, Debug, PartialEq, Eq, Structural)]
pub enum Mode {
    /// The supervised process runs.
    Running,
    /// No process runs.
    Idle,
    /// The supervisor ends: no request is answered any more.
    ShuttingDown,
}

/// The requests that the console knows, by their request line.
#[derive(Clone, Copy, Debug, PartialEq, Eq, Structural)]
pub enum Route {
    /// `POST /console`: a command for the supervised process.
    ConsolePost,
    /// `GET /console`: the console page.
    ConsoleGet,
    /// `GET /`: the login page.
    RootGet,
    /// `POST /`: a login.
    RootPost,
    /// `GET /data`: the recent output as plain text.
    Data,
    /// `GET /logout`.
    Logout,
    /// `GET /stop`: stops the supervised process.
    Stop,
    /// `GET /kill`: stops the supervised process and the supervisor.
    Kill,
    /// `GET /start`: starts the supervised process.
    Start,
    /// Any other request line.
    Unknown,
}

/// What a request means to the control loop.
pub struct Input {
    /// The request that was made.
    pub route: Route,
    /// The token in the cookie `login`, if the request carries one.
    pub cookie: Option<Seq<char>>,
    /// What the fields `username` and `password` of the body are good for;
    /// a field that is missing counts as empty.
    pub access: Access,
    /// The field `command` of the body.
    pub command: Option<Seq<char>>,
}

/// The state of the control loop.
pub struct ControlView {
    pub mode: Mode,
    /// The tokens of the valid sessions.
    pub sessions: Seq<Seq<char>>,
}

/// What follows from a request.
pub struct OutcomeView {
    pub reply: Reply,
    pub command: Option<Seq<char>>,
    pub next: Mode,
}

/// What follows from a request: the reply to send, the command to pass to
/// the supervised process, and the mode that the loop is in from now on.
pub struct Outcome {
    pub reply: Reply,
    pub command: Option<String>,
    pub next: Mode,
}

/// The state after a request and what follows from the request; nothing
/// follows while the supervisor is shutting down.
pub struct StepView {
    pub state: ControlView,
    pub outcome: Option<OutcomeView>,
}

/// The control loop: its mode and the sessions of its users.
pub struct ControlLoop {
    mode: Mode,
    sessions: SessionStore,
}

/// The request that a request line stands for. Lines are compared as they
/// are, letter for letter.
pub open spec fn route_of(line: Seq<char>) -> Route {
    if line == "POST /console HTTP/1.1"@ {
        Route::ConsolePost
    } else if line == "GET /console HTTP/1.1"@ {
        Route::ConsoleGet
    } else if line == "GET / HTTP/1.1"@ {
        Route::RootGet
    } else if line == "POST / HTTP/1.1"@ {
        Route::RootPost
    } else if line == "GET /data HTTP/1.1"@ {
        Route::Data
    } else if line == "GET /logout HTTP/1.1"@ {
        Route::Logout
    } else if line == "GET /stop HTTP/1.1"@ {
        Route::Stop
    } else if line == "GET /kill HTTP/1.1"@ {
        Route::Kill
    } else if line == "GET /start HTTP/1.1"@ {
        Route::Start
    } else {
        Route::Unknown
    }
}

/// The value of a field, or the empty text where the field is missing.
pub open spec fn field_or_empty(fields: Map<Seq<char>, Seq<char>>, key: Seq<char>) -> Seq<char> {
    match lookup(fields, key) {
        Some(value) => value,
        None => Seq::empty(),
    }
}

/// What `request` means to the control loop under the settings `config`.
pub open spec fn input_of(request: RequestView, config: Config) -> Input {
    Input {
        route: route_of(request.request),
        cookie: lookup(request.cookies, "login"@),
        access: config.access(
            field_or_empty(request.content, "username"@),
            field_or_empty(request.content, "password"@),
        ),
        command: lookup(request.content, "command"@),
    }
}

/// Whether a request comes from a user who is logged in: it carries a cookie
/// `login`, and the cookie names a valid session.
pub open spec fn logged_in(sessions: Seq<Seq<char>>, cookie: Option<Seq<char>>) -> bool {
    match cookie {
        Some(token) => sessions.contains(token),
        None => false,
    }
}

/// Whether the answer to a request depends on the user being logged in.
pub open spec fn is_protected(mode: Mode, route: Route) -> bool {
    match route {
        Route::ConsoleGet | Route::RootGet | Route::Data | Route::Kill => true,
        Route::ConsolePost | Route::Stop => mode == Mode::Running,
        Route::Start => mode == Mode::Idle,
        Route::RootPost | Route::Logout | Route::Unknown => false,
    }
}

/// The reply to a request made in the mode `mode`, which is running or
/// idle, by a user of whom `known` says whether they are logged in.
/// `number` is the number of the session that the request opens if it is a
/// login with the console user's name and password.
pub open spec fn reply_of(
    mode: Mode,
    route: Route,
    access: Access,
    known: bool,
    number: u32,
) -> Reply {
    let running = mode == Mode::Running;
    match route {
        Route::ConsolePost => if !running {
            Reply::NotFound
        } else if known {
            Reply::ToConsole
        } else {
            Reply::ToLogin
        },
        Route::ConsoleGet => if !known {
            Reply::ToLogin
        } else if running {
            Reply::Console
        } else {
            Reply::OfflinePage
        },
        Route::RootGet => if known {
            Reply::ToConsole
        } else if running {
            Reply::Login(Notice::Online)
        } else {
            Reply::Login(Notice::Offline)
        },
        Route::RootPost => match access {
            Access::Console => Reply::LoggedIn(number),
            Access::Start => if running {
                Reply::Login(Notice::AlreadyRunning)
            } else {
                Reply::Login(Notice::Starting)
            },
            Access::Denied => Reply::Login(Notice::Incorrect),
        },
        Route::Data => if running {
            if known {
                Reply::Data
            } else {
                Reply::NotLoggedIn
            }
        } else {
            if known {
                Reply::ServerOffline
            } else {
                Reply::ToLogin
            }
        },
        Route::Logout => Reply::LoggedOut,
        Route::Stop => if !running {
            Reply::NotFound
        } else if known {
            Reply::ToConsole
        } else {
            Reply::ToLogin
        },
        Route::Kill => if known {
            Reply::ToConsole
        } else {
            Reply::ToLogin
        },
        Route::Start => if running {
            Reply::NotFound
        } else if known {
            Reply::ToConsole
        } else {
            Reply::ToLogin
        },
        Route::Unknown => Reply::NotFound,
    }
}

/// The command that a request has for the supervised process. Only a user
/// who is logged in has one, and only while the process runs: the command
/// that was posted to the console, or `stop` to stop the process.
pub open spec fn command_of(
    mode: Mode,
    route: Route,
    posted: Option<Seq<char>>,
    known: bool,
) -> Option<Seq<char>> {
    if mode == Mode::Running && known {
        match route {
            Route::ConsolePost => posted,
            Route::Stop | Route::Kill => Some("stop"@),
            _ => None,
        }
    } else {
        None
    }
}

/// The mode after a request made in the mode `mode`, which is running or
/// idle. A user who is logged in shuts the supervisor down with `kill` and
/// starts the process with `start`; so does a login with the start user's
/// name and password while nothing runs. Stopping the process changes no
/// mode: the loop is idle once the exit of the process was seen.
pub open spec fn next_mode(mode: Mode, route: Route, access: Access, known: bool) -> Mode {
    match route {
        Route::Kill => if known {
            Mode::ShuttingDown
        } else {
            mode
        },
        Route::Start => if mode == Mode::Idle && known {
            Mode::Running
        } else {
            mode
        },
        Route::RootPost => if mode == Mode::Idle && access == Access::Start {
            Mode::Running
        } else {
            mode
        },
        _ => mode,
    }
}

/// The sessions after a request. A login with the console user's name and
/// password opens one session, with the number `number`; a logout closes
/// the sessions that its cookie names; no other request touches them.
pub open spec fn sessions_of(
    sessions: Seq<Seq<char>>,
    route: Route,
    access: Access,
    cookie: Option<Seq<char>>,
    number: u32,
) -> Seq<Seq<char>> {
    match route {
        Route::RootPost => if access == Access::Console {
            sessions.push(token_of(number))
        } else {
            sessions
        },
        Route::Logout => match cookie {
            Some(token) => without(sessions, token),
            None => sessions,
        },
        _ => sessions,
    }
}

/// Whether the sessions are rebuilt on the way from one mode to another:
/// they are wherever the supervised process starts or is found to have
/// ended.
pub open spec fn rebuilds_sessions(from: Mode, to: Mode) -> bool {
    from != to && to != Mode::ShuttingDown
}

/// The state after a request and what follows from the request. `drawn` is
/// the number that was drawn for the request; a login opens the session
/// whose number `fresh_number` makes of it.
pub open spec fn step_of(state: ControlView, input: Input, drawn: u32) -> StepView {
    if state.mode == Mode::ShuttingDown {
        StepView { state, outcome: None }
    } else {
        let known = logged_in(state.sessions, input.cookie);
        let next = next_mode(state.mode, input.route, input.access, known);
        let number = fresh_number(state.sessions, drawn);
        StepView {
            state: ControlView {
                mode: next,
                sessions: if rebuilds_sessions(state.mode, next) {
                    Seq::empty()
                } else {
                    sessions_of(state.sessions, input.route, input.access, input.cookie, number)
                },
            },
            outcome: Some(
                OutcomeView {
                    reply: reply_of(state.mode, input.route, input.access, known, number),
                    command: command_of(state.mode, input.route, input.command, known),
                    next,
                },
            ),
        }
    }
}

/// Whether a request opens a session, for which a number has to be drawn.
pub open spec fn opens_session(state: ControlView, input: Input) -> bool {
    state.mode != Mode::ShuttingDown && input.route == Route::RootPost && input.access
        == Access::Console
}

/// The state after the supervised process was found to have ended: the loop
/// that was running is idle, with its sessions rebuilt; a loop that is
/// shutting down stays so.
pub open spec fn exited_of(state: ControlView) -> ControlView {
    if state.mode == Mode::Running {
        ControlView { mode: Mode::Idle, sessions: Seq::empty() }
    } else {
        state
    }
}

impl View for Outcome {
    type V = OutcomeView;

    open spec fn view(&self) -> OutcomeView {
        OutcomeView { reply: self.reply, command: text_view(self.command), next: self.next }
    }
}

/// What an optional outcome holds.
pub open spec fn outcome_view(outcome: Option<Outcome>) -> Option<OutcomeView> {
    match outcome {
        Some(o) => Some(o@),
        None => None,
    }
}

impl View for ControlLoop {
    type V = ControlView;

    closed spec fn view(&self) -> ControlView {
        ControlView { mode: self.mode, sessions: self.sessions@ }
    }
}

/// `rand::Rng::gen` for a `u32`: the next number of the generator. Nothing
/// is claimed of the number.
#[verifier::external_body]
fn draw_number(rng: &mut rand::rngs::ThreadRng) -> (number: u32) {
    rand::Rng::gen::<u32>(rng)
}

/// The request that a request line stands for.
pub fn route(line: &String) -> (r: Route)
    ensures
        r == route_of(line@),
{
    if *line == "POST /console HTTP/1.1".to_owned() {
        Route::ConsolePost
    } else if *line == "GET /console HTTP/1.1".to_owned() {
        Route::ConsoleGet
    } else if *line == "GET / HTTP/1.1".to_owned() {
        Route::RootGet
    } else if *line == "POST / HTTP/1.1".to_owned() {
        Route::RootPost
    } else if *line == "GET /data HTTP/1.1".to_owned() {
        Route::Data
    } else if *line == "GET /logout HTTP/1.1".to_owned() {
        Route::Logout
    } else if *line == "GET /stop HTTP/1.1".to_owned() {
        Route::Stop
    } else if *line == "GET /kill HTTP/1.1".to_owned() {
        Route::Kill
    } else if *line == "GET /start HTTP/1.1".to_owned() {
        Route::Start
    } else {
        Route::Unknown
    }
}

/// The value of a field of the body, or the empty text.
fn content_or_empty(request: &ServerStream, key: &str) -> (r: String)
    ensures
        r@ == field_or_empty(request@.content, key@),
{
    match request.get_content(key) {
        Some(value) => value,
        None => String::new(),
    }
}

/// The reply to a request.
fn pick_reply(mode: Mode, route: Route, access: Access, known: bool, number: u32) -> (r: Reply)
    ensures
        r == reply_of(mode, route, access, known, number),
{
    let running = match mode {
        Mode::Running => true,
        _ => false,
    };
    match route {
        Route::ConsolePost | Route::Stop => if !running {
            Reply::NotFound
        } else if known {
            Reply::ToConsole
        } else {
            Reply::ToLogin
        },
        Route::ConsoleGet => if !known {
            Reply::ToLogin
        } else if running {
            Reply::Console
        } else {
            Reply::OfflinePage
        },
        Route::RootGet => if known {
            Reply::ToConsole
        } else if running {
            Reply::Login(Notice::Online)
        } else {
            Reply::Login(Notice::Offline)
        },
        Route::RootPost => match access {
            Access::Console => Reply::LoggedIn(number),
            Access::Start => if running {
                Reply::Login(Notice::AlreadyRunning)
            } else {
                Reply::Login(Notice::Starting)
            },
            Access::Denied => Reply::Login(Notice::Incorrect),
        },
        Route::Data => if running {
            if known {
                Reply::Data
            } else {
                Reply::NotLoggedIn
            }
        } else {
            if known {
                Reply::ServerOffline
            } else {
                Reply::ToLogin
            }
        },
        Route::Logout => Reply::LoggedOut,
        Route::Kill => if known {
            Reply::ToConsole
        } else {
            Reply::ToLogin
        },
        Route::Start => if running {
            Reply::NotFound
        } else if known {
            Reply::ToConsole
        } else {
            Reply::ToLogin
        },
        Route::Unknown => Reply::NotFound,
    }
}

/// The mode after a request.
fn pick_mode(mode: Mode, route: Route, access: Access, known: bool) -> (r: Mode)
    ensures
        r == next_mode(mode, route, access, known),
{
    let idle = match mode {
        Mode::Idle => true,
        _ => false,
    };
    match route {
        Route::Kill => if known {
            Mode::ShuttingDown
        } else {
            mode
        },
        Route::Start => if idle && known {
            Mode::Running
        } else {
            mode
        },
        Route::RootPost => match access {
            Access::Start => if idle {
                Mode::Running
            } else {
                mode
            },
            _ => mode,
        },
        _ => mode,
    }
}

impl ControlLoop {
    /// A control loop in the mode `mode`, without sessions.
    pub fn new(mode: Mode) -> (r: Self)
        ensures
            r@ == (ControlView { mode, sessions: Seq::empty() }),
    {
        ControlLoop { mode, sessions: SessionStore::new() }
    }

    /// The mode of the loop.
    pub fn mode(&self) -> (r: Mode)
        ensures
            r == self@.mode,
    {
        self.mode
    }

    /// Whether `token` names a valid session.
    pub fn is_valid(&self, token: &String) -> (r: bool)
        ensures
            r == self@.sessions.contains(token@),
    {
        self.sessions.is_valid(token)
    }

    /// Tells the loop that the supervised process was found to have ended.
    pub fn child_exited(&mut self)
        ensures
            final(self)@ == exited_of(old(self)@),
    {
        match self.mode {
            Mode::Running => {
                self.mode = Mode::Idle;
                self.sessions.clear();
            },
            _ => {},
        }
    }

    /// What `request` means to the loop.
    fn read_input(&self, request: &ServerStream, config: &Config) -> (r: (
        Route,
        Option<String>,
        Access,
    ))
        ensures
            r.0 == input_of(request@, *config).route,
            text_view(r.1) == input_of(request@, *config).cookie,
            r.2 == input_of(request@, *config).access,
    {
        let line = request.get_request();
        let username = content_or_empty(request, "username");
        let password = content_or_empty(request, "password");
        (route(&line), request.get_cookie("login"), config.check_login(&username, &password))
    }

    /// Whether `request` opens a session, for which a number is needed.
    pub fn opens_session(&self, request: &ServerStream, config: &Config) -> (r: bool)
        ensures
            r == opens_session(self@, input_of(request@, *config)),
    {
        let (route, _, access) = self.read_input(request, config);
        match (self.mode, route, access) {
            (Mode::ShuttingDown, _, _) => false,
            (_, Route::RootPost, Access::Console) => true,
            _ => false,
        }
    }

    /// Answers `request`. `drawn` is the number that was drawn for the
    /// request; no request but a login looks at it.
    ///
    /// The loop and the outcome are exactly what `step_of` defines. While
    /// the supervisor is shutting down there is no outcome.
    pub fn step(&mut self, request: &ServerStream, config: &Config, drawn: u32) -> (r: Option<
        Outcome,
    >)
        ensures
            final(self)@ == step_of(old(self)@, input_of(request@, *config), drawn).state,
            outcome_view(r) == step_of(old(self)@, input_of(request@, *config), drawn).outcome,
    {
        let ghost input = input_of(request@, *config);
        let mode = self.mode;
        match mode {
            Mode::ShuttingDown => {
                return None;
            },
            _ => {},
        }
        let (route, cookie, access) = self.read_input(request, config);
        let known = match &cookie {
            Some(token) => self.sessions.is_valid(token),
            None => false,
        };
        assert(known == logged_in(old(self)@.sessions, input.cookie));
        let next = pick_mode(mode, route, access, known);
        let running = match mode {
            Mode::Running => true,
            _ => false,
        };
        let command = if running && known {
            match route {
                Route::ConsolePost => request.get_content("command"),
                Route::Stop | Route::Kill => Some("stop".to_owned()),
                _ => None,
            }
        } else {
            None
        };
        assert(text_view(command) == command_of(mode, input.route, input.command, known));
        let rebuild = match (mode, next) {
            (Mode::Running, Mode::Idle) | (Mode::Idle, Mode::Running) => true,
            _ => false,
        };
        assert(rebuild == rebuilds_sessions(mode, next));
        let mut number = drawn;
        if rebuild {
            self.sessions.clear();
        } else {
            match route {
                Route::RootPost => match access {
                    Access::Console => {
                        number = self.sessions.create(drawn);
                    },
                    _ => {},
                },
                Route::Logout => match &cookie {
                    Some(token) => {
                        self.sessions.remove(token);
                    },
                    None => {},
                },
                _ => {},
            }
        }
        let reply = pick_reply(mode, route, access, known, number);
        assert(reply == reply_of(
            mode,
            route,
            access,
            known,
            fresh_number(old(self)@.sessions, drawn),
        ));
        self.mode = next;
        Some(Outcome { reply, command, next })
    }

    /// Answers `request`, drawing the number of a new session from `rng`
    /// where the request opens one.
    ///
    /// There is a number with which the loop and the outcome are what
    /// `step_of` defines: the one that was drawn. For a request that opens
    /// no session nothing is drawn, and any number will do.
    pub fn handle(
        &mut self,
        request: &ServerStream,
        config: &Config,
        rng: &mut rand::rngs::ThreadRng,
    ) -> (r: Option<Outcome>)
        ensures
            exists|drawn: u32|
                {
                    &&& final(self)@ == (#[trigger] step_of(
                        old(self)@,
                        input_of(request@, *config),
                        drawn,
                    )).state
                    &&& outcome_view(r) == step_of(
                        old(self)@,
                        input_of(request@, *config),
                        drawn,
                    ).outcome
                },
            !opens_session(old(self)@, input_of(request@, *config)) ==> {
                &&& final(self)@ == step_of(old(self)@, input_of(request@, *config), 0).state
                &&& outcome_view(r) == step_of(old(self)@, input_of(request@, *config), 0).outcome
            },
    {
        let drawn = if self.opens_session(request, config) {
            draw_number(rng)
        } else {
            0
        };
        self.step(request, config, drawn)
    }
}

/// The number that is drawn matters to a login only: any other request
/// has the same outcome with every number.
pub proof fn lemma_number_is_for_logins(state: ControlView, input: Input, drawn: u32, other: u32)
    requires
        !opens_session(state, input),
    ensures
        step_of(state, input, drawn) == step_of(state, input, other),
{
}

/// The console is not shown without a login: whether the process runs or
/// not, `GET /console` without the cookie `login` is answered by a redirect
/// to the login page, and nothing else follows from it.
pub proof fn lemma_console_without_cookie(state: ControlView, input: Input, drawn: u32)
    requires
        state.mode != Mode::ShuttingDown,
        input.route == Route::ConsoleGet,
        input.cookie is None,
    ensures
        step_of(state, input, drawn).outcome == Some(
            OutcomeView { reply: Reply::ToLogin, command: None, next: state.mode },
        ),
        step_of(state, input, drawn).state == state,
{
}

/// A request from a user who is not logged in is not carried out. It has no
/// command for the supervised process, and unless it is itself a login it
/// leaves the mode as it is; where the request is one that controls the
/// process or shows the console, the reply is a redirect to the login page.
pub proof fn lemma_not_logged_in(state: ControlView, input: Input, drawn: u32)
    requires
        state.mode != Mode::ShuttingDown,
        !logged_in(state.sessions, input.cookie),
    ensures
        step_of(state, input, drawn).outcome matches Some(outcome) && {
            &&& outcome.command is None
            &&& input.route != Route::RootPost ==> outcome.next == state.mode
            &&& is_protected(state.mode, input.route) && input.route != Route::RootGet
                && input.route != Route::Data ==> outcome.reply == Reply::ToLogin
        },
{
}

/// A login with the console user's name and password opens exactly one new
/// session. The sessions after it are the sessions before it and one token,
/// which no session had before; it is the token of the number that was
/// drawn unless a session had that one. The reply sets the cookie to the
/// token, and a request that carries it counts as logged in from then on.
/// (The login is stated for fewer sessions than a `u32` has values: with
/// more there is no token left.)
pub proof fn lemma_login_opens_one_session(state: ControlView, input: Input, drawn: u32)
    requires
        state.mode != Mode::ShuttingDown,
        state.sessions.len() < 0x1_0000_0000,
        input.route == Route::RootPost,
        input.access == Access::Console,
    ensures
        ({
            let number = fresh_number(state.sessions, drawn);
            let after = step_of(state, input, drawn);
            &&& after.outcome == Some(
                OutcomeView { reply: Reply::LoggedIn(number), command: None, next: state.mode },
            )
            &&& after.state.mode == state.mode
            &&& after.state.sessions == state.sessions.push(token_of(number))
            &&& !state.sessions.contains(token_of(number))
            &&& !state.sessions.contains(token_of(drawn)) ==> number == drawn
            &&& logged_in(after.state.sessions, Some(token_of(number)))
        }),
{
    let token = token_of(fresh_number(state.sessions, drawn));
    lemma_fresh_number(state.sessions, drawn);
    lemma_contains_push(state.sessions, token, token);
}

/// No two sessions ever share a token: where the tokens of the sessions
/// all differ before a request or the end of the process, they all differ
/// after it.
pub proof fn lemma_sessions_stay_distinct(state: ControlView, input: Input, drawn: u32)
    requires
        state.sessions.no_duplicates(),
        state.sessions.len() < 0x1_0000_0000,
    ensures
        step_of(state, input, drawn).state.sessions.no_duplicates(),
        exited_of(state).sessions.no_duplicates(),
{
    lemma_fresh_number(state.sessions, drawn);
    lemma_push_distinct(state.sessions, token_of(fresh_number(state.sessions, drawn)));
    if input.cookie is Some {
        lemma_without_distinct(state.sessions, input.cookie.unwrap());
    }
}

/// A session lasts until its user logs out or the supervised process starts
/// or ends: after any other request its token is still valid.
pub proof fn lemma_session_lasts(state: ControlView, input: Input, drawn: u32, token: Seq<char>)
    requires
        state.sessions.contains(token),
        !(input.route == Route::Logout && input.cookie == Some(token)),
        !rebuilds_sessions(state.mode, step_of(state, input, drawn).state.mode),
    ensures
        step_of(state, input, drawn).state.sessions.contains(token),
{
    if state.mode != Mode::ShuttingDown {
        match input.route {
            Route::RootPost => {
                lemma_contains_push(
                    state.sessions,
                    token_of(fresh_number(state.sessions, drawn)),
                    token,
                );
            },
            Route::Logout => {
                if input.cookie is Some {
                    lemma_without(state.sessions, input.cookie.unwrap());
                }
            },
            _ => {},
        }
    }
}

/// A valid session is accepted by every request that asks for one: the
/// reply to such a request from a user who is logged in is never the
/// redirect to the login page, nor the login page, nor the sentence for
/// users who are not logged in.
pub proof fn lemma_session_is_accepted(state: ControlView, input: Input, drawn: u32)
    requires
        state.mode != Mode::ShuttingDown,
        logged_in(state.sessions, input.cookie),
        is_protected(state.mode, input.route),
    ensures
        step_of(state, input, drawn).outcome matches Some(outcome) && {
            &&& outcome.reply != Reply::ToLogin
            &&& outcome.reply != Reply::NotLoggedIn
            &&& outcome.reply != Reply::NotFound
            &&& !(outcome.reply is Login)
        },
{
}

/// Logging out twice is safe. Both requests are answered by the redirect
/// that clears the cookie; after the first the token is no session any
/// more, and the second changes nothing.
pub proof fn lemma_logout_twice(
    state: ControlView,
    first: Input,
    second: Input,
    drawn: u32,
    other: u32,
)
    requires
        state.mode != Mode::ShuttingDown,
        first.route == Route::Logout,
        second.route == Route::Logout,
        first.cookie == second.cookie,
    ensures
        step_of(state, first, drawn).outcome == Some(
            OutcomeView { reply: Reply::LoggedOut, command: None, next: state.mode },
        ),
        step_of(step_of(state, first, drawn).state, second, other).outcome == Some(
            OutcomeView { reply: Reply::LoggedOut, command: None, next: state.mode },
        ),
        !logged_in(step_of(state, first, drawn).state.sessions, first.cookie),
        step_of(step_of(state, first, drawn).state, second, other).state == step_of(
            state,
            first,
            drawn,
        ).state,
{
    if first.cookie is Some {
        let token = first.cookie.unwrap();
        lemma_without(state.sessions, token);
        lemma_without(without(state.sessions, token), token);
    }
}

/// A command that a user who is logged in posts to the console while the
/// process runs reaches the process as it was posted: it is the command of
/// the outcome, and what is written for it is the command and a line feed.
pub proof fn lemma_command_is_delivered(
    state: ControlView,
    input: Input,
    drawn: u32,
    command: Seq<char>,
)
    requires
        state.mode == Mode::Running,
        input.route == Route::ConsolePost,
        input.command == Some(command),
        logged_in(state.sessions, input.cookie),
    ensures
        step_of(state, input, drawn).outcome == Some(
            OutcomeView { reply: Reply::ToConsole, command: Some(command), next: Mode::Running },
        ),
        command_line(command) == command + seq!['\n'],
        command_line(command).subrange(0, command.len() as int) == command,
{
    assert(command_line(command) =~= command + seq!['\n']);
    assert(command_line(command).subrange(0, command.len() as int) =~= command);
}

} // verus!
