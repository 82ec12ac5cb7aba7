//! The replies of the console and the responses that carry them.
//!
//! A reply is what the control loop has decided to answer. It is turned
//! into the text of a response here. Most replies are fixed by the library;
//! a page is rendered from a template of the caller's, with the data that
//! `page_context` puts together.

use crate::config::Config;
use crate::fields::{
    insert_field, list_entries, new_fields, no_lists, no_texts, text_entries, FieldValue,
};
use crate::io_handler::ServerIOHandler;
use crate::server::{response_text, strs, ServerStream};
use crate::text::{decimal, decimal_digits, joined, text_of};
use vstd::prelude::*;
use vstd::string::StringExecFns;

verus! {

/// `handlebars::Handlebars`, the registry of the caller's templates, taken
/// as it is: nothing is known of what is inside.
#[verifier::external_type_specification]
#[verifier::external_body]
pub struct ExRegistry<'reg>(handlebars::Handlebars<'reg>);

/// `handlebars::RenderError`, taken as it is.
#[verifier::external_type_specification]
#[verifier::external_body]
pub struct ExRenderError(handlebars::RenderError);

/// What the login page tells its reader.
#[derive(Clone, Copy, Debug, PartialEq, Eq, Structural)]
pub enum Notice {
    /// The supervised process is running.
    Online,
    /// The supervised process is not running.
    Offline,
    /// The process was asked to start while it runs.
    AlreadyRunning,
    /// The process is being started.
    Starting,
    /// The user name or the password was wrong.
    Incorrect,
}

/// What is answered to a request.
#[derive(Clone, Copy, Debug, PartialEq, Eq, Structural)]
pub enum Reply {
    /// A redirect to the console.
    ToConsole,
    /// A redirect to the console that sets the session cookie to the token
    /// of this number.
    LoggedIn(u32),
    /// A redirect to the login page.
    ToLogin,
    /// A redirect to the login page that clears the session cookie.
    LoggedOut,
    /// The console page, with the recent output.
    Console,
    /// The page shown in place of the console while nothing runs.
    OfflinePage,
    /// The login page with a notice.
    Login(Notice),
    /// The recent output as plain text.
    Data,
    /// The plain text that stands for the output where nobody is logged in.
    NotLoggedIn,
    /// The plain text that stands for the output while nothing runs.
    ServerOffline,
    /// The page for a request that is not known.
    NotFound,
}

/// A page could not be rendered.
#[derive(Clone, Copy, Debug, PartialEq, Eq, Structural)]
pub struct RenderFailure {}

/// The text of a notice.
pub open spec fn notice_text(notice: Notice) -> Seq<char> {
    match notice {
        Notice::Online => "Server Status: Online"@,
        Notice::Offline => "Server Status: Offline"@,
        Notice::AlreadyRunning => "Server is already running"@,
        Notice::Starting => "Server is starting"@,
        Notice::Incorrect => "Username or Password Is Incorrect"@,
    }
}

/// Whether a reply is a redirect.
pub open spec fn is_redirect(reply: Reply) -> bool {
    reply is ToConsole || reply is LoggedIn || reply is ToLogin || reply is LoggedOut
}

/// The status line of the response that carries a reply.
pub open spec fn status_of(reply: Reply) -> Seq<char> {
    if is_redirect(reply) {
        "HTTP/1.1 303 See Other"@
    } else if reply is NotFound {
        "HTTP/1.1 404 not found"@
    } else {
        "HTTP/1.1 200 OK"@
    }
}

/// The header line that sets the session cookie to the token of `number`.
pub open spec fn session_cookie(number: u32) -> Seq<char> {
    "Set-Cookie: login="@ + decimal_digits(number as nat) + "; SameSite=Strict; Max-Age=86400"@
}

/// The header lines of the response that carries a reply, but for the
/// length of its contents.
pub open spec fn extra_headers(reply: Reply) -> Seq<Seq<char>> {
    match reply {
        Reply::ToConsole => seq!["Location: /console"@],
        Reply::LoggedIn(number) => seq!["Location: /console"@, session_cookie(number)],
        Reply::ToLogin => seq!["Location: /"@],
        Reply::LoggedOut => seq![
            "Location: /"@,
            "Set-Cookie: login=0; SameSite=Strict; Max-Age=-1"@,
        ],
        _ => Seq::empty(),
    }
}

/// The contents of a reply that is no page: nothing for a redirect, the
/// output `console` or a fixed sentence for the others.
pub open spec fn plain_body(reply: Reply, console: Seq<Seq<char>>) -> Option<Seq<char>> {
    match reply {
        Reply::Data => Some(joined(console, seq!['\n'])),
        Reply::NotLoggedIn => Some("User not logged in."@),
        Reply::ServerOffline => Some("Server Offline"@),
        _ => if is_redirect(reply) {
            Some(Seq::empty())
        } else {
            None
        },
    }
}

/// The name of the template of a reply that is a page.
pub open spec fn page_name(reply: Reply) -> Option<Seq<char>> {
    match reply {
        Reply::Console => Some("template"@),
        Reply::OfflinePage => Some("offline"@),
        Reply::Login(_) => Some("login"@),
        Reply::NotFound => Some("404"@),
        _ => None,
    }
}

/// The texts that are handed to the template of a reply: the user's name
/// for the console, the notice for the login page.
pub open spec fn page_texts(reply: Reply, user: Seq<char>) -> Map<Seq<char>, Seq<char>> {
    match reply {
        Reply::Console => no_texts().insert("user"@, user),
        Reply::Login(notice) => no_texts().insert("login_error"@, notice_text(notice)),
        _ => no_texts(),
    }
}

/// The lists that are handed to the template of a reply: the output
/// `console` for the console.
pub open spec fn page_lists(reply: Reply, console: Seq<Seq<char>>) -> Map<
    Seq<char>,
    Seq<Seq<char>>,
> {
    match reply {
        Reply::Console => no_lists().insert("log_output"@, console),
        _ => no_lists(),
    }
}

/// The response that carries `reply` with the contents `body`.
pub open spec fn reply_text(reply: Reply, body: Seq<char>) -> Seq<char> {
    response_text(status_of(reply), body, extra_headers(reply))
}

/// `handlebars::Handlebars::render`: renders the template registered as
/// `name` with `context` as its data. Nothing is claimed of the outcome: it
/// depends on the templates that the caller has registered.
#[verifier::external_body]
fn render_page(
    pages: &handlebars::Handlebars<'_>,
    name: &str,
    context: &serde_json::Map<String, serde_json::Value>,
) -> (r: Result<String, handlebars::RenderError>) {
    pages.render(name, context)
}

/// The text of a notice.
pub fn notice_str(notice: Notice) -> (r: &'static str)
    ensures
        r@ == notice_text(notice),
{
    match notice {
        Notice::Online => "Server Status: Online",
        Notice::Offline => "Server Status: Offline",
        Notice::AlreadyRunning => "Server is already running",
        Notice::Starting => "Server is starting",
        Notice::Incorrect => "Username or Password Is Incorrect",
    }
}

/// The status line of the response that carries a reply.
pub fn status_line(reply: Reply) -> (r: &'static str)
    ensures
        r@ == status_of(reply),
{
    match reply {
        Reply::ToConsole | Reply::LoggedIn(_) | Reply::ToLogin | Reply::LoggedOut => {
            "HTTP/1.1 303 See Other"
        },
        Reply::NotFound => "HTTP/1.1 404 not found",
        _ => "HTTP/1.1 200 OK",
    }
}

/// The name of the template of a reply that is a page.
pub fn template_name(reply: Reply) -> (r: Option<&'static str>)
    ensures
        match r {
            Some(name) => page_name(reply) == Some(name@),
            None => page_name(reply) is None,
        },
{
    match reply {
        Reply::Console => Some("template"),
        Reply::OfflinePage => Some("offline"),
        Reply::Login(_) => Some("login"),
        Reply::NotFound => Some("404"),
        _ => None,
    }
}

/// The data that is handed to the template of a reply.
pub fn page_context(reply: Reply, config: &Config, console: &ServerIOHandler) -> (r:
    serde_json::Map<String, serde_json::Value>)
    ensures
        text_entries(r) == page_texts(reply, config.main_user@),
        list_entries(r) == page_lists(reply, console@),
{
    let mut context = new_fields();
    match reply {
        Reply::Console => {
            let lines = FieldValue::List(&console.total_string);
            insert_field(&mut context, "log_output".to_owned(), lines);
            let user = FieldValue::Text(config.main_user.clone());
            insert_field(&mut context, "user".to_owned(), user);
            assert(text_entries(context) =~= page_texts(reply, config.main_user@));
            assert(list_entries(context) =~= page_lists(reply, console@)) by {
                lemma_two_names();
            }
        },
        Reply::Login(notice) => {
            let text = FieldValue::Text(notice_str(notice).to_owned());
            insert_field(&mut context, "login_error".to_owned(), text);
            assert(list_entries(context) =~= page_lists(reply, console@));
        },
        _ => {},
    }
    context
}

/// The two names under which the console page gets its data differ.
proof fn lemma_two_names()
    ensures
        "log_output"@ != "user"@,
{
    reveal_strlit("log_output");
    reveal_strlit("user");
    assert("log_output"@.len() != "user"@.len());
}

/// The header line that sets the session cookie to the token of `number`.
pub fn session_cookie_line(number: u32) -> (r: String)
    ensures
        r@ == session_cookie(number),
{
    let mut line = "Set-Cookie: login=".to_owned();
    line.append(text_of(decimal(number as u64).as_slice()).as_str());
    line.append("; SameSite=Strict; Max-Age=86400");
    assert(line@ =~= session_cookie(number));
    line
}

/// The response that carries `reply` with the contents `body`, in answer to
/// `request`.
pub fn compose(request: ServerStream, reply: Reply, body: &str) -> (r: String)
    ensures
        r@ == reply_text(reply, body@),
{
    let cookie = match reply {
        Reply::LoggedIn(number) => session_cookie_line(number),
        _ => String::new(),
    };
    let mut headers: Vec<&str> = Vec::new();
    match reply {
        Reply::ToConsole => {
            headers.push("Location: /console");
        },
        Reply::LoggedIn(_) => {
            headers.push("Location: /console");
            headers.push(cookie.as_str());
        },
        Reply::ToLogin => {
            headers.push("Location: /");
        },
        Reply::LoggedOut => {
            headers.push("Location: /");
            headers.push("Set-Cookie: login=0; SameSite=Strict; Max-Age=-1");
        },
        _ => {},
    }
    assert(strs(headers@) =~= extra_headers(reply));
    request.write_request(status_line(reply), body, headers)
}

/// The response that carries the page `reply`, once its template was
/// rendered: `rendered` is what rendering gave, or nothing where it failed.
pub fn page_response(request: ServerStream, reply: Reply, rendered: Option<String>) -> (r: Result<
    String,
    RenderFailure,
>)
    ensures
        match rendered {
            Some(body) => r matches Ok(text) && text@ == reply_text(reply, body@),
            None => r is Err,
        },
{
    match rendered {
        Some(body) => Ok(compose(request, reply, body.as_str())),
        None => Err(RenderFailure {  }),
    }
}

/// The response that carries `reply`, in answer to `request`.
///
/// A reply that is no page always has its response, with the contents that
/// `plain_body` gives. A page is rendered by `pages` from the template that
/// `page_name` names and the data of `page_context`; its response is what
/// `page_response` makes of the outcome.
pub fn respond(
    request: ServerStream,
    reply: Reply,
    config: &Config,
    console: &ServerIOHandler,
    pages: &handlebars::Handlebars<'_>,
) -> (r: Result<String, RenderFailure>)
    ensures
        match plain_body(reply, console@) {
            Some(body) => r matches Ok(text) && text@ == reply_text(reply, body),
            None => r matches Ok(text) ==> exists|body: Seq<char>| text@ == #[trigger] reply_text(
                reply,
                body,
            ),
        },
{
    match template_name(reply) {
        Some(name) => {
            let context = page_context(reply, config, console);
            let rendered = match render_page(pages, name, &context) {
                Ok(body) => Some(body),
                Err(_) => None,
            };
            let r = page_response(request, reply, rendered);
            assert(rendered matches Some(body) ==> r matches Ok(text) && text@ == reply_text(
                reply,
                body@,
            ));
            r
        },
        None => {
            match reply {
                Reply::Data => {
                    let body = console.console_text();
                    Ok(compose(request, reply, body.as_str()))
                },
                Reply::NotLoggedIn => Ok(compose(request, reply, "User not logged in.")),
                Reply::ServerOffline => Ok(compose(request, reply, "Server Offline")),
                _ => {
                    proof {
                        reveal_strlit("");
                    }
                    assert(""@ =~= Seq::<char>::empty());
                    Ok(compose(request, reply, ""))
                },
            }
        },
    }
}

} // verus!
