//! Replies of the web server.
use vstd::prelude::*;

use crate::effects::{FileWrite, FileWriteView};
use crate::escape::{escaped, json_escape, Escape};
use crate::number::{dec, push_dec};
use crate::text::{byte_count, byte_len};

verus! {

// ---------------------------------------------------------------------------
// Replies
// ---------------------------------------------------------------------------

/// The answer to a request.
#[derive(Debug, PartialEq, Eq)]
pub enum Reply {
    /// A page.
    Html(String),
    /// A JSON document.
    Json(String),
    /// A status and a message about what went wrong.
    Error(u16, String),
    /// Another location.
    Redirect(String),
    /// Another location and a cookie to keep.
    RedirectWithCookie(String, String),
    /// There is no such route.
    NotFound,
}

/// A reply with its texts as sequences of characters.
pub enum ReplyView {
    Html(Seq<char>),
    Json(Seq<char>),
    Error(u16, Seq<char>),
    Redirect(Seq<char>),
    RedirectWithCookie(Seq<char>, Seq<char>),
    NotFound,
}

impl View for Reply {
    type V = ReplyView;

    open spec fn view(&self) -> ReplyView {
        match *self {
            Reply::Html(s) => ReplyView::Html(s@),
            Reply::Json(s) => ReplyView::Json(s@),
            Reply::Error(n, s) => ReplyView::Error(n, s@),
            Reply::Redirect(s) => ReplyView::Redirect(s@),
            Reply::RedirectWithCookie(s, c) => ReplyView::RedirectWithCookie(s@, c@),
            Reply::NotFound => ReplyView::NotFound,
        }
    }
}

/// The text of a response with a body; its length is given in bytes.
pub open spec fn response(
    status: nat,
    reason: Seq<char>,
    ctype: Seq<char>,
    body: Seq<char>,
) -> Seq<char> {
    "HTTP/1.1 "@ + dec(status) + " "@ + reason + "\r\nContent-Type: "@ + ctype
        + "\r\nContent-Length: "@ + dec(byte_len(body)) + "\r\nConnection: close\r\n\r\n"@ + body
}

/// The JSON document of an error message.
pub open spec fn error_json(msg: Seq<char>) -> Seq<char> {
    "{\"error\":\""@ + escaped(msg, Escape::Json) + "\"}"@
}

/// The text of a redirection.
pub open spec fn redirection(location: Seq<char>) -> Seq<char> {
    "HTTP/1.1 302 Found\r\nLocation: "@ + location
        + "\r\nContent-Length: 0\r\nConnection: close\r\n\r\n"@
}

/// The text of a redirection that sets a cookie.
pub open spec fn redirection_with_cookie(location: Seq<char>, cookie: Seq<char>) -> Seq<char> {
    "HTTP/1.1 302 Found\r\nLocation: "@ + location + "\r\nSet-Cookie: "@ + cookie
        + "\r\nContent-Length: 0\r\nConnection: close\r\n\r\n"@
}

/// The text that a reply sends.
pub open spec fn reply_text(r: ReplyView) -> Seq<char> {
    match r {
        ReplyView::Html(body) => response(200, "OK"@, "text/html; charset=utf-8"@, body),
        ReplyView::Json(body) => response(200, "OK"@, "application/json"@, body),
        ReplyView::Error(status, msg) => response(
            status as nat,
            "Error"@,
            "application/json"@,
            error_json(msg),
        ),
        ReplyView::Redirect(location) => redirection(location),
        ReplyView::RedirectWithCookie(location, cookie) => redirection_with_cookie(
            location,
            cookie,
        ),
        ReplyView::NotFound => response(404, "Not Found"@, "text/plain"@, "404 Not Found"@),
    }
}

/// The text of a response with a body.
pub fn send_response(status: u16, reason: &str, ctype: &str, body: &str) -> (r: String)
    ensures
        r@ == response(status as nat, reason@, ctype@, body@),
{
    let mut out = String::new();
    out.append("HTTP/1.1 ");
    push_dec(&mut out, status as u128);
    out.append(" ");
    out.append(reason);
    out.append("\r\nContent-Type: ");
    out.append(ctype);
    out.append("\r\nContent-Length: ");
    push_dec(&mut out, byte_count(body) as u128);
    out.append("\r\nConnection: close\r\n\r\n");
    out.append(body);
    assert(out@ =~= response(status as nat, reason@, ctype@, body@));
    out
}

/// The text of a response with a page.
pub fn send_html(html: &str) -> (r: String)
    ensures
        r@ == response(200, "OK"@, "text/html; charset=utf-8"@, html@),
{
    send_response(200, "OK", "text/html; charset=utf-8", html)
}

/// The text of a response with a JSON document.
pub fn send_json_ok(body: &str) -> (r: String)
    ensures
        r@ == response(200, "OK"@, "application/json"@, body@),
{
    send_response(200, "OK", "application/json", body)
}

/// The text of a response with an error message.
pub fn send_json_err(status: u16, msg: &str) -> (r: String)
    ensures
        r@ == response(status as nat, "Error"@, "application/json"@, error_json(msg@)),
{
    let mut body = String::new();
    body.append("{\"error\":\"");
    body.append(json_escape(msg).as_str());
    body.append("\"}");
    assert(body@ =~= error_json(msg@));
    send_response(status, "Error", "application/json", body.as_str())
}

/// The text of a redirection.
pub fn send_redirect(location: &str) -> (r: String)
    ensures
        r@ == redirection(location@),
{
    let mut out = String::new();
    out.append("HTTP/1.1 302 Found\r\nLocation: ");
    out.append(location);
    out.append("\r\nContent-Length: 0\r\nConnection: close\r\n\r\n");
    assert(out@ =~= redirection(location@));
    out
}

/// The text of a redirection that sets a cookie.
pub fn send_redirect_with_cookie(location: &str, cookie: &str) -> (r: String)
    ensures
        r@ == redirection_with_cookie(location@, cookie@),
{
    let mut out = String::new();
    out.append("HTTP/1.1 302 Found\r\nLocation: ");
    out.append(location);
    out.append("\r\nSet-Cookie: ");
    out.append(cookie);
    out.append("\r\nContent-Length: 0\r\nConnection: close\r\n\r\n");
    assert(out@ =~= redirection_with_cookie(location@, cookie@));
    out
}

impl Reply {
    /// The text that the reply sends.
    pub fn text(&self) -> (r: String)
        ensures
            r@ == reply_text(self@),
    {
        match self {
            Reply::Html(body) => send_html(body.as_str()),
            Reply::Json(body) => send_json_ok(body.as_str()),
            Reply::Error(status, msg) => send_json_err(*status, msg.as_str()),
            Reply::Redirect(location) => send_redirect(location.as_str()),
            Reply::RedirectWithCookie(location, cookie) => send_redirect_with_cookie(
                location.as_str(),
                cookie.as_str(),
            ),
            Reply::NotFound => send_response(404, "Not Found", "text/plain", "404 Not Found"),
        }
    }
}

/// What to do with a request.
#[derive(Debug, PartialEq, Eq)]
pub enum Plan {
    /// Answer it.
    Answer(Reply),
    /// Write a file; the answer depends on that.
    Write(FileWrite),
    /// Write a file and, if that goes well, run a line of the shell; the answer
    /// depends on both.
    WriteThenRun(FileWrite, String),
    /// Run a line of the shell; the answer depends on that.
    Run(String),
    /// Go on: nothing stands in the way.
    Go,
}

/// A plan with its texts as sequences of characters.
pub enum PlanView {
    Answer(ReplyView),
    Write(FileWriteView),
    WriteThenRun(FileWriteView, Seq<char>),
    Run(Seq<char>),
    Go,
}

impl View for Plan {
    type V = PlanView;

    open spec fn view(&self) -> PlanView {
        match *self {
            Plan::Answer(r) => PlanView::Answer(r@),
            Plan::Write(w) => PlanView::Write(w@),
            Plan::WriteThenRun(w, s) => PlanView::WriteThenRun(w@, s@),
            Plan::Run(s) => PlanView::Run(s@),
            Plan::Go => PlanView::Go,
        }
    }
}

/// A reply where there is one, as its view.
pub open spec fn reply_opt(r: Option<Reply>) -> Option<ReplyView> {
    match r {
        Some(x) => Some(x@),
        None => None,
    }
}

/// An error reply.
pub fn error(status: u16, msg: &str) -> (r: Reply)
    ensures
        r@ == ReplyView::Error(status, msg@),
{
    Reply::Error(status, msg.to_owned())
}

/// A reply with a JSON document.
pub fn json(body: &str) -> (r: Reply)
    ensures
        r@ == ReplyView::Json(body@),
{
    Reply::Json(body.to_owned())
}

} // verus!
