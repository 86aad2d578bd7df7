//! The life of an HTTP/3 connection: requests are passed on to the upstream server
//! until one of them opens a WebTransport session, which takes the connection over.

use vstd::prelude::*;
use vstd::string::*;
use crate::headers;
use crate::headers::{session_headers, RequestError};
use crate::text;

verus! {

/// How many seconds a client has to send its settings once it asked for a session.
pub const SETTINGS_TIMEOUT_SECS: u64 = 5;

/// What a request asks for.
pub struct Head {
    pub method: Seq<char>,
    /// The protocol of an extended CONNECT.
    pub protocol: Option<Seq<char>>,
    pub path: Seq<char>,
}

/// The request opens a WebTransport session: an extended CONNECT for WebTransport
/// at the configured path.
pub open spec fn opens_session(head: Head, path: Seq<char>) -> bool {
    &&& head.method == "CONNECT"@
    &&& head.protocol == Some("webtransport"@)
    &&& head.path == path
}

/// What a request asks for.
#[derive(Debug, PartialEq, Eq)]
pub struct RequestHead {
    pub method: String,
    /// The protocol of an extended CONNECT.
    pub protocol: Option<String>,
    pub path: String,
}

impl View for RequestHead {
    type V = Head;

    open spec fn view(&self) -> Head {
        Head {
            method: self.method@,
            protocol: match self.protocol {
                Some(protocol) => Some(protocol@),
                None => None,
            },
            path: self.path@,
        }
    }
}

impl RequestHead {
    /// Whether the request opens a session.
    pub fn opens_session(&self, path: &str) -> (r: bool)
        ensures
            r == opens_session(self@, path@),
    {
        let webtransport = match &self.protocol {
            Some(protocol) => text::same(protocol.as_str(), "webtransport"),
            None => false,
        };
        webtransport && text::same(self.method.as_str(), "CONNECT") && text::same(
            self.path.as_str(),
            path,
        )
    }
}

/// Where a connection stands.
#[derive(Clone, Copy, Debug, PartialEq, Eq, Structural)]
pub enum Stage {
    /// It accepts requests.
    Accepting,
    /// A session was asked for; the settings of the client are awaited.
    Settling,
    /// A session has taken it over.
    Serving,
    Over,
}

/// What happens on a connection, but for requests.
#[derive(Clone, Copy, Debug, PartialEq, Eq, Structural)]
pub enum Event {
    /// The client closed the connection.
    Closed,
    /// The next request could not be accepted.
    AcceptFailed,
    /// An accepted request could not be read.
    Unreadable,
    /// There is nothing more to learn from the settings of the client.
    Settled,
    /// The settings of the client did not come in time.
    SettingsLate,
    /// The session came to its end.
    SessionEnded,
    /// The session could not be opened, or ended with an error.
    SessionFailed,
}

/// What happens on a connection.
pub enum Happening {
    Request(Head, Map<Seq<char>, Seq<Seq<u8>>>),
    Other(Event),
}

/// What to do next.
pub enum Deed {
    /// Pass the request on and accept the next one.
    Redirect,
    /// Wait for the settings of the client of a session for this protocol and
    /// endpoint.
    AwaitSettings(Seq<char>, Seq<char>),
    /// Open the session.
    OpenSession,
    /// Report a request that lacks what a session needs, and end.
    Refuse(RequestError),
    /// Report the error at hand, and end.
    Fail,
    /// End without an error.
    Finish,
}

/// What can happen at a stage.
pub open spec fn expected(stage: Stage, h: Happening) -> bool {
    match h {
        Happening::Request(_, _) => stage == Stage::Accepting,
        Happening::Other(Event::Closed) => stage == Stage::Accepting,
        Happening::Other(Event::AcceptFailed) => stage == Stage::Accepting,
        Happening::Other(Event::Unreadable) => stage == Stage::Accepting,
        Happening::Other(Event::Settled) => stage == Stage::Settling,
        Happening::Other(Event::SettingsLate) => stage == Stage::Settling,
        Happening::Other(Event::SessionEnded) => stage == Stage::Serving,
        Happening::Other(Event::SessionFailed) => stage == Stage::Serving,
    }
}

/// The stage after what happened, and what to do.
pub open spec fn next(path: Seq<char>, h: Happening) -> (Stage, Deed) {
    match h {
        Happening::Request(head, entries) => if !opens_session(head, path) {
            (Stage::Accepting, Deed::Redirect)
        } else {
            match headers::session_request(entries) {
                Ok((protocol, endpoint)) => (Stage::Settling, Deed::AwaitSettings(protocol, endpoint)),
                Err(e) => (Stage::Over, Deed::Refuse(e)),
            }
        },
        Happening::Other(Event::Closed) => (Stage::Over, Deed::Finish),
        Happening::Other(Event::AcceptFailed) => (Stage::Over, Deed::Finish),
        Happening::Other(Event::Unreadable) => (Stage::Over, Deed::Fail),
        Happening::Other(Event::Settled) => (Stage::Serving, Deed::OpenSession),
        Happening::Other(Event::SettingsLate) => (Stage::Over, Deed::Finish),
        Happening::Other(Event::SessionEnded) => (Stage::Over, Deed::Finish),
        Happening::Other(Event::SessionFailed) => (Stage::Over, Deed::Fail),
    }
}

/// What to do next.
#[derive(Debug, PartialEq, Eq)]
pub enum Action {
    /// Pass the request on and accept the next one.
    Redirect,
    /// Wait for the settings of the client.
    AwaitSettings { protocol: String, endpoint: String },
    /// Open the session.
    OpenSession,
    /// Report a request that lacks what a session needs, and end.
    Refuse(RequestError),
    /// Report the error at hand, and end.
    Fail,
    /// End without an error.
    Finish,
}

impl View for Action {
    type V = Deed;

    open spec fn view(&self) -> Deed {
        match *self {
            Action::Redirect => Deed::Redirect,
            Action::AwaitSettings { protocol, endpoint } => Deed::AwaitSettings(protocol@, endpoint@),
            Action::OpenSession => Deed::OpenSession,
            Action::Refuse(e) => Deed::Refuse(e),
            Action::Fail => Deed::Fail,
            Action::Finish => Deed::Finish,
        }
    }
}

/// A connection: where it stands, and the path of its sessions.
pub struct Connection {
    pub stage: Stage,
    pub path: String,
}

impl Connection {
    /// A new connection.
    pub fn new(path: &str) -> (r: Self)
        ensures
            r.stage == Stage::Accepting,
            r.path@ == path@,
    {
        Connection { stage: Stage::Accepting, path: path.to_owned() }
    }

    /// A request came.
    pub fn on_request(&mut self, head: &RequestHead, headers: &http::HeaderMap) -> (action: Action)
        requires
            old(self).stage == Stage::Accepting,
        ensures
            final(self).path == old(self).path,
            (final(self).stage, action@) == next(
                old(self).path@,
                Happening::Request(head@, headers::header_entries(*headers)),
            ),
    {
        if !head.opens_session(self.path.as_str()) {
            return Action::Redirect;
        }
        match session_headers(headers) {
            Ok((protocol, endpoint)) => {
                self.stage = Stage::Settling;
                Action::AwaitSettings { protocol, endpoint }
            },
            Err(e) => {
                self.stage = Stage::Over;
                Action::Refuse(e)
            },
        }
    }

    /// Something else happened.
    pub fn on_event(&mut self, event: Event) -> (action: Action)
        requires
            expected(old(self).stage, Happening::Other(event)),
        ensures
            final(self).path == old(self).path,
            (final(self).stage, action@) == next(old(self).path@, Happening::Other(event)),
    {
        let (stage, action) = match event {
            Event::Closed => (Stage::Over, Action::Finish),
            Event::AcceptFailed => (Stage::Over, Action::Finish),
            Event::Unreadable => (Stage::Over, Action::Fail),
            Event::Settled => (Stage::Serving, Action::OpenSession),
            Event::SettingsLate => (Stage::Over, Action::Finish),
            Event::SessionEnded => (Stage::Over, Action::Finish),
            Event::SessionFailed => (Stage::Over, Action::Fail),
        };
        self.stage = stage;
        action
    }
}

/// What is seen while the settings of a client are awaited.
#[derive(Clone, Copy, Debug, PartialEq, Eq, Structural)]
pub enum Seen {
    /// The settings, which allow WebTransport or not.
    Settings { webtransport: bool },
    /// A frame was read from the control stream.
    Frame,
    /// The control stream is broken.
    Broken,
    /// Nothing is there to read.
    Nothing,
}

/// How the wait for the settings goes on.
#[derive(Clone, Copy, Debug, PartialEq, Eq, Structural)]
pub enum Wait {
    /// It is over.
    Proceed,
    /// Look at the settings.
    Look,
    /// Read the control stream.
    Read,
    /// Wait until there is something to read.
    Suspend,
}

/// How the wait goes on. A frame may have been the settings, so they are looked at
/// again; a broken stream is left to whoever uses the connection next.
pub open spec fn wait_after(seen: Seen) -> Wait {
    match seen {
        Seen::Settings { webtransport } => if webtransport {
            Wait::Proceed
        } else {
            Wait::Read
        },
        Seen::Frame => Wait::Look,
        Seen::Broken => Wait::Proceed,
        Seen::Nothing => Wait::Suspend,
    }
}

/// How the wait for the settings goes on.
pub fn settings_wait(seen: Seen) -> (r: Wait)
    ensures
        r == wait_after(seen),
{
    match seen {
        Seen::Settings { webtransport } => if webtransport {
            Wait::Proceed
        } else {
            Wait::Read
        },
        Seen::Frame => Wait::Look,
        Seen::Broken => Wait::Proceed,
        Seen::Nothing => Wait::Suspend,
    }
}

/// The happenings can follow one another on a connection.
pub open spec fn possible(path: Seq<char>, happenings: Seq<Happening>) -> bool
    decreases happenings.len(),
{
    happenings.len() == 0 || {
        &&& possible(path, happenings.drop_last())
        &&& expected(stage_after(path, happenings.drop_last()), happenings.last())
    }
}

/// Where a connection stands after all that happened.
pub open spec fn stage_after(path: Seq<char>, happenings: Seq<Happening>) -> Stage {
    if happenings.len() == 0 {
        Stage::Accepting
    } else {
        next(path, happenings.last()).0
    }
}

/// A request for a session, with both of the headers that a session needs.
pub open spec fn asks_for_session(path: Seq<char>, h: Happening) -> bool {
    h matches Happening::Request(head, entries) && opens_session(head, path)
        && headers::session_request(entries) is Ok
}

/// Where a connection has been, by where it stands.
proof fn lemma_history(path: Seq<char>, happenings: Seq<Happening>)
    requires
        possible(path, happenings),
    ensures
        ({
            let n = happenings.len();
            match stage_after(path, happenings) {
                Stage::Accepting => forall|i: int|
                    0 <= i < n ==> (#[trigger] next(path, happenings[i])).1 is Redirect,
                Stage::Settling => n >= 1 && asks_for_session(path, happenings[n - 1]) && forall|i: int|
                    0 <= i < n - 1 ==> (#[trigger] next(path, happenings[i])).1 is Redirect,
                Stage::Serving => n >= 2 && asks_for_session(path, happenings[n - 2]) && next(
                    path,
                    happenings[n - 1],
                ).1 is OpenSession && forall|i: int|
                    0 <= i < n - 2 ==> (#[trigger] next(path, happenings[i])).1 is Redirect,
                Stage::Over => n >= 1 && !(next(path, happenings[n - 1]).1 is OpenSession),
            }
        }),
    decreases happenings.len(),
{
    if happenings.len() > 0 {
        let before = happenings.drop_last();
        lemma_history(path, before);
        assert(forall|i: int| 0 <= i < before.len() ==> before[i] == happenings[i]);
    }
}

/// A connection opens one session at most.
pub proof fn law_one_session_per_connection(path: Seq<char>, happenings: Seq<Happening>, i: int, j: int)
    requires
        possible(path, happenings),
        0 <= i < happenings.len(),
        0 <= j < happenings.len(),
        next(path, happenings[i]).1 is OpenSession,
        next(path, happenings[j]).1 is OpenSession,
    ensures
        i == j,
    decreases happenings.len(),
{
    let before = happenings.drop_last();
    assert(forall|k: int| 0 <= k < before.len() ==> before[k] == happenings[k]);
    if i < before.len() && j < before.len() {
        law_one_session_per_connection(path, before, i, j);
    } else if i < before.len() {
        lemma_open_once(path, before, i);
    } else if j < before.len() {
        lemma_open_once(path, before, j);
    }
}

/// Once a session was opened the connection serves it or is over.
proof fn lemma_open_once(path: Seq<char>, happenings: Seq<Happening>, i: int)
    requires
        possible(path, happenings),
        0 <= i < happenings.len(),
        next(path, happenings[i]).1 is OpenSession,
    ensures
        stage_after(path, happenings) == Stage::Serving || stage_after(path, happenings) == Stage::Over,
    decreases happenings.len(),
{
    if i < happenings.len() - 1 {
        let before = happenings.drop_last();
        assert(before[i] == happenings[i]);
        lemma_open_once(path, before, i);
    }
}

/// A session is opened only right after a request that asks for one, with both of
/// the headers that a session needs; all the requests before it were passed on.
pub proof fn law_a_session_is_asked_for(path: Seq<char>, happenings: Seq<Happening>, i: int)
    requires
        possible(path, happenings),
        0 <= i < happenings.len(),
        next(path, happenings[i]).1 is OpenSession,
    ensures
        i >= 1,
        asks_for_session(path, happenings[i - 1]),
        forall|k: int| 0 <= k < i - 1 ==> (#[trigger] next(path, happenings[k])).1 is Redirect,
    decreases happenings.len(),
{
    if i < happenings.len() - 1 {
        let before = happenings.drop_last();
        assert(forall|k: int| 0 <= k < before.len() ==> before[k] == happenings[k]);
        law_a_session_is_asked_for(path, before, i);
    } else {
        lemma_history(path, happenings);
    }
}

/// A request opens a session exactly if it is an extended CONNECT for WebTransport at the
/// configured path.
pub proof fn law_opens_session(head: Head, path: Seq<char>)
    ensures
        opens_session(head, path) <==> head.method == "CONNECT"@ && head.protocol == Some("webtransport"@)
            && head.path == path,
{
}

/// A request that opens no session is passed on, and the connection accepts the next
/// one.
pub proof fn law_other_requests_are_passed_on(
    path: Seq<char>,
    head: Head,
    entries: Map<Seq<char>, Seq<Seq<u8>>>,
)
    requires
        head.method != "CONNECT"@ || head.protocol != Some("webtransport"@) || head.path != path,
    ensures
        next(path, Happening::Request(head, entries)) == (Stage::Accepting, Deed::Redirect),
{
}

/// A request that opens a session is answered by what its headers say: the session is for
/// the protocol and the endpoint in them, or the request is refused.
pub proof fn law_sessions_are_for_what_was_asked(path: Seq<char>, entries: Map<Seq<char>, Seq<Seq<u8>>>)
    ensures
        ({
            let head = Head { method: "CONNECT"@, protocol: Some("webtransport"@), path };
            match headers::session_request(entries) {
                Ok((protocol, endpoint)) => next(path, Happening::Request(head, entries)) == (
                    Stage::Settling,
                    Deed::AwaitSettings(protocol, endpoint),
                ),
                Err(e) => next(path, Happening::Request(head, entries)) == (Stage::Over, Deed::Refuse(e)),
            }
        }),
{
}

/// What else happens, where it can happen, and what comes of it.
pub proof fn law_other_events(path: Seq<char>, stage: Stage, e: Event)
    ensures
        expected(stage, Happening::Other(e)) <==> (match e {
            Event::Closed | Event::AcceptFailed | Event::Unreadable => stage is Accepting,
            Event::Settled | Event::SettingsLate => stage is Settling,
            Event::SessionEnded | Event::SessionFailed => stage is Serving,
        }),
        next(path, Happening::Other(e)) == (match e {
            Event::Closed | Event::AcceptFailed | Event::SettingsLate | Event::SessionEnded => (
                Stage::Over,
                Deed::Finish,
            ),
            Event::Unreadable | Event::SessionFailed => (Stage::Over, Deed::Fail),
            Event::Settled => (Stage::Serving, Deed::OpenSession),
        }),
{
}

/// The wait for the settings ends when they allow WebTransport or cannot be read; they
/// are looked at again after each frame.
pub proof fn law_wait(seen: Seen)
    ensures
        wait_after(seen) is Proceed <==> seen == (Seen::Settings { webtransport: true }) || seen is Broken,
        wait_after(seen) is Read <==> seen == (Seen::Settings { webtransport: false }),
        wait_after(seen) is Look <==> seen is Frame,
        wait_after(seen) is Suspend <==> seen is Nothing,
{
}

/// Requests and actions are looked at as what they hold.
pub proof fn law_requests_are_what_they_hold(head: RequestHead, protocol: String, endpoint: String)
    ensures
        head@.method == head.method@ && head@.path == head.path@,
        head@.protocol is Some <==> head.protocol is Some,
        head.protocol matches Some(p) ==> head@.protocol == Some(p@),
        (Action::AwaitSettings { protocol, endpoint })@ == Deed::AwaitSettings(protocol@, endpoint@),
{
}

/// The other actions are looked at as what they are.
pub proof fn law_actions_are_what_they_are(e: RequestError)
    ensures
        Action::Redirect@ is Redirect,
        Action::OpenSession@ is OpenSession,
        Action::Refuse(e)@ == Deed::Refuse(e),
        Action::Fail@ is Fail,
        Action::Finish@ is Finish,
{
}

} // verus!
