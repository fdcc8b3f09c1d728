//! The decisions of one client connection: read a request, answer it, write
//! the answer, and close on end of stream or on an I/O failure. The caller
//! performs the reads and writes and reports what happened.
use crate::command::parse_spec;
use crate::server::{respond, BazaarServer};
use crate::text::{decode_lossy, lossy_of};
use vstd::prelude::*;

verus! {

/// Where a connection stands between two I/O operations.
#[derive(PartialEq, Eq, Structural, Clone, Copy, Debug)]
pub enum Session {
    /// Waiting for the next request.
    Reading,
    /// A reply is being written.
    Writing,
    /// The connection is over.
    Closed,
}

/// What the I/O side observed.
pub enum Event {
    /// A read returned these bytes (none: the peer closed its side).
    Received(Vec<u8>),
    /// A read failed.
    ReadFailed,
    /// The reply was written in full.
    Written,
    /// Writing the reply failed.
    WriteFailed,
}

/// What the I/O side is to do next.
pub enum Action {
    /// Read the next request.
    Read,
    /// Write this reply in full.
    Write(String),
    /// Close the socket.
    Close,
}

/// An action with its reply as characters.
pub enum ActionView {
    Read,
    Write(Seq<char>),
    Close,
}

impl View for Action {
    type V = ActionView;

    open spec fn view(&self) -> ActionView {
        match self {
            Action::Read => ActionView::Read,
            Action::Write(s) => ActionView::Write(s@),
            Action::Close => ActionView::Close,
        }
    }
}

/// The next state and action after `e` in state `s`, over catalog `items`.
/// An event that does not fit the state ends the connection.
pub open spec fn transition(items: Seq<crate::catalog::ItemView>, s: Session, e: Event) -> (
    Session,
    ActionView,
) {
    match (s, e) {
        (Session::Reading, Event::Received(b)) => if b@.len() == 0 {
            (Session::Closed, ActionView::Close)
        } else {
            (Session::Writing, ActionView::Write(respond(items, parse_spec(lossy_of(b@)))))
        },
        (Session::Writing, Event::Written) => (Session::Reading, ActionView::Read),
        _ => (Session::Closed, ActionView::Close),
    }
}

/// The state of a new connection and its first action.
pub fn open_session() -> (r: (Session, Action))
    ensures
        r.0 == Session::Reading,
        r.1@ == ActionView::Read,
{
    (Session::Reading, Action::Read)
}

/// Advances a connection by one observed event.
pub fn step(server: &BazaarServer, s: Session, e: Event) -> (r: (Session, Action))
    requires
        server.wf(),
    ensures
        (r.0, r.1@) == transition(server@, s, e),
{
    match (s, e) {
        (Session::Reading, Event::Received(b)) => {
            if b.len() == 0 {
                (Session::Closed, Action::Close)
            } else {
                let request = decode_lossy(b.as_slice());
                let reply = server.handle_command(request.as_str());
                (Session::Writing, Action::Write(reply))
            }
        },
        (Session::Writing, Event::Written) => (Session::Reading, Action::Read),
        _ => (Session::Closed, Action::Close),
    }
}

} // verus!
