//! WebSocket client state: the connection state, the queues of incoming
//! and outgoing messages and the errors seen, and what each event of the
//! connection does to them.  The thread that runs the connection feeds the
//! events in; the caller polls and sends.

use vstd::prelude::*;
use std::collections::VecDeque;
use crate::strlist::owned;
use crate::text::push_str;

verus! {

broadcast use vstd::string::group_string_axioms;

/// WebSocket connection state
#[derive(Debug)]
pub enum ConnectionState {
    Disconnected,
    Connecting,
    Connected,
    Error(String),
}

impl Clone for ConnectionState {
    fn clone(&self) -> (r: Self)
        ensures
            r == *self,
    {
        match self {
            ConnectionState::Disconnected => ConnectionState::Disconnected,
            ConnectionState::Connecting => ConnectionState::Connecting,
            ConnectionState::Connected => ConnectionState::Connected,
            ConnectionState::Error(e) => ConnectionState::Error(e.clone()),
        }
    }
}

impl ConnectionState {
    pub open spec fn spec_as_str(self) -> Seq<char> {
        match self {
            ConnectionState::Disconnected => "disconnected"@,
            ConnectionState::Connecting => "connecting"@,
            ConnectionState::Connected => "connected"@,
            ConnectionState::Error(_) => "error"@,
        }
    }

    pub fn as_str(&self) -> (r: &'static str)
        ensures
            r@ == self.spec_as_str(),
    {
        match self {
            ConnectionState::Disconnected => "disconnected",
            ConnectionState::Connecting => "connecting",
            ConnectionState::Connected => "connected",
            ConnectionState::Error(_) => "error",
        }
    }
}

/// What the connection delivered.
#[derive(Debug)]
pub enum WsEvent {
    Text(String),
    Binary(Vec<u8>),
    Ping,
    Pong,
    Close,
    Frame,
    Failed(String),
}

/// Name for the text that `String::from_utf8_lossy` makes of `bytes`.
pub uninterp spec fn lossy_text(bytes: Seq<u8>) -> Seq<char>;

/// The bytes as characters, one each.
pub open spec fn ascii_chars(bytes: Seq<u8>) -> Seq<char> {
    bytes.map_values(|b: u8| b as char)
}

/// `String::from_utf8_lossy`: the bytes decoded as UTF-8, each invalid
/// sequence replaced by U+FFFD.  The contract names the result, and states
/// that ASCII bytes decode to the same characters.
#[verifier::external_body]
fn utf8_lossy(bytes: &[u8]) -> (r: String)
    ensures
        r@ == lossy_text(bytes@),
        (forall|i: int| 0 <= i < bytes@.len() ==> bytes@[i] < 128) ==> r@ == ascii_chars(bytes@),
{
    String::from_utf8_lossy(bytes).to_string()
}

/// `prefix` followed by `detail`.
fn message(prefix: &str, detail: &str) -> (r: String)
    ensures
        r@ == prefix@ + detail@,
{
    let mut r = owned(prefix);
    push_str(&mut r, detail);
    r
}

/// A WebSocket client's state.
pub struct WsSession {
    url: String,
    state: ConnectionState,
    incoming: VecDeque<String>,
    outgoing: VecDeque<String>,
    errors: Vec<String>,
}

impl WsSession {
    pub closed spec fn spec_url(&self) -> Seq<char> {
        self.url@
    }

    pub closed spec fn spec_state(&self) -> ConnectionState {
        self.state
    }

    /// The messages received and not yet polled, oldest first.
    pub closed spec fn spec_incoming(&self) -> Seq<String> {
        self.incoming@
    }

    /// The messages queued for sending, oldest first.
    pub closed spec fn spec_outgoing(&self) -> Seq<String> {
        self.outgoing@
    }

    /// The errors not yet polled, oldest first.
    pub closed spec fn spec_errors(&self) -> Seq<String> {
        self.errors@
    }

    /// Only the state changed, to `s`.
    pub open spec fn only_state(&self, before: &WsSession, s: ConnectionState) -> bool {
        &&& self.spec_state() == s
        &&& self.spec_url() == before.spec_url()
        &&& self.spec_incoming() == before.spec_incoming()
        &&& self.spec_outgoing() == before.spec_outgoing()
        &&& self.spec_errors() == before.spec_errors()
    }

    /// Create new WebSocket client state, disconnected.
    pub fn new(url: &str) -> (w: Self)
        ensures
            w.spec_url() == url@,
            w.spec_state() == ConnectionState::Disconnected,
            w.spec_incoming().len() == 0,
            w.spec_outgoing().len() == 0,
            w.spec_errors().len() == 0,
    {
        WsSession {
            url: owned(url),
            state: ConnectionState::Disconnected,
            incoming: VecDeque::new(),
            outgoing: VecDeque::new(),
            errors: Vec::new(),
        }
    }

    /// A connection attempt begins.
    pub fn begin_connect(&mut self)
        ensures
            final(self).only_state(old(self), ConnectionState::Connecting),
    {
        self.state = ConnectionState::Connecting;
    }

    /// The connection is established.
    pub fn connected(&mut self)
        ensures
            final(self).only_state(old(self), ConnectionState::Connected),
    {
        self.state = ConnectionState::Connected;
    }

    /// The connection could not be established.
    pub fn connect_failed(&mut self, error: &str)
        ensures
            final(self).spec_state() matches ConnectionState::Error(e) && e@ == error@,
            final(self).spec_errors().len() == old(self).spec_errors().len() + 1,
            final(self).spec_errors().drop_last() == old(self).spec_errors(),
            final(self).spec_errors().last()@ == "Connection failed: "@ + error@,
            final(self).spec_incoming() == old(self).spec_incoming(),
            final(self).spec_outgoing() == old(self).spec_outgoing(),
            final(self).spec_url() == old(self).spec_url(),
    {
        self.state = ConnectionState::Error(owned(error));
        self.errors.push(message("Connection failed: ", error));
        proof {
            assert(self.errors@.drop_last() =~= old(self).errors@);
        }
    }

    /// Sending a queued message failed.
    pub fn send_failed(&mut self, error: &str)
        ensures
            final(self).spec_state() matches ConnectionState::Error(e) && e@ == error@,
            final(self).spec_errors().len() == old(self).spec_errors().len() + 1,
            final(self).spec_errors().drop_last() == old(self).spec_errors(),
            final(self).spec_errors().last()@ == "Send error: "@ + error@,
            final(self).spec_incoming() == old(self).spec_incoming(),
            final(self).spec_outgoing() == old(self).spec_outgoing(),
            final(self).spec_url() == old(self).spec_url(),
    {
        self.errors.push(message("Send error: ", error));
        self.state = ConnectionState::Error(owned(error));
        proof {
            assert(self.errors@.drop_last() =~= old(self).errors@);
        }
    }

    /// Handles what the connection delivered; whether to keep reading.
    /// Text is queued as it is and binary data as its lossy UTF-8 text; a
    /// close disconnects; a failure is recorded as an error and puts the
    /// state in error; pings, pongs and raw frames change nothing.
    pub fn on_event(&mut self, event: WsEvent) -> (keep_reading: bool)
        ensures
            final(self).spec_url() == old(self).spec_url(),
            final(self).spec_outgoing() == old(self).spec_outgoing(),
            match event {
                WsEvent::Text(t) => {
                    &&& keep_reading
                    &&& final(self).spec_incoming() == old(self).spec_incoming().push(t)
                    &&& final(self).spec_state() == old(self).spec_state()
                    &&& final(self).spec_errors() == old(self).spec_errors()
                },
                WsEvent::Binary(data) => {
                    &&& keep_reading
                    &&& final(self).spec_incoming().len() == old(self).spec_incoming().len() + 1
                    &&& final(self).spec_incoming().drop_last() == old(self).spec_incoming()
                    &&& final(self).spec_incoming().last()@ == lossy_text(data@)
                    &&& final(self).spec_state() == old(self).spec_state()
                    &&& final(self).spec_errors() == old(self).spec_errors()
                },
                WsEvent::Close => {
                    &&& !keep_reading
                    &&& final(self).spec_state() == ConnectionState::Disconnected
                    &&& final(self).spec_incoming() == old(self).spec_incoming()
                    &&& final(self).spec_errors() == old(self).spec_errors()
                },
                WsEvent::Failed(e) => {
                    &&& !keep_reading
                    &&& final(self).spec_state() matches ConnectionState::Error(s) && s@ == e@
                    &&& final(self).spec_incoming() == old(self).spec_incoming()
                    &&& final(self).spec_errors().len() == old(self).spec_errors().len() + 1
                    &&& final(self).spec_errors().drop_last() == old(self).spec_errors()
                    &&& final(self).spec_errors().last()@ == "Connection error: "@ + e@
                },
                _ => {
                    &&& keep_reading
                    &&& final(self).spec_state() == old(self).spec_state()
                    &&& final(self).spec_incoming() == old(self).spec_incoming()
                    &&& final(self).spec_errors() == old(self).spec_errors()
                },
            },
    {
        match event {
            WsEvent::Text(t) => {
                self.incoming.push_back(t);
                true
            },
            WsEvent::Binary(data) => {
                let t = utf8_lossy(data.as_slice());
                self.incoming.push_back(t);
                proof {
                    assert(self.incoming@.drop_last() =~= old(self).incoming@);
                }
                true
            },
            WsEvent::Close => {
                self.state = ConnectionState::Disconnected;
                false
            },
            WsEvent::Failed(e) => {
                self.errors.push(message("Connection error: ", e.as_str()));
                self.state = ConnectionState::Error(e);
                proof {
                    assert(self.errors@.drop_last() =~= old(self).errors@);
                }
                false
            },
            _ => true,
        }
    }

    /// Takes the oldest message queued for sending.
    pub fn next_outgoing(&mut self) -> (r: Option<String>)
        ensures
            old(self).spec_outgoing().len() == 0 ==> r is None && final(self).spec_outgoing()
                == old(self).spec_outgoing(),
            old(self).spec_outgoing().len() > 0 ==> r == Some(old(self).spec_outgoing()[0])
                && final(self).spec_outgoing() == old(self).spec_outgoing().drop_first(),
            final(self).spec_state() == old(self).spec_state(),
            final(self).spec_incoming() == old(self).spec_incoming(),
            final(self).spec_errors() == old(self).spec_errors(),
            final(self).spec_url() == old(self).spec_url(),
    {
        let m = self.outgoing.pop_front();
        proof {
            assert(old(self).outgoing@.subrange(1, old(self).outgoing@.len() as int)
                =~= old(self).outgoing@.drop_first());
        }
        m
    }

    /// Send message (adds it to the queue); an error unless connected.
    pub fn send(&mut self, message: &str) -> (r: Result<(), String>)
        ensures
            final(self).spec_state() == old(self).spec_state(),
            final(self).spec_incoming() == old(self).spec_incoming(),
            final(self).spec_errors() == old(self).spec_errors(),
            final(self).spec_url() == old(self).spec_url(),
            old(self).spec_state() is Connected ==> r is Ok && final(self).spec_outgoing().len()
                == old(self).spec_outgoing().len() + 1 && final(self).spec_outgoing().drop_last()
                == old(self).spec_outgoing() && final(self).spec_outgoing().last()@ == message@,
            !(old(self).spec_state() is Connected) ==> final(self).spec_outgoing() == old(
                self,
            ).spec_outgoing() && (r matches Err(e) && e@ == "WebSocket not connected (state: "@
                + old(self).spec_state().spec_as_str() + ")"@),
    {
        match self.state {
            ConnectionState::Connected => {},
            _ => {
                let mut e = owned("WebSocket not connected (state: ");
                push_str(&mut e, self.state.as_str());
                push_str(&mut e, ")");
                return Err(e);
            },
        }
        self.outgoing.push_back(owned(message));
        proof {
            assert(self.outgoing@.drop_last() =~= old(self).outgoing@);
        }
        Ok(())
    }

    /// Poll for incoming messages (returns next message or nil)
    pub fn poll_message(&mut self) -> (r: Option<String>)
        ensures
            old(self).spec_incoming().len() == 0 ==> r is None && final(self).spec_incoming()
                == old(self).spec_incoming(),
            old(self).spec_incoming().len() > 0 ==> r == Some(old(self).spec_incoming()[0])
                && final(self).spec_incoming() == old(self).spec_incoming().drop_first(),
            final(self).spec_state() == old(self).spec_state(),
            final(self).spec_outgoing() == old(self).spec_outgoing(),
            final(self).spec_errors() == old(self).spec_errors(),
            final(self).spec_url() == old(self).spec_url(),
    {
        let m = self.incoming.pop_front();
        proof {
            assert(old(self).incoming@.subrange(1, old(self).incoming@.len() as int)
                =~= old(self).incoming@.drop_first());
        }
        m
    }

    /// Get all pending messages, oldest first; none remain.
    pub fn poll_all_messages(&mut self) -> (r: Vec<String>)
        ensures
            r@ == old(self).spec_incoming(),
            final(self).spec_incoming().len() == 0,
            final(self).spec_state() == old(self).spec_state(),
            final(self).spec_outgoing() == old(self).spec_outgoing(),
            final(self).spec_errors() == old(self).spec_errors(),
            final(self).spec_url() == old(self).spec_url(),
    {
        let mut r: Vec<String> = Vec::new();
        let ghost all = self.incoming@;
        while self.incoming.len() > 0
            invariant
                all == old(self).incoming@,
                r@ + self.incoming@ == all,
                self.state == old(self).state,
                self.outgoing == old(self).outgoing,
                self.errors == old(self).errors,
                self.url == old(self).url,
            decreases self.incoming@.len(),
        {
            let ghost before = self.incoming@;
            match self.incoming.pop_front() {
                Some(m) => {
                    r.push(m);
                    proof {
                        assert(before =~= seq![m] + self.incoming@);
                        assert(r@ + self.incoming@ =~= all);
                    }
                },
                None => {},
            }
        }
        proof {
            assert(r@ =~= all);
        }
        r
    }

    /// Get connection state
    pub fn get_state(&self) -> (r: String)
        ensures
            r@ == self.spec_state().spec_as_str(),
    {
        owned(self.state.as_str())
    }

    /// Check if connected
    pub fn is_connected(&self) -> (b: bool)
        ensures
            b == self.spec_state() is Connected,
    {
        match self.state {
            ConnectionState::Connected => true,
            _ => false,
        }
    }

    /// Get pending errors, oldest first; none remain.
    pub fn poll_errors(&mut self) -> (r: Vec<String>)
        ensures
            r@ == old(self).spec_errors(),
            final(self).spec_errors().len() == 0,
            final(self).spec_state() == old(self).spec_state(),
            final(self).spec_incoming() == old(self).spec_incoming(),
            final(self).spec_outgoing() == old(self).spec_outgoing(),
            final(self).spec_url() == old(self).spec_url(),
    {
        let mut r: Vec<String> = Vec::new();
        std::mem::swap(&mut r, &mut self.errors);
        r
    }

    /// Close connection
    pub fn close(&mut self)
        ensures
            final(self).only_state(old(self), ConnectionState::Disconnected),
    {
        self.state = ConnectionState::Disconnected;
    }

    /// Get URL
    pub fn get_url(&self) -> (r: String)
        ensures
            r@ == self.spec_url(),
    {
        self.url.clone()
    }
}

} // verus!
