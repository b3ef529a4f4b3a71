//! One session with one server: the login handshake, then one command at a
//! time, each reply matched to the request that asked for it.
//!
//! The session neither reads nor writes. Its caller owns the socket: it sends
//! the frames the session hands out, and hands in what arrived, or that
//! nothing did. The session decides what each arrival means.

use vstd::prelude::*;
use crate::frame::{
    body_fault, decode, decoded, encode, encoded, lemma_decode_encode, Frame, FrameError,
    PacketKind,
};

verus! {

/// The id that a server puts on its answer to a login it refuses.
pub const AUTH_FAILED_ID: i16 = -1;

/// The id of the login frame, and the one that follows the largest id.
pub const FIRST_ID: i16 = 1;

/// The largest request id.
pub const LAST_ID: i16 = 32767;

/// Why a session could not be set up, or why it ended.
#[derive(Clone, Copy, Debug, PartialEq, Eq, Structural)]
pub enum ConnError {
    /// The host is no dotted IPv4 address.
    AddressParse,
    /// The socket could not be opened, written or read.
    Socket,
    /// The server refused the secret.
    AuthRejected,
    /// No reply came in time.
    Timeout,
    /// A reply carries an id that no pending request has.
    ProtocolDesync,
    /// A frame could not be built or read.
    Frame(FrameError),
    /// The session is in no state for the step asked of it.
    NotReady,
}

/// How the caller's socket failed.
#[derive(Clone, Copy, Debug, PartialEq, Eq, Structural)]
pub enum Transport {
    /// Nothing arrived within the time allowed.
    TimedOut,
    /// Connecting, writing or reading failed.
    Failed,
}

/// Where a session stands.
#[derive(Clone, Copy, Debug, PartialEq, Eq, Structural)]
pub enum Phase {
    /// The login frame is out, its answer is not in.
    Authenticating,
    /// Logged in, nothing pending.
    Ready,
    /// A command is out, its reply is not in.
    Awaiting,
    /// Over. Nothing is sent or accepted any more.
    Closed,
}

/// What an arrival was.
#[derive(Clone, Debug, PartialEq, Eq)]
pub enum Received {
    /// The reply to the pending command, with output.
    Text(String),
    /// The reply to the pending command, without output.
    Empty,
    /// The empty frame that some servers send behind a reply. It is no
    /// reply: a command that was pending still is.
    Discarded,
}

/// A session as the contracts speak of it.
pub ghost struct Session {
    pub phase: Phase,
    /// Whether an empty frame behind a reply is tolerated.
    pub quirks: bool,
    /// The id of the frame sent last.
    pub last_id: i16,
    /// The id of the reply behind which an empty frame may still come.
    pub trailer: Option<i16>,
}

/// What an arrival was, as the contracts speak of it.
pub ghost enum Arrival {
    Text(Seq<char>),
    Empty,
    Discarded,
}

/// The id that follows `id`: one more, and `FIRST_ID` behind `LAST_ID`.
pub open spec fn next_id(id: i16) -> i16 {
    if id == LAST_ID {
        FIRST_ID
    } else {
        (id + 1) as i16
    }
}

/// The error that a failure of the socket ends a session with.
pub open spec fn transport_error(cause: Transport) -> ConnError {
    match cause {
        Transport::TimedOut => ConnError::Timeout,
        Transport::Failed => ConnError::Socket,
    }
}

impl Session {
    /// What every session satisfies: ids are positive, so none is the refusal
    /// id; an empty frame is expected only where the session tolerates one,
    /// and only behind the reply that came last.
    pub open spec fn wf(self) -> bool {
        &&& FIRST_ID <= self.last_id
        &&& self.trailer is Some ==> self.quirks
        &&& match self.phase {
            Phase::Ready => self.trailer matches Some(t) ==> t == self.last_id,
            Phase::Awaiting => self.trailer matches Some(t) ==> next_id(t) == self.last_id,
            _ => self.trailer is None,
        }
    }

    /// The session that a login has just been sent for.
    pub open spec fn opened(quirks: bool) -> Session {
        Session { phase: Phase::Authenticating, quirks, last_id: FIRST_ID, trailer: None }
    }

    /// The same session, over.
    pub open spec fn closed(self) -> Session {
        Session { phase: Phase::Closed, trailer: None, ..self }
    }

    /// The session after the answer to its login, and whether it is in.
    ///
    /// A session that is not waiting for that answer stays as it is. Bytes
    /// that are no frame end it. The refusal id ends it with `AuthRejected`;
    /// the id of the login makes it ready; any other id ends it as out of step.
    pub open spec fn after_login_reply(self, bytes: Seq<u8>) -> (Session, Result<(), ConnError>) {
        if self.phase != Phase::Authenticating {
            (self, Err(ConnError::NotReady))
        } else {
            match decoded(bytes) {
                Err(e) => (self.closed(), Err(ConnError::Frame(e))),
                Ok(f) => if f.id == AUTH_FAILED_ID {
                    (self.closed(), Err(ConnError::AuthRejected))
                } else if f.id == self.last_id {
                    (Session { phase: Phase::Ready, ..self }, Ok(()))
                } else {
                    (self.closed(), Err(ConnError::ProtocolDesync))
                },
            }
        }
    }

    /// The session after it was asked to send `command`, and the frame to send.
    ///
    /// Only a ready session sends. A command that cannot be framed is not
    /// sent, and ends the session. Otherwise the frame carries the next id
    /// and the session waits for its reply.
    pub open spec fn after_begin(self, command: Seq<char>) -> (Session, Result<Seq<u8>, ConnError>) {
        if self.phase != Phase::Ready {
            (self, Err(ConnError::NotReady))
        } else {
            match body_fault(command) {
                Some(e) => (self.closed(), Err(ConnError::Frame(e))),
                None => {
                    let id = next_id(self.last_id);
                    (
                        Session { phase: Phase::Awaiting, last_id: id, ..self },
                        Ok(encoded(Frame { id, kind: PacketKind::Command, body: command })),
                    )
                },
            }
        }
    }

    /// The session has something to read: the reply to a pending command, or
    /// the empty frame that may follow the reply that came last.
    pub open spec fn listens(self) -> bool {
        self.phase == Phase::Awaiting || (self.phase == Phase::Ready && self.quirks
            && self.trailer is Some)
    }

    /// The session after an arrival, and what the arrival was.
    ///
    /// A session that has nothing to read stays as it is. Bytes that are no
    /// frame end it. A frame with the id of the pending command is its
    /// reply, whatever else is expected. Failing that, a session that
    /// tolerates it takes one empty frame with the id of the reply that came
    /// last as that reply's tail, once, be it before the next command is
    /// sent or after. Anything else ends the session as out of step.
    pub open spec fn after_arrival(self, bytes: Seq<u8>) -> (Session, Result<Arrival, ConnError>) {
        if !self.listens() {
            (self, Err(ConnError::NotReady))
        } else {
            match decoded(bytes) {
                Err(e) => (self.closed(), Err(ConnError::Frame(e))),
                Ok(f) => if self.phase == Phase::Awaiting && f.id == self.last_id {
                    (
                        Session {
                            phase: Phase::Ready,
                            trailer: if self.quirks {
                                Some(self.last_id)
                            } else {
                                None
                            },
                            ..self
                        },
                        Ok(
                            if f.body.len() == 0 {
                                Arrival::Empty
                            } else {
                                Arrival::Text(f.body)
                            },
                        ),
                    )
                } else if self.quirks && self.trailer == Some(f.id) && f.body.len() == 0 {
                    (Session { trailer: None, ..self }, Ok(Arrival::Discarded))
                } else {
                    (self.closed(), Err(ConnError::ProtocolDesync))
                },
            }
        }
    }
}

/// The model of what `receive` returns.
pub open spec fn arrival_result(r: Result<Received, ConnError>) -> Result<Arrival, ConnError> {
    match r {
        Ok(Received::Text(s)) => Ok(Arrival::Text(s@)),
        Ok(Received::Empty) => Ok(Arrival::Empty),
        Ok(Received::Discarded) => Ok(Arrival::Discarded),
        Err(e) => Err(e),
    }
}

/// The model of what `begin` returns.
pub open spec fn bytes_result(r: Result<Vec<u8>, ConnError>) -> Result<Seq<u8>, ConnError> {
    match r {
        Ok(v) => Ok(v@),
        Err(e) => Err(e),
    }
}

/// One session with one server.
pub struct Connection {
    phase: Phase,
    quirks: bool,
    last_id: i16,
    trailer: Option<i16>,
}

impl View for Connection {
    type V = Session;

    closed spec fn view(&self) -> Session {
        Session {
            phase: self.phase,
            quirks: self.quirks,
            last_id: self.last_id,
            trailer: self.trailer,
        }
    }
}

impl Connection {
    #[verifier::type_invariant]
    spec fn inv(&self) -> bool {
        self@.wf()
    }

    /// Starts a session: the session, and the login frame to send first.
    ///
    /// Fails, with no session, only where `secret` cannot be framed.
    pub fn open(secret: &str, quirks: bool) -> (r: Result<(Connection, Vec<u8>), ConnError>)
        ensures
            match body_fault(secret@) {
                Some(e) => r is Err && r->Err_0 == ConnError::Frame(e),
                None => r is Ok && r->Ok_0.0@ == Session::opened(quirks) && r->Ok_0.1@ == encoded(
                    Frame { id: FIRST_ID, kind: PacketKind::Login, body: secret@ },
                ),
            },
    {
        match encode(FIRST_ID, PacketKind::Login, secret) {
            Ok(bytes) => {
                let session = Connection {
                    phase: Phase::Authenticating,
                    quirks,
                    last_id: FIRST_ID,
                    trailer: None,
                };
                Ok((session, bytes))
            },
            Err(e) => Err(ConnError::Frame(e)),
        }
    }

    /// Where the session stands.
    pub fn phase(&self) -> (p: Phase)
        ensures
            p == self@.phase,
    {
        self.phase
    }

    /// Whether the session is logged in with nothing pending.
    pub fn is_ready(&self) -> (b: bool)
        ensures
            b == (self@.phase == Phase::Ready),
    {
        self.phase == Phase::Ready
    }

    /// Whether the session is over.
    pub fn is_closed(&self) -> (b: bool)
        ensures
            b == (self@.phase == Phase::Closed),
    {
        self.phase == Phase::Closed
    }

    /// Whether the session tolerates an empty frame behind a reply.
    pub fn quirks(&self) -> (b: bool)
        ensures
            b == self@.quirks,
    {
        self.quirks
    }

    /// The id of the frame sent last.
    pub fn last_id(&self) -> (id: i16)
        ensures
            id == self@.last_id,
            FIRST_ID <= id,
    {
        proof {
            use_type_invariant(self);
        }
        self.last_id
    }

    /// Takes the answer to the login.
    pub fn authenticate(&mut self, reply: &[u8]) -> (r: Result<(), ConnError>)
        ensures
            (final(self)@, r) == old(self)@.after_login_reply(reply@),
    {
        proof {
            use_type_invariant(&*self);
        }
        if self.phase != Phase::Authenticating {
            return Err(ConnError::NotReady);
        }
        match decode(reply) {
            Err(e) => {
                self.shut();
                Err(ConnError::Frame(e))
            },
            Ok(p) => {
                if p.id == AUTH_FAILED_ID {
                    self.shut();
                    Err(ConnError::AuthRejected)
                } else if p.id == self.last_id {
                    self.phase = Phase::Ready;
                    Ok(())
                } else {
                    self.shut();
                    Err(ConnError::ProtocolDesync)
                }
            },
        }
    }

    /// Frames `command` for sending.
    pub fn begin(&mut self, command: &str) -> (r: Result<Vec<u8>, ConnError>)
        ensures
            (final(self)@, bytes_result(r)) == old(self)@.after_begin(command@),
    {
        proof {
            use_type_invariant(&*self);
        }
        if self.phase != Phase::Ready {
            return Err(ConnError::NotReady);
        }
        let id: i16 = if self.last_id == LAST_ID {
            FIRST_ID
        } else {
            self.last_id + 1
        };
        match encode(id, PacketKind::Command, command) {
            Err(e) => {
                self.shut();
                Err(ConnError::Frame(e))
            },
            Ok(bytes) => {
                *self = Connection {
                    phase: Phase::Awaiting,
                    quirks: self.quirks,
                    last_id: id,
                    trailer: self.trailer,
                };
                Ok(bytes)
            },
        }
    }

    /// Whether the session has something to read.
    pub fn listens(&self) -> (b: bool)
        ensures
            b == self@.listens(),
    {
        self.phase == Phase::Awaiting || (self.phase == Phase::Ready && self.quirks
            && self.trailer.is_some())
    }

    /// Takes a frame that arrived.
    pub fn receive(&mut self, reply: &[u8]) -> (r: Result<Received, ConnError>)
        ensures
            (final(self)@, arrival_result(r)) == old(self)@.after_arrival(reply@),
    {
        proof {
            use_type_invariant(&*self);
        }
        if !self.listens() {
            return Err(ConnError::NotReady);
        }
        match decode(reply) {
            Err(e) => {
                self.shut();
                Err(ConnError::Frame(e))
            },
            Ok(p) => {
                let empty = p.body.as_str().unicode_len() == 0;
                if self.phase == Phase::Awaiting && p.id == self.last_id {
                    *self = Connection {
                        phase: Phase::Ready,
                        quirks: self.quirks,
                        last_id: self.last_id,
                        trailer: if self.quirks {
                            Some(self.last_id)
                        } else {
                            None
                        },
                    };
                    if empty {
                        Ok(Received::Empty)
                    } else {
                        Ok(Received::Text(p.body))
                    }
                } else if self.quirks && empty && self.expects_tail(p.id) {
                    self.trailer = None;
                    Ok(Received::Discarded)
                } else {
                    self.shut();
                    Err(ConnError::ProtocolDesync)
                }
            },
        }
    }

    /// Ends the session because the socket failed: the error to report.
    pub fn abort(&mut self, cause: Transport) -> (e: ConnError)
        ensures
            final(self)@ == old(self)@.closed(),
            e == transport_error(cause),
    {
        proof {
            use_type_invariant(&*self);
        }
        self.shut();
        match cause {
            Transport::TimedOut => ConnError::Timeout,
            Transport::Failed => ConnError::Socket,
        }
    }

    /// Ends the session.
    pub fn close(&mut self)
        ensures
            final(self)@ == old(self)@.closed(),
    {
        proof {
            use_type_invariant(&*self);
        }
        self.shut();
    }

    fn shut(&mut self)
        requires
            old(self)@.wf(),
        ensures
            final(self)@ == old(self)@.closed(),
    {
        self.trailer = None;
        self.phase = Phase::Closed;
    }

    fn expects_tail(&self, id: i16) -> (b: bool)
        ensures
            b == (self@.trailer == Some(id)),
    {
        match self.trailer {
            Some(t) => t == id,
            None => false,
        }
    }
}

/// A session is well formed when it is opened, and every step keeps it so.
pub proof fn lemma_steps_keep_wf(s: Session, bytes: Seq<u8>, command: Seq<char>, quirks: bool)
    requires
        s.wf(),
    ensures
        Session::opened(quirks).wf(),
        s.after_login_reply(bytes).0.wf(),
        s.after_begin(command).0.wf(),
        s.after_arrival(bytes).0.wf(),
        s.closed().wf(),
{
}

/// A login that the server answers with the refusal id fails as rejected and
/// ends the session, whatever else the answer holds.
pub proof fn lemma_refused_login_closes(s: Session, bytes: Seq<u8>)
    requires
        s.phase == Phase::Authenticating,
        decoded(bytes) is Ok,
        decoded(bytes)->Ok_0.id == AUTH_FAILED_ID,
    ensures
        s.after_login_reply(bytes) == (s.closed(), Err::<(), ConnError>(ConnError::AuthRejected)),
        s.after_login_reply(bytes).0.phase == Phase::Closed,
{
}

/// A session that is over stays over: no step changes it, none succeeds,
/// and it hands out no frame to send.
pub proof fn lemma_closed_is_final(s: Session, bytes: Seq<u8>, command: Seq<char>)
    requires
        s.phase == Phase::Closed,
    ensures
        s.after_login_reply(bytes) == (s, Err::<(), ConnError>(ConnError::NotReady)),
        s.after_begin(command) == (s, Err::<Seq<u8>, ConnError>(ConnError::NotReady)),
        s.after_arrival(bytes) == (s, Err::<Arrival, ConnError>(ConnError::NotReady)),
{
}

/// No command goes out before the login is accepted, and none while another
/// is pending: a frame is handed out only by a ready session, and a session
/// becomes ready only when the answer to its login, or the reply to its
/// pending command, carries the id that was sent.
pub proof fn lemma_one_command_at_a_time(s: Session, bytes: Seq<u8>, command: Seq<char>)
    ensures
        s.after_begin(command).1 is Ok ==> s.phase == Phase::Ready && s.after_begin(
            command,
        ).0.phase == Phase::Awaiting,
        s.phase != Phase::Ready && s.after_login_reply(bytes).0.phase == Phase::Ready
            ==> s.phase == Phase::Authenticating && decoded(bytes) is Ok && decoded(
            bytes,
        )->Ok_0.id == s.last_id,
        s.phase != Phase::Ready && s.after_arrival(bytes).0.phase == Phase::Ready ==> s.phase
            == Phase::Awaiting && decoded(bytes) is Ok && decoded(bytes)->Ok_0.id == s.last_id,
{
}

/// Every command gets a fresh id: the one after the last, never the refusal
/// id, and never the id whose empty tail may still arrive. So the tail of
/// one reply is not taken for the reply to the next command.
pub proof fn lemma_fresh_id(s: Session, command: Seq<char>)
    requires
        s.wf(),
        s.after_begin(command).1 is Ok,
    ensures
        s.after_begin(command).0.last_id == next_id(s.last_id),
        s.after_begin(command).0.last_id != s.last_id,
        s.after_begin(command).0.last_id != AUTH_FAILED_ID,
        s.after_begin(command).0.last_id >= FIRST_ID,
        s.trailer matches Some(t) ==> t != s.after_begin(command).0.last_id,
        s.last_id < LAST_ID ==> s.after_begin(command).0.last_id == s.last_id + 1,
{
}

/// What is accepted as the reply to a command is the body of a frame that
/// carries the id under which the command went out; the frame of that
/// command reads back as the command under that id.
pub proof fn lemma_reply_matches_request(s: Session, command: Seq<char>, bytes: Seq<u8>)
    requires
        s.after_begin(command).1 is Ok,
    ensures
        ({
            let (waiting, sent) = s.after_begin(command);
            let (after, got) = waiting.after_arrival(bytes);
            &&& decoded(sent->Ok_0) == Ok::<Frame, FrameError>(
                Frame { id: waiting.last_id, kind: PacketKind::Command, body: command },
            )
            &&& got matches Ok(Arrival::Text(text)) ==> decoded(bytes) is Ok && decoded(
                bytes,
            )->Ok_0.id == waiting.last_id && decoded(bytes)->Ok_0.body == text && text.len() > 0
            &&& got == Ok::<Arrival, ConnError>(Arrival::Empty) ==> decoded(bytes) is Ok
                && decoded(bytes)->Ok_0.id == waiting.last_id && decoded(bytes)->Ok_0.body.len()
                == 0
            &&& got is Err ==> after.phase == Phase::Closed
        }),
{
    let waiting = s.after_begin(command).0;
    lemma_decode_encode(Frame { id: waiting.last_id, kind: PacketKind::Command, body: command });
}

} // verus!
