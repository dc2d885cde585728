use vstd::prelude::*;
use vstd::utf8::*;
use crate::error::TailError;
use crate::frame::{encode_frame, frame_chars, json_string, Timestamp};
use crate::snapshot::{decode_text, snapshot_bytes, snapshot_text};

verus! {

broadcast use vstd::utf8::group_utf8_lib;

/// Where a session stands.
#[derive(Debug, Clone, Copy, PartialEq, Eq, Structural)]
pub enum Phase {
    /// Waiting for the client's first message.
    Greeting,
    /// Reading and sending the snapshot.
    Snapshot,
    /// Relaying appended lines.
    Streaming,
    /// Ended; nothing more happens.
    Closed,
}

/// What the outside world reports to a session.
#[derive(Debug)]
pub enum Event {
    /// The client sent its first message.
    Greeted,
    /// The client closed the connection, or its channel failed.
    ClientGone,
    /// The trailing window of the file was read from `offset`; the file was
    /// last modified at `time`.
    SnapshotRead { time: Timestamp, offset: u64, window: Vec<u8> },
    /// The file could not be opened or read for the snapshot.
    SnapshotFailed(TailError),
    /// The frame last asked for was sent.
    Sent,
    /// The frame last asked for could not be sent.
    SendFailed,
    /// The change subscription is set up.
    WatchReady,
    /// The change subscription could not be set up.
    WatchFailed,
    /// The watcher yielded a line; `modified` is the file's modification time
    /// read for it, where it could be read.
    Line { modified: Option<Timestamp>, line: Vec<u8> },
    /// The watcher gave up on the file.
    WatchFatal,
}

/// What a session asks the outside world to do next.
#[derive(Debug)]
pub enum Action {
    /// Read the snapshot window and report `SnapshotRead` or `SnapshotFailed`.
    ReadSnapshot,
    /// Send this text frame and report `Sent` or `SendFailed`.
    Send(String),
    /// Set up the change subscription and report `WatchReady` or `WatchFailed`.
    OpenWatch,
    /// Wait for the next line and report `Line` or `WatchFatal`.
    AwaitLine,
    /// Release the subscription and close the connection; the error that
    /// ended the session, if one did.
    Close(Option<TailError>),
    /// The event changes nothing.
    Ignore,
}

/// The state of one client connection.
#[derive(Debug, Clone, Copy, PartialEq, Eq, Structural)]
pub struct Session {
    pub phase: Phase,
    /// A frame was handed out and its outcome is not yet reported.
    pub sending: bool,
    /// The snapshot frame went out.
    pub snapshot_sent: bool,
}

/// `f` is the frame for `text` at `t`.
pub open spec fn frame_of(f: Seq<char>, t: Timestamp, text: Seq<char>) -> bool {
    f == frame_chars(t, json_string(text))
}

pub open spec fn closed(s: Session) -> Session {
    Session { phase: Phase::Closed, sending: false, snapshot_sent: s.snapshot_sent }
}

pub open spec fn with_sending(s: Session, sending: bool) -> Session {
    Session { phase: s.phase, sending, snapshot_sent: s.snapshot_sent }
}

/// The session after `e`.
pub open spec fn next_session(s: Session, e: Event) -> Session {
    if s.phase == Phase::Closed {
        s
    } else if e is ClientGone {
        closed(s)
    } else {
        match s.phase {
            Phase::Greeting => if e is Greeted {
                Session { phase: Phase::Snapshot, sending: false, snapshot_sent: false }
            } else {
                s
            },
            Phase::Snapshot => if !s.sending {
                match e {
                    Event::SnapshotRead { window, .. } => if valid_utf8(window@) {
                        with_sending(s, true)
                    } else {
                        closed(s)
                    },
                    Event::SnapshotFailed(_) => closed(s),
                    _ => s,
                }
            } else {
                match e {
                    Event::Sent => Session {
                        phase: Phase::Streaming,
                        sending: false,
                        snapshot_sent: true,
                    },
                    Event::SendFailed => closed(s),
                    _ => s,
                }
            },
            _ => match e {
                Event::WatchFailed => closed(s),
                Event::WatchFatal => closed(s),
                Event::SendFailed => if s.sending {
                    closed(s)
                } else {
                    s
                },
                Event::Sent => with_sending(s, false),
                Event::Line { line, .. } => if !s.sending && valid_utf8(line@) {
                    with_sending(s, true)
                } else {
                    s
                },
                _ => s,
            },
        }
    }
}

/// `a` is what the session asks for on `e`.
pub open spec fn action_for(s: Session, e: Event, a: Action) -> bool {
    if s.phase == Phase::Closed {
        a is Ignore
    } else if e is ClientGone {
        a == Action::Close(None)
    } else {
        match s.phase {
            Phase::Greeting => if e is Greeted {
                a is ReadSnapshot
            } else {
                a is Ignore
            },
            Phase::Snapshot => if !s.sending {
                match e {
                    Event::SnapshotRead { time, offset, window } => if valid_utf8(window@) {
                        a matches Action::Send(f) && frame_of(
                            f@,
                            time,
                            decode_utf8(snapshot_bytes(offset as nat, window@)),
                        )
                    } else {
                        a == Action::Close(Some(TailError::Decode))
                    },
                    Event::SnapshotFailed(err) => a == Action::Close(Some(err)),
                    _ => a is Ignore,
                }
            } else {
                match e {
                    Event::Sent => a is OpenWatch,
                    Event::SendFailed => a == Action::Close(Some(TailError::SendFailure)),
                    _ => a is Ignore,
                }
            },
            _ => match e {
                Event::WatchFailed => a == Action::Close(Some(TailError::WatchSetup)),
                Event::WatchFatal => a == Action::Close(Some(TailError::WatchFatal)),
                Event::WatchReady => a is AwaitLine,
                Event::SendFailed => if s.sending {
                    a == Action::Close(Some(TailError::SendFailure))
                } else {
                    a is Ignore
                },
                Event::Sent => if s.sending {
                    a is AwaitLine
                } else {
                    a is Ignore
                },
                Event::Line { modified, line } => if s.sending {
                    a is Ignore
                } else if valid_utf8(line@) {
                    a matches Action::Send(f) && frame_of(
                        f@,
                        match modified {
                            Some(t) => t,
                            None => Timestamp { secs: 0, nanos: 0 },
                        },
                        decode_utf8(line@),
                    )
                } else {
                    a is AwaitLine
                },
                _ => a is Ignore,
            },
        }
    }
}

impl Session {
    pub open spec fn wf(&self) -> bool {
        &&& self.phase == Phase::Greeting ==> !self.sending && !self.snapshot_sent
        &&& self.phase == Phase::Snapshot ==> !self.snapshot_sent
        &&& self.phase == Phase::Streaming ==> self.snapshot_sent
        &&& self.phase == Phase::Closed ==> !self.sending
    }

    /// A session that waits for the client's first message.
    pub fn new() -> (r: Session)
        ensures
            r == initial_session(),
            r.wf(),
    {
        Session { phase: Phase::Greeting, sending: false, snapshot_sent: false }
    }

    pub fn is_closed(&self) -> (r: bool)
        ensures
            r == (self.phase == Phase::Closed),
    {
        self.phase == Phase::Closed
    }

    fn close(&mut self, err: Option<TailError>) -> (a: Action)
        ensures
            *final(self) == closed(*old(self)),
            a == Action::Close(err),
    {
        self.phase = Phase::Closed;
        self.sending = false;
        Action::Close(err)
    }

    /// Takes one event and returns what to do next.
    pub fn step(&mut self, e: Event) -> (a: Action)
        requires
            old(self).wf(),
        ensures
            final(self).wf(),
            *final(self) == next_session(*old(self), e),
            action_for(*old(self), e, a),
    {
        let ghost e0 = e;
        if self.phase == Phase::Closed {
            return Action::Ignore;
        }
        if let Event::ClientGone = e {
            return self.close(None);
        }
        match self.phase {
            Phase::Greeting => {
                if let Event::Greeted = e {
                    self.phase = Phase::Snapshot;
                    Action::ReadSnapshot
                } else {
                    Action::Ignore
                }
            },
            Phase::Snapshot => {
                if !self.sending {
                    match e {
                        Event::SnapshotRead { time, offset, window } => {
                            match snapshot_text(offset, window.as_slice()) {
                                Ok(text) => {
                                    self.sending = true;
                                    let f = encode_frame(time, text.as_str());
                                    Action::Send(f)
                                },
                                Err(err) => self.close(Some(err)),
                            }
                        },
                        Event::SnapshotFailed(err) => self.close(Some(err)),
                        _ => Action::Ignore,
                    }
                } else {
                    match e {
                        Event::Sent => {
                            self.phase = Phase::Streaming;
                            self.sending = false;
                            self.snapshot_sent = true;
                            Action::OpenWatch
                        },
                        Event::SendFailed => self.close(Some(TailError::SendFailure)),
                        _ => Action::Ignore,
                    }
                }
            },
            _ => {
                match e {
                    Event::WatchFailed => self.close(Some(TailError::WatchSetup)),
                    Event::WatchFatal => self.close(Some(TailError::WatchFatal)),
                    Event::WatchReady => Action::AwaitLine,
                    Event::SendFailed => {
                        if self.sending {
                            self.close(Some(TailError::SendFailure))
                        } else {
                            Action::Ignore
                        }
                    },
                    Event::Sent => {
                        if self.sending {
                            self.sending = false;
                            Action::AwaitLine
                        } else {
                            Action::Ignore
                        }
                    },
                    Event::Line { modified, line } => {
                        if self.sending {
                            Action::Ignore
                        } else {
                            match decode_text(line.as_slice()) {
                                Some(text) => {
                                    let t = match modified {
                                        Some(t) => t,
                                        None => Timestamp::epoch(),
                                    };
                                    self.sending = true;
                                    Action::Send(encode_frame(t, text))
                                },
                                None => Action::AwaitLine,
                            }
                        }
                    },
                    _ => Action::Ignore,
                }
            },
        }
    }
}

/// A session sends its snapshot frame before any line frame: it sends only
/// in `Snapshot` before the snapshot went out and only in `Streaming` after,
/// it leaves `Snapshot` for `Streaming` only once the snapshot frame was
/// reported sent, and it never forgets that it was.
pub proof fn lemma_snapshot_first(s: Session, e: Event, a: Action)
    requires
        s.wf(),
        action_for(s, e, a),
    ensures
        next_session(s, e).wf(),
        a is Send ==> (s.phase == Phase::Snapshot && !s.snapshot_sent) || (s.phase
            == Phase::Streaming && s.snapshot_sent),
        a is Send && s.phase == Phase::Snapshot ==> e is SnapshotRead,
        a is ReadSnapshot ==> s.phase == Phase::Greeting && !s.snapshot_sent,
        a is OpenWatch ==> s.phase == Phase::Snapshot && s.sending && e is Sent,
        a is AwaitLine ==> s.phase == Phase::Streaming && s.snapshot_sent,
        s.snapshot_sent ==> next_session(s, e).snapshot_sent,
        !s.snapshot_sent && next_session(s, e).phase == Phase::Streaming ==> s.phase
            == Phase::Snapshot && s.sending && e is Sent,
{
}

/// The session before any event.
pub open spec fn initial_session() -> Session {
    Session { phase: Phase::Greeting, sending: false, snapshot_sent: false }
}

/// The session after the events `es`, taken in order from `s`.
pub open spec fn run(s: Session, es: Seq<Event>) -> Session
    decreases es.len(),
{
    if es.len() == 0 {
        s
    } else {
        next_session(run(s, es.drop_last()), es.last())
    }
}

/// Every session reached from a fresh one is well formed.
pub proof fn lemma_run_wf(es: Seq<Event>)
    ensures
        run(initial_session(), es).wf(),
    decreases es.len(),
{
    if es.len() > 0 {
        lemma_run_wf(es.drop_last());
    }
}

/// Along any run of a fresh session, a frame asked for before the snapshot
/// went out is the snapshot frame itself, and every later frame comes while
/// streaming: no line is sent ahead of the snapshot. The snapshot is read
/// only before it went out, and the watch is opened, and lines are awaited,
/// only after it was reported sent.
pub proof fn lemma_run_snapshot_first(es: Seq<Event>, k: int, a: Action)
    requires
        0 <= k < es.len(),
        action_for(run(initial_session(), es.take(k)), es[k], a),
    ensures
        ({
            let sk = run(initial_session(), es.take(k));
            &&& a is Send ==> {
                ||| sk.phase == Phase::Snapshot && !sk.snapshot_sent && es[k] is SnapshotRead
                ||| sk.phase == Phase::Streaming && sk.snapshot_sent
            }
            &&& a is ReadSnapshot ==> !sk.snapshot_sent
            &&& a is OpenWatch ==> next_session(sk, es[k]).snapshot_sent
            &&& a is AwaitLine ==> sk.snapshot_sent
        }),
{
    lemma_run_wf(es.take(k));
    lemma_snapshot_first(run(initial_session(), es.take(k)), es[k], a);
}

/// A client that goes away ends a live session at once, with the
/// subscription released and no error; a closed session stays closed.
pub proof fn lemma_disconnect_releases(s: Session, e: Event, a: Action)
    requires
        s.wf(),
        action_for(s, e, a),
    ensures
        s.phase != Phase::Closed && e is ClientGone ==> a == Action::Close(None)
            && next_session(s, e).phase == Phase::Closed,
        s.phase == Phase::Closed ==> a is Ignore && next_session(s, e) == s,
{
}

} // verus!
