//! The watch loop as a state machine.
//!
//! The process that runs the loop reads the log, sends requests and waits for the file
//! watching service. After each of these it reports what happened, and is told what to
//! do next. The loop starts by draining the log, drains it again whenever the log was
//! written to, and ends for good at the first failure.

use vstd::prelude::*;
use vstd::utf8::{decode_utf8, valid_utf8};
use crate::reader::{chunk_bytes, drained_until_new_bytes, rest_bytes, RecordsReader};
use crate::segment::{boundary, lemma_boundary_bounds};
use crate::status::{exit_code, exit_status, Fatal, EXIT_REMOVAL};
use crate::upload::{json_object_text, payload_members, upload_request, UploadRequest};

verus! {

/// Where the loop stands.
#[derive(Debug, Clone, Copy, PartialEq, Eq, Structural)]
pub enum WatchState {
    /// Waiting for the log to change.
    Idle,
    /// Reading the log and sending its complete records.
    Draining,
    /// Ended by a failure.
    Terminated(Fatal),
}

/// What the file watching service says of the log file.
#[derive(Debug, Clone, Copy, PartialEq, Eq, Structural)]
pub enum Notice {
    /// Data was written to the file.
    DataModified,
    /// The file was removed.
    Removed,
    /// Anything else: access, a change of metadata, a rename.
    Other,
}

/// What happened since the loop was last asked.
#[derive(Debug)]
pub enum Event {
    /// The file watching service reported a change.
    Notified(Notice),
    /// The file watching service reported an error.
    WatchFailed,
    /// One read of the log gave these bytes, none at its end.
    BytesRead(Vec<u8>),
    /// Reading the log failed.
    ReadFailed,
    /// The request was sent and the API answered with success.
    Uploaded,
    /// The request failed, or the answer was no success.
    UploadFailed,
}

/// What to do next.
#[derive(Debug)]
pub enum Action {
    /// Wait for the next report of the file watching service.
    Wait,
    /// Read from the log, up to `RecordsReader::CHUNK_SIZE` bytes.
    ReadLog,
    /// Send this request.
    Upload(UploadRequest),
    /// Exit with this status.
    Exit(u8),
}

/// True when `event`, in `state` and with `pending` bytes kept, makes complete records
/// that can be decoded: the one case in which a request is sent.
pub open spec fn yields_chunk(state: WatchState, pending: Seq<u8>, event: Event) -> bool {
    &&& !(state is Terminated)
    &&& event matches Event::BytesRead(bytes)
    &&& boundary(pending + bytes@) > 0
    &&& valid_utf8(chunk_bytes(pending + bytes@))
}

/// The state after `event`, which arrives in `state` with `pending` bytes kept.
pub open spec fn state_after(state: WatchState, pending: Seq<u8>, event: Event) -> WatchState {
    if state is Terminated {
        state
    } else {
        match event {
            Event::Notified(Notice::DataModified) => WatchState::Draining,
            Event::Notified(Notice::Removed) => WatchState::Terminated(Fatal::LogRemoved),
            Event::Notified(Notice::Other) => state,
            Event::WatchFailed => WatchState::Terminated(Fatal::WatchFailed),
            Event::BytesRead(bytes) => if boundary(pending + bytes@) == 0 {
                WatchState::Idle
            } else if valid_utf8(chunk_bytes(pending + bytes@)) {
                WatchState::Draining
            } else {
                WatchState::Terminated(Fatal::InvalidText)
            },
            Event::ReadFailed => WatchState::Terminated(Fatal::ReadFailed),
            Event::Uploaded => state,
            Event::UploadFailed => WatchState::Terminated(Fatal::UploadFailed),
        }
    }
}

/// The bytes kept after `event`, which arrives in `state` with `pending` bytes kept.
/// Bytes that were read are kept until they leave in a chunk, unless the loop has ended.
pub open spec fn pending_after_event(state: WatchState, pending: Seq<u8>, event: Event) -> Seq<
    u8,
> {
    if state is Terminated {
        pending
    } else {
        match event {
            Event::BytesRead(bytes) => if valid_utf8(chunk_bytes(pending + bytes@)) {
                rest_bytes(pending + bytes@)
            } else {
                pending + bytes@
            },
            _ => pending,
        }
    }
}

/// True when `action` is what a loop in `state` does while nothing is to be sent.
pub open spec fn is_action_of(action: Action, state: WatchState) -> bool {
    match state {
        WatchState::Idle => action is Wait,
        WatchState::Draining => action is ReadLog,
        WatchState::Terminated(fatal) => action == Action::Exit(exit_code(fatal)),
    }
}

/// A loop that has ended stays ended: whatever is reported, the state and the bytes
/// kept stay what they were, and nothing is sent.
pub proof fn terminated_is_final(fatal: Fatal, pending: Seq<u8>, event: Event)
    ensures
        state_after(WatchState::Terminated(fatal), pending, event) == WatchState::Terminated(
            fatal,
        ),
        pending_after_event(WatchState::Terminated(fatal), pending, event) == pending,
        !yields_chunk(WatchState::Terminated(fatal), pending, event),
{
}

/// The removal of the log ends a running loop, whether it waits or drains: nothing is
/// sent, and what is left to do is to exit with the status that only a removal has.
pub proof fn removal_ends_the_loop(state: WatchState, pending: Seq<u8>)
    requires
        !(state is Terminated),
    ensures
        state_after(state, pending, Event::Notified(Notice::Removed)) == WatchState::Terminated(
            Fatal::LogRemoved,
        ),
        !yields_chunk(state, pending, Event::Notified(Notice::Removed)),
        is_action_of(
            Action::Exit(EXIT_REMOVAL),
            state_after(state, pending, Event::Notified(Notice::Removed)),
        ),
        forall|other: Fatal|
            other != Fatal::LogRemoved ==> #[trigger] exit_code(other) != EXIT_REMOVAL,
{
}

/// Only bytes that were read make the loop send anything, and only they change what
/// is kept.
pub proof fn only_bytes_are_sent(state: WatchState, pending: Seq<u8>, event: Event)
    requires
        !(event is BytesRead),
    ensures
        !yields_chunk(state, pending, event),
        pending_after_event(state, pending, event) == pending,
{
}

/// A drain ends with the first read that completes no record, and a read that brings
/// no bytes completes none: after any read that did not end the loop, an empty read
/// sends nothing, keeps what was kept and lets the loop go idle.
pub proof fn empty_read_ends_the_drain(
    state: WatchState,
    pending: Seq<u8>,
    read: Event,
    empty: Event,
)
    requires
        !(state is Terminated),
        read is BytesRead,
        !(state_after(state, pending, read) is Terminated),
        empty matches Event::BytesRead(bytes) && bytes@.len() == 0,
    ensures
        state_after(
            state_after(state, pending, read),
            pending_after_event(state, pending, read),
            empty,
        ) == WatchState::Idle,
        !yields_chunk(
            state_after(state, pending, read),
            pending_after_event(state, pending, read),
            empty,
        ),
        pending_after_event(
            state_after(state, pending, read),
            pending_after_event(state, pending, read),
            empty,
        ) == pending_after_event(state, pending, read),
{
    let all = pending + read->BytesRead_0@;
    let kept = pending_after_event(state, pending, read);
    drained_until_new_bytes(all);
    lemma_boundary_bounds(all);
    assert(kept == rest_bytes(all));
    assert(kept + empty->BytesRead_0@ =~= kept);
    assert(chunk_bytes(kept) =~= Seq::<u8>::empty());
    assert(rest_bytes(kept) =~= kept);
}

/// The loop: its state, the reader of the log, and what every request carries.
pub struct WatchLoop {
    state: WatchState,
    reader: RecordsReader,
    key: String,
    profile: Option<String>,
}

impl WatchLoop {
    /// Where the loop stands.
    pub closed spec fn state_view(&self) -> WatchState {
        self.state
    }

    /// The bytes that were read and not yet sent.
    pub closed spec fn pending(&self) -> Seq<u8> {
        self.reader@
    }

    /// The API key that every request carries.
    pub closed spec fn key_view(&self) -> Seq<char> {
        self.key@
    }

    /// The profile that the records go to, where one is configured.
    pub closed spec fn profile_view(&self) -> Option<Seq<char>> {
        match self.profile {
            Some(id) => Some(id@),
            None => None,
        }
    }

    /// A loop at its start: about to drain the log for the first time, with nothing read.
    pub fn new(key: String, profile: Option<String>) -> (watch: Self)
        ensures
            watch.state_view() == WatchState::Draining,
            watch.pending() == Seq::<u8>::empty(),
            watch.key_view() == key@,
            watch.profile_view() == match profile {
                Some(id) => Some(id@),
                None => None,
            },
    {
        WatchLoop { state: WatchState::Draining, reader: RecordsReader::new(), key, profile }
    }

    /// Where the loop stands.
    pub fn state(&self) -> (state: WatchState)
        ensures
            state == self.state_view(),
    {
        self.state
    }

    /// Number of bytes that were read and not yet sent.
    pub fn pending_len(&self) -> (n: usize)
        ensures
            n == self.pending().len(),
    {
        self.reader.pending().len()
    }

    /// What to do in the present state while nothing is to be sent: wait when idle, read
    /// when draining, exit when terminated.
    pub fn action(&self) -> (action: Action)
        ensures
            is_action_of(action, self.state_view()),
    {
        match self.state {
            WatchState::Idle => Action::Wait,
            WatchState::Draining => Action::ReadLog,
            WatchState::Terminated(fatal) => Action::Exit(exit_status(fatal)),
        }
    }

    /// Takes in what happened and says what to do next.
    ///
    /// A loop that has ended stays as it is and says to exit, whatever is reported.
    /// Bytes that were read and complete one or more records give a request with these
    /// records; the loop goes on draining. Bytes that complete none let the loop go
    /// idle. Any failure, and the removal of the log, ends the loop.
    pub fn step(&mut self, event: Event) -> (action: Action)
        ensures
            final(self).state_view() == state_after(old(self).state_view(), old(self).pending(), event),
            final(self).pending() == pending_after_event(
                old(self).state_view(),
                old(self).pending(),
                event,
            ),
            final(self).key_view() == old(self).key_view(),
            final(self).profile_view() == old(self).profile_view(),
            match action {
                Action::Upload(request) => {
                    &&& yields_chunk(old(self).state_view(), old(self).pending(), event)
                    &&& event matches Event::BytesRead(bytes)
                    &&& request.body@ == json_object_text(
                        payload_members(
                            old(self).key_view(),
                            old(self).profile_view(),
                            decode_utf8(chunk_bytes(old(self).pending() + bytes@)),
                        ),
                    )
                    &&& request.len == boundary(old(self).pending() + bytes@)
                },
                _ => {
                    &&& !yields_chunk(old(self).state_view(), old(self).pending(), event)
                    &&& is_action_of(action, final(self).state_view())
                },
            },
    {
        if let WatchState::Terminated(_) = self.state {
            return self.action();
        }
        match event {
            Event::Notified(Notice::DataModified) => {
                self.state = WatchState::Draining;
            },
            Event::Notified(Notice::Removed) => {
                self.state = WatchState::Terminated(Fatal::LogRemoved);
            },
            Event::Notified(Notice::Other) => {},
            Event::WatchFailed => {
                self.state = WatchState::Terminated(Fatal::WatchFailed);
            },
            Event::BytesRead(bytes) => {
                match self.reader.next(bytes.as_slice()) {
                    Ok(Some(text)) => {
                        self.state = WatchState::Draining;
                        let request = upload_request(
                            self.key.as_str(),
                            match &self.profile {
                                Some(id) => Some(id.as_str()),
                                None => None,
                            },
                            text.as_str(),
                        );
                        proof {
                            lemma_boundary_bounds(old(self).pending() + bytes@);
                        }
                        return Action::Upload(request);
                    },
                    Ok(None) => {
                        self.state = WatchState::Idle;
                    },
                    Err(_) => {
                        self.state = WatchState::Terminated(Fatal::InvalidText);
                    },
                }
            },
            Event::ReadFailed => {
                self.state = WatchState::Terminated(Fatal::ReadFailed);
            },
            Event::Uploaded => {},
            Event::UploadFailed => {
                self.state = WatchState::Terminated(Fatal::UploadFailed);
            },
        }
        self.action()
    }
}

} // verus!
