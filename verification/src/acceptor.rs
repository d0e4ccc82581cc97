//! The acceptor: the server's side of the request protocol, one step at a time.
//!
//! The acceptor itself touches no socket. Whoever drives it performs the action
//! that a step asks for and comes back with the event that the action ended in.

use vstd::prelude::*;

use crate::lines::{parse_lines, split_lines, texts};

verus! {

/// The loopback address that the one server listens on and every client calls.
pub const ADDRESS: &'static str = "127.0.0.1:38451";

/// Where the acceptor stands in the protocol.
#[derive(Clone, Copy, Debug, PartialEq, Eq)]
pub enum Phase {
    /// Started; a probe of the address is under way.
    Probing,
    /// No server answered the probe; the address is being bound.
    Binding,
    /// Listening for a client's first connection, the one that brings the list.
    AwaitingData,
    /// Listening for the same client's second connection, the one for the reply.
    AwaitingReplyChannel,
    /// Reading the first connection to its end.
    Reading,
    /// The list is with the engine; nothing is accepted until its reply is here.
    AwaitingReply,
    /// Both connections of the request are being closed.
    Finishing,
    /// Ended, by a server found at the probe or by a failure.
    Stopped,
}

/// What the driver reports back.
#[derive(Debug, PartialEq, Eq)]
pub enum Event {
    /// The probe connected: a server is running already.
    ProbeConnected,
    /// The probe found nobody at the address.
    ProbeRefused,
    /// The address is bound.
    Bound,
    /// A connection was accepted.
    Connected,
    /// The first connection was read to its end and held this text.
    Body(String),
    /// The engine answered the list with this text.
    Reply(String),
    /// The request's connections are closed.
    Finished,
    /// Binding, accepting, reading or writing failed.
    Failed,
}

/// What the driver is to do next.
#[derive(Debug, PartialEq, Eq)]
pub enum Action {
    /// Leave without binding: this process is not the server.
    Exit,
    /// Bind the address and listen.
    Bind,
    /// Accept the next connection.
    Accept,
    /// Read the first connection to its end.
    Read,
    /// Hand this list to the engine and wait for its reply.
    Dispatch(Vec<String>),
    /// Write this text to the second connection, flush, and close both.
    Respond(String),
    /// Close both connections without a word.
    Discard,
    /// Give up: nothing is retried.
    Abort,
}

/// The list that a request's text asks about; none where the client wrote
/// nothing at all.
pub open spec fn request_of(body: Seq<char>) -> Option<Seq<Seq<char>>> {
    if body.len() == 0 {
        None
    } else {
        Some(split_lines(body))
    }
}

/// The phase that follows `phase` on `event`. Each phase goes on with the one
/// event that its action can end in; on any other, and on a failure, the
/// acceptor stops.
pub open spec fn next_phase(phase: Phase, event: Event) -> Phase {
    match (phase, event) {
        (Phase::Probing, Event::ProbeRefused) => Phase::Binding,
        (Phase::Binding, Event::Bound) => Phase::AwaitingData,
        (Phase::AwaitingData, Event::Connected) => Phase::AwaitingReplyChannel,
        (Phase::AwaitingReplyChannel, Event::Connected) => Phase::Reading,
        (Phase::Reading, Event::Body(body)) => if request_of(body@) is Some {
            Phase::AwaitingReply
        } else {
            Phase::Finishing
        },
        (Phase::AwaitingReply, Event::Reply(_)) => Phase::Finishing,
        (Phase::Finishing, Event::Finished) => Phase::AwaitingData,
        _ => Phase::Stopped,
    }
}

/// Whether `action` is what `event` in `phase` calls for.
pub open spec fn is_due(phase: Phase, event: Event, action: Action) -> bool {
    match (phase, event) {
        (Phase::Probing, Event::ProbeConnected) => action is Exit,
        (Phase::Probing, Event::ProbeRefused) => action is Bind,
        (Phase::Binding, Event::Bound) => action is Accept,
        (Phase::AwaitingData, Event::Connected) => action is Accept,
        (Phase::AwaitingReplyChannel, Event::Connected) => action is Read,
        (Phase::Reading, Event::Body(body)) => match request_of(body@) {
            Some(list) => action matches Action::Dispatch(sent) && texts(sent@) == list,
            None => action is Discard,
        },
        (Phase::AwaitingReply, Event::Reply(text)) => action matches Action::Respond(reply)
            && reply@ == text@,
        (Phase::Finishing, Event::Finished) => action is Accept,
        _ => action is Abort,
    }
}

/// A client that wrote nothing is not served and holds nobody up: its request is
/// dispatched to no one, and once its connections are closed the acceptor
/// accepts the next client.
pub proof fn lemma_empty_body_is_dropped(body: String, action: Action, then: Action)
    requires
        body@.len() == 0,
        is_due(Phase::Reading, Event::Body(body), action),
        is_due(Phase::Finishing, Event::Finished, then),
    ensures
        action is Discard,
        next_phase(Phase::Reading, Event::Body(body)) == Phase::Finishing,
        next_phase(Phase::Finishing, Event::Finished) == Phase::AwaitingData,
        then is Accept,
{
}

/// While a reply is due, no connection is accepted: the acceptor leaves that
/// phase only with the reply in hand, which it sends on unchanged, or by
/// stopping.
pub proof fn lemma_reply_comes_first(event: Event, action: Action)
    requires
        is_due(Phase::AwaitingReply, event, action),
    ensures
        !(action is Accept),
        event matches Event::Reply(text) ==> (action matches Action::Respond(sent) && sent@
            == text@) && next_phase(Phase::AwaitingReply, event) == Phase::Finishing,
        !(event is Reply) ==> action is Abort && next_phase(Phase::AwaitingReply, event)
            == Phase::Stopped,
{
}

/// A process that finds a server at the address never binds it: the step that
/// learns of the server ends the acceptor, and nothing but giving up follows.
pub proof fn lemma_second_instance_never_binds(action: Action, event: Event, later: Action)
    requires
        is_due(Phase::Probing, Event::ProbeConnected, action),
        is_due(next_phase(Phase::Probing, Event::ProbeConnected), event, later),
    ensures
        action is Exit,
        next_phase(Phase::Probing, Event::ProbeConnected) == Phase::Stopped,
        later is Abort,
        next_phase(Phase::Stopped, event) == Phase::Stopped,
{
}

/// Reads a request's text: the candidates, one per line, or `None` where the
/// client wrote nothing.
pub fn parse_request(body: &str) -> (list: Option<Vec<String>>)
    ensures
        list is Some <==> request_of(body@) is Some,
        list matches Some(read) ==> Some(texts(read@)) == request_of(body@),
{
    if body.is_empty() {
        None
    } else {
        Some(parse_lines(body))
    }
}

/// A new acceptor: it has yet to probe the address.
pub fn start() -> (phase: Phase)
    ensures
        phase == Phase::Probing,
{
    Phase::Probing
}

/// One step of the acceptor: the phase it moves to, and what to do there.
pub fn step(phase: Phase, event: Event) -> (next: (Phase, Action))
    ensures
        next.0 == next_phase(phase, event),
        is_due(phase, event, next.1),
{
    match phase {
        Phase::Probing => match event {
            Event::ProbeConnected => (Phase::Stopped, Action::Exit),
            Event::ProbeRefused => (Phase::Binding, Action::Bind),
            _ => (Phase::Stopped, Action::Abort),
        },
        Phase::Binding => match event {
            Event::Bound => (Phase::AwaitingData, Action::Accept),
            _ => (Phase::Stopped, Action::Abort),
        },
        Phase::AwaitingData => match event {
            Event::Connected => (Phase::AwaitingReplyChannel, Action::Accept),
            _ => (Phase::Stopped, Action::Abort),
        },
        Phase::AwaitingReplyChannel => match event {
            Event::Connected => (Phase::Reading, Action::Read),
            _ => (Phase::Stopped, Action::Abort),
        },
        Phase::Reading => match event {
            Event::Body(body) => match parse_request(body.as_str()) {
                Some(list) => (Phase::AwaitingReply, Action::Dispatch(list)),
                None => (Phase::Finishing, Action::Discard),
            },
            _ => (Phase::Stopped, Action::Abort),
        },
        Phase::AwaitingReply => match event {
            Event::Reply(text) => (Phase::Finishing, Action::Respond(text)),
            _ => (Phase::Stopped, Action::Abort),
        },
        Phase::Finishing => match event {
            Event::Finished => (Phase::AwaitingData, Action::Accept),
            _ => (Phase::Stopped, Action::Abort),
        },
        Phase::Stopped => (Phase::Stopped, Action::Abort),
    }
}

} // verus!
