//! The inbox through which completed calls reach the interactive side.

use vstd::prelude::*;
use crate::response::{capture_of, Reply, ReplyView, Resource, ResourceView, TransportFailure};

verus! {

/// The captures of a list of resources.
pub open spec fn captures_of(resources: Seq<Resource>) -> Seq<ResourceView> {
    Seq::new(resources.len(), |i: int| resources[i]@)
}

/// What a session holds.
pub struct SessionView {
    /// The capture on display.
    pub shown: Option<ResourceView>,
    /// The captures that wait to be shown, oldest first.
    pub waiting: Seq<ResourceView>,
}

/// The session after a call has ended: a completed call posts its capture
/// behind those that wait; a call that failed in transport posts nothing.
pub open spec fn after_call(session: SessionView, outcome: Option<ReplyView>) -> SessionView {
    match outcome {
        Some(reply) => SessionView { waiting: session.waiting.push(capture_of(reply)), ..session },
        None => session,
    }
}

/// The session after one poll: the oldest waiting capture, if there is
/// one, takes the place of the capture on display.
pub open spec fn after_poll(session: SessionView) -> SessionView {
    if session.waiting.len() > 0 {
        SessionView { shown: Some(session.waiting[0]), waiting: session.waiting.drop_first() }
    } else {
        session
    }
}

/// What the transport reports of a call, as contracts see it.
pub open spec fn outcome_of(response: Result<Reply, TransportFailure>) -> Option<ReplyView> {
    match response {
        Ok(reply) => Some(reply@),
        Err(_) => None,
    }
}

/// The capture on display and the inbox of captures that wait behind it.
#[derive(Debug)]
pub struct Session {
    /// The capture on display.
    pub resource: Option<Resource>,
    /// The captures that wait to be shown, oldest first.
    pub inbox: Vec<Resource>,
}

impl View for Session {
    type V = SessionView;

    open spec fn view(&self) -> SessionView {
        SessionView {
            shown: match self.resource {
                Some(resource) => Some(resource@),
                None => None,
            },
            waiting: captures_of(self.inbox@),
        }
    }
}

impl Session {
    /// A session with nothing on display and nothing waiting.
    pub fn new() -> (session: Session)
        ensures
            session@ == (SessionView { shown: None, waiting: Seq::empty() }),
    {
        let session = Session { resource: None, inbox: Vec::new() };
        assert(session@.waiting =~= Seq::<ResourceView>::empty());
        session
    }

    /// Records the end of a call. The answer tells whether a capture was
    /// posted, so that the caller can ask for a redraw.
    pub fn complete(&mut self, response: Result<Reply, TransportFailure>) -> (posted: bool)
        ensures
            final(self)@ == after_call(old(self)@, outcome_of(response)),
            posted == response.is_ok(),
    {
        let ghost before = self.inbox@;
        match Resource::from_response(response) {
            Some(capture) => {
                self.inbox.push(capture);
                assert(captures_of(self.inbox@) =~= captures_of(before).push(capture@));
                true
            },
            None => false,
        }
    }

    /// Polls the inbox once, without waiting. The answer tells whether the
    /// capture on display changed.
    pub fn poll(&mut self) -> (changed: bool)
        ensures
            final(self)@ == after_poll(old(self)@),
            changed == (old(self)@.waiting.len() > 0),
    {
        let ghost before = self.inbox@;
        if self.inbox.len() > 0 {
            let capture = self.inbox.remove(0);
            assert(captures_of(self.inbox@) =~= captures_of(before).drop_first());
            self.resource = Some(capture);
            true
        } else {
            false
        }
    }
}

/// Captures are delivered in the order in which their calls completed,
/// not in the order in which the calls were started: of two calls that
/// complete one after the other into an empty inbox, the first poll shows
/// the capture of the one that completed first, the second poll that of the other.
pub proof fn lemma_completion_order(session: SessionView, sooner: ReplyView, later: ReplyView)
    requires
        session.waiting.len() == 0,
    ensures
        after_poll(after_call(after_call(session, Some(sooner)), Some(later))).shown == Some(
            capture_of(sooner),
        ),
        after_poll(after_poll(after_call(after_call(session, Some(sooner)), Some(later)))).shown
            == Some(capture_of(later)),
        after_poll(after_poll(after_call(after_call(session, Some(sooner)), Some(later)))).waiting.len()
            == 0,
{
}

/// A call that failed in transport leaves the session as it was: what is
/// on display stays, and nothing more waits.
pub proof fn lemma_failure_is_silent(session: SessionView)
    ensures
        after_call(session, None) == session,
        after_poll(after_call(session, None)) == after_poll(session),
{
}

} // verus!
