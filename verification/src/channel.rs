//! The completion channel: a conduit between one background request task and
//! the rendering thread, which polls it once per frame and must never block.
//!
//! A channel is `Idle` while no request is in flight. Activating it starts a
//! request; the producer side then buffers any number of progress payloads in
//! order and exactly one terminal payload. Draining the terminal payload
//! returns the channel to `Idle`, ready for the next request.

use vstd::prelude::*;

verus! {

/// Whether a channel currently carries an in-flight request.
#[derive(Clone, Copy, Debug, PartialEq, Eq, Structural)]
pub enum ChannelState {
    Idle,
    Active,
}

/// The single terminal payload of one request.
#[derive(Clone, Debug)]
pub enum Terminal<T, E> {
    /// The request finished normally.
    Success(T),
    /// The request failed with an application-level error.
    Failure(E),
    /// The background task itself died without resolving; no payload-level
    /// information is available beyond a description of the fault.
    Fault(String),
}

/// The ways a channel operation can be called out of protocol.
#[derive(Clone, Copy, Debug, PartialEq, Eq, Structural)]
pub enum ChannelError {
    /// The operation needs an in-flight request, but the channel is idle.
    NotActive,
    /// The operation needs an idle channel, but a request is in flight.
    AlreadyActive,
    /// The in-flight request has already been resolved.
    AlreadyResolved,
}

/// The abstract state of a channel: what one request's producer has buffered
/// and whether a request is in flight.
#[verifier::ext_equal]
pub struct ChannelModel<P, T, E> {
    pub active: bool,
    pub queue: Seq<P>,
    pub terminal: Option<Terminal<T, E>>,
}

impl<P, T, E> ChannelModel<P, T, E> {
    /// The model of a channel with no request in flight.
    pub open spec fn idle_model() -> Self {
        ChannelModel { active: false, queue: Seq::empty(), terminal: None }
    }

    /// The model after a request starts.
    pub open spec fn activated(self) -> Self {
        ChannelModel { active: true, queue: Seq::empty(), terminal: None }
    }

    /// The model after the producer buffers one progress payload.
    pub open spec fn sent(self, p: P) -> Self {
        ChannelModel { queue: self.queue.push(p), ..self }
    }

    /// The model after the producer buffers each of `ps` in order.
    pub open spec fn sent_all(self, ps: Seq<P>) -> Self
        decreases ps.len(),
    {
        if ps.len() == 0 {
            self
        } else {
            self.sent(ps[0]).sent_all(ps.skip(1))
        }
    }

    /// The model after the producer resolves the request.
    pub open spec fn resolved(self, t: Terminal<T, E>) -> Self {
        ChannelModel { terminal: Some(t), ..self }
    }

    /// What one poll drains, and the model it leaves behind.
    pub open spec fn polled(self) -> (Seq<P>, Option<Terminal<T, E>>, Self) {
        (
            self.queue,
            self.terminal,
            ChannelModel {
                active: self.active && self.terminal is None,
                queue: Seq::empty(),
                terminal: None,
            },
        )
    }
}

/// Buffering payloads one at a time accumulates them in order.
proof fn lemma_sent_all_queue<P, T, E>(m: ChannelModel<P, T, E>, ps: Seq<P>)
    ensures
        m.sent_all(ps) == (ChannelModel { queue: m.queue + ps, ..m }),
    decreases ps.len(),
{
    if ps.len() == 0 {
        assert(m.queue + ps =~= m.queue);
        assert(m.sent_all(ps) =~= (ChannelModel { queue: m.queue + ps, ..m }));
    } else {
        lemma_sent_all_queue(m.sent(ps[0]), ps.skip(1));
        assert(m.queue.push(ps[0]) + ps.skip(1) =~= m.queue + ps);
        assert(m.sent_all(ps) =~= (ChannelModel { queue: m.queue + ps, ..m }));
    }
}

/// Polling a channel that holds no request is a no-op: nothing is drained
/// and the channel is left exactly as it was.
pub proof fn lemma_idle_poll_is_noop<P, T, E>(m: ChannelModel<P, T, E>)
    requires
        !m.active,
        m.queue.len() == 0,
        m.terminal is None,
    ensures
        m.polled() == (Seq::<P>::empty(), None::<Terminal<T, E>>, m),
{
    assert(m.polled().0 =~= Seq::<P>::empty());
    assert(m.polled().2 =~= m);
}

/// The channel protocol, end to end: a run that activates an idle channel,
/// buffers any sequence of progress payloads in order, and resolves exactly
/// once, is drained by a single poll as exactly that sequence in its send
/// order together with the terminal payload, and the poll leaves the channel
/// idle, so a second poll drains nothing.
pub proof fn lemma_channel_protocol<P, T, E>(ps: Seq<P>, t: Terminal<T, E>)
    ensures
        ({
            let run = ChannelModel::<P, T, E>::idle_model().activated().sent_all(ps).resolved(t);
            let (drained, terminal, after) = run.polled();
            &&& drained == ps
            &&& terminal == Some(t)
            &&& after == ChannelModel::<P, T, E>::idle_model()
            &&& after.polled() == (Seq::<P>::empty(), None::<Terminal<T, E>>, after)
        }),
{
    let m1 = ChannelModel::<P, T, E>::idle_model().activated();
    lemma_sent_all_queue(m1, ps);
    assert(m1.queue + ps =~= ps);
    let run = m1.sent_all(ps).resolved(t);
    assert(run.polled().2 =~= ChannelModel::<P, T, E>::idle_model());
    assert(ChannelModel::<P, T, E>::idle_model().polled().0 =~= Seq::<P>::empty());
}

/// A single-producer completion channel, drained by the rendering thread.
///
/// `P` is the progress payload, `T` the success payload, `E` the failure
/// payload. The channel id identifies the owning session; ids are issued
/// monotonically by the registry and never reused.
pub struct Channel<P, T, E> {
    id: usize,
    state: ChannelState,
    queue: Vec<P>,
    terminal: Option<Terminal<T, E>>,
}

impl<P, T, E> View for Channel<P, T, E> {
    type V = ChannelModel<P, T, E>;

    closed spec fn view(&self) -> ChannelModel<P, T, E> {
        ChannelModel {
            active: self.state == ChannelState::Active,
            queue: self.queue@,
            terminal: self.terminal,
        }
    }
}

impl<P, T, E> Channel<P, T, E> {
    /// The id this channel was created with.
    pub closed spec fn spec_id(self) -> usize {
        self.id
    }

    /// Whether a request is in flight.
    pub open spec fn spec_active(self) -> bool {
        self@.active
    }

    /// The buffered progress payloads, in arrival order.
    pub open spec fn spec_queue(self) -> Seq<P> {
        self@.queue
    }

    /// The buffered terminal payload, if the request has resolved.
    pub open spec fn spec_terminal(self) -> Option<Terminal<T, E>> {
        self@.terminal
    }

    /// An idle channel buffers nothing.
    pub open spec fn wf(self) -> bool {
        !self.spec_active() ==> self.spec_queue().len() == 0 && self.spec_terminal() is None
    }

    /// A channel that holds no request: idle with empty buffers.
    pub open spec fn spec_idle(self) -> bool {
        &&& !self.spec_active()
        &&& self.spec_queue().len() == 0
        &&& self.spec_terminal() is None
    }

    pub fn new(id: usize) -> (c: Self)
        ensures
            c.spec_id() == id,
            c.spec_idle(),
            c.wf(),
            c@ == ChannelModel::<P, T, E>::idle_model(),
    {
        let c = Channel { id, state: ChannelState::Idle, queue: Vec::new(), terminal: None };
        proof {
            assert(c@ =~= ChannelModel::<P, T, E>::idle_model());
        }
        c
    }

    pub fn id(&self) -> (r: usize)
        ensures
            r == self.spec_id(),
    {
        self.id
    }

    /// Whether a request is in flight: true from activation until the frame
    /// that drains the terminal payload.
    pub fn is_active(&self) -> (r: bool)
        ensures
            r == self.spec_active(),
    {
        self.state == ChannelState::Active
    }

    /// Whether the in-flight request has already buffered its terminal
    /// payload.
    pub fn is_resolved(&self) -> (r: bool)
        ensures
            r == (self.spec_terminal() is Some),
    {
        self.terminal.is_some()
    }

    /// Start a request on an idle channel.
    pub fn activate(&mut self)
        requires
            old(self).spec_idle(),
        ensures
            final(self).spec_id() == old(self).spec_id(),
            final(self).spec_active(),
            final(self).spec_queue().len() == 0,
            final(self).spec_terminal() is None,
            final(self).wf(),
            final(self)@ == old(self)@.activated(),
    {
        self.state = ChannelState::Active;
        proof {
            assert(self@ =~= old(self)@.activated());
        }
    }

    /// Buffer one progress payload of the in-flight request.
    pub fn send_progress(&mut self, payload: P)
        requires
            old(self).spec_active(),
            old(self).spec_terminal() is None,
        ensures
            final(self).spec_id() == old(self).spec_id(),
            final(self).spec_active(),
            final(self).spec_queue() == old(self).spec_queue().push(payload),
            final(self).spec_terminal() is None,
            final(self).wf(),
            final(self)@ == old(self)@.sent(payload),
    {
        self.queue.push(payload);
        proof {
            assert(self@ =~= old(self)@.sent(payload));
        }
    }

    /// Resolve the in-flight request; exactly one resolution is allowed
    /// per activation.
    pub fn resolve(&mut self, terminal: Terminal<T, E>)
        requires
            old(self).spec_active(),
            old(self).spec_terminal() is None,
        ensures
            final(self).spec_id() == old(self).spec_id(),
            final(self).spec_active(),
            final(self).spec_queue() == old(self).spec_queue(),
            final(self).spec_terminal() == Some(terminal),
            final(self).wf(),
            final(self)@ == old(self)@.resolved(terminal),
    {
        self.terminal = Some(terminal);
        proof {
            assert(self@ =~= old(self)@.resolved(terminal));
        }
    }

    /// Buffer one progress payload, checking the protocol at run time:
    /// an idle or already-resolved channel rejects the payload.
    pub fn try_send_progress(&mut self, payload: P) -> (r: Result<(), ChannelError>)
        requires
            old(self).wf(),
        ensures
            final(self).wf(),
            final(self).spec_id() == old(self).spec_id(),
            final(self).spec_active() == old(self).spec_active(),
            final(self).spec_terminal() == old(self).spec_terminal(),
            r is Ok <==> old(self).spec_active() && old(self).spec_terminal() is None,
            r is Ok ==> final(self).spec_queue() == old(self).spec_queue().push(payload),
            r is Err ==> final(self).spec_queue() == old(self).spec_queue(),
            r is Err ==> r == Err::<(), ChannelError>(
                if !old(self).spec_active() {
                    ChannelError::NotActive
                } else {
                    ChannelError::AlreadyResolved
                },
            ),
    {
        if self.state != ChannelState::Active {
            Err(ChannelError::NotActive)
        } else if self.terminal.is_some() {
            Err(ChannelError::AlreadyResolved)
        } else {
            self.send_progress(payload);
            Ok(())
        }
    }

    /// Resolve the request, checking the protocol at run time: an idle
    /// channel and a second resolution are rejected.
    pub fn try_resolve(&mut self, terminal: Terminal<T, E>) -> (r: Result<(), ChannelError>)
        requires
            old(self).wf(),
        ensures
            final(self).wf(),
            final(self).spec_id() == old(self).spec_id(),
            final(self).spec_active() == old(self).spec_active(),
            final(self).spec_queue() == old(self).spec_queue(),
            r is Ok <==> old(self).spec_active() && old(self).spec_terminal() is None,
            r is Ok ==> final(self).spec_terminal() == Some(terminal),
            r is Err ==> final(self).spec_terminal() == old(self).spec_terminal(),
            r is Err ==> r == Err::<(), ChannelError>(
                if !old(self).spec_active() {
                    ChannelError::NotActive
                } else {
                    ChannelError::AlreadyResolved
                },
            ),
    {
        if self.state != ChannelState::Active {
            Err(ChannelError::NotActive)
        } else if self.terminal.is_some() {
            Err(ChannelError::AlreadyResolved)
        } else {
            self.resolve(terminal);
            Ok(())
        }
    }

    /// Drain the channel: return every buffered progress payload in arrival
    /// order, and the terminal payload if the request has resolved, in which
    /// case the channel returns to idle. On an idle channel this is a no-op
    /// that returns nothing. Never blocks.
    pub fn poll_and_drain(&mut self) -> (r: (Vec<P>, Option<Terminal<T, E>>))
        requires
            old(self).wf(),
        ensures
            final(self).wf(),
            final(self).spec_id() == old(self).spec_id(),
            r.0@ == old(self).spec_queue(),
            r.1 == old(self).spec_terminal(),
            final(self).spec_queue().len() == 0,
            final(self).spec_terminal() is None,
            final(self).spec_active() <==> old(self).spec_active() && old(
                self,
            ).spec_terminal() is None,
            (r.0@, r.1, final(self)@) == old(self)@.polled(),
    {
        let mut drained: Vec<P> = Vec::new();
        core::mem::swap(&mut drained, &mut self.queue);
        let mut terminal: Option<Terminal<T, E>> = None;
        core::mem::swap(&mut terminal, &mut self.terminal);
        if terminal.is_some() {
            self.state = ChannelState::Idle;
        }
        proof {
            assert(self@ =~= old(self)@.polled().2);
            assert(drained@ =~= old(self)@.polled().0);
        }
        (drained, terminal)
    }
}

} // verus!
