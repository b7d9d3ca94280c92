//! The session state machine: what to do with each reassembled message and
//! with each idle timeout.
//!
//! The caller owns the connection. It feeds this module the messages that
//! arrive and the timeouts that elapse, together with the current time in
//! milliseconds on a clock of its choice, and carries out the actions that
//! come back, in order.

use vstd::prelude::*;
use vstd::utf8::encode_utf8;

use super::error::Error;
use super::frame::{send_packet, spec_send_packet, Packet};
use super::opcode::Opcode;

verus! {

/// The mutable state of one WebSocket session.
#[derive(Debug, Clone, Copy, PartialEq, Eq, Structural)]
pub struct WebSocketState {
    /// Whether a Ping was sent and no message has arrived since.
    pub waiting_pong: bool,
    /// Whether this side has already sent Close.
    pub half_closed: bool,
    /// How long the session may stay idle before a keepalive Ping is sent, in
    /// milliseconds.
    pub timeout: u64,
    /// When the most recent Ping was sent, in milliseconds.
    pub last_ping_time: u64,
    /// The masking key of outgoing frames; zero sends them unmasked.
    pub mask: u32,
}

/// One thing that the caller must do for the session.
#[derive(Debug, Clone, PartialEq, Eq)]
pub enum Action {
    /// Hand the payload of a Text or Binary message to the message callback.
    Message(Vec<u8>),
    /// Hand the delay since the last Ping, in milliseconds, to the pong callback.
    Pong(u64),
    /// Hand the reason of a Close that the peer initiated to the close callback.
    Close(Vec<u8>),
    /// Write these bytes, one whole frame, to the peer and flush.
    Send(Vec<u8>),
}

/// The mathematical content of an [`Action`].
pub enum ActionView {
    Message(Seq<u8>),
    Pong(u64),
    Close(Seq<u8>),
    Send(Seq<u8>),
}

impl View for Action {
    type V = ActionView;

    open spec fn view(&self) -> ActionView {
        match self {
            Action::Message(payload) => ActionView::Message(payload@),
            Action::Pong(delay) => ActionView::Pong(*delay),
            Action::Close(reason) => ActionView::Close(reason@),
            Action::Send(frame) => ActionView::Send(frame@),
        }
    }
}

/// The views of a list of actions, in order.
pub open spec fn action_views(actions: Seq<Action>) -> Seq<ActionView> {
    actions.map_values(|a: Action| a@)
}

/// What one message asks of the caller, and whether it ends the session.
pub struct Step {
    /// The actions to carry out, in order.
    pub actions: Vec<Action>,
    /// Whether the session has ended cleanly.
    pub done: bool,
}

/// One thing that happens to a session, with the time at which it happens.
pub enum Event {
    /// A whole message arrived.
    Packet { at: u64, opcode: Opcode, payload: Vec<u8> },
    /// The idle timeout elapsed with no message.
    Timeout { at: u64 },
}

/// The mathematical content of an [`Event`].
pub enum EventView {
    Packet { at: u64, opcode: Opcode, payload: Seq<u8> },
    Timeout { at: u64 },
}

impl View for Event {
    type V = EventView;

    open spec fn view(&self) -> EventView {
        match self {
            Event::Packet { at, opcode, payload } => EventView::Packet {
                at: *at,
                opcode: *opcode,
                payload: payload@,
            },
            Event::Timeout { at } => EventView::Timeout { at: *at },
        }
    }
}

/// The views of a list of events, in order.
pub open spec fn event_views(events: Seq<Event>) -> Seq<EventView> {
    events.map_values(|e: Event| e@)
}

/// How a run over a list of events left the session.
#[derive(Debug, Clone, Copy, PartialEq, Eq, Structural)]
pub enum Outcome {
    /// Every event was handled and the session goes on.
    Open,
    /// The close handshake is complete.
    Closed,
    /// The session failed.
    Failed(Error),
}

/// The frame that carries `payload` under `opcode` with the state's mask.
pub open spec fn spec_frame(state: WebSocketState, opcode: Opcode, payload: Seq<u8>) -> Seq<u8> {
    spec_send_packet(opcode, payload, state.mask)
}

/// The time from `earlier` to `now`, zero where the clock ran backwards.
pub open spec fn spec_elapsed(now: u64, earlier: u64) -> u64 {
    if now >= earlier {
        (now - earlier) as u64
    } else {
        0
    }
}

/// What a message asks of the caller: Text and Binary go to the message
/// callback; a Ping is answered by a Pong with the same payload and no
/// callback; a Pong reports the delay since the last Ping; a Close from the
/// peer goes to the close callback and is echoed, unless this side had sent
/// Close first, in which case nothing remains to do.
pub open spec fn spec_actions(state: WebSocketState, opcode: Opcode, payload: Seq<u8>, now: u64) -> Seq<
    ActionView,
> {
    match opcode {
        Opcode::Text | Opcode::Binary => seq![ActionView::Message(payload)],
        Opcode::Ping => seq![ActionView::Send(spec_frame(state, Opcode::Pong, payload))],
        Opcode::Pong => seq![ActionView::Pong(spec_elapsed(now, state.last_ping_time))],
        Opcode::Close => if state.half_closed {
            Seq::empty()
        } else {
            seq![
                ActionView::Close(payload),
                ActionView::Send(spec_frame(state, Opcode::Close, payload)),
            ]
        },
        Opcode::Continuation => Seq::empty(),
    }
}

/// The state after a Ping has gone out at `now`.
pub open spec fn spec_pinged(state: WebSocketState, now: u64) -> WebSocketState {
    WebSocketState { waiting_pong: true, last_ping_time: now, ..state }
}

/// The state after any message has arrived.
pub open spec fn spec_received(state: WebSocketState) -> WebSocketState {
    WebSocketState { waiting_pong: false, ..state }
}

/// What one event does to a session.
pub struct StepView {
    /// The state after the event.
    pub state: WebSocketState,
    /// What the caller must do, in order.
    pub actions: Seq<ActionView>,
    /// How the session ended, if the event ended it.
    pub end: Option<Outcome>,
}

/// The effect of one event. An idle timeout sends a Ping, or fails the session
/// where the last Ping is still unanswered. A message clears `waiting_pong`
/// and is dispatched; a Close ends the session.
pub open spec fn spec_step(state: WebSocketState, event: EventView) -> StepView {
    match event {
        EventView::Timeout { at } => if state.waiting_pong {
            StepView {
                state,
                actions: Seq::empty(),
                end: Some(Outcome::Failed(Error::PongTimeout)),
            }
        } else {
            StepView {
                state: spec_pinged(state, at),
                actions: seq![ActionView::Send(spec_frame(state, Opcode::Ping, Seq::empty()))],
                end: None,
            }
        },
        EventView::Packet { at, opcode, payload } => StepView {
            state: spec_received(state),
            actions: spec_actions(state, opcode, payload, at),
            end: if opcode == Opcode::Close {
                Some(Outcome::Closed)
            } else {
                None
            },
        },
    }
}

/// The effect of a list of events, taken in order up to the first that ends
/// the session. The end is `Outcome::Open` where none does.
pub open spec fn spec_run(state: WebSocketState, events: Seq<EventView>) -> StepView
    decreases events.len(),
{
    if events.len() == 0 {
        StepView { state, actions: Seq::empty(), end: None }
    } else {
        let first = spec_step(state, events[0]);
        if first.end is Some {
            first
        } else {
            let rest = spec_run(first.state, events.drop_first());
            StepView { state: rest.state, actions: first.actions + rest.actions, end: rest.end }
        }
    }
}

/// The effect of what reading one message gave, at `now`. A failure to read
/// ends the session with that failure: nothing is to be done and the state
/// stays as it is. A message is handled as [`spec_step`] says.
pub open spec fn spec_on_received(
    state: WebSocketState,
    received: Result<(Opcode, Seq<u8>), Error>,
    now: u64,
) -> StepView {
    match received {
        Err(e) => StepView { state, actions: Seq::empty(), end: Some(Outcome::Failed(e)) },
        Ok((opcode, payload)) => spec_step(state, EventView::Packet { at: now, opcode, payload }),
    }
}

/// The mathematical content of what reading one message gave.
pub open spec fn received_view(received: Result<Packet, Error>) -> Result<
    (Opcode, Seq<u8>),
    Error,
> {
    match received {
        Ok((opcode, payload)) => Ok((opcode, payload@)),
        Err(e) => Err(e),
    }
}

/// Whether an event may reach a session: a message never has the opcode
/// `Continuation`.
pub open spec fn event_admitted(event: EventView) -> bool {
    event matches EventView::Packet { opcode, .. } ==> opcode != Opcode::Continuation
}

impl Default for WebSocketState {
    /// An idle session with a timeout of five seconds that sends unmasked.
    fn default() -> (r: Self)
        ensures
            r == (WebSocketState {
                waiting_pong: false,
                half_closed: false,
                timeout: 5000,
                last_ping_time: 0,
                mask: 0,
            }),
    {
        WebSocketState {
            waiting_pong: false,
            half_closed: false,
            timeout: 5000,
            last_ping_time: 0,
            mask: 0,
        }
    }
}

impl WebSocketState {
    /// The same state with another idle timeout, in milliseconds.
    pub fn with_timeout(self, timeout: u64) -> (r: Self)
        ensures
            r == (WebSocketState { timeout, ..self }),
    {
        let mut state = self;
        state.timeout = timeout;
        state
    }

    /// The same state with another masking key for outgoing frames.
    pub fn with_mask(self, mask: u32) -> (r: Self)
        ensures
            r == (WebSocketState { mask, ..self }),
    {
        let mut state = self;
        state.mask = mask;
        state
    }

    /// The frame that sends one message under this session's mask.
    pub fn send_packet(&self, opcode: Opcode, data: &[u8]) -> (r: Vec<u8>)
        ensures
            r@ == spec_frame(*self, opcode, data@),
    {
        send_packet(opcode, data, self.mask)
    }

    /// The frame that sends `text` as a Text message.
    pub fn send_text(&self, text: &str) -> (r: Vec<u8>)
        ensures
            r@ == spec_frame(*self, Opcode::Text, encode_utf8(text@)),
    {
        self.send_packet(Opcode::Text, text.as_bytes())
    }

    /// The frame that sends `data` as a Binary message.
    pub fn send_binary(&self, data: &[u8]) -> (r: Vec<u8>)
        ensures
            r@ == spec_frame(*self, Opcode::Binary, data@),
    {
        self.send_packet(Opcode::Binary, data)
    }

    /// Opens the close handshake from this side: the session is marked
    /// half-closed and the Close frame with `reason` as payload is returned.
    pub fn send_close(&mut self, reason: &str) -> (r: Vec<u8>)
        ensures
            *final(self) == (WebSocketState { half_closed: true, ..*old(self) }),
            r@ == spec_frame(*old(self), Opcode::Close, encode_utf8(reason@)),
    {
        self.half_closed = true;
        self.send_packet(Opcode::Close, reason.as_bytes())
    }

    /// Records that a Ping goes out at `now` and returns its frame, which has
    /// no payload.
    pub fn send_ping(&mut self, now: u64) -> (r: Vec<u8>)
        ensures
            *final(self) == spec_pinged(*old(self), now),
            r@ == spec_frame(*old(self), Opcode::Ping, Seq::empty()),
    {
        self.last_ping_time = now;
        self.waiting_pong = true;
        let empty: Vec<u8> = Vec::new();
        self.send_packet(Opcode::Ping, empty.as_slice())
    }

    /// The idle timeout has elapsed at `now` with no message. If a Ping is
    /// still unanswered the session fails with `PongTimeout` and the state is
    /// left as it was; otherwise a Ping goes out, whose frame is returned.
    pub fn on_timeout(&mut self, now: u64) -> (r: Result<Vec<u8>, Error>)
        ensures
            old(self).waiting_pong ==> r == Err::<Vec<u8>, Error>(Error::PongTimeout) && *final(self)
                == *old(self),
            !old(self).waiting_pong ==> *final(self) == spec_pinged(*old(self), now) && (r matches Ok(
                frame,
            ) && frame@ == spec_frame(*old(self), Opcode::Ping, Seq::empty())),
    {
        if self.waiting_pong {
            Err(Error::PongTimeout)
        } else {
            Ok(self.send_ping(now))
        }
    }

    /// Handles what reading one message gave, at `now`: the message that
    /// [`receive_packet`] returned, or the error that it ended with for good.
    /// An error ends the session with that error; no action follows and the
    /// state stays as it is.
    ///
    /// [`receive_packet`]: super::frame::receive_packet
    pub fn on_received(&mut self, received: Result<Packet, Error>, now: u64) -> (r: (
        Vec<Action>,
        Option<Outcome>,
    ))
        requires
            received matches Ok((opcode, _)) ==> opcode != Opcode::Continuation,
        ensures
            *final(self) == spec_on_received(*old(self), received_view(received), now).state,
            action_views(r.0@) == spec_on_received(
                *old(self),
                received_view(received),
                now,
            ).actions,
            r.1 == spec_on_received(*old(self), received_view(received), now).end,
    {
        match received {
            Err(e) => {
                let actions: Vec<Action> = Vec::new();
                proof {
                    assert(action_views(actions@) =~= Seq::<ActionView>::empty());
                }
                (actions, Some(Outcome::Failed(e)))
            },
            Ok((opcode, payload)) => {
                let step = self.on_packet(opcode, payload, now);
                let end = if step.done { Some(Outcome::Closed) } else { None };
                (step.actions, end)
            },
        }
    }

    /// Handles one event: an idle timeout or a message.
    pub fn step(&mut self, event: &Event) -> (r: (Vec<Action>, Option<Outcome>))
        requires
            event_admitted(event@),
        ensures
            *final(self) == spec_step(*old(self), event@).state,
            action_views(r.0@) == spec_step(*old(self), event@).actions,
            r.1 == spec_step(*old(self), event@).end,
    {
        match event {
            Event::Timeout { at } => match self.on_timeout(*at) {
                Err(e) => {
                    let actions: Vec<Action> = Vec::new();
                    proof {
                        assert(action_views(actions@) =~= Seq::<ActionView>::empty());
                    }
                    (actions, Some(Outcome::Failed(e)))
                },
                Ok(frame) => {
                    let mut actions: Vec<Action> = Vec::new();
                    actions.push(Action::Send(frame));
                    proof {
                        assert(action_views(actions@) =~= seq![ActionView::Send(frame@)]);
                    }
                    (actions, None)
                },
            },
            Event::Packet { at, opcode, payload } => {
                let step = self.on_packet(*opcode, payload.clone(), *at);
                let end = if step.done { Some(Outcome::Closed) } else { None };
                (step.actions, end)
            },
        }
    }

    /// Runs the session over a list of events, in order, until one of them
    /// ends it. Returns every action that the caller must carry out, in order,
    /// and how the run ended.
    pub fn run(&mut self, events: &[Event]) -> (r: (Vec<Action>, Outcome))
        requires
            forall|i: int| 0 <= i < events@.len() ==> event_admitted(#[trigger] events@[i]@),
        ensures
            *final(self) == spec_run(*old(self), event_views(events@)).state,
            action_views(r.0@) == spec_run(*old(self), event_views(events@)).actions,
            r.1 == match spec_run(*old(self), event_views(events@)).end {
                Some(outcome) => outcome,
                None => Outcome::Open,
            },
    {
        let ghost views = event_views(events@);
        let mut actions: Vec<Action> = Vec::new();
        let mut i: usize = 0;
        proof {
            assert(views.skip(0) =~= views);
            assert(action_views(actions@) =~= Seq::<ActionView>::empty());
        }
        while i < events.len()
            invariant
                i <= events@.len(),
                views == event_views(events@),
                forall|k: int| 0 <= k < events@.len() ==> event_admitted(#[trigger] events@[k]@),
                spec_run(*old(self), views).state == spec_run(*self, views.skip(i as int)).state,
                spec_run(*old(self), views).end == spec_run(*self, views.skip(i as int)).end,
                spec_run(*old(self), views).actions == action_views(actions@) + spec_run(
                    *self,
                    views.skip(i as int),
                ).actions,
            decreases events@.len() - i,
        {
            let ghost before = *self;
            let ghost done = actions@;
            proof {
                let rest = views.skip(i as int);
                assert(rest[0] == events@[i as int]@);
                assert(rest.drop_first() =~= views.skip(i + 1));
            }
            let (mut more, end) = self.step(&events[i]);
            let ghost added = more@;
            actions.append(&mut more);
            proof {
                assert(action_views(actions@) =~= action_views(done) + action_views(added));
            }
            match end {
                Some(outcome) => {
                    return (actions, outcome);
                },
                None => {},
            }
            i = i + 1;
        }
        proof {
            assert(views.skip(i as int).len() == 0);
        }
        (actions, Outcome::Open)
    }

    /// A whole message has arrived at `now`. Clears `waiting_pong` and says
    /// what the caller must do, and whether the session has ended: it ends
    /// with a Close, whoever sent the first one.
    ///
    /// A message never has the opcode `Continuation`: [`receive_packet`]
    /// returns none.
    ///
    /// [`receive_packet`]: super::frame::receive_packet
    pub fn on_packet(&mut self, opcode: Opcode, payload: Vec<u8>, now: u64) -> (r: Step)
        requires
            opcode != Opcode::Continuation,
        ensures
            *final(self) == spec_received(*old(self)),
            action_views(r.actions@) == spec_actions(*old(self), opcode, payload@, now),
            r.done == (opcode == Opcode::Close),
    {
        self.waiting_pong = false;
        let mut actions: Vec<Action> = Vec::new();
        let mut done: bool = false;
        match opcode {
            Opcode::Text | Opcode::Binary => {
                actions.push(Action::Message(payload));
            },
            Opcode::Ping => {
                let frame = self.send_packet(Opcode::Pong, payload.as_slice());
                actions.push(Action::Send(frame));
            },
            Opcode::Pong => {
                let delay: u64 = if now >= self.last_ping_time {
                    now - self.last_ping_time
                } else {
                    0
                };
                actions.push(Action::Pong(delay));
            },
            Opcode::Close => {
                if !self.half_closed {
                    let frame = self.send_packet(Opcode::Close, payload.as_slice());
                    actions.push(Action::Close(payload));
                    actions.push(Action::Send(frame));
                }
                done = true;
            },
            Opcode::Continuation => {},
        }
        proof {
            assert(action_views(actions@) =~= spec_actions(*old(self), opcode, payload@, now));
        }
        Step { actions, done }
    }
}

/// Two idle timeouts in a row, with no message between them, end the session:
/// the first sends a Ping, the second fails with `PongTimeout`. Events after
/// the second timeout are not looked at.
pub proof fn lemma_second_timeout_fails(state: WebSocketState, first: u64, second: u64, later: Seq<EventView>)
    requires
        !state.waiting_pong,
    ensures
        spec_run(
            state,
            seq![EventView::Timeout { at: first }, EventView::Timeout { at: second }] + later,
        ) == (StepView {
            state: spec_pinged(state, first),
            actions: seq![ActionView::Send(spec_frame(state, Opcode::Ping, Seq::empty()))],
            end: Some(Outcome::Failed(Error::PongTimeout)),
        }),
{
    let events = seq![EventView::Timeout { at: first }, EventView::Timeout { at: second }] + later;
    let after = spec_pinged(state, first);
    let tail = events.drop_first();
    assert(events[0] == EventView::Timeout { at: first });
    assert(tail[0] == EventView::Timeout { at: second });
    assert(spec_run(after, tail) == spec_step(after, tail[0]));
    let ping = seq![ActionView::Send(spec_frame(state, Opcode::Ping, Seq::empty()))];
    assert(ping + Seq::<ActionView>::empty() =~= ping);
}

/// Any message between two idle timeouts keeps the session alive: the second
/// timeout then sends a fresh Ping instead of failing.
pub proof fn lemma_message_resets_keepalive(
    state: WebSocketState,
    first: u64,
    opcode: Opcode,
    payload: Seq<u8>,
    at: u64,
    second: u64,
)
    requires
        !state.waiting_pong,
        opcode != Opcode::Close,
    ensures
        spec_run(
            state,
            seq![
                EventView::Timeout { at: first },
                EventView::Packet { at, opcode, payload },
                EventView::Timeout { at: second },
            ],
        ).end is None,
        spec_run(
            state,
            seq![
                EventView::Timeout { at: first },
                EventView::Packet { at, opcode, payload },
                EventView::Timeout { at: second },
            ],
        ).state == spec_pinged(state, second),
{
    let events = seq![
        EventView::Timeout { at: first },
        EventView::Packet { at, opcode, payload },
        EventView::Timeout { at: second },
    ];
    let s1 = spec_pinged(state, first);
    let t1 = events.drop_first();
    let s2 = spec_received(s1);
    let t2 = t1.drop_first();
    let s3 = spec_pinged(s2, second);
    let t3 = t2.drop_first();
    assert(t1[0] == events[1]);
    assert(t2[0] == events[2]);
    assert(t3.len() == 0);
    assert(spec_run(s3, t3).end is None);
    assert(spec_run(s2, t2).end is None);
    assert(spec_run(s1, t1).end is None);
}

/// A Ping is answered by exactly one action, a Pong frame with the same
/// payload, and by no callback, whatever the state of the session.
pub proof fn lemma_ping_is_answered(state: WebSocketState, payload: Seq<u8>, now: u64)
    ensures
        spec_actions(state, Opcode::Ping, payload, now) == seq![
            ActionView::Send(spec_send_packet(Opcode::Pong, payload, state.mask)),
        ],
{
}

/// A failure to read ends the session with that failure, whatever the state:
/// no action follows, and the state is left as it was.
pub proof fn lemma_receive_error_ends_session(state: WebSocketState, error: Error, now: u64)
    ensures
        spec_on_received(state, Err(error), now) == (StepView {
            state,
            actions: Seq::empty(),
            end: Some(Outcome::Failed(error)),
        }),
{
}

} // verus!
