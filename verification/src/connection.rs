//! The handler of one connection: a state machine that is told what
//! happened on the connection and says what to do next. It owns the
//! session of its connection and shares nothing with other handlers.

use crate::codec::{decoded, deserialise, serialise, wire_text, ErrorCode, Frame, JsonIn, JsonOut};
use crate::rock_paper_scissors::{self, outcome, score_after, Game};
use vstd::prelude::*;

verus! {

/// Where a connection stands.
#[derive(Clone, Copy, Debug, PartialEq, Eq, Structural)]
pub enum Phase {
    /// Accepted; the greeting has not been sent yet.
    Greeting,
    /// Greeted; requests are read and answered one after the other.
    Active,
    /// Over; nothing is read or sent any more.
    Closed,
}

/// What happened on the connection.
#[derive(Debug, PartialEq, Eq)]
pub enum Event {
    /// The connection was accepted.
    Connected,
    /// A frame arrived that is meant to be read as text.
    Frame(Frame),
    /// A frame of another kind arrived: binary data, a ping, a pong, a close
    /// notice.
    OtherFrame,
    /// The frame handed out last was sent.
    Sent,
    /// The frame handed out last could not be sent.
    SendFailed,
    /// The client will send no more frames.
    EndOfStream,
    /// Receiving a frame failed.
    ReceiveError,
}

/// What the transport is to do next.
#[derive(Debug, PartialEq, Eq)]
pub enum Action {
    /// Send this text frame, then report `Sent` or `SendFailed`.
    Send(String),
    /// Wait for the next frame, then report it, or why none came.
    Receive,
    /// Close the connection.
    Close,
}

/// An `Action`, with the text to send as a sequence of characters.
pub enum ActionView {
    Send(Seq<char>),
    Receive,
    Close,
}

impl View for Action {
    type V = ActionView;

    open spec fn view(&self) -> ActionView {
        match self {
            Action::Send(text) => ActionView::Send(text@),
            Action::Receive => ActionView::Receive,
            Action::Close => ActionView::Close,
        }
    }
}

/// The handler of one connection, with the session that it owns.
#[derive(Debug)]
pub struct Connection {
    phase: Phase,
    session: Game,
}

/// What a handler holds: where its connection stands, and its session.
pub struct State {
    pub phase: Phase,
    pub session: Game,
}

impl View for Connection {
    type V = State;

    closed spec fn view(&self) -> State {
        State { phase: self.phase, session: self.session }
    }
}

/// The text of the greeting.
pub open spec fn greeting_text() -> Seq<char> {
    "Hi!"@
}

/// The session after `request` was served against the opponent's choice
/// `opponent`, and the text of the answer. A turn is played only for a valid
/// request; an error leaves the session as it was. The answer to a turn
/// reports the session as it stands after the turn.
pub open spec fn reply(
    session: Game,
    request: Result<JsonIn, ErrorCode>,
    opponent: rock_paper_scissors::Option,
) -> (Game, Seq<char>) {
    match request {
        Ok(JsonIn::Payload(choice)) => {
            let turn_result = outcome(choice, opponent);
            let game = Game { score: score_after(session.score as int, turn_result) as u8 };
            (game, wire_text(JsonOut::Result { turn_result, game: &game }))
        },
        Err(code) => (session, wire_text(JsonOut::Error(code))),
    }
}

/// The transition of the handler: the connection after `event`, and what the
/// transport is to do next. `opponent` is the opponent's choice for the turn,
/// should the event lead to one.
///
/// A closed connection stays closed. The end of the stream and a failure to
/// receive or to send close the connection. A connection that has not
/// greeted yet greets, whatever the event, and becomes active. An active
/// connection answers each frame that is meant as text, be it with an error,
/// and stays active; it passes over frames of other kinds and waits for the
/// next frame.
pub open spec fn next(conn: State, event: Event, opponent: rock_paper_scissors::Option) -> (
    State,
    ActionView,
) {
    if conn.phase is Closed {
        (conn, ActionView::Close)
    } else if event is EndOfStream || event is ReceiveError || event is SendFailed {
        (State { phase: Phase::Closed, session: conn.session }, ActionView::Close)
    } else if conn.phase is Greeting {
        (State { phase: Phase::Active, session: conn.session }, ActionView::Send(greeting_text()))
    } else {
        match event {
            Event::Frame(frame) => {
                let (session, text) = reply(conn.session, decoded(frame), opponent);
                (State { phase: Phase::Active, session }, ActionView::Send(text))
            },
            _ => (conn, ActionView::Receive),
        }
    }
}

/// The connection after the events `events`, in order, each with the
/// opponent's choice that goes with it.
pub open spec fn state_after(conn: State, events: Seq<(Event, rock_paper_scissors::Option)>) -> State
    decreases events.len(),
{
    if events.len() == 0 {
        conn
    } else {
        next(state_after(conn, events.drop_last()), events.last().0, events.last().1).0
    }
}

/// Two connections after `schedule`, which gives in order the events on
/// both: each entry says whether it befalls the first connection, or else
/// the second, then the event and the opponent's choice that goes with it.
pub open spec fn states_after(
    pair: (State, State),
    schedule: Seq<(bool, Event, rock_paper_scissors::Option)>,
) -> (State, State)
    decreases schedule.len(),
{
    if schedule.len() == 0 {
        pair
    } else {
        let before = states_after(pair, schedule.drop_last());
        let (on_first, event, opponent) = schedule.last();
        if on_first {
            (next(before.0, event, opponent).0, before.1)
        } else {
            (before.0, next(before.1, event, opponent).0)
        }
    }
}

/// The events of `schedule` that befall the first connection, or else the
/// second, in their order.
pub open spec fn events_on(
    schedule: Seq<(bool, Event, rock_paper_scissors::Option)>,
    on_first: bool,
) -> Seq<(Event, rock_paper_scissors::Option)>
    decreases schedule.len(),
{
    if schedule.len() == 0 {
        Seq::empty()
    } else {
        let before = events_on(schedule.drop_last(), on_first);
        if schedule.last().0 == on_first {
            before.push((schedule.last().1, schedule.last().2))
        } else {
            before
        }
    }
}

/// Serves `request` against the opponent's choice `opponent` and writes the
/// answer.
pub fn answer(
    session: &mut Game,
    request: Result<JsonIn, ErrorCode>,
    opponent: rock_paper_scissors::Option,
) -> (text: String)
    ensures
        (*final(session), text@) == reply(*old(session), request, opponent),
{
    match request {
        Ok(JsonIn::Payload(choice)) => {
            let turn_result = session.play_against(choice, opponent);
            serialise(&JsonOut::Result { turn_result, game: &*session })
        },
        Err(code) => serialise(&JsonOut::Error(code)),
    }
}

/// Serves `request` against an opponent whose choice is drawn at random, and
/// writes the answer.
fn answer_at_random(session: &mut Game, request: Result<JsonIn, ErrorCode>) -> (text: String)
    ensures
        exists|opponent: rock_paper_scissors::Option|
            (*final(session), text@) == #[trigger] reply(*old(session), request, opponent),
{
    match request {
        Ok(JsonIn::Payload(choice)) => {
            let turn_result = session.process_turn(choice);
            let text = serialise(&JsonOut::Result { turn_result, game: &*session });
            proof {
                let opponent = choose|opponent: rock_paper_scissors::Option|
                    turn_result == outcome(choice, opponent);
                assert((*session, text@) == reply(*old(session), request, opponent));
            }
            text
        },
        Err(code) => {
            let text = serialise(&JsonOut::Error(code));
            assert((*session, text@) == reply(
                *old(session),
                request,
                rock_paper_scissors::Option::Rock,
            ));
            text
        },
    }
}

impl Connection {
    /// The handler of a connection that was just accepted: it has not
    /// greeted yet, and its session has played no turn.
    pub fn new() -> (conn: Connection)
        ensures
            conn@ == (State { phase: Phase::Greeting, session: Game { score: 0 } }),
    {
        Connection { phase: Phase::Greeting, session: Game::new() }
    }

    /// The common course of `step` and `step_against`: with a choice in
    /// `forced` the opponent makes that choice, without one the opponent's
    /// choice is drawn at random.
    fn advance(&mut self, event: Event, forced: Option<rock_paper_scissors::Option>) -> (action:
        Action)
        ensures
            match forced {
                Some(opponent) => (final(self)@, action@) == next(old(self)@, event, opponent),
                None => exists|opponent: rock_paper_scissors::Option|
                    (final(self)@, action@) == #[trigger] next(old(self)@, event, opponent),
            },
    {
        let ghost any = rock_paper_scissors::Option::Rock;
        match self.phase {
            Phase::Closed => {
                assert((self@, ActionView::Close) == next(old(self)@, event, any));
                Action::Close
            },
            Phase::Greeting => match event {
                Event::EndOfStream | Event::ReceiveError | Event::SendFailed => {
                    self.phase = Phase::Closed;
                    assert((self@, ActionView::Close) == next(old(self)@, event, any));
                    Action::Close
                },
                _ => {
                    self.phase = Phase::Active;
                    let text = "Hi!".to_owned();
                    assert((self@, ActionView::Send(text@)) == next(old(self)@, event, any));
                    Action::Send(text)
                },
            },
            Phase::Active => match event {
                Event::EndOfStream | Event::ReceiveError | Event::SendFailed => {
                    self.phase = Phase::Closed;
                    assert((self@, ActionView::Close) == next(old(self)@, event, any));
                    Action::Close
                },
                Event::Frame(frame) => {
                    let request = deserialise(&frame);
                    let text = match forced {
                        Some(opponent) => answer(&mut self.session, request, opponent),
                        None => answer_at_random(&mut self.session, request),
                    };
                    proof {
                        if forced is None {
                            let opponent = choose|opponent: rock_paper_scissors::Option|
                                (self.session, text@) == #[trigger] reply(
                                    old(self).session,
                                    request,
                                    opponent,
                                );
                            assert((self@, ActionView::Send(text@)) == next(
                                old(self)@,
                                event,
                                opponent,
                            ));
                        }
                    }
                    Action::Send(text)
                },
                Event::OtherFrame | Event::Connected | Event::Sent => {
                    assert((self@, ActionView::Receive) == next(old(self)@, event, any));
                    Action::Receive
                },
            },
        }
    }

    /// Takes `event` in and says what the transport is to do next. Where the
    /// event leads to a turn, the opponent's choice is drawn at random: the
    /// connection moves as `next` says for one of the opponent's choices.
    pub fn step(&mut self, event: Event) -> (action: Action)
        ensures
            exists|opponent: rock_paper_scissors::Option|
                (final(self)@, action@) == #[trigger] next(old(self)@, event, opponent),
    {
        self.advance(event, None)
    }

    /// Takes `event` in, as `step` does, with the opponent's choice given:
    /// should the event lead to a turn, it is played against `opponent`.
    pub fn step_against(&mut self, event: Event, opponent: rock_paper_scissors::Option) -> (action:
        Action)
        ensures
            (final(self)@, action@) == next(old(self)@, event, opponent),
    {
        self.advance(event, Some(opponent))
    }

    /// Where the connection stands.
    pub fn phase(&self) -> (phase: Phase)
        ensures
            phase == self@.phase,
    {
        self.phase
    }

    /// The session as it stands.
    pub fn session(&self) -> (session: Game)
        ensures
            session == self@.session,
    {
        self.session
    }
}

/// A frame that cannot be decoded is answered with the error that decoding
/// gave. The connection stays active with its session untouched, and the
/// frame that comes next is answered in turn.
pub proof fn lemma_decode_failure_keeps_open(
    conn: State,
    frame: Frame,
    later: Frame,
    opponent: rock_paper_scissors::Option,
)
    requires
        conn.phase is Active,
        decoded(frame) is Err,
    ensures
        next(conn, Event::Frame(frame), opponent) == (
            conn,
            ActionView::Send(wire_text(JsonOut::Error(decoded(frame)->Err_0))),
        ),
        next(next(conn, Event::Frame(frame), opponent).0, Event::Frame(later), opponent).1 is Send,
{
}

/// Only the transport closes a connection: after an event the connection is
/// closed exactly if it was closed before, or the event is the end of the
/// stream or a failure to receive or to send. A closed connection stays as
/// it is and asks for nothing but to be closed.
pub proof fn lemma_only_the_transport_closes(
    conn: State,
    event: Event,
    opponent: rock_paper_scissors::Option,
)
    ensures
        next(conn, event, opponent).0.phase is Closed <==> conn.phase is Closed
            || event is EndOfStream || event is ReceiveError || event is SendFailed,
        next(conn, event, opponent).1 is Close <==> next(conn, event, opponent).0.phase is Closed,
        conn.phase is Closed ==> next(conn, event, opponent).0 == conn,
{
}

/// The session changes only where an active connection serves a valid
/// request, and then by exactly one turn: the new score is the old one moved
/// by the points of the outcome that the answer reports.
pub proof fn lemma_session_moves_by_one_turn(
    conn: State,
    event: Event,
    opponent: rock_paper_scissors::Option,
)
    ensures
        match event {
            Event::Frame(frame) if conn.phase is Active && decoded(frame) is Ok => {
                let JsonIn::Payload(choice) = decoded(frame)->Ok_0;
                let turn_result = outcome(choice, opponent);
                let game = Game { score: score_after(conn.session.score as int, turn_result) as u8 };
                &&& game.score == score_after(conn.session.score as int, turn_result)
                &&& next(conn, event, opponent) == (
                    State { phase: Phase::Active, session: game },
                    ActionView::Send(wire_text(JsonOut::Result { turn_result, game: &game })),
                )
            },
            _ => next(conn, event, opponent).0.session == conn.session,
        },
{
}

/// Connections do not touch each other: however the events on two
/// connections interleave, each connection ends where its own events alone
/// lead it, so a turn on one never changes the session of the other.
pub proof fn lemma_connections_are_independent(
    pair: (State, State),
    schedule: Seq<(bool, Event, rock_paper_scissors::Option)>,
)
    ensures
        states_after(pair, schedule) == (
            state_after(pair.0, events_on(schedule, true)),
            state_after(pair.1, events_on(schedule, false)),
        ),
    decreases schedule.len(),
{
    if schedule.len() > 0 {
        let earlier = schedule.drop_last();
        lemma_connections_are_independent(pair, earlier);
        let on_first = schedule.last().0;
        let own = events_on(earlier, on_first);
        assert(events_on(schedule, on_first).drop_last() =~= own);
    }
}

} // verus!
