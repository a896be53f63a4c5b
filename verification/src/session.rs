//! The websocket sessions of the daemon: the token check that opens them, the
//! frame stream and input stream that follow, and the plugin's long poll.
use vstd::prelude::*;

use crate::keys::str_equal;

verus! {

/// The string member `key` of the JSON object in `text`; `None` when `text` is
/// not JSON, not an object, lacks the member or the member is not a string.
pub uninterp spec fn json_string_member(text: Seq<char>, key: Seq<char>) -> Option<Seq<char>>;

/// Parses `text` with serde_json (`serde_json::from_str::<Value>`, an unparsable
/// text counting as `Value::Null`), indexes the value by `key` and takes it as a
/// string (`Value::as_str`). The contract only names the result.
#[verifier::external_body]
fn json_string_member_of(text: &str, key: &str) -> (member: Option<String>)
    ensures
        match member {
            Some(m) => json_string_member(text@, key@) == Some(m@),
            None => json_string_member(text@, key@) is None,
        },
{
    serde_json::from_str::<serde_json::Value>(text).unwrap_or_default()[key].as_str().map(
        |s| s.to_owned(),
    )
}

/// Whether a claimed token is present and equal to the session token.
pub fn token_matches(claimed: &Option<String>, token: &str) -> (ok: bool)
    ensures
        ok == match claimed {
            Some(c) => c@ == token@,
            None => false,
        },
{
    match claimed {
        Some(c) => str_equal(c.as_str(), token),
        None => false,
    }
}

/// The first message of a session opens it when it is a text message holding
/// the JSON object `{"token": "<token>"}` with the session's token.
pub open spec fn spec_authorized(first_text: Option<Seq<char>>, token: Seq<char>) -> bool {
    match first_text {
        Some(t) => json_string_member(t, "token"@) == Some(token),
        None => false,
    }
}

/// A session is opened only by a text message, and one message opens sessions
/// for at most one token: two tokens that the same first message authorises are
/// equal.
pub proof fn lemma_one_token_per_message(first_text: Option<Seq<char>>, a: Seq<char>, b: Seq<
    char,
>)
    ensures
        first_text is None ==> !spec_authorized(first_text, a),
        spec_authorized(first_text, a) && spec_authorized(first_text, b) ==> a == b,
{
}

/// Checks the first message of a session: `first_text` is its text, or `None`
/// when the first message was not text (or never came).
pub fn authorize(first_text: Option<&str>, token: &str) -> (ok: bool)
    ensures
        ok == spec_authorized(
            match first_text {
                Some(t) => Some(t@),
                None => None,
            },
            token@,
        ),
{
    match first_text {
        Some(t) => {
            let claimed = json_string_member_of(t, "token");
            token_matches(&claimed, token)
        },
        None => false,
    }
}

/// Close code sent to a client whose first message did not carry the token.
pub const UNAUTHORIZED_CLOSE_CODE: u16 = 4001;

/// A message, or the end of the message stream, from a websocket client.
#[derive(PartialEq, Eq, Structural, Clone, Copy, Debug)]
pub enum ClientMessage {
    Text,
    Ping,
    Close,
    /// Binary, pong, continuation or empty frames.
    Other,
    /// A protocol error on the stream.
    Error,
    /// The stream ended.
    Ended,
}

/// What a session does next.
#[derive(PartialEq, Eq, Structural, Clone, Copy, Debug)]
pub enum SessionAction {
    /// Send the latest frame as a binary message.
    SendFrame,
    /// Parse the text message as an input event; inject and queue it when it parses.
    Deliver,
    /// Answer a ping with a pong carrying the same data.
    Pong,
    /// Nothing to do.
    Ignore,
    /// End the session.
    Stop,
}

/// An authorised websocket session, open until it stops.
pub struct Session {
    pub open: bool,
}

/// The frame stream's answer to a change of the latest frame: `None` when the
/// frame source is gone, else the new frame's length; empty frames are skipped.
pub open spec fn spec_on_frame(frame_len: Option<usize>) -> SessionAction {
    match frame_len {
        None => SessionAction::Stop,
        Some(len) => if len == 0 {
            SessionAction::Ignore
        } else {
            SessionAction::SendFrame
        },
    }
}

/// The frame stream's answer to a client message: pings are answered, a close or
/// the end of the stream stops the session, anything else is ignored.
pub open spec fn spec_on_stream_message(m: ClientMessage) -> SessionAction {
    match m {
        ClientMessage::Ping => SessionAction::Pong,
        ClientMessage::Close => SessionAction::Stop,
        ClientMessage::Ended => SessionAction::Stop,
        _ => SessionAction::Ignore,
    }
}

/// The input stream's answer to a client message: text is delivered, pings are
/// answered, a close, a protocol error or the end of the stream stops the
/// session, anything else is ignored.
pub open spec fn spec_on_input_message(m: ClientMessage) -> SessionAction {
    match m {
        ClientMessage::Text => SessionAction::Deliver,
        ClientMessage::Ping => SessionAction::Pong,
        ClientMessage::Close => SessionAction::Stop,
        ClientMessage::Error => SessionAction::Stop,
        ClientMessage::Ended => SessionAction::Stop,
        ClientMessage::Other => SessionAction::Ignore,
    }
}

impl Session {
    /// A session that was just authorised.
    pub fn new() -> (s: Self)
        ensures
            s.open,
    {
        Session { open: true }
    }

    fn settle(&mut self, action: SessionAction) -> (a: SessionAction)
        ensures
            a == action,
            final(self).open == (old(self).open && action != SessionAction::Stop),
    {
        if action == SessionAction::Stop {
            self.open = false;
        }
        action
    }

    /// Steps the frame stream on a change of the latest frame.
    pub fn on_frame(&mut self, frame_len: Option<usize>) -> (a: SessionAction)
        ensures
            a == spec_on_frame(frame_len),
            final(self).open == (old(self).open && a != SessionAction::Stop),
    {
        let action = match frame_len {
            None => SessionAction::Stop,
            Some(len) => if len == 0 {
                SessionAction::Ignore
            } else {
                SessionAction::SendFrame
            },
        };
        self.settle(action)
    }

    /// Steps the frame stream on a client message.
    pub fn on_stream_message(&mut self, m: ClientMessage) -> (a: SessionAction)
        ensures
            a == spec_on_stream_message(m),
            final(self).open == (old(self).open && a != SessionAction::Stop),
            (a == SessionAction::Stop) <==> (m == ClientMessage::Close || m == ClientMessage::Ended),
    {
        let action = match m {
            ClientMessage::Ping => SessionAction::Pong,
            ClientMessage::Close => SessionAction::Stop,
            ClientMessage::Ended => SessionAction::Stop,
            _ => SessionAction::Ignore,
        };
        self.settle(action)
    }

    /// Steps the input stream on a client message.
    pub fn on_input_message(&mut self, m: ClientMessage) -> (a: SessionAction)
        ensures
            a == spec_on_input_message(m),
            final(self).open == (old(self).open && a != SessionAction::Stop),
            (a == SessionAction::Stop) <==> (m == ClientMessage::Close || m == ClientMessage::Error
                || m == ClientMessage::Ended),
    {
        let action = match m {
            ClientMessage::Text => SessionAction::Deliver,
            ClientMessage::Ping => SessionAction::Pong,
            ClientMessage::Close => SessionAction::Stop,
            ClientMessage::Error => SessionAction::Stop,
            ClientMessage::Ended => SessionAction::Stop,
            ClientMessage::Other => SessionAction::Ignore,
        };
        self.settle(action)
    }

    /// Records whether sending a frame or a pong succeeded: a failed send ends
    /// the session.
    pub fn on_send_result(&mut self, sent: bool)
        ensures
            final(self).open == (old(self).open && sent),
    {
        if !sent {
            self.open = false;
        }
    }
}


/// Most events one poll of the plugin returns.
pub const MAX_BATCH: usize = 64;

/// Seconds a poll waits for a first event when none is queued.
pub const POLL_WAIT_SECS: u64 = 30;

/// Where a long poll stands.
#[derive(PartialEq, Eq, Structural, Clone, Copy, Debug)]
pub enum PollPhase {
    /// Taking the events already queued.
    Draining,
    /// Nothing was queued: waiting for the first event.
    Waiting,
    /// The awaited event came: taking whatever else arrived meanwhile.
    DrainingAfterWait,
    /// The batch is complete.
    Done,
}

/// What a long poll does next.
#[derive(PartialEq, Eq, Structural, Clone, Copy, Debug)]
pub enum PollAction {
    /// Take a queued event without waiting.
    TryReceive,
    /// Wait up to `secs` seconds for an event.
    Wait { secs: u64 },
    /// Answer with the batch.
    Respond,
}

/// One long poll of the plugin's input queue: the events taken so far, in the
/// order they were queued.
pub struct PluginPoll<T> {
    pub phase: PollPhase,
    pub events: Vec<T>,
}

/// The action that belongs to each phase.
pub open spec fn spec_poll_action(phase: PollPhase) -> PollAction {
    match phase {
        PollPhase::Draining => PollAction::TryReceive,
        PollPhase::DrainingAfterWait => PollAction::TryReceive,
        PollPhase::Waiting => PollAction::Wait { secs: POLL_WAIT_SECS },
        PollPhase::Done => PollAction::Respond,
    }
}

/// The phase after an outcome: a received event is kept and draining goes on
/// until the batch holds `MAX_BATCH` events; when draining finds the queue empty
/// the poll waits if it has nothing yet and is done otherwise; a wait that yields
/// an event drains what else arrived, and one that yields nothing (timeout or a
/// closed queue) ends the poll.
pub open spec fn spec_poll_phase(phase: PollPhase, taken: nat, received: bool) -> PollPhase {
    match phase {
        PollPhase::Draining => if received {
            if taken + 1 >= MAX_BATCH {
                PollPhase::Done
            } else {
                PollPhase::Draining
            }
        } else if taken == 0 {
            PollPhase::Waiting
        } else {
            PollPhase::Done
        },
        PollPhase::Waiting => if received {
            PollPhase::DrainingAfterWait
        } else {
            PollPhase::Done
        },
        PollPhase::DrainingAfterWait => if received && taken + 1 < MAX_BATCH {
            PollPhase::DrainingAfterWait
        } else {
            PollPhase::Done
        },
        PollPhase::Done => PollPhase::Done,
    }
}

impl<T> PluginPoll<T> {
    /// A batch never holds more than `MAX_BATCH` events and is full only once
    /// done; a wait starts from an empty batch, and draining after a wait has the
    /// awaited event.
    pub open spec fn wf(&self) -> bool {
        &&& self.events@.len() <= MAX_BATCH
        &&& self.phase != PollPhase::Done ==> self.events@.len() < MAX_BATCH
        &&& self.phase == PollPhase::Waiting ==> self.events@.len() == 0
        &&& self.phase == PollPhase::DrainingAfterWait ==> self.events@.len() >= 1
    }

    /// A poll that has taken nothing yet.
    pub fn new() -> (p: Self)
        ensures
            p.wf(),
            p.phase == PollPhase::Draining,
            p.events@.len() == 0,
    {
        PluginPoll { phase: PollPhase::Draining, events: Vec::new() }
    }

    /// What the poll does next.
    pub fn next_action(&self) -> (a: PollAction)
        ensures
            a == spec_poll_action(self.phase),
    {
        match self.phase {
            PollPhase::Draining => PollAction::TryReceive,
            PollPhase::DrainingAfterWait => PollAction::TryReceive,
            PollPhase::Waiting => PollAction::Wait { secs: POLL_WAIT_SECS },
            PollPhase::Done => PollAction::Respond,
        }
    }

    /// Records the outcome of the last action: the event received, or `None` when
    /// the queue was empty, the wait timed out or the queue is closed. A finished
    /// poll takes no more events.
    pub fn on_outcome(&mut self, outcome: Option<T>)
        requires
            old(self).wf(),
        ensures
            final(self).wf(),
            final(self).phase == spec_poll_phase(
                old(self).phase,
                old(self).events@.len(),
                outcome is Some,
            ),
            final(self).events@ == match outcome {
                Some(ev) => if old(self).phase == PollPhase::Done {
                    old(self).events@
                } else {
                    old(self).events@.push(ev)
                },
                None => old(self).events@,
            },
    {
        let taken = self.events.len();
        let received = outcome.is_some();
        let next = match self.phase {
            PollPhase::Draining => if received {
                if taken + 1 >= MAX_BATCH {
                    PollPhase::Done
                } else {
                    PollPhase::Draining
                }
            } else if taken == 0 {
                PollPhase::Waiting
            } else {
                PollPhase::Done
            },
            PollPhase::Waiting => if received {
                PollPhase::DrainingAfterWait
            } else {
                PollPhase::Done
            },
            PollPhase::DrainingAfterWait => if received && taken + 1 < MAX_BATCH {
                PollPhase::DrainingAfterWait
            } else {
                PollPhase::Done
            },
            PollPhase::Done => PollPhase::Done,
        };
        if self.phase != PollPhase::Done {
            if let Some(ev) = outcome {
                self.events.push(ev);
            }
        }
        self.phase = next;
    }

    /// The batch to answer with.
    pub fn into_events(self) -> (events: Vec<T>)
        ensures
            events@ == self.events@,
    {
        self.events
    }
}


/// A poll waits at most once: once past draining, no outcome leads back to waiting.
pub proof fn lemma_poll_waits_once(phase: PollPhase, taken: nat, received: bool)
    requires
        phase != PollPhase::Draining,
    ensures
        spec_poll_phase(phase, taken, received) != PollPhase::Waiting,
{
}

/// A poll answers with an empty batch only after waiting for an event in vain:
/// a poll that finishes straight from draining has taken an event.
pub proof fn lemma_poll_empty_only_after_wait(phase: PollPhase, taken: nat, received: bool)
    requires
        phase == PollPhase::Draining || phase == PollPhase::DrainingAfterWait,
        phase == PollPhase::DrainingAfterWait ==> taken >= 1,
        spec_poll_phase(phase, taken, received) == PollPhase::Done,
    ensures
        taken + (if received {
            1int
        } else {
            0int
        }) >= 1,
{
}


/// A poll loses no event it takes from the queue: it takes events (by a receive
/// or a wait) only while it is not done, every event it takes while not done is
/// appended to its batch (see [`PluginPoll::on_outcome`]), and once done it only
/// answers. So the batch is exactly the events taken from the queue, in order.
pub proof fn lemma_poll_takes_only_before_done(phase: PollPhase)
    ensures
        phase == PollPhase::Done <==> spec_poll_action(phase) == PollAction::Respond,
        phase != PollPhase::Done ==> spec_poll_action(phase) == PollAction::TryReceive
            || spec_poll_action(phase) == (PollAction::Wait { secs: POLL_WAIT_SECS }),
{
}


/// One action of a poll served from a first-in-first-out queue: a receive, or a
/// wait, takes the head of the queue; an empty queue yields nothing (for a wait,
/// its timeout). A finished poll takes nothing. The result is the new phase, the
/// batch and what is left in the queue.
pub open spec fn serve<T>(phase: PollPhase, batch: Seq<T>, queue: Seq<T>) -> (PollPhase, Seq<T>, Seq<T>) {
    let received = queue.len() > 0;
    if phase == PollPhase::Done {
        (phase, batch, queue)
    } else if received {
        (spec_poll_phase(phase, batch.len(), true), batch.push(queue[0]), queue.drop_first())
    } else {
        (spec_poll_phase(phase, batch.len(), false), batch, queue)
    }
}

/// Runs a poll against a queue for at most `fuel` actions, or until it is
/// done: the batch it answers with and what is left in the queue.
pub open spec fn run_poll<T>(phase: PollPhase, batch: Seq<T>, queue: Seq<T>, fuel: nat) -> (
    Seq<T>,
    Seq<T>,
)
    decreases fuel,
{
    if fuel == 0 || phase == PollPhase::Done {
        (batch, queue)
    } else {
        let (p, b, q) = serve(phase, batch, queue);
        run_poll(p, b, q, (fuel - 1) as nat)
    }
}

/// Actions enough for any poll: one per event of a full batch, and the two
/// that find the queue empty.
pub open spec fn poll_fuel() -> nat {
    (MAX_BATCH + 2) as nat
}

/// The answer of one whole poll against `queue`: its batch and what it leaves.
pub open spec fn one_poll<T>(queue: Seq<T>) -> (Seq<T>, Seq<T>) {
    run_poll(PollPhase::Draining, Seq::empty(), queue, poll_fuel())
}

/// The batches of successive polls against a queue that receives nothing more,
/// until it is empty.
pub open spec fn successive_polls<T>(queue: Seq<T>) -> Seq<Seq<T>>
    decreases queue.len(),
{
    if queue.len() == 0 {
        Seq::empty()
    } else {
        let rest = one_poll(queue).1;
        if rest.len() < queue.len() {
            seq![one_poll(queue).0] + successive_polls(rest)
        } else {
            Seq::empty()
        }
    }
}

/// Each action of a poll moves the head of the queue to the end of the batch:
/// the batch followed by the queue is unchanged, so events that arrive at the
/// end of the queue meanwhile keep their order too.
pub proof fn lemma_serve_conserves<T>(phase: PollPhase, batch: Seq<T>, queue: Seq<T>)
    ensures
        serve(phase, batch, queue).1 + serve(phase, batch, queue).2 == batch + queue,
{
    if phase != PollPhase::Done && queue.len() > 0 {
        assert(batch.push(queue[0]) + queue.drop_first() =~= batch + queue);
    }
}

proof fn lemma_drain<T>(phase: PollPhase, batch: Seq<T>, queue: Seq<T>, fuel: nat)
    requires
        phase == PollPhase::Draining || phase == PollPhase::DrainingAfterWait,
        batch.len() >= 1 || queue.len() >= 1,
        phase == PollPhase::DrainingAfterWait ==> batch.len() >= 1,
        batch.len() < MAX_BATCH,
        fuel >= MAX_BATCH - batch.len() + 1,
    ensures
        ({
            let j = if queue.len() < MAX_BATCH - batch.len() {
                queue.len() as int
            } else {
                MAX_BATCH - batch.len()
            };
            run_poll(phase, batch, queue, fuel) == (batch + queue.take(j), queue.skip(j))
        }),
    decreases queue.len(),
{
    let (p, b, q) = serve(phase, batch, queue);
    assert(run_poll(phase, batch, queue, fuel) == run_poll(p, b, q, (fuel - 1) as nat));
    if queue.len() == 0 {
        assert(p == PollPhase::Done);
        assert(run_poll(p, b, q, (fuel - 1) as nat) == (b, q));
        assert(batch + queue.take(0) =~= batch);
        assert(queue.skip(0) =~= queue);
    } else {
        assert(b == batch.push(queue[0]));
        if p == PollPhase::Done {
            assert(run_poll(p, b, q, (fuel - 1) as nat) == (b, q));
            assert(batch + queue.take(1) =~= batch.push(queue[0]));
            assert(queue.skip(1) =~= queue.drop_first());
        } else {
            lemma_drain(p, b, q, (fuel - 1) as nat);
            let j = if q.len() < MAX_BATCH - b.len() {
                q.len() as int
            } else {
                MAX_BATCH - b.len()
            };
            assert(b + q.take(j) =~= batch + queue.take(j + 1));
            assert(q.skip(j) =~= queue.skip(j + 1));
        }
    }
}

/// One poll against a queue answers with the first `min(queue.len(), 64)`
/// events of the queue, in order, and leaves the rest; an empty queue gives an
/// empty answer (after the wait times out).
pub proof fn lemma_one_poll<T>(queue: Seq<T>)
    ensures
        ({
            let k = if queue.len() < MAX_BATCH {
                queue.len() as int
            } else {
                MAX_BATCH as int
            };
            one_poll(queue) == (queue.take(k), queue.skip(k))
        }),
{
    let empty = Seq::<T>::empty();
    if queue.len() == 0 {
        let (p, b, q) = serve(PollPhase::Draining, empty, queue);
        assert(p == PollPhase::Waiting);
        let (p2, b2, q2) = serve(p, b, q);
        assert(p2 == PollPhase::Done);
        assert(run_poll(PollPhase::Draining, empty, queue, poll_fuel()) == run_poll(
            p,
            b,
            q,
            (poll_fuel() - 1) as nat,
        ));
        assert(run_poll(p, b, q, (poll_fuel() - 1) as nat) == run_poll(
            p2,
            b2,
            q2,
            (poll_fuel() - 2) as nat,
        ));
        assert(run_poll(p2, b2, q2, (poll_fuel() - 2) as nat) == (b2, q2));
        assert(queue.take(0) =~= empty);
        assert(queue.skip(0) =~= queue);
    } else {
        lemma_drain(PollPhase::Draining, empty, queue, poll_fuel());
        let k = if queue.len() < MAX_BATCH {
            queue.len() as int
        } else {
            MAX_BATCH as int
        };
        assert(empty + queue.take(k) =~= queue.take(k));
    }
}

/// Across polls nothing is lost, duplicated or reordered: successive polls
/// against a queue answer with batches of one to `MAX_BATCH` events that,
/// joined, are the queue in order.
pub proof fn lemma_successive_polls_deliver_in_order<T>(queue: Seq<T>)
    ensures
        successive_polls(queue).flatten() == queue,
        forall|i: int|
            0 <= i < successive_polls(queue).len() ==> 1 <= #[trigger] successive_polls(
                queue,
            )[i].len() <= MAX_BATCH,
    decreases queue.len(),
{
    if queue.len() > 0 {
        lemma_one_poll(queue);
        let k = if queue.len() < MAX_BATCH {
            queue.len() as int
        } else {
            MAX_BATCH as int
        };
        let rest = queue.skip(k);
        assert(one_poll(queue).1 == rest);
        assert(rest.len() < queue.len());
        lemma_successive_polls_deliver_in_order(rest);
        let head = seq![queue.take(k)];
        let tail = successive_polls(rest);
        assert(successive_polls(queue) == head + tail);
        vstd::seq_lib::lemma_flatten_concat(head, tail);
        head.lemma_flatten_one_element();
        assert(queue.take(k) + rest =~= queue);
        assert forall|i: int| 0 <= i < successive_polls(queue).len() implies 1
            <= #[trigger] successive_polls(queue)[i].len() <= MAX_BATCH by {
            if i > 0 {
                assert(successive_polls(queue)[i] == tail[i - 1]);
            }
        }
    }
}


/// How each stream answers its client: the input stream delivers exactly the
/// text messages, pongs exactly the pings, and ends exactly on a close, a
/// protocol error or the end of the stream; the frame stream pongs exactly the
/// pings and ends exactly on a close or the end of the stream; a frame change
/// sends exactly the non-empty frames and ends exactly when the frame source
/// is gone.
pub proof fn lemma_session_answers(m: ClientMessage, frame_len: Option<usize>)
    ensures
        (spec_on_input_message(m) == SessionAction::Stop) <==> (m == ClientMessage::Close || m
            == ClientMessage::Error || m == ClientMessage::Ended),
        (spec_on_input_message(m) == SessionAction::Deliver) <==> (m == ClientMessage::Text),
        (spec_on_input_message(m) == SessionAction::Pong) <==> (m == ClientMessage::Ping),
        (spec_on_stream_message(m) == SessionAction::Stop) <==> (m == ClientMessage::Close || m
            == ClientMessage::Ended),
        (spec_on_stream_message(m) == SessionAction::Pong) <==> (m == ClientMessage::Ping),
        spec_on_stream_message(m) != SessionAction::Deliver && spec_on_stream_message(m)
            != SessionAction::SendFrame,
        (spec_on_frame(frame_len) == SessionAction::Stop) <==> (frame_len is None),
        (spec_on_frame(frame_len) == SessionAction::SendFrame) <==> (frame_len matches Some(n)
            && n > 0),
{
}


} // verus!
