//! One connection of the server, as a state machine.
//!
//! The program around the library owns the stream. It performs the actions
//! that a step hands out, in order, and reports what came of them as the
//! next event: the bytes of a read, the end of the actions, or a failure.
//! A step never blocks and touches nothing but the registry.

use vstd::prelude::*;
use crate::dispatch::{
    echo_bytes, handle_ioctl, registry_after, reply_to, Outcome, Reply, ReplyModel,
};
use crate::frame::{
    encode_ppm, frame_tag, ppm_image, tag, tag_head, tag_tail, FRAME_BYTES, HEIGHT, TAG_SIZE, WIDTH,
};
use crate::registry::{RegistryModel, State};
use crate::wire::{
    copy_range, le_bytes, le_value, lemma_le_bytes_len, lemma_le_bytes_of_value,
    lemma_le_value_of_bytes, lemma_radix_pow_values, operation_of, u64_from_le, Operation,
    ECHO_SENTINEL, HEADER_SIZE,
};

verus! {

/// What a connection waits for after a header.
#[derive(Clone, Copy, Debug, PartialEq, Eq, Structural)]
pub enum Awaited {
    /// The argument of the operation with this code.
    Argument(u64),
    /// The last three bytes of the frame tag.
    TagTail,
    /// The raw pixels of a frame.
    Pixels,
}

/// The state of a connection.
#[derive(Clone, Copy, Debug, PartialEq, Eq, Structural)]
pub enum Conn {
    /// Waiting for the eight bytes of the next header.
    AwaitingRequestHeader,
    /// Waiting for the bytes that the header announced.
    ReadingOperationArgument(Awaited),
    /// The request was carried out; its answer is being written.
    Responding,
    /// The connection is over.
    Closed,
}

/// What came of the last actions.
#[derive(Debug, PartialEq, Eq)]
pub enum Event {
    /// The read delivered exactly the bytes asked for.
    Read(Vec<u8>),
    /// Every action was performed.
    Done,
    /// The stream ended, or a read or write failed.
    Failed,
}

/// What the program is to do next.
#[derive(Debug, PartialEq, Eq)]
pub enum Action {
    /// Read exactly this many bytes and report them.
    Read(usize),
    /// Write these bytes.
    Write(Vec<u8>),
    /// Store this image as the current frame.
    Store(Vec<u8>),
    /// Close the stream and end the worker.
    Close,
}

/// An event as a value.
pub enum EventModel {
    Read(Seq<u8>),
    Done,
    Failed,
}

/// An action as a value.
pub enum ActionModel {
    Read(nat),
    Write(Seq<u8>),
    Store(Seq<u8>),
    Close,
}

impl View for Event {
    type V = EventModel;

    open spec fn view(&self) -> EventModel {
        match self {
            Event::Read(bytes) => EventModel::Read(bytes@),
            Event::Done => EventModel::Done,
            Event::Failed => EventModel::Failed,
        }
    }
}

impl View for Action {
    type V = ActionModel;

    open spec fn view(&self) -> ActionModel {
        match self {
            Action::Read(n) => ActionModel::Read(*n as nat),
            Action::Write(bytes) => ActionModel::Write(bytes@),
            Action::Store(image) => ActionModel::Store(image@),
            Action::Close => ActionModel::Close,
        }
    }
}

/// The actions of a list, each as a value.
pub open spec fn actions_view(actions: Seq<Action>) -> Seq<ActionModel> {
    actions.map_values(|a: Action| a@)
}

/// A step of a connection as a value: the state it moves to, the registry
/// afterwards and the actions it hands out.
pub struct Step {
    pub conn: Conn,
    pub registry: RegistryModel,
    pub actions: Seq<ActionModel>,
}

/// The code that the first eight bytes of the frame tag would be as a header.
pub open spec fn tag_code() -> u64 {
    le_value(tag_head()) as u64
}

/// The step that ends a connection.
pub open spec fn close(m: RegistryModel) -> Step {
    Step { conn: Conn::Closed, registry: m, actions: seq![ActionModel::Close] }
}

/// The actions that carry an answer out: store its image, if it has one,
/// then write its bytes, if it has any.
pub open spec fn answer_actions(reply: ReplyModel) -> Seq<ActionModel> {
    let store = match reply.frame {
        Some(image) => seq![ActionModel::Store(image)],
        None => Seq::empty(),
    };
    let write = if reply.bytes.len() > 0 {
        seq![ActionModel::Write(reply.bytes)]
    } else {
        Seq::empty()
    };
    store + write
}

/// The step that carries out a request whose argument has arrived. A request
/// that finds its counter spent ends the connection.
pub open spec fn respond(m: RegistryModel, code: u64, arg: Seq<u8>) -> Step {
    let reply = reply_to(m, code, arg);
    if reply.outcome == Outcome::Exhausted {
        close(m)
    } else {
        Step {
            conn: Conn::Responding,
            registry: registry_after(m, code, arg),
            actions: answer_actions(reply),
        }
    }
}

/// The step that a connection takes on an event.
pub open spec fn next(conn: Conn, event: EventModel, m: RegistryModel) -> Step {
    match (conn, event) {
        (Conn::AwaitingRequestHeader, EventModel::Read(header)) => {
            if header.len() != HEADER_SIZE {
                close(m)
            } else if header == tag_head() {
                Step {
                    conn: Conn::ReadingOperationArgument(Awaited::TagTail),
                    registry: m,
                    actions: seq![ActionModel::Read((TAG_SIZE - HEADER_SIZE) as nat)],
                }
            } else {
                let code = le_value(header) as u64;
                let len = operation_of(code).argument_len();
                if len == 0 {
                    respond(m, code, Seq::empty())
                } else {
                    Step {
                        conn: Conn::ReadingOperationArgument(Awaited::Argument(code)),
                        registry: m,
                        actions: seq![ActionModel::Read(len)],
                    }
                }
            }
        },
        (Conn::ReadingOperationArgument(Awaited::Argument(code)), EventModel::Read(arg)) => {
            if arg.len() != operation_of(code).argument_len() {
                close(m)
            } else {
                respond(m, code, arg)
            }
        },
        (Conn::ReadingOperationArgument(Awaited::TagTail), EventModel::Read(tail)) => {
            if tail.len() != TAG_SIZE - HEADER_SIZE {
                close(m)
            } else if tail == tag_tail() {
                Step {
                    conn: Conn::ReadingOperationArgument(Awaited::Pixels),
                    registry: m,
                    actions: seq![ActionModel::Read(FRAME_BYTES as nat)],
                }
            } else {
                respond(m, tag_code(), Seq::empty())
            }
        },
        (Conn::ReadingOperationArgument(Awaited::Pixels), EventModel::Read(pixels)) => {
            if pixels.len() != FRAME_BYTES {
                close(m)
            } else {
                Step {
                    conn: Conn::Responding,
                    registry: m,
                    actions: seq![
                        ActionModel::Store(ppm_image(WIDTH as nat, HEIGHT as nat, pixels)),
                    ],
                }
            }
        },
        (Conn::Responding, EventModel::Done) => Step {
            conn: Conn::AwaitingRequestHeader,
            registry: m,
            actions: seq![ActionModel::Read(HEADER_SIZE as nat)],
        },
        (Conn::Closed, _) => Step { conn: Conn::Closed, registry: m, actions: Seq::empty() },
        _ => close(m),
    }
}

/// Whether two byte strings are equal.
pub fn same_bytes(a: &[u8], b: &[u8]) -> (same: bool)
    ensures
        same == (a@ == b@),
{
    if a.len() != b.len() {
        return false;
    }
    let mut i: usize = 0;
    while i < a.len()
        invariant
            i <= a@.len(),
            a@.len() == b@.len(),
            forall|k: int| 0 <= k < i ==> a@[k] == b@[k],
        decreases a@.len() - i,
    {
        if a[i] != b[i] {
            return false;
        }
        i = i + 1;
    }
    assert(a@ =~= b@);
    true
}

/// The start of a connection: it waits for a header, and the first action is
/// to read one.
pub fn open() -> (r: (Conn, Vec<Action>))
    ensures
        r.0 == Conn::AwaitingRequestHeader,
        actions_view(r.1@) == seq![ActionModel::Read(HEADER_SIZE as nat)],
{
    let mut actions: Vec<Action> = Vec::new();
    actions.push(Action::Read(HEADER_SIZE));
    assert(actions_view(actions@) =~= seq![ActionModel::Read(HEADER_SIZE as nat)]);
    (Conn::AwaitingRequestHeader, actions)
}

fn one(action: Action) -> (actions: Vec<Action>)
    ensures
        actions_view(actions@) == seq![action@],
{
    let mut actions: Vec<Action> = Vec::new();
    actions.push(action);
    assert(actions_view(actions@) =~= seq![action@]);
    actions
}

fn closing() -> (r: (Conn, Vec<Action>))
    ensures
        r.0 == Conn::Closed,
        actions_view(r.1@) == seq![ActionModel::Close],
{
    (Conn::Closed, one(Action::Close))
}

fn carry_out(code: u64, arg: &[u8], state: &mut State) -> (r: (Conn, Vec<Action>))
    ensures
        ({
            let s = respond(old(state)@, code, arg@);
            &&& r.0 == s.conn
            &&& final(state)@ == s.registry
            &&& actions_view(r.1@) == s.actions
        }),
{
    let reply = handle_ioctl(code, arg, state);
    let ghost model = reply@;
    if reply.outcome == Outcome::Exhausted {
        return closing();
    }
    let Reply { bytes, frame, .. } = reply;
    let mut actions: Vec<Action> = Vec::new();
    match frame {
        Some(image) => {
            actions.push(Action::Store(image));
        },
        None => {},
    }
    if bytes.len() > 0 {
        actions.push(Action::Write(bytes));
    }
    assert(actions_view(actions@) =~= answer_actions(model));
    (Conn::Responding, actions)
}

/// Takes one step of a connection: carries out on the registry what the
/// event completes, and returns the next state with the actions to perform.
/// The step is [`next`] of the state, the event and the registry before.
pub fn step(conn: Conn, event: Event, state: &mut State) -> (r: (Conn, Vec<Action>))
    ensures
        ({
            let s = next(conn, event@, old(state)@);
            &&& r.0 == s.conn
            &&& final(state)@ == s.registry
            &&& actions_view(r.1@) == s.actions
        }),
{
    match conn {
        Conn::AwaitingRequestHeader => match event {
            Event::Read(header) => {
                if header.len() != HEADER_SIZE {
                    return closing();
                }
                let whole = tag();
                let head = copy_range(whole.as_slice(), 0, HEADER_SIZE);
                if same_bytes(header.as_slice(), head.as_slice()) {
                    return (
                        Conn::ReadingOperationArgument(Awaited::TagTail),
                        one(Action::Read(TAG_SIZE - HEADER_SIZE)),
                    );
                }
                let code = u64_from_le(header.as_slice());
                proof {
                    lemma_le_bytes_of_value(header@);
                    lemma_radix_pow_values();
                }
                let len = Operation::from_code(code).arg_len();
                if len == 0 {
                    let none: Vec<u8> = Vec::new();
                    assert(none@ =~= Seq::<u8>::empty());
                    carry_out(code, none.as_slice(), state)
                } else {
                    (
                        Conn::ReadingOperationArgument(Awaited::Argument(code)),
                        one(Action::Read(len)),
                    )
                }
            },
            _ => closing(),
        },
        Conn::ReadingOperationArgument(Awaited::Argument(code)) => match event {
            Event::Read(arg) => {
                if arg.len() != Operation::from_code(code).arg_len() {
                    closing()
                } else {
                    carry_out(code, arg.as_slice(), state)
                }
            },
            _ => closing(),
        },
        Conn::ReadingOperationArgument(Awaited::TagTail) => match event {
            Event::Read(tail) => {
                if tail.len() != TAG_SIZE - HEADER_SIZE {
                    return closing();
                }
                let whole = tag();
                let rest = copy_range(whole.as_slice(), HEADER_SIZE, TAG_SIZE);
                if same_bytes(tail.as_slice(), rest.as_slice()) {
                    (
                        Conn::ReadingOperationArgument(Awaited::Pixels),
                        one(Action::Read(FRAME_BYTES)),
                    )
                } else {
                    let head = copy_range(whole.as_slice(), 0, HEADER_SIZE);
                    let code = u64_from_le(head.as_slice());
                    proof {
                        lemma_le_bytes_of_value(head@);
                        lemma_radix_pow_values();
                    }
                    let none: Vec<u8> = Vec::new();
                    assert(none@ =~= Seq::<u8>::empty());
                    carry_out(code, none.as_slice(), state)
                }
            },
            _ => closing(),
        },
        Conn::ReadingOperationArgument(Awaited::Pixels) => match event {
            Event::Read(pixels) => {
                match encode_ppm(WIDTH, HEIGHT, pixels.as_slice()) {
                    Some(image) => (Conn::Responding, one(Action::Store(image))),
                    None => closing(),
                }
            },
            _ => closing(),
        },
        Conn::Responding => match event {
            Event::Done => (Conn::AwaitingRequestHeader, one(Action::Read(HEADER_SIZE))),
            _ => closing(),
        },
        Conn::Closed => {
            let actions: Vec<Action> = Vec::new();
            assert(actions_view(actions@) =~= Seq::<ActionModel>::empty());
            (Conn::Closed, actions)
        },
    }
}

/// A connection that fails takes nothing with it: it ends, and the registry
/// that the other connections share is as it was.
pub proof fn lemma_failure_ends_one_connection(conn: Conn, m: RegistryModel)
    ensures
        next(conn, EventModel::Failed, m).conn == Conn::Closed,
        next(conn, EventModel::Failed, m).registry == m,
{
}

/// An unknown operation does not put the stream out of step. Its header is
/// answered at once with exactly eight bytes, the first of them the
/// sentinel; the registry is untouched; and once the answer is written the
/// connection waits for a header again, so that whatever comes next is
/// served as if the unknown request had never been sent.
pub proof fn lemma_unknown_keeps_sync(m: RegistryModel, code: u64, later: EventModel)
    requires
        operation_of(code) == Operation::Unknown,
        le_bytes(code as nat, 8) != tag_head(),
    ensures
        ({
            let header = EventModel::Read(le_bytes(code as nat, 8));
            let answered = next(Conn::AwaitingRequestHeader, header, m);
            let written = next(answered.conn, EventModel::Done, answered.registry);
            &&& answered.conn == Conn::Responding
            &&& answered.registry == m
            &&& answered.actions == seq![ActionModel::Write(echo_bytes())]
            &&& echo_bytes().len() == 8
            &&& echo_bytes()[0] == ECHO_SENTINEL
            &&& written.conn == Conn::AwaitingRequestHeader
            &&& written.registry == m
            &&& written.actions == seq![ActionModel::Read(HEADER_SIZE as nat)]
            &&& next(written.conn, later, written.registry) == next(
                Conn::AwaitingRequestHeader,
                later,
                m,
            )
        }),
{
    lemma_le_bytes_len(code as nat, 8);
    lemma_radix_pow_values();
    lemma_le_value_of_bytes(code as nat, 8);
    let reply = reply_to(m, code, Seq::empty());
    assert(answer_actions(reply) =~= seq![ActionModel::Write(echo_bytes())]);
}

/// A request of the catalogue that arrives on a waiting connection, header
/// first and then its argument, is carried out once on the registry, as
/// [`registry_after`] says, and answered as [`reply_to`] says; then the
/// connection waits for a header again.
pub proof fn lemma_request_is_served(m: RegistryModel, code: u64, arg: Seq<u8>)
    requires
        le_bytes(code as nat, 8) != tag_head(),
        arg.len() == operation_of(code).argument_len(),
        reply_to(m, code, arg).outcome != Outcome::Exhausted,
    ensures
        ({
            let header = EventModel::Read(le_bytes(code as nat, 8));
            let first = next(Conn::AwaitingRequestHeader, header, m);
            let served = if arg.len() == 0 {
                first
            } else {
                next(first.conn, EventModel::Read(arg), first.registry)
            };
            let written = next(served.conn, EventModel::Done, served.registry);
            &&& arg.len() > 0 ==> first.registry == m && first.actions == seq![
                ActionModel::Read(arg.len()),
            ]
            &&& served.conn == Conn::Responding
            &&& served.registry == registry_after(m, code, arg)
            &&& served.actions == answer_actions(reply_to(m, code, arg))
            &&& written.conn == Conn::AwaitingRequestHeader
            &&& written.registry == served.registry
        }),
{
    lemma_le_bytes_len(code as nat, 8);
    lemma_radix_pow_values();
    lemma_le_value_of_bytes(code as nat, 8);
    if arg.len() == 0 {
        assert(arg =~= Seq::<u8>::empty());
    }
}

/// A frame transfer that arrives on a waiting connection (the tag, then the
/// raw pixels) makes the server store the image of exactly those pixels,
/// answers nothing, leaves the registry untouched, and then the connection
/// waits for a header again.
pub proof fn lemma_transfer_is_stored(m: RegistryModel, pixels: Seq<u8>)
    requires
        pixels.len() == FRAME_BYTES,
    ensures
        ({
            let a = next(Conn::AwaitingRequestHeader, EventModel::Read(tag_head()), m);
            let b = next(a.conn, EventModel::Read(tag_tail()), a.registry);
            let c = next(b.conn, EventModel::Read(pixels), b.registry);
            let d = next(c.conn, EventModel::Done, c.registry);
            &&& a.actions == seq![ActionModel::Read(3)]
            &&& b.actions == seq![ActionModel::Read(FRAME_BYTES as nat)]
            &&& c.actions == seq![
                ActionModel::Store(ppm_image(WIDTH as nat, HEIGHT as nat, pixels)),
            ]
            &&& d.conn == Conn::AwaitingRequestHeader
            &&& d.registry == m
            &&& tag_head() + tag_tail() == frame_tag()
        }),
{
    assert(tag_head() + tag_tail() =~= frame_tag());
}

} // verus!
