//! The decisions inside the thread and async demos: a counter server
//! driven by messages, and the values that flow through streams.

use vstd::prelude::*;
use vstd::string::StringExecFns;

verus! {

/// A request from a client to the counter server.
#[derive(Debug, Clone, Copy, PartialEq, Eq, Structural)]
pub enum ClientMessage {
    Incr,
    Get,
    Quit,
}

/// A reply from the counter server.
#[derive(Debug, Clone, Copy, PartialEq, Eq, Structural)]
pub enum ServerMessage {
    Get(usize),
}

/// What the server does on one request: its new count, the reply it
/// sends, if any, and whether it stops.
#[derive(Debug, Clone, Copy, PartialEq, Eq, Structural)]
pub struct ServerStep {
    pub count: usize,
    pub reply: Option<ServerMessage>,
    pub stop: bool,
}

/// The server's answer to `msg` when its count is `n`: `Incr` adds one,
/// `Get` replies with the count, `Quit` stops.
pub fn server_step(n: usize, msg: ClientMessage) -> (r: ServerStep)
    requires
        msg == ClientMessage::Incr ==> n < usize::MAX,
    ensures
        r == match msg {
            ClientMessage::Incr => ServerStep { count: (n + 1) as usize, reply: None, stop: false },
            ClientMessage::Get => ServerStep { count: n, reply: Some(ServerMessage::Get(n)), stop: false },
            ClientMessage::Quit => ServerStep { count: n, reply: None, stop: true },
        },
{
    match msg {
        ClientMessage::Incr => ServerStep { count: n + 1, reply: None, stop: false },
        ClientMessage::Get => ServerStep { count: n, reply: Some(ServerMessage::Get(n)), stop: false },
        ClientMessage::Quit => ServerStep { count: n, reply: None, stop: true },
    }
}

/// The count after the server has handled `msgs` from `n`, up to and
/// including the first `Quit`.
pub open spec fn count_after(n: int, msgs: Seq<ClientMessage>) -> int
    decreases msgs.len(),
{
    if msgs.len() == 0 {
        n
    } else {
        match msgs[0] {
            ClientMessage::Incr => count_after(n + 1, msgs.drop_first()),
            ClientMessage::Get => count_after(n, msgs.drop_first()),
            ClientMessage::Quit => n,
        }
    }
}

/// The replies the server sends while handling `msgs` from `n`, up to the
/// first `Quit`.
pub open spec fn replies_after(n: int, msgs: Seq<ClientMessage>) -> Seq<int>
    decreases msgs.len(),
{
    if msgs.len() == 0 {
        seq![]
    } else {
        match msgs[0] {
            ClientMessage::Incr => replies_after(n + 1, msgs.drop_first()),
            ClientMessage::Get => seq![n] + replies_after(n, msgs.drop_first()),
            ClientMessage::Quit => seq![],
        }
    }
}

/// Runs the server over `msgs` from a count of zero, as its thread would
/// receive them, and gives the counts it replied with.
pub fn serve_all(msgs: &Vec<ClientMessage>) -> (r: Vec<usize>)
    requires
        msgs.len() < usize::MAX,
    ensures
        r@.map_values(|v: usize| v as int) == replies_after(0, msgs@),
{
    let mut n: usize = 0;
    let mut out: Vec<usize> = Vec::new();
    let mut i: usize = 0;
    assert(msgs@.skip(0) =~= msgs@);
    assert(out@.map_values(|v: usize| v as int) + replies_after(0, msgs@) =~= replies_after(0, msgs@));
    while i < msgs.len()
        invariant
            i <= msgs.len() < usize::MAX,
            n <= i,
            out@.map_values(|v: usize| v as int) + replies_after(n as int, msgs@.skip(i as int))
                == replies_after(0, msgs@),
        decreases msgs.len() - i,
    {
        let ghost rest = msgs@.skip(i as int);
        assert(rest.drop_first() =~= msgs@.skip(i + 1));
        let step = server_step(n, msgs[i]);
        if step.stop {
            assert(replies_after(n as int, rest) == Seq::<int>::empty());
            assert(out@.map_values(|v: usize| v as int) + Seq::<int>::empty() =~= out@.map_values(
                |v: usize| v as int,
            ));
            return out;
        }
        match step.reply {
            Some(ServerMessage::Get(v)) => {
                let ghost before = out@.map_values(|v: usize| v as int);
                out.push(v);
                assert(out@.map_values(|v: usize| v as int) =~= before.push(v as int));
                assert(before.push(v as int) + replies_after(n as int, rest.drop_first()) =~= before + (
                seq![v as int] + replies_after(n as int, rest.drop_first())));
            },
            None => {},
        }
        n = step.count;
        i += 1;
    }
    assert(msgs@.skip(i as int) =~= Seq::<ClientMessage>::empty());
    assert(out@.map_values(|v: usize| v as int) + Seq::<int>::empty() =~= out@.map_values(
        |v: usize| v as int,
    ));
    out
}

/// Whether `value` is a multiple of three or of five.
pub fn is_multiple_of_three_or_five(value: i32) -> (r: bool)
    ensures
        r == (value % 3 == 0 || value % 5 == 0),
{
    value % 3 == 0 || value % 5 == 0
}

/// The text a message stream carries for `message`: Message: '...'.
pub fn message_text(message: &str) -> (r: String)
    ensures
        r@ == "Message: '"@ + message@ + "'"@,
{
    let mut s = String::from_str("Message: '");
    s.append(message);
    s.append("'");
    s
}

} // verus!
