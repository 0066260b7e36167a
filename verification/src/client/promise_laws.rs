//! What the results of the client's operations promise to their callers: which
//! payloads they hold, in which order, and what has become of the connection.

use super::asynchronous::started;
use super::forward::{Forwarding, ForwardRequest};
use super::mio::{answered, Answer, MioReply, MioView};
use super::serve::{drained, served, DrainStep, Drained, RuntimeView, ServeStep, ServeView, Served};
use super::session::{follows, Reply, ScriptView, Session, SessionView, Step};
use super::state::{asked, begun, ClientView};
use crate::channel::layout::{spells, Field};
use crate::channel::model::ConnectionView;
use crate::text::opt_view;
use vstd::prelude::*;

verus! {

/// Whether payloads are these, one by one.
pub open spec fn are_these(payloads: Seq<Vec<u8>>, these: Seq<Seq<u8>>) -> bool {
    &&& payloads.len() == these.len()
    &&& forall|i: int| 0 <= i < these.len() ==> (#[trigger] payloads[i])@ == these[i]
}

/// An operation that has begun has one payload to send, which opens its channel,
/// and a session that holds all that is still to be done on it.
pub proof fn lemma_operations_begin(
    before: ClientView,
    after: ClientView,
    conn: ConnectionView,
    r: (Session, Step),
    script: ScriptView,
)
    ensures
        begun(before, after, r, script) ==> ({
            let (opened, channel, payload) = before.conn.open(script.kind);
            &&& after == (ClientView { conn: opened, ..before })
            &&& r.1.send@.len() == 1 && r.1.send@[0]@ == payload
            &&& r.1.next is Wait
            &&& r.0@.channel == channel
            &&& r.0@.stage is Opening
            &&& r.0@.asks == script.asks && r.0@.feed == script.feed
            &&& r.0@.collect == script.collect
            &&& r.0@.out.stdout.len() == 0 && r.0@.out.stderr.len() == 0
            &&& r.0@.out.exit_status is None && r.0@.out.exit_signal is None
        }),
        started(before.conn, conn, r, script) ==> ({
            let (opened, channel, payload) = before.conn.open(script.kind);
            &&& conn == opened
            &&& r.1.send@.len() == 1 && r.1.send@[0]@ == payload
            &&& r.1.next is Wait
            &&& r.0@.channel == channel
            &&& r.0@.stage is Opening
            &&& r.0@.asks == script.asks && r.0@.feed == script.feed
            &&& r.0@.collect == script.collect
            &&& r.0@.out.stdout.len() == 0 && r.0@.out.stderr.len() == 0
            &&& r.0@.out.exit_status is None && r.0@.out.exit_signal is None
        }),
{
    let payload = before.conn.open(script.kind).2;
    if begun(before, after, r, script) || started(before.conn, conn, r, script) {
        let sent = crate::text::views(r.1.send@);
        assert(sent == seq![payload]);
        assert(sent.len() == 1 && sent[0] == payload);
        assert(sent.len() == r.1.send@.len());
        assert(sent[0] == r.1.send@[0]@);
    }
}

/// A forward that was asked for has a payload that spells what was asked, with a
/// reply wanted, and waits for that reply.
pub proof fn lemma_forwards_are_asked_for(r: (ForwardRequest, Vec<u8>), what: Forwarding)
    requires
        asked(r, what@),
    ensures
        r.0@.what == what@,
        match what {
            Forwarding::Tcpip { bind_address, bind_port } => spells(
                r.1@,
                seq![
                    Field::Byte(80),
                    Field::Text("tcpip-forward"@),
                    Field::Flag(true),
                    Field::Text(bind_address@),
                    Field::Number(bind_port as u32),
                ],
            ),
            Forwarding::CancelTcpip { bind_address, bind_port } => spells(
                r.1@,
                seq![
                    Field::Byte(80),
                    Field::Text("cancel-tcpip-forward"@),
                    Field::Flag(true),
                    Field::Text(bind_address@),
                    Field::Number(bind_port as u32),
                ],
            ),
            Forwarding::Streamlocal { socket_path } => spells(
                r.1@,
                seq![
                    Field::Byte(80),
                    Field::Text("streamlocal-forward@openssh.com"@),
                    Field::Flag(true),
                    Field::Text(socket_path@),
                ],
            ),
            Forwarding::CancelStreamlocal { socket_path } => spells(
                r.1@,
                seq![
                    Field::Byte(80),
                    Field::Text("cancel-streamlocal-forward@openssh.com"@),
                    Field::Flag(true),
                    Field::Text(socket_path@),
                ],
            ),
        },
{
    super::operation_laws::lemma_forward_request_layout(what);
}

/// A step holds the payloads of its model, in order, and what comes after them;
/// the connection and what runs on it are as in the model.
pub proof fn lemma_steps_hold_their_payloads(
    conn: ConnectionView,
    session: SessionView,
    step: Step,
    reply: Reply,
    runtime: RuntimeView,
    drain: DrainStep,
    flow: Drained,
    serve: ServeView,
    act: ServeStep,
    turn: Served,
    client: MioView,
    r: Answer,
    answer: MioReply,
)
    ensures
        follows(conn, session, step, reply) ==> {
            &&& are_these(step.send@, reply.send)
            &&& step.next == reply.next && conn == reply.conn && session == reply.session
        },
        drained(conn, runtime, drain, flow) ==> {
            &&& are_these(drain.send@, flow.send)
            &&& drain.more == flow.more && drain.result == flow.result
            &&& conn == flow.conn && runtime == flow.runtime
        },
        served(conn, serve, act, turn) ==> {
            &&& opt_view(act.send) == turn.send
            &&& act.act@ == turn.act && act.result == turn.result
            &&& conn == turn.conn && serve == turn.serve
        },
        answered(client, r, answer) ==> {
            &&& opt_view(r.0) == answer.send
            &&& r.1 == answer.result && client == answer.client
        },
{
    if follows(conn, session, step, reply) {
        assert forall|i: int| 0 <= i < reply.send.len() implies (#[trigger] step.send@[i])@
            == reply.send[i] by {
            assert(crate::text::views(step.send@)[i] == step.send@[i]@);
        }
    }
    if drained(conn, runtime, drain, flow) {
        assert forall|i: int| 0 <= i < flow.send.len() implies (#[trigger] drain.send@[i])@
            == flow.send[i] by {
            assert(crate::text::views(drain.send@)[i] == drain.send@[i]@);
        }
    }
}

/// A list of payloads is seen one by one, and what may be absent is seen where it
/// is there.
pub proof fn lemma_views_one_by_one(payloads: Seq<Vec<u8>>, i: int, payload: Option<Vec<u8>>)
    ensures
        crate::text::views(payloads).len() == payloads.len(),
        0 <= i < payloads.len() ==> crate::text::views(payloads)[i] == payloads[i]@,
        payload is Some <==> opt_view(payload) is Some,
        payload is Some ==> opt_view(payload)->0 == payload->0@,
{
}

} // verus!
