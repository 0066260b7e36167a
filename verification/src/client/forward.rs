//! Remote forwards: asking the server to listen for us, and remembering
//! which of these requests it has granted.
//!
//! The memory serves one purpose: a forwarded connection that no forward
//! stands for is refused. The server may echo an address that differs from
//! the one that was requested, so only the absence of any forward of that
//! sort counts.

use super::serve::Granted;
use super::session::MAX_EXEC_ITER;
use super::streamlocal::{
    path_request, streamlocal_request, CANCEL_STREAMLOCAL_FORWARD, STREAMLOCAL_FORWARD,
};
use crate::channel::global::GlobalRequestView;
use crate::channel::model::{global_payload, ConnectionView, EventView};
use crate::channel::{ChannelEvent, ConnectionState, GlobalRequest, MSG_CHANNEL_OPEN};
use crate::error::Error;
use crate::format::{get_u32, Reader};
use crate::text::{str_eq, views};
use vstd::prelude::*;

verus! {

/// `i` is the first place of `s` where `p` holds.
pub open spec fn is_first<A>(s: Seq<A>, p: spec_fn(A) -> bool, i: int) -> bool {
    &&& 0 <= i < s.len()
    &&& p(s[i])
    &&& forall|j: int| 0 <= j < i ==> !p(#[trigger] s[j])
}

/// `s` without the first element for which `p` holds; the last element takes
/// its place. `None` if `p` holds nowhere.
pub open spec fn without_first<A>(s: Seq<A>, p: spec_fn(A) -> bool) -> Option<Seq<A>> {
    if exists|i: int| is_first(s, p, i) {
        let i = choose|i: int| is_first(s, p, i);
        Some(s.update(i, s.last()).drop_last())
    } else {
        None
    }
}

/// What the first place is decides what is left.
proof fn lemma_without_first<A>(s: Seq<A>, p: spec_fn(A) -> bool, i: int)
    requires
        is_first(s, p, i),
    ensures
        without_first(s, p) == Some(s.update(i, s.last()).drop_last()),
{
    let k = choose|k: int| is_first(s, p, k);
    assert(is_first(s, p, k));
    if k < i {
        assert(!p(s[k]));
    }
    if i < k {
        assert(!p(s[i]));
    }
}

/// The forwards that are in force.
#[verifier::ext_equal]
pub ghost struct GrantsView {
    pub tcpip: Seq<(Seq<char>, u16)>,
    pub streamlocal: Seq<Seq<char>>,
}

/// A forward of exactly that address and port.
pub open spec fn exactly(address: Seq<char>, port: u16) -> spec_fn((Seq<char>, u16)) -> bool {
    |g: (Seq<char>, u16)| g.0 == address && g.1 == port
}

/// A forward of that port, on whatever address.
pub open spec fn on_port(port: u16) -> spec_fn((Seq<char>, u16)) -> bool {
    |g: (Seq<char>, u16)| g.1 == port
}

/// A forward of exactly that socket.
pub open spec fn at_path(path: Seq<char>) -> spec_fn(Seq<char>) -> bool {
    |g: Seq<char>| g == path
}

impl GrantsView {
    /// None.
    pub open spec fn none() -> GrantsView {
        GrantsView { tcpip: Seq::empty(), streamlocal: Seq::empty() }
    }

    /// Of which sorts there are some.
    pub open spec fn granted(self) -> Granted {
        Granted { tcpip: self.tcpip.len() > 0, streamlocal: self.streamlocal.len() > 0 }
    }

    /// Without the forward of an address and a port, or, if there is none,
    /// without one of that port.
    pub open spec fn without_tcpip(self, address: Seq<char>, port: u16) -> GrantsView {
        match without_first(self.tcpip, exactly(address, port)) {
            Some(tcpip) => GrantsView { tcpip, ..self },
            None => match without_first(self.tcpip, on_port(port)) {
                Some(tcpip) => GrantsView { tcpip, ..self },
                None => self,
            },
        }
    }

    /// Without the forward of a socket.
    pub open spec fn without_streamlocal(self, path: Seq<char>) -> GrantsView {
        match without_first(self.streamlocal, at_path(path)) {
            Some(streamlocal) => GrantsView { streamlocal, ..self },
            None => self,
        }
    }
}

/// The forwards that are in force.
#[derive(Debug)]
pub struct Grants {
    tcpip: Vec<(String, u16)>,
    streamlocal: Vec<String>,
}

/// The view of an address and a port.
pub open spec fn grant_view(p: (String, u16)) -> (Seq<char>, u16) {
    (p.0@, p.1)
}

impl View for Grants {
    type V = GrantsView;

    closed spec fn view(&self) -> GrantsView {
        GrantsView {
            tcpip: self.tcpip@.map_values(|p: (String, u16)| grant_view(p)),
            streamlocal: views(self.streamlocal@),
        }
    }
}

impl Grants {
    /// None.
    pub fn new() -> (r: Grants)
        ensures
            r@ == GrantsView::none(),
    {
        let r = Grants { tcpip: Vec::new(), streamlocal: Vec::new() };
        assert(r@ =~= GrantsView::none());
        r
    }

    /// Of which sorts there are some.
    pub fn granted(&self) -> (r: Granted)
        ensures
            r == self@.granted(),
    {
        Granted { tcpip: !self.tcpip.is_empty(), streamlocal: !self.streamlocal.is_empty() }
    }

    /// Remember a forward of an address and a port.
    fn add_tcpip(&mut self, address: String, port: u16)
        ensures
            final(self)@ == (GrantsView {
                tcpip: old(self)@.tcpip.push((address@, port)),
                ..old(self)@
            }),
    {
        self.tcpip.push((address, port));
        assert(self@.tcpip =~= old(self)@.tcpip.push((address@, port)));
    }

    /// Remember a forward of a socket.
    fn add_streamlocal(&mut self, path: String)
        ensures
            final(self)@ == (GrantsView {
                streamlocal: old(self)@.streamlocal.push(path@),
                ..old(self)@
            }),
    {
        self.streamlocal.push(path);
        assert(self@.streamlocal =~= old(self)@.streamlocal.push(path@));
    }

    /// The first forward of a port; with an address, of both.
    fn find_tcpip(&self, address: Option<&str>, port: u16) -> (r: Option<usize>)
        ensures
            match (address, r) {
                (Some(a), Some(i)) => is_first(self@.tcpip, exactly(a@, port), i as int),
                (Some(a), None) => without_first(self@.tcpip, exactly(a@, port)) is None,
                (None, Some(i)) => is_first(self@.tcpip, on_port(port), i as int),
                (None, None) => without_first(self@.tcpip, on_port(port)) is None,
            },
    {
        let mut i: usize = 0;
        let n: usize = self.tcpip.len();
        let ghost p = match address {
            Some(a) => exactly(a@, port),
            None => on_port(port),
        };
        while i < n
            invariant
                i <= n,
                n == self.tcpip@.len(),
                self@.tcpip.len() == n,
                p == (match address {
                    Some(a) => exactly(a@, port),
                    None => on_port(port),
                }),
                forall|j: int| 0 <= j < i ==> !p(#[trigger] self@.tcpip[j]),
            decreases n - i,
        {
            assert(self@.tcpip[i as int] == grant_view(self.tcpip@[i as int]));
            let same = match address {
                Some(a) => str_eq(self.tcpip[i].0.as_str(), a),
                None => true,
            };
            if same && self.tcpip[i].1 == port {
                return Some(i);
            }
            i += 1;
        }
        None
    }

    /// Forget the forward at a place.
    fn drop_tcpip(&mut self, i: usize)
        requires
            i < old(self)@.tcpip.len(),
        ensures
            final(self)@ == (GrantsView {
                tcpip: old(self)@.tcpip.update(i as int, old(self)@.tcpip.last()).drop_last(),
                ..old(self)@
            }),
    {
        let _ = self.tcpip.swap_remove(i);
        assert(self@.tcpip =~= old(self)@.tcpip.update(
            i as int,
            old(self)@.tcpip.last(),
        ).drop_last());
    }

    /// Forget the forward of an address and a port, or one of that port.
    fn remove_tcpip(&mut self, address: &str, port: u16)
        ensures
            final(self)@ == old(self)@.without_tcpip(address@, port),
    {
        let ghost exact = exactly(address@, port);
        let ghost same_port = on_port(port);
        let ghost s = self@.tcpip;
        match self.find_tcpip(Some(address), port) {
            Some(i) => {
                proof {
                    lemma_without_first(s, exact, i as int);
                }
                self.drop_tcpip(i);
            },
            None => {
                if let Some(i) = self.find_tcpip(None, port) {
                    proof {
                        lemma_without_first(s, same_port, i as int);
                    }
                    self.drop_tcpip(i);
                }
            },
        }
    }

    /// Forget the forward of a socket.
    fn remove_streamlocal(&mut self, path: &str)
        ensures
            final(self)@ == old(self)@.without_streamlocal(path@),
    {
        let ghost s = self@.streamlocal;
        let ghost p = at_path(path@);
        let mut i: usize = 0;
        let n: usize = self.streamlocal.len();
        while i < n
            invariant
                i <= n,
                n == self.streamlocal@.len(),
                s == self@.streamlocal,
                s == views(self.streamlocal@),
                self@ == old(self)@,
                p == at_path(path@),
                forall|j: int| 0 <= j < i ==> !p(#[trigger] s[j]),
            decreases n - i,
        {
            if str_eq(self.streamlocal[i].as_str(), path) {
                proof {
                    assert(is_first(s, p, i as int));
                    lemma_without_first(s, p, i as int);
                }
                let _ = self.streamlocal.swap_remove(i);
                assert(self@.streamlocal =~= s.update(i as int, s.last()).drop_last());
                return;
            }
            assert(!p(s[i as int]));
            i += 1;
        }
        assert(without_first(s, p) is None) by {
            assert forall|i: int| !is_first(s, p, i) by {
                if 0 <= i < s.len() {
                    assert(!p(s[i]));
                }
            }
        }
    }
}

/// A global request about a forward.
#[derive(Debug)]
pub enum Forwarding {
    /// Listen on a port; 0 lets the server pick one.
    Tcpip {
        /// Address to listen on.
        bind_address: String,
        /// Port to listen on.
        bind_port: u16,
    },
    /// Stop listening on a port.
    CancelTcpip {
        /// Address that was listened on.
        bind_address: String,
        /// Port that was listened on.
        bind_port: u16,
    },
    /// Listen on a socket.
    Streamlocal {
        /// Its path.
        socket_path: String,
    },
    /// Stop listening on a socket.
    CancelStreamlocal {
        /// Its path.
        socket_path: String,
    },
}

/// A global request about a forward.
#[verifier::ext_equal]
pub ghost enum ForwardingView {
    Tcpip { bind_address: Seq<char>, bind_port: u16 },
    CancelTcpip { bind_address: Seq<char>, bind_port: u16 },
    Streamlocal { socket_path: Seq<char> },
    CancelStreamlocal { socket_path: Seq<char> },
}

impl View for Forwarding {
    type V = ForwardingView;

    open spec fn view(&self) -> ForwardingView {
        match self {
            Forwarding::Tcpip { bind_address, bind_port } => ForwardingView::Tcpip {
                bind_address: bind_address@,
                bind_port: *bind_port,
            },
            Forwarding::CancelTcpip { bind_address, bind_port } => ForwardingView::CancelTcpip {
                bind_address: bind_address@,
                bind_port: *bind_port,
            },
            Forwarding::Streamlocal { socket_path } => ForwardingView::Streamlocal {
                socket_path: socket_path@,
            },
            Forwarding::CancelStreamlocal { socket_path } => ForwardingView::CancelStreamlocal {
                socket_path: socket_path@,
            },
        }
    }
}

/// What a global request about a forward ends with.
#[derive(Debug, Clone, Copy)]
pub enum ForwardStep {
    /// Hand over the next inbound payload.
    Wait,
    /// The server listens on that port.
    Listening(u16),
    /// The server has done what was asked.
    Done,
    /// It has not.
    Failed(Error),
}

/// The port that the server has picked, from the tail of its reply.
pub open spec fn assigned_port(tail: Seq<u8>) -> Result<u16, Error> {
    match get_u32(tail) {
        None => Err(Error::Protocol("tcpip-forward: server omitted assigned-port tail")),
        Some((port, _)) => if port > u16::MAX {
            Err(Error::Protocol("tcpip-forward: server returned out-of-range port"))
        } else {
            Ok(port as u16)
        },
    }
}

impl ForwardingView {
    /// The request on the wire.
    pub open spec fn request(self) -> GlobalRequestView {
        match self {
            ForwardingView::Tcpip { bind_address, bind_port } => GlobalRequestView::TcpipForward {
                bind_address,
                bind_port: bind_port as u32,
            },
            ForwardingView::CancelTcpip { bind_address, bind_port } => {
                GlobalRequestView::CancelTcpipForward { bind_address, bind_port: bind_port as u32 }
            },
            ForwardingView::Streamlocal { socket_path } => path_request(
                STREAMLOCAL_FORWARD@,
                socket_path,
            ),
            ForwardingView::CancelStreamlocal { socket_path } => path_request(
                CANCEL_STREAMLOCAL_FORWARD@,
                socket_path,
            ),
        }
    }

    /// The server has agreed, with that tail on its reply: the forwards that
    /// are then in force, and what to report.
    pub open spec fn agreed(self, grants: GrantsView, tail: Seq<u8>) -> (GrantsView, ForwardStep) {
        match self {
            ForwardingView::Tcpip { bind_address, bind_port } => {
                let port = if bind_port == 0 {
                    assigned_port(tail)
                } else {
                    Ok(bind_port)
                };
                match port {
                    Err(e) => (grants, ForwardStep::Failed(e)),
                    Ok(p) => (
                        GrantsView { tcpip: grants.tcpip.push((bind_address, p)), ..grants },
                        ForwardStep::Listening(p),
                    ),
                }
            },
            ForwardingView::CancelTcpip { bind_address, bind_port } => (
                grants.without_tcpip(bind_address, bind_port),
                ForwardStep::Done,
            ),
            ForwardingView::Streamlocal { socket_path } => (
                GrantsView { streamlocal: grants.streamlocal.push(socket_path), ..grants },
                ForwardStep::Done,
            ),
            ForwardingView::CancelStreamlocal { socket_path } => (
                grants.without_streamlocal(socket_path),
                ForwardStep::Done,
            ),
        }
    }
}

/// A global request about a forward that has not been answered.
#[derive(Debug)]
pub struct ForwardRequest {
    what: Forwarding,
    rounds: usize,
}

/// A global request about a forward, and how many packets it has waited.
#[verifier::ext_equal]
pub ghost struct ForwardRequestView {
    pub what: ForwardingView,
    pub rounds: nat,
}

impl View for ForwardRequest {
    type V = ForwardRequestView;

    closed spec fn view(&self) -> ForwardRequestView {
        ForwardRequestView { what: self.what@, rounds: self.rounds as nat }
    }
}

/// What an inbound payload leads to.
#[verifier::ext_equal]
pub ghost struct Answered {
    pub conn: ConnectionView,
    pub grants: GrantsView,
    pub request: ForwardRequestView,
    pub step: ForwardStep,
}

impl ForwardRequestView {
    /// An inbound payload: only the answer to a global request counts.
    pub open spec fn on_payload(
        self,
        conn: ConnectionView,
        grants: GrantsView,
        payload: Seq<u8>,
    ) -> Answered {
        match conn.on_packet(payload) {
            Err(e) => Answered { conn, grants, request: self, step: ForwardStep::Failed(e) },
            Ok((after, event)) => {
                let waiting = Answered {
                    conn: after,
                    grants,
                    request: ForwardRequestView { rounds: self.rounds + 1, ..self },
                    step: ForwardStep::Wait,
                };
                match event {
                    EventView::GlobalSuccess { data } => {
                        let (g, step) = self.what.agreed(grants, data);
                        Answered { conn: after, grants: g, request: self, step }
                    },
                    EventView::GlobalFailure => Answered {
                        request: self,
                        step: ForwardStep::Failed(Error::Protocol("global request denied")),
                        ..waiting
                    },
                    _ => if self.rounds + 1 >= MAX_EXEC_ITER {
                        Answered {
                            request: self,
                            step: ForwardStep::Failed(
                                Error::Protocol("global request: reply loop did not converge"),
                            ),
                            ..waiting
                        }
                    } else {
                        waiting
                    },
                }
            },
        }
    }
}

impl ForwardRequest {
    /// Make a request; the payload is to be transmitted.
    pub fn new(what: Forwarding) -> (r: (ForwardRequest, Vec<u8>))
        ensures
            r.0@ == (ForwardRequestView { what: what@, rounds: 0 }),
            r.1@ == global_payload(what@.request(), true),
    {
        let request = match &what {
            Forwarding::Tcpip { bind_address, bind_port } => GlobalRequest::TcpipForward {
                bind_address: bind_address.clone(),
                bind_port: *bind_port as u32,
            },
            Forwarding::CancelTcpip { bind_address, bind_port } => {
                GlobalRequest::CancelTcpipForward {
                    bind_address: bind_address.clone(),
                    bind_port: *bind_port as u32,
                }
            },
            Forwarding::Streamlocal { socket_path } => streamlocal_request(
                STREAMLOCAL_FORWARD,
                socket_path.as_str(),
            ),
            Forwarding::CancelStreamlocal { socket_path } => streamlocal_request(
                CANCEL_STREAMLOCAL_FORWARD,
                socket_path.as_str(),
            ),
        };
        let payload = ConnectionState::new().send_global_request(request, true);
        (ForwardRequest { what, rounds: 0 }, payload)
    }

    /// The server has agreed.
    fn agreed(&self, grants: &mut Grants, tail: &[u8]) -> (r: ForwardStep)
        ensures
            (final(grants)@, r) == self@.what.agreed(old(grants)@, tail@),
    {
        match &self.what {
            Forwarding::Tcpip { bind_address, bind_port } => {
                let mut port: u16 = *bind_port;
                if port == 0 {
                    let mut reader = Reader::new(tail);
                    match reader.read_u32() {
                        Err(_) => {
                            return ForwardStep::Failed(
                                Error::Protocol(
                                    "tcpip-forward: server omitted assigned-port tail",
                                ),
                            );
                        },
                        Ok(p) => {
                            if p > 65_535 {
                                return ForwardStep::Failed(
                                    Error::Protocol(
                                        "tcpip-forward: server returned out-of-range port",
                                    ),
                                );
                            }
                            port = p as u16;
                        },
                    }
                }
                grants.add_tcpip(bind_address.clone(), port);
                ForwardStep::Listening(port)
            },
            Forwarding::CancelTcpip { bind_address, bind_port } => {
                grants.remove_tcpip(bind_address.as_str(), *bind_port);
                ForwardStep::Done
            },
            Forwarding::Streamlocal { socket_path } => {
                grants.add_streamlocal(socket_path.clone());
                ForwardStep::Done
            },
            Forwarding::CancelStreamlocal { socket_path } => {
                grants.remove_streamlocal(socket_path.as_str());
                ForwardStep::Done
            },
        }
    }

    /// Take an inbound payload.
    pub fn on_payload(
        &mut self,
        conn: &mut ConnectionState,
        grants: &mut Grants,
        payload: &[u8],
    ) -> (r: ForwardStep)
        requires
            old(self)@.rounds < MAX_EXEC_ITER,
            payload@.len() > 0 && payload@[0] == MSG_CHANNEL_OPEN ==> old(conn)@.has_room(),
        ensures
            final(self)@.rounds < MAX_EXEC_ITER,
            old(self)@.on_payload(old(conn)@, old(grants)@, payload@) == (Answered {
                conn: final(conn)@,
                grants: final(grants)@,
                request: final(self)@,
                step: r,
            }),
    {
        match conn.on_packet(payload) {
            Err(e) => ForwardStep::Failed(e),
            Ok(ChannelEvent::GlobalSuccess { data }) => self.agreed(grants, data.as_slice()),
            Ok(ChannelEvent::GlobalFailure) => ForwardStep::Failed(
                Error::Protocol("global request denied"),
            ),
            Ok(_) => {
                if self.rounds + 1 >= MAX_EXEC_ITER {
                    return ForwardStep::Failed(
                        Error::Protocol("global request: reply loop did not converge"),
                    );
                }
                self.rounds = self.rounds + 1;
                ForwardStep::Wait
            },
        }
    }
}

/// Cancelling a forward that was just granted leaves what was there before,
/// up to the order; in particular there is again a forward of that sort just
/// if there was one.
pub proof fn lemma_cancel_undoes_grant(grants: GrantsView, address: Seq<char>, port: u16)
    ensures
        ({
            let held = GrantsView { tcpip: grants.tcpip.push((address, port)), ..grants };
            let after = held.without_tcpip(address, port);
            &&& after.tcpip.to_multiset() == grants.tcpip.to_multiset()
            &&& after.granted() == grants.granted()
        }),
{
    let s = grants.tcpip;
    let pushed = s.push((address, port));
    let exact = exactly(address, port);
    let i = lemma_first_exists(pushed, exact, s.len() as int);
    lemma_without_first(pushed, exact, i);
    let after = pushed.update(i, pushed.last()).drop_last();
    assert(pushed[i] == (address, port));
    assert(after =~= s);
}

/// Where a property holds somewhere, it holds somewhere first.
proof fn lemma_first_exists<A>(s: Seq<A>, p: spec_fn(A) -> bool, k: int) -> (i: int)
    requires
        0 <= k < s.len(),
        p(s[k]),
    ensures
        is_first(s, p, i),
        i <= k,
    decreases k,
{
    if exists|j: int| 0 <= j < k && p(#[trigger] s[j]) {
        let j = choose|j: int| 0 <= j < k && p(#[trigger] s[j]);
        lemma_first_exists(s, p, j)
    } else {
        k
    }
}

/// After a request to cancel, there is never more in force than before, and
/// other sorts of forwards are untouched.
pub proof fn lemma_cancel_never_adds(grants: GrantsView, address: Seq<char>, port: u16)
    ensures
        grants.without_tcpip(address, port).tcpip.len() <= grants.tcpip.len(),
        grants.without_tcpip(address, port).streamlocal == grants.streamlocal,
        (exists|i: int| 0 <= i < grants.tcpip.len() && #[trigger] grants.tcpip[i].1 == port)
            ==> grants.without_tcpip(address, port).tcpip.len() == grants.tcpip.len() - 1,
{
    let s = grants.tcpip;
    let same_port = on_port(port);
    if exists|i: int| 0 <= i < s.len() && #[trigger] s[i].1 == port {
        let k = choose|i: int| 0 <= i < s.len() && #[trigger] s[i].1 == port;
        assert(same_port(s[k]));
        let i = lemma_first_exists(s, same_port, k);
        lemma_without_first(s, same_port, i);
    }
}

} // verus!
