//! The loops around the transport: how long a handshake or an authentication
//! may take, and what a read that timed out means.

use super::session::{Next, Step};
use crate::error::{Error, IoErrorKind};
use crate::text::views;
use vstd::prelude::*;

verus! {

/// How many reads the handshake may take: 32 steps of the key exchange, each
/// with room for a banner of 32 lines and a few more packets.
pub const MAX_HANDSHAKE_READS: usize = 1_152;

/// How many packets an authentication may take.
pub const MAX_AUTH_STEPS: usize = 64;

/// Whether the handshake may read once more, after `reads` of them.
pub fn handshake_read(reads: usize) -> (r: Result<usize, Error>)
    ensures
        r == if reads < MAX_HANDSHAKE_READS {
            Ok::<usize, Error>((reads + 1) as usize)
        } else {
            Err(Error::Protocol("kex: too many steps"))
        },
{
    if reads < MAX_HANDSHAKE_READS {
        Ok(reads + 1)
    } else {
        Err(Error::Protocol("kex: too many steps"))
    }
}

/// A read whose timeout has elapsed is no packet; every other failure stays
/// one.
pub fn packet_or_timeout(read: Result<Vec<u8>, Error>) -> (r: Result<Option<Vec<u8>>, Error>)
    ensures
        match read {
            Ok(p) => r == Ok::<Option<Vec<u8>>, Error>(Some(p)),
            Err(e) => if e == Error::Io(IoErrorKind::WouldBlock) || e == Error::Io(
                IoErrorKind::TimedOut,
            ) {
                r == Ok::<Option<Vec<u8>>, Error>(None)
            } else {
                r == Err::<Option<Vec<u8>>, Error>(e)
            },
        },
{
    match read {
        Ok(p) => Ok(Some(p)),
        Err(Error::Io(IoErrorKind::WouldBlock)) => Ok(None),
        Err(Error::Io(IoErrorKind::TimedOut)) => Ok(None),
        Err(e) => Err(e),
    }
}

/// What the authentication engine makes of a packet.
#[derive(Debug)]
pub enum AuthStep {
    /// Send this payload.
    Send(Vec<u8>),
    /// The server has let us in.
    Success,
    /// Every credential has been refused.
    Failed,
    /// The server has something to say to the user.
    Banner {
        /// What it says.
        message: String,
        /// The language tag of the message.
        language: String,
    },
    /// Nothing.
    Idle,
}

/// An authentication in progress.
#[derive(Debug)]
pub struct AuthRun {
    steps: usize,
}

impl View for AuthRun {
    type V = nat;

    closed spec fn view(&self) -> nat {
        self.steps as nat
    }
}

/// What a step of the engine comes to, after `steps` steps before it: the
/// payload to send, and what follows.
pub open spec fn auth_outcome(steps: nat, step: AuthStep) -> (Seq<Seq<u8>>, Next) {
    let go_on = if steps + 1 >= MAX_AUTH_STEPS {
        Next::Failed(Error::Protocol("auth: too many steps without termination"))
    } else {
        Next::Wait
    };
    match step {
        AuthStep::Send(payload) => (seq![payload@], go_on),
        AuthStep::Success => (Seq::empty(), Next::Done),
        AuthStep::Failed => (Seq::empty(), Next::Failed(Error::AuthFailed)),
        AuthStep::Banner { .. } => (Seq::empty(), go_on),
        AuthStep::Idle => (Seq::empty(), go_on),
    }
}

impl AuthRun {
    /// An authentication whose first payload has just been sent.
    pub fn new() -> (r: AuthRun)
        ensures
            r@ == 0,
    {
        AuthRun { steps: 0 }
    }

    /// The engine has taken another packet.
    pub fn on_step(&mut self, step: AuthStep) -> (r: Step)
        requires
            old(self)@ < MAX_AUTH_STEPS,
        ensures
            (views(r.send@), r.next) == auth_outcome(old(self)@, step),
            final(self)@ == old(self)@ + 1,
            r.next is Wait ==> final(self)@ < MAX_AUTH_STEPS,
    {
        self.steps = self.steps + 1;
        let go_on = if self.steps >= MAX_AUTH_STEPS {
            Next::Failed(Error::Protocol("auth: too many steps without termination"))
        } else {
            Next::Wait
        };
        let mut send: Vec<Vec<u8>> = Vec::new();
        assert(views(send@) =~= Seq::empty());
        match step {
            AuthStep::Send(payload) => {
                send.push(payload);
                assert(views(send@) =~= seq![payload@]);
                Step { send, next: go_on }
            },
            AuthStep::Success => Step { send, next: Next::Done },
            AuthStep::Failed => Step { send, next: Next::Failed(Error::AuthFailed) },
            AuthStep::Banner { .. } => Step { send, next: go_on },
            AuthStep::Idle => Step { send, next: go_on },
        }
    }
}

} // verus!
