//! A minimal two-party, capability-passing RPC runtime.
//!
//! The crate is organised around one `Connection` per peer: it owns a
//! message codec (`codec`), a capability table (`captable`) and a
//! promise/answer tracker (`answers`), and drives a pure
//! message-dispatch state machine (`conn`).  All I/O stays with the
//! caller: the connection consumes decoded messages and emits actions
//! (frames to send, local objects to invoke).
//!
//! The `Echo` service at the root is the demonstration bootstrap
//! object: one method that answers any message with the same bytes.

use vstd::prelude::*;

pub mod answers;
pub mod captable;
pub mod codec;
pub mod conn;

verus! {

/// The method id `Echo` answers.
pub const ECHO_METHOD_ID: u32 = 0;

/// The demonstration echo service.
pub struct Echo;

impl Echo {
    /// Answer a message with the same bytes.
    pub fn echo(&self, message: &Vec<u8>) -> (r: Vec<u8>)
        ensures
            r@ == message@,
    {
        codec::clone_plain(message)
    }

    /// Serve one invocation: `echo` returns the request data
    /// unchanged; any other method id fails.
    pub fn serve(&self, method_id: u32, params: &codec::Payload) -> (r: codec::Outcome)
        ensures
            if method_id == ECHO_METHOD_ID {
                r.deep_view() == (codec::OutcomeV::Results {
                    payload: codec::PayloadV {
                        data: params.deep_view().data,
                        caps: Seq::<codec::CapDescV>::empty(),
                    },
                })
            } else {
                r.deep_view() == (codec::OutcomeV::Failure { reason: Seq::<u8>::empty() })
            },
    {
        if method_id == ECHO_METHOD_ID {
            let out = codec::Outcome::Results {
                payload: codec::Payload { data: self.echo(&params.data), caps: Vec::new() },
            };
            proof {
                assert(out.deep_view()->Results_payload.caps =~= Seq::<codec::CapDescV>::empty());
            }
            out
        } else {
            codec::Outcome::Failure { reason: Vec::new() }
        }
    }
}

} // verus!
