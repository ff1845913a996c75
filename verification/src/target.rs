//! The upstream target of one proxied connection: its address, its
//! protocol family, and the public key a V2 upstream authenticates with.

use crate::transport::Protocol;
use crate::strings::str_eq;
use vstd::prelude::*;

verus! {

/// The upstream a connection is bridged to, resolved once per
/// connection and immutable for its lifetime.
pub struct Target {
    pub address: String,
    pub pubkey: Option<String>,
    pub protocol: String,
}

/// The mathematical content of a [`Target`].
pub ghost struct TargetView {
    pub address: Seq<char>,
    pub pubkey: Option<Seq<char>>,
    pub protocol: Seq<char>,
}

impl View for Target {
    type V = TargetView;

    open spec fn view(&self) -> TargetView {
        TargetView {
            address: self.address@,
            pubkey: match self.pubkey {
                Some(ref s) => Some(s@),
                None => None,
            },
            protocol: self.protocol@,
        }
    }
}

/// The protocol family a target's protocol string names: `sv1` is the
/// line-based family, anything else the binary one.
pub open spec fn protocol_family(s: Seq<char>) -> Protocol {
    if s == "sv1"@ {
        Protocol::V1
    } else {
        Protocol::V2
    }
}

impl Target {
    /// The protocol family this target speaks.
    pub fn family(&self) -> (r: Protocol)
        ensures
            r == protocol_family(self@.protocol),
    {
        if str_eq(self.protocol.as_str(), "sv1") {
            Protocol::V1
        } else {
            Protocol::V2
        }
    }
}

/// The protocol assumed of a target that does not name one.
pub fn default_protocol() -> (r: String)
    ensures
        r@ == "sv2"@,
{
    String::from_str("sv2")
}

/// What kind of endpoint a configured mining target is.
#[derive(Clone, Copy, Debug, PartialEq, Eq, Structural)]
pub enum TargetType {
    Pool,
    Daemon,
}

/// One configured mining target of the pool server.
pub struct MiningTarget {
    pub name: String,
    pub target_type: TargetType,
    pub address: String,
    pub coin: String,
    pub algorithm: String,
    pub daemon_rpc_url: Option<String>,
}

} // verus!
