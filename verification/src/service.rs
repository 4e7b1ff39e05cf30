use vstd::prelude::*;

use crate::codec::{encode, magic_packet_spec};
use crate::errors::WolError;
use crate::registry::{resolve_spec, Config};

verus! {

/// The magic packet for a wake request: resolves `name_or_mac` against the
/// registry (a literal MAC wins over a registered name) and encodes the
/// 102-byte payload for the resolved address. The surrounding program sends
/// the payload as one UDP broadcast datagram to 255.255.255.255:9; the first
/// failure is surfaced unchanged.
pub fn wake_packet(config: &Config, name_or_mac: &str) -> (r: Result<Vec<u8>, WolError>)
    requires
        config.wf(),
    ensures
        match r {
            Ok(payload) => resolve_spec(config, name_or_mac@) matches Ok(b) && payload@
                == magic_packet_spec(b),
            Err(e) => resolve_spec(config, name_or_mac@) == Err::<Seq<u8>, WolError>(e),
        },
{
    match config.resolve(name_or_mac) {
        Ok(mac) => Ok(encode(&mac)),
        Err(e) => Err(e),
    }
}

} // verus!
