//! The tunnel device side: which packets read from it are sent on.
use crate::routing::action::RoutingAction;
use crate::routing::context::{spec_context_from_sliced, spec_slice_ip, PacketContext};
use crate::routing::engine::{lemma_decision_action, spec_engine_action, HotReloadableEngine};
use vstd::prelude::*;

verus! {

/// The context read from a raw packet, if it can be read.
pub open spec fn spec_packet_context(data: Seq<u8>) -> Option<PacketContext> {
    match spec_slice_ip(data) {
        None => None,
        Some(s) => spec_context_from_sliced(s),
    }
}

/// Whether a packet read from the tunnel device is sent on. Without an
/// engine, or when the packet's context cannot be read, it is; otherwise
/// exactly when the action of the engine in place for it is not `Drop`.
pub fn forward_from_tun(engine: Option<&HotReloadableEngine>, data: &[u8]) -> (r: bool)
    ensures
        r == match engine {
            None => true,
            Some(shared) => match spec_packet_context(data@) {
                None => true,
                Some(ctx) => spec_engine_action(shared@, ctx) != RoutingAction::Drop,
            },
        },
{
    if let Some(shared) = engine {
        if let Some(ctx) = PacketContext::from_ip_packet(data) {
            let decision = shared.match_packet(&ctx);
            proof {
                lemma_decision_action(shared@, ctx, decision);
            }
            if decision.is_drop() {
                return false;
            }
        }
    }
    true
}

} // verus!
