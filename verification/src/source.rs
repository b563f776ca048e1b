//! Source-side decisions: when a source yields to a newer session, and how
//! it stamps the time packets of the clock exchange.

use vstd::prelude::*;

use crate::packet::{ReceiverId, SessionId, TimePacketData, TimePhase};
use crate::time::TimestampMicros;

verus! {

/// Source configuration: the multicast group and interface to send on, the
/// input device to capture from, and the lead time written into each
/// packet's presentation instant.
pub struct StreamOpt {
    pub multicast: Option<String>,
    pub interface: Option<String>,
    pub device: Option<String>,
    pub delay_ms: u64,
}

/// A source observing an audio packet of a strictly higher session yields
/// and exits; highest session id wins.
pub fn source_should_yield(own: SessionId, observed: SessionId) -> (r: bool)
    ensures
        r == (observed.0 > own.0),
{
    observed.0 > own.0
}

/// The periodic broadcast leg: only the session and the source send instant
/// are filled, addressed to every receiver.
pub fn stamp_broadcast(sid: SessionId, now: TimestampMicros) -> (r: TimePacketData)
    ensures
        r == (TimePacketData {
            sid,
            rid: ReceiverId(0),
            stream_1: now,
            receive_2: TimestampMicros(0),
            stream_3: TimestampMicros(0),
            receive_4: TimestampMicros(0),
        }),
        now.0 != 0 ==> r.spec_phase() == Some(TimePhase::Broadcast),
{
    TimePacketData {
        sid,
        rid: ReceiverId::broadcast(),
        stream_1: now,
        receive_2: TimestampMicros(0),
        stream_3: TimestampMicros(0),
        receive_4: TimestampMicros(0),
    }
}

/// The source's reply leg: stamp the reply send instant on a receiver's
/// reply and return it to that receiver.
pub fn stamp_stream_reply(d: &TimePacketData, now: TimestampMicros) -> (r: TimePacketData)
    ensures
        r == (TimePacketData { stream_3: now, ..*d }),
        now.0 != 0 ==> r.spec_phase() == Some(TimePhase::StreamReply),
{
    TimePacketData { stream_3: now, ..*d }
}

} // verus!
