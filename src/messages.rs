//! Plain messages exchanged between the networker and its neighbours.

use vstd::prelude::*;

verus! {

/// Indicate the direction of the move token message.
#[derive(Clone, Copy, Debug)]
pub enum MoveTokenDirection {
    Incoming,
    Outgoing,
}

pub enum NeighborStatus {
    Enable,
    Disable,
}

pub enum NeighborTokenChannelEventInner {
    Open,
    Close,
    /// Contains new local max debt
    LocalMaxDebtChange(u64),
    /// Contains new remote max debt
    RemoteMaxDebtChange(u64),
    /// Contains new balance
    BalanceChange(i64),
    /// Contains balance required for reset
    InconsistencyError(i64),
}

pub struct NeighborTokenChannelEvent {
    channel_index: u32,
    event: NeighborTokenChannelEventInner,
}

/// The result of attempting to send a message to a remote Networker.
pub enum SendMessageResult {
    Success(Vec<u8>),
    Failure,
}

/// Destination port for the packet.
/// The destination port is used by the destination Networker to know where to forward the received
/// message.
pub enum DestinationPort {
    Funder,
    IndexerClient,
    AppManager(u32),
}

/// Networker -> Component
pub struct ResponseSendMessage {
    result: SendMessageResult,
}

/// Component -> Networker
pub enum MessageReceivedResponse {
    Accept { response_data: Vec<u8> },
    Discard,
}

} // verus!
