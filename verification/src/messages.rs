use vstd::prelude::*;

use crate::types::{
    GameOverReason, KeyDirection, MatchResult, PeerRole, PlayerInfo, SnakeState, SpacePoint,
};

verus! {

/// What a client tells the relay.
#[derive(Clone, PartialEq, Debug)]
pub enum ClientRelayMessage {
    Register { name: String },
    SearchMatch,
    CancelSearch,
    Disconnect,
}

/// What the relay tells a client. `game_id` is the 128-bit value of the
/// match's UUID; `PeerEnvelope` carries a peer's message as it was sent.
#[derive(Clone, PartialEq, Debug)]
pub enum ServerRelayMessage {
    Registered { player: PlayerInfo },
    SearchingMatch,
    SearchCancelled,
    MatchFound {
        game_id: u128,
        role: PeerRole,
        board_width: u16,
        board_height: u16,
        opponent: PlayerInfo,
        you: PlayerInfo,
    },
    OpponentDisconnected,
    Error { message: String },
    PeerEnvelope { payload: String },
}

/// What the host and the guest tell each other through the relay.
#[derive(Clone, PartialEq, Debug)]
pub enum PeerMessage {
    ChangeDirection { direction: KeyDirection },
    Countdown { remaining: u8 },
    GameTick {
        snakes: Vec<SnakeState>,
        food: SpacePoint,
        bombs: Vec<SpacePoint>,
        tick: u64,
        time_remaining: u16,
    },
    GameOver { result: MatchResult, reason: GameOverReason, final_snakes: Vec<SnakeState> },
    PlayAgain,
    LeaveGame,
}

/// A message from the relay during a round, with a peer's envelope opened.
#[derive(Clone, PartialEq, Debug)]
pub enum RoundMessage {
    /// A message from the other player.
    Peer(PeerMessage),
    /// The other player's connection closed.
    OpponentDisconnected,
    /// Anything else: another relay message, or an envelope without a peer message.
    Other,
}

} // verus!
