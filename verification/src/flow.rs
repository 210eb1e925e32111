use vstd::prelude::*;

use crate::messages::{ClientRelayMessage, ServerRelayMessage};
use crate::screens::{terminal_too_small, GameOverMpChoice};
use crate::types::{PeerRole, PlayerInfo, MP_MIN_TERM_HEIGHT, MP_MIN_TERM_WIDTH};

verus! {

/// Where a player is in the multiplayer flow: connecting to the relay,
/// waiting for the relay to register the name, ready to search, searching,
/// playing a round, looking at the round's result, or done.
#[derive(Clone, Copy, PartialEq, Eq, Structural, Debug)]
pub enum FlowStage {
    Connecting,
    Registering,
    Ready,
    Searching,
    Playing,
    Results,
    Done,
}

/// A player's way through the multiplayer flow.
pub struct MultiplayerFlow {
    pub player_name: String,
    pub stage: FlowStage,
}

/// How the multiplayer flow ends: back at the main menu, or quitting.
#[derive(Clone, Copy, PartialEq, Eq, Structural, Debug)]
pub enum MultiplayerOutcome {
    QuitToMenu,
    Quit,
}

/// What happened, as the client reports it to the flow.
#[derive(Debug)]
pub enum FlowEvent {
    /// The connection to the relay is open.
    Connected,
    /// A message arrived from the relay.
    Relay(ServerRelayMessage),
    /// The terminal measures `width` by `height` cells.
    Terminal { width: u16, height: u16 },
    /// The player pressed Esc while searching.
    SearchCancelled,
    /// The round ended; `disconnected` when a side left it or lost its connection.
    RoundOver { disconnected: bool },
    /// The player's choice on the menu after a round.
    Choice(GameOverMpChoice),
}

/// What the client does next.
#[derive(Debug)]
pub enum FlowAction {
    /// Send this message to the relay.
    Send(ClientRelayMessage),
    /// Measure the terminal and report `Terminal`.
    MeasureTerminal,
    /// Play a round in `role` on a `board_width` by `board_height` board.
    Play {
        role: PeerRole,
        board_width: u16,
        board_height: u16,
        opponent: PlayerInfo,
        you: PlayerInfo,
    },
    /// Show the round's result with its menu and report the `Choice`.
    ShowResults,
    /// Open a new connection to the relay and report `Connected`.
    Reconnect,
    /// Send `send`, if any, and leave the multiplayer flow with `outcome`.
    Leave { send: Option<ClientRelayMessage>, outcome: MultiplayerOutcome },
    /// Wait for the next event.
    Wait,
}

impl MultiplayerFlow {
    /// The flow of a player named `player_name`, connecting to the relay.
    pub fn new(player_name: String) -> (f: MultiplayerFlow)
        ensures
            f.player_name == player_name,
            f.stage == FlowStage::Connecting,
    {
        MultiplayerFlow { player_name, stage: FlowStage::Connecting }
    }
}

/// One step of the multiplayer flow: once connected the player registers its
/// name; once registered, the terminal is measured: one smaller than 62 by 22
/// cells goes back to the menu, otherwise the player searches; Esc while
/// searching cancels the search and goes back to the menu; a `MatchFound`
/// starts a round in the role it names; a round that ended by a
/// disconnection goes back to the menu, any other shows the results; there,
/// searching again reconnects and registers anew, and the other choices go
/// back to the menu or quit. Anything else changes nothing.
pub fn multiplayer_step(flow: &mut MultiplayerFlow, event: FlowEvent) -> (a: FlowAction)
    ensures
        final(flow).player_name == old(flow).player_name,
        match (old(flow).stage, event) {
            (FlowStage::Connecting, FlowEvent::Connected) => {
                &&& final(flow).stage == FlowStage::Registering
                &&& a matches FlowAction::Send(ClientRelayMessage::Register { name })
                &&& name@ == old(flow).player_name@
            },
            (FlowStage::Registering, FlowEvent::Relay(ServerRelayMessage::Registered { .. })) => {
                &&& final(flow).stage == FlowStage::Ready
                &&& a is MeasureTerminal
            },
            (FlowStage::Ready, FlowEvent::Terminal { width, height }) => {
                if width < MP_MIN_TERM_WIDTH || height < MP_MIN_TERM_HEIGHT {
                    &&& final(flow).stage == FlowStage::Done
                    &&& a == FlowAction::Leave { send: None, outcome: MultiplayerOutcome::QuitToMenu }
                } else {
                    &&& final(flow).stage == FlowStage::Searching
                    &&& a == FlowAction::Send(ClientRelayMessage::SearchMatch)
                }
            },
            (FlowStage::Searching, FlowEvent::SearchCancelled) => {
                &&& final(flow).stage == FlowStage::Done
                &&& a == FlowAction::Leave {
                    send: Some(ClientRelayMessage::CancelSearch),
                    outcome: MultiplayerOutcome::QuitToMenu,
                }
            },
            (
                FlowStage::Searching,
                FlowEvent::Relay(
                    ServerRelayMessage::MatchFound {
                        role,
                        board_width,
                        board_height,
                        opponent,
                        you,
                        ..
                    },
                ),
            ) => {
                &&& final(flow).stage == FlowStage::Playing
                &&& a == FlowAction::Play { role, board_width, board_height, opponent, you }
            },
            (FlowStage::Playing, FlowEvent::RoundOver { disconnected }) => {
                if disconnected {
                    &&& final(flow).stage == FlowStage::Done
                    &&& a == FlowAction::Leave { send: None, outcome: MultiplayerOutcome::QuitToMenu }
                } else {
                    &&& final(flow).stage == FlowStage::Results
                    &&& a is ShowResults
                }
            },
            (FlowStage::Results, FlowEvent::Choice(GameOverMpChoice::SearchAgain)) => {
                &&& final(flow).stage == FlowStage::Connecting
                &&& a is Reconnect
            },
            (FlowStage::Results, FlowEvent::Choice(GameOverMpChoice::QuitToMenu)) => {
                &&& final(flow).stage == FlowStage::Done
                &&& a == FlowAction::Leave { send: None, outcome: MultiplayerOutcome::QuitToMenu }
            },
            (FlowStage::Results, FlowEvent::Choice(GameOverMpChoice::Quit)) => {
                &&& final(flow).stage == FlowStage::Done
                &&& a == FlowAction::Leave { send: None, outcome: MultiplayerOutcome::Quit }
            },
            _ => {
                &&& final(flow).stage == old(flow).stage
                &&& a is Wait
            },
        },
{
    match (flow.stage, event) {
        (FlowStage::Connecting, FlowEvent::Connected) => {
            flow.stage = FlowStage::Registering;
            FlowAction::Send(ClientRelayMessage::Register { name: flow.player_name.clone() })
        },
        (FlowStage::Registering, FlowEvent::Relay(ServerRelayMessage::Registered { .. })) => {
            flow.stage = FlowStage::Ready;
            FlowAction::MeasureTerminal
        },
        (FlowStage::Ready, FlowEvent::Terminal { width, height }) => {
            if terminal_too_small(width, height) {
                flow.stage = FlowStage::Done;
                FlowAction::Leave { send: None, outcome: MultiplayerOutcome::QuitToMenu }
            } else {
                flow.stage = FlowStage::Searching;
                FlowAction::Send(ClientRelayMessage::SearchMatch)
            }
        },
        (FlowStage::Searching, FlowEvent::SearchCancelled) => {
            flow.stage = FlowStage::Done;
            FlowAction::Leave {
                send: Some(ClientRelayMessage::CancelSearch),
                outcome: MultiplayerOutcome::QuitToMenu,
            }
        },
        (
            FlowStage::Searching,
            FlowEvent::Relay(
                ServerRelayMessage::MatchFound { role, board_width, board_height, opponent, you, .. },
            ),
        ) => {
            flow.stage = FlowStage::Playing;
            FlowAction::Play { role, board_width, board_height, opponent, you }
        },
        (FlowStage::Playing, FlowEvent::RoundOver { disconnected }) => {
            if disconnected {
                flow.stage = FlowStage::Done;
                FlowAction::Leave { send: None, outcome: MultiplayerOutcome::QuitToMenu }
            } else {
                flow.stage = FlowStage::Results;
                FlowAction::ShowResults
            }
        },
        (FlowStage::Results, FlowEvent::Choice(GameOverMpChoice::SearchAgain)) => {
            flow.stage = FlowStage::Connecting;
            FlowAction::Reconnect
        },
        (FlowStage::Results, FlowEvent::Choice(GameOverMpChoice::QuitToMenu)) => {
            flow.stage = FlowStage::Done;
            FlowAction::Leave { send: None, outcome: MultiplayerOutcome::QuitToMenu }
        },
        (FlowStage::Results, FlowEvent::Choice(GameOverMpChoice::Quit)) => {
            flow.stage = FlowStage::Done;
            FlowAction::Leave { send: None, outcome: MultiplayerOutcome::Quit }
        },
        _ => FlowAction::Wait,
    }
}

} // verus!
