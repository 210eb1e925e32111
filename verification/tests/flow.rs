use snek::flow::{multiplayer_step, FlowAction, FlowEvent, FlowStage, MultiplayerFlow, MultiplayerOutcome};
use snek::messages::{ClientRelayMessage, ServerRelayMessage};
use snek::screens::GameOverMpChoice;
use snek::types::{PeerRole, PlayerInfo, SnakeColor};

fn player(id: u128, name: &str) -> PlayerInfo {
    PlayerInfo { id, name: name.to_string(), color: SnakeColor::Green }
}

fn at(stage: FlowStage) -> MultiplayerFlow {
    let mut f = MultiplayerFlow::new("alice".to_string());
    f.stage = stage;
    f
}

#[test]
fn a_whole_match_and_a_second_search() {
    let mut f = MultiplayerFlow::new("alice".to_string());
    assert_eq!(f.stage, FlowStage::Connecting);
    match multiplayer_step(&mut f, FlowEvent::Connected) {
        FlowAction::Send(ClientRelayMessage::Register { name }) => assert_eq!(name, "alice"),
        other => panic!("unexpected {:?}", other),
    }
    assert_eq!(f.stage, FlowStage::Registering);
    assert!(matches!(
        multiplayer_step(&mut f, FlowEvent::Relay(ServerRelayMessage::SearchingMatch)),
        FlowAction::Wait
    ));
    assert_eq!(f.stage, FlowStage::Registering);
    assert!(matches!(
        multiplayer_step(&mut f, FlowEvent::Relay(ServerRelayMessage::Registered { player: player(1, "alice") })),
        FlowAction::MeasureTerminal
    ));
    assert!(matches!(
        multiplayer_step(&mut f, FlowEvent::Terminal { width: 62, height: 22 }),
        FlowAction::Send(ClientRelayMessage::SearchMatch)
    ));
    assert_eq!(f.stage, FlowStage::Searching);
    assert!(matches!(
        multiplayer_step(&mut f, FlowEvent::Relay(ServerRelayMessage::SearchingMatch)),
        FlowAction::Wait
    ));
    let found = ServerRelayMessage::MatchFound {
        game_id: 7,
        role: PeerRole::Guest,
        board_width: 60,
        board_height: 20,
        opponent: player(2, "bob"),
        you: player(1, "alice"),
    };
    match multiplayer_step(&mut f, FlowEvent::Relay(found)) {
        FlowAction::Play { role, board_width, board_height, opponent, you } => {
            assert_eq!((role, board_width, board_height), (PeerRole::Guest, 60, 20));
            assert_eq!((opponent.name.as_str(), you.name.as_str()), ("bob", "alice"));
        }
        other => panic!("unexpected {:?}", other),
    }
    assert_eq!(f.stage, FlowStage::Playing);
    assert!(matches!(multiplayer_step(&mut f, FlowEvent::RoundOver { disconnected: false }), FlowAction::ShowResults));
    assert_eq!(f.stage, FlowStage::Results);
    assert!(matches!(
        multiplayer_step(&mut f, FlowEvent::Choice(GameOverMpChoice::SearchAgain)),
        FlowAction::Reconnect
    ));
    assert_eq!(f.stage, FlowStage::Connecting);
    assert!(matches!(
        multiplayer_step(&mut f, FlowEvent::Connected),
        FlowAction::Send(ClientRelayMessage::Register { .. })
    ));
}

#[test]
fn a_small_terminal_goes_back_to_the_menu() {
    for (w, h) in [(61, 22), (62, 21), (10, 10)] {
        let mut f = at(FlowStage::Ready);
        match multiplayer_step(&mut f, FlowEvent::Terminal { width: w, height: h }) {
            FlowAction::Leave { send, outcome } => {
                assert!(send.is_none());
                assert_eq!(outcome, MultiplayerOutcome::QuitToMenu);
            }
            other => panic!("unexpected {:?}", other),
        }
        assert_eq!(f.stage, FlowStage::Done);
    }
}

#[test]
fn cancelling_a_search_tells_the_relay() {
    let mut f = at(FlowStage::Searching);
    match multiplayer_step(&mut f, FlowEvent::SearchCancelled) {
        FlowAction::Leave { send, outcome } => {
            assert_eq!(send, Some(ClientRelayMessage::CancelSearch));
            assert_eq!(outcome, MultiplayerOutcome::QuitToMenu);
        }
        other => panic!("unexpected {:?}", other),
    }
}

#[test]
fn a_disconnection_ends_the_flow() {
    let mut f = at(FlowStage::Playing);
    match multiplayer_step(&mut f, FlowEvent::RoundOver { disconnected: true }) {
        FlowAction::Leave { send: None, outcome: MultiplayerOutcome::QuitToMenu } => {}
        other => panic!("unexpected {:?}", other),
    }
    assert_eq!(f.stage, FlowStage::Done);
}

#[test]
fn the_results_menu_choices() {
    let mut f = at(FlowStage::Results);
    assert!(matches!(
        multiplayer_step(&mut f, FlowEvent::Choice(GameOverMpChoice::Quit)),
        FlowAction::Leave { send: None, outcome: MultiplayerOutcome::Quit }
    ));
    let mut f = at(FlowStage::Results);
    assert!(matches!(
        multiplayer_step(&mut f, FlowEvent::Choice(GameOverMpChoice::QuitToMenu)),
        FlowAction::Leave { send: None, outcome: MultiplayerOutcome::QuitToMenu }
    ));
}

#[test]
fn events_out_of_place_change_nothing() {
    let mut f = at(FlowStage::Ready);
    assert!(matches!(multiplayer_step(&mut f, FlowEvent::SearchCancelled), FlowAction::Wait));
    assert_eq!(f.stage, FlowStage::Ready);
    let mut f = at(FlowStage::Playing);
    assert!(matches!(multiplayer_step(&mut f, FlowEvent::Connected), FlowAction::Wait));
    assert_eq!(f.stage, FlowStage::Playing);
    let mut f = at(FlowStage::Done);
    assert!(matches!(multiplayer_step(&mut f, FlowEvent::Choice(GameOverMpChoice::Quit)), FlowAction::Wait));
    assert_eq!(f.player_name, "alice");
}
