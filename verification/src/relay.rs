use vstd::prelude::*;
use vstd::string::StrSliceExecFns;

use crate::chance::{new_random_uuid, random_below};
use crate::messages::{ClientRelayMessage, ServerRelayMessage};
use crate::text::{all_alphanumeric, is_all_alphanumeric, trim, trimmed};
use crate::types::{
    PeerRole, PlayerInfo, SnakeColor, MAX_NAME_LENGTH, MAX_RELAY_CONNECTIONS, MP_BOARD_HEIGHT,
    MP_BOARD_WIDTH,
};

verus! {

/// The six snake colours, numbered: blue, magenta, cyan, yellow, green, red
/// (and round again).
pub open spec fn color_at(i: int) -> SnakeColor {
    let k = i % 6;
    if k == 0 {
        SnakeColor::Blue
    } else if k == 1 {
        SnakeColor::Magenta
    } else if k == 2 {
        SnakeColor::Cyan
    } else if k == 3 {
        SnakeColor::Yellow
    } else if k == 4 {
        SnakeColor::Green
    } else {
        SnakeColor::Red
    }
}

/// A name a player may register under: 1 to 16 characters, all alphanumeric.
pub open spec fn valid_name(name: Seq<char>) -> bool {
    &&& name.len() > 0
    &&& name.len() <= MAX_NAME_LENGTH
    &&& all_alphanumeric(name)
}

/// The roles a match's id gives: the player whose search completed the
/// match hosts when the first byte of the match's UUID is even.
pub open spec fn roles_of(game_id: u128) -> (PeerRole, PeerRole) {
    if (game_id >> 120u128) & 1u128 == 0 {
        (PeerRole::Host, PeerRole::Guest)
    } else {
        (PeerRole::Guest, PeerRole::Host)
    }
}

/// The colour numbered `k`; see [`color_at`].
pub fn color_of_draw(k: usize) -> (c: SnakeColor)
    requires
        k < 6,
    ensures
        c == color_at(k as int),
{
    if k == 0 {
        SnakeColor::Blue
    } else if k == 1 {
        SnakeColor::Magenta
    } else if k == 2 {
        SnakeColor::Cyan
    } else if k == 3 {
        SnakeColor::Yellow
    } else if k == 4 {
        SnakeColor::Green
    } else {
        SnakeColor::Red
    }
}

/// A snake colour for a newly registered player: the colour of a number
/// drawn at random below six (see [`color_of_draw`]).
pub fn next_color() -> (c: SnakeColor)
    ensures
        exists|i: int| 0 <= i < 6 && c == color_at(i),
{
    let k = random_below(6);
    color_of_draw(k)
}

/// The name a player asked for without surrounding whitespace, or `None`
/// when that is empty, longer than 16 characters or holds a character that is
/// not alphanumeric.
pub fn validate_name(name: &str) -> (r: Option<String>)
    ensures
        r is Some <==> valid_name(trimmed(name@)),
        r matches Some(t) ==> t@ == trimmed(name@),
{
    let t = trim(name);
    let s = t.as_str();
    if s.is_empty() || s.unicode_len() > MAX_NAME_LENGTH || !is_all_alphanumeric(s) {
        None
    } else {
        Some(t)
    }
}

/// The roles of the player whose search completed a match and of the
/// waiting opponent, by the match's id; see [`roles_of`].
pub fn roles_for(game_id: u128) -> (r: (PeerRole, PeerRole))
    ensures
        r == roles_of(game_id),
        r.0 != r.1,
{
    if (game_id >> 120u128) & 1u128 == 0 {
        (PeerRole::Host, PeerRole::Guest)
    } else {
        (PeerRole::Guest, PeerRole::Host)
    }
}

/// `m` tells `you` of a match on the fixed board against `opponent`, with
/// the given id and role.
pub open spec fn match_found(
    m: ServerRelayMessage,
    game_id: u128,
    role: PeerRole,
    you: PlayerInfo,
    opponent: PlayerInfo,
) -> bool {
    &&& m matches ServerRelayMessage::MatchFound {
        game_id: g,
        role: r,
        board_width,
        board_height,
        opponent: o,
        you: y,
    }
    &&& g == game_id
    &&& r == role
    &&& board_width == MP_BOARD_WIDTH
    &&& board_height == MP_BOARD_HEIGHT
    &&& o.id == opponent.id && o.name@ == opponent.name@ && o.color == opponent.color
    &&& y.id == you.id && y.name@ == you.name@ && y.color == you.color
}

/// Pairs the player whose search found a waiting `opponent`: a new match id
/// (a random UUID) decides the roles, and each player gets a `MatchFound`
/// naming the other. The first message is for `current`, the second for
/// `opponent`.
pub fn pair_players(current: &PlayerInfo, opponent: &PlayerInfo) -> (r: (
    ServerRelayMessage,
    ServerRelayMessage,
))
    ensures
        exists|game_id: u128|
            {
                &&& #[trigger] match_found(r.0, game_id, roles_of(game_id).0, *current, *opponent)
                &&& match_found(r.1, game_id, roles_of(game_id).1, *opponent, *current)
                &&& (game_id >> 76u128) & 0xfu128 == 4
            },
{
    let game_id = new_random_uuid();
    let (current_role, opponent_role) = roles_for(game_id);
    let to_current = ServerRelayMessage::MatchFound {
        game_id,
        role: current_role,
        board_width: MP_BOARD_WIDTH,
        board_height: MP_BOARD_HEIGHT,
        opponent: opponent.duplicate(),
        you: current.duplicate(),
    };
    let to_opponent = ServerRelayMessage::MatchFound {
        game_id,
        role: opponent_role,
        board_width: MP_BOARD_WIDTH,
        board_height: MP_BOARD_HEIGHT,
        opponent: current.duplicate(),
        you: opponent.duplicate(),
    };
    let r = (to_current, to_opponent);
    proof {
        assert(match_found(r.0, game_id, roles_of(game_id).0, *current, *opponent));
        assert(match_found(r.1, game_id, roles_of(game_id).1, *opponent, *current));
    }
    r
}

/// A player waiting in the relay's queue, with what the relay keeps for it.
pub struct Waiting<T> {
    pub player: PlayerInfo,
    pub entry: T,
}

/// Players waiting for an opponent, longest-waiting first.
pub struct MatchQueue<T> {
    pub waiting: Vec<Waiting<T>>,
}

/// Keeps the waiting players other than `id`.
pub open spec fn other_than<T>(id: u128) -> spec_fn(Waiting<T>) -> bool {
    |w: Waiting<T>| w.player.id != id
}

impl<T> MatchQueue<T> {
    /// An empty queue.
    pub fn new() -> (q: MatchQueue<T>)
        ensures
            q.waiting@.len() == 0,
    {
        MatchQueue { waiting: Vec::new() }
    }

    /// Takes the longest-waiting player out of the queue, if any.
    pub fn take_opponent(&mut self) -> (r: Option<Waiting<T>>)
        ensures
            old(self).waiting@.len() == 0 ==> r is None && final(self).waiting@
                == old(self).waiting@,
            old(self).waiting@.len() > 0 ==> r == Some(old(self).waiting@[0])
                && final(self).waiting@ == old(self).waiting@.drop_first(),
    {
        if self.waiting.len() == 0 {
            None
        } else {
            let w = self.waiting.remove(0);
            proof {
                assert(self.waiting@ =~= old(self).waiting@.drop_first());
            }
            Some(w)
        }
    }

    /// Puts a player at the back of the queue.
    pub fn enqueue(&mut self, player: PlayerInfo, entry: T)
        ensures
            final(self).waiting@ == old(self).waiting@.push(Waiting { player, entry }),
    {
        self.waiting.push(Waiting { player, entry });
    }

    /// Removes every entry of player `id`, keeping the others in order.
    pub fn remove_player(&mut self, id: u128)
        ensures
            final(self).waiting@ == old(self).waiting@.filter(other_than::<T>(id)),
    {
        let ghost orig = self.waiting@;
        let ghost keep = other_than::<T>(id);
        let mut rest: Vec<Waiting<T>> = Vec::new();
        std::mem::swap(&mut rest, &mut self.waiting);
        let ghost k: int = 0;
        while rest.len() > 0
            invariant
                0 <= k <= orig.len(),
                rest@ == orig.skip(k),
                self.waiting@ == orig.take(k).filter(keep),
                keep == other_than::<T>(id),
            decreases rest@.len(),
        {
            let w = rest.remove(0);
            proof {
                assert(orig.take(k + 1) =~= orig.take(k).push(orig[k]));
                orig.take(k).lemma_filter_push(orig[k], keep);
                assert(rest@ =~= orig.skip(k + 1));
            }
            if w.player.id != id {
                self.waiting.push(w);
            }
            proof {
                k = k + 1;
            }
        }
        proof {
            assert(orig.take(k) =~= orig);
        }
    }
}

/// What a player's search for an opponent comes to.
pub enum SearchOutcome<T> {
    /// The longest-waiting player left the queue to play: `to_me` is the
    /// searching player's `MatchFound`, `to_opponent` the opponent's.
    Paired { to_me: ServerRelayMessage, to_opponent: ServerRelayMessage, opponent: Waiting<T> },
    /// Nobody was waiting: the player joined the queue, and `reply` tells it so.
    Queued { reply: ServerRelayMessage },
}

/// A registered player `me` searches: it is paired with the longest-waiting
/// player through [`pair_players`], or, when nobody waits, joins the back of
/// the queue with `entry` and is told `SearchingMatch`.
pub fn search_match<T>(queue: &mut MatchQueue<T>, me: PlayerInfo, entry: T) -> (r: SearchOutcome<T>)
    ensures
        old(queue).waiting@.len() == 0 ==> {
            &&& r == SearchOutcome::<T>::Queued { reply: ServerRelayMessage::SearchingMatch }
            &&& final(queue).waiting@ == old(queue).waiting@.push(Waiting { player: me, entry })
        },
        old(queue).waiting@.len() > 0 ==> {
            &&& final(queue).waiting@ == old(queue).waiting@.drop_first()
            &&& r matches SearchOutcome::Paired { to_me, to_opponent, opponent }
            &&& opponent == old(queue).waiting@[0]
            &&& exists|game_id: u128|
                {
                    &&& #[trigger] match_found(
                        to_me,
                        game_id,
                        roles_of(game_id).0,
                        me,
                        opponent.player,
                    )
                    &&& match_found(to_opponent, game_id, roles_of(game_id).1, opponent.player, me)
                    &&& (game_id >> 76u128) & 0xfu128 == 4
                }
        },
{
    match queue.take_opponent() {
        Some(opponent) => {
            let (to_me, to_opponent) = pair_players(&me, &opponent.player);
            SearchOutcome::Paired { to_me, to_opponent, opponent }
        },
        None => {
            queue.enqueue(me, entry);
            SearchOutcome::Queued { reply: ServerRelayMessage::SearchingMatch }
        },
    }
}

/// Removing a player that was not waiting after putting it at the back of
/// the queue leaves the queue as it was.
pub proof fn lemma_cancel_undoes_enqueue<T>(q: Seq<Waiting<T>>, w: Waiting<T>)
    requires
        forall|i: int| 0 <= i < q.len() ==> (#[trigger] q[i]).player.id != w.player.id,
    ensures
        q.push(w).filter(other_than::<T>(w.player.id)) == q,
{
    let keep = other_than::<T>(w.player.id);
    q.lemma_filter_push(w, keep);
    lemma_filter_keeps_all(q, w.player.id);
}

/// Removing a player that is not waiting changes nothing.
pub proof fn lemma_filter_keeps_all<T>(q: Seq<Waiting<T>>, id: u128)
    requires
        forall|i: int| 0 <= i < q.len() ==> (#[trigger] q[i]).player.id != id,
    ensures
        q.filter(other_than::<T>(id)) == q,
    decreases q.len(),
{
    let keep = other_than::<T>(id);
    if q.len() > 0 {
        let front = q.drop_last();
        assert(q =~= front.push(q.last()));
        lemma_filter_keeps_all(front, id);
        front.lemma_filter_push(q.last(), keep);
    } else {
        assert(q.filter(keep) =~= q) by {
            reveal(Seq::filter);
        }
    }
}

/// What the relay does with a client's message in the lobby.
pub enum LobbyAction {
    /// Send this message back and wait for the next.
    Reply(ServerRelayMessage),
    /// Look for an opponent for this registered player.
    Search(PlayerInfo),
    /// Take the player (when registered) out of the queue and send this
    /// message back.
    Cancel { leave_queue: Option<u128>, reply: ServerRelayMessage },
    /// Close the connection.
    Disconnect,
}

/// What the relay does with a client's message while the client waits for
/// an opponent.
#[derive(Clone, Copy, PartialEq, Eq, Structural, Debug)]
pub enum WaitingAction {
    /// Leave the queue, confirm with `SearchCancelled` and close.
    Cancel,
    /// Close without a reply.
    Leave,
    /// Keep waiting.
    Ignore,
}

/// A client's connection to the relay's lobby: the player it registered, if any.
pub struct LobbyClient {
    pub player: Option<PlayerInfo>,
}

/// `m` is the relay's error reply with the given text.
pub open spec fn is_error(m: ServerRelayMessage, text: Seq<char>) -> bool {
    m matches ServerRelayMessage::Error { message } && message@ == text
}

impl LobbyClient {
    /// A connection that has not registered a player.
    pub fn new() -> (c: LobbyClient)
        ensures
            c.player is None,
    {
        LobbyClient { player: None }
    }

    /// The relay's answer to a client's message in the lobby (`None` when it
    /// was not a valid message): a valid `Register` registers a new player
    /// with a random id and a random colour and answers `Registered`; an
    /// invalid name, a search before registering and a malformed message are
    /// answered with an error; a search goes on to matchmaking; a cancel
    /// leaves the queue and answers `SearchCancelled`; `Disconnect` closes.
    pub fn on_message(&mut self, msg: Option<ClientRelayMessage>) -> (r: LobbyAction)
        ensures
            match msg {
                None => {
                    &&& r matches LobbyAction::Reply(m) && is_error(m, "Invalid message"@)
                    &&& final(self).player == old(self).player
                },
                Some(ClientRelayMessage::Register { name }) => if valid_name(trimmed(name@)) {
                    &&& final(self).player matches Some(p) && p.name@ == trimmed(name@) && (exists|
                        i: int,
                    | 0 <= i < 6 && p.color == color_at(i)) && (p.id >> 76u128) & 0xfu128 == 4
                    &&& r matches LobbyAction::Reply(ServerRelayMessage::Registered { player })
                    &&& final(self).player matches Some(p) && player.id == p.id && player.name@
                        == p.name@ && player.color == p.color
                } else {
                    &&& r matches LobbyAction::Reply(m) && is_error(
                        m,
                        "Name must be 1-16 alphanumeric characters"@,
                    )
                    &&& final(self).player == old(self).player
                },
                Some(ClientRelayMessage::SearchMatch) => {
                    &&& final(self).player == old(self).player
                    &&& match old(self).player {
                        None => r matches LobbyAction::Reply(m) && is_error(
                            m,
                            "Must register first"@,
                        ),
                        Some(p) => r matches LobbyAction::Search(q) && q.id == p.id && q.name@
                            == p.name@ && q.color == p.color,
                    }
                },
                Some(ClientRelayMessage::CancelSearch) => {
                    &&& final(self).player == old(self).player
                    &&& r matches LobbyAction::Cancel { leave_queue, reply }
                    &&& reply is SearchCancelled
                    &&& leave_queue == match old(self).player {
                        Some(p) => Some(p.id),
                        None => None,
                    }
                },
                Some(ClientRelayMessage::Disconnect) => {
                    &&& r is Disconnect
                    &&& final(self).player == old(self).player
                },
            },
    {
        match msg {
            None => LobbyAction::Reply(
                ServerRelayMessage::Error { message: "Invalid message".to_owned() },
            ),
            Some(ClientRelayMessage::Register { name }) => {
                match validate_name(name.as_str()) {
                    None => LobbyAction::Reply(
                        ServerRelayMessage::Error {
                            message: "Name must be 1-16 alphanumeric characters".to_owned(),
                        },
                    ),
                    Some(trimmed_name) => {
                        let info = PlayerInfo {
                            id: new_random_uuid(),
                            name: trimmed_name,
                            color: next_color(),
                        };
                        let reply = ServerRelayMessage::Registered { player: info.duplicate() };
                        self.player = Some(info);
                        LobbyAction::Reply(reply)
                    },
                }
            },
            Some(ClientRelayMessage::SearchMatch) => match &self.player {
                None => LobbyAction::Reply(
                    ServerRelayMessage::Error { message: "Must register first".to_owned() },
                ),
                Some(p) => LobbyAction::Search(p.duplicate()),
            },
            Some(ClientRelayMessage::CancelSearch) => {
                let leave_queue = match &self.player {
                    Some(p) => Some(p.id),
                    None => None,
                };
                LobbyAction::Cancel { leave_queue, reply: ServerRelayMessage::SearchCancelled }
            },
            Some(ClientRelayMessage::Disconnect) => LobbyAction::Disconnect,
        }
    }
}

/// What a waiting client's message asks (`None` when it was not a valid
/// message): `CancelSearch` cancels, `Disconnect` leaves, anything else is
/// ignored.
pub fn waiting_action(msg: &Option<ClientRelayMessage>) -> (a: WaitingAction)
    ensures
        a == (match msg {
            Some(ClientRelayMessage::CancelSearch) => WaitingAction::Cancel,
            Some(ClientRelayMessage::Disconnect) => WaitingAction::Leave,
            _ => WaitingAction::Ignore,
        }),
{
    match msg {
        Some(ClientRelayMessage::CancelSearch) => WaitingAction::Cancel,
        Some(ClientRelayMessage::Disconnect) => WaitingAction::Leave,
        _ => WaitingAction::Ignore,
    }
}

/// The relay takes a new connection while fewer than the most it serves are open.
pub fn admits_connection(active: usize) -> (b: bool)
    ensures
        b == (active < MAX_RELAY_CONNECTIONS),
{
    active < MAX_RELAY_CONNECTIONS
}

} // verus!
