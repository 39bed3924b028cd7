//! The rules of a match: falls and respawns, the score, the end of a round
//! and its winner, and the states the game moves through.

use vstd::prelude::*;
use crate::vec2::{vec2, Vec2};
use crate::body::{fresh_body, Body, Platform, DEFAULT_MASS, PLAYER_SIZE};
use crate::collide::{all_platforms_wf, all_wf};

verus! {

/// Height below which a player has fallen out of the arena.
pub const DEATH_PLANE_Y: i64 = -800_000;

/// Where a fallen player comes back.
pub const SPAWN_X: i64 = 0;

/// Where a fallen player comes back.
pub const SPAWN_Y: i64 = 25_000;

/// A round ends when a player's falls exceed this number.
pub const LOSING_SCORE: u32 = 5;

/// The states of the game.
#[derive(Clone, Copy, Debug, PartialEq, Eq, Structural)]
pub enum GameStates {
    Menu,
    Game,
    GameOver,
}

/// Raised when a player has fallen and come back.
#[derive(Clone, Copy, Debug, PartialEq, Eq, Structural)]
pub struct RespawnEvent {
    pub player: u32,
    /// The player's falls, this one included.
    pub score: u32,
}

/// A player's falls at the end of a round.
#[derive(Clone, Copy, Debug, PartialEq, Eq, Structural)]
pub struct PlayerResult {
    pub player: u32,
    pub score: u32,
}

/// The score that is shown for one player.
#[derive(Clone, Copy, Debug, PartialEq, Eq, Structural)]
pub struct ScoreDisplay {
    pub player: u32,
    pub value: u32,
}

/// Whether the body is below the death plane.
pub open spec fn fallen(b: Body) -> bool {
    b.position.y < DEATH_PLANE_Y
}

/// One more fall; the count stops at the largest number it can hold.
pub open spec fn one_more(score: u32) -> u32 {
    if score < u32::MAX {
        (score + 1) as u32
    } else {
        score
    }
}

/// A fallen body back at the spawn point with one more fall; any other
/// body as it is.
pub open spec fn respawned(b: Body) -> Body {
    if fallen(b) {
        Body { score: one_more(b.score), position: Vec2 { x: SPAWN_X, y: SPAWN_Y }, ..b }
    } else {
        b
    }
}

/// The events that the first `n` bodies of `s` raise, in their order: one
/// for each fallen body, with its new score.
pub open spec fn respawn_events(s: Seq<Body>, n: nat) -> Seq<RespawnEvent>
    decreases n,
{
    if n == 0 {
        Seq::empty()
    } else {
        let prev = respawn_events(s, (n - 1) as nat);
        if fallen(s[n - 1]) {
            prev.push(RespawnEvent { player: s[n - 1].player, score: one_more(s[n - 1].score) })
        } else {
            prev
        }
    }
}

/// The results of the bodies, in their order.
pub open spec fn snapshot(s: Seq<Body>) -> Seq<PlayerResult> {
    Seq::new(s.len(), |k: int| PlayerResult { player: s[k].player, score: s[k].score })
}

/// Whether a respawn with this score ends the round.
pub open spec fn ends_round(e: RespawnEvent) -> bool {
    e.score > LOSING_SCORE
}

/// The display after an event: the event's score where the display is the
/// event's player's.
pub open spec fn shown(d: ScoreDisplay, e: RespawnEvent) -> ScoreDisplay {
    if d.player == e.player {
        ScoreDisplay { player: d.player, value: e.score }
    } else {
        d
    }
}

/// The winner and the winning score among the first `n` results: the
/// first result with the fewest falls, if those are at most
/// `LOSING_SCORE`; else player 0 with `LOSING_SCORE + 1`.
pub open spec fn leader(results: Seq<PlayerResult>, n: nat) -> (u32, u32)
    decreases n,
{
    if n == 0 {
        (0u32, (LOSING_SCORE + 1) as u32)
    } else {
        let prev = leader(results, (n - 1) as nat);
        if results[n - 1].score < prev.1 {
            (results[n - 1].player, results[n - 1].score)
        } else {
            prev
        }
    }
}

/// The winner of a round: the player of the first result with the fewest
/// falls, or 0 where no result is at most `LOSING_SCORE`.
pub open spec fn winner_spec(results: Seq<PlayerResult>) -> u32 {
    leader(results, results.len()).0
}

/// The two players of a round, at their starting places.
pub open spec fn starting_players() -> Seq<Body> {
    seq![
        fresh_body(
            1,
            Vec2 { x: 100_000, y: 25_000 },
            Vec2 { x: PLAYER_SIZE, y: PLAYER_SIZE },
            DEFAULT_MASS,
        ),
        fresh_body(
            2,
            vec2(-100_000, 25_000),
            Vec2 { x: PLAYER_SIZE, y: PLAYER_SIZE },
            DEFAULT_MASS,
        ),
    ]
}

/// The three platforms of the arena.
pub open spec fn arena_platforms() -> Seq<Platform> {
    seq![
        Platform { position: vec2(0, -150_000), size: Vec2 { x: 600_000, y: 50_000 } },
        Platform {
            position: vec2(-600_000, -50_000),
            size: Vec2 { x: 300_000, y: 50_000 },
        },
        Platform { position: vec2(600_000, -50_000), size: Vec2 { x: 300_000, y: 50_000 } },
    ]
}

/// The displays of a round that begins: both players at zero.
pub open spec fn starting_displays() -> Seq<ScoreDisplay> {
    seq![ScoreDisplay { player: 1, value: 0 }, ScoreDisplay { player: 2, value: 0 }]
}

impl Body {
    /// Brings a fallen body back to the spawn point and counts the fall;
    /// the event tells of it. A body above the plane is left alone.
    pub fn respawn(self) -> (r: (Body, Option<RespawnEvent>))
        ensures
            r.0 == respawned(self),
            r.1.is_some() <==> fallen(self),
            fallen(self) ==> r.1 == Some(
                RespawnEvent { player: self.player, score: one_more(self.score) },
            ),
            self.wf() ==> r.0.wf(),
    {
        if self.position.y < DEATH_PLANE_Y {
            let score: u32 = if self.score < u32::MAX {
                self.score + 1
            } else {
                self.score
            };
            let mut b = self;
            b.score = score;
            b.position = Vec2 { x: SPAWN_X, y: SPAWN_Y };
            (b, Some(RespawnEvent { player: self.player, score }))
        } else {
            (self, None)
        }
    }
}

/// A fall is counted once: a body that has just come back is above the
/// plane, so a second look at it changes nothing and raises no event.
pub proof fn lemma_respawn_once(b: Body)
    ensures
        !fallen(respawned(b)),
        respawned(respawned(b)) == respawned(b),
        fallen(b) ==> respawned(b).score == one_more(b.score),
        !fallen(b) ==> respawned(b) == b,
{
}

/// Brings every fallen player back and returns the events, in the
/// players' order.
pub fn respawn(bodies: &mut Vec<Body>) -> (events: Vec<RespawnEvent>)
    ensures
        final(bodies)@.len() == old(bodies)@.len(),
        forall|k: int|
            0 <= k < old(bodies)@.len() ==> #[trigger] final(bodies)@[k] == respawned(
                old(bodies)@[k],
            ),
        events@ == respawn_events(old(bodies)@, old(bodies)@.len()),
        all_wf(old(bodies)@) ==> all_wf(final(bodies)@),
{
    let ghost start = bodies@;
    let n = bodies.len();
    let mut events: Vec<RespawnEvent> = Vec::new();
    let mut i: usize = 0;
    while i < n
        invariant
            n == bodies@.len(),
            n == start.len(),
            i <= n,
            forall|k: int| 0 <= k < i ==> #[trigger] bodies@[k] == respawned(start[k]),
            forall|k: int| i <= k < n ==> #[trigger] bodies@[k] == start[k],
            events@ == respawn_events(start, i as nat),
        decreases n - i,
    {
        let r = bodies[i].respawn();
        bodies[i] = r.0;
        match r.1 {
            Some(e) => {
                events.push(e);
            },
            None => {},
        }
        i = i + 1;
    }
    events
}

/// Decides on a respawn whether the round is over. It is, when the game
/// is running and the event's score exceeds `LOSING_SCORE`; the results
/// then hold every player's falls. Else the state stays and there are no
/// results.
pub fn check_game_over(state: GameStates, event: RespawnEvent, bodies: &Vec<Body>) -> (r: (
    GameStates,
    Vec<PlayerResult>,
))
    ensures
        r.0 == if state == GameStates::Game && ends_round(event) {
            GameStates::GameOver
        } else {
            state
        },
        r.1@ == if state == GameStates::Game && ends_round(event) {
            snapshot(bodies@)
        } else {
            Seq::<PlayerResult>::empty()
        },
{
    let mut results: Vec<PlayerResult> = Vec::new();
    let running = match state {
        GameStates::Game => true,
        _ => false,
    };
    if running && event.score > LOSING_SCORE {
        let mut i: usize = 0;
        while i < bodies.len()
            invariant
                i <= bodies@.len(),
                results@ == snapshot(bodies@.subrange(0, i as int)),
            decreases bodies@.len() - i,
        {
            results.push(PlayerResult { player: bodies[i].player, score: bodies[i].score });
            assert(results@ =~= snapshot(bodies@.subrange(0, i + 1)));
            i = i + 1;
        }
        assert(bodies@.subrange(0, i as int) =~= bodies@);
        (GameStates::GameOver, results)
    } else {
        (state, results)
    }
}

/// Shows an event's score on the displays of its player.
pub fn show_score(event: RespawnEvent, displays: &mut Vec<ScoreDisplay>)
    ensures
        final(displays)@.len() == old(displays)@.len(),
        forall|k: int|
            0 <= k < old(displays)@.len() ==> #[trigger] final(displays)@[k] == shown(
                old(displays)@[k],
                event,
            ),
{
    let ghost start = displays@;
    let n = displays.len();
    let mut i: usize = 0;
    while i < n
        invariant
            n == displays@.len(),
            n == start.len(),
            i <= n,
            forall|k: int| 0 <= k < i ==> #[trigger] displays@[k] == shown(start[k], event),
            forall|k: int| i <= k < n ==> #[trigger] displays@[k] == start[k],
        decreases n - i,
    {
        let d = displays[i];
        if d.player == event.player {
            displays[i] = ScoreDisplay { player: d.player, value: event.score };
        }
        i = i + 1;
    }
}

/// The winner of a round: the player with the fewest falls among those
/// with at most `LOSING_SCORE`, the first of them where several are
/// level; 0 where there is none.
pub fn game_over_screen(results: &Vec<PlayerResult>) -> (winner: u32)
    ensures
        winner == winner_spec(results@),
{
    let mut min_points: u32 = LOSING_SCORE + 1;
    let mut player_winner: u32 = 0;
    let mut i: usize = 0;
    while i < results.len()
        invariant
            i <= results@.len(),
            (player_winner, min_points) == leader(results@, i as nat),
        decreases results@.len() - i,
    {
        if results[i].score < min_points {
            player_winner = results[i].player;
            min_points = results[i].score;
        }
        i = i + 1;
    }
    player_winner
}

/// The winner is the first of those with the fewest falls: where result
/// `k` has at most `LOSING_SCORE` falls, every result before it has more
/// and no result after it has fewer, its player wins. In particular a
/// player with strictly the fewest falls wins.
pub proof fn lemma_winner_is_first_lowest(results: Seq<PlayerResult>, k: int)
    requires
        0 <= k < results.len(),
        results[k].score <= LOSING_SCORE,
        forall|j: int| 0 <= j < k ==> results[j].score > results[k].score,
        forall|j: int| k < j < results.len() ==> results[j].score >= results[k].score,
    ensures
        winner_spec(results) == results[k].player,
{
    lemma_leader(results, k, results.len());
}

/// Where every player has more than `LOSING_SCORE` falls, nobody wins.
pub proof fn lemma_no_winner(results: Seq<PlayerResult>, n: nat)
    requires
        n <= results.len(),
        forall|j: int| 0 <= j < results.len() ==> results[j].score > LOSING_SCORE,
    ensures
        leader(results, n) == (0u32, (LOSING_SCORE + 1) as u32),
        n == results.len() ==> winner_spec(results) == 0,
    decreases n,
{
    if n > 0 {
        lemma_no_winner(results, (n - 1) as nat);
    }
}

/// The leader of a prefix, where result `k` is the first with the fewest
/// falls: before `k` is reached the leading score is above `k`'s, after
/// that `k` leads.
pub proof fn lemma_leader(results: Seq<PlayerResult>, k: int, n: nat)
    requires
        0 <= k < results.len(),
        n <= results.len(),
        results[k].score <= LOSING_SCORE,
        forall|j: int| 0 <= j < k ==> results[j].score > results[k].score,
        forall|j: int| k < j < results.len() ==> results[j].score >= results[k].score,
    ensures
        n <= k ==> leader(results, n).1 > results[k].score,
        n > k ==> leader(results, n) == (results[k].player, results[k].score),
    decreases n,
{
    if n > 0 {
        lemma_leader(results, k, (n - 1) as nat);
    }
}

/// The name under which a player wins.
pub open spec fn winner_name_spec(player: u32) -> Seq<char> {
    if player == 1 {
        "Penguin"@
    } else if player == 2 {
        "Seal"@
    } else {
        "???"@
    }
}

/// The name under which a player wins: player 1 is the penguin, player 2
/// the seal, and nobody else has a name.
pub fn winner_name(player: u32) -> (name: &'static str)
    ensures
        name@ == winner_name_spec(player),
{
    if player == 1 {
        "Penguin"
    } else if player == 2 {
        "Seal"
    } else {
        "???"
    }
}

/// Leaves the menu for the game when asked to.
pub fn start_game(state: GameStates, pressed: bool) -> (r: GameStates)
    ensures
        r == if state == GameStates::Menu && pressed {
            GameStates::Game
        } else {
            state
        },
{
    match state {
        GameStates::Menu => if pressed {
            GameStates::Game
        } else {
            state
        },
        _ => state,
    }
}

/// Starts a new round after one is over, when asked to, and sets every
/// display back to zero.
pub fn rematch(state: GameStates, pressed: bool, displays: &mut Vec<ScoreDisplay>) -> (r:
    GameStates)
    ensures
        r == if state == GameStates::GameOver && pressed {
            GameStates::Game
        } else {
            state
        },
        final(displays)@.len() == old(displays)@.len(),
        forall|k: int|
            0 <= k < old(displays)@.len() ==> #[trigger] final(displays)@[k] == if state
                == GameStates::GameOver && pressed {
                ScoreDisplay { player: old(displays)@[k].player, value: 0 }
            } else {
                old(displays)@[k]
            },
{
    let over = match state {
        GameStates::GameOver => true,
        _ => false,
    };
    if over && pressed {
        let ghost start = displays@;
        let n = displays.len();
        let mut i: usize = 0;
        while i < n
            invariant
                n == displays@.len(),
                n == start.len(),
                i <= n,
                forall|k: int|
                    0 <= k < i ==> #[trigger] displays@[k] == (ScoreDisplay {
                        player: start[k].player,
                        value: 0,
                    }),
                forall|k: int| i <= k < n ==> #[trigger] displays@[k] == start[k],
            decreases n - i,
        {
            let d = displays[i];
            displays[i] = ScoreDisplay { player: d.player, value: 0 };
            i = i + 1;
        }
        GameStates::Game
    } else {
        state
    }
}

/// The two players of a round that begins.
pub fn spawn_players() -> (r: Vec<Body>)
    ensures
        r@ == starting_players(),
        all_wf(r@),
{
    let mut r: Vec<Body> = Vec::new();
    let mut a = Body::default();
    a.player = 1;
    a.position = Vec2 { x: 100_000, y: 25_000 };
    a.size = Vec2 { x: PLAYER_SIZE, y: PLAYER_SIZE };
    let mut b = Body::default();
    b.player = 2;
    b.position = Vec2 { x: -100_000, y: 25_000 };
    b.size = Vec2 { x: PLAYER_SIZE, y: PLAYER_SIZE };
    r.push(a);
    r.push(b);
    assert(r@ =~= starting_players());
    r
}

/// The platforms of the arena.
pub fn spawn_platforms() -> (r: Vec<Platform>)
    ensures
        r@ == arena_platforms(),
        all_platforms_wf(r@),
{
    let mut r: Vec<Platform> = Vec::new();
    r.push(Platform { position: Vec2 { x: 0, y: -150_000 }, size: Vec2 { x: 600_000, y: 50_000 } });
    r.push(
        Platform {
            position: Vec2 { x: -600_000, y: -50_000 },
            size: Vec2 { x: 300_000, y: 50_000 },
        },
    );
    r.push(
        Platform { position: Vec2 { x: 600_000, y: -50_000 }, size: Vec2 { x: 300_000, y: 50_000 } },
    );
    assert(r@ =~= arena_platforms());
    r
}

/// The score displays of a round that begins.
pub fn spawn_score_display() -> (r: Vec<ScoreDisplay>)
    ensures
        r@ == starting_displays(),
{
    let mut r: Vec<ScoreDisplay> = Vec::new();
    r.push(ScoreDisplay { player: 1, value: 0 });
    r.push(ScoreDisplay { player: 2, value: 0 });
    assert(r@ =~= starting_displays());
    r
}

} // verus!
