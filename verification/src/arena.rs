//! A whole tick, and the game around it: the menu, the running round with
//! its players and platforms, and the end of a round.

use vstd::prelude::*;
use crate::fixed::{tdiv, LIMIT, SCALE};
use crate::vec2::{vec2, Vec2};
use crate::body::{Body, Platform};
use crate::forces::{boosted, lemma_drag_opposes};
use crate::collide::{
    against_platforms, all_platforms_wf, all_wf, collide_all, collide_rows,
    platform_collide, platform_contact_spec, platforms_fold, player_collide,
};
use crate::systems::{
    all_inputs_wf, apply_velocity, before_collision, flip_sprite, friction_force,
    gravitation_force, input_for, jump, movement_force, special_move, PlayerInput,
};
use crate::game::{
    arena_platforms, check_game_over, ends_round, fallen, respawn, respawn_events, respawned, rematch,
    show_score, shown, snapshot, spawn_platforms, spawn_players, spawn_score_display, start_game,
    starting_displays, starting_players, GameStates, PlayerResult, RespawnEvent, ScoreDisplay,
};

verus! {

/// The players after a tick's motion and collisions, before falls are
/// looked at: each player takes its forces, is integrated and resolved
/// against the platforms; then every pair of players is resolved.
pub open spec fn moved(
    s: Seq<Body>,
    platforms: Seq<Platform>,
    inputs: Seq<PlayerInput>,
    delta: u64,
) -> Seq<Body> {
    collide_all(
        Seq::new(
            s.len(),
            |k: int|
                against_platforms(
                    before_collision(s[k], input_for(inputs, s[k].player), delta),
                    platforms,
                ),
        ),
    )
}

/// The players at the end of a tick: moved, and the fallen ones back at
/// the spawn point.
pub open spec fn ticked_bodies(
    s: Seq<Body>,
    platforms: Seq<Platform>,
    inputs: Seq<PlayerInput>,
    delta: u64,
) -> Seq<Body> {
    Seq::new(s.len(), |k: int| respawned(moved(s, platforms, inputs, delta)[k]))
}

/// The events of a tick: those of the fallen among the moved players.
pub open spec fn tick_events(
    s: Seq<Body>,
    platforms: Seq<Platform>,
    inputs: Seq<PlayerInput>,
    delta: u64,
) -> Seq<RespawnEvent> {
    respawn_events(moved(s, platforms, inputs, delta), s.len())
}

/// Whether one of the first `n` events ends the round.
pub open spec fn any_ends_round(events: Seq<RespawnEvent>, n: nat) -> bool
    decreases n,
{
    n > 0 && (any_ends_round(events, (n - 1) as nat) || ends_round(events[n - 1]))
}

/// A display after the first `n` events, in their order.
pub open spec fn shown_all(d: ScoreDisplay, events: Seq<RespawnEvent>, n: nat) -> ScoreDisplay
    decreases n,
{
    if n == 0 {
        d
    } else {
        shown(shown_all(d, events, (n - 1) as nat), events[n - 1])
    }
}

/// The displays after all the events.
pub open spec fn displays_after(d: Seq<ScoreDisplay>, events: Seq<RespawnEvent>) -> Seq<
    ScoreDisplay,
> {
    Seq::new(d.len(), |k: int| shown_all(d[k], events, events.len()))
}

/// Whether the body lies at rest on the top of the platform: it does not
/// move, its lower edge is the platform's upper edge, the two overlap
/// sideways, gravity pulls straight down, by no more in a tick than the
/// two are high together, and the pull does not lead out of range.
pub open spec fn rests_on(b: Body, p: Platform) -> bool {
    &&& b.velocity == (Vec2 { x: 0, y: 0 })
    &&& b.acceleration == (Vec2 { x: 0, y: 0 })
    &&& b.gravitation.x == 0
    &&& b.gravitation.y <= 0
    &&& b.position.y - b.size.y / 2 == p.position.y + p.size.y / 2
    &&& b.position.x - b.size.x / 2 <= p.position.x + p.size.x / 2
    &&& b.position.x + b.size.x / 2 >= p.position.x - p.size.x / 2
    &&& -b.gravitation.y <= 2 * (b.size.y / 2) + 2 * (p.size.y / 2)
    &&& b.position.y + b.gravitation.y >= -LIMIT
}

/// A body at rest on a platform stays there: after a tick in which it
/// asks for no movement and no jump it is grounded, in the same place and
/// at rest again, so this holds of every later tick too.
pub proof fn lemma_resting_stays_grounded(b: Body, p: Platform, input: PlayerInput, delta: u64)
    requires
        b.wf(),
        p.wf(),
        rests_on(b, p),
        input.direction == (Vec2 { x: 0, y: 0 }),
        !input.jump,
    ensures
        against_platforms(before_collision(b, input, delta), seq![p]).on_platform,
        against_platforms(before_collision(b, input, delta), seq![p]).position == b.position,
        rests_on(against_platforms(before_collision(b, input, delta), seq![p]), p),
        against_platforms(before_collision(b, input, delta), seq![p]).wf(),
{
    lemma_drag_opposes(b.velocity);
    let zero = Vec2 { x: 0, y: 0 };
    assert(tdiv(0, SCALE as int) == 0);
    assert(boosted(zero, zero) == zero);
    let moving = before_collision(b, input, delta);
    assert(moving.velocity == b.gravitation);
    assert(moving.position == vec2(b.position.x as int, b.position.y + b.gravitation.y));
    reveal_with_fuel(platforms_fold, 3);
    assert(platform_contact_spec(moving, p).1);
}

/// A body alone at rest on a platform is still there after a whole tick,
/// grounded, and has raised no event: it neither sinks nor falls.
pub proof fn lemma_resting_survives_tick(
    b: Body,
    p: Platform,
    inputs: Seq<PlayerInput>,
    delta: u64,
)
    requires
        b.wf(),
        p.wf(),
        rests_on(b, p),
        !fallen(b),
        input_for(inputs, b.player).direction == (Vec2 { x: 0, y: 0 }),
        !input_for(inputs, b.player).jump,
    ensures
        ticked_bodies(seq![b], seq![p], inputs, delta).len() == 1,
        ticked_bodies(seq![b], seq![p], inputs, delta)[0].on_platform,
        ticked_bodies(seq![b], seq![p], inputs, delta)[0].position == b.position,
        rests_on(ticked_bodies(seq![b], seq![p], inputs, delta)[0], p),
        !fallen(ticked_bodies(seq![b], seq![p], inputs, delta)[0]),
        ticked_bodies(seq![b], seq![p], inputs, delta)[0].wf(),
        tick_events(seq![b], seq![p], inputs, delta) == Seq::<RespawnEvent>::empty(),
{
    let s = seq![b];
    let ps = seq![p];
    let input = input_for(inputs, b.player);
    lemma_resting_stays_grounded(b, p, input, delta);
    let r = against_platforms(before_collision(b, input, delta), ps);
    let s1 = Seq::new(
        s.len(),
        |k: int|
            against_platforms(before_collision(s[k], input_for(inputs, s[k].player), delta), ps),
    );
    assert(s1[0] == r);
    reveal_with_fuel(collide_rows, 3);
    assert(collide_all(s1) == s1);
    reveal_with_fuel(respawn_events, 3);
}

/// Runs one tick on the players of a round: forces, integration, facing,
/// collisions with the platforms and with each other, and respawns.
/// Returns the respawn events in the players' order.
pub fn advance(
    bodies: &mut Vec<Body>,
    platforms: &Vec<Platform>,
    inputs: &Vec<PlayerInput>,
    delta: u64,
) -> (events: Vec<RespawnEvent>)
    requires
        all_wf(old(bodies)@),
        all_platforms_wf(platforms@),
        all_inputs_wf(inputs@),
    ensures
        final(bodies)@ == ticked_bodies(old(bodies)@, platforms@, inputs@, delta),
        events@ == tick_events(old(bodies)@, platforms@, inputs@, delta),
        all_wf(final(bodies)@),
{
    let ghost start = bodies@;
    movement_force(bodies, inputs);
    friction_force(bodies);
    gravitation_force(bodies);
    jump(bodies, inputs);
    special_move(bodies, inputs, delta);
    apply_velocity(bodies);
    flip_sprite(bodies);
    platform_collide(bodies, platforms);
    proof {
        assert(bodies@ =~= Seq::new(
            start.len(),
            |k: int|
                against_platforms(
                    before_collision(start[k], input_for(inputs@, start[k].player), delta),
                    platforms@,
                ),
        ));
    }
    player_collide(bodies);
    assert(bodies@ == moved(start, platforms@, inputs@, delta));
    let events = respawn(bodies);
    assert(bodies@ =~= ticked_bodies(start, platforms@, inputs@, delta));
    events
}

/// Hands a tick's events on: each is shown on its player's display, and
/// the first that ends the round, while the game runs, ends it. Returns
/// the state after the events and, where the round has ended, the results.
pub fn settle(
    state: GameStates,
    events: &Vec<RespawnEvent>,
    bodies: &Vec<Body>,
    displays: &mut Vec<ScoreDisplay>,
) -> (r: (GameStates, Vec<PlayerResult>))
    ensures
        final(displays)@ == displays_after(old(displays)@, events@),
        r.0 == if state == GameStates::Game && any_ends_round(events@, events@.len()) {
            GameStates::GameOver
        } else {
            state
        },
        r.1@ == if state == GameStates::Game && any_ends_round(events@, events@.len()) {
            snapshot(bodies@)
        } else {
            Seq::<PlayerResult>::empty()
        },
{
    let ghost start = displays@;
    let mut now = state;
    let mut results: Vec<PlayerResult> = Vec::new();
    let mut i: usize = 0;
    while i < events.len()
        invariant
            i <= events@.len(),
            displays@.len() == start.len(),
            forall|k: int|
                0 <= k < start.len() ==> #[trigger] displays@[k] == shown_all(
                    start[k],
                    events@,
                    i as nat,
                ),
            now == if state == GameStates::Game && any_ends_round(events@, i as nat) {
                GameStates::GameOver
            } else {
                state
            },
            results@ == if state == GameStates::Game && any_ends_round(events@, i as nat) {
                snapshot(bodies@)
            } else {
                Seq::<PlayerResult>::empty()
            },
        decreases events@.len() - i,
    {
        show_score(events[i], displays);
        let r = check_game_over(now, events[i], bodies);
        let running = match now {
            GameStates::Game => true,
            _ => false,
        };
        let over = match r.0 {
            GameStates::GameOver => true,
            _ => false,
        };
        if running && over {
            results = r.1;
        }
        now = r.0;
        i = i + 1;
    }
    assert(displays@ =~= displays_after(start, events@));
    (now, results)
}

/// The game: its state, and what belongs to the running round.
pub struct Game {
    pub state: GameStates,
    /// The players; none outside a running round.
    pub bodies: Vec<Body>,
    /// The platforms; none outside a running round.
    pub platforms: Vec<Platform>,
    /// The score displays; none outside a running round.
    pub displays: Vec<ScoreDisplay>,
    /// The results of the round that ended; none in another state.
    pub results: Vec<PlayerResult>,
}

/// What the players ask of the game in a tick.
pub struct Controls {
    /// One entry for each player, player 1 first.
    pub inputs: Vec<PlayerInput>,
    /// Whether the start of the game is asked for.
    pub start: bool,
    /// Whether another round is asked for.
    pub rematch: bool,
}

impl Game {
    /// Every player and platform is well-formed; players, platforms and
    /// displays exist only in a running round, results only after one.
    pub open spec fn wf(&self) -> bool {
        &&& all_wf(self.bodies@)
        &&& all_platforms_wf(self.platforms@)
        &&& self.state != GameStates::Game ==> self.bodies@.len() == 0 && self.platforms@.len()
            == 0 && self.displays@.len() == 0
        &&& self.state != GameStates::GameOver ==> self.results@.len() == 0
    }

    /// Whether a tick on the running game ends the round.
    pub open spec fn round_ends(&self, controls: &Controls, delta: u64) -> bool {
        let events = tick_events(self.bodies@, self.platforms@, controls.inputs@, delta);
        any_ends_round(events, events.len())
    }

    /// Whether the game holds exactly a fresh round.
    pub open spec fn is_fresh_round(&self) -> bool {
        &&& self.state == GameStates::Game
        &&& self.bodies@ == starting_players()
        &&& self.platforms@ == arena_platforms()
        &&& self.displays@ == starting_displays()
        &&& self.results@ == Seq::<PlayerResult>::empty()
    }

    /// The game in its menu.
    pub fn new() -> (g: Game)
        ensures
            g.state == GameStates::Menu,
            g.bodies@.len() == 0,
            g.platforms@.len() == 0,
            g.displays@.len() == 0,
            g.results@.len() == 0,
            g.wf(),
    {
        Game {
            state: GameStates::Menu,
            bodies: Vec::new(),
            platforms: Vec::new(),
            displays: Vec::new(),
            results: Vec::new(),
        }
    }

    /// Begins a round: two players, the platforms, the displays at zero.
    fn begin_round(&mut self)
        ensures
            final(self).is_fresh_round(),
            final(self).wf(),
    {
        self.state = GameStates::Game;
        self.bodies = spawn_players();
        self.platforms = spawn_platforms();
        self.displays = spawn_score_display();
        self.results = Vec::new();
    }

    /// Runs one tick of the game.
    ///
    /// In the menu, a start begins a round. After a round, a rematch
    /// begins the next. In a running round the players move, collide and
    /// respawn; the displays follow the events; and where an event ends
    /// the round, the results are taken and all that belongs to the round
    /// is removed.
    pub fn step(&mut self, controls: &Controls, delta: u64)
        requires
            old(self).wf(),
            all_inputs_wf(controls.inputs@),
        ensures
            final(self).wf(),
            old(self).state == GameStates::Menu && controls.start ==> final(self).is_fresh_round(),
            old(self).state == GameStates::GameOver && controls.rematch ==> final(self).is_fresh_round(),
            (old(self).state == GameStates::Menu && !controls.start) || (old(self).state
                == GameStates::GameOver && !controls.rematch) ==> {
                &&& final(self).state == old(self).state
                &&& final(self).bodies@ == old(self).bodies@
                &&& final(self).platforms@ == old(self).platforms@
                &&& final(self).displays@ == old(self).displays@
                &&& final(self).results@ == old(self).results@
            },
            old(self).state == GameStates::Game && old(self).round_ends(controls, delta) ==> {
                &&& final(self).state == GameStates::GameOver
                &&& final(self).results@ == snapshot(
                    ticked_bodies(old(self).bodies@, old(self).platforms@, controls.inputs@, delta),
                )
                &&& final(self).bodies@.len() == 0
                &&& final(self).platforms@.len() == 0
                &&& final(self).displays@.len() == 0
            },
            old(self).state == GameStates::Game && !old(self).round_ends(controls, delta) ==> {
                &&& final(self).state == GameStates::Game
                &&& final(self).bodies@ == ticked_bodies(
                    old(self).bodies@,
                    old(self).platforms@,
                    controls.inputs@,
                    delta,
                )
                &&& final(self).platforms@ == old(self).platforms@
                &&& final(self).displays@ == displays_after(
                    old(self).displays@,
                    tick_events(old(self).bodies@, old(self).platforms@, controls.inputs@, delta),
                )
                &&& final(self).results@ == old(self).results@
            },
    {
        match self.state {
            GameStates::Menu => {
                let next = start_game(self.state, controls.start);
                match next {
                    GameStates::Game => {
                        self.begin_round();
                    },
                    _ => {},
                }
            },
            GameStates::Game => {
                let events = advance(&mut self.bodies, &self.platforms, &controls.inputs, delta);
                let r = settle(self.state, &events, &self.bodies, &mut self.displays);
                match r.0 {
                    GameStates::GameOver => {
                        self.state = GameStates::GameOver;
                        self.results = r.1;
                        self.bodies = Vec::new();
                        self.platforms = Vec::new();
                        self.displays = Vec::new();
                    },
                    _ => {},
                }
            },
            GameStates::GameOver => {
                let next = rematch(self.state, controls.rematch, &mut self.displays);
                match next {
                    GameStates::Game => {
                        self.begin_round();
                    },
                    _ => {},
                }
            },
        }
    }
}

} // verus!
