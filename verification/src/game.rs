//! The world model and the per-tick gameplay systems.
//!
//! Every tick the engine drives the systems in a fixed order: spawn a star
//! if the countdown fired, clean up fallen stars, handle controller joins,
//! apply movement input, and resolve catches. Each system takes the events
//! accumulated since the previous tick as a plain sequence and reports the
//! engine-facing side effects (sounds, particle poofs, the winner overlay)
//! as a sequence of [`Effect`] values.

use vstd::prelude::*;

use crate::rng::draw_range;
use crate::scoreboard::{sb_has, sb_idx, sb_score, sb_wf, Entry, Scoreboard};
use crate::timer::SpawnTimer;

verus! {

/// Shortest countdown a firing re-arms with, in milliseconds.
pub const SPAWN_MIN_MS: u64 = 200;

/// Countdown draws stay strictly below this bound, in milliseconds.
pub const SPAWN_MAX_MS: u64 = 2000;

/// Vertical position stars spawn at, in thousandths of a pixel.
pub const STAR_SPAWN_Y_MP: i64 = 350_000;

/// Lowest horizontal spawn position of a star, in thousandths of a pixel.
pub const STAR_X_MIN_MP: i64 = -400_000;

/// Horizontal spawn positions stay strictly below this bound.
pub const STAR_X_MAX_MP: i64 = 400_000;

/// Lowest horizontal star velocity, in pixels per second.
pub const STAR_VX_MIN: i64 = -75;

/// Horizontal star velocities stay strictly below this bound.
pub const STAR_VX_MAX: i64 = 75;

/// Lowest vertical star velocity (downward), in pixels per second.
pub const STAR_VY_MIN: i64 = -300;

/// Vertical star velocities stay strictly below this bound.
pub const STAR_VY_MAX: i64 = -100;

/// Lowest star spin, in thousandths of a radian per second.
pub const STAR_SPIN_MIN_MRAD: i64 = -1200;

/// Star spins stay strictly below this bound.
pub const STAR_SPIN_MAX_MRAD: i64 = 1200;

/// Stars below this vertical position are removed by the cleanup pass.
pub const CLEANUP_Y_MP: i64 = -400_000;

/// Lowest horizontal position a joining player is placed at.
pub const PLAYER_X_MIN_MP: i64 = -600_000;

/// Player spawn positions stay strictly below this bound.
pub const PLAYER_X_MAX_MP: i64 = 600_000;

/// Vertical position players spawn at, in thousandths of a pixel.
pub const PLAYER_SPAWN_Y_MP: i64 = -250_000;

/// A jump is accepted only strictly below this height: the ground gate that
/// stands in for true contact detection.
pub const JUMP_GATE_Y_MP: i64 = -315_000;

/// Vertical velocity a jump sets, in pixels per second.
pub const JUMP_VY: i64 = 1250;

/// Points awarded for one caught star.
pub const CATCH_POINTS: u64 = 1;

/// Score at which a player wins.
pub const WIN_SCORE: u64 = 5;

/// Playback volume of the spawn and catch cues, in thousandths.
pub const CUE_VOLUME_MILLI: u64 = 250;

/// A player entity: one per connected controller. The run axis is stored in
/// thousandths of full deflection, so the axis value already equals the
/// horizontal driving force (axis times one thousand).
#[derive(Clone, Copy, PartialEq, Eq, Structural, Debug)]
pub struct Player {
    /// Controller id, also the scoreboard key.
    pub id: u64,
    /// World entity id.
    pub entity: u64,
    /// Horizontal position, thousandths of a pixel.
    pub x_mp: i64,
    /// Vertical position, thousandths of a pixel.
    pub y_mp: i64,
    /// Horizontal velocity, pixels per second.
    pub vx: i64,
    /// Vertical velocity, pixels per second.
    pub vy: i64,
    /// Horizontal driving force applied by the movement system.
    pub force_x: i64,
}

/// A falling collectible star. Stars carry a sensor collider and zero
/// gravity scale, so their velocity stays constant until they are caught or
/// cleaned up.
#[derive(Clone, Copy, PartialEq, Eq, Structural, Debug)]
pub struct Star {
    /// World entity id.
    pub entity: u64,
    /// Horizontal position, thousandths of a pixel.
    pub x_mp: i64,
    /// Vertical position, thousandths of a pixel.
    pub y_mp: i64,
    /// Horizontal velocity, pixels per second.
    pub vx: i64,
    /// Vertical velocity, pixels per second.
    pub vy: i64,
    /// Spin, thousandths of a radian per second.
    pub spin_mrad: i64,
    /// Whether the decorative trail rides along as a child; it is destroyed
    /// together with the star.
    pub has_trail: bool,
}

/// A controller connect or disconnect reported by the input substrate.
#[derive(Clone, Copy, PartialEq, Eq, Structural, Debug)]
pub struct ConnectionEvent {
    /// Numeric id of the controller.
    pub pad_id: u64,
    /// `true` for a connect, `false` for a disconnect (which is ignored).
    pub connected: bool,
}

/// A collision-start between two entities reported by the physics substrate.
#[derive(Clone, Copy, PartialEq, Eq, Structural, Debug)]
pub struct CollisionStart {
    pub a: u64,
    pub b: u64,
}

/// Per-player controller state sampled this tick, after the input substrate
/// has applied its dead zone.
#[derive(Clone, Copy, PartialEq, Eq, Structural, Debug)]
pub struct PlayerInput {
    /// Run axis in thousandths of full deflection, in `[-1000, 1000]`.
    pub axis_milli: i64,
    /// Whether the jump action was pressed this very tick.
    pub jump_just_pressed: bool,
}

/// The random draws one star spawn consumes.
#[derive(Clone, Copy, PartialEq, Eq, Structural, Debug)]
pub struct StarDraws {
    /// Next countdown duration, milliseconds.
    pub duration_ms: u64,
    /// Horizontal spawn position, thousandths of a pixel.
    pub x_mp: i64,
    /// Horizontal velocity, pixels per second.
    pub vx: i64,
    /// Vertical velocity, pixels per second.
    pub vy: i64,
    /// Spin, thousandths of a radian per second.
    pub spin_mrad: i64,
}

impl StarDraws {
    /// The ranges every spawn draw is taken from.
    pub open spec fn wf(self) -> bool {
        &&& SPAWN_MIN_MS <= self.duration_ms < SPAWN_MAX_MS
        &&& STAR_X_MIN_MP <= self.x_mp < STAR_X_MAX_MP
        &&& STAR_VX_MIN <= self.vx < STAR_VX_MAX
        &&& STAR_VY_MIN <= self.vy < STAR_VY_MAX
        &&& STAR_SPIN_MIN_MRAD <= self.spin_mrad < STAR_SPIN_MAX_MRAD
    }
}

/// The sound cues the game plays.
#[derive(Clone, Copy, PartialEq, Eq, Structural, Debug)]
pub enum SoundCue {
    /// Played when a star spawns.
    Bling,
    /// Played when a star is caught.
    Bom,
}

/// A side effect handed to the engine substrate to perform.
#[derive(Clone, Copy, PartialEq, Eq, Structural, Debug)]
pub enum Effect {
    /// Play a sound cue at the given volume (thousandths).
    Sound { cue: SoundCue, volume_milli: u64 },
    /// Spawn a particle poof at the given position.
    Poof { x_mp: i64, y_mp: i64 },
    /// Present the winner overlay for this player.
    Winner { player_id: u64 },
}

/// The shared game world: all live entities, the scoreboard and the spawn
/// countdown.
pub struct World {
    /// Next unused entity id; ids are never reused.
    pub next_entity: u64,
    pub players: Vec<Player>,
    pub stars: Vec<Star>,
    pub scoreboard: Scoreboard,
    pub timer: SpawnTimer,
}

/// Some live player carries this entity id.
pub open spec fn has_player(players: Seq<Player>, e: u64) -> bool {
    exists|i: int| 0 <= i < players.len() && #[trigger] players[i].entity == e
}

/// The index of the live player carrying this entity id.
pub open spec fn player_idx(players: Seq<Player>, e: u64) -> int {
    choose|i: int| 0 <= i < players.len() && #[trigger] players[i].entity == e
}

/// Some live star carries this entity id.
pub open spec fn has_star(stars: Seq<Star>, e: u64) -> bool {
    exists|i: int| 0 <= i < stars.len() && #[trigger] stars[i].entity == e
}

/// The index of the live star carrying this entity id.
pub open spec fn star_idx(stars: Seq<Star>, e: u64) -> int {
    choose|i: int| 0 <= i < stars.len() && #[trigger] stars[i].entity == e
}

/// The character for one decimal digit.
pub open spec fn digit_char(d: nat) -> char {
    if d == 0 {
        '0'
    } else if d == 1 {
        '1'
    } else if d == 2 {
        '2'
    } else if d == 3 {
        '3'
    } else if d == 4 {
        '4'
    } else if d == 5 {
        '5'
    } else if d == 6 {
        '6'
    } else if d == 7 {
        '7'
    } else if d == 8 {
        '8'
    } else {
        '9'
    }
}

/// The decimal digits of `n`, most significant first, with no leading zeros.
pub open spec fn decimal_digits(n: nat) -> Seq<char>
    decreases n,
{
    if n < 10 {
        seq![digit_char(n)]
    } else {
        decimal_digits(n / 10).push(digit_char(n % 10))
    }
}

/// The display name the join handler assigns to controller `id`.
pub open spec fn ferris_name(id: u64) -> Seq<char> {
    seq!['F', 'e', 'r', 'r', 'i', 's'] + decimal_digits(id as nat)
}

/// Relies on `format!` with `u64`'s `Display` implementation, which renders
/// the number as its decimal digits without sign, padding or leading zeros.
#[verifier::external_body]
fn render_name(id: u64) -> (r: String)
    ensures
        r@ == ferris_name(id),
{
    format!("Ferris{}", id)
}

/// The controller ids of the connect events in a batch, in order;
/// disconnect events are ignored.
pub open spec fn connect_ids(evs: Seq<ConnectionEvent>) -> Seq<u64>
    decreases evs.len(),
{
    if evs.len() == 0 {
        Seq::empty()
    } else {
        (if evs[0].connected {
            seq![evs[0].pad_id]
        } else {
            Seq::<u64>::empty()
        }) + connect_ids(evs.drop_first())
    }
}

/// The part of the world a batch of catch events acts on: the live stars,
/// the scoreboard rows, the winner flag, and the effects emitted so far.
pub ghost struct CatchState {
    pub stars: Seq<Star>,
    pub entries: Seq<Entry>,
    pub winner: Option<u64>,
    pub effects: Seq<Effect>,
}

/// Resolve a collision-start to the catching player's id and the caught
/// star's index, if the pair is exactly one live player and one live star,
/// in either order.
pub open spec fn resolve_catch(players: Seq<Player>, stars: Seq<Star>, ev: CollisionStart) -> Option<
    (u64, int),
> {
    if has_player(players, ev.a) && has_star(stars, ev.b) {
        Some((players[player_idx(players, ev.a)].id, star_idx(stars, ev.b)))
    } else if has_player(players, ev.b) && has_star(stars, ev.a) {
        Some((players[player_idx(players, ev.b)].id, star_idx(stars, ev.a)))
    } else {
        None
    }
}

/// What one collision-start does: nothing, unless it resolves to a live
/// player and a live star; then the catch cue plays, the player's score
/// rises by the catch award, the winner is declared if the new score
/// reaches the winning threshold and no winner stands yet, the star is
/// removed (with its trail), and a poof appears where it was.
pub open spec fn catch_step(players: Seq<Player>, st: CatchState, ev: CollisionStart) -> CatchState {
    match resolve_catch(players, st.stars, ev) {
        None => st,
        Some(r) => {
            let (pid, si) = r;
            if sb_has(st.entries, pid) {
                let ei = sb_idx(st.entries, pid);
                let e = st.entries[ei];
                let new_score = (e.score + CATCH_POINTS) as u64;
                let newly = new_score >= WIN_SCORE && st.winner is None;
                let star = st.stars[si];
                CatchState {
                    stars: st.stars.remove(si),
                    entries: st.entries.update(
                        ei,
                        (Entry {
                            id: e.id,
                            name: e.name,
                            color_index: e.color_index,
                            score: new_score,
                        }),
                    ),
                    winner: if newly {
                        Some(pid)
                    } else {
                        st.winner
                    },
                    effects: st.effects + seq![
                        (Effect::Sound { cue: SoundCue::Bom, volume_milli: CUE_VOLUME_MILLI }),
                    ] + (if newly {
                        seq![(Effect::Winner { player_id: pid })]
                    } else {
                        Seq::<Effect>::empty()
                    }) + seq![(Effect::Poof { x_mp: star.x_mp, y_mp: star.y_mp })],
                }
            } else {
                st
            }
        },
    }
}

/// A whole batch of collision-starts, drained in order.
pub open spec fn run_catches(
    players: Seq<Player>,
    st: CatchState,
    evs: Seq<CollisionStart>,
) -> CatchState
    decreases evs.len(),
{
    if evs.len() == 0 {
        st
    } else {
        run_catches(players, catch_step(players, st, evs[0]), evs.drop_first())
    }
}

/// How many winner presentations a batch of effects carries.
pub open spec fn winner_effects(effs: Seq<Effect>) -> int
    decreases effs.len(),
{
    if effs.len() == 0 {
        0
    } else {
        winner_effects(effs.drop_last()) + if effs.last() is Winner {
            1int
        } else {
            0int
        }
    }
}

/// Winner presentations add up over concatenated effect batches.
pub proof fn lemma_winner_effects_add(a: Seq<Effect>, b: Seq<Effect>)
    ensures
        winner_effects(a + b) == winner_effects(a) + winner_effects(b),
    decreases b.len(),
{
    if b.len() == 0 {
        assert(a + b =~= a);
    } else {
        lemma_winner_effects_add(a, b.drop_last());
        assert((a + b).drop_last() =~= a + b.drop_last());
        assert((a + b).last() == b.last());
    }
}

/// An entity that is neither a live star nor a live player — a star already
/// caught or cleaned up, say — resolves no catch: any collision-start that
/// names it leaves the world and the effects untouched. Once removed, a
/// star can never be caught.
pub proof fn lemma_absent_star_uncatchable(
    players: Seq<Player>,
    st: CatchState,
    ev: CollisionStart,
    e: u64,
)
    requires
        !has_star(st.stars, e),
        !has_player(players, e),
        ev.a == e || ev.b == e,
    ensures
        catch_step(players, st, ev) == st,
{
    assert(resolve_catch(players, st.stars, ev) is None);
}

/// One resolved catch scores exactly once and removes the star exactly
/// once: the catching player's score rises by exactly the catch award,
/// every other score is untouched, the star leaves the world and its id can
/// never resolve again; the winner is declared if and only if the new score
/// reaches the threshold while no winner stands.
pub proof fn lemma_catch_scores_once(players: Seq<Player>, st: CatchState, ev: CollisionStart)
    requires
        sb_wf(st.entries),
        forall|i: int, j: int|
            0 <= i < j < st.stars.len() ==> #[trigger] st.stars[i].entity
                != #[trigger] st.stars[j].entity,
        resolve_catch(players, st.stars, ev) is Some,
        sb_has(st.entries, resolve_catch(players, st.stars, ev).unwrap().0),
        sb_score(st.entries, resolve_catch(players, st.stars, ev).unwrap().0) + CATCH_POINTS
            <= u64::MAX,
    ensures
        ({
            let (pid, si) = resolve_catch(players, st.stars, ev).unwrap();
            let end = catch_step(players, st, ev);
            &&& sb_score(end.entries, pid) == sb_score(st.entries, pid) + CATCH_POINTS
            &&& forall|id2: u64|
                sb_has(st.entries, id2) && id2 != pid ==> sb_has(end.entries, id2)
                    && sb_score(end.entries, id2) == sb_score(st.entries, id2)
            &&& end.stars == st.stars.remove(si)
            &&& !has_star(end.stars, st.stars[si].entity)
            &&& end.winner == if sb_score(st.entries, pid) + CATCH_POINTS >= WIN_SCORE
                && st.winner is None {
                Some(pid)
            } else {
                st.winner
            }
        }),
{
    let (pid, si) = resolve_catch(players, st.stars, ev).unwrap();
    let end = catch_step(players, st, ev);
    let ei = sb_idx(st.entries, pid);
    assert(0 <= ei < st.entries.len() && st.entries[ei].id == pid);
    lemma_remove_star(st.stars, si);
    assert(end.entries[ei].id == pid);
    assert(sb_has(end.entries, pid));
    let w = sb_idx(end.entries, pid);
    assert(0 <= w < end.entries.len() && end.entries[w].id == pid);
    assert(forall|i: int|
        0 <= i < st.entries.len() ==> #[trigger] end.entries[i].id == st.entries[i].id);
    assert(sb_wf(end.entries));
    assert(w == ei);
    assert forall|id2: u64| sb_has(st.entries, id2) && id2 != pid implies sb_has(end.entries, id2)
        && sb_score(end.entries, id2) == sb_score(st.entries, id2) by {
        let w2 = sb_idx(st.entries, id2);
        assert(0 <= w2 < st.entries.len() && st.entries[w2].id == id2);
        assert(end.entries[w2].id == id2);
        assert(sb_has(end.entries, id2));
        let w3 = sb_idx(end.entries, id2);
        assert(0 <= w3 < end.entries.len() && end.entries[w3].id == id2);
        assert(w3 == w2);
        assert(w2 != ei);
    }
}

/// Scores never fall: over any batch of collision-starts, every scoreboard
/// row keeps its id and its score is monotonically non-decreasing. The
/// other systems' contracts leave the scoreboard rows untouched, so scores
/// are non-decreasing over a whole session.
pub proof fn lemma_catches_monotone(players: Seq<Player>, st: CatchState, evs: Seq<CollisionStart>)
    requires
        forall|i: int|
            0 <= i < st.entries.len() ==> #[trigger] st.entries[i].score + evs.len() * CATCH_POINTS
                <= u64::MAX,
    ensures
        ({
            let end = run_catches(players, st, evs);
            &&& end.entries.len() == st.entries.len()
            &&& forall|i: int|
                0 <= i < st.entries.len() ==> #[trigger] end.entries[i].id == st.entries[i].id
            &&& forall|i: int|
                0 <= i < st.entries.len() ==> #[trigger] end.entries[i].score
                    >= st.entries[i].score
        }),
    decreases evs.len(),
{
    if evs.len() > 0 {
        let mid = catch_step(players, st, evs[0]);
        assert(mid.entries.len() == st.entries.len());
        assert forall|i: int|
            0 <= i < mid.entries.len() implies #[trigger] mid.entries[i].score + (evs.len() - 1)
            * CATCH_POINTS <= u64::MAX && mid.entries[i].id == st.entries[i].id
            && mid.entries[i].score >= st.entries[i].score by {
            assert(st.entries[i].score + evs.len() * CATCH_POINTS <= u64::MAX);
        }
        lemma_catches_monotone(players, mid, evs.drop_first());
        assert(run_catches(players, st, evs) == run_catches(players, mid, evs.drop_first()));
    }
}

/// The winner presentation is one-shot: across a batch of catches, once a
/// winner stands it never changes, and the batch's effects carry a winner
/// presentation exactly when the batch is the one that first declared the
/// winner — so over a whole session the presentation is invoked exactly
/// once, at the catch whose score first reaches the threshold.
pub proof fn lemma_winner_once(players: Seq<Player>, st: CatchState, evs: Seq<CollisionStart>)
    requires
        winner_effects(st.effects) == if st.winner is Some {
            1int
        } else {
            0int
        },
    ensures
        ({
            let end = run_catches(players, st, evs);
            &&& winner_effects(end.effects) == if end.winner is Some {
                1int
            } else {
                0int
            }
            &&& (st.winner is Some ==> end.winner == st.winner)
        }),
    decreases evs.len(),
{
    if evs.len() > 0 {
        let mid = catch_step(players, st, evs[0]);
        assert(winner_effects(mid.effects) == if mid.winner is Some {
            1int
        } else {
            0int
        } && (st.winner is Some ==> mid.winner == st.winner)) by {
            match resolve_catch(players, st.stars, evs[0]) {
                None => {},
                Some(r) => {
                    reveal_with_fuel(winner_effects, 2);
                    let (pid, si) = r;
                    if sb_has(st.entries, pid) {
                        let ei = sb_idx(st.entries, pid);
                        let e = st.entries[ei];
                        let new_score = (e.score + CATCH_POINTS) as u64;
                        let newly = new_score >= WIN_SCORE && st.winner is None;
                        let star = st.stars[si];
                        let snd = seq![
                            (Effect::Sound { cue: SoundCue::Bom, volume_milli: CUE_VOLUME_MILLI }),
                        ];
                        let win = if newly {
                            seq![(Effect::Winner { player_id: pid })]
                        } else {
                            Seq::<Effect>::empty()
                        };
                        let poof = seq![(Effect::Poof { x_mp: star.x_mp, y_mp: star.y_mp })];
                        lemma_winner_effects_add(st.effects, snd);
                        lemma_winner_effects_add(st.effects + snd, win);
                        lemma_winner_effects_add(st.effects + snd + win, poof);
                        assert(winner_effects(snd) == 0) by {
                            assert(snd.drop_last() =~= Seq::<Effect>::empty());
                        }
                        assert(winner_effects(poof) == 0) by {
                            assert(poof.drop_last() =~= Seq::<Effect>::empty());
                        }
                        if newly {
                            assert(winner_effects(win) == 1) by {
                                assert(win.drop_last() =~= Seq::<Effect>::empty());
                            }
                        }
                    }
                },
            }
        }
        lemma_winner_once(players, mid, evs.drop_first());
        assert(run_catches(players, st, evs) == run_catches(players, mid, evs.drop_first()));
    }
}

/// Removing one star keeps the remaining entity ids unique, introduces no
/// id, and makes the removed star's id absent.
pub proof fn lemma_remove_star(s: Seq<Star>, si: int)
    requires
        0 <= si < s.len(),
        forall|i: int, j: int|
            0 <= i < j < s.len() ==> #[trigger] s[i].entity != #[trigger] s[j].entity,
    ensures
        forall|i: int, j: int|
            0 <= i < j < s.remove(si).len() ==> #[trigger] s.remove(si)[i].entity
                != #[trigger] s.remove(si)[j].entity,
        forall|e: u64| has_star(s.remove(si), e) ==> has_star(s, e),
        !has_star(s.remove(si), s[si].entity),
{
    let t = s.remove(si);
    assert forall|i: int, j: int|
        0 <= i < j < t.len() implies #[trigger] t[i].entity != #[trigger] t[j].entity by {
        let i0 = if i < si { i } else { i + 1 };
        let j0 = if j < si { j } else { j + 1 };
        assert(t[i] == s[i0] && t[j] == s[j0]);
    }
    assert forall|e: u64| has_star(t, e) implies has_star(s, e) by {
        let i = choose|i: int| 0 <= i < t.len() && #[trigger] t[i].entity == e;
        let i0 = if i < si { i } else { i + 1 };
        assert(s[i0].entity == e);
    }
    assert(!has_star(t, s[si].entity)) by {
        if has_star(t, s[si].entity) {
            let i = choose|i: int| 0 <= i < t.len() && #[trigger] t[i].entity == s[si].entity;
            let i0 = if i < si { i } else { i + 1 };
            assert(s[i0].entity == s[si].entity);
            if i0 < si {
                assert(s[i0].entity != s[si].entity);
            } else {
                assert(s[si].entity != s[i0].entity);
            }
        }
    }
}

/// The stars a cleanup pass keeps: those at or above the cleanup line, in
/// their original order.
pub open spec fn surviving_stars(s: Seq<Star>) -> Seq<Star>
    decreases s.len(),
{
    if s.len() == 0 {
        s
    } else {
        let rest = surviving_stars(s.drop_last());
        if s.last().y_mp >= CLEANUP_Y_MP {
            rest.push(s.last())
        } else {
            rest
        }
    }
}

/// Every entity id found after a cleanup pass was there before it.
pub proof fn lemma_surviving_entities(s: Seq<Star>)
    ensures
        forall|e: u64| has_star(surviving_stars(s), e) ==> has_star(s, e),
    decreases s.len(),
{
    if s.len() > 0 {
        lemma_surviving_entities(s.drop_last());
        let out = surviving_stars(s);
        let rest = surviving_stars(s.drop_last());
        assert(out == if s.last().y_mp >= CLEANUP_Y_MP {
            rest.push(s.last())
        } else {
            rest
        });
        assert forall|e: u64| has_star(out, e) implies has_star(s, e) by {
            let j = choose|j: int| 0 <= j < out.len() && #[trigger] out[j].entity == e;
            if s.last().y_mp >= CLEANUP_Y_MP && j == out.len() - 1 {
                assert(out[j] == s.last());
                assert(s[s.len() - 1].entity == e);
            } else {
                assert(out[j] == rest[j]);
                assert(rest[j].entity == e);
                assert(has_star(rest, e));
                assert(has_star(s.drop_last(), e));
                let i = choose|i: int|
                    0 <= i < s.drop_last().len() && #[trigger] s.drop_last()[i].entity == e;
                assert(s[i].entity == e);
            }
        }
    }
}

/// A cleanup pass keeps every star at or above the line, and only stars at
/// or above the line.
pub proof fn lemma_surviving_membership(s: Seq<Star>)
    ensures
        forall|j: int|
            0 <= j < surviving_stars(s).len() ==> #[trigger] surviving_stars(s)[j].y_mp
                >= CLEANUP_Y_MP,
        forall|i: int|
            0 <= i < s.len() && #[trigger] s[i].y_mp >= CLEANUP_Y_MP ==> has_star(
                surviving_stars(s),
                s[i].entity,
            ),
    decreases s.len(),
{
    if s.len() > 0 {
        lemma_surviving_membership(s.drop_last());
        let out = surviving_stars(s);
        let rest = surviving_stars(s.drop_last());
        assert forall|i: int|
            0 <= i < s.len() && #[trigger] s[i].y_mp >= CLEANUP_Y_MP implies has_star(
            out,
            s[i].entity,
        ) by {
            if i == s.len() - 1 {
                assert(out[out.len() - 1].entity == s[i].entity);
            } else {
                assert(s.drop_last()[i] == s[i]);
                assert(has_star(rest, s[i].entity));
                let j = choose|j: int|
                    0 <= j < rest.len() && #[trigger] rest[j].entity == s[i].entity;
                assert(out[j].entity == s[i].entity);
            }
        }
    }
}

/// A cleanup pass keeps entity ids unique.
pub proof fn lemma_surviving_unique(s: Seq<Star>)
    requires
        forall|i: int, j: int|
            0 <= i < j < s.len() ==> #[trigger] s[i].entity != #[trigger] s[j].entity,
    ensures
        forall|i: int, j: int|
            0 <= i < j < surviving_stars(s).len() ==> #[trigger] surviving_stars(s)[i].entity
                != #[trigger] surviving_stars(s)[j].entity,
    decreases s.len(),
{
    if s.len() > 0 {
        assert(forall|i: int, j: int|
            0 <= i < j < s.drop_last().len() ==> #[trigger] s.drop_last()[i].entity
                != #[trigger] s.drop_last()[j].entity);
        lemma_surviving_unique(s.drop_last());
        lemma_surviving_entities(s.drop_last());
        let out = surviving_stars(s);
        let rest = surviving_stars(s.drop_last());
        if s.last().y_mp >= CLEANUP_Y_MP {
            assert(!has_star(s.drop_last(), s.last().entity)) by {
                if has_star(s.drop_last(), s.last().entity) {
                    let i = choose|i: int|
                        0 <= i < s.drop_last().len() && #[trigger] s.drop_last()[i].entity
                            == s.last().entity;
                    assert(s[i].entity == s[s.len() - 1].entity);
                }
            }
            assert forall|i: int, j: int|
                0 <= i < j < out.len() implies #[trigger] out[i].entity
                != #[trigger] out[j].entity by {
                if j == out.len() - 1 {
                    assert(out[i] == rest[i]);
                    assert(rest[i].entity == rest[i].entity);
                    if out[i].entity == s.last().entity {
                        assert(has_star(rest, s.last().entity));
                    }
                }
            }
        }
    }
}

impl World {
    /// Well-formedness of the world: entity ids are unique and below the
    /// allocation cursor, player ids are unique, and every player has a
    /// scoreboard row.
    pub open spec fn wf(self) -> bool {
        &&& sb_wf(self.scoreboard.entries@)
        &&& forall|i: int, j: int|
            0 <= i < j < self.players@.len() ==> #[trigger] self.players@[i].entity
                != #[trigger] self.players@[j].entity
        &&& forall|i: int, j: int|
            0 <= i < j < self.players@.len() ==> #[trigger] self.players@[i].id
                != #[trigger] self.players@[j].id
        &&& forall|i: int, j: int|
            0 <= i < j < self.stars@.len() ==> #[trigger] self.stars@[i].entity
                != #[trigger] self.stars@[j].entity
        &&& forall|i: int, j: int|
            0 <= i < self.players@.len() && 0 <= j < self.stars@.len()
                ==> #[trigger] self.players@[i].entity != #[trigger] self.stars@[j].entity
        &&& forall|i: int|
            0 <= i < self.players@.len() ==> #[trigger] self.players@[i].entity
                < self.next_entity
        &&& forall|i: int|
            0 <= i < self.stars@.len() ==> #[trigger] self.stars@[i].entity < self.next_entity
        &&& forall|i: int|
            0 <= i < self.players@.len() ==> sb_has(
                self.scoreboard.entries@,
                #[trigger] self.players@[i].id,
            )
    }

    /// An empty session: no entities, no scores, no winner, and a spawn
    /// countdown that fires on the first tick.
    pub fn new() -> (r: World)
        ensures
            r.next_entity == 0,
            r.players@ =~= Seq::<Player>::empty(),
            r.stars@ =~= Seq::<Star>::empty(),
            r.scoreboard.entries@ =~= Seq::<Entry>::empty(),
            r.scoreboard.winner is None,
            r.timer.remaining_ms == 0,
            r.wf(),
    {
        World {
            next_entity: 0,
            players: Vec::new(),
            stars: Vec::new(),
            scoreboard: Scoreboard::new(),
            timer: SpawnTimer::new(),
        }
    }

    /// Create one star from the given draws: it appears at the top of the
    /// screen with the drawn position, velocity and spin, riding a trail
    /// effect, and the countdown is re-armed with the drawn duration.
    pub fn spawn_star_with(&mut self, draws: StarDraws)
        requires
            old(self).wf(),
            draws.wf(),
            old(self).next_entity < u64::MAX,
        ensures
            final(self).stars@ == old(self).stars@.push(
                (Star {
                    entity: old(self).next_entity,
                    x_mp: draws.x_mp,
                    y_mp: STAR_SPAWN_Y_MP,
                    vx: draws.vx,
                    vy: draws.vy,
                    spin_mrad: draws.spin_mrad,
                    has_trail: true,
                }),
            ),
            final(self).next_entity == old(self).next_entity + 1,
            final(self).timer.remaining_ms == draws.duration_ms,
            final(self).players@ == old(self).players@,
            final(self).scoreboard.entries@ == old(self).scoreboard.entries@,
            final(self).scoreboard.winner == old(self).scoreboard.winner,
            final(self).wf(),
    {
        self.timer.arm(draws.duration_ms);
        let star = Star {
            entity: self.next_entity,
            x_mp: draws.x_mp,
            y_mp: STAR_SPAWN_Y_MP,
            vx: draws.vx,
            vy: draws.vy,
            spin_mrad: draws.spin_mrad,
            has_trail: true,
        };
        self.stars.push(star);
        self.next_entity = self.next_entity + 1;
        proof {
            assert(forall|i: int|
                0 <= i < old(self).stars@.len() ==> #[trigger] self.stars@[i]
                    == old(self).stars@[i]);
        }
    }

    /// Advance the spawn countdown by the elapsed frame time; if it fired,
    /// draw a fresh cadence and a fresh position, velocity and spin, spawn
    /// the star and play the spawn cue. Returns whether a star was spawned
    /// and the effects to perform.
    pub fn spawn_star(&mut self, delta_ms: u64) -> (r: (bool, Vec<Effect>))
        requires
            old(self).wf(),
            old(self).next_entity < u64::MAX,
        ensures
            r.0 == (delta_ms >= old(self).timer.remaining_ms),
            old(self).timer.remaining_ms == 0 ==> r.0,
            !r.0 ==> {
                &&& final(self).stars@ == old(self).stars@
                &&& final(self).next_entity == old(self).next_entity
                &&& final(self).timer.remaining_ms == old(self).timer.remaining_ms - delta_ms
                &&& r.1@ =~= Seq::<Effect>::empty()
            },
            r.0 ==> {
                &&& final(self).stars@.len() == old(self).stars@.len() + 1
                &&& forall|i: int|
                    0 <= i < old(self).stars@.len() ==> #[trigger] final(self).stars@[i]
                        == old(self).stars@[i]
                &&& {
                    let s = final(self).stars@.last();
                    &&& s.entity == old(self).next_entity
                    &&& s.y_mp == STAR_SPAWN_Y_MP
                    &&& STAR_X_MIN_MP <= s.x_mp < STAR_X_MAX_MP
                    &&& STAR_VX_MIN <= s.vx < STAR_VX_MAX
                    &&& STAR_VY_MIN <= s.vy < STAR_VY_MAX
                    &&& STAR_SPIN_MIN_MRAD <= s.spin_mrad < STAR_SPIN_MAX_MRAD
                    &&& s.has_trail
                }
                &&& final(self).next_entity == old(self).next_entity + 1
                &&& SPAWN_MIN_MS <= final(self).timer.remaining_ms < SPAWN_MAX_MS
                &&& r.1@ =~= seq![
                    (Effect::Sound { cue: SoundCue::Bling, volume_milli: CUE_VOLUME_MILLI }),
                ]
            },
            final(self).players@ == old(self).players@,
            final(self).scoreboard.entries@ == old(self).scoreboard.entries@,
            final(self).scoreboard.winner == old(self).scoreboard.winner,
            final(self).wf(),
    {
        let fired = self.timer.advance(delta_ms);
        let mut effects: Vec<Effect> = Vec::new();
        if fired {
            let duration = draw_range(SPAWN_MIN_MS as i64, SPAWN_MAX_MS as i64);
            let draws = StarDraws {
                duration_ms: duration as u64,
                x_mp: draw_range(STAR_X_MIN_MP, STAR_X_MAX_MP),
                vx: draw_range(STAR_VX_MIN, STAR_VX_MAX),
                vy: draw_range(STAR_VY_MIN, STAR_VY_MAX),
                spin_mrad: draw_range(STAR_SPIN_MIN_MRAD, STAR_SPIN_MAX_MRAD),
            };
            effects.push(Effect::Sound { cue: SoundCue::Bling, volume_milli: CUE_VOLUME_MILLI });
            self.spawn_star_with(draws);
        }
        (fired, effects)
    }

    /// Remove every star that has fallen below the cleanup line, together
    /// with its trail child (recursive destruction); all other stars keep
    /// their order. This bounds entity growth for stars nobody catches.
    pub fn cleanup_star(&mut self)
        requires
            old(self).wf(),
        ensures
            final(self).stars@ == surviving_stars(old(self).stars@),
            forall|j: int|
                0 <= j < final(self).stars@.len() ==> #[trigger] final(self).stars@[j].y_mp
                    >= CLEANUP_Y_MP,
            forall|i: int|
                0 <= i < old(self).stars@.len() && #[trigger] old(self).stars@[i].y_mp
                    >= CLEANUP_Y_MP ==> has_star(final(self).stars@, old(self).stars@[i].entity),
            forall|e: u64| has_star(final(self).stars@, e) ==> has_star(old(self).stars@, e),
            final(self).players@ == old(self).players@,
            final(self).next_entity == old(self).next_entity,
            final(self).scoreboard.entries@ == old(self).scoreboard.entries@,
            final(self).scoreboard.winner == old(self).scoreboard.winner,
            final(self).timer == old(self).timer,
            final(self).wf(),
    {
        let ghost s0 = self.stars@;
        let n = self.stars.len();
        let mut kept: Vec<Star> = Vec::new();
        let mut k: usize = 0;
        while k < n
            invariant
                s0 == old(self).stars@,
                self.stars@ == s0,
                n == s0.len(),
                k <= n,
                kept@ == surviving_stars(s0.subrange(0, k as int)),
            decreases n - k,
        {
            let ghost pre = s0.subrange(0, k as int);
            let ghost cur = s0.subrange(0, k as int + 1);
            let star = self.stars[k];
            if star.y_mp >= CLEANUP_Y_MP {
                kept.push(star);
            }
            proof {
                assert(cur.drop_last() =~= pre);
                assert(cur.last() == s0[k as int]);
                assert(surviving_stars(cur) == if s0[k as int].y_mp >= CLEANUP_Y_MP {
                    surviving_stars(pre).push(s0[k as int])
                } else {
                    surviving_stars(pre)
                });
            }
            k = k + 1;
        }
        proof {
            assert(s0.subrange(0, n as int) =~= s0);
        }
        self.stars = kept;
        proof {
            lemma_surviving_entities(s0);
            lemma_surviving_membership(s0);
            lemma_surviving_unique(s0);
            assert(self.stars@ == surviving_stars(s0));
            assert forall|p: int, j: int|
                0 <= p < self.players@.len() && 0 <= j < self.stars@.len()
                    implies #[trigger] self.players@[p].entity
                != #[trigger] self.stars@[j].entity by {
                let e = self.stars@[j].entity;
                assert(has_star(surviving_stars(s0), e));
                assert(has_star(s0, e));
                let i = choose|i: int| 0 <= i < s0.len() && #[trigger] s0[i].entity == e;
                assert(old(self).players@[p].entity != s0[i].entity);
            }
            assert forall|j: int|
                0 <= j < self.stars@.len() implies #[trigger] self.stars@[j].entity
                < self.next_entity by {
                let e = self.stars@[j].entity;
                assert(has_star(surviving_stars(s0), e));
                assert(has_star(s0, e));
                let i = choose|i: int| 0 <= i < s0.len() && #[trigger] s0[i].entity == e;
                assert(s0[i].entity < old(self).next_entity);
            }
        }
    }

    /// Apply one tick of controller input, one entry per live player in
    /// order: the run axis drives the horizontal force proportionally, and a
    /// jump pressed this tick sets the vertical velocity — but only while
    /// the player is below the ground gate; airborne jump requests leave the
    /// velocity untouched.
    pub fn movement(&mut self, inputs: &Vec<PlayerInput>)
        requires
            old(self).wf(),
            inputs@.len() == old(self).players@.len(),
        ensures
            final(self).players@.len() == old(self).players@.len(),
            forall|i: int|
                0 <= i < old(self).players@.len() ==> {
                    let p = old(self).players@[i];
                    let q = #[trigger] final(self).players@[i];
                    let inp = inputs@[i];
                    &&& q.id == p.id
                    &&& q.entity == p.entity
                    &&& q.x_mp == p.x_mp
                    &&& q.y_mp == p.y_mp
                    &&& q.vx == p.vx
                    &&& q.force_x == inp.axis_milli
                    &&& q.vy == if inp.jump_just_pressed && p.y_mp < JUMP_GATE_Y_MP {
                        JUMP_VY
                    } else {
                        p.vy
                    }
                },
            final(self).stars@ == old(self).stars@,
            final(self).next_entity == old(self).next_entity,
            final(self).scoreboard.entries@ == old(self).scoreboard.entries@,
            final(self).scoreboard.winner == old(self).scoreboard.winner,
            final(self).timer == old(self).timer,
            final(self).wf(),
    {
        let n = self.players.len();
        let mut k: usize = 0;
        while k < n
            invariant
                old(self).wf(),
                inputs@.len() == old(self).players@.len(),
                n == old(self).players@.len(),
                k <= n,
                self.players@.len() == n,
                forall|i: int|
                    k <= i < n ==> #[trigger] self.players@[i] == old(self).players@[i],
                forall|i: int|
                    0 <= i < k ==> {
                        let p = old(self).players@[i];
                        let q = #[trigger] self.players@[i];
                        let inp = inputs@[i];
                        &&& q.id == p.id
                        &&& q.entity == p.entity
                        &&& q.x_mp == p.x_mp
                        &&& q.y_mp == p.y_mp
                        &&& q.vx == p.vx
                        &&& q.force_x == inp.axis_milli
                        &&& q.vy == if inp.jump_just_pressed && p.y_mp < JUMP_GATE_Y_MP {
                            JUMP_VY
                        } else {
                            p.vy
                        }
                    },
                self.stars@ == old(self).stars@,
                self.next_entity == old(self).next_entity,
                self.scoreboard.entries@ == old(self).scoreboard.entries@,
                self.scoreboard.winner == old(self).scoreboard.winner,
                self.timer == old(self).timer,
            decreases n - k,
        {
            let inp = inputs[k];
            let mut p = self.players[k];
            p.force_x = inp.axis_milli;
            if inp.jump_just_pressed && p.y_mp < JUMP_GATE_Y_MP {
                p.vy = JUMP_VY;
            }
            self.players[k] = p;
            k = k + 1;
        }
        proof {
            assert(forall|i: int|
                0 <= i < self.players@.len() ==> #[trigger] self.players@[i].entity
                    == old(self).players@[i].entity);
            assert(forall|i: int|
                0 <= i < self.players@.len() ==> #[trigger] self.players@[i].id
                    == old(self).players@[i].id);
        }
    }

    /// Handle the controller connection events gathered since the last
    /// tick, in order. Disconnects are ignored. Each connect registers the
    /// controller on the scoreboard — canonical name, colour derived from
    /// the controller id, score 0 — and spawns a player at a drawn
    /// horizontal position on the ground line, at rest. The engine binds
    /// the controller's primary button to Jump and its horizontal axis
    /// (with a symmetric dead zone) to Run for exactly this player.
    pub fn join(&mut self, events: &Vec<ConnectionEvent>)
        requires
            old(self).wf(),
            forall|i: int, j: int|
                0 <= i < j < connect_ids(events@).len() ==> #[trigger] connect_ids(events@)[i]
                    != #[trigger] connect_ids(events@)[j],
            forall|j: int|
                0 <= j < connect_ids(events@).len() ==> !sb_has(
                    old(self).scoreboard.entries@,
                    #[trigger] connect_ids(events@)[j],
                ),
            old(self).next_entity + connect_ids(events@).len() <= u64::MAX,
        ensures
            ({
                let cn = connect_ids(events@);
                let op = old(self).players@;
                let oe = old(self).scoreboard.entries@;
                &&& final(self).players@.len() == op.len() + cn.len()
                &&& forall|i: int| 0 <= i < op.len() ==> #[trigger] final(self).players@[i] == op[i]
                &&& forall|i: int|
                    op.len() <= i < final(self).players@.len() ==> {
                        let q = #[trigger] final(self).players@[i];
                        &&& q.id == cn[i - op.len()]
                        &&& q.entity == old(self).next_entity + (i - op.len())
                        &&& q.y_mp == PLAYER_SPAWN_Y_MP
                        &&& PLAYER_X_MIN_MP <= q.x_mp < PLAYER_X_MAX_MP
                        &&& q.vx == 0
                        &&& q.vy == 0
                        &&& q.force_x == 0
                    }
                &&& final(self).next_entity == old(self).next_entity + cn.len()
                &&& final(self).scoreboard.entries@.len() == oe.len() + cn.len()
                &&& forall|i: int|
                    0 <= i < oe.len() ==> #[trigger] final(self).scoreboard.entries@[i] == oe[i]
                &&& forall|i: int|
                    oe.len() <= i < final(self).scoreboard.entries@.len() ==> {
                        let r = #[trigger] final(self).scoreboard.entries@[i];
                        &&& r.id == cn[i - oe.len()]
                        &&& r.name@ == ferris_name(cn[i - oe.len()])
                        &&& r.color_index == cn[i - oe.len()]
                        &&& r.score == 0
                    }
            }),
            final(self).stars@ == old(self).stars@,
            final(self).scoreboard.winner == old(self).scoreboard.winner,
            final(self).timer == old(self).timer,
            final(self).wf(),
    {
        let ghost evs = events@;
        let ghost cn = connect_ids(evs);
        let ghost op = old(self).players@;
        let ghost oe = old(self).scoreboard.entries@;
        let ghost on = old(self).next_entity;
        let ghost mut done: Seq<u64> = Seq::empty();
        proof {
            assert(evs.skip(0) =~= evs);
            assert(done + connect_ids(evs.skip(0)) =~= cn);
        }
        let n = events.len();
        let mut k: usize = 0;
        while k < n
            invariant
                old(self).wf(),
                evs == events@,
                cn == connect_ids(evs),
                op == old(self).players@,
                oe == old(self).scoreboard.entries@,
                on == old(self).next_entity,
                forall|i: int, j: int|
                    0 <= i < j < cn.len() ==> #[trigger] cn[i] != #[trigger] cn[j],
                forall|j: int| 0 <= j < cn.len() ==> !sb_has(oe, #[trigger] cn[j]),
                on + cn.len() <= u64::MAX,
                n == evs.len(),
                k <= n,
                cn == done + connect_ids(evs.skip(k as int)),
                self.players@.len() == op.len() + done.len(),
                forall|i: int| 0 <= i < op.len() ==> #[trigger] self.players@[i] == op[i],
                forall|j: int|
                    0 <= j < done.len() ==> {
                        let q = #[trigger] self.players@[op.len() + j];
                        &&& q.id == done[j]
                        &&& q.entity == on + j
                        &&& q.y_mp == PLAYER_SPAWN_Y_MP
                        &&& PLAYER_X_MIN_MP <= q.x_mp < PLAYER_X_MAX_MP
                        &&& q.vx == 0
                        &&& q.vy == 0
                        &&& q.force_x == 0
                    },
                self.next_entity == on + done.len(),
                self.scoreboard.entries@.len() == oe.len() + done.len(),
                forall|i: int| 0 <= i < oe.len() ==> #[trigger] self.scoreboard.entries@[i] == oe[i],
                forall|j: int|
                    0 <= j < done.len() ==> {
                        let r = #[trigger] self.scoreboard.entries@[oe.len() + j];
                        &&& r.id == done[j]
                        &&& r.name@ == ferris_name(done[j])
                        &&& r.color_index == done[j]
                        &&& r.score == 0
                    },
                forall|e: u64|
                    #[trigger] sb_has(self.scoreboard.entries@, e) <==> (sb_has(oe, e)
                        || done.contains(e)),
                sb_wf(self.scoreboard.entries@),
                self.stars@ == old(self).stars@,
                self.scoreboard.winner == old(self).scoreboard.winner,
                self.timer == old(self).timer,
            decreases n - k,
        {
            proof {
                assert(evs.skip(k as int)[0] == evs[k as int]);
                assert(evs.skip(k as int).drop_first() =~= evs.skip(k as int + 1));
            }
            let ev = events[k];
            if ev.connected {
                proof {
                    assert(connect_ids(evs.skip(k as int)) == seq![ev.pad_id] + connect_ids(
                        evs.skip(k as int + 1),
                    ));
                    assert(cn[done.len() as int] == ev.pad_id);
                    assert(done.len() < cn.len());
                    assert(forall|j: int| 0 <= j < done.len() ==> #[trigger] done[j] == cn[j]);
                    assert(!done.contains(ev.pad_id)) by {
                        if done.contains(ev.pad_id) {
                            let j = choose|j: int|
                                0 <= j < done.len() && #[trigger] done[j] == ev.pad_id;
                            assert(cn[j] == cn[done.len() as int]);
                        }
                    }
                    assert(!sb_has(oe, ev.pad_id));
                    assert(!sb_has(self.scoreboard.entries@, ev.pad_id));
                }
                let ghost pe = self.scoreboard.entries@;
                let x = draw_range(PLAYER_X_MIN_MP, PLAYER_X_MAX_MP);
                let name = render_name(ev.pad_id);
                self.scoreboard.add_player(ev.pad_id, name, ev.pad_id);
                let p = Player {
                    id: ev.pad_id,
                    entity: self.next_entity,
                    x_mp: x,
                    y_mp: PLAYER_SPAWN_Y_MP,
                    vx: 0,
                    vy: 0,
                    force_x: 0,
                };
                self.players.push(p);
                self.next_entity = self.next_entity + 1;
                proof {
                    let pre = done;
                    done = done.push(ev.pad_id);
                    assert(cn == done + connect_ids(evs.skip(k as int + 1))) by {
                        assert(cn == pre + (seq![ev.pad_id] + connect_ids(evs.skip(k as int + 1))));
                        assert(pre + (seq![ev.pad_id] + connect_ids(evs.skip(k as int + 1)))
                            =~= done + connect_ids(evs.skip(k as int + 1)));
                    }
                    let es = self.scoreboard.entries@;
                    assert(es.len() == pe.len() + 1);
                    assert(es[pe.len() as int].id == ev.pad_id);
                    assert forall|e: u64|
                        #[trigger] sb_has(es, e) <==> (sb_has(oe, e) || done.contains(e)) by {
                        if sb_has(es, e) {
                            let i = choose|i: int| 0 <= i < es.len() && #[trigger] es[i].id == e;
                            if i < pe.len() {
                                assert(pe[i].id == e);
                                assert(sb_has(pe, e));
                            } else {
                                assert(e == ev.pad_id);
                                assert(done[pre.len() as int] == e);
                                assert(done.contains(e));
                            }
                        }
                        if sb_has(oe, e) {
                            assert(sb_has(pe, e));
                            let i = choose|i: int| 0 <= i < pe.len() && #[trigger] pe[i].id == e;
                            assert(es[i].id == e);
                            assert(sb_has(es, e));
                        }
                        if done.contains(e) {
                            let j = choose|j: int| 0 <= j < done.len() && done[j] == e;
                            if j < pre.len() {
                                assert(pre[j] == e);
                                assert(pre.contains(e));
                                assert(sb_has(pe, e));
                                let i = choose|i: int|
                                    0 <= i < pe.len() && #[trigger] pe[i].id == e;
                                assert(es[i].id == e);
                                assert(sb_has(es, e));
                            } else {
                                assert(e == ev.pad_id);
                                assert(sb_has(es, e));
                            }
                        }
                    }
                }
            } else {
                proof {
                    assert(connect_ids(evs.skip(k as int)) == connect_ids(evs.skip(k as int + 1)));
                }
            }
            k = k + 1;
        }
        proof {
            assert(evs.skip(n as int) =~= Seq::<ConnectionEvent>::empty());
            assert(connect_ids(evs.skip(n as int)) =~= Seq::<u64>::empty());
            assert(cn =~= done);
            assert(cn == done);
        }
        proof {
            assert forall|i: int, j: int|
                0 <= i < j < self.players@.len() implies #[trigger] self.players@[i].entity
                != #[trigger] self.players@[j].entity by {
                if op.len() <= i {
                    let ii = i - op.len();
                    assert(self.players@[op.len() + ii].entity == on + ii);
                }
                if op.len() <= j {
                    let jj = j - op.len();
                    assert(self.players@[op.len() + jj].entity == on + jj);
                }
                if i < op.len() {
                    assert(self.players@[i] == op[i]);
                    assert(op[i].entity < on);
                }
            }
            assert forall|i: int, j: int|
                0 <= i < j < self.players@.len() implies #[trigger] self.players@[i].id
                != #[trigger] self.players@[j].id by {
                if op.len() <= i {
                    let ii = i - op.len();
                    assert(self.players@[op.len() + ii].id == done[ii]);
                    assert(done[ii] == cn[ii]);
                }
                if op.len() <= j {
                    let jj = j - op.len();
                    assert(self.players@[op.len() + jj].id == done[jj]);
                    assert(done[jj] == cn[jj]);
                }
                if i < op.len() {
                    assert(self.players@[i] == op[i]);
                    assert(sb_has(oe, op[i].id));
                    if op.len() <= j {
                        assert(!sb_has(oe, cn[j - op.len()]));
                    }
                }
            }
            assert forall|i: int, j: int|
                0 <= i < self.players@.len() && 0 <= j < self.stars@.len()
                    implies #[trigger] self.players@[i].entity
                != #[trigger] self.stars@[j].entity by {
                assert(self.stars@[j] == old(self).stars@[j]);
                assert(self.stars@[j].entity < on);
                if op.len() <= i {
                    let ii = i - op.len();
                    assert(self.players@[op.len() + ii].entity == on + ii);
                } else {
                    assert(self.players@[i] == op[i]);
                }
            }
            assert forall|i: int|
                0 <= i < self.players@.len() implies #[trigger] self.players@[i].entity
                < self.next_entity by {
                if op.len() <= i {
                    let ii = i - op.len();
                    assert(self.players@[op.len() + ii].entity == on + ii);
                } else {
                    assert(self.players@[i] == op[i]);
                    assert(op[i].entity < on);
                }
            }
            assert forall|j: int|
                0 <= j < self.stars@.len() implies #[trigger] self.stars@[j].entity
                < self.next_entity by {
                assert(self.stars@[j] == old(self).stars@[j]);
                assert(old(self).stars@[j].entity < on);
            }
            assert forall|i: int|
                0 <= i < self.players@.len() implies sb_has(
                self.scoreboard.entries@,
                #[trigger] self.players@[i].id,
            ) by {
                if i < op.len() {
                    assert(self.players@[i] == op[i]);
                    assert(sb_has(oe, op[i].id));
                } else {
                    let ii = i - op.len();
                    assert(self.players@[op.len() + ii].id == done[ii]);
                    assert(self.scoreboard.entries@[oe.len() + ii].id == done[ii]);
                }
            }
            assert forall|i: int|
                op.len() <= i < self.players@.len() implies {
                let q = #[trigger] self.players@[i];
                &&& q.id == cn[i - op.len()]
                &&& q.entity == on + (i - op.len())
                &&& q.y_mp == PLAYER_SPAWN_Y_MP
                &&& PLAYER_X_MIN_MP <= q.x_mp < PLAYER_X_MAX_MP
                &&& q.vx == 0
                &&& q.vy == 0
                &&& q.force_x == 0
            } by {
                let j = i - op.len();
                assert(self.players@[op.len() + j].id == done[j]);
                assert(self.players@[op.len() + j].entity == on + j);
                assert(self.players@[op.len() + j].y_mp == PLAYER_SPAWN_Y_MP);
                assert(PLAYER_X_MIN_MP <= self.players@[op.len() + j].x_mp < PLAYER_X_MAX_MP);
                assert(self.players@[op.len() + j].vx == 0);
                assert(self.players@[op.len() + j].vy == 0);
                assert(self.players@[op.len() + j].force_x == 0);
            }
            assert forall|i: int|
                oe.len() <= i < self.scoreboard.entries@.len() implies {
                let r = #[trigger] self.scoreboard.entries@[i];
                &&& r.id == cn[i - oe.len()]
                &&& r.name@ == ferris_name(cn[i - oe.len()])
                &&& r.color_index == cn[i - oe.len()]
                &&& r.score == 0
            } by {
                let j = i - oe.len();
                assert(self.scoreboard.entries@[oe.len() + j].id == done[j]);
                assert(self.scoreboard.entries@[oe.len() + j].name@
                    == ferris_name(done[j]));
                assert(self.scoreboard.entries@[oe.len() + j].color_index == done[j]);
                assert(self.scoreboard.entries@[oe.len() + j].score == 0);
            }
        }
    }

    /// Look up the live player carrying this entity id.
    fn find_player_index(&self, e: u64) -> (r: Option<usize>)
        ensures
            match r {
                Some(i) => i < self.players@.len() && self.players@[i as int].entity == e,
                None => !has_player(self.players@, e),
            },
    {
        let mut k: usize = 0;
        while k < self.players.len()
            invariant
                k <= self.players@.len(),
                forall|i: int| 0 <= i < k ==> #[trigger] self.players@[i].entity != e,
            decreases self.players@.len() - k,
        {
            if self.players[k].entity == e {
                return Some(k);
            }
            k = k + 1;
        }
        None
    }

    /// Look up the live star carrying this entity id.
    fn find_star_index(&self, e: u64) -> (r: Option<usize>)
        ensures
            match r {
                Some(i) => i < self.stars@.len() && self.stars@[i as int].entity == e,
                None => !has_star(self.stars@, e),
            },
    {
        let mut k: usize = 0;
        while k < self.stars.len()
            invariant
                k <= self.stars@.len(),
                forall|i: int| 0 <= i < k ==> #[trigger] self.stars@[i].entity != e,
            decreases self.stars@.len() - k,
        {
            if self.stars[k].entity == e {
                return Some(k);
            }
            k = k + 1;
        }
        None
    }

    /// Resolve one collision-start, exactly as [`catch_step`] describes,
    /// appending the emitted effects to `effects`.
    pub fn catch_one(&mut self, ev: CollisionStart, effects: &mut Vec<Effect>)
        requires
            old(self).wf(),
            forall|i: int|
                0 <= i < old(self).scoreboard.entries@.len()
                    ==> #[trigger] old(self).scoreboard.entries@[i].score + CATCH_POINTS
                    <= u64::MAX,
        ensures
            ({
                let st = (CatchState {
                    stars: old(self).stars@,
                    entries: old(self).scoreboard.entries@,
                    winner: old(self).scoreboard.winner,
                    effects: old(effects)@,
                });
                let end = catch_step(old(self).players@, st, ev);
                &&& final(self).stars@ == end.stars
                &&& final(self).scoreboard.entries@ == end.entries
                &&& final(self).scoreboard.winner == end.winner
                &&& final(effects)@ == end.effects
            }),
            final(self).players@ == old(self).players@,
            final(self).next_entity == old(self).next_entity,
            final(self).timer == old(self).timer,
            final(self).wf(),
    {
        let ghost players0 = self.players@;
        let ghost st = (CatchState {
            stars: self.stars@,
            entries: self.scoreboard.entries@,
            winner: self.scoreboard.winner,
            effects: effects@,
        });
        let pa = self.find_player_index(ev.a);
        let sb = self.find_star_index(ev.b);
        let (pi, si) = if pa.is_some() && sb.is_some() {
            (pa.unwrap(), sb.unwrap())
        } else {
            let pb = self.find_player_index(ev.b);
            let sa = self.find_star_index(ev.a);
            if pb.is_some() && sa.is_some() {
                (pb.unwrap(), sa.unwrap())
            } else {
                proof {
                    assert(resolve_catch(players0, st.stars, ev) is None);
                }
                return ;
            }
        };
        proof {
            let e_p = self.players@[pi as int].entity;
            let e_s = self.stars@[si as int].entity;
            assert(has_player(players0, e_p));
            assert(has_star(st.stars, e_s));
            let wp = player_idx(players0, e_p);
            assert(0 <= wp < players0.len() && players0[wp].entity == e_p);
            assert(wp == pi);
            let ws = star_idx(st.stars, e_s);
            assert(0 <= ws < st.stars.len() && st.stars[ws].entity == e_s);
            assert(ws == si);
            assert(resolve_catch(players0, st.stars, ev) == Some((players0[pi as int].id, si as int)));
        }
        let pid = self.players[pi].id;
        proof {
            assert(sb_has(st.entries, pid));
            let ei = sb_idx(st.entries, pid);
            assert(0 <= ei < st.entries.len() && st.entries[ei].id == pid);
            assert(st.entries[ei].score + CATCH_POINTS <= u64::MAX);
        }
        effects.push(Effect::Sound { cue: SoundCue::Bom, volume_milli: CUE_VOLUME_MILLI });
        let ghost ei = sb_idx(st.entries, pid);
        self.scoreboard.increment(pid, CATCH_POINTS);
        proof {
            assert(self.scoreboard.entries@[ei].id == pid);
            assert(sb_has(self.scoreboard.entries@, pid));
        }
        let score = self.scoreboard.get_score(pid);
        proof {
            assert(score == sb_score(st.entries, pid) + CATCH_POINTS);
            assert(sb_score(st.entries, pid) == st.entries[ei].score);
        }
        if score >= WIN_SCORE {
            let newly = self.scoreboard.show_winner_screen(pid);
            if newly {
                effects.push(Effect::Winner { player_id: pid });
            }
        }
        let star = self.stars[si];
        self.stars.remove(si);
        effects.push(Effect::Poof { x_mp: star.x_mp, y_mp: star.y_mp });
        proof {
            let end = catch_step(players0, st, ev);
            let e0 = st.entries[ei];
            let new_score = (e0.score + CATCH_POINTS) as u64;
            assert(self.scoreboard.entries@ =~= st.entries.update(
                ei,
                (Entry {
                    id: e0.id,
                    name: e0.name,
                    color_index: e0.color_index,
                    score: new_score,
                }),
            )) by {
                assert forall|i: int| 0 <= i < st.entries.len() implies self.scoreboard.entries@[i]
                    == st.entries.update(
                    ei,
                    (Entry {
                        id: e0.id,
                        name: e0.name,
                        color_index: e0.color_index,
                        score: new_score,
                    }),
                )[i] by {
                    if i != ei {
                        assert(st.entries[i].id != pid);
                    }
                }
            }
            let newly = new_score >= WIN_SCORE && st.winner is None;
            assert(final(effects)@ =~= st.effects + seq![
                (Effect::Sound { cue: SoundCue::Bom, volume_milli: CUE_VOLUME_MILLI }),
            ] + (if newly {
                seq![(Effect::Winner { player_id: pid })]
            } else {
                Seq::<Effect>::empty()
            }) + seq![(Effect::Poof { x_mp: star.x_mp, y_mp: star.y_mp })]);
            assert(final(self).stars@ == end.stars);
            assert(final(self).scoreboard.entries@ == end.entries);
            assert(final(self).scoreboard.winner == end.winner);
            assert(final(effects)@ == end.effects);
            lemma_remove_star(st.stars, si as int);
            assert forall|i: int, j: int|
                0 <= i < self.players@.len() && 0 <= j < self.stars@.len()
                    implies #[trigger] self.players@[i].entity
                != #[trigger] self.stars@[j].entity by {
                assert(has_star(self.stars@, self.stars@[j].entity));
                assert(has_star(st.stars, self.stars@[j].entity));
                let w = choose|w: int|
                    0 <= w < st.stars.len() && #[trigger] st.stars[w].entity
                        == self.stars@[j].entity;
            }
            assert forall|j: int|
                0 <= j < self.stars@.len() implies #[trigger] self.stars@[j].entity
                < self.next_entity by {
                assert(has_star(self.stars@, self.stars@[j].entity));
                assert(has_star(st.stars, self.stars@[j].entity));
                let w = choose|w: int|
                    0 <= w < st.stars.len() && #[trigger] st.stars[w].entity
                        == self.stars@[j].entity;
            }
            assert forall|i: int|
                0 <= i < self.players@.len() implies sb_has(
                self.scoreboard.entries@,
                #[trigger] self.players@[i].id,
            ) by {
                assert(sb_has(st.entries, self.players@[i].id));
                let w = choose|w: int|
                    0 <= w < st.entries.len() && #[trigger] st.entries[w].id
                        == self.players@[i].id;
                assert(self.scoreboard.entries@[w].id == self.players@[i].id);
            }
        }
    }

    /// Resolve every collision-start gathered since the last tick, in
    /// order, and return the effects to perform: exactly the fold of
    /// [`catch_step`] over the batch.
    pub fn catch_star(&mut self, events: &Vec<CollisionStart>) -> (effects: Vec<Effect>)
        requires
            old(self).wf(),
            forall|i: int|
                0 <= i < old(self).scoreboard.entries@.len()
                    ==> #[trigger] old(self).scoreboard.entries@[i].score + events@.len()
                    <= u64::MAX,
        ensures
            ({
                let st0 = (CatchState {
                    stars: old(self).stars@,
                    entries: old(self).scoreboard.entries@,
                    winner: old(self).scoreboard.winner,
                    effects: Seq::<Effect>::empty(),
                });
                let end = run_catches(old(self).players@, st0, events@);
                &&& final(self).stars@ == end.stars
                &&& final(self).scoreboard.entries@ == end.entries
                &&& final(self).scoreboard.winner == end.winner
                &&& effects@ == end.effects
            }),
            final(self).players@ == old(self).players@,
            final(self).next_entity == old(self).next_entity,
            final(self).timer == old(self).timer,
            final(self).wf(),
    {
        let ghost players0 = old(self).players@;
        let ghost st0 = (CatchState {
            stars: old(self).stars@,
            entries: old(self).scoreboard.entries@,
            winner: old(self).scoreboard.winner,
            effects: Seq::<Effect>::empty(),
        });
        let ghost evs = events@;
        let mut effects: Vec<Effect> = Vec::new();
        let n = events.len();
        let mut k: usize = 0;
        proof {
            assert(evs.skip(0) =~= evs);
        }
        while k < n
            invariant
                players0 == old(self).players@,
                st0 == (CatchState {
                    stars: old(self).stars@,
                    entries: old(self).scoreboard.entries@,
                    winner: old(self).scoreboard.winner,
                    effects: Seq::<Effect>::empty(),
                }),
                evs == events@,
                n == evs.len(),
                k <= n,
                self.wf(),
                self.players@ == players0,
                self.next_entity == old(self).next_entity,
                self.timer == old(self).timer,
                forall|i: int|
                    0 <= i < self.scoreboard.entries@.len()
                        ==> #[trigger] self.scoreboard.entries@[i].score + (n - k) <= u64::MAX,
                run_catches(players0, st0, evs) == run_catches(
                    players0,
                    (CatchState {
                        stars: self.stars@,
                        entries: self.scoreboard.entries@,
                        winner: self.scoreboard.winner,
                        effects: effects@,
                    }),
                    evs.skip(k as int),
                ),
            decreases n - k,
        {
            let ghost cur = (CatchState {
                stars: self.stars@,
                entries: self.scoreboard.entries@,
                winner: self.scoreboard.winner,
                effects: effects@,
            });
            let ev = events[k];
            self.catch_one(ev, &mut effects);
            proof {
                assert(evs.skip(k as int)[0] == evs[k as int]);
                assert(evs.skip(k as int).drop_first() =~= evs.skip(k as int + 1));
                let nxt = catch_step(players0, cur, ev);
                assert(run_catches(players0, cur, evs.skip(k as int)) == run_catches(
                    players0,
                    nxt,
                    evs.skip(k as int + 1),
                ));
                assert forall|i: int|
                    0 <= i < self.scoreboard.entries@.len()
                        implies #[trigger] self.scoreboard.entries@[i].score + (n - (k + 1))
                        <= u64::MAX by {
                    match resolve_catch(players0, cur.stars, ev) {
                        None => {},
                        Some(r) => {
                            let (pid, si) = r;
                            if sb_has(cur.entries, pid) {
                                assert(cur.entries[i].score + (n - k) <= u64::MAX);
                            }
                        },
                    }
                }
            }
            k = k + 1;
        }
        proof {
            assert(evs.skip(n as int) =~= Seq::<CollisionStart>::empty());
        }
        effects
    }

    /// Advance every star by one frame of elapsed time. Stars carry zero
    /// gravity scale and are untouched by collisions (sensor colliders), so
    /// their velocity is constant and the kinematic step is exact: a
    /// velocity in pixels per second is exactly the position change per
    /// millisecond in thousandths of a pixel. Players ride the full physics
    /// pipeline (forces, damping, restitution) outside this model and are
    /// not integrated here.
    pub fn integrate_stars(&mut self, dt_ms: u64)
        requires
            old(self).wf(),
            dt_ms <= i64::MAX,
            forall|i: int|
                0 <= i < old(self).stars@.len() ==> {
                    let s = #[trigger] old(self).stars@[i];
                    &&& i64::MIN <= s.x_mp + s.vx * dt_ms <= i64::MAX
                    &&& i64::MIN <= s.y_mp + s.vy * dt_ms <= i64::MAX
                    &&& i64::MIN <= s.vx * dt_ms <= i64::MAX
                    &&& i64::MIN <= s.vy * dt_ms <= i64::MAX
                },
        ensures
            final(self).stars@.len() == old(self).stars@.len(),
            forall|i: int|
                0 <= i < old(self).stars@.len() ==> {
                    let s = old(self).stars@[i];
                    let t = #[trigger] final(self).stars@[i];
                    &&& t.entity == s.entity
                    &&& t.x_mp == s.x_mp + s.vx * dt_ms
                    &&& t.y_mp == s.y_mp + s.vy * dt_ms
                    &&& t.vx == s.vx
                    &&& t.vy == s.vy
                    &&& t.spin_mrad == s.spin_mrad
                    &&& t.has_trail == s.has_trail
                },
            final(self).players@ == old(self).players@,
            final(self).next_entity == old(self).next_entity,
            final(self).scoreboard.entries@ == old(self).scoreboard.entries@,
            final(self).scoreboard.winner == old(self).scoreboard.winner,
            final(self).timer == old(self).timer,
            final(self).wf(),
    {
        let dt = dt_ms as i64;
        let n = self.stars.len();
        let mut k: usize = 0;
        while k < n
            invariant
                old(self).wf(),
                dt == dt_ms,
                0 <= dt_ms <= i64::MAX,
                forall|i: int|
                    0 <= i < old(self).stars@.len() ==> {
                        let s = #[trigger] old(self).stars@[i];
                        &&& i64::MIN <= s.x_mp + s.vx * dt_ms <= i64::MAX
                        &&& i64::MIN <= s.y_mp + s.vy * dt_ms <= i64::MAX
                        &&& i64::MIN <= s.vx * dt_ms <= i64::MAX
                        &&& i64::MIN <= s.vy * dt_ms <= i64::MAX
                    },
                n == old(self).stars@.len(),
                k <= n,
                self.stars@.len() == n,
                forall|i: int| k <= i < n ==> #[trigger] self.stars@[i] == old(self).stars@[i],
                forall|i: int|
                    0 <= i < k ==> {
                        let s = old(self).stars@[i];
                        let t = #[trigger] self.stars@[i];
                        &&& t.entity == s.entity
                        &&& t.x_mp == s.x_mp + s.vx * dt_ms
                        &&& t.y_mp == s.y_mp + s.vy * dt_ms
                        &&& t.vx == s.vx
                        &&& t.vy == s.vy
                        &&& t.spin_mrad == s.spin_mrad
                        &&& t.has_trail == s.has_trail
                    },
                self.players@ == old(self).players@,
                self.next_entity == old(self).next_entity,
                self.scoreboard.entries@ == old(self).scoreboard.entries@,
                self.scoreboard.winner == old(self).scoreboard.winner,
                self.timer == old(self).timer,
            decreases n - k,
        {
            let mut s = self.stars[k];
            s.x_mp = s.x_mp + s.vx * dt;
            s.y_mp = s.y_mp + s.vy * dt;
            self.stars[k] = s;
            k = k + 1;
        }
        proof {
            assert(forall|i: int|
                0 <= i < self.stars@.len() ==> #[trigger] self.stars@[i].entity
                    == old(self).stars@[i].entity);
        }
    }
}

} // verus!
