use star_catcher::game::{
    CollisionStart, ConnectionEvent, Effect, PlayerInput, SoundCue, StarDraws, World,
};

fn draws(duration_ms: u64, x_mp: i64) -> StarDraws {
    StarDraws { duration_ms, x_mp, vx: 10, vy: -200, spin_mrad: 500 }
}

fn connect(pad_id: u64) -> ConnectionEvent {
    ConnectionEvent { pad_id, connected: true }
}

#[test]
fn spawn_timer_fires_on_first_tick() {
    // The timer starts with a zero duration, so the very first tick spawns.
    let mut w = World::new();
    let (fired, effects) = w.spawn_star(0);
    assert!(fired);
    assert_eq!(w.stars.len(), 1);
    assert_eq!(
        effects,
        vec![Effect::Sound { cue: SoundCue::Bling, volume_milli: 250 }]
    );
}

#[test]
fn spawned_star_is_within_the_drawn_ranges() {
    let mut w = World::new();
    let (fired, _) = w.spawn_star(16);
    assert!(fired);
    let s = &w.stars[0];
    assert_eq!(s.y_mp, 350_000);
    assert!((-400_000..400_000).contains(&s.x_mp));
    assert!((-75..75).contains(&s.vx));
    assert!((-300..-100).contains(&s.vy));
    assert!((-1200..1200).contains(&s.spin_mrad));
    assert!(s.has_trail);
    // The re-armed cadence is always drawn from [200 ms, 2000 ms).
    assert!((200..2000).contains(&w.timer.remaining_ms));
}

#[test]
fn spawn_cadence_redrawn_after_every_firing() {
    let mut w = World::new();
    for _ in 0..20 {
        let (fired, _) = w.spawn_star(5000);
        assert!(fired);
        assert!((200..2000).contains(&w.timer.remaining_ms));
    }
    assert_eq!(w.stars.len(), 20);
}

#[test]
fn spawn_timer_counts_down_without_firing() {
    let mut w = World::new();
    w.spawn_star_with(draws(1000, 0));
    assert_eq!(w.timer.remaining_ms, 1000);
    let (fired, effects) = w.spawn_star(999);
    assert!(!fired);
    assert!(effects.is_empty());
    assert_eq!(w.timer.remaining_ms, 1);
    assert_eq!(w.stars.len(), 1);
    let (fired, _) = w.spawn_star(1);
    assert!(fired);
    assert_eq!(w.stars.len(), 2);
}

#[test]
fn cleanup_removes_only_fallen_stars() {
    let mut w = World::new();
    w.spawn_star_with(draws(500, -100_000));
    w.spawn_star_with(draws(500, 100_000));
    w.stars[0].y_mp = -400_001;
    w.stars[1].y_mp = -400_000;
    let kept = w.stars[1].entity;
    w.cleanup_star();
    assert_eq!(w.stars.len(), 1);
    assert_eq!(w.stars[0].entity, kept);
}

#[test]
fn star_falls_below_line_and_is_cleaned_up() {
    // A star spawns at y = 350 with a downward velocity; with no controller
    // interaction its position sinks below -400 and cleanup removes it,
    // leaving every score unchanged.
    let mut w = World::new();
    w.join(&vec![connect(0)]);
    w.spawn_star_with(draws(500, 0));
    assert_eq!(w.stars[0].y_mp, 350_000);
    for _ in 0..26 {
        // 26 * 150 ms at -200 px/s sinks the star by 780 pixels.
        w.integrate_stars(150);
        w.cleanup_star();
    }
    assert!(w.stars.is_empty());
    assert_eq!(w.scoreboard.get_score(0), 0);
    assert!(w.scoreboard.winner.is_none());
}

#[test]
fn catch_awards_exactly_one_point_and_removes_the_star() {
    let mut w = World::new();
    w.join(&vec![connect(0)]);
    w.spawn_star_with(draws(500, 123_000));
    let player = w.players[0].entity;
    let star = w.stars[0].entity;
    let effects = w.catch_star(&vec![CollisionStart { a: player, b: star }]);
    assert_eq!(w.scoreboard.get_score(0), 1);
    assert!(w.stars.is_empty());
    assert_eq!(
        effects,
        vec![
            Effect::Sound { cue: SoundCue::Bom, volume_milli: 250 },
            Effect::Poof { x_mp: 123_000, y_mp: 350_000 },
        ]
    );
}

#[test]
fn catch_resolves_either_entity_order() {
    let mut w = World::new();
    w.join(&vec![connect(0)]);
    w.spawn_star_with(draws(500, 0));
    let player = w.players[0].entity;
    let star = w.stars[0].entity;
    w.catch_star(&vec![CollisionStart { a: star, b: player }]);
    assert_eq!(w.scoreboard.get_score(0), 1);
    assert!(w.stars.is_empty());
}

#[test]
fn a_star_cannot_be_caught_twice() {
    let mut w = World::new();
    w.join(&vec![connect(0)]);
    w.spawn_star_with(draws(500, 0));
    let player = w.players[0].entity;
    let star = w.stars[0].entity;
    let effects = w.catch_star(&vec![
        CollisionStart { a: player, b: star },
        CollisionStart { a: star, b: player },
    ]);
    assert_eq!(w.scoreboard.get_score(0), 1);
    // Only one catch resolved: one cue, one poof.
    assert_eq!(effects.len(), 2);
}

#[test]
fn non_catch_collisions_are_ignored() {
    let mut w = World::new();
    w.join(&vec![connect(0), connect(1)]);
    w.spawn_star_with(draws(500, 0));
    let p0 = w.players[0].entity;
    let p1 = w.players[1].entity;
    let star = w.stars[0].entity;
    let effects = w.catch_star(&vec![
        CollisionStart { a: p0, b: p1 },
        CollisionStart { a: star, b: star },
        CollisionStart { a: 999, b: p0 },
    ]);
    assert!(effects.is_empty());
    assert_eq!(w.scoreboard.get_score(0), 0);
    assert_eq!(w.scoreboard.get_score(1), 0);
    assert_eq!(w.stars.len(), 1);
}

#[test]
fn a_cleaned_up_star_is_never_catchable() {
    let mut w = World::new();
    w.join(&vec![connect(0)]);
    w.spawn_star_with(draws(500, 0));
    let player = w.players[0].entity;
    let star = w.stars[0].entity;
    w.stars[0].y_mp = -500_000;
    w.cleanup_star();
    let effects = w.catch_star(&vec![CollisionStart { a: player, b: star }]);
    assert!(effects.is_empty());
    assert_eq!(w.scoreboard.get_score(0), 0);
}

#[test]
fn scores_never_decrease() {
    let mut w = World::new();
    w.join(&vec![connect(0), connect(1)]);
    let mut last = (0, 0);
    for _ in 0..4 {
        w.spawn_star_with(draws(500, 0));
        let player = w.players[0].entity;
        let star = w.stars[0].entity;
        w.catch_star(&vec![CollisionStart { a: player, b: star }]);
        let now = (w.scoreboard.get_score(0), w.scoreboard.get_score(1));
        assert!(now.0 >= last.0 && now.1 >= last.1);
        last = now;
    }
    assert_eq!(last, (4, 0));
}

#[test]
fn join_spawns_player_on_the_ground_line_with_fresh_scoreboard_row() {
    let mut w = World::new();
    w.join(&vec![connect(5)]);
    assert_eq!(w.players.len(), 1);
    let p = &w.players[0];
    assert_eq!(p.id, 5);
    assert_eq!(p.y_mp, -250_000);
    assert!((-600_000..600_000).contains(&p.x_mp));
    assert_eq!((p.vx, p.vy, p.force_x), (0, 0, 0));
    assert_eq!(w.scoreboard.entries.len(), 1);
    assert_eq!(w.scoreboard.entries[0].name, "Ferris5");
    assert_eq!(w.scoreboard.entries[0].color_index, 5);
    assert_eq!(w.scoreboard.get_score(5), 0);
}

#[test]
fn player_names_are_ferris_plus_decimal_id() {
    let mut w = World::new();
    w.join(&vec![connect(0), connect(7), connect(12)]);
    assert_eq!(w.scoreboard.entries[0].name, "Ferris0");
    assert_eq!(w.scoreboard.entries[1].name, "Ferris7");
    assert_eq!(w.scoreboard.entries[2].name, "Ferris12");
}

#[test]
fn disconnect_events_are_ignored() {
    let mut w = World::new();
    w.join(&vec![
        ConnectionEvent { pad_id: 1, connected: false },
        connect(2),
        ConnectionEvent { pad_id: 2, connected: false },
    ]);
    assert_eq!(w.players.len(), 1);
    assert_eq!(w.players[0].id, 2);
}

#[test]
fn run_axis_drives_force_proportionally() {
    let mut w = World::new();
    w.join(&vec![connect(0)]);
    // The axis is stored in thousandths of full deflection, so the stored
    // value equals the original's force of axis times one thousand.
    w.movement(&vec![PlayerInput { axis_milli: 500, jump_just_pressed: false }]);
    assert_eq!(w.players[0].force_x, 500);
    w.movement(&vec![PlayerInput { axis_milli: -1000, jump_just_pressed: false }]);
    assert_eq!(w.players[0].force_x, -1000);
}

#[test]
fn jump_below_the_gate_sets_vertical_velocity() {
    let mut w = World::new();
    w.join(&vec![connect(0)]);
    w.players[0].y_mp = -320_000;
    w.movement(&vec![PlayerInput { axis_milli: 0, jump_just_pressed: true }]);
    assert_eq!(w.players[0].vy, 1250);
}

#[test]
fn jump_at_or_above_the_gate_is_rejected() {
    let mut w = World::new();
    w.join(&vec![connect(0)]);
    // At the spawn height (-250) the player counts as airborne: a jump
    // works only strictly below -315.
    w.players[0].vy = -40;
    w.movement(&vec![PlayerInput { axis_milli: 0, jump_just_pressed: true }]);
    assert_eq!(w.players[0].vy, -40);
    w.players[0].y_mp = -315_000;
    w.movement(&vec![PlayerInput { axis_milli: 0, jump_just_pressed: true }]);
    assert_eq!(w.players[0].vy, -40);
    // With the jump not pressed, the velocity stays as it is.
    w.players[0].y_mp = -330_000;
    w.movement(&vec![PlayerInput { axis_milli: 0, jump_just_pressed: false }]);
    assert_eq!(w.players[0].vy, -40);
}

#[test]
fn winner_presented_exactly_once_at_five_points() {
    let mut w = World::new();
    w.join(&vec![connect(0), connect(1)]);
    let player = w.players[0].entity;
    let mut winner_effects = 0;
    for round in 1..=7u64 {
        w.spawn_star_with(draws(500, 0));
        let star = w.stars[0].entity;
        let effects = w.catch_star(&vec![CollisionStart { a: player, b: star }]);
        winner_effects += effects
            .iter()
            .filter(|e| matches!(e, Effect::Winner { .. }))
            .count();
        if round < 5 {
            assert!(w.scoreboard.winner.is_none());
            assert_eq!(winner_effects, 0);
        } else {
            assert_eq!(w.scoreboard.winner, Some(0));
            assert_eq!(winner_effects, 1);
        }
    }
    assert_eq!(w.scoreboard.get_score(0), 7);
}

#[test]
fn full_session_three_then_five_catches() {
    // Single controller connects; the player spawns at y = -250 with score
    // 0; three stars are caught sequentially (score 3, no winner); two
    // more are caught (score 5, winner presented).
    let mut w = World::new();
    w.join(&vec![connect(0)]);
    assert_eq!(w.players[0].y_mp, -250_000);
    assert_eq!(w.scoreboard.get_score(0), 0);
    let player = w.players[0].entity;
    for _ in 0..3 {
        w.spawn_star_with(draws(500, 0));
        let star = w.stars[0].entity;
        w.catch_star(&vec![CollisionStart { a: player, b: star }]);
    }
    assert_eq!(w.scoreboard.get_score(0), 3);
    assert!(w.scoreboard.winner.is_none());
    let mut effects = Vec::new();
    for _ in 0..2 {
        w.spawn_star_with(draws(500, 0));
        let star = w.stars[0].entity;
        effects.extend(w.catch_star(&vec![CollisionStart { a: player, b: star }]));
    }
    assert_eq!(w.scoreboard.get_score(0), 5);
    assert_eq!(w.scoreboard.winner, Some(0));
    assert_eq!(
        effects
            .iter()
            .filter(|e| matches!(e, Effect::Winner { player_id: 0 }))
            .count(),
        1
    );
}

#[test]
fn stars_integrate_exactly_by_velocity() {
    let mut w = World::new();
    w.spawn_star_with(StarDraws { duration_ms: 500, x_mp: 1000, vx: -75, vy: -300, spin_mrad: 0 });
    w.integrate_stars(100);
    // 100 ms at -75 px/s moves -7.5 px; at -300 px/s, -30 px.
    assert_eq!(w.stars[0].x_mp, 1000 - 7_500);
    assert_eq!(w.stars[0].y_mp, 350_000 - 30_000);
}

#[test]
fn entities_are_never_reused() {
    let mut w = World::new();
    w.join(&vec![connect(0)]);
    w.spawn_star_with(draws(500, 0));
    let first_star = w.stars[0].entity;
    let player = w.players[0].entity;
    w.catch_star(&vec![CollisionStart { a: player, b: first_star }]);
    w.spawn_star_with(draws(500, 0));
    assert_ne!(w.stars[0].entity, first_star);
    assert_ne!(w.stars[0].entity, player);
}
