use star_catcher::scoreboard::Scoreboard;

#[test]
fn new_scoreboard_is_empty() {
    let sb = Scoreboard::new();
    assert_eq!(sb.entries.len(), 0);
    assert!(sb.winner.is_none());
}

#[test]
fn add_player_registers_with_zero_score() {
    let mut sb = Scoreboard::new();
    sb.add_player(3, String::from("Ferris3"), 3);
    assert_eq!(sb.entries.len(), 1);
    assert_eq!(sb.entries[0].id, 3);
    assert_eq!(sb.entries[0].name, "Ferris3");
    assert_eq!(sb.entries[0].color_index, 3);
    assert_eq!(sb.entries[0].score, 0);
    assert!(sb.has_player(3));
    assert!(!sb.has_player(4));
    assert_eq!(sb.get_score(3), 0);
}

#[test]
fn increment_adds_to_the_right_player_only() {
    let mut sb = Scoreboard::new();
    sb.add_player(1, String::from("Ferris1"), 1);
    sb.add_player(2, String::from("Ferris2"), 2);
    sb.increment(2, 1);
    sb.increment(2, 3);
    assert_eq!(sb.get_score(1), 0);
    assert_eq!(sb.get_score(2), 4);
}

#[test]
fn winner_screen_is_one_shot() {
    let mut sb = Scoreboard::new();
    sb.add_player(1, String::from("Ferris1"), 1);
    sb.add_player(2, String::from("Ferris2"), 2);
    assert!(sb.show_winner_screen(1));
    assert_eq!(sb.winner, Some(1));
    assert!(!sb.show_winner_screen(2));
    assert_eq!(sb.winner, Some(1));
}
