use fun_cli::games::entities::{Entity, GameEntity};
use fun_cli::games::thunder_fighter::entity::{count_hits, fall_bullets, rise_bullets, Bullet, Enemy, Player};
use fun_cli::games::thunder_fighter::game::{
    GameKey, ThunderFighterGame, ThunderFighterGameState, ENEMY_DISPLAY, PLAYER_DISPLAY,
};

fn entity(x: u16, y: u16, width: u16) -> Entity {
    Entity { x, y, display: "E".to_string(), width, last_x: x, last_y: y }
}

fn enemy(x: u16, y: u16, health: u16) -> Enemy {
    Enemy { entity: entity(x, y, 1), health, bullets: vec![] }
}

/// A 20 by 10 board, difficulty 1, player at (10, 5), frame 1 (no firing).
fn game() -> ThunderFighterGameState {
    let mut g = ThunderFighterGameState::with_player_width(20, 10, 1, 1);
    g.frame_count = 1;
    g
}

#[test]
fn new_game_centres_the_player() {
    let g = ThunderFighterGameState::new(40, 20, 2);
    assert_eq!(g.player.position(), (20, 10));
    assert_eq!(g.player.display(), PLAYER_DISPLAY);
    assert_eq!(g.player.width(), 1);
    assert_eq!(g.player.health, 100);
    assert!(g.enemys.is_empty());
    assert_eq!((g.score, g.frame_count), (0, 0));
}

#[test]
fn arrows_move_within_the_board() {
    let mut g = ThunderFighterGameState::with_player_width(20, 10, 1, 2);
    assert!(!g.handle_input(GameKey::Up));
    assert_eq!(g.player.position(), (10, 4));
    g.handle_input(GameKey::Left);
    assert_eq!(g.player.position(), (8, 4));
    g.handle_input(GameKey::Right);
    g.handle_input(GameKey::Right);
    assert_eq!(g.player.position(), (12, 4));
    g.handle_input(GameKey::Down);
    assert_eq!(g.player.position(), (12, 5));
}

#[test]
fn arrows_stop_at_the_edges() {
    let mut g = ThunderFighterGameState::with_player_width(4, 2, 1, 3);
    g.player.move_to(0, 0);
    g.handle_input(GameKey::Up);
    g.handle_input(GameKey::Left);
    assert_eq!(g.player.position(), (0, 0));
    g.handle_input(GameKey::Right);
    assert_eq!(g.player.position(), (3, 0));
    g.handle_input(GameKey::Right);
    assert_eq!(g.player.position(), (3, 0));
    g.handle_input(GameKey::Down);
    g.handle_input(GameKey::Down);
    g.handle_input(GameKey::Down);
    assert_eq!(g.player.position(), (3, 2));
}

#[test]
fn up_then_down_is_undone() {
    let mut g = game();
    g.handle_input(GameKey::Up);
    g.handle_input(GameKey::Down);
    assert_eq!(g.player.position(), (10, 5));
    g.handle_input(GameKey::Left);
    g.handle_input(GameKey::Right);
    assert_eq!(g.player.position(), (10, 5));
}

#[test]
fn space_fires_and_q_quits() {
    let mut g = game();
    assert!(!g.handle_input(GameKey::Char(' ')));
    assert_eq!(g.player.bullets, vec![Bullet { x: 10, y: 5 }]);
    assert!(g.handle_input(GameKey::Char('q')));
    assert!(!g.handle_input(GameKey::Char('x')));
    assert!(!g.handle_input(GameKey::Other));
    assert_eq!(g.player.bullets.len(), 1);
    assert_eq!(g.player.position(), (10, 5));
}

#[test]
fn bullets_move_and_leave_the_board() {
    let up = rise_bullets(&vec![Bullet { x: 1, y: 0 }, Bullet { x: 2, y: 3 }]);
    assert_eq!(up, vec![Bullet { x: 2, y: 2 }]);
    let down = fall_bullets(&vec![Bullet { x: 1, y: 9 }, Bullet { x: 2, y: 10 }], 10);
    assert_eq!(down, vec![Bullet { x: 1, y: 10 }]);
}

#[test]
fn collisions() {
    let a = entity(3, 4, 2);
    assert!(a.coll_detect(&entity(4, 4, 1)));
    assert!(!a.coll_detect(&entity(5, 4, 1)));
    assert!(!a.coll_detect(&entity(3, 5, 2)));
    assert!(entity(5, 4, 3).coll_detect(&entity(3, 4, 3)));
    assert!(Bullet { x: 4, y: 4 }.coll_detect(&a));
    assert!(!Bullet { x: 5, y: 4 }.coll_detect(&a));
    let bs = vec![Bullet { x: 3, y: 4 }, Bullet { x: 4, y: 4 }, Bullet { x: 4, y: 5 }];
    assert_eq!(count_hits(&bs, &a), 2);
}

#[test]
fn player_bullet_kills_enemy_and_scores() {
    let mut g = game();
    g.enemys.push(enemy(10, 3, 10));
    g.player.bullets.push(Bullet { x: 10, y: 4 });
    assert!(g.update_fits());
    g.update_with(None);
    assert_eq!(g.player.bullets, vec![Bullet { x: 10, y: 3 }]);
    assert_eq!(g.enemys[0].health, 0);
    assert!(g.enemys[0].is_dead());
    assert_eq!(g.score, 1);
    g.remove_dead_enemies();
    assert!(g.enemys.is_empty());
    assert_eq!(g.score, 1);
}

#[test]
fn enemies_fire_every_tenth_frame() {
    let mut g = game();
    g.frame_count = 10;
    g.enemys.push(enemy(10, 4, 10));
    g.update_with(None);
    assert_eq!(g.enemys[0].bullets, vec![Bullet { x: 10, y: 5 }]);
    assert_eq!(g.player.health, 90);
    g.frame_count = 11;
    g.update_with(None);
    assert_eq!(g.enemys[0].bullets, vec![Bullet { x: 10, y: 6 }]);
    assert_eq!(g.player.health, 90);
}

#[test]
fn ramming_costs_health() {
    let mut g = game();
    g.enemys.push(enemy(10, 5, 10));
    g.enemys.push(enemy(10, 5, 10));
    g.update_with(None);
    assert_eq!(g.player.health, 80);
    assert_eq!(g.score, 0);
    assert_eq!(g.player.position(), (10, 5));
}

#[test]
fn spawning_follows_frame_and_cap() {
    let mut g = game();
    g.update(7);
    assert!(g.enemys.is_empty());
    g.frame_count = 20;
    g.update(7);
    assert_eq!(g.enemys.len(), 1);
    let e = &g.enemys[0];
    assert_eq!(e.position(), (1, 0));
    assert_eq!(e.display(), ENEMY_DISPLAY[1]);
    assert_eq!(e.health, 10);
    g.difficulty = 0;
    g.update(3);
    assert_eq!(g.enemys.len(), 1);
}

#[test]
fn random_enemy_layout() {
    let e = Enemy::new_random_enemy(20, 10, 6 * 33 + 3);
    assert_eq!(e.position(), (13, 0));
    assert_eq!(e.display(), "♞");
    assert_eq!(e.entity.width, 1);
    assert!(e.bullets.is_empty());
    let e0 = Enemy::new_random_enemy(0, 10, 4);
    assert_eq!(e0.position(), (0, 0));
    assert_eq!(e0.display(), "☢");
}

#[test]
fn spawn_places_on_top_row() {
    let e = Enemy::spawn(7, 5, 2);
    assert_eq!(e.position(), (7, 0));
    assert_eq!(e.display(), "♛");
    assert_eq!((e.entity.width, e.entity.last_x, e.entity.last_y), (2, 7, 0));
}

#[test]
fn update_fits_detects_fatal_damage() {
    let mut g = game();
    g.player.health = 10;
    g.enemys.push(enemy(10, 5, 10));
    assert!(g.update_fits());
    g.enemys.push(enemy(10, 5, 10));
    assert!(!g.update_fits());
    let mut h = game();
    h.difficulty = 26;
    assert!(!h.update_fits());
    let mut k = game();
    k.enemys.push(enemy(3, 3, 5));
    k.player.bullets.push(Bullet { x: 3, y: 4 });
    assert!(!k.update_fits());
    let mut s = game();
    s.score = u16::MAX;
    s.enemys.push(enemy(3, 3, 0));
    assert!(!s.update_fits());
}

#[test]
fn next_frame_counts() {
    let mut g = game();
    g.next_frame();
    assert_eq!(g.frame_count, 2);
}

#[test]
fn player_helpers() {
    let mut p = Player { entity: entity(4, 4, 1), health: 0, bullets: vec![] };
    assert!(p.is_dead());
    p.attack_bullet();
    p.move_to(6, 2);
    assert_eq!(p.position(), (6, 2));
    assert_eq!(p.bullets, vec![Bullet { x: 4, y: 4 }]);
    p.update_bullets_by_speed(10);
    assert_eq!(p.bullets, vec![Bullet { x: 4, y: 3 }]);
    let mut e = enemy(1, 10, 10);
    e.attack_bullet(10);
    assert!(e.bullets.is_empty());
    e.move_to(1, 9);
    e.attack_bullet(10);
    assert_eq!(e.bullets, vec![Bullet { x: 1, y: 10 }]);
    e.update_bullets_by_speed(10);
    assert!(e.bullets.is_empty());
}

#[test]
fn game_title_and_help() {
    assert_eq!(ThunderFighterGame.name(), "雷霆战机✈️");
    assert_eq!(ThunderFighterGame.help(), "按上下左右操作战机，空格键发射");
}

#[test]
fn input_fits_guards_sums() {
    let mut g = ThunderFighterGameState::with_player_width(u16::MAX, u16::MAX, 1, 2);
    assert!(g.input_fits(GameKey::Down));
    g.player.move_to(u16::MAX - 1, u16::MAX);
    assert!(!g.input_fits(GameKey::Down));
    assert!(!g.input_fits(GameKey::Right));
    assert!(g.input_fits(GameKey::Up));
    assert!(g.input_fits(GameKey::Left));
    assert!(g.input_fits(GameKey::Char(' ')));
}

#[test]
fn frames_keep_everything_on_the_board() {
    let mut g = game();
    g.frame_count = 0;
    g.enemys.push(enemy(3, 9, 10));
    g.enemys[0].bullets.push(Bullet { x: 3, y: 10 });
    g.player.bullets.push(Bullet { x: 0, y: 0 });
    let mut last_score = g.score;
    for roll in 0..25u64 {
        assert!(g.update_fits());
        let before = g.enemys.len();
        g.update(roll);
        assert!(g.enemys.len() <= before + 1);
        assert!(g.enemys.len() <= 10);
        assert!(g.score >= last_score);
        last_score = g.score;
        assert!(g.player.entity.y <= g.height);
        for e in &g.enemys {
            assert!(e.entity.y <= g.height);
            assert!(e.bullets.iter().all(|b| b.y <= g.height));
        }
        assert!(g.player.bullets.iter().all(|b| b.y <= g.height));
        g.remove_dead_enemies();
        g.next_frame();
    }
}

#[test]
fn removing_the_dead_twice_changes_nothing() {
    let mut g = game();
    g.enemys.push(enemy(1, 1, 0));
    g.enemys.push(enemy(2, 1, 10));
    g.enemys.push(enemy(3, 1, 0));
    g.enemys.push(enemy(4, 1, 5));
    g.remove_dead_enemies();
    let xs: Vec<u16> = g.enemys.iter().map(|e| e.entity.x).collect();
    assert_eq!(xs, vec![2, 4]);
    g.remove_dead_enemies();
    let ys: Vec<u16> = g.enemys.iter().map(|e| e.entity.x).collect();
    assert_eq!(ys, vec![2, 4]);
    assert!(g.enemys.iter().all(|e| !e.is_dead()));
}
