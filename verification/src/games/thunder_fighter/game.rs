use vstd::prelude::*;
use crate::games::entities::{display_columns, spans_collide, text_display_width, Entity, EntityView, GameEntity};
use super::entity::{
    count_hits, fall_bullets, rise_bullets, fall, hits, rise, ship_dead, Bullet, Enemy, Player, ShipView,
    HIT_DAMAGE, PLAYER_HEALTH,
};

verus! {


/// The glyph of the player.
pub const PLAYER_DISPLAY: &'static str = "☮";

/// The glyph of a player's bullet.
pub const PLAYER_BULLET: &'static str = "♝";

/// The glyph of an enemy's bullet.
pub const ENEMY_BULLET: &'static str = "✦";

/// The glyphs an enemy may be drawn with.
pub const ENEMY_DISPLAY: [&'static str; 6] = ["⛴", "‍⛟", "✈", "♞", "☢", "♛"];


/// The state of one game of Thunder Fighter: the board (columns `0..=width`,
/// rows `0..=height`), the difficulty, the ships, the score and the number
/// of frames shown so far.
pub struct ThunderFighterGameState {
    pub width: u16,
    pub height: u16,
    pub difficulty: u8,
    pub player: Player,
    pub enemys: Vec<Enemy>,
    pub score: u16,
    pub frame_count: u128,
}

/// The mathematical value of a [`ThunderFighterGameState`].
pub struct GameView {
    pub width: u16,
    pub height: u16,
    pub difficulty: u8,
    pub player: ShipView,
    pub enemies: Seq<ShipView>,
    pub score: u16,
    pub frame_count: u128,
}

impl View for ThunderFighterGameState {
    type V = GameView;

    open spec fn view(&self) -> GameView {
        GameView {
            width: self.width,
            height: self.height,
            difficulty: self.difficulty,
            player: self.player@,
            enemies: self.enemys@.map_values(|e: Enemy| e@),
            score: self.score,
            frame_count: self.frame_count,
        }
    }
}

/// A key press, as the game tells keys apart.
#[derive(Debug, Clone, Copy, PartialEq, Eq, Structural)]
pub enum GameKey {
    Up,
    Down,
    Left,
    Right,
    Char(char),
    Other,
}

/// A new game on a board `width` by `height`, with the player's glyph
/// covering `player_width` columns: the player stands in the middle with
/// full health, there are no enemies, no bullets and no points yet.
pub open spec fn fresh_game(width: u16, height: u16, difficulty: u8, player_width: u16) -> GameView {
    GameView {
        width,
        height,
        difficulty,
        player: ShipView {
            entity: EntityView {
                x: (width / 2) as u16,
                y: (height / 2) as u16,
                display: PLAYER_DISPLAY@,
                width: player_width,
                last_x: (width / 2) as u16,
                last_y: (height / 2) as u16,
            },
            health: PLAYER_HEALTH,
            bullets: Seq::empty(),
        },
        enemies: Seq::empty(),
        score: 0,
        frame_count: 0,
    }
}

/// The game with the player moved to the cell `(x, y)`.
pub open spec fn player_moved(g: GameView, x: u16, y: u16) -> GameView {
    GameView { player: ShipView { entity: EntityView { x, y, ..g.player.entity }, ..g.player }, ..g }
}

/// The game after the key `key`: the arrows move the player one row, or
/// one glyph width, as long as the player stays on the board; space fires
/// a bullet from the player's cell; any other key changes nothing.
pub open spec fn after_input(g: GameView, key: GameKey) -> GameView {
    let x = g.player.entity.x;
    let y = g.player.entity.y;
    let w = g.player.entity.width;
    match key {
        GameKey::Up => player_moved(g, x, if y >= 1 { (y - 1) as u16 } else { y }),
        GameKey::Down => player_moved(g, x, if y + 1 <= g.height { (y + 1) as u16 } else { y }),
        GameKey::Left => player_moved(g, if x >= w { (x - w) as u16 } else { x }, y),
        GameKey::Right => player_moved(g, if x + w <= g.width { (x + w) as u16 } else { x }, y),
        GameKey::Char(c) => if c == ' ' {
            GameView {
                player: ShipView { bullets: g.player.bullets.push(Bullet { x, y }), ..g.player },
                ..g
            }
        } else {
            g
        },
        GameKey::Other => g,
    }
}

/// The keys on which the sums that handling `key` computes stay within
/// 16 bits (the down arrow adds one to the row, the right arrow the glyph
/// width to the column).
pub open spec fn input_in_range(g: GameView, key: GameKey) -> bool {
    &&& key == GameKey::Down ==> g.player.entity.y + 1 <= u16::MAX
    &&& key == GameKey::Right ==> g.player.entity.x + g.player.entity.width <= u16::MAX
}

/// Whether enemies shoot in this frame: every tenth frame.
pub open spec fn fires(g: GameView) -> bool {
    g.frame_count % 10 == 0
}

/// Whether a new enemy joins in this frame: every tenth frame, while there
/// are fewer than ten enemies per level of difficulty.
pub open spec fn spawn_due(g: GameView) -> bool {
    &&& fires(g)
    &&& g.enemies.len() < g.difficulty * 10
}

/// An enemy's bullets one frame later: they drop a row, and in a frame in
/// which enemies shoot a new one appears below the enemy.
pub open spec fn enemy_bullets_next(e: ShipView, height: u16, fire: bool) -> Seq<Bullet> {
    let moved = fall(e.bullets, height);
    if fire && e.entity.y < height {
        moved.push(Bullet { x: e.entity.x, y: (e.entity.y + 1) as u16 })
    } else {
        moved
    }
}

/// The number of hits the player takes from the enemy `e` in one frame:
/// one if the two ships collide, and one for each of the enemy's bullets
/// (after they moved) that stands on the player.
pub open spec fn hits_from(e: ShipView, player: EntityView, height: u16, fire: bool) -> nat {
    (if spans_collide(e.entity, player) {
        1nat
    } else {
        0nat
    }) + hits(enemy_bullets_next(e, height, fire), player)
}

/// The number of hits the player takes from all the enemies `es`.
pub open spec fn hits_on_player(es: Seq<ShipView>, player: EntityView, height: u16, fire: bool) -> nat
    decreases es.len(),
{
    if es.len() == 0 {
        0
    } else {
        hits_on_player(es.drop_last(), player, height, fire) + hits_from(es.last(), player, height, fire)
    }
}

/// The enemy `e` one frame later: its bullets moved (and maybe one fired),
/// and its health lowered by one hit for each of the player's bullets
/// `player_bullets` that stands on it.
pub open spec fn enemy_next(e: ShipView, player_bullets: Seq<Bullet>, height: u16, fire: bool) -> ShipView {
    ShipView {
        health: (e.health - HIT_DAMAGE * hits(player_bullets, e.entity)) as u16,
        bullets: enemy_bullets_next(e, height, fire),
        ..e
    }
}

/// How many of the ships `es` are dead.
pub open spec fn count_dead(es: Seq<ShipView>) -> nat
    decreases es.len(),
{
    if es.len() == 0 {
        0
    } else {
        count_dead(es.drop_last()) + if ship_dead(es.last()) {
            1nat
        } else {
            0nat
        }
    }
}

/// The enemies of `g` one frame later.
pub open spec fn enemies_next(g: GameView) -> Seq<ShipView> {
    let pb = rise(g.player.bullets);
    let fire = fires(g);
    let height = g.height;
    g.enemies.map_values(|e: ShipView| enemy_next(e, pb, height, fire))
}

/// The game one frame later. The player's bullets climb; each enemy's
/// bullets drop, and every tenth frame each enemy fires; the player loses
/// health for each collision with an enemy or an enemy's bullet, and each
/// enemy for each of the player's bullets on it; the score grows by the
/// number of dead enemies; and when a new enemy is due, `spawn` (if any)
/// joins the enemies.
pub open spec fn step(g: GameView, spawn: Option<ShipView>) -> GameView {
    let es = enemies_next(g);
    let taken = hits_on_player(g.enemies, g.player.entity, g.height, fires(g));
    GameView {
        player: ShipView {
            health: (g.player.health - HIT_DAMAGE * taken) as u16,
            bullets: rise(g.player.bullets),
            ..g.player
        },
        enemies: if spawn_due(g) && spawn is Some {
            es.push(spawn->0)
        } else {
            es
        },
        score: (g.score + count_dead(es)) as u16,
        ..g
    }
}

/// The games on which one frame keeps every sum within its type: the
/// enemy cap fits in 8 bits, no ship loses more health than it has, and
/// the score fits in 16 bits.
pub open spec fn update_in_range(g: GameView) -> bool {
    &&& g.difficulty * 10 <= u8::MAX
    &&& HIT_DAMAGE * hits_on_player(g.enemies, g.player.entity, g.height, fires(g)) <= g.player.health
    &&& forall|i: int|
        0 <= i < g.enemies.len() ==> HIT_DAMAGE * hits(rise(g.player.bullets), #[trigger] g.enemies[i].entity)
            <= g.enemies[i].health
    &&& g.score + count_dead(enemies_next(g)) <= u16::MAX
}

/// The living ships among `es`, in their order.
pub open spec fn survivors(es: Seq<ShipView>) -> Seq<ShipView>
    decreases es.len(),
{
    if es.len() == 0 {
        es
    } else {
        let rest = survivors(es.drop_last());
        if ship_dead(es.last()) {
            rest
        } else {
            rest.push(es.last())
        }
    }
}

/// The views of the enemies `v`.
pub open spec fn views(v: Seq<Enemy>) -> Seq<ShipView> {
    v.map_values(|e: Enemy| e@)
}

/// The view of an optional enemy.
pub open spec fn opt_view(e: Option<Enemy>) -> Option<ShipView> {
    match e {
        Some(e) => Some(e@),
        None => None,
    }
}

proof fn lemma_hits_on_player_prefix(es: Seq<ShipView>, i: int, player: EntityView, height: u16, fire: bool)
    requires
        0 <= i <= es.len(),
    ensures
        hits_on_player(es.take(i), player, height, fire) <= hits_on_player(es, player, height, fire),
    decreases es.len(),
{
    if i < es.len() {
        assert(es.drop_last().take(i) =~= es.take(i));
        lemma_hits_on_player_prefix(es.drop_last(), i, player, height, fire);
    } else {
        assert(es.take(i) =~= es);
    }
}

proof fn lemma_count_dead_prefix(es: Seq<ShipView>, i: int)
    requires
        0 <= i <= es.len(),
    ensures
        count_dead(es.take(i)) <= count_dead(es),
    decreases es.len(),
{
    if i < es.len() {
        assert(es.drop_last().take(i) =~= es.take(i));
        lemma_count_dead_prefix(es.drop_last(), i);
    } else {
        assert(es.take(i) =~= es);
    }
}

impl ThunderFighterGameState {
    /// A new game whose player glyph covers `player_width` columns, as
    /// [`fresh_game`] says.
    pub fn with_player_width(width: u16, height: u16, difficulty: u8, player_width: u16) -> (s: Self)
        ensures
            s@ == fresh_game(width, height, difficulty, player_width),
    {
        let s = ThunderFighterGameState {
            width,
            height,
            difficulty,
            player: Player {
                entity: Entity {
                    x: width / 2,
                    y: height / 2,
                    display: String::from_str(PLAYER_DISPLAY),
                    width: player_width,
                    last_x: width / 2,
                    last_y: height / 2,
                },
                health: PLAYER_HEALTH,
                bullets: Vec::new(),
            },
            enemys: Vec::new(),
            score: 0,
            frame_count: 0,
        };
        assert(s@.enemies =~= Seq::<ShipView>::empty());
        s
    }

    /// A new game on a board `width` by `height`; the player's glyph covers
    /// as many columns as `unicode_width` measures for [`PLAYER_DISPLAY`].
    pub fn new(width: u16, height: u16, difficulty: u8) -> (s: Self)
        ensures
            s@ == fresh_game(width, height, difficulty, display_columns(PLAYER_DISPLAY@) as u16),
    {
        let columns = text_display_width(PLAYER_DISPLAY);
        Self::with_player_width(width, height, difficulty, columns as u16)
    }

    /// Whether handling `key` keeps its sums within 16 bits, as
    /// [`input_in_range`] says.
    pub fn input_fits(&self, key: GameKey) -> (ok: bool)
        ensures
            ok == input_in_range(self@, key),
    {
        match key {
            GameKey::Down => self.player.entity.y < u16::MAX,
            GameKey::Right => self.player.entity.x as u32 + self.player.entity.width as u32
                <= u16::MAX as u32,
            _ => true,
        }
    }

    /// Handles one key press, as [`after_input`] says; the result tells
    /// whether the player asked to quit (the `q` key).
    pub fn handle_input(&mut self, code: GameKey) -> (quit: bool)
        requires
            input_in_range(old(self)@, code),
        ensures
            quit == (code == GameKey::Char('q')),
            final(self)@ == after_input(old(self)@, code),
    {
        match code {
            GameKey::Up => {
                let mut y = self.player.position().1;
                if y >= 1 {
                    y -= 1;
                }
                let x = self.player.position().0;
                self.player.move_to(x, y);
            },
            GameKey::Down => {
                let mut y = self.player.position().1;
                if y + 1 <= self.height {
                    y += 1;
                }
                let x = self.player.position().0;
                self.player.move_to(x, y);
            },
            GameKey::Left => {
                let width = self.player.width();
                let mut x = self.player.position().0;
                if x >= width {
                    x -= width;
                }
                let y = self.player.position().1;
                self.player.move_to(x, y);
            },
            GameKey::Right => {
                let width = self.player.width();
                let mut x = self.player.position().0;
                if x + width <= self.width {
                    x += width;
                }
                let y = self.player.position().1;
                self.player.move_to(x, y);
            },
            GameKey::Char(c) => {
                if c == ' ' {
                    self.player.attack_bullet();
                } else if c == 'q' {
                    return true;
                }
            },
            GameKey::Other => {},
        }
        false
    }

    /// Plays one frame, as [`step`] says; `spawn` is the enemy that joins
    /// when a new one is due (it is dropped otherwise).
    pub fn update_with(&mut self, spawn: Option<Enemy>)
        requires
            update_in_range(old(self)@),
        ensures
            final(self)@ == step(old(self)@, opt_view(spawn)),
    {
        let ghost g = self@;
        let ghost pb = rise(g.player.bullets);
        let ghost es = enemies_next(g);
        self.player.update_bullets_by_speed(self.height);
        let fire = self.frame_count % 10 == 0;
        let max_enemy_count: u8 = self.difficulty * 10;
        let mut pending: Vec<Enemy> = Vec::new();
        std::mem::swap(&mut pending, &mut self.enemys);
        let n = pending.len();
        let mut done: Vec<Enemy> = Vec::new();
        let mut i: usize = 0;
        proof {
            lemma_hits_on_player_prefix(g.enemies, 0, g.player.entity, g.height, fire);
            assert(g.enemies.take(0) =~= Seq::<ShipView>::empty());
            assert(es.take(0) =~= Seq::<ShipView>::empty());
        }
        while i < n
            invariant
                i <= n,
                n == g.enemies.len(),
                fire == fires(g),
                update_in_range(g),
                pb == rise(g.player.bullets),
                es == enemies_next(g),
                pending@.len() == n - i,
                forall|k: int| 0 <= k < n - i ==> (#[trigger] pending@[k])@ == g.enemies[i + k],
                done@.len() == i,
                forall|k: int| 0 <= k < i ==> (#[trigger] done@[k])@ == es[k],
                self.width == g.width,
                self.height == g.height,
                self.difficulty == g.difficulty,
                self.frame_count == g.frame_count,
                self.player@ == (ShipView {
                    health: (g.player.health - HIT_DAMAGE * hits_on_player(
                        g.enemies.take(i as int),
                        g.player.entity,
                        g.height,
                        fire,
                    )) as u16,
                    bullets: pb,
                    ..g.player
                }),
                HIT_DAMAGE * hits_on_player(g.enemies.take(i as int), g.player.entity, g.height, fire)
                    <= g.player.health,
                self.score == g.score + count_dead(es.take(i as int)),
            decreases n - i,
        {
            let ghost e = g.enemies[i as int];
            let mut enemy = pending.remove(0);
            assert(enemy@ == e) by {
                assert(pending@.len() + 1 == n - i);
            }
            assert forall|k: int| 0 <= k < n - (i + 1) implies (#[trigger] pending@[k])@ == g.enemies[
                i + 1 + k] by {}
            enemy.update_bullets_by_speed(self.height);
            if fire {
                enemy.attack_bullet(self.height);
            }
            assert(enemy@.bullets == enemy_bullets_next(e, g.height, fire));
            let body: usize = if enemy.entity.coll_detect(&self.player.entity) {
                1
            } else {
                0
            };
            let shots = count_hits(&enemy.bullets, &self.player.entity);
            proof {
                assert(g.enemies.take(i + 1).drop_last() =~= g.enemies.take(i as int));
                assert(g.enemies.take(i + 1).last() == e);
                lemma_hits_on_player_prefix(g.enemies, i + 1, g.player.entity, g.height, fire);
                assert(body + shots == hits_from(e, g.player.entity, g.height, fire));
            }
            let lost: u16 = ((body + shots) as u16) * HIT_DAMAGE;
            self.player.health = self.player.health - lost;
            let taken = count_hits(&self.player.bullets, &enemy.entity);
            assert(HIT_DAMAGE * hits(pb, g.enemies[i as int].entity) <= g.enemies[i as int].health);
            let dealt: u16 = (taken as u16) * HIT_DAMAGE;
            enemy.health = enemy.health - dealt;
            assert(enemy@ == es[i as int]);
            proof {
                assert(es.take(i + 1).drop_last() =~= es.take(i as int));
                lemma_count_dead_prefix(es, i + 1);
            }
            if enemy.is_dead() {
                self.score = self.score + 1;
            }
            done.push(enemy);
            i = i + 1;
        }
        self.enemys = done;
        assert(views(self.enemys@) =~= es);
        assert(g.enemies.take(n as int) =~= g.enemies);
        assert(es.take(n as int) =~= es);
        if fire && self.enemys.len() < max_enemy_count as usize {
            match spawn {
                Some(e) => {
                    self.enemys.push(e);
                    assert(views(self.enemys@) =~= es.push(e@));
                },
                None => {},
            }
        }
    }


    /// Plays one frame, as [`step`] says, with the enemy that the random
    /// number `roll` makes (see [`Enemy::new_random_enemy`]) joining when a
    /// new one is due.
    pub fn update(&mut self, roll: u64)
        requires
            update_in_range(old(self)@),
        ensures
            final(self)@ == step(
                old(self)@,
                Some(
                    super::entity::spawned_enemy(
                        super::entity::random_column(old(self).width, roll),
                        (roll % 6) as int,
                        display_columns(ENEMY_DISPLAY@[(roll % 6) as int]@) as u16,
                    ),
                ),
            ),
    {
        let due = self.frame_count % 10 == 0 && self.enemys.len() < (self.difficulty * 10) as usize;
        let spawn = if due {
            Some(Enemy::new_random_enemy(self.width, self.height, roll))
        } else {
            None
        };
        self.update_with(spawn);
    }

    /// Whether one frame can be played without a sum leaving its type, as
    /// [`update_in_range`] says.
    pub fn update_fits(&self) -> (ok: bool)
        ensures
            ok == update_in_range(self@),
    {
        if self.difficulty > 25 {
            return false;
        }
        let ghost g = self@;
        let ghost es = enemies_next(g);
        let fire = self.frame_count % 10 == 0;
        let pb = rise_bullets(&self.player.bullets);
        let budget: usize = (self.player.health / HIT_DAMAGE) as usize;
        let mut taken: usize = 0;
        let mut dead: usize = 0;
        let n = self.enemys.len();
        let mut i: usize = 0;
        proof {
            assert(g.enemies.take(0) =~= Seq::<ShipView>::empty());
            assert(es.take(0) =~= Seq::<ShipView>::empty());
        }
        while i < n
            invariant
                i <= n,
                n == g.enemies.len(),
                g == self@,
                es == enemies_next(g),
                fire == fires(g),
                pb@ == rise(g.player.bullets),
                budget == g.player.health / 10,
                taken <= budget,
                taken == hits_on_player(g.enemies.take(i as int), g.player.entity, g.height, fire),
                forall|k: int|
                    0 <= k < i ==> HIT_DAMAGE * hits(pb@, #[trigger] g.enemies[k].entity)
                        <= g.enemies[k].health,
                dead <= i,
                dead == count_dead(es.take(i as int)),
            decreases n - i,
        {
            let enemy = &self.enemys[i];
            let ghost e = g.enemies[i as int];
            assert(enemy@ == e);
            let mut nb = fall_bullets(&enemy.bullets, self.height);
            if fire && enemy.entity.y < self.height {
                nb.push(Bullet { x: enemy.entity.x, y: enemy.entity.y + 1 });
            }
            assert(nb@ == enemy_bullets_next(e, g.height, fire));
            let body: usize = if enemy.entity.coll_detect(&self.player.entity) {
                1
            } else {
                0
            };
            let shots = count_hits(&nb, &self.player.entity);
            proof {
                assert(g.enemies.take(i + 1).drop_last() =~= g.enemies.take(i as int));
                assert(g.enemies.take(i + 1).last() == e);
                lemma_hits_on_player_prefix(g.enemies, i + 1, g.player.entity, g.height, fire);
            }
            if shots > budget - taken || body > budget - taken - shots {
                return false;
            }
            taken = taken + shots + body;
            let got = count_hits(&pb, &enemy.entity);
            if got > (enemy.health / HIT_DAMAGE) as usize {
                assert(!(HIT_DAMAGE * hits(pb@, g.enemies[i as int].entity) <= g.enemies[i as int].health));
                return false;
            }
            let left: u16 = enemy.health - (got as u16) * HIT_DAMAGE;
            proof {
                assert(es[i as int].health == left);
                assert(es.take(i + 1).drop_last() =~= es.take(i as int));
                assert(es.take(i + 1).last() == es[i as int]);
            }
            if left == 0 {
                dead = dead + 1;
            }
            i = i + 1;
        }
        assert(g.enemies.take(n as int) =~= g.enemies);
        assert(es.take(n as int) =~= es);
        dead <= (u16::MAX - self.score) as usize
    }

    /// Takes the dead enemies off the board, keeping the others in order.
    pub fn remove_dead_enemies(&mut self)
        ensures
            final(self)@ == (GameView { enemies: survivors(old(self)@.enemies), ..old(self)@ }),
    {
        let ghost g = self@;
        let mut pending: Vec<Enemy> = Vec::new();
        std::mem::swap(&mut pending, &mut self.enemys);
        let n = pending.len();
        let mut kept: Vec<Enemy> = Vec::new();
        let mut i: usize = 0;
        proof {
            assert(g.enemies.take(0) =~= Seq::<ShipView>::empty());
            assert(views(kept@) =~= Seq::<ShipView>::empty());
        }
        while i < n
            invariant
                i <= n,
                n == g.enemies.len(),
                pending@.len() == n - i,
                forall|k: int| 0 <= k < n - i ==> (#[trigger] pending@[k])@ == g.enemies[i + k],
                views(kept@) == survivors(g.enemies.take(i as int)),
                self.width == g.width,
                self.height == g.height,
                self.difficulty == g.difficulty,
                self.frame_count == g.frame_count,
                self.score == g.score,
                self.player@ == g.player,
            decreases n - i,
        {
            let ghost e = g.enemies[i as int];
            let enemy = pending.remove(0);
            assert(enemy@ == e) by {
                assert(pending@.len() + 1 == n - i);
            }
            assert forall|k: int| 0 <= k < n - (i + 1) implies (#[trigger] pending@[k])@ == g.enemies[
                i + 1 + k] by {}
            let ghost before = kept@;
            proof {
                assert(g.enemies.take(i + 1).drop_last() =~= g.enemies.take(i as int));
                assert(g.enemies.take(i + 1).last() == e);
            }
            if !enemy.is_dead() {
                kept.push(enemy);
                assert(views(kept@) =~= views(before).push(e));
            }
            i = i + 1;
        }
        self.enemys = kept;
        assert(g.enemies.take(n as int) =~= g.enemies);
    }

    /// Counts one more frame.
    pub fn next_frame(&mut self)
        requires
            old(self).frame_count < u128::MAX,
        ensures
            final(self)@ == (GameView { frame_count: (old(self).frame_count + 1) as u128, ..old(self)@ }),
    {
        self.frame_count = self.frame_count + 1;
    }

}

/// The game itself, as a menu of games lists it.
pub struct ThunderFighterGame;

impl ThunderFighterGame {
    /// The game's title.
    pub fn name(&self) -> (s: &'static str)
        ensures
            s@ == "雷霆战机✈️"@,
    {
        "雷霆战机✈️"
    }

    /// How to play.
    pub fn help(&self) -> (s: &'static str)
        ensures
            s@ == "按上下左右操作战机，空格键发射"@,
    {
        "按上下左右操作战机，空格键发射"
    }
}

} // verus!
