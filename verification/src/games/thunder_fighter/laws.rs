use vstd::prelude::*;
use crate::games::entities::{spans_collide, EntityView};
use super::entity::{bullet_hits, fall, hits, rise, ship_dead, spawned_enemy, Bullet, ShipView, HIT_DAMAGE};
use super::game::{
    after_input, count_dead, enemies_next, hits_on_player, enemy_bullets_next, fires, fresh_game, spawn_due, step,
    survivors, update_in_range, GameKey, GameView,
};

verus! {

/// Every bullet of `bs` is on a row of the board whose last row is `height`.
pub open spec fn bullets_on_board(bs: Seq<Bullet>, height: u16) -> bool {
    forall|j: int| 0 <= j < bs.len() ==> (#[trigger] bs[j]).y <= height
}

/// The ship `s` and its bullets are on the board whose last row is `height`.
pub open spec fn ship_on_board(s: ShipView, height: u16) -> bool {
    &&& s.entity.y <= height
    &&& bullets_on_board(s.bullets, height)
}

/// Every ship and bullet of the game stands on a row of its board.
pub open spec fn on_board(g: GameView) -> bool {
    &&& ship_on_board(g.player, g.height)
    &&& forall|i: int| 0 <= i < g.enemies.len() ==> ship_on_board(#[trigger] g.enemies[i], g.height)
}

proof fn lemma_rise_on_board(bs: Seq<Bullet>, height: u16)
    requires
        bullets_on_board(bs, height),
    ensures
        bullets_on_board(rise(bs), height),
    decreases bs.len(),
{
    if bs.len() > 0 {
        lemma_rise_on_board(bs.drop_last(), height);
        assert(bs.last() == bs[bs.len() - 1]);
    }
}

proof fn lemma_fall_on_board(bs: Seq<Bullet>, height: u16)
    ensures
        bullets_on_board(fall(bs, height), height),
    decreases bs.len(),
{
    if bs.len() > 0 {
        lemma_fall_on_board(bs.drop_last(), height);
    }
}

proof fn lemma_survivors_subset(es: Seq<ShipView>)
    ensures
        forall|i: int| 0 <= i < survivors(es).len() ==> es.contains(#[trigger] survivors(es)[i]),
    decreases es.len(),
{
    if es.len() > 0 {
        lemma_survivors_subset(es.drop_last());
        let rest = survivors(es.drop_last());
        assert forall|i: int| 0 <= i < survivors(es).len() implies es.contains(
            #[trigger] survivors(es)[i],
        ) by {
            if i < rest.len() {
                let k = choose|k: int| 0 <= k < es.drop_last().len() && es.drop_last()[k] == rest[i];
                assert(es[k] == rest[i]);
            } else {
                assert(es[es.len() - 1] == es.last());
            }
        }
    }
}

/// A new game starts with everything on the board.
pub proof fn lemma_new_game_on_board(width: u16, height: u16, difficulty: u8, player_width: u16)
    ensures
        on_board(fresh_game(width, height, difficulty, player_width)),
{
}

/// A freshly spawned enemy stands on the board.
pub proof fn lemma_spawned_on_board(x: u16, kind: int, glyph_width: u16, height: u16)
    ensures
        ship_on_board(spawned_enemy(x, kind, glyph_width), height),
{
}

/// No key takes anything off the board.
pub proof fn lemma_input_keeps_on_board(g: GameView, key: GameKey)
    requires
        on_board(g),
    ensures
        on_board(after_input(g, key)),
{
    let h = after_input(g, key);
    assert forall|i: int| 0 <= i < h.enemies.len() implies ship_on_board(#[trigger] h.enemies[i], h.height) by {
        assert(h.enemies == g.enemies);
    }
}

/// A frame keeps everything on the board, provided the enemy that may
/// join stands on it too.
pub proof fn lemma_step_keeps_on_board(g: GameView, spawn: Option<ShipView>)
    requires
        on_board(g),
        spawn matches Some(s) ==> ship_on_board(s, g.height),
    ensures
        on_board(step(g, spawn)),
{
    let h = step(g, spawn);
    let es = enemies_next(g);
    lemma_rise_on_board(g.player.bullets, g.height);
    assert forall|i: int| 0 <= i < es.len() implies ship_on_board(#[trigger] es[i], g.height) by {
        let e = g.enemies[i];
        assert(ship_on_board(e, g.height));
        lemma_fall_on_board(e.bullets, g.height);
        let nb = enemy_bullets_next(e, g.height, fires(g));
        assert(bullets_on_board(nb, g.height)) by {
            let moved = fall(e.bullets, g.height);
            assert forall|j: int| 0 <= j < nb.len() implies (#[trigger] nb[j]).y <= g.height by {
                if j < moved.len() {
                    assert(nb[j] == moved[j]);
                }
            }
        }
    }
    assert forall|i: int| 0 <= i < h.enemies.len() implies ship_on_board(#[trigger] h.enemies[i], h.height) by {
        if i < es.len() {
            assert(h.enemies[i] == es[i]);
        }
    }
}

/// Taking the dead enemies away keeps everything on the board.
pub proof fn lemma_cleanup_keeps_on_board(g: GameView)
    requires
        on_board(g),
    ensures
        on_board(GameView { enemies: survivors(g.enemies), ..g }),
{
    lemma_survivors_subset(g.enemies);
    let s = survivors(g.enemies);
    assert forall|i: int| 0 <= i < s.len() implies ship_on_board(#[trigger] s[i], g.height) by {
        assert(g.enemies.contains(s[i]));
    }
}

/// Up, then down, brings the player back, when up moved it.
pub proof fn lemma_up_then_down(g: GameView)
    requires
        1 <= g.player.entity.y <= g.height,
    ensures
        after_input(after_input(g, GameKey::Up), GameKey::Down) == g,
{
}

/// Down, then up, brings the player back, when down moved it.
pub proof fn lemma_down_then_up(g: GameView)
    requires
        g.player.entity.y + 1 <= g.height,
    ensures
        after_input(after_input(g, GameKey::Down), GameKey::Up) == g,
{
}

/// Left, then right, brings the player back, when left moved it and the
/// player stood within the board.
pub proof fn lemma_left_then_right(g: GameView)
    requires
        g.player.entity.width <= g.player.entity.x <= g.width,
    ensures
        after_input(after_input(g, GameKey::Left), GameKey::Right) == g,
{
}

/// Right, then left, brings the player back, when right moved it.
pub proof fn lemma_right_then_left(g: GameView)
    requires
        g.player.entity.x + g.player.entity.width <= g.width,
    ensures
        after_input(after_input(g, GameKey::Right), GameKey::Left) == g,
{
}

/// The quit key changes nothing.
pub proof fn lemma_quit_changes_nothing(g: GameView)
    ensures
        after_input(g, GameKey::Char('q')) == g,
{
}

/// A frame never lowers the score, never heals the player, leaves the
/// player where it stands and the frame counter as it is, and adds at most
/// one enemy; the enemies never outnumber ten per level of difficulty.
pub proof fn lemma_step_bounds(g: GameView, spawn: Option<ShipView>)
    requires
        update_in_range(g),
    ensures
        step(g, spawn).score >= g.score,
        step(g, spawn).player.health <= g.player.health,
        step(g, spawn).player.entity == g.player.entity,
        step(g, spawn).frame_count == g.frame_count,
        step(g, spawn).enemies.len() <= g.enemies.len() + 1,
        g.enemies.len() <= g.difficulty * 10 ==> step(g, spawn).enemies.len() <= g.difficulty * 10,
{
}

/// After the dead are taken away no enemy is dead.
pub proof fn lemma_survivors_alive(es: Seq<ShipView>)
    ensures
        forall|i: int| 0 <= i < survivors(es).len() ==> !ship_dead(#[trigger] survivors(es)[i]),
    decreases es.len(),
{
    if es.len() > 0 {
        lemma_survivors_alive(es.drop_last());
        let rest = survivors(es.drop_last());
        assert forall|i: int| 0 <= i < survivors(es).len() implies !ship_dead(
            #[trigger] survivors(es)[i],
        ) by {
            if i < rest.len() {
                assert(survivors(es)[i] == rest[i]);
            }
        }
    }
}

/// Taking the dead away twice is taking them away once.
pub proof fn lemma_survivors_idempotent(es: Seq<ShipView>)
    ensures
        survivors(survivors(es)) == survivors(es),
    decreases es.len(),
{
    if es.len() > 0 {
        lemma_survivors_idempotent(es.drop_last());
        let rest = survivors(es.drop_last());
        if !ship_dead(es.last()) {
            assert(rest.push(es.last()).drop_last() =~= rest);
        }
    }
}


/// Moving the player's bullets keeps exactly those below the top row, in
/// their order, each one row higher.
pub proof fn lemma_rise_climbs(bs: Seq<Bullet>)
    ensures
        rise(bs) == bs.filter(|b: Bullet| b.y > 0).map_values(
            |b: Bullet| Bullet { x: b.x, y: (b.y - 1) as u16 },
        ),
    decreases bs.len(),
{
    reveal(Seq::filter);
    if bs.len() > 0 {
        lemma_rise_climbs(bs.drop_last());
    }
    assert(rise(bs) =~= bs.filter(|b: Bullet| b.y > 0).map_values(
        |b: Bullet| Bullet { x: b.x, y: (b.y - 1) as u16 },
    ));
}

/// A bullet below the top row survives the move, one row higher; the
/// moved list has one bullet for each bullet below the top row.
pub proof fn lemma_rise_keeps_bullets_below_top(bs: Seq<Bullet>, i: int)
    requires
        0 <= i < bs.len(),
        bs[i].y >= 1,
    ensures
        rise(bs).contains(Bullet { x: bs[i].x, y: (bs[i].y - 1) as u16 }),
        rise(bs).len() == bs.filter(|b: Bullet| b.y > 0).len(),
{
    lemma_rise_climbs(bs);
    let kept = bs.filter(|b: Bullet| b.y > 0);
    bs.lemma_filter_contains(|b: Bullet| b.y > 0, i);
    let k = choose|k: int| 0 <= k < kept.len() && kept[k] == bs[i];
    assert(rise(bs)[k] == Bullet { x: bs[i].x, y: (bs[i].y - 1) as u16 });
}

/// Moving an enemy's bullets keeps exactly those above the last row, in
/// their order, each one row lower.
pub proof fn lemma_fall_drops(bs: Seq<Bullet>, height: u16)
    ensures
        fall(bs, height) == bs.filter(|b: Bullet| b.y < height).map_values(
            |b: Bullet| Bullet { x: b.x, y: (b.y + 1) as u16 },
        ),
    decreases bs.len(),
{
    reveal(Seq::filter);
    if bs.len() > 0 {
        lemma_fall_drops(bs.drop_last(), height);
    }
    assert(fall(bs, height) =~= bs.filter(|b: Bullet| b.y < height).map_values(
        |b: Bullet| Bullet { x: b.x, y: (b.y + 1) as u16 },
    ));
}

/// The number of hits is the number of bullets that hit.
pub proof fn lemma_hits_counts(bs: Seq<Bullet>, t: EntityView)
    ensures
        hits(bs, t) == bs.filter(|b: Bullet| bullet_hits(b, t)).len(),
    decreases bs.len(),
{
    reveal(Seq::filter);
    if bs.len() > 0 {
        lemma_hits_counts(bs.drop_last(), t);
    }
}

/// The number of dead ships is the number of ships whose health is gone.
pub proof fn lemma_count_dead_counts(es: Seq<ShipView>)
    ensures
        count_dead(es) == es.filter(|e: ShipView| e.health == 0).len(),
    decreases es.len(),
{
    reveal(Seq::filter);
    if es.len() > 0 {
        lemma_count_dead_counts(es.drop_last());
    }
}

/// A bullet is a ship one column wide: it hits exactly what such a ship on
/// its cell would collide with; in particular only targets on its own row,
/// covering its column.
pub proof fn lemma_bullet_is_one_cell(b: Bullet, e: EntityView)
    ensures
        bullet_hits(b, e) == spans_collide(
            EntityView { x: b.x, y: b.y, display: Seq::empty(), width: 1, last_x: b.x, last_y: b.y },
            e,
        ),
        bullet_hits(b, e) ==> b.y == e.y && e.x <= b.x < e.x + e.width,
        (b.y == e.y && e.x <= b.x < e.x + e.width) ==> bullet_hits(b, e),
{
}

/// The entity `e` covers the column `c`.
pub open spec fn covers_column(e: EntityView, c: int) -> bool {
    e.x <= c < e.x + e.width
}

/// Two ships at least one column wide collide exactly when they are on
/// one row and some column is covered by both; collision is symmetric.
pub proof fn lemma_collision_shares_a_cell(a: EntityView, b: EntityView)
    requires
        a.width > 0,
        b.width > 0,
    ensures
        spans_collide(a, b) <==> (a.y == b.y && exists|c: int|
            #[trigger] covers_column(a, c) && covers_column(b, c)),
        spans_collide(a, b) == spans_collide(b, a),
{
    if spans_collide(a, b) {
        let c: int = if a.x <= b.x { b.x as int } else { a.x as int };
        assert(covers_column(a, c) && covers_column(b, c));
    }
}

/// In a frame in which enemies shoot, every enemy above the last row ends
/// the frame with its old bullets moved one row down (those on the last
/// row gone) and one new bullet in the cell below it, whatever bullets it
/// already had; the enemy itself does not move.
pub proof fn lemma_enemies_fire_every_tenth_frame(g: GameView, spawn: Option<ShipView>, i: int)
    requires
        0 <= i < g.enemies.len(),
        g.frame_count % 10 == 0,
        g.enemies[i].entity.y < g.height,
    ensures
        step(g, spawn).enemies[i].bullets == g.enemies[i].bullets.filter(
            |b: Bullet| b.y < g.height,
        ).map_values(|b: Bullet| Bullet { x: b.x, y: (b.y + 1) as u16 }).push(
            Bullet { x: g.enemies[i].entity.x, y: (g.enemies[i].entity.y + 1) as u16 },
        ),
        step(g, spawn).enemies[i].bullets.len() == g.enemies[i].bullets.filter(
            |b: Bullet| b.y < g.height,
        ).len() + 1,
        step(g, spawn).enemies[i].entity == g.enemies[i].entity,
{
    lemma_fall_drops(g.enemies[i].bullets, g.height);
    assert(step(g, spawn).enemies[i] == enemies_next(g)[i]);
}

/// Outside the frames in which enemies shoot (and for an enemy on the last
/// row), an enemy's bullets only move one row down.
pub proof fn lemma_enemies_hold_fire(g: GameView, spawn: Option<ShipView>, i: int)
    requires
        0 <= i < g.enemies.len(),
        g.frame_count % 10 != 0 || g.enemies[i].entity.y >= g.height,
    ensures
        step(g, spawn).enemies[i].bullets == g.enemies[i].bullets.filter(
            |b: Bullet| b.y < g.height,
        ).map_values(|b: Bullet| Bullet { x: b.x, y: (b.y + 1) as u16 }),
        step(g, spawn).enemies[i].entity == g.enemies[i].entity,
{
    lemma_fall_drops(g.enemies[i].bullets, g.height);
    assert(step(g, spawn).enemies[i] == enemies_next(g)[i]);
}

/// In a frame each enemy loses ten health for each of the player's bullets
/// that, after climbing, stands on it; the score grows by the number of
/// enemies whose health is then gone; the player's bullets are the moved
/// ones; and the new enemy, if one is due and given, joins at the end.
pub proof fn lemma_step_damage_and_score(g: GameView, spawn: Option<ShipView>, i: int)
    requires
        update_in_range(g),
        0 <= i < g.enemies.len(),
    ensures
        step(g, spawn).enemies[i].health == g.enemies[i].health - HIT_DAMAGE * rise(
            g.player.bullets,
        ).filter(|b: Bullet| bullet_hits(b, g.enemies[i].entity)).len(),
        step(g, spawn).score == g.score + enemies_next(g).filter(|e: ShipView| e.health == 0).len(),
        step(g, spawn).player.bullets == g.player.bullets.filter(|b: Bullet| b.y > 0).map_values(
            |b: Bullet| Bullet { x: b.x, y: (b.y - 1) as u16 },
        ),
        step(g, spawn).enemies.len() == g.enemies.len() + if spawn_due(g) && spawn is Some {
            1int
        } else {
            0int
        },
        spawn_due(g) && spawn is Some ==> step(g, spawn).enemies.last() == spawn->0,
{
    lemma_hits_counts(rise(g.player.bullets), g.enemies[i].entity);
    lemma_count_dead_counts(enemies_next(g));
    lemma_rise_climbs(g.player.bullets);
    assert(step(g, spawn).enemies[i] == enemies_next(g)[i]);
    assert(HIT_DAMAGE * hits(rise(g.player.bullets), g.enemies[i].entity) <= g.enemies[i].health);
}

/// Space only adds a bullet: the player's bullets gain one, from the
/// player's own cell, after all those already in flight; nothing else
/// changes.
pub proof fn lemma_space_adds_a_bullet(g: GameView)
    ensures
        after_input(g, GameKey::Char(' ')).player.bullets.len() == g.player.bullets.len() + 1,
        after_input(g, GameKey::Char(' ')).player.bullets.take(g.player.bullets.len() as int)
            == g.player.bullets,
        after_input(g, GameKey::Char(' ')).player.bullets.last() == (Bullet {
            x: g.player.entity.x,
            y: g.player.entity.y,
        }),
        after_input(g, GameKey::Char(' ')).player.entity == g.player.entity,
        after_input(g, GameKey::Char(' ')).player.health == g.player.health,
        after_input(g, GameKey::Char(' ')).enemies == g.enemies,
        after_input(g, GameKey::Char(' ')).score == g.score,
{
    assert(after_input(g, GameKey::Char(' ')).player.bullets.take(g.player.bullets.len() as int)
        =~= g.player.bullets);
}

/// An arrow moves the player by at most one row or one glyph width, keeps
/// it on the board's rows, and changes nothing but the player's cell.
pub proof fn lemma_arrows_only_move(g: GameView, key: GameKey)
    requires
        key == GameKey::Up || key == GameKey::Down || key == GameKey::Left || key == GameKey::Right,
        g.player.entity.y <= g.height,
    ensures
        ({
            let h = after_input(g, key);
            &&& h.player.bullets == g.player.bullets
            &&& h.player.health == g.player.health
            &&& h.player.entity.display == g.player.entity.display
            &&& h.player.entity.width == g.player.entity.width
            &&& h.enemies == g.enemies
            &&& h.score == g.score
            &&& h.frame_count == g.frame_count
            &&& h.player.entity.y <= h.height
            &&& (key == GameKey::Up || key == GameKey::Down) ==> h.player.entity.x == g.player.entity.x
                && -1 <= h.player.entity.y - g.player.entity.y <= 1
            &&& (key == GameKey::Left || key == GameKey::Right) ==> h.player.entity.y == g.player.entity.y
                && (h.player.entity.x == g.player.entity.x || h.player.entity.x + g.player.entity.width
                == g.player.entity.x || h.player.entity.x == g.player.entity.x + g.player.entity.width)
            &&& key == GameKey::Up && g.player.entity.y >= 1 ==> h.player.entity.y + 1 == g.player.entity.y
            &&& key == GameKey::Down && g.player.entity.y < g.height ==> h.player.entity.y == g.player.entity.y + 1
            &&& key == GameKey::Up && g.player.entity.y == 0 ==> h.player.entity == g.player.entity
            &&& key == GameKey::Down && g.player.entity.y == g.height ==> h.player.entity == g.player.entity
            &&& key == GameKey::Left && g.player.entity.x >= g.player.entity.width ==> h.player.entity.x
                + g.player.entity.width == g.player.entity.x
            &&& key == GameKey::Left && g.player.entity.x < g.player.entity.width ==> h.player.entity
                == g.player.entity
            &&& key == GameKey::Right && g.player.entity.x + g.player.entity.width <= g.width
                ==> h.player.entity.x == g.player.entity.x + g.player.entity.width
            &&& key == GameKey::Right && g.player.entity.x + g.player.entity.width > g.width
                ==> h.player.entity == g.player.entity
        }),
{
}

/// Clearing the dead keeps exactly the living ships, in their order.
pub proof fn lemma_survivors_are_the_living(es: Seq<ShipView>)
    ensures
        survivors(es) == es.filter(|e: ShipView| e.health != 0),
    decreases es.len(),
{
    reveal(Seq::filter);
    if es.len() > 0 {
        lemma_survivors_are_the_living(es.drop_last());
    }
}

/// Clearing the dead keeps every living ship, and changes nothing when no
/// ship is dead.
pub proof fn lemma_survivors_keep_the_living(es: Seq<ShipView>)
    ensures
        forall|i: int| 0 <= i < es.len() && !ship_dead(es[i]) ==> survivors(es).contains(#[trigger] es[i]),
        (forall|i: int| 0 <= i < es.len() ==> !ship_dead(#[trigger] es[i])) ==> survivors(es) == es,
{
    lemma_survivors_are_the_living(es);
    assert forall|i: int| 0 <= i < es.len() && !ship_dead(es[i]) implies survivors(es).contains(
        #[trigger] es[i],
    ) by {
        es.lemma_filter_contains(|e: ShipView| e.health != 0, i);
    }
    if forall|i: int| 0 <= i < es.len() ==> !ship_dead(#[trigger] es[i]) {
        lemma_none_dead_all_survive(es);
    }
}

proof fn lemma_none_dead_all_survive(es: Seq<ShipView>)
    requires
        forall|i: int| 0 <= i < es.len() ==> !ship_dead(#[trigger] es[i]),
    ensures
        survivors(es) == es,
    decreases es.len(),
{
    if es.len() > 0 {
        assert forall|i: int| 0 <= i < es.drop_last().len() implies !ship_dead(
            #[trigger] es.drop_last()[i],
        ) by {
            assert(es.drop_last()[i] == es[i]);
        }
        lemma_none_dead_all_survive(es.drop_last());
        assert(!ship_dead(es[es.len() - 1]));
        assert(es.drop_last().push(es.last()) =~= es);
    }
}


/// The player's hits add up over the enemies: none from no enemies, and
/// each enemy adds one if it rams the player plus one for each of its
/// bullets that, after moving (and firing), stands on the player.
pub proof fn lemma_player_hits_add_up(es: Seq<ShipView>, e: ShipView, player: EntityView, height: u16, fire: bool)
    ensures
        hits_on_player(Seq::empty(), player, height, fire) == 0,
        hits_on_player(es.push(e), player, height, fire) == hits_on_player(es, player, height, fire)
            + (if spans_collide(e.entity, player) {
            1int
        } else {
            0int
        }) + enemy_bullets_next(e, height, fire).filter(|b: Bullet| bullet_hits(b, player)).len(),
{
    assert(es.push(e).drop_last() =~= es);
    lemma_hits_counts(enemy_bullets_next(e, height, fire), player);
}

/// In a frame the player loses ten health per hit that the enemies deal.
pub proof fn lemma_step_player_damage(g: GameView, spawn: Option<ShipView>)
    requires
        update_in_range(g),
    ensures
        step(g, spawn).player.health == g.player.health - HIT_DAMAGE * hits_on_player(
            g.enemies,
            g.player.entity,
            g.height,
            fires(g),
        ),
{
}

/// A board without enemies can always play a frame, at any difficulty up
/// to the largest whose enemy cap fits in 8 bits.
pub proof fn lemma_empty_board_can_step(g: GameView)
    requires
        g.enemies.len() == 0,
        g.difficulty <= 25,
    ensures
        update_in_range(g),
{
    assert(enemies_next(g) =~= Seq::<ShipView>::empty());
}

} // verus!
