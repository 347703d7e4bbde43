use vstd::prelude::*;
use crate::games::entities::{display_columns, text_display_width, Entity, EntityView, GameEntity};
use super::game::ENEMY_DISPLAY;

verus! {

/// Health a player starts with.
pub const PLAYER_HEALTH: u16 = 100;

/// Health an enemy starts with.
pub const ENEMY_HEALTH: u16 = 10;

/// Health that one hit takes away.
pub const HIT_DAMAGE: u16 = 10;

/// A shot: one cell on the board.
#[derive(Debug, Clone, Copy, PartialEq, Eq, Structural)]
pub struct Bullet {
    pub x: u16,
    pub y: u16,
}

/// A bullet hits an entity when it stands on the entity's row, inside the
/// columns the entity covers.
pub open spec fn bullet_hits(b: Bullet, e: EntityView) -> bool {
    &&& b.y == e.y
    &&& e.x <= b.x
    &&& b.x < e.x + e.width
}

impl Bullet {
    /// Whether the bullet stands on a cell that `target` covers.
    pub fn coll_detect(&self, target: &Entity) -> (hit: bool)
        ensures
            hit == bullet_hits(*self, target@),
    {
        self.y == target.y && target.x <= self.x && (self.x as u32) < target.x as u32
            + target.width as u32
    }
}

/// The player's bullets one frame later: each climbs one row; one that is
/// on the top row already leaves the board.
pub open spec fn rise(bs: Seq<Bullet>) -> Seq<Bullet>
    decreases bs.len(),
{
    if bs.len() == 0 {
        bs
    } else {
        let rest = rise(bs.drop_last());
        let b = bs.last();
        if b.y > 0 {
            rest.push(Bullet { x: b.x, y: (b.y - 1) as u16 })
        } else {
            rest
        }
    }
}

/// The enemies' bullets one frame later on a board whose last row is
/// `height`: each drops one row; one that is on the last row already
/// leaves the board.
pub open spec fn fall(bs: Seq<Bullet>, height: u16) -> Seq<Bullet>
    decreases bs.len(),
{
    if bs.len() == 0 {
        bs
    } else {
        let rest = fall(bs.drop_last(), height);
        let b = bs.last();
        if b.y < height {
            rest.push(Bullet { x: b.x, y: (b.y + 1) as u16 })
        } else {
            rest
        }
    }
}

/// How many of the bullets `bs` hit `target`.
pub open spec fn hits(bs: Seq<Bullet>, target: EntityView) -> nat
    decreases bs.len(),
{
    if bs.len() == 0 {
        0
    } else {
        hits(bs.drop_last(), target) + if bullet_hits(bs.last(), target) {
            1nat
        } else {
            0nat
        }
    }
}

/// The bullets one frame later, as [`rise`] says.
pub fn rise_bullets(bs: &Vec<Bullet>) -> (out: Vec<Bullet>)
    ensures
        out@ == rise(bs@),
{
    let mut out: Vec<Bullet> = Vec::new();
    let mut i: usize = 0;
    while i < bs.len()
        invariant
            i <= bs.len(),
            out@ == rise(bs@.take(i as int)),
        decreases bs.len() - i,
    {
        let b = bs[i];
        if b.y > 0 {
            out.push(Bullet { x: b.x, y: b.y - 1 });
        }
        assert(bs@.take(i + 1).drop_last() =~= bs@.take(i as int));
        i = i + 1;
    }
    assert(bs@.take(bs.len() as int) =~= bs@);
    out
}

/// The bullets one frame later, as [`fall`] says.
pub fn fall_bullets(bs: &Vec<Bullet>, height: u16) -> (out: Vec<Bullet>)
    ensures
        out@ == fall(bs@, height),
{
    let mut out: Vec<Bullet> = Vec::new();
    let mut i: usize = 0;
    while i < bs.len()
        invariant
            i <= bs.len(),
            out@ == fall(bs@.take(i as int), height),
        decreases bs.len() - i,
    {
        let b = bs[i];
        if b.y < height {
            out.push(Bullet { x: b.x, y: b.y + 1 });
        }
        assert(bs@.take(i + 1).drop_last() =~= bs@.take(i as int));
        i = i + 1;
    }
    assert(bs@.take(bs.len() as int) =~= bs@);
    out
}

/// How many of the bullets `bs` hit `target`, as [`hits`] says.
pub fn count_hits(bs: &Vec<Bullet>, target: &Entity) -> (n: usize)
    ensures
        n == hits(bs@, target@),
        n <= bs.len(),
{
    let mut n: usize = 0;
    let mut i: usize = 0;
    while i < bs.len()
        invariant
            i <= bs.len(),
            n <= i,
            n == hits(bs@.take(i as int), target@),
        decreases bs.len() - i,
    {
        if bs[i].coll_detect(target) {
            n = n + 1;
        }
        assert(bs@.take(i + 1).drop_last() =~= bs@.take(i as int));
        i = i + 1;
    }
    assert(bs@.take(bs.len() as int) =~= bs@);
    n
}

/// The mathematical value of a [`Player`] or an [`Enemy`].
pub struct ShipView {
    pub entity: EntityView,
    pub health: u16,
    pub bullets: Seq<Bullet>,
}

/// The fighter that the keyboard steers.
pub struct Player {
    pub entity: Entity,
    pub health: u16,
    pub bullets: Vec<Bullet>,
}

/// A ship that shoots down at the player.
pub struct Enemy {
    pub entity: Entity,
    pub health: u16,
    pub bullets: Vec<Bullet>,
}

impl View for Player {
    type V = ShipView;

    open spec fn view(&self) -> ShipView {
        ShipView { entity: self.entity@, health: self.health, bullets: self.bullets@ }
    }
}

impl View for Enemy {
    type V = ShipView;

    open spec fn view(&self) -> ShipView {
        ShipView { entity: self.entity@, health: self.health, bullets: self.bullets@ }
    }
}

/// A ship is dead once its health is gone.
pub open spec fn ship_dead(s: ShipView) -> bool {
    s.health == 0
}

/// The column at which an enemy drawn with the random number `roll`
/// appears on a board `width` columns wide.
pub open spec fn random_column(width: u16, roll: u64) -> u16 {
    if width == 0 {
        0
    } else {
        ((roll / 6) % (width as u64)) as u16
    }
}

/// The enemy that [`Enemy::spawn`] makes.
pub open spec fn spawned_enemy(x: u16, kind: int, glyph_width: u16) -> ShipView {
    ShipView {
        entity: EntityView {
            x,
            y: 0,
            display: ENEMY_DISPLAY@[kind]@,
            width: glyph_width,
            last_x: x,
            last_y: 0,
        },
        health: ENEMY_HEALTH,
        bullets: Seq::empty(),
    }
}

impl Player {
    /// The number of columns the player's glyph covers.
    pub fn width(&self) -> (w: u16)
        ensures
            w == self.entity.width,
    {
        self.entity.width
    }

    /// Fires a bullet from the player's own cell.
    pub fn attack_bullet(&mut self)
        ensures
            final(self)@ == (ShipView {
                bullets: old(self)@.bullets.push(Bullet { x: old(self).entity.x, y: old(self).entity.y }),
                ..old(self)@
            }),
    {
        let b = Bullet { x: self.entity.x, y: self.entity.y };
        self.bullets.push(b);
    }

    /// Moves the player's bullets one frame on, as [`rise`] says.
    pub fn update_bullets_by_speed(&mut self, height: u16)
        ensures
            final(self)@ == (ShipView { bullets: rise(old(self)@.bullets), ..old(self)@ }),
    {
        self.bullets = rise_bullets(&self.bullets);
    }

    /// Whether the player's health is gone.
    pub fn is_dead(&self) -> (dead: bool)
        ensures
            dead == ship_dead(self@),
    {
        self.health == 0
    }
}

impl Enemy {
    /// Fires a bullet into the cell below the enemy, when that cell is on
    /// the board (whose last row is `height`).
    pub fn attack_bullet(&mut self, height: u16)
        ensures
            final(self)@ == (ShipView {
                bullets: if old(self).entity.y < height {
                    old(self)@.bullets.push(Bullet { x: old(self).entity.x, y: (old(self).entity.y + 1) as u16 })
                } else {
                    old(self)@.bullets
                },
                ..old(self)@
            }),
    {
        if self.entity.y < height {
            let b = Bullet { x: self.entity.x, y: self.entity.y + 1 };
            self.bullets.push(b);
        }
    }

    /// Moves the enemy's bullets one frame on, as [`fall`] says.
    pub fn update_bullets_by_speed(&mut self, height: u16)
        ensures
            final(self)@ == (ShipView { bullets: fall(old(self)@.bullets, height), ..old(self)@ }),
    {
        self.bullets = fall_bullets(&self.bullets, height);
    }

    /// Whether the enemy's health is gone.
    pub fn is_dead(&self) -> (dead: bool)
        ensures
            dead == ship_dead(self@),
    {
        self.health == 0
    }

    /// A fresh enemy on the top row at column `x`, drawn with glyph number
    /// `kind` of [`ENEMY_DISPLAY`], which covers `glyph_width` columns.
    pub fn spawn(x: u16, kind: usize, glyph_width: u16) -> (e: Enemy)
        requires
            kind < 6,
        ensures
            e@ == spawned_enemy(x, kind as int, glyph_width),
    {
        let display = String::from_str(ENEMY_DISPLAY[kind]);
        Enemy {
            entity: Entity { x, y: 0, display, width: glyph_width, last_x: x, last_y: 0 },
            health: ENEMY_HEALTH,
            bullets: Vec::new(),
        }
    }

    /// A fresh enemy for a board `width` columns wide, placed and drawn as
    /// the random number `roll` decides: the glyph is number `roll % 6`,
    /// the column [`random_column`].
    pub fn new_random_enemy(width: u16, height: u16, roll: u64) -> (e: Enemy)
        ensures
            e@ == spawned_enemy(
                random_column(width, roll),
                (roll % 6) as int,
                display_columns(ENEMY_DISPLAY@[(roll % 6) as int]@) as u16,
            ),
    {
        let kind = (roll % 6) as usize;
        let columns = text_display_width(ENEMY_DISPLAY[kind]);
        let x: u16 = if width == 0 {
            0
        } else {
            ((roll / 6) % (width as u64)) as u16
        };
        Enemy::spawn(x, kind, columns as u16)
    }
}

impl GameEntity for Player {
    open spec fn cell(&self) -> (u16, u16) {
        (self.entity.x, self.entity.y)
    }

    open spec fn glyph(&self) -> Seq<char> {
        self.entity.display@
    }

    fn position(&self) -> (p: (u16, u16)) {
        (self.entity.x, self.entity.y)
    }

    fn move_to(&mut self, x: u16, y: u16)
        ensures
            final(self)@ == (ShipView { entity: EntityView { x, y, ..old(self)@.entity }, ..old(self)@ }),
    {
        self.entity.x = x;
        self.entity.y = y;
    }

    fn display(&self) -> (s: &str) {
        self.entity.display.as_str()
    }
}

impl GameEntity for Enemy {
    open spec fn cell(&self) -> (u16, u16) {
        (self.entity.x, self.entity.y)
    }

    open spec fn glyph(&self) -> Seq<char> {
        self.entity.display@
    }

    fn position(&self) -> (p: (u16, u16)) {
        (self.entity.x, self.entity.y)
    }

    fn move_to(&mut self, x: u16, y: u16)
        ensures
            final(self)@ == (ShipView { entity: EntityView { x, y, ..old(self)@.entity }, ..old(self)@ }),
    {
        self.entity.x = x;
        self.entity.y = y;
    }

    fn display(&self) -> (s: &str) {
        self.entity.display.as_str()
    }
}

} // verus!
