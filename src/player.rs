//! The falling, flapping actor.
use vstd::prelude::*;
use crate::draw::{Draw, Color, glyph, cp437_of};

verus! {

/// Vertical velocity set by a flap, in tenths of a cell per physics step.
pub const FLAP_VELOCITY: i32 = -20;

/// Fastest fall, in tenths of a cell per physics step.
pub const TERMINAL_VELOCITY: i32 = 20;

/// Gain in velocity from one physics step of gravity, in tenths of a cell.
pub const GRAVITY: i32 = 2;

/// The player. `x` is the world column, `y` the screen row (0 at the top,
/// growing downwards) and `velocity` the vertical speed in tenths of a cell
/// per physics step, positive when falling.
#[derive(Clone, Copy, Debug, PartialEq, Eq)]
pub struct Player {
    pub x: i32,
    pub y: i32,
    pub velocity: i32,
}

/// Whole cells moved by one step at velocity `v` (tenths), truncated toward
/// zero.
pub open spec fn cells_moved(v: int) -> int {
    if v >= 0 {
        v / 10
    } else {
        -((-v) / 10)
    }
}

/// Velocity after one step of gravity: it gains a fixed amount while under
/// the terminal velocity.
pub open spec fn velocity_after_step(v: int) -> int {
    if v < TERMINAL_VELOCITY {
        v + GRAVITY
    } else {
        v
    }
}

/// The cell that shows the player.
pub open spec fn player_cell(p: Player) -> Draw {
    Draw::Cell { x: 0, y: p.y, fg: Color::Yellow, bg: Color::Black, glyph: cp437_of('@') }
}

/// The player after one physics step.
pub open spec fn advanced(p: Player) -> Player {
    let v = velocity_after_step(p.velocity as int);
    let y = p.y + cells_moved(v);
    Player { x: (p.x + 1) as i32, y: if y < 0 { 0 } else { y as i32 }, velocity: v as i32 }
}

/// The player after a flap: only the velocity changes.
pub open spec fn flapped(p: Player) -> Player {
    Player { velocity: FLAP_VELOCITY, ..p }
}

/// The player after `n` physics steps without flapping.
pub open spec fn advanced_n(p: Player, n: nat) -> Player
    decreases n,
{
    if n == 0 {
        p
    } else {
        advanced(advanced_n(p, (n - 1) as nat))
    }
}

impl Player {
    /// Velocities that gravity and flapping can produce: multiples of two
    /// tenths between a flap and terminal velocity.
    pub open spec fn wf(&self) -> bool {
        FLAP_VELOCITY <= self.velocity <= TERMINAL_VELOCITY && self.velocity % 2 == 0
    }

    /// Room for one more step in the integer position.
    pub open spec fn can_advance(&self) -> bool {
        self.x < i32::MAX && i32::MIN + 2 <= self.y <= i32::MAX - 2
    }

    /// A player at rest at the given position.
    pub fn new(x: i32, y: i32) -> (r: Player)
        ensures
            r == (Player { x, y, velocity: 0 }),
            r.wf(),
    {
        Player { x, y, velocity: 0 }
    }

    /// One physics step: gravity, then vertical and horizontal movement, with
    /// the row kept at or below the top of the screen.
    pub fn advance(&mut self)
        requires
            old(self).wf(),
            old(self).can_advance(),
        ensures
            *final(self) == advanced(*old(self)),
            final(self).wf(),
    {
        if self.velocity < TERMINAL_VELOCITY {
            self.velocity = self.velocity + GRAVITY;
        }
        let moved: i32 = if self.velocity >= 0 {
            self.velocity / 10
        } else {
            -((-self.velocity) / 10)
        };
        self.y = self.y + moved;
        self.x = self.x + 1;
        if self.y < 0 {
            self.y = 0;
        }
    }

    /// The player's glyph, drawn at the left edge of the screen on its row:
    /// the world scrolls past the player.
    pub fn render(&self) -> (r: Draw)
        ensures
            r == player_cell(*self),
    {
        Draw::Cell { x: 0, y: self.y, fg: Color::Yellow, bg: Color::Black, glyph: glyph('@') }
    }

    /// An upward impulse: the velocity becomes that of a flap, whatever it
    /// was.
    pub fn flap(&mut self)
        ensures
            *final(self) == flapped(*old(self)),
            old(self).wf() ==> final(self).wf(),
    {
        self.velocity = FLAP_VELOCITY;
    }
}

/// Flapping twice is the same as flapping once: the impulse does not build
/// up.
pub proof fn lemma_flap_idempotent(p: Player)
    ensures
        flapped(flapped(p)) == flapped(p),
        flapped(p).velocity == FLAP_VELOCITY,
{
}

/// Without flapping, each step adds two tenths to the velocity until it
/// reaches terminal velocity, where it stays.
pub proof fn lemma_velocity_climbs_to_terminal(p: Player, n: nat)
    requires
        p.wf(),
    ensures
        advanced_n(p, n).velocity == if p.velocity + 2 * n < TERMINAL_VELOCITY {
            p.velocity + 2 * n
        } else {
            TERMINAL_VELOCITY as int
        },
        advanced_n(p, n).wf(),
    decreases n,
{
    if n > 0 {
        lemma_velocity_climbs_to_terminal(p, (n - 1) as nat);
    }
}

} // verus!
