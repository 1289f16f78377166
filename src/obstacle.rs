//! Gated walls the player must pass through.
use vstd::prelude::*;
use bracket_lib::prelude::RandomNumberGenerator;
use crate::draw::{Draw, Color, glyph, cp437_of};
use crate::player::Player;
use crate::SCREEN_HEIGHT;

verus! {

#[verifier::external_type_specification]
#[verifier::external_body]
pub struct ExRandomNumberGenerator(RandomNumberGenerator);

/// Relies on bracket_lib's `RandomNumberGenerator::range`: a value from `lo`
/// included to `hi` excluded (rand's `gen_range(lo..hi)`, which panics on an
/// empty range).
#[verifier::external_body]
pub(crate) fn random_in(rng: &mut RandomNumberGenerator, lo: i32, hi: i32) -> (r: i32)
    requires
        lo < hi,
    ensures
        lo <= r < hi,
{
    rng.range(lo, hi)
}

/// Lowest row a gap may be centered on.
pub const GAP_MIN: i32 = 10;

/// The row after the lowest a gap may be centered on.
pub const GAP_END: i32 = 40;

/// Narrowest gap size, reached as the score rises.
pub const MIN_SIZE: i32 = 2;

/// Gap size for a score of zero plus the score.
pub const SIZE_BASE: i32 = 33;

/// The gap size for a score: it shrinks by one per point, down to a floor.
pub open spec fn size_for(score: int) -> int {
    if SIZE_BASE - score > MIN_SIZE {
        SIZE_BASE - score
    } else {
        MIN_SIZE as int
    }
}

/// A wall at world column `x` with an open band centered on row `gap_y`;
/// `size` controls the height of the band.
#[derive(Clone, Copy, Debug, PartialEq, Eq)]
pub struct Obstacle {
    pub x: i32,
    pub gap_y: i32,
    pub size: i32,
}

/// Half of a gap size, rounded toward zero.
pub open spec fn half_of(size: int) -> int {
    if size >= 0 {
        size / 2
    } else {
        -((-size) / 2)
    }
}

/// Whether the player is aligned with the wall and outside its open band.
pub open spec fn hits(o: Obstacle, p: Player) -> bool {
    let half = half_of(o.size as int);
    p.x == o.x && (p.y < o.gap_y - half || p.y > o.gap_y + half)
}

/// The wall cell drawn at column `sx` and row `y`.
pub open spec fn wall_cell(sx: int, y: int) -> Draw {
    Draw::Cell { x: sx as i32, y: y as i32, fg: Color::Red, bg: Color::Black, glyph: cp437_of('|') }
}

/// Rows `from`, `from + 1`, ... before `to`, drawn as wall at column `sx`.
pub open spec fn wall_run(sx: int, from: int, to: int) -> Seq<Draw> {
    Seq::new(if to > from { (to - from) as nat } else { 0 }, |i: int| wall_cell(sx, from + i))
}

/// What an obstacle draws when the player stands at world column `px`: the
/// wall above the band, then the wall from its lower edge to the bottom of
/// the screen, at the column relative to the player.
pub open spec fn obstacle_cells(o: Obstacle, px: int) -> Seq<Draw> {
    let sx = o.x - px;
    let half = half_of(o.size as int);
    wall_run(sx, 0, o.gap_y - half) + wall_run(sx, o.gap_y + half, SCREEN_HEIGHT as int)
}

/// Whether the screen column of an obstacle, and the rows where its band
/// begins and ends, fit the display's coordinates.
pub open spec fn fits_display(o: Obstacle, px: int) -> bool {
    let half = half_of(o.size as int);
    &&& i32::MIN <= o.x - px <= i32::MAX
    &&& i32::MIN <= o.gap_y - half <= i32::MAX
    &&& i32::MIN <= o.gap_y + half <= i32::MAX
}

/// Half of a gap size, rounded toward zero.
fn half_size(size: i32) -> (r: i32)
    ensures
        r == half_of(size as int),
{
    if size >= 0 {
        size / 2
    } else {
        -((-(size as i64)) / 2) as i32
    }
}

impl Obstacle {
    /// A gap centered inside the allowed band, with a size that some score
    /// of zero or more gives.
    pub open spec fn wf(&self) -> bool {
        &&& GAP_MIN <= self.gap_y < GAP_END
        &&& MIN_SIZE <= self.size <= SIZE_BASE
    }

    /// An obstacle at column `x` with its gap centered on `gap_y`, sized for
    /// `score`.
    pub fn with_gap(x: i32, gap_y: i32, score: i32) -> (r: Obstacle)
        requires
            SIZE_BASE - score <= i32::MAX,
        ensures
            r.x == x,
            r.gap_y == gap_y,
            r.size == size_for(score as int),
            score >= SIZE_BASE - MIN_SIZE ==> r.size == MIN_SIZE,
            score < SIZE_BASE - MIN_SIZE ==> r.size == SIZE_BASE - score,
    {
        let size: i32 = if score < SIZE_BASE - MIN_SIZE {
            SIZE_BASE - score
        } else {
            MIN_SIZE
        };
        Obstacle { x, gap_y, size }
    }

    /// An obstacle at column `x` sized for `score`, with its gap drawn at
    /// random from the band of allowed rows.
    pub fn new(x: i32, score: i32, rng: &mut RandomNumberGenerator) -> (r: Obstacle)
        requires
            SIZE_BASE - score <= i32::MAX,
        ensures
            r.x == x,
            GAP_MIN <= r.gap_y < GAP_END,
            r.size == size_for(score as int),
            score >= SIZE_BASE - MIN_SIZE ==> r.size == MIN_SIZE,
            score < SIZE_BASE - MIN_SIZE ==> r.size == SIZE_BASE - score,
            score >= 0 ==> r.wf(),
    {
        let gap_y = random_in(rng, GAP_MIN, GAP_END);
        Obstacle::with_gap(x, gap_y, score)
    }

    /// Whether the player collides with this wall.
    pub fn hit(&self, player: &Player) -> (r: bool)
        ensures
            r == hits(*self, *player),
    {
        let half: i64 = half_size(self.size) as i64;
        let top: i64 = self.gap_y as i64 - half;
        let bottom: i64 = self.gap_y as i64 + half;
        player.x == self.x && ((player.y as i64) < top || (player.y as i64) > bottom)
    }

    /// The wall cells of this obstacle, drawn relative to the player's
    /// column `player_x`.
    pub fn render(&self, player_x: i32) -> (r: Vec<Draw>)
        requires
            fits_display(*self, player_x as int),
        ensures
            r@ == obstacle_cells(*self, player_x as int),
    {
        let sx: i32 = self.x - player_x;
        let half: i64 = half_size(self.size) as i64;
        let wall = glyph('|');
        let top: i64 = self.gap_y as i64 - half;
        let bottom: i64 = self.gap_y as i64 + half;
        let mut out: Vec<Draw> = Vec::new();
        let mut y: i64 = 0;
        while y < top
            invariant
                0 <= y,
                y <= top || y == 0,
                top <= i32::MAX,
                wall == cp437_of('|'),
                sx == self.x - player_x,
                out@ =~= wall_run(sx as int, 0, y as int),
            decreases top - y,
        {
            out.push(Draw::Cell { x: sx, y: y as i32, fg: Color::Red, bg: Color::Black, glyph: wall });
            y = y + 1;
        }
        let ghost upper = out@;
        let mut y: i64 = bottom;
        while y < SCREEN_HEIGHT as i64
            invariant
                bottom <= y,
                y <= SCREEN_HEIGHT || y == bottom,
                i32::MIN <= bottom,
                wall == cp437_of('|'),
                sx == self.x - player_x,
                upper == wall_run(sx as int, 0, top as int),
                out@ =~= upper + wall_run(sx as int, bottom as int, y as int),
            decreases SCREEN_HEIGHT - y,
        {
            out.push(Draw::Cell { x: sx, y: y as i32, fg: Color::Red, bg: Color::Black, glyph: wall });
            y = y + 1;
        }
        out
    }
}

} // verus!
