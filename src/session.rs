//! The game session: its mode machine and the work of one frame.
use vstd::prelude::*;
use bracket_lib::prelude::RandomNumberGenerator;
use crate::draw::{Draw, Color, Line};
use crate::obstacle::{Obstacle, hits, size_for, obstacle_cells};
use crate::player::{Player, advanced, flapped, player_cell};
use crate::{SCREEN_WIDTH, SCREEN_HEIGHT};

verus! {

/// Time between physics steps, in microseconds.
pub const FRAME_DURATION: u64 = 33_000;

/// Column where a fresh player starts.
pub const START_X: i32 = 5;

/// Row where a fresh player starts.
pub const START_Y: i32 = 25;

/// Which handler runs each frame.
#[derive(Clone, Copy, Debug, PartialEq, Eq)]
pub enum GameMode {
    Menu,
    Playing,
    Ended,
}

/// The key signal of one frame.
#[derive(Clone, Copy, Debug, PartialEq, Eq)]
pub enum Key {
    Start,
    Quit,
    Flap,
}

/// What one frame asks of the host: the commands to draw, in order, and
/// whether to stop the game loop.
#[derive(Debug)]
pub struct Frame {
    pub draws: Vec<Draw>,
    pub quit: bool,
}

/// All state of a game: the player, the walls ahead in world order, the
/// score, the time gathered toward the next physics step (microseconds), the
/// mode, and the generator that places gaps.
pub struct Session {
    pub player: Player,
    pub frame_time: u64,
    pub obstacles: Vec<Obstacle>,
    pub mode: GameMode,
    pub score: i32,
    pub rng: RandomNumberGenerator,
}

/// Whether an obstacle at distance `d` ahead of the player is close enough
/// to spawn another: the screen width over `d` exceeds 1.25, that is
/// `80 / d > 5 / 4`. No distance of zero or less qualifies.
pub open spec fn within_lookahead(d: int) -> bool {
    d > 0 && SCREEN_WIDTH * 4 > d * 5
}

/// The obstacles that the player at column `px` has not yet passed, in
/// order.
pub open spec fn kept(obs: Seq<Obstacle>, px: int) -> Seq<Obstacle>
    decreases obs.len(),
{
    if obs.len() == 0 {
        obs
    } else {
        let rest = kept(obs.drop_last(), px);
        if obs.last().x >= px {
            rest.push(obs.last())
        } else {
            rest
        }
    }
}

/// Column of the obstacle in slot `k` once the kept ones are followed by new
/// ones, all of which stand a screen width ahead of the player.
pub open spec fn column_at(kept: Seq<Obstacle>, k: int, px: int) -> int {
    if k < kept.len() {
        kept[k].x as int
    } else {
        px + SCREEN_WIDTH
    }
}

/// The look-ahead rule for slot `k`: it adds an obstacle when there are
/// exactly `k + 1` and the one in slot `k` is close.
pub open spec fn look_ahead(kept: Seq<Obstacle>, n: int, k: int, px: int) -> int {
    if n == k + 1 && within_lookahead(column_at(kept, k, px) - px) {
        n + 1
    } else {
        n
    }
}

/// How many obstacles there are after a frame: the kept ones, one more if
/// any was passed, then the look-ahead rule for slots 0, 1 and 2 in turn.
pub open spec fn count_after_spawning(kept: Seq<Obstacle>, passed_any: bool, px: int) -> int {
    let n1 = kept.len() + if passed_any { 1int } else { 0 };
    look_ahead(kept, look_ahead(kept, look_ahead(kept, n1, 0, px), 1, px), 2, px)
}

/// Wall cells of a sequence of obstacles, one after another.
pub open spec fn all_cells(obs: Seq<Obstacle>, px: int) -> Seq<Draw>
    decreases obs.len(),
{
    if obs.len() == 0 {
        Seq::empty()
    } else {
        all_cells(obs.drop_last(), px) + obstacle_cells(obs.last(), px)
    }
}

/// The menu screen.
pub open spec fn menu_draws() -> Seq<Draw> {
    seq![
        Draw::Clear,
        Draw::Centered { y: 5, line: Line::Title },
        Draw::Centered { y: 8, line: Line::PlayOption },
        Draw::Centered { y: 9, line: Line::QuitOption },
    ]
}

/// The screen after death, with the final score.
pub open spec fn dead_draws(score: i32) -> Seq<Draw> {
    seq![
        Draw::Clear,
        Draw::Centered { y: 5, line: Line::Dead },
        Draw::Centered { y: 6, line: Line::Earned(score) },
        Draw::Centered { y: 8, line: Line::PlayAgain },
        Draw::Centered { y: 9, line: Line::QuitOption },
    ]
}

/// A frame of play: background, player at the left edge, the hint and
/// score lines, then every obstacle relative to the player.
pub open spec fn play_draws(p: Player, score: i32, obs: Seq<Obstacle>) -> Seq<Draw> {
    seq![
        Draw::ClearTo(Color::Navy),
        player_cell(p),
        Draw::Text { x: 0, y: 0, line: Line::FlapHint },
        Draw::Text { x: 0, y: 1, line: Line::Score(score) },
    ] + all_cells(obs, p.x as int)
}

/// Whether `elapsed` more microseconds complete a physics step.
pub open spec fn steps(s: Session, elapsed: u64) -> bool {
    s.frame_time + elapsed > FRAME_DURATION
}

/// The player once a frame's physics and flap have been applied.
pub open spec fn moved_player(s: Session, elapsed: u64, key: Option<Key>) -> Player {
    let p1 = if steps(s, elapsed) { advanced(s.player) } else { s.player };
    if key == Some(Key::Flap) { flapped(p1) } else { p1 }
}

/// How the menu and the death screen answer a key: start plays afresh,
/// quit asks the host to stop, anything else leaves the session as it was.
pub open spec fn answers_key(before: Session, after: Session, key: Option<Key>, quit: bool) -> bool {
    match key {
        Some(Key::Start) => after.is_restarted() && !quit,
        Some(Key::Quit) => after == before && quit,
        _ => after == before && !quit,
    }
}

/// One frame of play from `before` to `after`, with `r` handed to the host.
pub open spec fn plays(before: Session, after: Session, elapsed: u64, key: Option<Key>, r: Frame) -> bool {
    let p = moved_player(before, elapsed, key);
    let ahead = kept(before.obstacles@, p.x as int);
    let passed = before.obstacles@.len() - ahead.len();
    let score = before.score + passed;
    &&& after.player == p
    &&& after.frame_time == if steps(before, elapsed) { 0 } else { before.frame_time + elapsed }
    &&& after.score == score
    &&& after.obstacles@.len() == count_after_spawning(ahead, passed > 0, p.x as int)
    &&& forall|i: int| 0 <= i < ahead.len() ==> after.obstacles@[i] == ahead[i]
    &&& forall|i: int|
        ahead.len() <= i < after.obstacles@.len() ==> {
            &&& #[trigger] after.obstacles@[i].x == p.x + SCREEN_WIDTH
            &&& after.obstacles@[i].size == size_for(score)
            &&& after.obstacles@[i].wf()
        }
    &&& after.mode == if p.y > SCREEN_HEIGHT || exists|i: int|
        0 <= i < ahead.len() && hits(#[trigger] ahead[i], p) {
        GameMode::Ended
    } else {
        GameMode::Playing
    }
    &&& r.draws@ == play_draws(p, before.score, before.obstacles@)
    &&& !r.quit
}

/// Taking one more obstacle into account extends the kept ones by it, if it
/// is not passed.
proof fn lemma_kept_step(obs: Seq<Obstacle>, i: int, px: int)
    requires
        0 <= i < obs.len(),
    ensures
        kept(obs.subrange(0, i + 1), px) == if obs[i].x >= px {
            kept(obs.subrange(0, i), px).push(obs[i])
        } else {
            kept(obs.subrange(0, i), px)
        },
{
    assert(obs.subrange(0, i + 1).drop_last() =~= obs.subrange(0, i));
}

/// Drawing one more obstacle appends its cells.
proof fn lemma_all_cells_step(obs: Seq<Obstacle>, i: int, px: int)
    requires
        0 <= i < obs.len(),
    ensures
        all_cells(obs.subrange(0, i + 1), px) == all_cells(obs.subrange(0, i), px)
            + obstacle_cells(obs[i], px),
{
    assert(obs.subrange(0, i + 1).drop_last() =~= obs.subrange(0, i));
}

/// The kept obstacles are not behind the player, keep their properties, and
/// are no more than there were.
proof fn lemma_kept_bounds(obs: Seq<Obstacle>, px: int, hi: int)
    requires
        forall|i: int| 0 <= i < obs.len() ==> (#[trigger] obs[i]).wf() && obs[i].x <= hi,
    ensures
        kept(obs, px).len() <= obs.len(),
        forall|j: int|
            0 <= j < kept(obs, px).len() ==> (#[trigger] kept(obs, px)[j]).wf() && px
                <= kept(obs, px)[j].x <= hi,
    decreases obs.len(),
{
    if obs.len() > 0 {
        let rest = obs.drop_last();
        assert forall|i: int| 0 <= i < rest.len() implies (#[trigger] rest[i]).wf() && rest[i].x
            <= hi by {
            assert(rest[i] == obs[i]);
        }
        lemma_kept_bounds(rest, px, hi);
        assert(obs[obs.len() - 1] == obs.last());
    }
}

/// Whether the player collides with any of the obstacles.
pub open spec fn any_hits(obs: Seq<Obstacle>, p: Player) -> bool {
    exists|i: int| 0 <= i < obs.len() && hits(#[trigger] obs[i], p)
}

/// Whether the player collides with any of the obstacles.
fn any_hit(obs: &Vec<Obstacle>, p: &Player) -> (r: bool)
    ensures
        r == any_hits(obs@, *p),
{
    let mut i: usize = 0;
    while i < obs.len()
        invariant
            i <= obs@.len(),
            forall|j: int| 0 <= j < i ==> !hits(#[trigger] obs@[j], *p),
        decreases obs@.len() - i,
    {
        if obs[i].hit(p) {
            return true;
        }
        i = i + 1;
    }
    false
}

/// The obstacles not yet passed by the player at column `px`.
fn cull(obs: &Vec<Obstacle>, px: i32) -> (r: Vec<Obstacle>)
    ensures
        r@ == kept(obs@, px as int),
{
    let mut ahead: Vec<Obstacle> = Vec::new();
    let mut i: usize = 0;
    while i < obs.len()
        invariant
            i <= obs@.len(),
            ahead@ == kept(obs@.subrange(0, i as int), px as int),
        decreases obs@.len() - i,
    {
        proof {
            lemma_kept_step(obs@, i as int, px as int);
        }
        if obs[i].x >= px {
            ahead.push(obs[i]);
        }
        i = i + 1;
    }
    assert(obs@.subrange(0, obs@.len() as int) =~= obs@);
    ahead
}

/// The draw commands of a frame of play.
fn play_frame(player: &Player, score: i32, obs: &Vec<Obstacle>) -> (r: Vec<Draw>)
    requires
        forall|i: int|
            0 <= i < obs@.len() ==> (#[trigger] obs@[i]).wf() && player.x - 1 <= obs@[i].x
                <= player.x + SCREEN_WIDTH,
    ensures
        r@ == play_draws(*player, score, obs@),
{
    let px = player.x;
    let mut draws: Vec<Draw> = Vec::new();
    draws.push(Draw::ClearTo(Color::Navy));
    draws.push(player.render());
    draws.push(Draw::Text { x: 0, y: 0, line: Line::FlapHint });
    draws.push(Draw::Text { x: 0, y: 1, line: Line::Score(score) });
    let ghost head = draws@;
    let mut i: usize = 0;
    while i < obs.len()
        invariant
            px == player.x,
            i <= obs@.len(),
            forall|i: int|
                0 <= i < obs@.len() ==> (#[trigger] obs@[i]).wf() && px - 1 <= obs@[i].x <= px
                    + SCREEN_WIDTH,
            draws@ == head + all_cells(obs@.subrange(0, i as int), px as int),
        decreases obs@.len() - i,
    {
        proof {
            lemma_all_cells_step(obs@, i as int, px as int);
            assert(obs@[i as int].wf());
        }
        let mut cells = obs[i].render(px);
        draws.append(&mut cells);
        i = i + 1;
    }
    assert(obs@.subrange(0, obs@.len() as int) =~= obs@);
    assert(draws@ =~= play_draws(*player, score, obs@));
    draws
}

impl Session {
    /// Fresh play: the player at rest at the start, one wall a screen width
    /// out sized for a score of zero, no score, no gathered time.
    pub open spec fn is_restarted(&self) -> bool {
        &&& self.player == Player { x: START_X, y: START_Y, velocity: 0 }
        &&& self.obstacles@.len() == 1
        &&& self.obstacles@[0].x == SCREEN_WIDTH
        &&& self.obstacles@[0].size == size_for(0)
        &&& self.obstacles@[0].wf()
        &&& self.score == 0
        &&& self.frame_time == 0
        &&& self.mode == GameMode::Playing
    }

    /// The invariant of a session: physical player, walls in their band and
    /// no more than a screen width ahead of the player, a player who is still
    /// on screen while playing.
    pub open spec fn wf(&self) -> bool {
        &&& self.player.wf()
        &&& 0 <= self.player.y <= SCREEN_HEIGHT + 2
        &&& self.mode == GameMode::Playing ==> self.player.y <= SCREEN_HEIGHT
        &&& self.frame_time <= FRAME_DURATION
        &&& self.score >= 0
        &&& forall|i: int|
            0 <= i < self.obstacles@.len() ==> {
                &&& #[trigger] self.obstacles@[i].wf()
                &&& self.player.x <= self.obstacles@[i].x <= self.player.x + SCREEN_WIDTH
            }
    }

    /// Room in the integer counters for one more frame of play.
    pub open spec fn has_room(&self) -> bool {
        &&& self.player.x <= i32::MAX - SCREEN_WIDTH - 1
        &&& self.score + self.obstacles@.len() <= i32::MAX
    }

    /// A session at the menu, with the player at the start and one wall a
    /// screen width out.
    pub fn new(rng: RandomNumberGenerator) -> (r: Session)
        ensures
            r.mode == GameMode::Menu,
            r.player == (Player { x: START_X, y: START_Y, velocity: 0 }),
            r.obstacles@.len() == 1,
            r.obstacles@[0].x == SCREEN_WIDTH,
            r.obstacles@[0].size == size_for(0),
            r.score == 0,
            r.frame_time == 0,
            r.wf(),
    {
        let mut rng = rng;
        let first = Obstacle::new(SCREEN_WIDTH, 0, &mut rng);
        let mut obstacles: Vec<Obstacle> = Vec::new();
        obstacles.push(first);
        Session {
            player: Player::new(START_X, START_Y),
            frame_time: 0,
            obstacles,
            mode: GameMode::Menu,
            score: 0,
            rng,
        }
    }

    /// Starts play afresh, from the menu or after death.
    pub fn restart(&mut self)
        ensures
            final(self).is_restarted(),
            final(self).wf(),
    {
        self.player = Player::new(START_X, START_Y);
        self.mode = GameMode::Playing;
        let first = Obstacle::new(SCREEN_WIDTH, 0, &mut self.rng);
        let mut obstacles: Vec<Obstacle> = Vec::new();
        obstacles.push(first);
        self.obstacles = obstacles;
        self.frame_time = 0;
        self.score = 0;
        assert(self.obstacles@[0] == first);
    }

    /// Start or quit as the key asks; shared by the menu and the death
    /// screen.
    fn answer(&mut self, key: Option<Key>) -> (quit: bool)
        requires
            old(self).wf(),
        ensures
            answers_key(*old(self), *final(self), key, quit),
            final(self).wf(),
    {
        match key {
            Some(Key::Start) => {
                self.restart();
                false
            },
            Some(Key::Quit) => true,
            _ => false,
        }
    }

    /// A frame at the menu.
    pub fn main_menu(&mut self, key: Option<Key>) -> (r: Frame)
        requires
            old(self).wf(),
        ensures
            r.draws@ == menu_draws(),
            answers_key(*old(self), *final(self), key, r.quit),
            final(self).wf(),
    {
        let mut draws: Vec<Draw> = Vec::new();
        draws.push(Draw::Clear);
        draws.push(Draw::Centered { y: 5, line: Line::Title });
        draws.push(Draw::Centered { y: 8, line: Line::PlayOption });
        draws.push(Draw::Centered { y: 9, line: Line::QuitOption });
        let quit = self.answer(key);
        assert(draws@ =~= menu_draws());
        Frame { draws, quit }
    }

    /// A frame on the death screen.
    pub fn dead(&mut self, key: Option<Key>) -> (r: Frame)
        requires
            old(self).wf(),
        ensures
            r.draws@ == dead_draws(old(self).score),
            answers_key(*old(self), *final(self), key, r.quit),
            final(self).wf(),
    {
        let mut draws: Vec<Draw> = Vec::new();
        draws.push(Draw::Clear);
        draws.push(Draw::Centered { y: 5, line: Line::Dead });
        draws.push(Draw::Centered { y: 6, line: Line::Earned(self.score) });
        draws.push(Draw::Centered { y: 8, line: Line::PlayAgain });
        draws.push(Draw::Centered { y: 9, line: Line::QuitOption });
        let quit = self.answer(key);
        assert(draws@ =~= dead_draws(old(self).score));
        Frame { draws, quit }
    }

    /// The look-ahead rule for slot `k`: with exactly `k + 1` obstacles and
    /// the one in slot `k` close, one more is placed a screen width ahead.
    fn spawn_ahead(&mut self, k: usize)
        requires
            k < 3,
            old(self).player.x <= i32::MAX - SCREEN_WIDTH,
            old(self).score >= 0,
            forall|i: int|
                0 <= i < old(self).obstacles@.len() ==> i32::MIN <= (#[trigger] old(
                    self,
                ).obstacles@[i]).x - old(self).player.x <= i32::MAX,
        ensures
            final(self).player == old(self).player,
            final(self).score == old(self).score,
            final(self).mode == old(self).mode,
            final(self).frame_time == old(self).frame_time,
            final(self).obstacles@.len() == if old(self).obstacles@.len() == k + 1
                && within_lookahead(old(self).obstacles@[k as int].x - old(self).player.x) {
                old(self).obstacles@.len() + 1
            } else {
                old(self).obstacles@.len() + 0
            },
            forall|i: int|
                0 <= i < old(self).obstacles@.len() ==> final(self).obstacles@[i] == old(
                    self,
                ).obstacles@[i],
            final(self).obstacles@.len() > old(self).obstacles@.len() ==> {
                let o = final(self).obstacles@[old(self).obstacles@.len() as int];
                &&& o.x == old(self).player.x + SCREEN_WIDTH
                &&& o.size == size_for(old(self).score as int)
                &&& o.wf()
            },
    {
        if self.obstacles.len() == k + 1 {
            let d: i64 = self.obstacles[k].x as i64 - self.player.x as i64;
            if d > 0 && (SCREEN_WIDTH as i64) * 4 > d * 5 {
                let o = Obstacle::new(self.player.x + SCREEN_WIDTH, self.score, &mut self.rng);
                self.obstacles.push(o);
            }
        }
    }

    /// Gathers elapsed time, takes a physics step when one is due, and flaps
    /// on the flap key.
    fn physics(&mut self, elapsed: u64, key: Option<Key>)
        requires
            old(self).wf(),
            old(self).mode == GameMode::Playing,
            old(self).has_room(),
        ensures
            final(self).player == moved_player(*old(self), elapsed, key),
            final(self).player.wf(),
            old(self).player.x <= final(self).player.x <= old(self).player.x + 1,
            0 <= final(self).player.y <= SCREEN_HEIGHT + 2,
            final(self).frame_time == if steps(*old(self), elapsed) {
                0
            } else {
                old(self).frame_time + elapsed
            },
            final(self).obstacles == old(self).obstacles,
            final(self).score == old(self).score,
            final(self).mode == old(self).mode,
    {
        if elapsed > FRAME_DURATION - self.frame_time {
            self.frame_time = 0;
            self.player.advance();
        } else {
            self.frame_time = self.frame_time + elapsed;
        }
        match key {
            Some(Key::Flap) => self.player.flap(),
            _ => {},
        }
    }

    /// A frame of play: gather time and take a physics step when one is due,
    /// flap on the flap key, draw, drop the passed walls and score them,
    /// place a new wall if any was passed, end the game on a fall or a
    /// collision, and keep walls coming by the look-ahead rule.
    pub fn play(&mut self, elapsed: u64, key: Option<Key>) -> (r: Frame)
        requires
            old(self).wf(),
            old(self).mode == GameMode::Playing,
            old(self).has_room(),
        ensures
            plays(*old(self), *final(self), elapsed, key, r),
            final(self).wf(),
    {
        let ghost before = *self;
        self.physics(elapsed, key);
        let player = self.player;
        let px = player.x;
        proof {
            assert forall|i: int| 0 <= i < before.obstacles@.len() implies (
            #[trigger] before.obstacles@[i]).wf() && px - 1 <= before.obstacles@[i].x <= px
                + SCREEN_WIDTH by {}
        }
        let draws = play_frame(&player, self.score, &self.obstacles);
        let before_len = self.obstacles.len();
        let ahead = cull(&self.obstacles, px);
        let ghost kept_seq = kept(before.obstacles@, px as int);
        proof {
            lemma_kept_bounds(before.obstacles@, px as int, px + SCREEN_WIDTH);
        }
        let after_len = ahead.len();
        self.obstacles = ahead;
        self.score = self.score + (before_len - after_len) as i32;
        if after_len < before_len {
            let o = Obstacle::new(px + SCREEN_WIDTH, self.score, &mut self.rng);
            self.obstacles.push(o);
        }
        let ended = player.y > SCREEN_HEIGHT || any_hit(&self.obstacles, &player);
        proof {
            if any_hits(self.obstacles@, player) {
                let i = choose|i: int| 0 <= i < self.obstacles@.len() && hits(#[trigger] self.obstacles@[i], player);
                assert(i < kept_seq.len());
                assert(hits(kept_seq[i], player));
            }
            if exists|i: int| 0 <= i < kept_seq.len() && hits(#[trigger] kept_seq[i], player) {
                let i = choose|i: int| 0 <= i < kept_seq.len() && hits(#[trigger] kept_seq[i], player);
                assert(self.obstacles@[i] == kept_seq[i]);
            }
        }
        if ended {
            self.mode = GameMode::Ended;
        }
        self.spawn_ahead(0);
        self.spawn_ahead(1);
        self.spawn_ahead(2);
        Frame { draws, quit: false }
    }

    /// One frame: the handler of the current mode runs.
    pub fn tick(&mut self, elapsed: u64, key: Option<Key>) -> (r: Frame)
        requires
            old(self).wf(),
            old(self).mode == GameMode::Playing ==> old(self).has_room(),
        ensures
            final(self).wf(),
            old(self).mode == GameMode::Menu ==> r.draws@ == menu_draws() && answers_key(
                *old(self),
                *final(self),
                key,
                r.quit,
            ),
            old(self).mode == GameMode::Playing ==> plays(*old(self), *final(self), elapsed, key, r),
            old(self).mode == GameMode::Ended ==> r.draws@ == dead_draws(old(self).score)
                && answers_key(*old(self), *final(self), key, r.quit),
    {
        match self.mode {
            GameMode::Menu => self.main_menu(key),
            GameMode::Playing => self.play(elapsed, key),
            GameMode::Ended => self.dead(key),
        }
    }

    /// Whether the counters have room for another frame of play.
    pub fn room_to_play(&self) -> (r: bool)
        ensures
            r == self.has_room(),
    {
        let room: i64 = i32::MAX as i64 - self.score as i64;
        self.player.x <= i32::MAX - SCREEN_WIDTH - 1 && room >= 0 && (self.obstacles.len() as u128)
            <= room as u128
    }
}

} // verus!
