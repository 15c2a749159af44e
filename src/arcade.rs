use vstd::prelude::*;
use vstd::string::StringSliceAdditionalSpecFns;

use crate::load::{parse_program, program_spec, LoadError};

verus! {

/// A point of the arcade screen.
#[derive(Clone, Copy, Debug, PartialEq, Eq, Structural)]
pub struct Position {
    pub x: isize,
    pub y: isize,
}

impl Position {
    pub fn new(x: isize, y: isize) -> (p: Position)
        ensures
            p.x == x,
            p.y == y,
    {
        Position { x, y }
    }
}

#[derive(Clone, Copy, Debug, PartialEq, Eq, Structural)]
pub enum Tile {
    Empty,
    Wall,
    Block,
    Paddle,
    Ball,
}

/// The tile that an output value names, if any.
pub open spec fn tile_spec(value: i64) -> Option<Tile> {
    if value == 0 {
        Some(Tile::Empty)
    } else if value == 1 {
        Some(Tile::Wall)
    } else if value == 2 {
        Some(Tile::Block)
    } else if value == 3 {
        Some(Tile::Paddle)
    } else if value == 4 {
        Some(Tile::Ball)
    } else {
        None
    }
}

/// The index of the screen entry at `p`, if there is one.
pub open spec fn entry_of(screen: Seq<(Position, Tile)>, p: Position) -> Option<int> {
    if exists|k: int| 0 <= k < screen.len() && screen[k].0 == p {
        Some(choose|k: int| 0 <= k < screen.len() && screen[k].0 == p)
    } else {
        None
    }
}

/// No two entries of the screen share a position.
pub open spec fn distinct_positions(screen: Seq<(Position, Tile)>) -> bool {
    forall|a: int, b: int|
        0 <= a < b < screen.len() ==> #[trigger] screen[a].0 != #[trigger] screen[b].0
}

/// The number of Block tiles among the first `n` entries.
pub open spec fn blocks(screen: Seq<(Position, Tile)>, n: int) -> nat
    decreases n,
{
    if n <= 0 {
        0
    } else {
        blocks(screen, n - 1) + if screen[n - 1].1 == Tile::Block {
            1nat
        } else {
            0nat
        }
    }
}

/// The arcade cabinet: its program, what its screen shows, and the score.
pub struct Game {
    program: Vec<i64>,
    screen: Vec<(Position, Tile)>,
    score: i64,
}

impl Game {
    pub closed spec fn program_view(&self) -> Seq<i64> {
        self.program@
    }

    pub closed spec fn screen_view(&self) -> Seq<(Position, Tile)> {
        self.screen@
    }

    pub closed spec fn score_view(&self) -> i64 {
        self.score
    }

    /// A cabinet running the program written in `input`, with a blank
    /// screen and no score.
    pub fn new(input: &str) -> (r: Result<Game, LoadError>)
        ensures
            match program_spec(input.spec_bytes()) {
                Ok(p) => r is Ok && r->Ok_0.program_view() == p && r->Ok_0.screen_view().len()
                    == 0 && r->Ok_0.score_view() == 0,
                Err(e) => r == Err::<Game, LoadError>(e),
            },
    {
        match parse_program(input) {
            Ok(program) => Ok(Game { program, screen: Vec::new(), score: 0 }),
            Err(e) => Err(e),
        }
    }

    /// The program, as patched so far.
    pub fn program(&self) -> (r: &Vec<i64>)
        ensures
            r@ == self.program_view(),
    {
        &self.program
    }

    pub fn score(&self) -> (r: i64)
        ensures
            r == self.score_view(),
    {
        self.score
    }

    /// Sets the program's first cell to 2, so that the game plays for free.
    pub fn insert_quarters(&mut self)
        ensures
            old(self).program_view().len() > 0 ==> final(self).program_view() == old(self).program_view().update(0, 2),
            old(self).program_view().len() == 0 ==> final(self).program_view() == old(self).program_view(),
            final(self).screen_view() == old(self).screen_view(),
            final(self).score_view() == old(self).score_view(),
    {
        if self.program.len() > 0 {
            self.program.set(0, 2);
        }
    }

    /// Handles one output triple of the program: `(-1, 0, v)` sets the score
    /// to `v`; otherwise the tile that `value` names is drawn at `(x, y)`.
    /// Returns false, changing nothing, where `value` names no tile.
    pub fn draw(&mut self, x: isize, y: isize, value: i64) -> (r: bool)
        requires
            distinct_positions(old(self).screen_view()),
        ensures
            distinct_positions(final(self).screen_view()),
            final(self).program_view() == old(self).program_view(),
            x == -1 && y == 0 ==> r && final(self).score_view() == value && final(self).screen_view() == old(self).screen_view(),
            !(x == -1 && y == 0) ==> match tile_spec(value) {
                None => !r && final(self).screen_view() == old(self).screen_view()
                    && final(self).score_view() == old(self).score_view(),
                Some(t) => r && final(self).score_view() == old(self).score_view() && match entry_of(
                    old(self).screen_view(),
                    Position { x, y },
                ) {
                    Some(k) => final(self).screen_view() == old(self).screen_view().update(
                        k,
                        (Position { x, y }, t),
                    ),
                    None => final(self).screen_view() == old(self).screen_view().push(
                        (Position { x, y }, t),
                    ),
                },
            },
    {
        if x == -1 && y == 0 {
            self.score = value;
            return true;
        }
        let tile = match value {
            0 => Tile::Empty,
            1 => Tile::Wall,
            2 => Tile::Block,
            3 => Tile::Paddle,
            4 => Tile::Ball,
            _ => return false,
        };
        let p = Position::new(x, y);
        let mut k: usize = 0;
        while k < self.screen.len()
            invariant
                k <= self.screen@.len(),
                self.screen@ == old(self).screen@,
                self.program@ == old(self).program@,
                self.score == old(self).score,
                forall|j: int| 0 <= j < k ==> self.screen@[j].0 != p,
                distinct_positions(self.screen@),
                !(x == -1 && y == 0),
                tile_spec(value) == Some(tile),
                p == (Position { x, y }),
            decreases self.screen@.len() - k,
        {
            if self.screen[k].0 == p {
                proof {
                    let c = choose|j: int| 0 <= j < self.screen@.len() && self.screen@[j].0 == p;
                    if c != k {
                        if c < k {
                            assert(self.screen@[c].0 != p);
                        } else {
                            assert(self.screen@[k as int].0 != self.screen@[c].0);
                        }
                    }
                }
                self.screen.set(k, (p, tile));
                assert forall|a: int, b: int|
                    0 <= a < b < self.screen@.len() implies #[trigger] self.screen@[a].0
                    != #[trigger] self.screen@[b].0 by {
                    assert(old(self).screen@[a].0 != old(self).screen@[b].0);
                }
                return true;
            }
            k = k + 1;
        }
        self.screen.push((p, tile));
        assert forall|a: int, b: int|
            0 <= a < b < self.screen@.len() implies #[trigger] self.screen@[a].0
            != #[trigger] self.screen@[b].0 by {
            if b < old(self).screen@.len() {
                assert(old(self).screen@[a].0 != old(self).screen@[b].0);
            }
        }
        true
    }

    /// How many Block tiles the screen shows.
    pub fn block_count(&self) -> (r: usize)
        ensures
            r == blocks(self.screen_view(), self.screen_view().len() as int),
    {
        let mut count: usize = 0;
        let mut i: usize = 0;
        while i < self.screen.len()
            invariant
                i <= self.screen@.len(),
                count == blocks(self.screen@, i as int),
                count <= i,
            decreases self.screen@.len() - i,
        {
            if self.screen[i].1 == Tile::Block {
                count = count + 1;
            }
            i = i + 1;
        }
        count
    }

    /// The smallest and largest x, then y, of any drawn tile; `None` on a
    /// blank screen.
    pub fn screen_extents(&self) -> (r: Option<(isize, isize, isize, isize)>)
        ensures
            match r {
                None => self.screen_view().len() == 0,
                Some((x_min, x_max, y_min, y_max)) => {
                    &&& self.screen_view().len() > 0
                    &&& forall|k: int|
                        0 <= k < self.screen_view().len() ==> x_min <= #[trigger] self.screen_view()[k].0.x
                            <= x_max && y_min <= self.screen_view()[k].0.y <= y_max
                    &&& exists|k: int| 0 <= k < self.screen_view().len() && self.screen_view()[k].0.x == x_min
                    &&& exists|k: int| 0 <= k < self.screen_view().len() && self.screen_view()[k].0.x == x_max
                    &&& exists|k: int| 0 <= k < self.screen_view().len() && self.screen_view()[k].0.y == y_min
                    &&& exists|k: int| 0 <= k < self.screen_view().len() && self.screen_view()[k].0.y == y_max
                },
            },
    {
        if self.screen.len() == 0 {
            return None;
        }
        let first = self.screen[0].0;
        let mut x_min = first.x;
        let mut x_max = first.x;
        let mut y_min = first.y;
        let mut y_max = first.y;
        let ghost (mut a, mut b, mut c, mut d) = (0int, 0int, 0int, 0int);
        let mut i: usize = 1;
        while i < self.screen.len()
            invariant
                1 <= i <= self.screen@.len(),
                forall|k: int|
                    0 <= k < i ==> x_min <= #[trigger] self.screen@[k].0.x <= x_max && y_min
                        <= self.screen@[k].0.y <= y_max,
                0 <= a < i && self.screen@[a].0.x == x_min,
                0 <= b < i && self.screen@[b].0.x == x_max,
                0 <= c < i && self.screen@[c].0.y == y_min,
                0 <= d < i && self.screen@[d].0.y == y_max,
            decreases self.screen@.len() - i,
        {
            let p = self.screen[i].0;
            if p.x < x_min {
                x_min = p.x;
                proof { a = i as int; }
            }
            if p.x > x_max {
                x_max = p.x;
                proof { b = i as int; }
            }
            if p.y < y_min {
                y_min = p.y;
                proof { c = i as int; }
            }
            if p.y > y_max {
                y_max = p.y;
                proof { d = i as int; }
            }
            i = i + 1;
        }
        assert(0 <= a < self.screen_view().len() && self.screen_view()[a].0.x == x_min);
        assert(0 <= b < self.screen_view().len() && self.screen_view()[b].0.x == x_max);
        assert(0 <= c < self.screen_view().len() && self.screen_view()[c].0.y == y_min);
        assert(0 <= d < self.screen_view().len() && self.screen_view()[d].0.y == y_max);
        Some((x_min, x_max, y_min, y_max))
    }
}

} // verus!
