use std::collections::VecDeque;

use vstd::prelude::*;

use crate::types::{KeyDirection, SpacePoint};

verus! {

/// A snake: `body[0]` is the head, the last cell the tail.
pub struct Snake {
    pub body: VecDeque<SpacePoint>,
    pub direction: KeyDirection,
    pub alive: bool,
    pub score: u16,
}

/// `p` lies on a board of `w` by `h` cells.
pub open spec fn in_bounds(p: SpacePoint, w: u16, h: u16) -> bool {
    p.x < w && p.y < h
}

/// Every cell of `cells` lies on the board.
pub open spec fn all_in_bounds(cells: Seq<SpacePoint>, w: u16, h: u16) -> bool {
    forall|i: int| 0 <= i < cells.len() ==> in_bounds(#[trigger] cells[i], w, h)
}

/// Moving one cell from `p` towards `d` neither underflows nor overflows.
pub open spec fn step_defined(p: SpacePoint, d: KeyDirection, w: u16, h: u16) -> bool {
    match d {
        KeyDirection::Up => p.y != 0 || h >= 1,
        KeyDirection::Down => h >= 1 && p.y < u16::MAX,
        KeyDirection::Left => p.x != 0 || w >= 1,
        KeyDirection::Right => w >= 1 && p.x < u16::MAX,
    }
}

/// The cell one step from `p` towards `d`, wrapping around the edges of a
/// board of `w` by `h` cells.
pub open spec fn stepped(p: SpacePoint, d: KeyDirection, w: u16, h: u16) -> SpacePoint {
    match d {
        KeyDirection::Up => SpacePoint {
            x: p.x,
            y: if p.y == 0 { (h - 1) as u16 } else { (p.y - 1) as u16 },
        },
        KeyDirection::Down => SpacePoint {
            x: p.x,
            y: if p.y == h - 1 { 0 } else { (p.y + 1) as u16 },
        },
        KeyDirection::Left => SpacePoint {
            x: if p.x == 0 { (w - 1) as u16 } else { (p.x - 1) as u16 },
            y: p.y,
        },
        KeyDirection::Right => SpacePoint {
            x: if p.x == w - 1 { 0 } else { (p.x + 1) as u16 },
            y: p.y,
        },
    }
}

/// A step from a cell of a non-empty board is defined and stays on the board.
pub proof fn lemma_stepped_in_bounds(p: SpacePoint, d: KeyDirection, w: u16, h: u16)
    requires
        in_bounds(p, w, h),
    ensures
        step_defined(p, d, w, h),
        in_bounds(stepped(p, d, w, h), w, h),
{
}

/// The cell `i` steps behind a head at (`x`, `y`) heading towards `d`.
pub open spec fn trail_cell(x: u16, y: u16, d: KeyDirection, i: int) -> SpacePoint {
    match d {
        KeyDirection::Up => SpacePoint { x, y: (y + i) as u16 },
        KeyDirection::Down => SpacePoint { x, y: (y - i) as u16 },
        KeyDirection::Left => SpacePoint { x: (x + i) as u16, y },
        KeyDirection::Right => SpacePoint { x: (x - i) as u16, y },
    }
}

/// A trail of `len` cells behind (`x`, `y`) stays within `u16`.
pub open spec fn trail_fits(x: u16, y: u16, d: KeyDirection, len: u16) -> bool {
    match d {
        KeyDirection::Up => y + len - 1 <= u16::MAX,
        KeyDirection::Down => y - len + 1 >= 0,
        KeyDirection::Left => x + len - 1 <= u16::MAX,
        KeyDirection::Right => x - len + 1 >= 0,
    }
}

/// The three cells a new single-player snake starts on: its head at the
/// centre of the board and its body to the head's left.
pub open spec fn start_body(w: u16, h: u16) -> Seq<SpacePoint> {
    seq![
        SpacePoint { x: (w / 2) as u16, y: (h / 2) as u16 },
        SpacePoint { x: (w / 2 - 1) as u16, y: (h / 2) as u16 },
        SpacePoint { x: (w / 2 - 2) as u16, y: (h / 2) as u16 },
    ]
}

/// Whether `p` is one of the cells of `cells`.
pub fn cells_contain(cells: &VecDeque<SpacePoint>, p: SpacePoint) -> (b: bool)
    ensures
        b == cells@.contains(p),
{
    let n = cells.len();
    let mut i: usize = 0;
    while i < n
        invariant
            n == cells@.len(),
            i <= n,
            forall|j: int| 0 <= j < i ==> cells@[j] != p,
        decreases n - i,
    {
        if cells[i] == p {
            proof {
                assert(cells@[i as int] == p);
            }
            return true;
        }
        i = i + 1;
    }
    false
}

/// Whether `p` is one of the cells of `cells` other than the first.
pub fn cells_contain_after_first(cells: &VecDeque<SpacePoint>, p: SpacePoint) -> (b: bool)
    ensures
        b == (cells@.len() > 0 && cells@.drop_first().contains(p)),
{
    let n = cells.len();
    if n == 0 {
        return false;
    }
    let mut i: usize = 1;
    while i < n
        invariant
            n == cells@.len(),
            1 <= i <= n,
            forall|j: int| 1 <= j < i ==> cells@[j] != p,
        decreases n - i,
    {
        if cells[i] == p {
            proof {
                assert(cells@.drop_first()[i - 1] == p);
            }
            return true;
        }
        i = i + 1;
    }
    proof {
        assert forall|j: int| 0 <= j < cells@.drop_first().len() implies cells@.drop_first()[j]
            != p by {
            assert(cells@.drop_first()[j] == cells@[j + 1]);
        }
    }
    false
}

impl Snake {
    /// A new single-player snake of three cells, heading right, with its
    /// head at the centre of a `width` by `height` board.
    pub fn new(width: u16, height: u16) -> (s: Snake)
        requires
            width >= 4,
        ensures
            s.body@ == start_body(width, height),
            s.direction == KeyDirection::Right,
            s.alive,
            s.score == 0,
    {
        let mut body: VecDeque<SpacePoint> = VecDeque::new();
        body.push_front(SpacePoint { x: (width / 2) - 2, y: height / 2 });
        body.push_front(SpacePoint { x: (width / 2) - 1, y: height / 2 });
        body.push_front(SpacePoint { x: width / 2, y: height / 2 });
        proof {
            assert(body@ =~= start_body(width, height));
        }
        Snake { body, direction: KeyDirection::Right, alive: true, score: 0 }
    }

    /// A new snake of `len` cells, heading towards `direction`, with its head
    /// at (`x`, `y`) and its body in a straight line behind the head.
    pub fn new_at(x: u16, y: u16, direction: KeyDirection, len: u16) -> (s: Snake)
        requires
            trail_fits(x, y, direction, len),
        ensures
            s.body@.len() == len,
            forall|i: int| 0 <= i < len ==> #[trigger] s.body@[i] == trail_cell(x, y, direction, i),
            s.direction == direction,
            s.alive,
            s.score == 0,
    {
        let mut body: VecDeque<SpacePoint> = VecDeque::new();
        let mut i: u16 = 0;
        while i < len
            invariant
                i <= len,
                trail_fits(x, y, direction, len),
                body@.len() == i,
                forall|j: int| 0 <= j < i ==> #[trigger] body@[j] == trail_cell(x, y, direction, j),
            decreases len - i,
        {
            let cell = match direction {
                KeyDirection::Up => SpacePoint { x, y: y + i },
                KeyDirection::Down => SpacePoint { x, y: y - i },
                KeyDirection::Left => SpacePoint { x: x + i, y },
                KeyDirection::Right => SpacePoint { x: x - i, y },
            };
            body.push_back(cell);
            i = i + 1;
        }
        Snake { body, direction, alive: true, score: 0 }
    }

    /// The cell the head moves to on the next step.
    pub open spec fn next_head(&self, width: u16, height: u16) -> SpacePoint {
        stepped(self.body@[0], self.direction, width, height)
    }

    /// The next step of this snake on a `width` by `height` board is defined.
    pub open spec fn can_advance(&self, width: u16, height: u16) -> bool {
        &&& self.body@.len() > 0
        &&& step_defined(self.body@[0], self.direction, width, height)
    }

    /// Advances the snake one step in its current direction, wrapping at the
    /// board's edges. The old tail stays: the caller drops it unless the
    /// snake has eaten. The snake dies when the new head lands on one of its
    /// cells. Returns the new head.
    pub fn advance(&mut self, width: u16, height: u16) -> (new_head: SpacePoint)
        requires
            old(self).can_advance(width, height),
        ensures
            new_head == old(self).next_head(width, height),
            final(self).body@ == seq![new_head] + old(self).body@,
            final(self).alive == (old(self).alive && !old(self).body@.contains(new_head)),
            final(self).direction == old(self).direction,
            final(self).score == old(self).score,
    {
        let head = self.body[0];
        let mut new_x = head.x;
        let mut new_y = head.y;
        match self.direction {
            KeyDirection::Up => {
                if new_y == 0 {
                    new_y = height - 1;
                } else {
                    new_y = new_y - 1;
                }
            },
            KeyDirection::Down => {
                if new_y == height - 1 {
                    new_y = 0;
                } else {
                    new_y = new_y + 1;
                }
            },
            KeyDirection::Left => {
                if new_x == 0 {
                    new_x = width - 1;
                } else {
                    new_x = new_x - 1;
                }
            },
            KeyDirection::Right => {
                if new_x == width - 1 {
                    new_x = 0;
                } else {
                    new_x = new_x + 1;
                }
            },
        }
        let new_head = SpacePoint { x: new_x, y: new_y };
        if cells_contain(&self.body, new_head) {
            self.alive = false;
        }
        self.body.push_front(new_head);
        new_head
    }
}

} // verus!
