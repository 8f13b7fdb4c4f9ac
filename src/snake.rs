use vstd::prelude::*;
use crate::input::Input;
use crate::random::choose_one;

verus! {

/// Side of the square board.
pub const BOARD: u8 = 24;
/// Cells of the board, row after row.
pub const BOARD_CELLS: usize = 576;
/// Most cells a snake's body can hold.
pub const BODY_CAPACITY: usize = 1025;

#[verifier::external_type_specification]
#[verifier::external_body]
#[verifier::reject_recursive_types(T)]
pub struct ExHeaplessDeque<T, const N: usize>(heapless::Deque<T, N>);

/// The cells that a snake's body deque holds, head first.
pub uninterp spec fn body_cells(d: heapless::Deque<(u8, u8), 1025>) -> Seq<(u8, u8)>;

/// Relies on heapless::Deque::new: the new deque is empty.
#[verifier::external_body]
fn body_new() -> (r: heapless::Deque<(u8, u8), 1025>)
    ensures
        body_cells(r).len() == 0,
{
    heapless::Deque::new()
}

/// Relies on heapless::Deque::push_front: puts the item in front unless
/// the deque already holds 1025 items, in which case nothing changes.
#[verifier::external_body]
fn body_push_front(d: &mut heapless::Deque<(u8, u8), 1025>, c: (u8, u8)) -> (r: bool)
    ensures
        r == (body_cells(*old(d)).len() < 1025),
        r ==> body_cells(*final(d)) == seq![c] + body_cells(*old(d)),
        !r ==> body_cells(*final(d)) == body_cells(*old(d)),
{
    d.push_front(c).is_ok()
}

/// Relies on heapless::Deque::pop_back: takes out the last item, if any.
#[verifier::external_body]
fn body_pop_back(d: &mut heapless::Deque<(u8, u8), 1025>)
    ensures
        body_cells(*old(d)).len() > 0 ==> body_cells(*final(d)) == body_cells(*old(d)).drop_last(),
        body_cells(*old(d)).len() == 0 ==> body_cells(*final(d)) == body_cells(*old(d)),
{
    d.pop_back();
}

/// Relies on heapless::Deque::len.
#[verifier::external_body]
fn body_len(d: &heapless::Deque<(u8, u8), 1025>) -> (r: usize)
    ensures
        r == body_cells(*d).len(),
{
    d.len()
}

/// Relies on heapless::Deque::iter, which walks from front to back.
#[verifier::external_body]
fn body_nth(d: &heapless::Deque<(u8, u8), 1025>, i: usize) -> (r: (u8, u8))
    requires
        i < body_cells(*d).len(),
    ensures
        r == body_cells(*d)[i as int],
{
    *d.iter().nth(i).unwrap()
}

/// A snake's body: the cells it covers, head first.
pub struct Body {
    cells: heapless::Deque<(u8, u8), 1025>,
}

impl View for Body {
    type V = Seq<(u8, u8)>;

    closed spec fn view(&self) -> Seq<(u8, u8)> {
        body_cells(self.cells)
    }
}

impl Body {
    pub fn new() -> (r: Body)
        ensures
            r@.len() == 0,
    {
        Body { cells: body_new() }
    }

    pub fn len(&self) -> (r: usize)
        ensures
            r == self@.len(),
    {
        body_len(&self.cells)
    }

    pub fn get(&self, i: usize) -> (r: (u8, u8))
        requires
            i < self@.len(),
        ensures
            r == self@[i as int],
    {
        body_nth(&self.cells, i)
    }

    /// Puts `c` in front (as the new head) unless the body is full.
    pub fn push_front(&mut self, c: (u8, u8)) -> (r: bool)
        ensures
            r == (old(self)@.len() < BODY_CAPACITY),
            r ==> final(self)@ == seq![c] + old(self)@,
            !r ==> final(self)@ == old(self)@,
    {
        body_push_front(&mut self.cells, c)
    }

    /// Drops the tail cell, if any.
    pub fn pop_back(&mut self)
        ensures
            old(self)@.len() > 0 ==> final(self)@ == old(self)@.drop_last(),
            old(self)@.len() == 0 ==> final(self)@ == old(self)@,
    {
        body_pop_back(&mut self.cells)
    }
}

/// The board index of cell (column, row).
pub open spec fn cell_index(c: (u8, u8)) -> int {
    c.1 * BOARD as int + c.0
}

pub open spec fn on_board(c: (u8, u8)) -> bool {
    c.0 < BOARD && c.1 < BOARD
}

/// A head moved one cell in its facing (0 up, 1 down, 2 left, 3 right),
/// wrapping round the board's edges.
pub open spec fn stepped(h: (u8, u8), facing: u8) -> (u8, u8) {
    if facing == 0 {
        (h.0, if h.1 > 0 { (h.1 - 1) as u8 } else { (BOARD - 1) as u8 })
    } else if facing == 1 {
        (h.0, if h.1 < BOARD - 1 { (h.1 + 1) as u8 } else { 0u8 })
    } else if facing == 2 {
        (if h.0 > 0 { (h.0 - 1) as u8 } else { (BOARD - 1) as u8 }, h.1)
    } else if facing == 3 {
        (if h.0 < BOARD - 1 { (h.0 + 1) as u8 } else { 0u8 }, h.1)
    } else {
        h
    }
}

/// Whether the body covers board cell `i`.
pub open spec fn covers(b: Seq<(u8, u8)>, i: int) -> bool {
    exists|k: int| 0 <= k < b.len() && cell_index(#[trigger] b[k]) == i
}

/// The two-player growing-snake game.
pub struct Snake {
    pub head_1: (u8, u8),
    pub second_1: (u8, u8),
    pub tail_1: (u8, u8),
    pub facing_1: u8,
    /// Whether snake 1 turned since the last draw.
    pub updated_1: bool,
    pub active_1: bool,
    pub head_2: (u8, u8),
    pub second_2: (u8, u8),
    pub tail_2: (u8, u8),
    pub facing_2: u8,
    pub updated_2: bool,
    pub active_2: bool,
    pub apple: (u8, u8),
    /// Cells covered by a snake, row after row.
    pub frame: Vec<bool>,
    pub body_1: Body,
    pub body_2: Body,
    /// Apples left by a dead snake, row after row.
    pub apples: Vec<bool>,
    pub apples_count: u32,
}

/// The facing after a turn input: a snake cannot turn straight back, and
/// turns once between two draws.
pub open spec fn turned(facing: u8, updated: bool, want: u8) -> u8 {
    let back = if want == 0 { 1u8 } else if want == 1 { 0u8 } else if want == 2 { 3u8 } else { 2u8 };
    if facing != back && !updated { want } else { facing }
}

impl Snake {
    pub open spec fn body_ok(b: Seq<(u8, u8)>) -> bool {
        forall|k: int| 0 <= k < b.len() ==> on_board(#[trigger] b[k])
    }

    /// Both boards cover the whole field and every cell recorded is on it.
    pub open spec fn wf(&self) -> bool {
        &&& self.frame@.len() == BOARD_CELLS
        &&& self.apples@.len() == BOARD_CELLS
        &&& on_board(self.head_1) && on_board(self.head_2) && on_board(self.apple)
        &&& on_board(self.tail_1) && on_board(self.tail_2)
        &&& Self::body_ok(self.body_1@) && Self::body_ok(self.body_2@)
    }

    pub open spec fn head_of(&self, p: u8) -> (u8, u8) {
        if p == 1 { self.head_1 } else { self.head_2 }
    }

    pub open spec fn body_of(&self, p: u8) -> Seq<(u8, u8)> {
        if p == 1 { self.body_1@ } else { self.body_2@ }
    }

    pub open spec fn active_of(&self, p: u8) -> bool {
        if p == 1 { self.active_1 } else { self.active_2 }
    }

    pub open spec fn facing_of(&self, p: u8) -> u8 {
        if p == 1 { self.facing_1 } else { self.facing_2 }
    }

    fn index(c: (u8, u8)) -> (r: usize)
        requires
            on_board(c),
        ensures
            r == cell_index(c),
            r < BOARD_CELLS,
    {
        c.1 as usize * 24 + c.0 as usize
    }

    fn step_head(h: (u8, u8), facing: u8) -> (r: (u8, u8))
        requires
            on_board(h),
        ensures
            r == stepped(h, facing),
            on_board(r),
    {
        if facing == 0 {
            (h.0, if h.1 > 0 { h.1 - 1 } else { BOARD - 1 })
        } else if facing == 1 {
            (h.0, if h.1 < BOARD - 1 { h.1 + 1 } else { 0 })
        } else if facing == 2 {
            (if h.0 > 0 { h.0 - 1 } else { BOARD - 1 }, h.1)
        } else if facing == 3 {
            (if h.0 < BOARD - 1 { h.0 + 1 } else { 0 }, h.1)
        } else {
            h
        }
    }

    fn blank_board() -> (r: Vec<bool>)
        ensures
            r@.len() == BOARD_CELLS,
            forall|i: int| 0 <= i < BOARD_CELLS ==> !#[trigger] r@[i],
    {
        let mut v: Vec<bool> = Vec::new();
        let mut i: usize = 0;
        while i < BOARD_CELLS
            invariant
                i <= BOARD_CELLS,
                v@.len() == i,
                forall|k: int| 0 <= k < i ==> !#[trigger] v@[k],
            decreases BOARD_CELLS - i,
        {
            v.push(false);
            i = i + 1;
        }
        v
    }

    /// Two snakes of four cells heading right, on rows 3 and 10, and the
    /// first apple.
    pub fn new() -> (r: Snake)
        ensures
            r.wf(),
            r.active_1 && r.active_2,
            r.head_1 == (6u8, 3u8) && r.head_2 == (6u8, 10u8),
            r.body_1@ == seq![(6u8, 3u8), (5u8, 3u8), (4u8, 3u8), (3u8, 3u8)],
            r.body_2@ == seq![(6u8, 10u8), (5u8, 10u8), (4u8, 10u8), (3u8, 10u8)],
            r.facing_1 == 3 && r.facing_2 == 3,
            forall|i: int| 0 <= i < BOARD_CELLS ==> #[trigger] r.frame@[i] == (covers(r.body_1@, i) || covers(r.body_2@, i)),
            r.apples_count == 0,
            r.is_start(),
    {
        let mut frame = Self::blank_board();
        let mut body_1 = Body::new();
        let mut body_2 = Body::new();
        let mut x: u8 = 3;
        while x <= 6
            invariant
                3 <= x <= 7,
                frame@.len() == BOARD_CELLS,
                body_1@.len() == x - 3,
                body_2@.len() == x - 3,
                forall|k: int| 0 <= k < x - 3 ==> #[trigger] body_1@[k] == ((x - 1 - k) as u8, 3u8),
                forall|k: int| 0 <= k < x - 3 ==> #[trigger] body_2@[k] == ((x - 1 - k) as u8, 10u8),
                forall|i: int| 0 <= i < BOARD_CELLS ==> #[trigger] frame@[i] == (covers(body_1@, i) || covers(body_2@, i)),
            decreases 7 - x,
        {
            let ghost b1 = body_1@;
            let ghost b2 = body_2@;
            body_1.push_front((x, 3));
            body_2.push_front((x, 10));
            frame.set(Self::index((x, 3)), true);
            frame.set(Self::index((x, 10)), true);
            proof {
                assert forall|i: int| 0 <= i < BOARD_CELLS implies #[trigger] frame@[i] == (covers(body_1@, i) || covers(body_2@, i)) by {
                    if covers(b1, i) {
                        let k = choose|k: int| 0 <= k < b1.len() && cell_index(#[trigger] b1[k]) == i;
                        assert(body_1@[k + 1] == b1[k]);
                    }
                    if covers(b2, i) {
                        let k = choose|k: int| 0 <= k < b2.len() && cell_index(#[trigger] b2[k]) == i;
                        assert(body_2@[k + 1] == b2[k]);
                    }
                    if covers(body_1@, i) && i != cell_index((x, 3u8)) {
                        let k = choose|k: int| 0 <= k < body_1@.len() && cell_index(#[trigger] body_1@[k]) == i;
                        assert(k > 0);
                        assert(b1[k - 1] == body_1@[k]);
                    }
                    if covers(body_2@, i) && i != cell_index((x, 10u8)) {
                        let k = choose|k: int| 0 <= k < body_2@.len() && cell_index(#[trigger] body_2@[k]) == i;
                        assert(k > 0);
                        assert(b2[k - 1] == body_2@[k]);
                    }
                    if i == cell_index((x, 3u8)) {
                        assert(body_1@[0] == (x, 3u8));
                    }
                    if i == cell_index((x, 10u8)) {
                        assert(body_2@[0] == (x, 10u8));
                    }
                }
            }
            x = x + 1;
        }
        assert(body_1@ =~= seq![(6u8, 3u8), (5u8, 3u8), (4u8, 3u8), (3u8, 3u8)]);
        assert(body_2@ =~= seq![(6u8, 10u8), (5u8, 10u8), (4u8, 10u8), (3u8, 10u8)]);
        Snake {
            head_1: (6, 3),
            second_1: (5, 3),
            tail_1: (2, 3),
            facing_1: 3,
            updated_1: true,
            active_1: true,
            head_2: (6, 10),
            second_2: (5, 10),
            tail_2: (2, 10),
            facing_2: 3,
            updated_2: true,
            active_2: true,
            apple: (10, 3),
            frame,
            body_1,
            body_2,
            apples: Self::blank_board(),
            apples_count: 0,
        }
    }
}

/// `s` with `c` in front, when the body has room.
pub open spec fn add_front(s: Seq<(u8, u8)>, c: (u8, u8)) -> Seq<(u8, u8)> {
    if s.len() < BODY_CAPACITY {
        seq![c] + s
    } else {
        s
    }
}

/// How one snake's step changes body, occupied cells, apples and apple
/// count: from `b`, `f`, `a`, `n` to `b2`, `f2`, `a2`, `n2`, the head moving
/// to `h`. Onto the apple or a left apple it grows; onto an occupied cell it
/// dies and its body turns into apples; else its tail follows.
pub open spec fn step_effect(
    b: Seq<(u8, u8)>,
    f: Seq<bool>,
    a: Seq<bool>,
    n: u32,
    h: (u8, u8),
    apple: (u8, u8),
    b2: Seq<(u8, u8)>,
    f2: Seq<bool>,
    a2: Seq<bool>,
    n2: u32,
) -> bool {
    let hi = cell_index(h);
    if h == apple {
        &&& b2 == add_front(b, h)
        &&& f2 == f.update(hi, true)
        &&& a2 == a
        &&& n2 == n
    } else if f[hi] {
        &&& b2 == add_front(b, h)
        &&& f2.len() == f.len() && a2.len() == a.len()
        &&& forall|i: int| 0 <= i < f.len() ==> #[trigger] f2[i] == ((f[i] && !covers(b, i)) || i == hi)
        &&& forall|i: int| 0 <= i < a.len() ==> #[trigger] a2[i] == (a[i] || covers(b, i))
        &&& n2 == if n + b.len() <= u32::MAX { (n + b.len()) as u32 } else { u32::MAX }
    } else if a[hi] {
        &&& b2 == add_front(b, h)
        &&& f2 == f.update(hi, true)
        &&& a2 == a.update(hi, false)
        &&& n2 == if n > 0 { (n - 1) as u32 } else { 0 }
    } else if b.len() > 0 {
        &&& b2 == add_front(b.drop_last(), h)
        &&& f2 == f.update(cell_index(b.last()), false).update(hi, true)
        &&& a2 == a
        &&& n2 == n
    } else {
        &&& b2 == add_front(b, h)
        &&& f2 == f.update(hi, true)
        &&& a2 == a
        &&& n2 == n
    }
}

impl Snake {
    /// Turns a dead snake's body `b` into apples: its cells leave the
    /// board and hold apples.
    fn spill(frame: &mut Vec<bool>, apples: &mut Vec<bool>, count: &mut u32, body: &Body)
        requires
            old(frame)@.len() == BOARD_CELLS,
            old(apples)@.len() == BOARD_CELLS,
            Self::body_ok(body@),
        ensures
            final(frame)@.len() == BOARD_CELLS,
            final(apples)@.len() == BOARD_CELLS,
            forall|i: int| 0 <= i < BOARD_CELLS ==> #[trigger] final(frame)@[i] == (old(frame)@[i] && !covers(body@, i)),
            forall|i: int| 0 <= i < BOARD_CELLS ==> #[trigger] final(apples)@[i] == (old(apples)@[i] || covers(body@, i)),
            *final(count) == if *old(count) + body@.len() <= u32::MAX { (*old(count) + body@.len()) as u32 } else { u32::MAX },
    {
        let n = body.len();
        let mut k: usize = 0;
        while k < n
            invariant
                k <= n,
                n == body@.len(),
                Self::body_ok(body@),
                frame@.len() == BOARD_CELLS,
                apples@.len() == BOARD_CELLS,
                forall|i: int| 0 <= i < BOARD_CELLS ==> #[trigger] frame@[i] == (old(frame)@[i] && !covers(body@.subrange(0, k as int), i)),
                forall|i: int| 0 <= i < BOARD_CELLS ==> #[trigger] apples@[i] == (old(apples)@[i] || covers(body@.subrange(0, k as int), i)),
                *count == if *old(count) + k <= u32::MAX { (*old(count) + k) as u32 } else { u32::MAX },
            decreases n - k,
        {
            let c = body.get(k);
            let ci = Self::index(c);
            frame.set(ci, false);
            apples.set(ci, true);
            if *count < u32::MAX {
                *count = *count + 1;
            }
            proof {
                let pre = body@.subrange(0, k as int);
                let post = body@.subrange(0, k + 1);
                assert forall|i: int| 0 <= i < BOARD_CELLS implies covers(post, i) == (covers(pre, i) || i == ci) by {
                    if covers(pre, i) {
                        let q = choose|q: int| 0 <= q < pre.len() && cell_index(#[trigger] pre[q]) == i;
                        assert(post[q] == pre[q]);
                    }
                    if i == ci {
                        assert(post[k as int] == c);
                    }
                    if covers(post, i) && i != ci {
                        let q = choose|q: int| 0 <= q < post.len() && cell_index(#[trigger] post[q]) == i;
                        assert(q < k);
                        assert(pre[q] == post[q]);
                    }
                }
            }
            k = k + 1;
        }
        assert(body@.subrange(0, n as int) =~= body@);
    }

    /// `self` is snake `p` of `o` after one step, `eaten` telling whether it
    /// ate the apple: a dead snake leaves everything as it was; a live one
    /// moves its head as `stepped` says, with the effects of `step_effect`.
    pub open spec fn stepped_from(&self, o: &Snake, p: u8, eaten: bool) -> bool {
        &&& !o.active_of(p) ==> *self == *o && !eaten
        &&& o.active_of(p) ==> {
            let h = stepped(o.head_of(p), o.facing_of(p));
            &&& self.head_of(p) == h
            &&& eaten == (h == o.apple)
            &&& self.active_of(p) == (h == o.apple || !o.frame@[cell_index(h)])
            &&& step_effect(
                o.body_of(p),
                o.frame@,
                o.apples@,
                o.apples_count,
                h,
                o.apple,
                self.body_of(p),
                self.frame@,
                self.apples@,
                self.apples_count,
            )
            &&& self.body_of((3 - p) as u8) == o.body_of((3 - p) as u8)
            &&& self.head_of((3 - p) as u8) == o.head_of((3 - p) as u8)
            &&& self.active_of((3 - p) as u8) == o.active_of((3 - p) as u8)
            &&& self.apple == o.apple
            &&& self.facing_1 == o.facing_1 && self.facing_2 == o.facing_2
            &&& self.updated_of(p) == (self.active_of(p) && o.updated_of(p))
            &&& self.updated_of((3 - p) as u8) == o.updated_of((3 - p) as u8)
        }
    }

    pub open spec fn updated_of(&self, p: u8) -> bool {
        if p == 1 { self.updated_1 } else { self.updated_2 }
    }

    /// Both snakes at their start: four cells heading right on rows 3 and
    /// 10, marked on the board, each turned once already, with the first
    /// apple at (10, 3) and no left apples.
    pub open spec fn is_start(&self) -> bool {
        &&& self.active_1 && self.active_2
        &&& self.head_1 == (6u8, 3u8) && self.head_2 == (6u8, 10u8)
        &&& self.body_1@ == seq![(6u8, 3u8), (5u8, 3u8), (4u8, 3u8), (3u8, 3u8)]
        &&& self.body_2@ == seq![(6u8, 10u8), (5u8, 10u8), (4u8, 10u8), (3u8, 10u8)]
        &&& self.facing_1 == 3 && self.facing_2 == 3
        &&& self.updated_1 && self.updated_2
        &&& self.apple == (10u8, 3u8)
        &&& self.frame@.len() == BOARD_CELLS
        &&& forall|i: int| 0 <= i < BOARD_CELLS ==> #[trigger] self.frame@[i] == (covers(self.body_1@, i) || covers(self.body_2@, i))
        &&& forall|i: int| 0 <= i < BOARD_CELLS ==> !#[trigger] self.apples@[i]
        &&& self.apples_count == 0
    }

    /// Board cell `i` of `o` may take the apple: free, and off the last row
    /// and column.
    pub open spec fn free_cell(o: &Snake, i: int) -> bool {
        0 <= i < BOARD_CELLS && !o.frame@[i] && i % 24 < 23 && i / 24 < 23
    }

    /// `self` is `o` after an eaten apple moved to a free cell, or stayed
    /// where it was with no free cell left; nothing else changes.
    pub open spec fn apple_after(&self, o: &Snake, eaten: bool) -> bool {
        if eaten && exists|i: int| Self::free_cell(o, i) {
            exists|i: int| #[trigger] Self::free_cell(o, i) && *self == (Snake { apple: ((i % 24) as u8, (i / 24) as u8), ..*o })
        } else {
            *self == *o
        }
    }

    /// Moves snake `p` (1 or 2) one cell, if it is alive; see
    /// `step_effect`. Returns whether it ate the apple, which the caller
    /// places anew.
    pub fn step_snake(&mut self, p: u8) -> (eaten: bool)
        requires
            old(self).wf(),
            p == 1 || p == 2,
        ensures
            final(self).wf(),
            final(self).stepped_from(old(self), p, eaten),
    {
        let active = if p == 1 { self.active_1 } else { self.active_2 };
        if !active {
            return false;
        }
        let old_head = if p == 1 { self.head_1 } else { self.head_2 };
        let facing = if p == 1 { self.facing_1 } else { self.facing_2 };
        let h = Self::step_head(old_head, facing);
        let hi = Self::index(h);
        let eaten = h.0 == self.apple.0 && h.1 == self.apple.1;
        if p == 1 {
            self.head_1 = h;
        } else {
            self.head_2 = h;
        }
        if eaten {
        } else if self.frame[hi] {
            if p == 1 {
                self.active_1 = false;
                self.updated_1 = false;
                Self::spill(&mut self.frame, &mut self.apples, &mut self.apples_count, &self.body_1);
            } else {
                self.active_2 = false;
                self.updated_2 = false;
                Self::spill(&mut self.frame, &mut self.apples, &mut self.apples_count, &self.body_2);
            }
        } else if self.apples[hi] {
            self.apples.set(hi, false);
            if self.apples_count > 0 {
                self.apples_count = self.apples_count - 1;
            }
        } else {
            let n = if p == 1 { self.body_1.len() } else { self.body_2.len() };
            if n > 0 {
                let t = if p == 1 { self.body_1.get(n - 1) } else { self.body_2.get(n - 1) };
                if p == 1 {
                    self.tail_1 = t;
                    self.body_1.pop_back();
                } else {
                    self.tail_2 = t;
                    self.body_2.pop_back();
                }
                self.frame.set(Self::index(t), false);
            }
        }
        let n = if p == 1 { self.body_1.len() } else { self.body_2.len() };
        if n > 0 {
            if p == 1 {
                self.second_1 = self.body_1.get(0);
            } else {
                self.second_2 = self.body_2.get(0);
            }
        }
        self.frame.set(hi, true);
        if p == 1 {
            let _ = self.body_1.push_front(h);
        } else {
            let _ = self.body_2.push_front(h);
        }
        proof {
            if !eaten && old(self).frame@[hi as int] {
                assert forall|i: int| 0 <= i < BOARD_CELLS implies #[trigger] self.frame@[i] == ((old(self).frame@[i]
                    && !covers(old(self).body_of(p), i)) || i == hi) by {}
            }
            assert forall|k: int| 0 <= k < self.body_of(p).len() implies on_board(#[trigger] self.body_of(p)[k]) by {
                if k > 0 && self.body_of(p).len() == old(self).body_of(p).len() + 1 {
                    assert(self.body_of(p)[k] == old(self).body_of(p)[k - 1]);
                }
            }
        }
        eaten
    }

    /// Puts both snakes back at their start, with a fresh board.
    pub fn init(&mut self)
        ensures
            final(self).wf(),
            final(self).is_start(),
    {
        *self = Self::new();
    }

    /// Whether the loop applies an input this tick: not while a turn
    /// waits to be drawn.
    pub fn accepts_input(&self) -> (r: bool)
        ensures
            r == !(self.updated_1 || self.updated_2),
    {
        !(self.updated_1 || self.updated_2)
    }

    fn turn(facing: u8, updated: bool, want: u8) -> (r: u8)
        ensures
            r == turned(facing, updated, want),
    {
        let back: u8 = if want == 0 { 1 } else if want == 1 { 0 } else if want == 2 { 3 } else { 2 };
        if facing != back && !updated { want } else { facing }
    }

    /// Applies an input: `Back` asks for the pause menu (the result is
    /// false); the directions turn snake 1 or 2, never straight back and
    /// once between two draws.
    pub fn handle_input(&mut self, input: &Input) -> (r: bool)
        requires
            old(self).wf(),
        ensures
            final(self).wf(),
            r == (*input != Input::Back),
            final(self).facing_1 == match *input {
                Input::Up => turned(old(self).facing_1, old(self).updated_1, 0),
                Input::Down => turned(old(self).facing_1, old(self).updated_1, 1),
                Input::Left => turned(old(self).facing_1, old(self).updated_1, 2),
                Input::Right => turned(old(self).facing_1, old(self).updated_1, 3),
                _ => old(self).facing_1,
            },
            final(self).facing_2 == match *input {
                Input::Up2 => turned(old(self).facing_2, old(self).updated_2, 0),
                Input::Down2 => turned(old(self).facing_2, old(self).updated_2, 1),
                Input::Left2 => turned(old(self).facing_2, old(self).updated_2, 2),
                Input::Right2 => turned(old(self).facing_2, old(self).updated_2, 3),
                _ => old(self).facing_2,
            },
            final(self).updated_1 == (old(self).updated_1 || final(self).facing_1 != old(self).facing_1),
            final(self).updated_2 == (old(self).updated_2 || final(self).facing_2 != old(self).facing_2),
            final(self).frame@ == old(self).frame@,
            final(self).body_1@ == old(self).body_1@,
            final(self).body_2@ == old(self).body_2@,
    {
        let want1: u8 = match input {
            Input::Up => 0,
            Input::Down => 1,
            Input::Left => 2,
            Input::Right => 3,
            _ => 4,
        };
        if want1 < 4 {
            let f = Self::turn(self.facing_1, self.updated_1, want1);
            if f != self.facing_1 {
                self.facing_1 = f;
                self.updated_1 = true;
            }
        }
        let want2: u8 = match input {
            Input::Up2 => 0,
            Input::Down2 => 1,
            Input::Left2 => 2,
            Input::Right2 => 3,
            _ => 4,
        };
        if want2 < 4 {
            let f = Self::turn(self.facing_2, self.updated_2, want2);
            if f != self.facing_2 {
                self.facing_2 = f;
                self.updated_2 = true;
            }
        }
        *input != Input::Back
    }

    /// The free cells where an apple may appear: not covered by a snake,
    /// off the last row and column.
    pub fn free_cells(&self) -> (r: Vec<usize>)
        requires
            self.wf(),
        ensures
            forall|k: int| 0 <= k < r@.len() ==> {
                let i = #[trigger] r@[k];
                i < BOARD_CELLS && !self.frame@[i as int] && i % 24 < 23 && i / 24 < 23
            },
            forall|i: int| 0 <= i < BOARD_CELLS && !self.frame@[i] && i % 24 < 23 && i / 24 < 23 ==> r@.contains(
                i as usize,
            ),
    {
        let mut v: Vec<usize> = Vec::new();
        let mut i: usize = 0;
        while i < BOARD_CELLS
            invariant
                i <= BOARD_CELLS,
                self.wf(),
                forall|k: int| 0 <= k < v@.len() ==> {
                    let c = #[trigger] v@[k];
                    c < i && !self.frame@[c as int] && c % 24 < 23 && c / 24 < 23
                },
                forall|c: int| 0 <= c < i && !self.frame@[c] && c % 24 < 23 && c / 24 < 23 ==> v@.contains(c as usize),
            decreases BOARD_CELLS - i,
        {
            let ghost v0 = v@;
            if !self.frame[i] && i % 24 < 23 && i / 24 < 23 {
                v.push(i);
                proof {
                    assert(v@[v@.len() - 1] == i);
                    assert forall|c: int| 0 <= c < i && !self.frame@[c] && c % 24 < 23 && c / 24 < 23 implies v@.contains(c as usize) by {
                        let k = choose|k: int| 0 <= k < v0.len() && v0[k] == c as usize;
                        assert(v@[k] == v0[k]);
                    }
                }
            }
            i = i + 1;
        }
        v
    }

    /// Puts the apple on free cell `i`.
    pub fn place_apple(&mut self, i: usize)
        requires
            old(self).wf(),
            i < BOARD_CELLS,
        ensures
            final(self).wf(),
            *final(self) == (Snake { apple: ((i % 24) as u8, (i / 24) as u8), ..*old(self) }),
    {
        self.apple = ((i % 24) as u8, (i / 24) as u8);
    }

    /// Steps snake `p` and, when it ate the apple, moves the apple to a
    /// random free cell.
    pub fn step_and_feed(&mut self, p: u8, rng: &mut rand::rngs::SmallRng)
        requires
            old(self).wf(),
            p == 1 || p == 2,
        ensures
            final(self).wf(),
            exists|mid: Snake, eaten: bool| #[trigger] mid.stepped_from(old(self), p, eaten) && final(self).apple_after(&mid, eaten),
    {
        let eaten = self.step_snake(p);
        let ghost mid = *self;
        if eaten {
            let cells = self.free_cells();
            match choose_one(rng, cells.as_slice()) {
                Some(i) => {
                    proof {
                        let k = choose|k: int| 0 <= k < cells@.len() && cells@[k] == i;
                        assert(cells@[k] < BOARD_CELLS);
                        assert(Self::free_cell(&mid, i as int));
                    }
                    self.place_apple(i);
                    proof {
                        assert(Self::free_cell(&mid, i as int) && *self == (Snake { apple: ((i as int % 24) as u8, (i as int / 24) as u8), ..mid }));
                    }
                },
                None => {
                    proof {
                        assert forall|i: int| !Self::free_cell(&mid, i) by {
                            if Self::free_cell(&mid, i) {
                                assert(cells@.contains(i as usize));
                            }
                        }
                    }
                },
            }
        }
        assert(mid.stepped_from(old(self), p, eaten));
    }

    /// One tick: snake 1 then snake 2 step as `step_and_feed` says. Returns
    /// whether a snake is still alive.
    pub fn update_frame(&mut self, rng: &mut rand::rngs::SmallRng) -> (alive: bool)
        requires
            old(self).wf(),
        ensures
            final(self).wf(),
            alive == (final(self).active_1 || final(self).active_2),
            exists|a: Snake, b: Snake, c: Snake, e1: bool, e2: bool|
                #[trigger] a.stepped_from(old(self), 1, e1) && b.apple_after(&a, e1)
                && #[trigger] c.stepped_from(&b, 2, e2) && final(self).apple_after(&c, e2),
    {
        let ghost s0 = *self;
        self.step_and_feed(1, rng);
        let ghost s1 = *self;
        self.step_and_feed(2, rng);
        proof {
            let (a, e1) = choose|a: Snake, e1: bool| #[trigger] a.stepped_from(&s0, 1, e1) && s1.apple_after(&a, e1);
            let (c, e2) = choose|c: Snake, e2: bool| #[trigger] c.stepped_from(&s1, 2, e2) && self.apple_after(&c, e2);
            assert(a.stepped_from(&s0, 1, e1) && s1.apple_after(&a, e1) && c.stepped_from(&s1, 2, e2) && self.apple_after(&c, e2));
        }
        self.active_1 || self.active_2
    }

    /// What a draw leaves behind: the turns are drawn and the recorded
    /// tails are the bodies' last cells.
    pub fn after_draw(&mut self)
        requires
            old(self).wf(),
        ensures
            final(self).wf(),
            old(self).active_1 ==> !final(self).updated_1,
            old(self).active_2 ==> !final(self).updated_2,
            final(self).frame@ == old(self).frame@,
            final(self).body_1@ == old(self).body_1@,
            final(self).body_2@ == old(self).body_2@,
            final(self).facing_1 == old(self).facing_1,
            final(self).facing_2 == old(self).facing_2,
    {
        if self.active_1 {
            let n = self.body_1.len();
            if n > 0 {
                self.tail_1 = self.body_1.get(n - 1);
            }
            self.updated_1 = false;
        }
        if self.active_2 {
            let n = self.body_2.len();
            if n > 0 {
                self.tail_2 = self.body_2.get(n - 1);
            }
            self.updated_2 = false;
        }
    }
}

} // verus!
