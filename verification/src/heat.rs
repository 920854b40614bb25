//! The heat simulation: per-tick injection strength, injection count and
//! cooling, derived from the configured event count and speed.

use vstd::prelude::*;

verus! {

/// Heat written into a bottom-row cell before event scaling is added.
pub const BASE_HEAT: i32 = 40;
/// Extra heat per event.
pub const HEAT_SCALING_FACTOR: i32 = 3;
/// Cap on the event-derived extra heat.
pub const MAX_HEAT_SCALING: i32 = 70;
/// One injection per this many columns.
pub const BASE_INJECTIONS_DIV: usize = 4;
/// One extra injection per this many events.
pub const EVENT_INJECTIONS_DIV: usize = 8;
/// Events per unit of cooling relief.
pub const COOLING_EVENT_FACTOR: i32 = 30;

/// Event-derived extra heat: `3 * events`, capped at `MAX_HEAT_SCALING`.
pub open spec fn spec_heat_scaling(events: int) -> int {
    if HEAT_SCALING_FACTOR * events < MAX_HEAT_SCALING {
        HEAT_SCALING_FACTOR * events
    } else {
        MAX_HEAT_SCALING as int
    }
}

/// Heat value written into injected bottom-row cells.
pub open spec fn spec_heat_base(events: int) -> int {
    BASE_HEAT + spec_heat_scaling(events)
}

/// How many bottom-row cells are overwritten per tick.
pub open spec fn spec_num_injections(width: int, events: int) -> int {
    width / (BASE_INJECTIONS_DIV as int) + events / (EVENT_INJECTIONS_DIV as int)
}

/// Per-tick subtractive cooling term, floored at 1.
pub open spec fn spec_cooling(speed: int, events: int) -> int {
    let c = speed - events / (COOLING_EVENT_FACTOR as int);
    if c >= 1 {
        c
    } else {
        1
    }
}

pub fn heat_scaling(events: usize) -> (r: i32)
    ensures
        r == spec_heat_scaling(events as int),
        0 <= r <= MAX_HEAT_SCALING,
{
    if events >= 24 {
        MAX_HEAT_SCALING
    } else {
        (events as i32) * HEAT_SCALING_FACTOR
    }
}

pub fn heat_base(events: usize) -> (r: i32)
    ensures
        r == spec_heat_base(events as int),
        BASE_HEAT <= r <= BASE_HEAT + MAX_HEAT_SCALING,
{
    BASE_HEAT + heat_scaling(events)
}

pub fn num_injections(width: usize, events: usize) -> (r: usize)
    ensures
        r == spec_num_injections(width as int, events as int),
{
    proof {
        assert(width / 4 + events / 8 <= usize::MAX) by (nonlinear_arith)
            requires width <= usize::MAX && events <= usize::MAX;
    }
    width / BASE_INJECTIONS_DIV + events / EVENT_INJECTIONS_DIV
}

pub fn cooling_value(speed: u8, events: usize) -> (r: i32)
    ensures
        r == spec_cooling(speed as int, events as int),
        r >= 1,
{
    let relief = events / (COOLING_EVENT_FACTOR as usize);
    if relief >= speed as usize {
        1
    } else {
        let c = speed as i32 - relief as i32;
        if c >= 1 {
            c
        } else {
            1
        }
    }
}

/// Upper bound kept on every cell so that four cells can be summed in `i32`.
pub const MAX_CELL_HEAT: i32 = 1000000;

/// The 2D heat buffer: a row-major `width x height` grid of heat values,
/// with a `width + 1` trailing pad so bottom-row index arithmetic stays in
/// bounds.  The buffer is replaced wholesale each tick.
pub struct HeatGrid {
    pub width: usize,
    pub height: usize,
    pub cells: Vec<i32>,
}

impl HeatGrid {
    /// Structural invariant: correct buffer length, and every cell within
    /// bounds that keep the diffusion sum free of overflow.
    pub open spec fn wf(&self) -> bool {
        &&& 1 <= self.width
        &&& 1 <= self.height
        &&& self.width * self.height + self.width + 1 <= usize::MAX
        &&& self.cells@.len() == self.width * self.height + self.width + 1
        &&& forall|i: int|
            0 <= i < self.cells@.len() ==> 0 <= #[trigger] self.cells@[i] <= MAX_CELL_HEAT
    }

    /// First index of the bottom grid row.
    pub open spec fn bottom_row_start(&self) -> int {
        (self.height - 1) * self.width
    }

    pub fn new(width: usize, height: usize) -> (g: HeatGrid)
        requires
            1 <= width,
            1 <= height,
            width * height + width + 1 <= usize::MAX,
        ensures
            g.wf(),
            g.width == width,
            g.height == height,
            forall|i: int| 0 <= i < g.cells@.len() ==> g.cells@[i] == 0,
    {
        proof {
            assert(width * height >= 1) by (nonlinear_arith)
                requires 1 <= width && 1 <= height;
        }
        let size = width * height;
        let cells = vec![0i32; size + width + 1];
        HeatGrid { width, height, cells }
    }

    /// Overwrite `spec_num_injections` randomly chosen bottom-row cells
    /// with the event-scaled injection heat.  Cells outside the bottom row
    /// are untouched; a touched bottom-row cell holds exactly the
    /// injection heat.
    pub fn inject(&mut self, num_events: usize)
        requires
            old(self).wf(),
        ensures
            final(self).wf(),
            final(self).width == old(self).width,
            final(self).height == old(self).height,
            is_injection_of(
                final(self).cells@,
                old(self).cells@,
                old(self).width as int,
                old(self).height as int,
                num_events as int,
            ),
    {
        let heat = heat_base(num_events);
        let count = num_injections(self.width, num_events);
        proof {
            let ghost wg = old(self).width as int;
            let ghost hg = old(self).height as int;
            assert((hg - 1) * wg + wg == wg * hg) by (nonlinear_arith);
        }
        let row_start = (self.height - 1) * self.width;
        let ghost mut cols = Seq::<int>::empty();
        let mut k: usize = 0;
        while k < count
            invariant
                self.wf(),
                self.width == old(self).width,
                self.height == old(self).height,
                self.cells@.len() == old(self).cells@.len(),
                row_start == old(self).bottom_row_start(),
                row_start + self.width == self.width * self.height,
                heat == spec_heat_base(num_events as int),
                0 < heat <= MAX_CELL_HEAT,
                k <= count,
                cols.len() == k,
                forall|j: int| 0 <= j < cols.len() ==> 0 <= #[trigger] cols[j] < self.width,
                self.cells@ == spec_apply_injections(
                    old(self).cells@,
                    cols,
                    row_start as int,
                    spec_heat_base(num_events as int),
                ),
                forall|i: int|
                    0 <= i < old(self).cells@.len() && !(row_start <= i < self.width
                        * self.height) ==> #[trigger] self.cells@[i] == old(self).cells@[i],
                forall|i: int|
                    row_start <= i < self.width * self.height
                        ==> #[trigger] self.cells@[i] == old(self).cells@[i] || self.cells@[i]
                            == spec_heat_base(num_events as int),
            decreases count - k,
        {
            let col = random_column(self.width);
            let idx = row_start + col;
            self.cells[idx] = heat;
            proof {
                let ghost next = cols.push(col as int);
                assert(next.drop_last() =~= cols);
                assert(self.cells@ == spec_apply_injections(
                    old(self).cells@,
                    next,
                    row_start as int,
                    spec_heat_base(num_events as int),
                ));
                cols = next;
            }
            k = k + 1;
        }
        proof {
            assert(is_injection_of(
                self.cells@,
                old(self).cells@,
                old(self).width as int,
                old(self).height as int,
                num_events as int,
            )) by {
                assert(cols.len() == spec_num_injections(
                    old(self).width as int,
                    num_events as int,
                ));
                assert(self.cells@ == spec_apply_injections(
                    old(self).cells@,
                    cols,
                    old(self).bottom_row_start(),
                    spec_heat_base(num_events as int),
                ));
            }
        }
    }

    /// Replace the buffer by a freshly computed one: each grid cell becomes
    /// the neighbor average minus the cooling term, floored at the smoke
    /// level; the trailing pad is zeroed.  Every cell of the new buffer is
    /// read from the old one, so the update is simultaneous.
    pub fn diffuse(&mut self, speed: u8, num_events: usize, smoke_factor: u8)
        requires
            old(self).wf(),
            smoke_factor <= 20,
        ensures
            final(self).wf(),
            final(self).width == old(self).width,
            final(self).height == old(self).height,
            is_diffusion_of(
                final(self).cells@,
                old(self).cells@,
                old(self).width as int,
                old(self).height as int,
                spec_cooling(speed as int, num_events as int),
                smoke_factor as int,
            ),
            forall|x: int, y: int|
                0 <= x < old(self).width && 0 <= y < old(self).height
                    ==> #[trigger] final(self).cells@[y * old(self).width + x]
                        >= smoke_factor,
    {
        let w = self.width;
        let h = self.height;
        let cooling = cooling_value(speed, num_events);
        let smoke = smoke_factor as i32;
        let ghost old_cells = self.cells@;
        let ghost c = spec_cooling(speed as int, num_events as int);
        let mut fresh: Vec<i32> = Vec::new();
        let mut y: usize = 0;
        while y < h
            invariant
                old(self).wf(),
                w == old(self).width,
                h == old(self).height,
                old_cells == old(self).cells@,
                cooling == c,
                1 <= cooling <= 255,
                0 <= smoke <= 20,
                smoke == smoke_factor,
                y <= h,
                fresh@.len() == y * w,
                forall|xx: int, yy: int|
                    0 <= xx < w && 0 <= yy < y
                        ==> #[trigger] fresh@[yy * w + xx]
                            == spec_diffused_cell(old_cells, w as int, h as int, xx, yy, c, smoke as int),
                forall|i: int| 0 <= i < fresh@.len() ==> 0 <= #[trigger] fresh@[i] <= MAX_CELL_HEAT,
                forall|i: int| 0 <= i < fresh@.len() ==> #[trigger] fresh@[i] >= smoke,
            decreases h - y,
        {
            let mut x: usize = 0;
            proof {
                lemma_row_major_bound(w as int, h as int, 0, y as int);
            }
            while x < w
                invariant
                    old(self).wf(),
                    w == old(self).width,
                    h == old(self).height,
                    old_cells == old(self).cells@,
                    cooling == c,
                    1 <= cooling <= 255,
                    0 <= smoke <= 20,
                    smoke == smoke_factor,
                    y < h,
                    x <= w,
                    fresh@.len() == y * w + x,
                    forall|xx: int, yy: int|
                        0 <= xx < w && 0 <= yy < y
                            ==> #[trigger] fresh@[yy * w + xx]
                                == spec_diffused_cell(old_cells, w as int, h as int, xx, yy, c, smoke as int),
                    forall|xx: int|
                        0 <= xx < x
                            ==> #[trigger] fresh@[y * w + xx]
                                == spec_diffused_cell(old_cells, w as int, h as int, xx, y as int, c, smoke as int),
                    forall|i: int| 0 <= i < fresh@.len() ==> 0 <= #[trigger] fresh@[i] <= MAX_CELL_HEAT,
                    forall|i: int| 0 <= i < fresh@.len() ==> #[trigger] fresh@[i] >= smoke,
                decreases w - x,
            {
                proof {
                    lemma_row_major_bound(w as int, h as int, x as int, y as int);
                    if y + 1 < h {
                        lemma_row_major_bound(w as int, h as int, x as int, y as int + 1);
                        if x + 1 < w {
                            lemma_row_major_bound(w as int, h as int, x as int + 1, y as int + 1);
                        }
                    }
                    if x + 1 < w {
                        lemma_row_major_bound(w as int, h as int, x as int + 1, y as int);
                    }
                    assert(w * h <= old_cells.len());
                }
                let below: i32 = if y < h - 1 { self.cells[x + (y + 1) * w] } else { 0 };
                let below_right: i32 = if y < h - 1 && x < w - 1 {
                    self.cells[x + 1 + (y + 1) * w]
                } else {
                    0
                };
                let left: i32 = if x > 0 { self.cells[x - 1 + y * w] } else { 0 };
                let right: i32 = if x < w - 1 { self.cells[x + 1 + y * w] } else { 0 };
                let avg = (left + right + below + below_right) / 4;
                let cooled = avg - cooling;
                let v = if cooled >= smoke { cooled } else { smoke };
                let ghost pre = fresh@;
                fresh.push(v);
                proof {
                    assert(fresh@[y as int * w + x] == spec_diffused_cell(
                        old_cells, w as int, h as int, x as int, y as int, c, smoke as int));
                    assert forall|xx: int, yy: int|
                        0 <= xx < w && 0 <= yy < y implies #[trigger] fresh@[yy * w + xx]
                            == spec_diffused_cell(old_cells, w as int, h as int, xx, yy, c, smoke as int) by {
                        lemma_row_major_bound(w as int, y as int, xx, yy);
                        assert(yy * w + xx < y * w) by (nonlinear_arith)
                            requires 0 <= xx < w && 0 <= yy < y;
                        assert(pre.len() == y * w + x);
                        assert(fresh@[yy * w + xx] == pre[yy * w + xx]);
                        assert(pre[yy * w + xx] == spec_diffused_cell(
                            old_cells, w as int, h as int, xx, yy, c, smoke as int));
                    }
                }
                x = x + 1;
            }
            y = y + 1;
            proof {
                assert((y - 1) * w + w == y * w) by (nonlinear_arith);
            }
        }
        // the trailing pad, zeroed as a fresh buffer leaves it
        let pad = w + 1;
        let mut p: usize = 0;
        proof {
            assert(y * w == w * h) by (nonlinear_arith)
                requires y == h;
        }
        while p < pad
            invariant
                w == old(self).width,
                h == old(self).height,
                fresh@.len() == w * h + p,
                p <= pad,
                pad == w + 1,
                old_cells == old(self).cells@,
                cooling == c,
                smoke == smoke_factor,
                0 <= smoke <= 20,
                forall|xx: int, yy: int|
                    0 <= xx < w && 0 <= yy < h
                        ==> #[trigger] fresh@[yy * w + xx]
                            == spec_diffused_cell(old_cells, w as int, h as int, xx, yy, c, smoke as int),
                forall|i: int| w * h <= i < fresh@.len() ==> #[trigger] fresh@[i] == 0,
                forall|i: int| 0 <= i < fresh@.len() ==> 0 <= #[trigger] fresh@[i] <= MAX_CELL_HEAT,
            decreases pad - p,
        {
            fresh.push(0);
            p = p + 1;
            proof {
                assert forall|xx: int, yy: int|
                    0 <= xx < w && 0 <= yy < h implies #[trigger] fresh@[yy * w + xx]
                        == spec_diffused_cell(old_cells, w as int, h as int, xx, yy, c, smoke as int) by {
                    lemma_row_major_bound(w as int, h as int, xx, yy);
                }
            }
        }
        self.cells = fresh;
        proof {
            assert forall|x: int, y2: int|
                0 <= x < w && 0 <= y2 < h implies #[trigger] self.cells@[y2 * w + x] >= smoke_factor by {
                lemma_row_major_bound(w as int, h as int, x, y2);
            }
        }
    }
}

/// The buffer after overwriting one bottom-row cell per listed column
/// with the injection heat, in order; a later write to the same column
/// replaces the earlier one.
pub open spec fn spec_apply_injections(
    cells: Seq<i32>,
    cols: Seq<int>,
    row_start: int,
    heat: int,
) -> Seq<i32>
    decreases cols.len(),
{
    if cols.len() == 0 {
        cells
    } else {
        spec_apply_injections(cells, cols.drop_last(), row_start, heat).update(
            row_start + cols.last(),
            heat as i32,
        )
    }
}

/// Relates a buffer after heat injection to the one before: the new
/// buffer is the old one with exactly `spec_num_injections` bottom-row
/// cells overwritten (replaced, not added to) with the event-scaled
/// injection heat, one per drawn column; cells outside the bottom row
/// are untouched, and every bottom-row cell either kept its value or
/// holds the injection heat.
pub open spec fn is_injection_of(
    new: Seq<i32>,
    old: Seq<i32>,
    w: int,
    h: int,
    events: int,
) -> bool {
    &&& new.len() == old.len()
    &&& forall|i: int|
        0 <= i < old.len() && !((h - 1) * w <= i < w * h) ==> #[trigger] new[i] == old[i]
    &&& forall|i: int|
        (h - 1) * w <= i < w * h
            ==> #[trigger] new[i] == old[i] || new[i] == spec_heat_base(events)
    &&& exists|cols: Seq<int>|
        {
            &&& cols.len() == spec_num_injections(w, events)
            &&& (forall|k: int| 0 <= k < cols.len() ==> 0 <= #[trigger] cols[k] < w)
            &&& new == #[trigger] spec_apply_injections(old, cols, (h - 1) * w, spec_heat_base(
                events,
            ))
        }
}

/// Relates a freshly diffused buffer to the one it was computed from:
/// every grid cell is the diffused value of the old buffer, and the
/// trailing pad is zero.
pub open spec fn is_diffusion_of(
    new: Seq<i32>,
    old: Seq<i32>,
    w: int,
    h: int,
    cooling: int,
    smoke: int,
) -> bool {
    &&& new.len() == old.len()
    &&& forall|x: int, y: int|
        0 <= x < w && 0 <= y < h
            ==> #[trigger] new[y * w + x] == spec_diffused_cell(old, w, h, x, y, cooling, smoke)
    &&& forall|i: int| w * h <= i < new.len() ==> #[trigger] new[i] == 0
}

/// One diffused cell: the average of the left, right, below and
/// below-right neighbors (0 outside the grid), minus the cooling term,
/// floored at the smoke level.
pub open spec fn spec_diffused_cell(
    cells: Seq<i32>,
    w: int,
    h: int,
    x: int,
    y: int,
    cooling: int,
    smoke: int,
) -> int {
    let below: int = if y < h - 1 { cells[(y + 1) * w + x] as int } else { 0 };
    let below_right: int = if y < h - 1 && x < w - 1 { cells[(y + 1) * w + x + 1] as int } else { 0 };
    let left: int = if x > 0 { cells[y * w + x - 1] as int } else { 0 };
    let right: int = if x < w - 1 { cells[y * w + x + 1] as int } else { 0 };
    let cooled = (left + right + below + below_right) / 4 - cooling;
    if cooled >= smoke {
        cooled
    } else {
        smoke
    }
}

/// Row-major indices stay inside the grid area.
pub proof fn lemma_row_major_bound(w: int, h: int, x: int, y: int)
    requires
        1 <= w,
        1 <= h,
        0 <= x < w,
        0 <= y < h,
    ensures
        0 <= y * w + x < w * h,
        y * w + x == x + y * w,
{
    assert(0 <= y * w + x < w * h) by (nonlinear_arith)
        requires 1 <= w && 1 <= h && 0 <= x < w && 0 <= y < h;
}

/// A grid index decomposes into its row and column.
pub proof fn lemma_div_mod_decompose(i: int, w: int, h: int)
    requires
        1 <= w,
        1 <= h,
        0 <= i < w * h,
    ensures
        0 <= i % w < w,
        0 <= i / w < h,
        (i / w) * w + i % w == i,
{
    assert(0 <= i % w < w && 0 <= i / w < h && (i / w) * w + i % w == i) by (nonlinear_arith)
        requires 1 <= w && 1 <= h && 0 <= i < w * h;
}

/// Relies on `rand::Rng::gen_range` on the thread-local generator: the
/// result of sampling `0..width` lies below `width`; the range is
/// non-empty, so the call does not panic.
#[verifier::external_body]
fn random_column(width: usize) -> (c: usize)
    requires
        width >= 1,
    ensures
        c < width,
{
    rand::Rng::gen_range(&mut rand::thread_rng(), 0..width)
}

/// The injection heat never falls as the event count rises.
pub proof fn lemma_heat_base_monotonic(e1: int, e2: int)
    requires
        0 <= e1 <= e2,
    ensures
        spec_heat_base(e1) <= spec_heat_base(e2),
{
}

/// The injection count never falls as the event count rises, at fixed width.
pub proof fn lemma_num_injections_monotonic(width: int, e1: int, e2: int)
    requires
        0 <= e1 <= e2,
    ensures
        spec_num_injections(width, e1) <= spec_num_injections(width, e2),
{
    assert(e1 / 8 <= e2 / 8) by (nonlinear_arith)
        requires 0 <= e1 <= e2;
}

} // verus!
