//! The frame loop's state and its per-tick step: poll result in, heat
//! injected and diffused, drawing operations out, ticker advanced.

use vstd::prelude::*;
use crate::control::KeyPress;
use crate::control::RunState;
use crate::control::spec_step_state;
use crate::control::step_state;
use crate::heat::HeatGrid;
use crate::heat::is_diffusion_of;
use crate::heat::is_injection_of;
use crate::heat::spec_cooling;
use crate::palette::TermColor;
use crate::render::DrawCell;
use crate::render::render_grid;
use crate::render::spec_render_upto;
use crate::ticker::advance_offset;
use crate::ticker::spec_next_offset;
use crate::ticker::spec_ticker_row;
use crate::ticker::ticker_row;

verus! {

/// The immutable configuration bundle, fixed for the process lifetime.
pub struct Config {
    pub contribs: bool,
    pub have_ticker: bool,
    pub speed: u8,
    pub smoke_factor: u8,
    pub num_events: usize,
    pub message: Vec<char>,
    pub meta: Vec<char>,
}

impl Config {
    /// The configured ranges: speed 1 through 10, smoke floor 0 through
    /// 20, and ticker lines short enough for offset arithmetic.
    pub open spec fn wf(&self) -> bool {
        &&& 1 <= self.speed <= 10
        &&& self.smoke_factor <= 20
        &&& self.message@.len() <= usize::MAX / 2
        &&& self.meta@.len() <= usize::MAX / 2
    }

    /// The ticker only runs with text in both lines.
    pub open spec fn ticker_active(&self) -> bool {
        self.have_ticker && self.message@.len() > 0 && self.meta@.len() > 0
    }
}

/// The mutable state the frame loop carries from tick to tick.
pub struct Animation {
    pub grid: HeatGrid,
    pub offset: usize,
    pub frame: usize,
    pub state: RunState,
}

impl Animation {
    /// The grid invariant, and a scroll offset within the message line
    /// whenever the ticker is active.
    pub open spec fn wf(&self, cfg: Config) -> bool {
        &&& self.grid.wf()
        &&& cfg.ticker_active() ==> self.offset < cfg.message@.len()
    }

    pub fn new(width: usize, height: usize) -> (a: Animation)
        requires
            1 <= width,
            1 <= height,
            width * height + width + 1 <= usize::MAX,
        ensures
            forall|cfg: Config| a.wf(cfg),
            a.grid.width == width,
            a.grid.height == height,
            a.offset == 0,
            a.frame == 0,
            a.state == RunState::Running,
    {
        Animation {
            grid: HeatGrid::new(width, height),
            offset: 0,
            frame: 0,
            state: RunState::Running,
        }
    }

    /// One tick of the frame loop.  A quit key stops the loop and draws
    /// nothing more.  Otherwise heat is injected at the bottom row,
    /// diffused and cooled, the visible grid is rendered, the two ticker
    /// rows are drawn over the reserved bottom rows when the ticker is
    /// active, the offset advances on its cadence, and the frame counter
    /// steps.
    pub fn tick(
        &mut self,
        cfg: &Config,
        key: Option<KeyPress>,
        chars: &Vec<char>,
        colors: &Vec<TermColor>,
    ) -> (ops: Option<Vec<DrawCell>>)
        requires
            old(self).wf(*cfg),
            cfg.wf(),
            old(self).frame < usize::MAX,
            1 <= chars@.len() <= 64,
            1 <= colors@.len(),
        ensures
            final(self).wf(*cfg),
            final(self).state == spec_step_state(old(self).state, key),
            final(self).state == RunState::Stopped ==> {
                &&& ops is None
                &&& final(self).grid == old(self).grid
                &&& final(self).offset == old(self).offset
                &&& final(self).frame == old(self).frame
            },
            final(self).state == RunState::Running ==> {
                &&& final(self).grid.width == old(self).grid.width
                &&& final(self).grid.height == old(self).grid.height
                &&& exists|mid: Seq<i32>|
                    is_injection_of(
                        mid,
                        old(self).grid.cells@,
                        old(self).grid.width as int,
                        old(self).grid.height as int,
                        cfg.num_events as int,
                    ) && is_diffusion_of(
                        final(self).grid.cells@,
                        mid,
                        old(self).grid.width as int,
                        old(self).grid.height as int,
                        spec_cooling(cfg.speed as int, cfg.num_events as int),
                        cfg.smoke_factor as int,
                    )
                &&& forall|x: int, y: int|
                    0 <= x < old(self).grid.width && 0 <= y < old(self).grid.height
                        ==> #[trigger] final(self).grid.cells@[y * old(self).grid.width + x]
                            >= cfg.smoke_factor
                &&& final(self).frame == old(self).frame + 1
                &&& final(self).offset == if cfg.ticker_active() && old(self).grid.height >= 2 {
                    spec_next_offset(
                        old(self).offset as int,
                        old(self).frame as int,
                        cfg.speed as int,
                        cfg.message@.len() as int,
                    )
                } else {
                    old(self).offset as int
                }
                &&& ops matches Some(v) && v@ == spec_render_upto(
                    final(self).grid.cells@,
                    old(self).grid.width,
                    old(self).grid.height,
                    cfg.contribs,
                    cfg.have_ticker,
                    chars@,
                    colors@,
                    (old(self).grid.width * old(self).grid.height) as nat,
                ) + if cfg.ticker_active() && old(self).grid.height >= 2 {
                    spec_ticker_row(
                        cfg.message@,
                        old(self).grid.width as int,
                        old(self).offset as int,
                        (old(self).grid.height - 2) as usize,
                    ) + spec_ticker_row(
                        cfg.meta@,
                        old(self).grid.width as int,
                        old(self).offset as int,
                        (old(self).grid.height - 1) as usize,
                    )
                } else {
                    Seq::<DrawCell>::empty()
                }
            },
    {
        let next = step_state(self.state, key);
        self.state = next;
        match next {
            RunState::Stopped => None,
            RunState::Running => {
                self.grid.inject(cfg.num_events);
                let ghost mid = self.grid.cells@;
                self.grid.diffuse(cfg.speed, cfg.num_events, cfg.smoke_factor);
                let mut ops = render_grid(&self.grid, cfg.contribs, cfg.have_ticker, chars, colors);
                let active = cfg.have_ticker && cfg.message.len() > 0 && cfg.meta.len() > 0;
                if active && self.grid.height >= 2 {
                    let w = self.grid.width;
                    let msg_row = self.grid.height - 2;
                    let meta_row = self.grid.height - 1;
                    proof {
                        assert(w <= w * self.grid.height) by (nonlinear_arith)
                            requires 1 <= w && 1 <= self.grid.height;
                        assert(old(self).offset + w <= usize::MAX);
                    }
                    let mut msg_ops = ticker_row(&cfg.message, w, self.offset, msg_row);
                    let mut meta_ops = ticker_row(&cfg.meta, w, self.offset, meta_row);
                    ops.append(&mut msg_ops);
                    ops.append(&mut meta_ops);
                }
                if active && self.grid.height >= 2 {
                    self.offset = advance_offset(self.offset, self.frame, cfg.speed, cfg.message.len());
                }
                self.frame = self.frame + 1;
                proof {
                    assert(is_injection_of(
                        mid,
                        old(self).grid.cells@,
                        old(self).grid.width as int,
                        old(self).grid.height as int,
                        cfg.num_events as int,
                    ));
                }
                Some(ops)
            },
        }
    }
}

} // verus!
