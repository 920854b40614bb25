use yule_gitlog::heat::cooling_value;
use yule_gitlog::heat::heat_base;
use yule_gitlog::heat::heat_scaling;
use yule_gitlog::heat::num_injections;
use yule_gitlog::heat::HeatGrid;
use yule_gitlog::heat::BASE_HEAT;
use yule_gitlog::heat::HEAT_SCALING_FACTOR;
use yule_gitlog::heat::MAX_HEAT_SCALING;
use yule_gitlog::palette::char_idx;
use yule_gitlog::palette::color_idx;

/// Ensures heat scaling is capped at the maximum value.
#[test]
fn heat_scaling_is_capped() {
    let high_events = (MAX_HEAT_SCALING / HEAT_SCALING_FACTOR + 10) as usize;
    assert_eq!(heat_scaling(high_events), MAX_HEAT_SCALING);
}

/// Ensures base heat includes the scaling factor.
#[test]
fn heat_base_includes_scaling() {
    let base = heat_base(0);
    assert_eq!(base, BASE_HEAT);
    let scaled = heat_base(10);
    assert!(scaled >= base);
}

/// Ensures injection count grows with event count.
#[test]
fn num_injections_increases_with_events() {
    let width = 80;
    let low = num_injections(width, 0);
    let high = num_injections(width, 80);
    assert!(high >= low);
}

/// Ensures cooling never drops below 1.
#[test]
fn cooling_value_is_at_least_one() {
    let cooling = cooling_value(1, 10_000);
    assert_eq!(cooling, 1);
}

/// Ensures color index matches heat thresholds.
#[test]
fn color_idx_thresholds() {
    assert_eq!(color_idx(0), 0);
    assert_eq!(color_idx(1), 1);
    assert_eq!(color_idx(6), 2);
    assert_eq!(color_idx(11), 3);
    assert_eq!(color_idx(16), 4);
    assert_eq!(color_idx(21), 5);
}

/// Ensures character index stays within bounds.
#[test]
fn char_idx_is_bounded() {
    let len = 11;
    assert_eq!(char_idx(0, len), 0);
    assert_eq!(char_idx(25, len), len - 1);
}

/// A quiet screen at the default event count: base heat 40, one
/// injection per four columns.
#[test]
fn default_screen_scenario() {
    assert_eq!(heat_base(0), 40);
    assert_eq!(num_injections(80, 0), 20);
}

/// A busy event count: scaling hits its cap and the base heat tops out.
#[test]
fn busy_screen_scenario() {
    assert_eq!(heat_scaling(80), 70);
    assert_eq!(heat_base(80), 110);
}

/// The color buckets at every threshold edge.
#[test]
fn color_idx_threshold_edges() {
    assert_eq!(color_idx(-3), 0);
    assert_eq!(color_idx(5), 1);
    assert_eq!(color_idx(10), 2);
    assert_eq!(color_idx(15), 3);
    assert_eq!(color_idx(20), 4);
    assert_eq!(color_idx(1000), 5);
}

/// The glyph bucket scales linearly below the clamp.
#[test]
fn char_idx_linear_scale() {
    assert_eq!(char_idx(12, 11), 5);
    assert_eq!(char_idx(24, 11), 10);
    assert_eq!(char_idx(100, 11), 10);
    assert_eq!(char_idx(-7, 11), 0);
}

/// Injection writes the injection heat into the bottom row and touches
/// nothing above it.
#[test]
fn inject_touches_only_bottom_row() {
    let mut g = HeatGrid::new(8, 4);
    g.inject(0);
    let bottom_start = 8 * 3;
    for i in 0..bottom_start {
        assert_eq!(g.cells[i], 0);
    }
    let injected = (bottom_start..8 * 4).filter(|&i| g.cells[i] == 40).count();
    let untouched = (bottom_start..8 * 4).filter(|&i| g.cells[i] == 0).count();
    assert!(injected >= 1);
    assert_eq!(injected + untouched, 8);
}

/// Every diffused grid cell sits at or above the smoke floor.
#[test]
fn diffusion_respects_smoke_floor() {
    let mut g = HeatGrid::new(10, 8);
    for _ in 0..5 {
        g.inject(40);
        g.diffuse(2, 40, 5);
        for y in 0..8 {
            for x in 0..10 {
                assert!(g.cells[y * 10 + x] >= 5);
            }
        }
    }
}

/// One diffusion step on a hand-built buffer: each cell averages its
/// left, right, below and below-right neighbors, cooled by one.
#[test]
fn diffusion_averages_neighbors() {
    let mut g = HeatGrid::new(3, 2);
    // row 0: 0 0 0 / row 1: 40 40 0, pad zeroed
    g.cells[3] = 40;
    g.cells[4] = 40;
    // cooling = max(1 - 0, 1) = 1, smoke 0
    g.diffuse(1, 0, 0);
    // cell (0,0): left 0, right 0, below 40, below-right 40 -> 80/4 - 1 = 19
    assert_eq!(g.cells[0], 19);
    // cell (1,0): left 0, right 0, below 40, below-right 0 -> 40/4 - 1 = 9
    assert_eq!(g.cells[1], 9);
    // cell (2,0): no right neighbors, below 0 -> max(0 - 1, 0) = 0
    assert_eq!(g.cells[2], 0);
    // cell (1,1): left 40, right 0, nothing below -> 40/4 - 1 = 9
    assert_eq!(g.cells[4], 9);
}
