use yule_gitlog::control::is_quit_key;
use yule_gitlog::control::step_state;
use yule_gitlog::control::KeyCode;
use yule_gitlog::control::KeyPress;
use yule_gitlog::control::RunState;
use yule_gitlog::engine::Animation;
use yule_gitlog::engine::Config;
use yule_gitlog::palette::palette_chars;
use yule_gitlog::palette::palette_colors;
use yule_gitlog::palette::TermColor;
use yule_gitlog::render::render_grid;
use yule_gitlog::render::DrawCell;
use yule_gitlog::heat::HeatGrid;
use yule_gitlog::ticker::advance_offset;
use yule_gitlog::ticker::str_chars;
use yule_gitlog::ticker::ticker_row;

fn key(code: KeyCode, ctrl: bool) -> KeyPress {
    KeyPress { code, ctrl }
}

/// The quit signals: q, Escape and Ctrl+C; anything else keeps running.
#[test]
fn quit_keys_stop_the_loop() {
    let q = key(KeyCode::Char('q'), false);
    let esc = key(KeyCode::Esc, false);
    let ctrl_c = key(KeyCode::Char('c'), true);
    let plain_c = key(KeyCode::Char('c'), false);
    let other = key(KeyCode::Char('x'), false);
    assert!(is_quit_key(&q));
    assert!(is_quit_key(&esc));
    assert!(is_quit_key(&ctrl_c));
    assert!(!is_quit_key(&plain_c));
    assert!(!is_quit_key(&other));

    assert_eq!(step_state(RunState::Running, Some(q)), RunState::Stopped);
    assert_eq!(step_state(RunState::Running, Some(esc)), RunState::Stopped);
    assert_eq!(step_state(RunState::Running, Some(ctrl_c)), RunState::Stopped);
    assert_eq!(step_state(RunState::Running, Some(other)), RunState::Running);
    assert_eq!(step_state(RunState::Running, None), RunState::Running);
    assert_eq!(step_state(RunState::Stopped, None), RunState::Stopped);
}

/// The two palettes: glyph ramps of 10 and 11 entries, color ramps of 5
/// and 6 entries.
#[test]
fn palette_sizes() {
    assert_eq!(palette_chars(true).len(), 10);
    assert_eq!(palette_chars(false).len(), 11);
    assert_eq!(palette_colors(true).len(), 5);
    assert_eq!(palette_colors(false).len(), 6);
    assert_eq!(palette_colors(false)[5], TermColor::Red);
    assert_eq!(palette_colors(true)[0], TermColor::Black);
}

/// A two-line ticker over a five-column screen: the message wraps at its
/// own length, the meta line at its own.
#[test]
fn ticker_wraps_each_line_independently() {
    let message = str_chars("AB");
    let meta = str_chars("CDE");
    let msg_ops = ticker_row(&message, 5, 0, 22);
    let meta_ops = ticker_row(&meta, 5, 0, 23);
    let msg_glyphs: Vec<char> = msg_ops.iter().map(|c| c.glyph).collect();
    let meta_glyphs: Vec<char> = meta_ops.iter().map(|c| c.glyph).collect();
    assert_eq!(msg_glyphs, vec!['A', 'B', 'A', 'B', 'A']);
    assert_eq!(meta_glyphs, vec!['C', 'D', 'E', 'C', 'D']);
    for (x, op) in msg_ops.iter().enumerate() {
        assert_eq!(op.col, x);
        assert_eq!(op.row, 22);
        assert_eq!(op.color, Some(TermColor::White));
    }
}

/// At speed 1 the offset steps by one every ten frames; at speed 10 it
/// steps by ten every frame, modulo the message length.
#[test]
fn offset_advances_on_its_cadence() {
    let mut offset = 0;
    let mut advanced = 0;
    for frame in 0..20 {
        let next = advance_offset(offset, frame, 1, 50);
        if next != offset {
            advanced += 1;
        }
        offset = next;
    }
    assert_eq!(advanced, 2); // frames 0 and 10
    assert_eq!(offset, 2);

    let mut offset = 0;
    for frame in 0..3 {
        offset = advance_offset(offset, frame, 10, 7);
    }
    // three steps of ten, each wrapped at 7: 0 -> 3 -> 6 -> 2
    assert_eq!(offset, (((0 + 10) % 7 + 10) % 7 + 10) % 7);
    assert_eq!(offset, 2);
}

/// Fire mode blanks the five top rows regardless of heat; ticker rows
/// are skipped while the ticker is active.
#[test]
fn render_masks_top_rows_and_ticker_rows() {
    let mut g = HeatGrid::new(4, 9);
    for i in 0..4 * 9 {
        g.cells[i] = 30;
    }
    let chars = palette_chars(false);
    let colors = palette_colors(false);
    let ops = render_grid(&g, false, true, &chars, &colors);
    // 9 rows, minus 2 ticker rows = 7 visible rows of 4 columns
    assert_eq!(ops.len(), 7 * 4);
    for op in ops.iter() {
        assert!(op.row < 7);
        if op.row < 5 {
            assert_eq!(op.glyph, ' ');
            assert_eq!(op.color, None);
        } else {
            assert_eq!(op.glyph, '$'); // 30 * 11 / 25 clamps to the last glyph
            assert_eq!(op.color, Some(TermColor::Red));
        }
    }
}

/// Contribution mode draws every row, with the color bucket clamped to
/// the shorter contribution ramp.
#[test]
fn render_clamps_color_to_palette() {
    let mut g = HeatGrid::new(3, 3);
    for i in 0..9 {
        g.cells[i] = 30; // bucket 5, clamped to index 4
    }
    let chars = palette_chars(true);
    let colors = palette_colors(true);
    let ops = render_grid(&g, true, false, &chars, &colors);
    assert_eq!(ops.len(), 9);
    for op in ops.iter() {
        assert_eq!(op.color, Some(TermColor::Rgb { r: 33, g: 110, b: 57 }));
    }
}

fn test_config(speed: u8) -> Config {
    Config {
        contribs: false,
        have_ticker: true,
        speed,
        smoke_factor: 3,
        num_events: 10,
        message: str_chars("AB"),
        meta: str_chars("CDE"),
    }
}

/// One running tick draws the grid and both ticker rows, steps the frame
/// counter, and keeps every diffused cell at or above the smoke floor;
/// a quit key stops the loop and draws nothing.
#[test]
fn tick_runs_then_stops() {
    let cfg = test_config(10);
    let chars = palette_chars(cfg.contribs);
    let colors = palette_colors(cfg.contribs);
    let mut a = Animation::new(6, 8);
    let ops = a.tick(&cfg, None, &chars, &colors);
    let ops = ops.expect("running tick must draw");
    // 6 visible rows of 6 columns, then two ticker rows of 6 columns
    assert_eq!(ops.len(), 6 * 6 + 2 * 6);
    let ticker_ops: Vec<&DrawCell> = ops.iter().filter(|o| o.row >= 6).collect();
    assert_eq!(ticker_ops.len(), 12);
    assert_eq!(a.frame, 1);
    assert_eq!(a.state, RunState::Running);
    assert_eq!(a.offset, (0 + 10) % 2); // speed 10 advances every frame
    for y in 0..8 {
        for x in 0..6 {
            assert!(a.grid.cells[y * 6 + x] >= 3);
        }
    }
    let quit = a.tick(&cfg, Some(key(KeyCode::Esc, false)), &chars, &colors);
    assert!(quit.is_none());
    assert_eq!(a.state, RunState::Stopped);
    assert_eq!(a.frame, 1);
}
