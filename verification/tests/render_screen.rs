use spectroterm::history::WaterfallHistory;
use spectroterm::render::color_for_level;
use spectroterm::render::history_depth;
use spectroterm::render::Command;
use spectroterm::render::FrameRenderer;
use spectroterm::render::WATERFALL_TOP;
use spectroterm::screen::Color;
use spectroterm::spectrum::bin_frequency_millihz;
use spectroterm::spectrum::bin_index_for_column;
use spectroterm::spectrum::Spectrum;
use spectroterm::spectrum::SPECTRUM_BINS;
use spectroterm::view::ViewState;

fn spectrum_with_levels(level: u8) -> Spectrum {
    let mut levels = vec![0u8; SPECTRUM_BINS];
    for i in 1..SPECTRUM_BINS {
        levels[i] = level;
    }
    Spectrum::from_levels(levels).expect("bin count matches")
}

#[test]
fn color_bands_have_inclusive_boundaries() {
    let cases: Vec<(u8, Color)> = vec![
        (0, Color::Blue),
        (20, Color::Blue),
        (21, Color::Cyan),
        (40, Color::Cyan),
        (41, Color::Green),
        (60, Color::Green),
        (61, Color::Yellow),
        (80, Color::Yellow),
        (81, Color::Red),
        (100, Color::Red),
    ];
    for (level, color) in cases {
        assert_eq!(color_for_level(level), color);
    }
}

#[test]
fn rendering_the_same_frame_twice_emits_nothing_the_second_time() {
    let mut renderer = FrameRenderer::new(10, 20);
    let state = ViewState::new();
    let mut history = WaterfallHistory::new(history_depth(20));
    history.push(spectrum_with_levels(42));
    let chart: Vec<String> = vec!["~~~~".to_string(), "----".to_string()];
    let first = renderer.render(&state, &history, "Gain 1.0", "Spectrum", "--------", &chart);
    assert!(!first.is_empty());
    let second = renderer.render(&state, &history, "Gain 1.0", "Spectrum", "--------", &chart);
    assert_eq!(second, Vec::new());
}

#[test]
fn diff_emits_colors_once_per_run() {
    // A 4-wide terminal whose only content is one waterfall row of level
    // zero: the diff moves to each cell but names the color pair once.
    let mut renderer = FrameRenderer::new(4, 16);
    let state = ViewState::new();
    let history = WaterfallHistory::new(1);
    let chart: Vec<String> = Vec::new();
    let cmds = renderer.render(&state, &history, "", "", "", &chart);
    let y = WATERFALL_TOP as u16;
    assert_eq!(
        cmds,
        vec![
            Command::MoveTo(0, y),
            Command::SetFg(Color::Blue),
            Command::SetBg(Color::Blue),
            Command::Put('█'),
            Command::MoveTo(1, y),
            Command::Put('█'),
            Command::MoveTo(2, y),
            Command::Put('█'),
            Command::MoveTo(3, y),
            Command::Put('█'),
        ]
    );
}

#[test]
fn header_text_lands_on_the_top_row_and_clips() {
    let mut renderer = FrameRenderer::new(4, 16);
    let state = ViewState::new();
    let history = WaterfallHistory::new(1);
    let chart: Vec<String> = Vec::new();
    renderer.render(&state, &history, "abcdef", "", "", &chart);
    assert_eq!(renderer.front_cell(0, 0).ch, 'a');
    assert_eq!(renderer.front_cell(1, 0).ch, 'b');
    assert_eq!(renderer.front_cell(2, 0).ch, 'c');
    assert_eq!(renderer.front_cell(3, 0).ch, 'd');
    assert_eq!(renderer.front_cell(0, 1).ch, ' ');
}

#[test]
fn waterfall_rows_read_newest_first_from_the_top() {
    let mut renderer = FrameRenderer::new(6, 18);
    let state = ViewState::new();
    let mut history = WaterfallHistory::new(history_depth(18));
    history.push(spectrum_with_levels(30));
    history.push(spectrum_with_levels(90));
    let chart: Vec<String> = Vec::new();
    renderer.render(&state, &history, "", "", "", &chart);
    // Top waterfall row shows the newest spectrum (level 90: red), the
    // next row the one before (level 30: cyan).
    let top = WATERFALL_TOP;
    assert_eq!(renderer.front_cell(1, top).fg, Color::Red);
    assert_eq!(renderer.front_cell(1, top + 1).fg, Color::Cyan);
    // Blue everywhere below: those rows still hold silent spectra.
    assert_eq!(renderer.front_cell(1, top + 2).fg, Color::Blue);
}

#[test]
fn column_zero_shows_the_dc_bin() {
    // Bin 0 is forced silent, so the leftmost column is always in the
    // lowest band even when every other bin is loud.
    let mut renderer = FrameRenderer::new(8, 16);
    let state = ViewState::new();
    let mut history = WaterfallHistory::new(1);
    history.push(spectrum_with_levels(100));
    let chart: Vec<String> = Vec::new();
    renderer.render(&state, &history, "", "", "", &chart);
    assert_eq!(renderer.front_cell(0, WATERFALL_TOP).fg, Color::Blue);
    assert_eq!(renderer.front_cell(1, WATERFALL_TOP).fg, Color::Red);
}

#[test]
fn set_cell_ignores_out_of_range_coordinates() {
    let mut renderer = FrameRenderer::new(4, 16);
    let cell = spectroterm::screen::ScreenCell { ch: 'x', fg: Color::Red, bg: Color::Red };
    renderer.set_cell(100, 100, cell);
    let state = ViewState::new();
    let history = WaterfallHistory::new(1);
    let chart: Vec<String> = Vec::new();
    renderer.render(&state, &history, "", "", "", &chart);
    assert_eq!(renderer.front_cell(3, 15).ch, '█');
}

#[test]
fn bin_index_follows_the_zoom_ratio() {
    // No zoom: a column's share of the half spectrum.
    assert_eq!(bin_index_for_column(50, 100, 0), 512);
    assert_eq!(bin_index_for_column(0, 100, 0), 0);
    assert_eq!(bin_index_for_column(99, 100, 0), 1013);
    // One zoom step in: the 6/5 ratio narrows the shown range.
    assert_eq!(bin_index_for_column(50, 100, 1), 426);
    // Far zoomed out, the raw index passes the last bin and is clamped.
    assert_eq!(bin_index_for_column(1, 2, -30), 1023);
}

#[test]
fn bin_frequencies_follow_the_sample_rate() {
    assert_eq!(bin_frequency_millihz(0, 44100), 0);
    assert_eq!(bin_frequency_millihz(1, 44100), 21533);
    assert_eq!(bin_frequency_millihz(100, 44100), 2153320);
}

#[test]
fn history_depth_leaves_room_for_the_headers() {
    assert_eq!(history_depth(16), 1);
    assert_eq!(history_depth(40), 25);
}
