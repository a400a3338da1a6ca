//! Double-buffered frame renderer.
//!
//! The renderer composes each frame into a back grid — header lines, the
//! spectrum plot handed in as text, and the colorized waterfall — then
//! compares the back grid with the front grid (the frame on screen) and
//! returns terminal commands for the differing cells alone, changing
//! colors only when a command's color differs from the last one emitted.
//! The grids swap afterwards. The caller feeds the commands to the
//! terminal; the library never touches it.

use vstd::prelude::*;
use crate::history::WaterfallHistory;
use crate::screen::blank_grid;
use crate::screen::grid_set;
use crate::screen::Color;
use crate::screen::ScreenBuffer;
use crate::screen::ScreenCell;
use crate::spectrum::bin_index_for_column;
use crate::spectrum::bin_index_spec;
use crate::view::ViewState;
use crate::view::STEP_LIMIT;

verus! {

/// First terminal row of the waterfall region; the rows above hold the
/// headers and the spectrum plot.
pub const WATERFALL_TOP: usize = 15;

/// The glyph every waterfall cell shows; its colors carry the level.
pub const WATERFALL_GLYPH: char = '█';

/// How many history rows a terminal of `height` rows has room for below
/// the waterfall's top row.
pub fn history_depth(height: usize) -> (r: usize)
    requires
        height > WATERFALL_TOP,
    ensures
        r == height - WATERFALL_TOP,
        r > 0,
{
    height - WATERFALL_TOP
}

/// The color band of a display level: five bands of twenty levels each,
/// 0..=20 blue, 21..=40 cyan, 41..=60 green, 61..=80 yellow, above red.
pub open spec fn color_spec(level: u8) -> Color {
    if level <= 20 {
        Color::Blue
    } else if level <= 40 {
        Color::Cyan
    } else if level <= 60 {
        Color::Green
    } else if level <= 80 {
        Color::Yellow
    } else {
        Color::Red
    }
}

/// Map a display level to its color band.
pub fn color_for_level(level: u8) -> (c: Color)
    ensures
        c == color_spec(level),
{
    if level <= 20 {
        Color::Blue
    } else if level <= 40 {
        Color::Cyan
    } else if level <= 60 {
        Color::Green
    } else if level <= 80 {
        Color::Yellow
    } else {
        Color::Red
    }
}

/// A grid with a text stamped into row `y` starting at column `x`, one
/// character per cell left to right, clipped at the grid's right edge; the
/// stamped cells keep their colors.
pub open spec fn write_text_spec(
    g: Seq<Seq<ScreenCell>>,
    x: int,
    y: int,
    t: Seq<char>,
) -> Seq<Seq<ScreenCell>>
    decreases t.len(),
{
    if t.len() == 0 {
        g
    } else {
        write_text_spec(
            grid_set(g, x, y, (ScreenCell { ch: t[0], fg: g[y][x].fg, bg: g[y][x].bg })),
            x + 1,
            y,
            t.subrange(1, t.len() as int),
        )
    }
}

/// Stamping from a column at or past the row's right edge changes nothing.
proof fn lemma_write_text_clipped(g: Seq<Seq<ScreenCell>>, x: int, y: int, t: Seq<char>)
    requires
        0 <= y < g.len() ==> x >= g[y].len(),
    ensures
        write_text_spec(g, x, y, t) == g,
    decreases t.len(),
{
    if t.len() > 0 {
        assert(grid_set(g, x, y, (ScreenCell { ch: t[0], fg: g[y][x].fg, bg: g[y][x].bg })) == g);
        lemma_write_text_clipped(g, x + 1, y, t.subrange(1, t.len() as int));
    }
}

/// A grid with a run of texts stamped into consecutive rows from `y0` on.
pub open spec fn write_lines_spec(
    g: Seq<Seq<ScreenCell>>,
    y0: int,
    lines: Seq<Seq<char>>,
) -> Seq<Seq<ScreenCell>>
    decreases lines.len(),
{
    if lines.len() == 0 {
        g
    } else {
        write_lines_spec(write_text_spec(g, 0, y0, lines[0]), y0 + 1, lines.subrange(1, lines.len() as int))
    }
}

/// The cell one waterfall position shows: the block glyph, colored by the
/// level of the bin that column maps to in the row's spectrum.
pub open spec fn waterfall_cell(hist: Seq<Seq<u8>>, k: int, w: int, x: int, y: int) -> ScreenCell {
    let lvl = hist[y - WATERFALL_TOP][bin_index_spec(x, w, k)];
    (ScreenCell { ch: WATERFALL_GLYPH, fg: color_spec(lvl), bg: color_spec(lvl) })
}

/// A grid with the waterfall drawn over its region: one row per history
/// entry, newest at the top, each column showing its bin's level.
pub open spec fn waterfall_spec(
    g: Seq<Seq<ScreenCell>>,
    hist: Seq<Seq<u8>>,
    k: int,
    w: int,
) -> Seq<Seq<ScreenCell>> {
    Seq::new(
        g.len(),
        |y: int|
            if WATERFALL_TOP <= y < WATERFALL_TOP + hist.len() {
                Seq::new(g[y].len(), |x: int| waterfall_cell(hist, k, w, x, y))
            } else {
                g[y]
            },
    )
}

/// The fully composed frame: headers and plot lines stamped onto a blank
/// grid, the waterfall drawn over its region.
pub open spec fn composed_spec(
    w: nat,
    h: nat,
    header: Seq<char>,
    spectrum_header: Seq<char>,
    divider: Seq<char>,
    chart: Seq<Seq<char>>,
    hist: Seq<Seq<u8>>,
    k: int,
) -> Seq<Seq<ScreenCell>> {
    waterfall_spec(
        write_lines_spec(
            write_text_spec(
                write_text_spec(write_text_spec(blank_grid(w, h), 0, 0, header), 0, 2, spectrum_header),
                0,
                3,
                divider,
            ),
            4,
            chart,
        ),
        hist,
        k,
        w as int,
    )
}

/// One terminal output command.
#[derive(Clone, Copy, PartialEq, Eq, Structural, Debug)]
pub enum Command {
    MoveTo(u16, u16),
    SetFg(Color),
    SetBg(Color),
    Put(char),
}

/// The commands one cell position contributes: nothing when front and back
/// agree there; otherwise a cursor move, the color changes the cell needs
/// relative to the colors last emitted, and its character.
pub open spec fn cell_commands(
    f: ScreenCell,
    b: ScreenCell,
    x: int,
    y: int,
    fg: Color,
    bg: Color,
) -> Seq<Command> {
    if f == b {
        Seq::empty()
    } else {
        seq![Command::MoveTo(x as u16, y as u16)] + (if fg != b.fg {
            seq![Command::SetFg(b.fg)]
        } else {
            Seq::empty()
        }) + (if bg != b.bg {
            seq![Command::SetBg(b.bg)]
        } else {
            Seq::empty()
        }) + seq![Command::Put(b.ch)]
    }
}

/// The foreground color last emitted after a cell position is handled.
pub open spec fn next_fg(f: ScreenCell, b: ScreenCell, fg: Color) -> Color {
    if f == b {
        fg
    } else {
        b.fg
    }
}

/// The background color last emitted after a cell position is handled.
pub open spec fn next_bg(f: ScreenCell, b: ScreenCell, bg: Color) -> Color {
    if f == b {
        bg
    } else {
        b.bg
    }
}

/// All commands the diff of `front` and `back` emits from position
/// `(x, y)` on, in row-major order, with `fg` and `bg` the colors last
/// emitted.
pub open spec fn emit_from(
    front: Seq<Seq<ScreenCell>>,
    back: Seq<Seq<ScreenCell>>,
    w: int,
    h: int,
    y: int,
    x: int,
    fg: Color,
    bg: Color,
) -> Seq<Command>
    decreases h - y, w + 1 - x,
{
    if y < 0 || y >= h || x < 0 || x > w {
        Seq::empty()
    } else if x == w {
        emit_from(front, back, w, h, y + 1, 0, fg, bg)
    } else {
        cell_commands(front[y][x], back[y][x], x, y, fg, bg) + emit_from(
            front,
            back,
            w,
            h,
            y,
            x + 1,
            next_fg(front[y][x], back[y][x], fg),
            next_bg(front[y][x], back[y][x], bg),
        )
    }
}

/// The whole diff of two grids, from the top left, with no colors emitted
/// yet.
pub open spec fn emit_spec(
    front: Seq<Seq<ScreenCell>>,
    back: Seq<Seq<ScreenCell>>,
    w: int,
    h: int,
) -> Seq<Command> {
    emit_from(front, back, w, h, 0, 0, Color::Reset, Color::Reset)
}

/// Diffing a grid against itself emits nothing, from any position and any
/// color state.
pub proof fn lemma_emit_from_unchanged(
    g: Seq<Seq<ScreenCell>>,
    w: int,
    h: int,
    y: int,
    x: int,
    fg: Color,
    bg: Color,
)
    ensures
        emit_from(g, g, w, h, y, x, fg, bg) == Seq::<Command>::empty(),
    decreases h - y, w + 1 - x,
{
    if y < 0 || y >= h || x < 0 || x > w {
    } else if x == w {
        lemma_emit_from_unchanged(g, w, h, y + 1, 0, fg, bg);
    } else {
        lemma_emit_from_unchanged(g, w, h, y, x + 1, fg, bg);
        assert(cell_commands(g[y][x], g[y][x], x, y, fg, bg) =~= Seq::<Command>::empty());
        assert(emit_from(g, g, w, h, y, x, fg, bg) =~= Seq::<Command>::empty());
    }
}

/// Renderer idempotence: composing the very frame that is already on
/// screen — same view, same history, same texts — emits no commands at
/// all.
pub proof fn lemma_render_idempotent(
    w: nat,
    h: nat,
    header: Seq<char>,
    spectrum_header: Seq<char>,
    divider: Seq<char>,
    chart: Seq<Seq<char>>,
    hist: Seq<Seq<u8>>,
    k: int,
)
    ensures
        emit_spec(
            composed_spec(w, h, header, spectrum_header, divider, chart, hist, k),
            composed_spec(w, h, header, spectrum_header, divider, chart, hist, k),
            w as int,
            h as int,
        ) == Seq::<Command>::empty(),
{
    lemma_emit_from_unchanged(
        composed_spec(w, h, header, spectrum_header, divider, chart, hist, k),
        w as int,
        h as int,
        0,
        0,
        Color::Reset,
        Color::Reset,
    );
}

/// The waterfall drawn row by row, the first `rows` history rows done.
spec fn waterfall_partial(
    g: Seq<Seq<ScreenCell>>,
    hist: Seq<Seq<u8>>,
    k: int,
    w: int,
    rows: int,
) -> Seq<Seq<ScreenCell>> {
    Seq::new(
        g.len(),
        |y: int|
            if WATERFALL_TOP <= y < WATERFALL_TOP + hist.len() && y - WATERFALL_TOP < rows {
                Seq::new(g[y].len(), |x: int| waterfall_cell(hist, k, w, x, y))
            } else {
                g[y]
            },
    )
}

/// One waterfall row drawn over a grid, whole.
spec fn waterfall_row_spec(
    g: Seq<Seq<ScreenCell>>,
    hist: Seq<Seq<u8>>,
    k: int,
    w: int,
    i: int,
) -> Seq<Seq<ScreenCell>> {
    Seq::new(
        g.len(),
        |y: int|
            if y == WATERFALL_TOP + i {
                Seq::new(g[y].len(), |x: int| waterfall_cell(hist, k, w, x, y))
            } else {
                g[y]
            },
    )
}

/// One waterfall row drawn over a grid, its first `cols` cells done.
spec fn waterfall_row_partial(
    g: Seq<Seq<ScreenCell>>,
    hist: Seq<Seq<u8>>,
    k: int,
    w: int,
    i: int,
    cols: int,
) -> Seq<Seq<ScreenCell>> {
    Seq::new(
        g.len(),
        |y: int|
            if y == WATERFALL_TOP + i {
                Seq::new(
                    g[y].len(),
                    |x: int|
                        if x < cols {
                            waterfall_cell(hist, k, w, x, y)
                        } else {
                            g[y][x]
                        },
                )
            } else {
                g[y]
            },
    )
}

/// The two full-screen grids the renderer draws into and diffs.
pub struct FrameRenderer {
    front_buffer: ScreenBuffer,
    back_buffer: ScreenBuffer,
}

impl FrameRenderer {
    /// Both grids share one terminal-sized shape: at least one column, at
    /// least the waterfall's top row plus one, and coordinates that fit a
    /// terminal's 16-bit addressing.
    pub closed spec fn well_formed(self) -> bool {
        &&& self.front_buffer.well_formed()
        &&& self.back_buffer.well_formed()
        &&& self.front_buffer.spec_width() == self.back_buffer.spec_width()
        &&& self.front_buffer.spec_height() == self.back_buffer.spec_height()
        &&& 0 < self.front_buffer.spec_width() <= 0xFFFF
        &&& WATERFALL_TOP < self.front_buffer.spec_height() <= 0xFFFF
    }

    /// The grid's width in columns.
    pub closed spec fn spec_width(self) -> nat {
        self.front_buffer.spec_width()
    }

    /// The grid's height in rows.
    pub closed spec fn spec_height(self) -> nat {
        self.front_buffer.spec_height()
    }

    /// The frame on screen: what the last render left in every cell.
    pub closed spec fn front_grid(self) -> Seq<Seq<ScreenCell>> {
        self.front_buffer.grid()
    }

    /// The frame being drawn.
    pub closed spec fn back_grid(self) -> Seq<Seq<ScreenCell>> {
        self.back_buffer.grid()
    }

    /// A renderer for a terminal of the given dimensions, both grids
    /// blank.
    pub fn new(width: usize, height: usize) -> (r: Self)
        requires
            0 < width <= 0xFFFF,
            WATERFALL_TOP < height <= 0xFFFF,
        ensures
            r.well_formed(),
            r.spec_width() == width,
            r.spec_height() == height,
            r.front_grid() == blank_grid(width as nat, height as nat),
            r.back_grid() == blank_grid(width as nat, height as nat),
    {
        FrameRenderer {
            front_buffer: ScreenBuffer::new(width, height),
            back_buffer: ScreenBuffer::new(width, height),
        }
    }

    /// The width in columns.
    pub fn width(&self) -> (r: usize)
        ensures
            r as nat == self.spec_width(),
    {
        self.front_buffer.width()
    }

    /// The height in rows.
    pub fn height(&self) -> (r: usize)
        ensures
            r as nat == self.spec_height(),
    {
        self.front_buffer.height()
    }

    /// Stamp a text into the back grid at `(x, y)`, clipped at the right
    /// edge; the stamped cells keep their colors.
    pub fn write_text(&mut self, x: usize, y: usize, s: &str)
        requires
            old(self).well_formed(),
            x <= old(self).spec_width(),
            y < old(self).spec_height(),
        ensures
            final(self).well_formed(),
            final(self).spec_width() == old(self).spec_width(),
            final(self).spec_height() == old(self).spec_height(),
            final(self).front_grid() == old(self).front_grid(),
            final(self).back_grid() == write_text_spec(
                old(self).back_grid(),
                x as int,
                y as int,
                s@,
            ),
    {
        let n = s.unicode_len();
        let width = self.back_buffer.width();
        let mut i: usize = 0;
        let ghost full = write_text_spec(old(self).back_grid(), x as int, y as int, s@);
        proof {
            assert(s@.subrange(0, s@.len() as int) =~= s@);
        }
        while i < n && x + i < width
            invariant
                i <= n,
                i <= width,
                n == s@.len(),
                old(self).well_formed(),
                self.well_formed(),
                self.spec_width() == old(self).spec_width(),
                self.spec_height() == old(self).spec_height(),
                width == self.spec_width(),
                x <= width,
                y < self.spec_height(),
                self.front_grid() == old(self).front_grid(),
                full == write_text_spec(
                    self.back_grid(),
                    x + i,
                    y as int,
                    s@.subrange(i as int, n as int),
                ),
            decreases n - i,
        {
            let ghost prev = self.back_grid();
            let ghost rest = s@.subrange(i as int, n as int);
            let c = s.get_char(i);
            let cur = self.back_buffer.get(x + i, y);
            let newcell = ScreenCell { ch: c, fg: cur.fg, bg: cur.bg };
            self.back_buffer.set(x + i, y, newcell);
            i = i + 1;
            proof {
                assert(rest[0] == c);
                assert(rest.subrange(1, rest.len() as int) =~= s@.subrange(i as int, n as int));
                assert(self.back_grid() == grid_set(prev, (x + i - 1) as int, y as int, newcell));
            }
        }
        proof {
            if i < n {
                // The text ran past the right edge: the rest is clipped.
                lemma_write_text_clipped(
                    self.back_grid(),
                    x + i,
                    y as int,
                    s@.subrange(i as int, n as int),
                );
            } else {
                assert(s@.subrange(i as int, n as int).len() == 0);
            }
        }
    }

    /// Store one styled cell in the back grid if `(x, y)` is in bounds; do
    /// nothing otherwise.
    pub fn set_cell(&mut self, x: usize, y: usize, cell: ScreenCell)
        requires
            old(self).well_formed(),
        ensures
            final(self).well_formed(),
            final(self).spec_width() == old(self).spec_width(),
            final(self).spec_height() == old(self).spec_height(),
            final(self).front_grid() == old(self).front_grid(),
            final(self).back_grid() == grid_set(old(self).back_grid(), x as int, y as int, cell),
    {
        self.back_buffer.set(x, y, cell);
    }

    /// Draw one history row of the waterfall into the back grid.
    fn draw_waterfall_row(
        &mut self,
        history: &WaterfallHistory,
        zoom_steps: i32,
        i: usize,
        width: usize,
    )
        requires
            old(self).well_formed(),
            history.well_formed(),
            -STEP_LIMIT <= zoom_steps <= STEP_LIMIT,
            i < history.depth(),
            i + WATERFALL_TOP < old(self).spec_height(),
            width as nat == old(self).spec_width(),
        ensures
            final(self).well_formed(),
            final(self).spec_width() == old(self).spec_width(),
            final(self).spec_height() == old(self).spec_height(),
            final(self).front_grid() == old(self).front_grid(),
            final(self).back_grid() == waterfall_row_spec(
                old(self).back_grid(),
                history.newest_first(),
                zoom_steps as int,
                width as int,
                i as int,
            ),
    {
        let row = history.newest(i);
        let mut j: usize = 0;
        proof {
            assert(self.back_grid() =~~= waterfall_row_partial(
                old(self).back_grid(),
                history.newest_first(),
                zoom_steps as int,
                width as int,
                i as int,
                0,
            ));
        }
        while j < width
            invariant
                j <= width,
                i < history.depth(),
                history.well_formed(),
                -STEP_LIMIT <= zoom_steps <= STEP_LIMIT,
                row@ == history.newest_first()[i as int],
                row.well_formed(),
                i + WATERFALL_TOP < self.spec_height(),
                old(self).well_formed(),
                self.well_formed(),
                self.spec_width() == old(self).spec_width(),
                self.spec_height() == old(self).spec_height(),
                width as nat == self.spec_width(),
                self.front_grid() == old(self).front_grid(),
                self.back_grid() == waterfall_row_partial(
                    old(self).back_grid(),
                    history.newest_first(),
                    zoom_steps as int,
                    width as int,
                    i as int,
                    j as int,
                ),
            decreases width - j,
        {
            let idx = bin_index_for_column(j, width, zoom_steps);
            let lvl = row.level(idx);
            let color = color_for_level(lvl);
            self.set_cell(
                j,
                i + WATERFALL_TOP,
                ScreenCell { ch: WATERFALL_GLYPH, fg: color, bg: color },
            );
            j = j + 1;
            proof {
                assert(self.back_grid() =~~= waterfall_row_partial(
                    old(self).back_grid(),
                    history.newest_first(),
                    zoom_steps as int,
                    width as int,
                    i as int,
                    j as int,
                ));
            }
        }
        proof {
            assert(self.back_grid() =~~= waterfall_row_spec(
                old(self).back_grid(),
                history.newest_first(),
                zoom_steps as int,
                width as int,
                i as int,
            ));
        }
    }

    /// Draw the waterfall into the back grid: one row per history entry
    /// below the plot area, newest at the top, each cell colored by the
    /// level of the bin its column maps to under the current zoom.
    fn draw_waterfall(&mut self, history: &WaterfallHistory, zoom_steps: i32)
        requires
            old(self).well_formed(),
            history.well_formed(),
            -STEP_LIMIT <= zoom_steps <= STEP_LIMIT,
        ensures
            final(self).well_formed(),
            final(self).spec_width() == old(self).spec_width(),
            final(self).spec_height() == old(self).spec_height(),
            final(self).front_grid() == old(self).front_grid(),
            final(self).back_grid() == waterfall_spec(
                old(self).back_grid(),
                history.newest_first(),
                zoom_steps as int,
                old(self).spec_width() as int,
            ),
    {
        let depth = history.len();
        let width = self.back_buffer.width();
        let visible = self.back_buffer.height() - WATERFALL_TOP;
        let mut i: usize = 0;
        proof {
            assert(self.back_grid() =~~= waterfall_partial(
                old(self).back_grid(),
                history.newest_first(),
                zoom_steps as int,
                width as int,
                0,
            ));
        }
        while i < depth
            invariant
                i <= depth,
                depth == history.depth(),
                history.well_formed(),
                -STEP_LIMIT <= zoom_steps <= STEP_LIMIT,
                old(self).well_formed(),
                self.well_formed(),
                self.spec_width() == old(self).spec_width(),
                self.spec_height() == old(self).spec_height(),
                width as nat == self.spec_width(),
                visible as int == self.spec_height() - WATERFALL_TOP,
                self.front_grid() == old(self).front_grid(),
                self.back_grid() == waterfall_partial(
                    old(self).back_grid(),
                    history.newest_first(),
                    zoom_steps as int,
                    width as int,
                    i as int,
                ),
            decreases depth - i,
        {
            if i >= visible {
                // This row lies below the terminal's bottom edge: the grid
                // has no cells there, so there is nothing to draw.
                i = i + 1;
                proof {
                    assert(self.back_grid() =~~= waterfall_partial(
                        old(self).back_grid(),
                        history.newest_first(),
                        zoom_steps as int,
                        width as int,
                        i as int,
                    ));
                }
            } else {
                self.draw_waterfall_row(history, zoom_steps, i, width);
                i = i + 1;
                proof {
                    assert(self.back_grid() =~~= waterfall_partial(
                        old(self).back_grid(),
                        history.newest_first(),
                        zoom_steps as int,
                        width as int,
                        i as int,
                    ));
                }
            }
        }
        proof {
            assert(self.back_grid() =~~= waterfall_spec(
                old(self).back_grid(),
                history.newest_first(),
                zoom_steps as int,
                width as int,
            ));
        }
    }

    /// Collect the commands for every cell on which the back grid differs
    /// from the front grid, in row-major order, repeating no color.
    fn emit_diff(&self) -> (cmds: Vec<Command>)
        requires
            self.well_formed(),
        ensures
            cmds@ == emit_spec(
                self.front_grid(),
                self.back_grid(),
                self.spec_width() as int,
                self.spec_height() as int,
            ),
    {
        let w = self.front_buffer.width();
        let h = self.front_buffer.height();
        let ghost f = self.front_grid();
        let ghost b = self.back_grid();
        let ghost full = emit_spec(f, b, w as int, h as int);
        let mut cmds: Vec<Command> = Vec::new();
        let mut cur_fg = Color::Reset;
        let mut cur_bg = Color::Reset;
        let mut y: usize = 0;
        while y < h
            invariant
                y <= h,
                w as nat == self.spec_width(),
                h as nat == self.spec_height(),
                self.well_formed(),
                f == self.front_grid(),
                b == self.back_grid(),
                full == cmds@ + emit_from(f, b, w as int, h as int, y as int, 0, cur_fg, cur_bg),
            decreases h - y,
        {
            let mut x: usize = 0;
            while x < w
                invariant
                    x <= w,
                    y < h,
                    w as nat == self.spec_width(),
                    h as nat == self.spec_height(),
                    self.well_formed(),
                    f == self.front_grid(),
                    b == self.back_grid(),
                    full == cmds@ + emit_from(
                        f,
                        b,
                        w as int,
                        h as int,
                        y as int,
                        x as int,
                        cur_fg,
                        cur_bg,
                    ),
                decreases w - x,
            {
                let ghost prev = cmds@;
                let ghost prev_fg = cur_fg;
                let ghost prev_bg = cur_bg;
                let fc = self.front_buffer.get(x, y);
                let bc = self.back_buffer.get(x, y);
                if fc != bc {
                    cmds.push(Command::MoveTo(x as u16, y as u16));
                    if cur_fg != bc.fg {
                        cmds.push(Command::SetFg(bc.fg));
                        cur_fg = bc.fg;
                    }
                    if cur_bg != bc.bg {
                        cmds.push(Command::SetBg(bc.bg));
                        cur_bg = bc.bg;
                    }
                    cmds.push(Command::Put(bc.ch));
                }
                proof {
                    assert(cmds@ =~= prev + cell_commands(
                        f[y as int][x as int],
                        b[y as int][x as int],
                        x as int,
                        y as int,
                        prev_fg,
                        prev_bg,
                    ));
                    assert(cur_fg == next_fg(f[y as int][x as int], b[y as int][x as int], prev_fg));
                    assert(cur_bg == next_bg(f[y as int][x as int], b[y as int][x as int], prev_bg));
                }
                x = x + 1;
            }
            y = y + 1;
        }
        proof {
            assert(full =~= cmds@);
        }
        cmds
    }

    /// Compose and emit one frame.
    ///
    /// The back grid is cleared and rebuilt: the header text on the top
    /// row, the spectrum title and divider on rows two and three, the
    /// plot's text lines from row four on, and the waterfall over its
    /// region, newest spectrum at the top. The returned commands are
    /// exactly the diff against the frame on screen; after the call the
    /// composed frame is the front grid and the old front grid is the back
    /// grid, to be overwritten next.
    pub fn render(
        &mut self,
        state: &ViewState,
        history: &WaterfallHistory,
        header: &str,
        spectrum_header: &str,
        divider: &str,
        chart_lines: &Vec<String>,
    ) -> (cmds: Vec<Command>)
        requires
            old(self).well_formed(),
            state.well_formed(),
            history.well_formed(),
            4 + chart_lines@.len() <= old(self).spec_height(),
        ensures
            final(self).well_formed(),
            final(self).spec_width() == old(self).spec_width(),
            final(self).spec_height() == old(self).spec_height(),
            final(self).front_grid() == composed_spec(
                old(self).spec_width(),
                old(self).spec_height(),
                header@,
                spectrum_header@,
                divider@,
                chart_lines@.map_values(|s: String| s@),
                history.newest_first(),
                state.zoom(),
            ),
            final(self).back_grid() == old(self).front_grid(),
            cmds@ == emit_spec(
                old(self).front_grid(),
                final(self).front_grid(),
                old(self).spec_width() as int,
                old(self).spec_height() as int,
            ),
    {
        let ghost w = self.spec_width();
        let ghost h = self.spec_height();
        let ghost chart = chart_lines@.map_values(|s: String| s@);
        self.back_buffer.clear();
        self.write_text(0, 0, header);
        self.write_text(0, 2, spectrum_header);
        self.write_text(0, 3, divider);
        let ghost g3 = self.back_grid();
        let n = chart_lines.len();
        let mut i: usize = 0;
        proof {
            assert(chart.subrange(0, chart.len() as int) =~= chart);
        }
        while i < n
            invariant
                i <= n,
                n == chart_lines@.len(),
                chart == chart_lines@.map_values(|s: String| s@),
                4 + n <= self.spec_height(),
                self.well_formed(),
                self.spec_width() == w,
                self.spec_height() == h,
                self.front_grid() == old(self).front_grid(),
                write_lines_spec(
                    self.back_grid(),
                    4 + i as int,
                    chart.subrange(i as int, chart.len() as int),
                ) == write_lines_spec(g3, 4, chart),
            decreases n - i,
        {
            let ghost rest = chart.subrange(i as int, chart.len() as int);
            self.write_text(0, 4 + i, chart_lines[i].as_str());
            i = i + 1;
            proof {
                assert(rest.subrange(1, rest.len() as int) =~= chart.subrange(
                    i as int,
                    chart.len() as int,
                ));
                assert(rest[0] == chart[i - 1]);
            }
        }
        proof {
            assert(write_lines_spec(
                self.back_grid(),
                4 + n as int,
                chart.subrange(n as int, chart.len() as int),
            ) == self.back_grid());
        }
        self.draw_waterfall(history, state.zoom_steps());
        proof {
            assert(self.back_grid() == composed_spec(
                w,
                h,
                header@,
                spectrum_header@,
                divider@,
                chart,
                history.newest_first(),
                state.zoom(),
            ));
        }
        let cmds = self.emit_diff();
        core::mem::swap(&mut self.front_buffer, &mut self.back_buffer);
        cmds
    }

    /// One cell of the frame on screen, for the callers that inspect what
    /// the last render left.
    pub fn front_cell(&self, x: usize, y: usize) -> (r: ScreenCell)
        requires
            self.well_formed(),
            x < self.spec_width(),
            y < self.spec_height(),
        ensures
            r == self.front_grid()[y as int][x as int],
    {
        self.front_buffer.get(x, y)
    }
}

} // verus!
