use vstd::prelude::*;
use vstd::string::*;
use crate::palette::{color_name, color_text, default_palette, default_palette_exec, rgb_tag, RGB_FLAG};
use crate::parser::{ActionModel, TerminalAction};

verus! {

/// Colours and styles of a cell. A colour is a palette index, or a tagged RGB value.
#[derive(Debug, Clone, Copy, PartialEq, Eq, Hash, Structural)]
pub struct CellAttributes {
    pub fg_color: Option<u32>,
    pub bg_color: Option<u32>,
    pub bold: bool,
    pub italic: bool,
    pub underline: bool,
    pub blink: bool,
    pub reverse: bool,
    pub hidden: bool,
    pub strikethrough: bool,
}

pub open spec fn default_attributes() -> CellAttributes {
    CellAttributes {
        fg_color: Some(7),
        bg_color: Some(0),
        bold: false,
        italic: false,
        underline: false,
        blink: false,
        reverse: false,
        hidden: false,
        strikethrough: false,
    }
}

impl CellAttributes {
    /// White on black, no style.
    pub fn new() -> (a: Self)
        ensures
            a == default_attributes(),
    {
        CellAttributes {
            fg_color: Some(7),
            bg_color: Some(0),
            bold: false,
            italic: false,
            underline: false,
            blink: false,
            reverse: false,
            hidden: false,
            strikethrough: false,
        }
    }
}

impl Default for CellAttributes {
    fn default() -> (a: Self)
        ensures
            a == default_attributes(),
    {
        Self::new()
    }
}

/// One character on the screen with its attributes.
#[derive(Debug, Clone, Copy, PartialEq, Eq, Structural)]
pub struct Cell {
    pub character: char,
    pub attributes: CellAttributes,
}

/// A space with the given attributes.
pub open spec fn blank(a: CellAttributes) -> Cell {
    Cell { character: ' ', attributes: a }
}

pub open spec fn default_cell() -> Cell {
    blank(default_attributes())
}

impl Cell {
    /// A space with default attributes.
    pub fn new() -> (c: Self)
        ensures
            c == default_cell(),
    {
        Cell { character: ' ', attributes: CellAttributes::new() }
    }
}

impl Default for Cell {
    fn default() -> (c: Self)
        ensures
            c == default_cell(),
    {
        Self::new()
    }
}

// ---------------------------------------------------------------------------
// The model of a screen

pub struct ScreenModel {
    pub rows: int,
    pub cols: int,
    pub grid: Seq<Seq<Cell>>,
    pub cursor_row: int,
    pub cursor_col: int,
    pub attrs: CellAttributes,
    /// The scroll region, inclusive.
    pub top: int,
    pub bottom: int,
    pub palette: Seq<Seq<char>>,
    pub title: Seq<char>,
    pub alt_active: bool,
    /// The main grid while the alternate one is shown.
    pub saved_grid: Option<Seq<Seq<Cell>>>,
    /// The size of the main grid when it was put aside.
    pub saved_rows: int,
    pub saved_cols: int,
}

pub open spec fn grid_shape(g: Seq<Seq<Cell>>, rows: int, cols: int) -> bool {
    &&& g.len() == rows
    &&& forall|r: int| 0 <= r < rows ==> (#[trigger] g[r]).len() == cols
}

impl ScreenModel {
    pub open spec fn wf(self) -> bool {
        &&& self.rows >= 1
        &&& self.cols >= 1
        &&& grid_shape(self.grid, self.rows, self.cols)
        &&& 0 <= self.cursor_row < self.rows
        &&& 0 <= self.cursor_col < self.cols
        &&& 0 <= self.top <= self.bottom < self.rows
        &&& self.palette.len() == 256
        &&& self.alt_active <==> self.saved_grid is Some
        &&& self.saved_grid is Some ==> {
            &&& self.saved_rows >= 1
            &&& self.saved_cols >= 1
            &&& grid_shape(self.saved_grid->0, self.saved_rows, self.saved_cols)
        }
    }
}

pub open spec fn filled(rows: int, cols: int, c: Cell) -> Seq<Seq<Cell>> {
    Seq::new(rows as nat, |r: int| Seq::new(cols as nat, |j: int| c))
}

pub open spec fn min(a: int, b: int) -> int {
    if a < b {
        a
    } else {
        b
    }
}

pub open spec fn title_text() -> Seq<char> {
    seq!['T', 'e', 'r', 'm', 'i', 'n', 'a', 'l']
}

/// A fresh `cols` x `rows` screen.
pub open spec fn new_screen(cols: int, rows: int) -> ScreenModel {
    ScreenModel {
        rows,
        cols,
        grid: filled(rows, cols, default_cell()),
        cursor_row: 0,
        cursor_col: 0,
        attrs: default_attributes(),
        top: 0,
        bottom: rows - 1,
        palette: default_palette(),
        title: title_text(),
        alt_active: false,
        saved_grid: None,
        saved_rows: rows,
        saved_cols: cols,
    }
}

/// `(r1, c1)` comes no later than `(r2, c2)` in reading order.
pub open spec fn reading_le(r1: int, c1: int, r2: int, c2: int) -> bool {
    r1 < r2 || (r1 == r2 && c1 <= c2)
}

/// Every cell from `(r0, c0)` to `(r1, c1)` in reading order becomes a blank
/// with the current attributes.
pub open spec fn erase_span(m: ScreenModel, r0: int, c0: int, r1: int, c1: int) -> ScreenModel {
    ScreenModel {
        grid: Seq::new(
            m.rows as nat,
            |r: int|
                Seq::new(
                    m.cols as nat,
                    |c: int|
                        if reading_le(r0, c0, r, c) && reading_le(r, c, r1, c1) {
                            blank(m.attrs)
                        } else {
                            m.grid[r][c]
                        },
                ),
        ),
        ..m
    }
}

/// Rows `[top + k, bottom]` move to `[top, bottom - k]` and the last `k` rows
/// of the region become blank, where `k` is `n` capped at the region's height.
pub open spec fn scroll_up(m: ScreenModel, n: int) -> ScreenModel {
    let k = min(n, m.bottom - m.top + 1);
    ScreenModel {
        grid: Seq::new(
            m.rows as nat,
            |r: int|
                if m.top <= r && r + k <= m.bottom {
                    m.grid[r + k]
                } else if m.top <= r && r <= m.bottom {
                    Seq::new(m.cols as nat, |c: int| blank(m.attrs))
                } else {
                    m.grid[r]
                },
        ),
        ..m
    }
}

pub open spec fn line_feed(m: ScreenModel) -> ScreenModel {
    if m.cursor_row + 1 > m.bottom {
        ScreenModel { cursor_row: m.bottom, ..scroll_up(m, 1) }
    } else {
        ScreenModel { cursor_row: m.cursor_row + 1, ..m }
    }
}

/// Writes `ch` at the cursor and advances, wrapping to the next line past the last column.
pub open spec fn put_char(m: ScreenModel, ch: char) -> ScreenModel {
    let row = m.grid[m.cursor_row];
    let written = ScreenModel {
        grid: m.grid.update(
            m.cursor_row,
            row.update(m.cursor_col, Cell { character: ch, attributes: m.attrs }),
        ),
        ..m
    };
    if m.cursor_col + 1 >= m.cols {
        line_feed(ScreenModel { cursor_col: 0, ..written })
    } else {
        ScreenModel { cursor_col: m.cursor_col + 1, ..written }
    }
}

pub open spec fn with_cursor(m: ScreenModel, row: int, col: int) -> ScreenModel {
    ScreenModel { cursor_row: row, cursor_col: col, ..m }
}

pub open spec fn tab_stop(col: int, cols: int) -> int {
    min((col + 8) / 8 * 8, cols - 1)
}

/// A printed byte; the control bytes among them act as their own actions.
pub open spec fn print_byte(m: ScreenModel, b: u8) -> ScreenModel {
    if b == 0x0a {
        line_feed(m)
    } else if b == 0x0d {
        with_cursor(m, m.cursor_row, 0)
    } else if b == 0x09 {
        with_cursor(m, m.cursor_row, tab_stop(m.cursor_col, m.cols))
    } else if b == 0x08 {
        with_cursor(m, m.cursor_row, if m.cursor_col > 0 { m.cursor_col - 1 } else { 0 })
    } else if b == 0x07 {
        m
    } else {
        put_char(m, b as char)
    }
}

/// The colour of an extended colour parameter (`38`/`48`) at `i`, and where
/// the next parameter starts.
pub open spec fn extended_color(p: Seq<u32>, i: int) -> (Option<u32>, int) {
    if i + 1 < p.len() {
        if p[i + 1] == 5 {
            if i + 2 < p.len() {
                (Some(p[i + 2]), i + 3)
            } else {
                (None, i + 2)
            }
        } else if p[i + 1] == 2 {
            if i + 4 < p.len() {
                (Some(rgb_tag(p[i + 2], p[i + 3], p[i + 4])), i + 5)
            } else {
                (None, i + 2)
            }
        } else {
            (None, i + 2)
        }
    } else {
        (None, i + 1)
    }
}

/// A graphics rendition code other than the extended colours `38` and `48`.
pub open spec fn sgr_code(a: CellAttributes, v: u32) -> CellAttributes {
    if v == 0 {
        default_attributes()
    } else if v == 1 {
        CellAttributes { bold: true, ..a }
    } else if v == 3 {
        CellAttributes { italic: true, ..a }
    } else if v == 4 {
        CellAttributes { underline: true, ..a }
    } else if v == 5 {
        CellAttributes { blink: true, ..a }
    } else if v == 7 {
        CellAttributes { reverse: true, ..a }
    } else if v == 8 {
        CellAttributes { hidden: true, ..a }
    } else if v == 9 {
        CellAttributes { strikethrough: true, ..a }
    } else if v == 21 || v == 22 {
        CellAttributes { bold: false, ..a }
    } else if v == 23 {
        CellAttributes { italic: false, ..a }
    } else if v == 24 {
        CellAttributes { underline: false, ..a }
    } else if v == 25 {
        CellAttributes { blink: false, ..a }
    } else if v == 27 {
        CellAttributes { reverse: false, ..a }
    } else if v == 28 {
        CellAttributes { hidden: false, ..a }
    } else if v == 29 {
        CellAttributes { strikethrough: false, ..a }
    } else if 30 <= v <= 37 {
        CellAttributes { fg_color: Some((v - 30) as u32), ..a }
    } else if v == 39 {
        CellAttributes { fg_color: Some(7), ..a }
    } else if 40 <= v <= 47 {
        CellAttributes { bg_color: Some((v - 40) as u32), ..a }
    } else if v == 49 {
        CellAttributes { bg_color: Some(0), ..a }
    } else if 90 <= v <= 97 {
        CellAttributes { fg_color: Some((v - 90 + 8) as u32), ..a }
    } else if 100 <= v <= 107 {
        CellAttributes { bg_color: Some((v - 100 + 8) as u32), ..a }
    } else {
        a
    }
}

/// One graphics rendition parameter at `i`: the new attributes and where the next one starts.
pub open spec fn sgr_step(a: CellAttributes, p: Seq<u32>, i: int) -> (CellAttributes, int) {
    let v = p[i];
    if v == 38 {
        let e = extended_color(p, i);
        match e.0 {
            Some(c) => (CellAttributes { fg_color: Some(c), ..a }, e.1),
            None => (a, e.1),
        }
    } else if v == 48 {
        let e = extended_color(p, i);
        match e.0 {
            Some(c) => (CellAttributes { bg_color: Some(c), ..a }, e.1),
            None => (a, e.1),
        }
    } else {
        (sgr_code(a, v), i + 1)
    }
}

/// The parameters from `i` on, in order.
pub open spec fn sgr_from(a: CellAttributes, p: Seq<u32>, i: int) -> CellAttributes
    decreases p.len() - i,
{
    if 0 <= i < p.len() {
        let s = sgr_step(a, p, i);
        if i < s.1 <= p.len() {
            sgr_from(s.0, p, s.1)
        } else {
            s.0
        }
    } else {
        a
    }
}

/// A whole graphics rendition; no parameters at all means a reset.
pub open spec fn sgr(a: CellAttributes, p: Seq<u32>) -> CellAttributes {
    if p.len() == 0 {
        default_attributes()
    } else {
        sgr_from(a, p, 0)
    }
}

pub open spec fn move_down(pos: int, n: int, limit: int) -> int {
    min(pos + n, limit - 1)
}

pub open spec fn move_up(pos: int, n: int) -> int {
    if pos >= n {
        pos - n
    } else {
        0
    }
}

/// A 1-based coordinate as received, made 0-based and kept on the screen.
pub open spec fn from_one_based(v: int, limit: int) -> int {
    min(if v >= 1 { v - 1 } else { 0 }, limit - 1)
}

pub open spec fn erase_in_display(m: ScreenModel, mode: u32) -> ScreenModel {
    if mode == 0 {
        erase_span(m, m.cursor_row, m.cursor_col, m.rows - 1, m.cols - 1)
    } else if mode == 1 {
        erase_span(m, 0, 0, m.cursor_row, m.cursor_col)
    } else if mode == 2 || mode == 3 {
        erase_span(m, 0, 0, m.rows - 1, m.cols - 1)
    } else {
        m
    }
}

pub open spec fn erase_in_line(m: ScreenModel, mode: u32) -> ScreenModel {
    if mode == 0 {
        erase_span(m, m.cursor_row, m.cursor_col, m.cursor_row, m.cols - 1)
    } else if mode == 1 {
        erase_span(m, m.cursor_row, 0, m.cursor_row, m.cursor_col)
    } else if mode == 2 {
        erase_span(m, m.cursor_row, 0, m.cursor_row, m.cols - 1)
    } else {
        m
    }
}

pub open spec fn reset(m: ScreenModel) -> ScreenModel {
    erase_span(
        ScreenModel {
            attrs: default_attributes(),
            cursor_row: 0,
            cursor_col: 0,
            top: 0,
            bottom: m.rows - 1,
            ..m
        },
        0,
        0,
        m.rows - 1,
        m.cols - 1,
    )
}

/// The screen after one action.
pub open spec fn apply(m: ScreenModel, a: ActionModel) -> ScreenModel {
    match a {
        ActionModel::Print(b) => print_byte(m, b),
        ActionModel::Bell => m,
        ActionModel::Backspace => print_byte(m, 0x08),
        ActionModel::Tab => print_byte(m, 0x09),
        ActionModel::LineFeed => line_feed(m),
        ActionModel::CarriageReturn => print_byte(m, 0x0d),
        ActionModel::CursorUp(n) => with_cursor(m, move_up(m.cursor_row, n as int), m.cursor_col),
        ActionModel::CursorDown(n) => with_cursor(
            m,
            move_down(m.cursor_row, n as int, m.rows),
            m.cursor_col,
        ),
        ActionModel::CursorForward(n) => with_cursor(
            m,
            m.cursor_row,
            move_down(m.cursor_col, n as int, m.cols),
        ),
        ActionModel::CursorBackward(n) => with_cursor(
            m,
            m.cursor_row,
            move_up(m.cursor_col, n as int),
        ),
        ActionModel::CursorNextLine(n) => with_cursor(
            m,
            move_down(m.cursor_row, n as int, m.rows),
            0,
        ),
        ActionModel::CursorPreviousLine(n) => with_cursor(m, move_up(m.cursor_row, n as int), 0),
        ActionModel::CursorPosition(r, c) => with_cursor(
            m,
            from_one_based(r as int, m.rows),
            from_one_based(c as int, m.cols),
        ),
        ActionModel::EraseInDisplay(mode) => erase_in_display(m, mode),
        ActionModel::EraseInLine(mode) => erase_in_line(m, mode),
        ActionModel::SetGraphicsRendition(p) => ScreenModel { attrs: sgr(m.attrs, p), ..m },
        ActionModel::Reset => reset(m),
        ActionModel::ScrollUp(n) => scroll_up(m, n as int),
        ActionModel::SetWindowTitle(t) => ScreenModel { title: t, ..m },
        ActionModel::SetColorPalette(i, c) => ScreenModel {
            palette: m.palette.update(i as int, c),
            ..m
        },
    }
}

/// The overlapping top-left part of `g` on a `rows` x `cols` grid, default cells elsewhere.
pub open spec fn resized_grid(
    g: Seq<Seq<Cell>>,
    old_rows: int,
    old_cols: int,
    rows: int,
    cols: int,
) -> Seq<Seq<Cell>> {
    Seq::new(
        rows as nat,
        |r: int|
            Seq::new(
                cols as nat,
                |c: int|
                    if r < old_rows && c < old_cols {
                        g[r][c]
                    } else {
                        default_cell()
                    },
            ),
    )
}

pub open spec fn resize(m: ScreenModel, cols: int, rows: int) -> ScreenModel {
    ScreenModel {
        rows,
        cols,
        grid: resized_grid(m.grid, m.rows, m.cols, rows, cols),
        cursor_row: min(m.cursor_row, rows - 1),
        cursor_col: min(m.cursor_col, cols - 1),
        top: 0,
        bottom: rows - 1,
        ..m
    }
}

pub open spec fn switch_buffer(m: ScreenModel, enable: bool) -> ScreenModel {
    if enable == m.alt_active {
        m
    } else if enable {
        ScreenModel {
            grid: filled(m.rows, m.cols, default_cell()),
            saved_grid: Some(m.grid),
            saved_rows: m.rows,
            saved_cols: m.cols,
            alt_active: true,
            ..m
        }
    } else {
        ScreenModel {
            grid: resized_grid(m.saved_grid->0, m.saved_rows, m.saved_cols, m.rows, m.cols),
            saved_grid: None,
            alt_active: false,
            ..m
        }
    }
}

pub open spec fn grid_view(g: Seq<Vec<Cell>>) -> Seq<Seq<Cell>> {
    g.map_values(|r: Vec<Cell>| r@)
}

pub open spec fn palette_view(p: Seq<String>) -> Seq<Seq<char>> {
    p.map_values(|s: String| s@)
}


// ---------------------------------------------------------------------------
// Laws of the screen

/// With the scroll region covering the whole screen, scrolling up by one
/// moves every row but the first up by one and leaves the last row blank
/// with the current attributes.
pub proof fn lemma_scroll_up_one(m: ScreenModel)
    requires
        m.wf(),
        m.top == 0,
        m.bottom == m.rows - 1,
    ensures
        ({
            let n = apply(m, ActionModel::ScrollUp(1));
            &&& forall|r: int| 0 <= r < m.rows - 1 ==> #[trigger] n.grid[r] == m.grid[r + 1]
            &&& n.grid[m.rows - 1] == Seq::new(m.cols as nat, |c: int| blank(m.attrs))
            &&& n.cursor_row == m.cursor_row
            &&& n.cursor_col == m.cursor_col
        }),
{
}

/// Erasing the whole line blanks every cell of the cursor's row with the
/// current attributes; the other rows and the cursor stay as they were.
pub proof fn lemma_erase_whole_line(m: ScreenModel)
    requires
        m.wf(),
    ensures
        ({
            let n = apply(m, ActionModel::EraseInLine(2));
            &&& n.grid[m.cursor_row] == Seq::new(m.cols as nat, |c: int| blank(m.attrs))
            &&& forall|r: int|
                0 <= r < m.rows && r != m.cursor_row ==> #[trigger] n.grid[r] == m.grid[r]
            &&& n.cursor_row == m.cursor_row
            &&& n.cursor_col == m.cursor_col
            &&& n.attrs == m.attrs
        }),
{
    let n = apply(m, ActionModel::EraseInLine(2));
    assert(n.grid[m.cursor_row] =~= Seq::new(m.cols as nat, |c: int| blank(m.attrs)));
    assert forall|r: int| 0 <= r < m.rows && r != m.cursor_row implies #[trigger] n.grid[r]
        == m.grid[r] by {
        assert(n.grid[r] =~= m.grid[r]);
    }
}

/// Setting palette entry `i` to `c` and then looking `i` up gives `c` exactly.
pub proof fn lemma_palette_set_then_get(m: ScreenModel, i: u8, c: Seq<char>)
    requires
        m.wf(),
    ensures
        color_name(apply(m, ActionModel::SetColorPalette(i, c)).palette, i as u32) == c,
{
    let x = i as u32;
    assert(x < 256);
    assert(x < 256 ==> x & 0x1000000u32 == 0) by (bit_vector);
}

/// Whatever the state before, `Reset` leaves the cursor at the top left,
/// the default attributes, the whole screen as scroll region and every cell
/// a blank with default attributes.
pub proof fn lemma_reset(m: ScreenModel)
    requires
        m.wf(),
    ensures
        ({
            let n = apply(m, ActionModel::Reset);
            &&& n.cursor_row == 0
            &&& n.cursor_col == 0
            &&& n.attrs == default_attributes()
            &&& n.top == 0
            &&& n.bottom == m.rows - 1
            &&& n.grid == filled(m.rows, m.cols, default_cell())
        }),
{
    let n = apply(m, ActionModel::Reset);
    assert forall|r: int| 0 <= r < m.rows implies #[trigger] n.grid[r] == filled(
        m.rows,
        m.cols,
        default_cell(),
    )[r] by {
        assert(n.grid[r] =~= filled(m.rows, m.cols, default_cell())[r]);
    }
    assert(n.grid =~= filled(m.rows, m.cols, default_cell()));
}

/// Resizing keeps the screen well formed, clamps the cursor into the new
/// bounds (it moves only if it falls outside them) and keeps every cell of
/// the part that the old and new sizes share.
pub proof fn lemma_resize(m: ScreenModel, cols: int, rows: int)
    requires
        m.wf(),
        cols >= 1,
        rows >= 1,
    ensures
        ({
            let n = resize(m, cols, rows);
            &&& n.wf()
            &&& n.cursor_row == min(m.cursor_row, rows - 1)
            &&& n.cursor_col == min(m.cursor_col, cols - 1)
            &&& forall|r: int, c: int|
                0 <= r < min(rows, m.rows) && 0 <= c < min(cols, m.cols) ==> #[trigger] n.grid[r][c]
                    == m.grid[r][c]
        }),
{
}

/// Actions leave the main grid that was put aside alone.
pub proof fn lemma_actions_keep_saved_grid(m: ScreenModel, a: ActionModel)
    requires
        m.wf(),
    ensures
        apply(m, a).saved_grid == m.saved_grid,
        apply(m, a).saved_rows == m.saved_rows,
        apply(m, a).saved_cols == m.saved_cols,
        apply(m, a).alt_active == m.alt_active,
        apply(m, a).rows == m.rows,
        apply(m, a).cols == m.cols,
{
}

/// Switching to the alternate grid and back, at the same size, restores
/// the main grid exactly, whatever the alternate grid holds by then.
pub proof fn lemma_alternate_round_trip(m: ScreenModel, alt: Seq<Seq<Cell>>)
    requires
        m.wf(),
        !m.alt_active,
    ensures
        switch_buffer(ScreenModel { grid: alt, ..switch_buffer(m, true) }, false).grid == m.grid,
{
    let back = switch_buffer(ScreenModel { grid: alt, ..switch_buffer(m, true) }, false);
    assert forall|r: int| 0 <= r < m.rows implies #[trigger] back.grid[r] == m.grid[r] by {
        assert(back.grid[r] =~= m.grid[r]);
    }
    assert(back.grid =~= m.grid);
}

// ---------------------------------------------------------------------------
// Executable grid helpers

fn filled_row(cols: usize, c: Cell) -> (r: Vec<Cell>)
    ensures
        r@ == Seq::new(cols as nat, |j: int| c),
{
    let mut r: Vec<Cell> = Vec::new();
    let mut j: usize = 0;
    while j < cols
        invariant
            j <= cols,
            r@ =~= Seq::new(j as nat, |k: int| c),
        decreases cols - j,
    {
        r.push(c);
        j = j + 1;
    }
    r
}

fn filled_grid(rows: usize, cols: usize, c: Cell) -> (g: Vec<Vec<Cell>>)
    ensures
        grid_view(g@) == filled(rows as int, cols as int, c),
{
    let mut g: Vec<Vec<Cell>> = Vec::new();
    let mut i: usize = 0;
    while i < rows
        invariant
            i <= rows,
            g@.len() == i,
            forall|r: int| 0 <= r < i ==> (#[trigger] g@[r])@ == Seq::new(cols as nat, |j: int| c),
        decreases rows - i,
    {
        let row = filled_row(cols, c);
        g.push(row);
        i = i + 1;
    }
    assert(grid_view(g@) =~= filled(rows as int, cols as int, c));
    g
}

fn copy_row(src: &Vec<Cell>) -> (r: Vec<Cell>)
    ensures
        r@ == src@,
{
    let mut r: Vec<Cell> = Vec::new();
    let mut j: usize = 0;
    while j < src.len()
        invariant
            j <= src.len(),
            r@ =~= src@.subrange(0, j as int),
        decreases src.len() - j,
    {
        r.push(src[j]);
        j = j + 1;
    }
    assert(r@ =~= src@);
    r
}

/// Row `r` of `src` with the cells of the reading-order span `(r0, c0)..=(r1, c1)` blanked.
fn erased_row(
    src: &Vec<Cell>,
    r: usize,
    r0: usize,
    c0: usize,
    r1: usize,
    c1: usize,
    cell: Cell,
) -> (out: Vec<Cell>)
    ensures
        out@ == Seq::new(
            src@.len(),
            |c: int|
                if reading_le(r0 as int, c0 as int, r as int, c) && reading_le(
                    r as int,
                    c,
                    r1 as int,
                    c1 as int,
                ) {
                    cell
                } else {
                    src@[c]
                },
        ),
{
    let mut out: Vec<Cell> = Vec::new();
    let mut j: usize = 0;
    while j < src.len()
        invariant
            j <= src.len(),
            out@ =~= Seq::new(
                j as nat,
                |c: int|
                    if reading_le(r0 as int, c0 as int, r as int, c) && reading_le(
                        r as int,
                        c,
                        r1 as int,
                        c1 as int,
                    ) {
                        cell
                    } else {
                        src@[c]
                    },
            ),
        decreases src.len() - j,
    {
        let inside = (r0 < r || (r0 == r && c0 <= j)) && (r < r1 || (r == r1 && j <= c1));
        if inside {
            out.push(cell);
        } else {
            out.push(src[j]);
        }
        j = j + 1;
    }
    out
}

fn resized_row(src: &Vec<Cell>, keep: bool, cols: usize) -> (out: Vec<Cell>)
    ensures
        out@ == Seq::new(
            cols as nat,
            |c: int|
                if keep && c < src@.len() {
                    src@[c]
                } else {
                    default_cell()
                },
        ),
{
    let mut out: Vec<Cell> = Vec::new();
    let mut j: usize = 0;
    while j < cols
        invariant
            j <= cols,
            out@ =~= Seq::new(
                j as nat,
                |c: int|
                    if keep && c < src@.len() {
                        src@[c]
                    } else {
                        default_cell()
                    },
            ),
        decreases cols - j,
    {
        if keep && j < src.len() {
            out.push(src[j]);
        } else {
            out.push(Cell::new());
        }
        j = j + 1;
    }
    out
}

fn resized_grid_exec(
    g: &Vec<Vec<Cell>>,
    old_rows: usize,
    old_cols: usize,
    rows: usize,
    cols: usize,
) -> (out: Vec<Vec<Cell>>)
    requires
        grid_shape(grid_view(g@), old_rows as int, old_cols as int),
    ensures
        grid_view(out@) == resized_grid(
            grid_view(g@),
            old_rows as int,
            old_cols as int,
            rows as int,
            cols as int,
        ),
{
    let ghost target = resized_grid(
        grid_view(g@),
        old_rows as int,
        old_cols as int,
        rows as int,
        cols as int,
    );
    let mut out: Vec<Vec<Cell>> = Vec::new();
    let mut i: usize = 0;
    let empty: Vec<Cell> = Vec::new();
    while i < rows
        invariant
            i <= rows,
            grid_shape(grid_view(g@), old_rows as int, old_cols as int),
            target == resized_grid(
                grid_view(g@),
                old_rows as int,
                old_cols as int,
                rows as int,
                cols as int,
            ),
            out@.len() == i,
            empty@.len() == 0,
            forall|r: int| 0 <= r < i ==> (#[trigger] out@[r])@ == target[r],
        decreases rows - i,
    {
        let row = if i < old_rows {
            resized_row(&g[i], true, cols)
        } else {
            resized_row(&empty, false, cols)
        };
        proof {
            if (i as int) < old_rows {
                assert(g@[i as int]@ == grid_view(g@)[i as int]);
                assert(grid_view(g@)[i as int].len() == old_cols);
            }
            assert(row@ =~= target[i as int]);
        }
        out.push(row);
        i = i + 1;
    }
    assert(grid_view(out@) =~= target);
    out
}

// ---------------------------------------------------------------------------
// The screen

/// The grid of styled cells that terminal actions are applied to.
pub struct VirtualTerminal {
    grid: Vec<Vec<Cell>>,
    cols: usize,
    rows: usize,
    cursor_row: usize,
    cursor_col: usize,
    current_attributes: CellAttributes,
    color_palette: Vec<String>,
    title: String,
    scroll_region: (usize, usize),
    alt_buffer_active: bool,
    main_grid: Option<Vec<Vec<Cell>>>,
    main_rows: usize,
    main_cols: usize,
}

impl View for VirtualTerminal {
    type V = ScreenModel;

    closed spec fn view(&self) -> ScreenModel {
        ScreenModel {
            rows: self.rows as int,
            cols: self.cols as int,
            grid: grid_view(self.grid@),
            cursor_row: self.cursor_row as int,
            cursor_col: self.cursor_col as int,
            attrs: self.current_attributes,
            top: self.scroll_region.0 as int,
            bottom: self.scroll_region.1 as int,
            palette: palette_view(self.color_palette@),
            title: self.title@,
            alt_active: self.alt_buffer_active,
            saved_grid: match self.main_grid {
                Some(g) => Some(grid_view(g@)),
                None => None,
            },
            saved_rows: self.main_rows as int,
            saved_cols: self.main_cols as int,
        }
    }
}

impl VirtualTerminal {
    /// A blank screen of `cols` x `rows` with the cursor at the top left and
    /// the initial palette.
    pub fn new(cols: usize, rows: usize) -> (t: Self)
        requires
            cols >= 1,
            rows >= 1,
        ensures
            t@ == new_screen(cols as int, rows as int),
            t@.wf(),
    {
        let grid = filled_grid(rows, cols, Cell::new());
        let title_lit = "Terminal";
        proof {
            reveal_strlit("Terminal");
        }
        let title = String::from_str(title_lit);
        let t = VirtualTerminal {
            grid,
            cols,
            rows,
            cursor_row: 0,
            cursor_col: 0,
            current_attributes: CellAttributes::new(),
            color_palette: default_palette_exec(),
            title,
            scroll_region: (0, rows - 1),
            alt_buffer_active: false,
            main_grid: None,
            main_rows: rows,
            main_cols: cols,
        };
        assert(t@.title =~= title_text());
        assert(t@ == new_screen(cols as int, rows as int));
        t
    }

    pub fn cols(&self) -> (r: usize)
        ensures
            r == self@.cols,
    {
        self.cols
    }

    pub fn rows(&self) -> (r: usize)
        ensures
            r == self@.rows,
    {
        self.rows
    }

    pub fn title(&self) -> (r: &String)
        ensures
            r@ == self@.title,
    {
        &self.title
    }

    /// The cell at `(row, col)`, if it is on the screen.
    pub fn get_cell(&self, row: usize, col: usize) -> (r: Option<&Cell>)
        requires
            self@.wf(),
        ensures
            match r {
                Some(c) => row < self@.rows && col < self@.cols && *c == self@.grid[row as int][col as int],
                None => !(row < self@.rows && col < self@.cols),
            },
    {
        if row < self.rows && col < self.cols {
            assert(self.grid@[row as int]@ == self@.grid[row as int]);
            Some(&self.grid[row][col])
        } else {
            None
        }
    }

    /// `(row, column)` of the cursor, 0-based.
    pub fn get_cursor_position(&self) -> (r: (usize, usize))
        ensures
            r.0 == self@.cursor_row,
            r.1 == self@.cursor_col,
    {
        (self.cursor_row, self.cursor_col)
    }

    /// The colour a value names: `#RRGGBB` for a tagged RGB value, else the
    /// palette entry, else white.
    pub fn get_color(&self, index: u32) -> (r: String)
        ensures
            r@ == color_name(self@.palette, index),
    {
        color_text(&self.color_palette, index)
    }

    proof fn lemma_view_grid(&self)
        ensures
            forall|r: int|
                0 <= r < self.grid@.len() ==> #[trigger] self@.grid[r] == self.grid@[r]@,
            self@.grid.len() == self.grid@.len(),
    {
    }

    /// Blanks the reading-order span `(r0, c0)..=(r1, c1)` with the current attributes.
    fn erase_region(&mut self, r0: usize, c0: usize, r1: usize, c1: usize)
        requires
            old(self)@.wf(),
            r0 < old(self)@.rows,
            r1 < old(self)@.rows,
            c0 < old(self)@.cols,
            c1 < old(self)@.cols,
            r0 <= r1,
        ensures
            final(self)@ == erase_span(old(self)@, r0 as int, c0 as int, r1 as int, c1 as int),
            final(self)@.wf(),
    {
        let ghost m = self@;
        let ghost target = erase_span(m, r0 as int, c0 as int, r1 as int, c1 as int);
        let blank_cell = Cell { character: ' ', attributes: self.current_attributes };
        let mut r = r0;
        while r <= r1
            invariant
                m.wf(),
                target == erase_span(m, r0 as int, c0 as int, r1 as int, c1 as int),
                r0 <= r <= r1 + 1,
                r1 < m.rows,
                self@ == (ScreenModel { grid: self@.grid, ..m }),
                self@.grid.len() == m.rows,
                forall|q: int|
                    0 <= q < m.rows ==> #[trigger] self@.grid[q] == if r0 <= q < r {
                        target.grid[q]
                    } else {
                        m.grid[q]
                    },
                blank_cell == blank(m.attrs),
            decreases r1 + 1 - r,
        {
            proof {
                self.lemma_view_grid();
            }
            assert(self@.grid[r as int] == m.grid[r as int]);
            assert(self.grid@[r as int]@ == m.grid[r as int]);
            let row = erased_row(&self.grid[r], r, r0, c0, r1, c1, blank_cell);
            let ghost before = self.grid@;
            let ghost before_view = self@.grid;
            proof {
                self.lemma_view_grid();
            }
            self.grid.set(r, row);
            proof {
                self.lemma_view_grid();
                assert(row@ =~= target.grid[r as int]);
                assert forall|q: int| 0 <= q < m.rows implies #[trigger] self@.grid[q] == if r0
                    <= q < r + 1 {
                    target.grid[q]
                } else {
                    m.grid[q]
                } by {
                    if q != r {
                        assert(self.grid@[q] == before[q]);
                        assert(before_view[q] == before[q]@);
                    }
                }
            }
            r = r + 1;
        }
        proof {
            assert forall|q: int| 0 <= q < m.rows implies #[trigger] self@.grid[q]
                == target.grid[q] by {
                if !(r0 <= q <= r1) {
                    assert(target.grid[q] =~= m.grid[q]);
                }
            }
            assert(self@.grid =~= target.grid);
        }
    }

    /// Scrolls the scroll region up by `n` rows.
    fn scroll_up(&mut self, n: usize)
        requires
            old(self)@.wf(),
        ensures
            final(self)@ == scroll_up(old(self)@, n as int),
            final(self)@.wf(),
    {
        let ghost m = self@;
        let ghost target = scroll_up(m, n as int);
        let (top, bottom) = self.scroll_region;
        let height = bottom - top + 1;
        let k = if n < height {
            n
        } else {
            height
        };
        if k == 0 {
            assert(self@.grid =~= target.grid);
            return ;
        }
        let mut r = top;
        while r + k <= bottom
            invariant
                m.wf(),
                target == scroll_up(m, n as int),
                top == m.top,
                bottom == m.bottom,
                k == min(n as int, m.bottom - m.top + 1),
                k >= 1,
                top <= r <= bottom + 1 - k,
                self@ == (ScreenModel { grid: self@.grid, ..m }),
                self@.grid.len() == m.rows,
                forall|q: int|
                    0 <= q < m.rows ==> #[trigger] self@.grid[q] == if top <= q < r {
                        target.grid[q]
                    } else {
                        m.grid[q]
                    },
            decreases bottom + 1 - r,
        {
            proof {
                self.lemma_view_grid();
            }
            assert(self@.grid[r + k] == m.grid[r + k]);
            assert(self.grid@[r + k]@ == m.grid[r + k]);
            let row = copy_row(&self.grid[r + k]);
            let ghost before = self.grid@;
            let ghost before_view = self@.grid;
            proof {
                self.lemma_view_grid();
            }
            self.grid.set(r, row);
            proof {
                self.lemma_view_grid();
                assert forall|q: int| 0 <= q < m.rows implies #[trigger] self@.grid[q] == if top
                    <= q < r + 1 {
                    target.grid[q]
                } else {
                    m.grid[q]
                } by {
                    if q != r {
                        assert(self.grid@[q] == before[q]);
                        assert(before_view[q] == before[q]@);
                    }
                }
            }
            r = r + 1;
        }
        let blank_cell = Cell { character: ' ', attributes: self.current_attributes };
        while r <= bottom
            invariant
                m.wf(),
                target == scroll_up(m, n as int),
                top == m.top,
                bottom == m.bottom,
                k == min(n as int, m.bottom - m.top + 1),
                k >= 1,
                top <= r <= bottom + 1,
                r + k > bottom,
                blank_cell == blank(m.attrs),
                self@ == (ScreenModel { grid: self@.grid, ..m }),
                self@.grid.len() == m.rows,
                forall|q: int|
                    0 <= q < m.rows ==> #[trigger] self@.grid[q] == if top <= q < r {
                        target.grid[q]
                    } else {
                        m.grid[q]
                    },
            decreases bottom + 1 - r,
        {
            let row = filled_row(self.cols, blank_cell);
            let ghost before = self.grid@;
            let ghost before_view = self@.grid;
            proof {
                self.lemma_view_grid();
            }
            self.grid.set(r, row);
            proof {
                self.lemma_view_grid();
                assert(row@ =~= target.grid[r as int]);
                assert forall|q: int| 0 <= q < m.rows implies #[trigger] self@.grid[q] == if top
                    <= q < r + 1 {
                    target.grid[q]
                } else {
                    m.grid[q]
                } by {
                    if q != r {
                        assert(self.grid@[q] == before[q]);
                        assert(before_view[q] == before[q]@);
                    }
                }
            }
            r = r + 1;
        }
        proof {
            assert forall|q: int| 0 <= q < m.rows implies #[trigger] self@.grid[q]
                == target.grid[q] by {
                if !(top <= q <= bottom) {
                    assert(target.grid[q] == m.grid[q]);
                }
            }
            assert(self@.grid =~= target.grid);
        }
    }

    fn line_feed(&mut self)
        requires
            old(self)@.wf(),
        ensures
            final(self)@ == line_feed(old(self)@),
            final(self)@.wf(),
    {
        if self.cursor_row + 1 > self.scroll_region.1 {
            self.scroll_up(1);
            self.cursor_row = self.scroll_region.1;
        } else {
            self.cursor_row = self.cursor_row + 1;
        }
    }

    fn put_char(&mut self, ch: char)
        requires
            old(self)@.wf(),
        ensures
            final(self)@ == put_char(old(self)@, ch),
            final(self)@.wf(),
    {
        let ghost m = self@;
        let r = self.cursor_row;
        let c = self.cursor_col;
        let cell = Cell { character: ch, attributes: self.current_attributes };
        proof {
            self.lemma_view_grid();
        }
        let mut row = copy_row(&self.grid[r]);
        row.set(c, cell);
        let ghost before = self.grid@;
        let ghost before_view = self@.grid;
        self.grid.set(r, row);
        proof {
            self.lemma_view_grid();
            assert(self@.grid =~= m.grid.update(r as int, m.grid[r as int].update(c as int, cell)))
                by {
                assert forall|q: int| 0 <= q < m.rows implies #[trigger] self@.grid[q]
                    == m.grid.update(r as int, m.grid[r as int].update(c as int, cell))[q] by {
                    if q != r {
                        assert(self.grid@[q] == before[q]);
                        assert(before_view[q] == before[q]@);
                    }
                }
            }
        }
        if c + 1 >= self.cols {
            self.cursor_col = 0;
            self.line_feed();
        } else {
            self.cursor_col = c + 1;
        }
    }

    fn print_byte(&mut self, b: u8)
        requires
            old(self)@.wf(),
        ensures
            final(self)@ == print_byte(old(self)@, b),
            final(self)@.wf(),
    {
        if b == 0x0a {
            self.line_feed();
        } else if b == 0x0d {
            self.cursor_col = 0;
        } else if b == 0x09 {
            let col = self.cursor_col;
            let base = col - col % 8;
            assert((col + 8) / 8 * 8 == col - col % 8 + 8) by (nonlinear_arith);
            if self.cols - 1 - base < 8 {
                self.cursor_col = self.cols - 1;
            } else {
                self.cursor_col = base + 8;
            }
        } else if b == 0x08 {
            if self.cursor_col > 0 {
                self.cursor_col = self.cursor_col - 1;
            }
        } else if b == 0x07 {
        } else {
            self.put_char(b as char);
        }
    }

    /// Applies the graphics rendition parameters `p`.
    fn process_sgr(&mut self, p: &Vec<u32>)
        requires
            old(self)@.wf(),
        ensures
            final(self)@ == (ScreenModel { attrs: sgr(old(self)@.attrs, p@), ..old(self)@ }),
            final(self)@.wf(),
    {
        if p.len() == 0 {
            self.current_attributes = CellAttributes::new();
            return ;
        }
        let ghost a0 = self.current_attributes;
        let ghost m = self@;
        let mut i: usize = 0;
        while i < p.len()
            invariant
                0 <= i <= p.len(),
                sgr_from(self.current_attributes, p@, i as int) == sgr_from(a0, p@, 0),
                self@ == (ScreenModel { attrs: self.current_attributes, ..m }),
            decreases p.len() - i,
        {
            let (a, next) = sgr_step_exec(self.current_attributes, p, i);
            assert(sgr_from(self.current_attributes, p@, i as int) == sgr_from(a, p@, next as int));
            self.current_attributes = a;
            i = next;
        }
    }

    /// Applies one terminal action. Never fails: out-of-range parameters are clamped or ignored.
    pub fn process_action(&mut self, action: &TerminalAction)
        requires
            old(self)@.wf(),
        ensures
            final(self)@ == apply(old(self)@, action@),
            final(self)@.wf(),
    {
        let ghost m = self@;
        match action {
            TerminalAction::Print(b) => self.print_byte(*b),
            TerminalAction::Bell => {},
            TerminalAction::Backspace => self.print_byte(0x08),
            TerminalAction::Tab => self.print_byte(0x09),
            TerminalAction::LineFeed => self.line_feed(),
            TerminalAction::CarriageReturn => self.print_byte(0x0d),
            TerminalAction::CursorUp(n) => {
                let n = *n as usize;
                self.cursor_row = if self.cursor_row >= n {
                    self.cursor_row - n
                } else {
                    0
                };
            },
            TerminalAction::CursorDown(n) => {
                self.cursor_row = clamp_add(self.cursor_row, *n as usize, self.rows);
            },
            TerminalAction::CursorForward(n) => {
                self.cursor_col = clamp_add(self.cursor_col, *n as usize, self.cols);
            },
            TerminalAction::CursorBackward(n) => {
                let n = *n as usize;
                self.cursor_col = if self.cursor_col >= n {
                    self.cursor_col - n
                } else {
                    0
                };
            },
            TerminalAction::CursorNextLine(n) => {
                self.cursor_row = clamp_add(self.cursor_row, *n as usize, self.rows);
                self.cursor_col = 0;
            },
            TerminalAction::CursorPreviousLine(n) => {
                let n = *n as usize;
                self.cursor_row = if self.cursor_row >= n {
                    self.cursor_row - n
                } else {
                    0
                };
                self.cursor_col = 0;
            },
            TerminalAction::CursorPosition(r, c) => {
                self.cursor_row = one_based(*r as usize, self.rows);
                self.cursor_col = one_based(*c as usize, self.cols);
            },
            TerminalAction::EraseInDisplay(mode) => {
                let (r, c, rows, cols) = (self.cursor_row, self.cursor_col, self.rows, self.cols);
                if *mode == 0 {
                    self.erase_region(r, c, rows - 1, cols - 1);
                } else if *mode == 1 {
                    self.erase_region(0, 0, r, c);
                } else if *mode == 2 || *mode == 3 {
                    self.erase_region(0, 0, rows - 1, cols - 1);
                }
            },
            TerminalAction::EraseInLine(mode) => {
                let (r, c, cols) = (self.cursor_row, self.cursor_col, self.cols);
                if *mode == 0 {
                    self.erase_region(r, c, r, cols - 1);
                } else if *mode == 1 {
                    self.erase_region(r, 0, r, c);
                } else if *mode == 2 {
                    self.erase_region(r, 0, r, cols - 1);
                }
            },
            TerminalAction::SetGraphicsRendition(p) => self.process_sgr(p),
            TerminalAction::Reset => {
                self.current_attributes = CellAttributes::new();
                self.cursor_row = 0;
                self.cursor_col = 0;
                self.scroll_region = (0, self.rows - 1);
                let (rows, cols) = (self.rows, self.cols);
                self.erase_region(0, 0, rows - 1, cols - 1);
            },
            TerminalAction::ScrollUp(n) => self.scroll_up(*n as usize),
            TerminalAction::SetWindowTitle(t) => {
                self.title = t.clone();
            },
            TerminalAction::SetColorPalette(i, c) => {
                let i = *i as usize;
                self.color_palette.set(i, c.clone());
                proof {
                    assert(palette_view(self.color_palette@) =~= m.palette.update(i as int, c@));
                }
            },
        }
    }

    /// Changes the size to `cols` x `rows`: the overlapping top-left part of
    /// the grid stays, the rest is blank, the cursor is clamped onto the
    /// screen and the scroll region becomes the whole screen.
    pub fn resize(&mut self, cols: usize, rows: usize)
        requires
            old(self)@.wf(),
            cols >= 1,
            rows >= 1,
        ensures
            final(self)@ == resize(old(self)@, cols as int, rows as int),
            final(self)@.wf(),
    {
        let ghost m = self@;
        let new_grid = resized_grid_exec(&self.grid, self.rows, self.cols, rows, cols);
        self.grid = new_grid;
        self.cols = cols;
        self.rows = rows;
        if self.cursor_row > rows - 1 {
            self.cursor_row = rows - 1;
        }
        if self.cursor_col > cols - 1 {
            self.cursor_col = cols - 1;
        }
        self.scroll_region = (0, rows - 1);
    }

    /// Shows a fresh blank alternate grid (putting the main one aside
    /// untouched), or brings the main grid back: unchanged if the size is
    /// the same, else fitted to the new size as `resize` fits a grid.
    /// Asking for the grid already shown does nothing.
    pub fn use_alternate_buffer(&mut self, enable: bool)
        requires
            old(self)@.wf(),
        ensures
            final(self)@ == switch_buffer(old(self)@, enable),
            final(self)@.wf(),
    {
        if enable != self.alt_buffer_active {
            if enable {
                let mut grid = filled_grid(self.rows, self.cols, Cell::new());
                std::mem::swap(&mut self.grid, &mut grid);
                self.main_grid = Some(grid);
                self.main_rows = self.rows;
                self.main_cols = self.cols;
            } else {
                let saved = self.main_grid.take();
                match saved {
                    Some(g) => {
                        self.grid = resized_grid_exec(
                            &g,
                            self.main_rows,
                            self.main_cols,
                            self.rows,
                            self.cols,
                        );
                    },
                    None => {},
                }
            }
            self.alt_buffer_active = enable;
        }
    }
}

fn clamp_add(pos: usize, n: usize, limit: usize) -> (r: usize)
    requires
        pos < limit,
    ensures
        r == move_down(pos as int, n as int, limit as int),
{
    if n >= limit - 1 - pos {
        limit - 1
    } else {
        pos + n
    }
}

fn one_based(v: usize, limit: usize) -> (r: usize)
    requires
        limit >= 1,
    ensures
        r == from_one_based(v as int, limit as int),
{
    let z = if v >= 1 {
        v - 1
    } else {
        0
    };
    if z < limit - 1 {
        z
    } else {
        limit - 1
    }
}

fn rgb_tag_exec(r: u32, g: u32, b: u32) -> (t: u32)
    ensures
        t == rgb_tag(r, g, b),
{
    (r << 16) | (g << 8) | b | RGB_FLAG
}

fn extended_color_exec(p: &Vec<u32>, i: usize) -> (r: (Option<u32>, usize))
    requires
        i < p.len(),
    ensures
        (r.0, r.1 as int) == extended_color(p@, i as int),
{
    if i + 1 < p.len() {
        if p[i + 1] == 5 {
            if i + 2 < p.len() {
                (Some(p[i + 2]), i + 3)
            } else {
                (None, i + 2)
            }
        } else if p[i + 1] == 2 {
            if p.len() - i > 4 {
                (Some(rgb_tag_exec(p[i + 2], p[i + 3], p[i + 4])), i + 5)
            } else {
                (None, i + 2)
            }
        } else {
            (None, i + 2)
        }
    } else {
        (None, i + 1)
    }
}

fn sgr_code_exec(a: CellAttributes, v: u32) -> (b: CellAttributes)
    ensures
        b == sgr_code(a, v),
{
    let mut b = a;
    if v == 0 {
        b = CellAttributes::new();
    } else if v == 1 {
        b.bold = true;
    } else if v == 3 {
        b.italic = true;
    } else if v == 4 {
        b.underline = true;
    } else if v == 5 {
        b.blink = true;
    } else if v == 7 {
        b.reverse = true;
    } else if v == 8 {
        b.hidden = true;
    } else if v == 9 {
        b.strikethrough = true;
    } else if v == 21 || v == 22 {
        b.bold = false;
    } else if v == 23 {
        b.italic = false;
    } else if v == 24 {
        b.underline = false;
    } else if v == 25 {
        b.blink = false;
    } else if v == 27 {
        b.reverse = false;
    } else if v == 28 {
        b.hidden = false;
    } else if v == 29 {
        b.strikethrough = false;
    } else if 30 <= v && v <= 37 {
        b.fg_color = Some(v - 30);
    } else if v == 39 {
        b.fg_color = Some(7);
    } else if 40 <= v && v <= 47 {
        b.bg_color = Some(v - 40);
    } else if v == 49 {
        b.bg_color = Some(0);
    } else if 90 <= v && v <= 97 {
        b.fg_color = Some(v - 90 + 8);
    } else if 100 <= v && v <= 107 {
        b.bg_color = Some(v - 100 + 8);
    }
    b
}

fn sgr_step_exec(a: CellAttributes, p: &Vec<u32>, i: usize) -> (r: (CellAttributes, usize))
    requires
        i < p.len(),
    ensures
        (r.0, r.1 as int) == sgr_step(a, p@, i as int),
        i < r.1 <= p.len(),
{
    let v = p[i];
    if v == 38 || v == 48 {
        let (c, next) = extended_color_exec(p, i);
        let mut b = a;
        if let Some(c) = c {
            if v == 38 {
                b.fg_color = Some(c);
            } else {
                b.bg_color = Some(c);
            }
        }
        (b, next)
    } else {
        (sgr_code_exec(a, v), i + 1)
    }
}

} // verus!
