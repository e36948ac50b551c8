use vstd::prelude::*;
use crate::highlight::{clip_all, Highlight};
use crate::render::{
    display_col, display_col_of, lemma_display_col_full, lemma_display_col_mono,
    lemma_insert_widens, lemma_raw_of, lemma_render_append, lemma_render_remove, raw_index, raw_of,
    render, render_all, rows_shown, window, RenderedBuffer,
};
use crate::search::{first_match, is_first_match, lemma_first_match_is};
use crate::text::{
    join_lines, joined_at, split_at, split_lines, string_of, Buffer, BufferError, Location,
    SaveRequest,
};
use crate::view::ViewGeometry;

verus! {

/// The column just past the last displayed character of line `l`.
pub open spec fn eol(text: Seq<Seq<char>>, l: int) -> nat {
    render(text[l]).len()
}

/// The invariant that ties the three coordinate spaces together: the cursor
/// lies in the text (at most one column past a line's end, in displayed
/// columns) and inside a non-empty view.
pub open spec fn placed(text: Seq<Seq<char>>, c: Location, v: ViewGeometry) -> bool {
    &&& text.len() >= 1
    &&& c.line < text.len()
    &&& c.col <= eol(text, c.line as int)
    &&& v.width > 0
    &&& v.height > 0
    &&& v.line <= c.line <= v.last_line_spec()
    &&& v.col <= c.col <= v.last_col_spec()
}

/// The least scroll of `v` that shows `c`.
pub open spec fn scroll_to(v: ViewGeometry, c: Location) -> ViewGeometry {
    let line = if c.line < v.line {
        c.line
    } else if c.line > v.last_line_spec() {
        (c.line - (v.height - 1)) as usize
    } else {
        v.line
    };
    let col = if c.col < v.col {
        c.col
    } else if c.col > v.last_col_spec() {
        (c.col - (v.width - 1)) as usize
    } else {
        v.col
    };
    ViewGeometry { line, col, width: v.width, height: v.height }
}

/// The first line of a view of `height` lines that ends at the last of `n`
/// lines (zero when all fit).
pub open spec fn bottom_most(n: nat, height: nat) -> nat {
    if n > height {
        (n - height) as nat
    } else {
        0
    }
}

/// The view after jumping to `c`: when `c` is out of sight, the view puts
/// its line at the top (or as low as the text allows) and its column at the
/// left edge.
pub open spec fn jump_view(n: nat, v: ViewGeometry, c: Location) -> ViewGeometry {
    let line = if c.line < v.line || c.line > v.last_line_spec() {
        if c.line < bottom_most(n, v.height as nat) {
            c.line
        } else {
            bottom_most(n, v.height as nat) as usize
        }
    } else {
        v.line
    };
    let col = if c.col < v.col || c.col > v.last_col_spec() {
        c.col
    } else {
        v.col
    };
    ViewGeometry { line, col, width: v.width, height: v.height }
}

/// Line `line` with column `col`, moved back to the line's end when past it.
pub open spec fn clamp_col(text: Seq<Seq<char>>, line: int, col: nat) -> Location {
    Location {
        line: line as usize,
        col: if col > eol(text, line) {
            eol(text, line) as usize
        } else {
            col as usize
        },
    }
}

/// The cursor after moving up one line.
pub open spec fn up_target(text: Seq<Seq<char>>, c: Location) -> Location {
    if c.line == 0 {
        c
    } else {
        clamp_col(text, c.line - 1, c.col as nat)
    }
}

/// The cursor after moving down one line.
pub open spec fn down_target(text: Seq<Seq<char>>, c: Location) -> Location {
    if c.line + 1 >= text.len() {
        c
    } else {
        clamp_col(text, c.line + 1, c.col as nat)
    }
}

/// The cursor after moving one column left: from a line's start to the end
/// of the line above.
pub open spec fn left_target(text: Seq<Seq<char>>, c: Location) -> Location {
    if c.col == 0 {
        if c.line == 0 {
            c
        } else {
            Location { line: (c.line - 1) as usize, col: eol(text, c.line - 1) as usize }
        }
    } else {
        Location { line: c.line, col: (c.col - 1) as usize }
    }
}

/// The cursor after moving one column right: from a line's end to the start
/// of the line below.
pub open spec fn right_target(text: Seq<Seq<char>>, c: Location) -> Location {
    if c.col == eol(text, c.line as int) {
        if c.line + 1 >= text.len() {
            c
        } else {
            Location { line: (c.line + 1) as usize, col: 0 }
        }
    } else {
        Location { line: c.line, col: (c.col + 1) as usize }
    }
}

/// Where a search for `p` from the cursor position `from` lands: the first
/// match in the cyclic scan that starts at the character under `from`, in
/// displayed columns.
pub open spec fn search_target(text: Seq<Seq<char>>, p: Seq<char>, forward: bool, from: Location) -> Option<
    Location,
> {
    let start = Location {
        line: from.line,
        col: raw_of(text[from.line as int], from.col as int) as usize,
    };
    match first_match(text, p, forward, start) {
        Some((l, k)) => Some(Location { line: l as usize, col: display_col(text[l], k) as usize }),
        None => None,
    }
}

/// `after` is `before` with a search session opened at its cursor and view.
pub open spec fn started_search(before: &Editor, after: &Editor) -> bool {
    &&& after.searching()
    &&& after.search_origin() == Some((before.cursor_spec(), before.view_spec()))
    &&& after.search_pattern() is None
    &&& after.search_forward()
    &&& after.cursor_spec() == before.cursor_spec()
    &&& after.view_spec() == before.view_spec()
    &&& after.text() == before.text()
    &&& after.dirty_spec() == before.dirty_spec()
    &&& after.path_spec() == before.path_spec()
    &&& after.highlighting_spec() == before.highlighting_spec()
}

/// `after` continues the search session of `before` on the same text.
pub open spec fn kept_search(before: &Editor, after: &Editor) -> bool {
    &&& after.searching()
    &&& after.search_origin() == before.search_origin()
    &&& after.text() == before.text()
    &&& after.dirty_spec() == before.dirty_spec()
    &&& after.path_spec() == before.path_spec()
    &&& after.highlighting_spec() == before.highlighting_spec()
}

/// `after` is `before` with its search session closed and the cursor and
/// view put back where the session started.
pub open spec fn cancelled_search(before: &Editor, after: &Editor) -> bool {
    &&& before.search_origin() matches Some((c, v))
    &&& after.cursor_spec() == c
    &&& after.view_spec() == v
    &&& !after.searching()
    &&& after.text() == before.text()
    &&& after.dirty_spec() == before.dirty_spec()
    &&& after.path_spec() == before.path_spec()
    &&& after.highlighting_spec() == before.highlighting_spec()
}

/// A search session: where it started, what it looks for, and which way.
struct SearchState {
    initial_cursor: Location,
    initial_view: ViewGeometry,
    pattern: Option<String>,
    forward: bool,
}

/// The editing core: the text, its displayed form, the cursor, the view and
/// an optional search session.
///
/// Cursor columns are displayed columns: they index the line with each tab
/// expanded. An edit at the cursor acts on the character that covers the
/// cursor's column (for a tab, any of the columns it spans).
pub struct Editor {
    buffer: Buffer,
    rendered_buffer: RenderedBuffer,
    cursor: Location,
    view: ViewGeometry,
    search_state: Option<SearchState>,
}

impl Editor {
    /// The lines of the text.
    pub closed spec fn text(&self) -> Seq<Seq<char>> {
        self.buffer@
    }

    /// The cursor, in text coordinates.
    pub closed spec fn cursor_spec(&self) -> Location {
        self.cursor
    }

    pub closed spec fn view_spec(&self) -> ViewGeometry {
        self.view
    }

    pub closed spec fn dirty_spec(&self) -> bool {
        self.buffer.dirty_spec()
    }

    pub closed spec fn path_spec(&self) -> Option<Seq<char>> {
        self.buffer.path_spec()
    }

    /// The styles of each displayed line.
    pub closed spec fn highlighting_spec(&self) -> Seq<Seq<Highlight>> {
        self.rendered_buffer.highlighting_spec()
    }

    pub closed spec fn searching(&self) -> bool {
        self.search_state is Some
    }

    /// Where the search session started: cursor and view.
    pub closed spec fn search_origin(&self) -> Option<(Location, ViewGeometry)> {
        match self.search_state {
            Some(s) => Some((s.initial_cursor, s.initial_view)),
            None => None,
        }
    }

    pub closed spec fn search_pattern(&self) -> Option<Seq<char>> {
        match self.search_state {
            Some(s) => match s.pattern {
                Some(p) => Some(p@),
                None => None,
            },
            None => None,
        }
    }

    pub closed spec fn search_forward(&self) -> bool {
        match self.search_state {
            Some(s) => s.forward,
            None => true,
        }
    }

    /// Both hold the same text, file state, styles and search session.
    pub open spec fn same_content(&self, other: &Self) -> bool {
        &&& self.text() == other.text()
        &&& self.dirty_spec() == other.dirty_spec()
        &&& self.path_spec() == other.path_spec()
        &&& self.highlighting_spec() == other.highlighting_spec()
        &&& self.searching() == other.searching()
        &&& self.search_origin() == other.search_origin()
        &&& self.search_pattern() == other.search_pattern()
        &&& self.search_forward() == other.search_forward()
    }

    /// The text, its displayed form and the search origin agree.
    pub closed spec fn inner_wf(&self) -> bool {
        &&& self.buffer.wf()
        &&& self.rendered_buffer.wf()
        &&& self.rendered_buffer@ == render_all(self.buffer@)
        &&& self.search_state matches Some(s) ==> placed(
            self.buffer@,
            s.initial_cursor,
            s.initial_view,
        )
    }

    /// The editor's invariant.
    pub open spec fn wf(&self) -> bool {
        &&& self.inner_wf()
        &&& self.highlighting_spec().len() == self.text().len()
        &&& placed(self.text(), self.cursor_spec(), self.view_spec())
    }

    /// An empty text, the cursor at the origin and a view of the given size.
    pub fn new(width: usize, height: usize) -> (r: Self)
        requires
            width > 0,
            height > 0,
        ensures
            r.wf(),
            r.text() == seq![Seq::<char>::empty()],
            r.cursor_spec() == (Location { line: 0, col: 0 }),
            r.view_spec() == (ViewGeometry { line: 0, col: 0, width, height }),
            !r.dirty_spec(),
            r.path_spec() is None,
            r.highlighting_spec() == seq![Seq::<Highlight>::empty()],
            !r.searching(),
    {
        let buffer = Buffer::new();
        let rendered_buffer = RenderedBuffer::from_buffer(&buffer);
        let r = Editor {
            buffer,
            rendered_buffer,
            cursor: Location::new(0, 0),
            view: ViewGeometry::new(0, 0, width, height),
            search_state: None,
        };
        assert(render(Seq::<char>::empty()).len() == 0);
        assert(r.rendered_buffer@.len() == 1);
        assert(r.highlighting_spec()[0] =~= Seq::<Highlight>::empty());
        assert(r.highlighting_spec() =~= seq![Seq::<Highlight>::empty()]);
        r
    }

    /// The cursor relative to the view's origin.
    pub fn get_view_cursor(&self) -> (r: Location)
        requires
            self.wf(),
        ensures
            r.line == self.cursor_spec().line - self.view_spec().line,
            r.col == self.cursor_spec().col - self.view_spec().col,
    {
        Location::new(self.cursor.line - self.view.line, self.cursor.col - self.view.col)
    }

    pub fn get_buffer_cursor(&self) -> (r: Location)
        ensures
            r == self.cursor_spec(),
    {
        self.cursor
    }

    pub fn get_buffer_line_count(&self) -> (r: usize)
        requires
            self.wf(),
        ensures
            r == self.text().len(),
    {
        self.rendered_buffer.line_count()
    }

    pub fn get_view_width(&self) -> (r: usize)
        ensures
            r == self.view_spec().width,
    {
        self.view.width
    }

    pub fn get_view_height(&self) -> (r: usize)
        ensures
            r == self.view_spec().height,
    {
        self.view.height
    }

    pub fn get_file_name(&self) -> (r: Option<&String>)
        ensures
            r is None <==> self.path_spec() is None,
            r matches Some(p) ==> self.path_spec() == Some(p@),
    {
        self.buffer.file_path()
    }

    pub fn is_buffer_dirty(&self) -> (r: bool)
        ensures
            r == self.dirty_spec(),
    {
        self.buffer.is_dirty()
    }

    pub fn is_search_mode_active(&self) -> (r: bool)
        ensures
            r == self.searching(),
    {
        self.search_state.is_some()
    }

    /// The displayed end of line `line`.
    fn eol_col(&self, line: usize) -> (r: usize)
        requires
            self.inner_wf(),
            line < self.text().len(),
        ensures
            r == eol(self.text(), line as int),
    {
        self.rendered_buffer.eol_col(line)
    }

    /// Scrolls the view as little as needed to show the cursor.
    fn scroll_to_cursor(&mut self)
        requires
            old(self).cursor.line < old(self).buffer@.len(),
            old(self).view.width > 0,
            old(self).view.height > 0,
        ensures
            final(self).view == scroll_to(old(self).view, old(self).cursor),
            final(self).cursor == old(self).cursor,
            final(self).buffer == old(self).buffer,
            final(self).rendered_buffer == old(self).rendered_buffer,
            final(self).search_state == old(self).search_state,
            final(self).view.line <= final(self).cursor.line <= final(self).view.last_line_spec(),
            final(self).view.col <= final(self).cursor.col <= final(self).view.last_col_spec(),
    {
        if self.cursor.line < self.view.line {
            self.view.line = self.cursor.line;
        } else if self.cursor.line > self.view.last_line() {
            self.view.line = self.cursor.line - (self.view.height - 1);
        }
        if self.cursor.col < self.view.col {
            self.view.col = self.cursor.col;
        } else if self.cursor.col > self.view.last_col() {
            self.view.col = self.cursor.col - (self.view.width - 1);
        }
    }

    /// Moves the cursor to `c` and scrolls the view as little as needed.
    fn move_cursor_to(&mut self, c: Location)
        requires
            old(self).inner_wf(),
            old(self).view.width > 0,
            old(self).view.height > 0,
            c.line < old(self).text().len(),
            c.col <= eol(old(self).text(), c.line as int),
        ensures
            final(self).wf(),
            final(self).cursor == c,
            final(self).view == scroll_to(old(self).view, c),
            final(self).buffer == old(self).buffer,
            final(self).rendered_buffer == old(self).rendered_buffer,
            final(self).search_state == old(self).search_state,
    {
        self.cursor = c;
        self.scroll_to_cursor();
    }

    /// Moves the cursor up one line, keeping its column where the line
    /// allows; at the first line nothing changes.
    pub fn move_cursor_up(&mut self)
        requires
            old(self).wf(),
        ensures
            final(self).wf(),
            final(self).cursor_spec() == up_target(old(self).text(), old(self).cursor_spec()),
            final(self).view_spec() == scroll_to(old(self).view_spec(), final(self).cursor_spec()),
            final(self).same_content(old(self)),
    {
        if self.cursor.line == 0 {
            return;
        }
        let line = self.cursor.line - 1;
        let e = self.eol_col(line);
        let col = if self.cursor.col > e {
            e
        } else {
            self.cursor.col
        };
        self.move_cursor_to(Location::new(line, col));
    }

    /// Moves the cursor down one line, keeping its column where the line
    /// allows; at the last line nothing changes.
    pub fn move_cursor_down(&mut self)
        requires
            old(self).wf(),
        ensures
            final(self).wf(),
            final(self).cursor_spec() == down_target(old(self).text(), old(self).cursor_spec()),
            final(self).view_spec() == scroll_to(old(self).view_spec(), final(self).cursor_spec()),
            final(self).same_content(old(self)),
    {
        let n = self.rendered_buffer.line_count();
        if self.cursor.line + 1 >= n {
            return;
        }
        let line = self.cursor.line + 1;
        let e = self.eol_col(line);
        let col = if self.cursor.col > e {
            e
        } else {
            self.cursor.col
        };
        self.move_cursor_to(Location::new(line, col));
    }

    /// Moves the cursor one column left, or from a line's start to the end
    /// of the line above; at the very start nothing changes.
    pub fn move_cursor_left(&mut self)
        requires
            old(self).wf(),
        ensures
            final(self).wf(),
            final(self).cursor_spec() == left_target(old(self).text(), old(self).cursor_spec()),
            final(self).view_spec() == scroll_to(old(self).view_spec(), final(self).cursor_spec()),
            final(self).same_content(old(self)),
    {
        if self.cursor.col == 0 {
            if self.cursor.line == 0 {
                return;
            }
            let line = self.cursor.line - 1;
            let e = self.eol_col(line);
            self.move_cursor_to(Location::new(line, e));
        } else {
            let c = Location::new(self.cursor.line, self.cursor.col - 1);
            self.move_cursor_to(c);
        }
    }

    /// Moves the cursor one column right, or from a line's end to the start
    /// of the line below; at the very end nothing changes.
    pub fn move_cursor_right(&mut self)
        requires
            old(self).wf(),
        ensures
            final(self).wf(),
            final(self).cursor_spec() == right_target(old(self).text(), old(self).cursor_spec()),
            final(self).view_spec() == scroll_to(old(self).view_spec(), final(self).cursor_spec()),
            final(self).same_content(old(self)),
    {
        let e = self.eol_col(self.cursor.line);
        if self.cursor.col == e {
            let n = self.rendered_buffer.line_count();
            if self.cursor.line + 1 >= n {
                return;
            }
            self.move_cursor_to(Location::new(self.cursor.line + 1, 0));
        } else {
            let c = Location::new(self.cursor.line, self.cursor.col + 1);
            self.move_cursor_to(c);
        }
    }

    /// Moves the cursor to the start of its line.
    pub fn move_cursor_to_line_start(&mut self)
        requires
            old(self).wf(),
        ensures
            final(self).wf(),
            final(self).cursor_spec() == (Location { line: old(self).cursor_spec().line, col: 0 }),
            final(self).view_spec() == scroll_to(old(self).view_spec(), final(self).cursor_spec()),
            final(self).same_content(old(self)),
    {
        let c = Location::new(self.cursor.line, 0);
        self.move_cursor_to(c);
    }

    /// Moves the cursor to the last character of its line (the start of an
    /// empty line).
    pub fn move_cursor_to_line_end(&mut self)
        requires
            old(self).wf(),
        ensures
            final(self).wf(),
            final(self).cursor_spec() == (Location {
                line: old(self).cursor_spec().line,
                col: if eol(old(self).text(), old(self).cursor_spec().line as int) == 0 {
                    0
                } else {
                    (eol(old(self).text(), old(self).cursor_spec().line as int) - 1) as usize
                },
            }),
            final(self).view_spec() == scroll_to(old(self).view_spec(), final(self).cursor_spec()),
            final(self).same_content(old(self)),
    {
        let col = self.rendered_buffer.last_col(self.cursor.line);
        let c = Location::new(self.cursor.line, col);
        self.move_cursor_to(c);
    }

    /// Puts the view's first line at `view_line` and the cursor on line
    /// `line` with its column kept where the line allows, then scrolls as
    /// little as needed.
    fn place_page(&mut self, view_line: usize, line: usize)
        requires
            old(self).inner_wf(),
            placed(old(self).text(), old(self).cursor, old(self).view),
            line < old(self).text().len(),
        ensures
            final(self).wf(),
            final(self).cursor == clamp_col(old(self).text(), line as int, old(self).cursor.col as nat),
            final(self).view == scroll_to(
                ViewGeometry { line: view_line, ..old(self).view },
                final(self).cursor,
            ),
            final(self).buffer == old(self).buffer,
            final(self).rendered_buffer == old(self).rendered_buffer,
            final(self).search_state == old(self).search_state,
    {
        self.view.line = view_line;
        let e = self.eol_col(line);
        let col = if self.cursor.col > e {
            e
        } else {
            self.cursor.col
        };
        self.cursor = Location::new(line, col);
        self.scroll_to_cursor();
    }

    /// Moves the cursor to the first line and shows the top of the text.
    pub fn move_cursor_to_buffer_top(&mut self)
        requires
            old(self).wf(),
        ensures
            final(self).wf(),
            final(self).cursor_spec() == clamp_col(old(self).text(), 0, old(self).cursor_spec().col as nat),
            final(self).view_spec() == scroll_to(
                ViewGeometry { line: 0, ..old(self).view_spec() },
                final(self).cursor_spec(),
            ),
            final(self).same_content(old(self)),
    {
        self.place_page(0, 0);
    }

    /// Moves the cursor to the last line and shows the bottom of the text.
    pub fn move_cursor_to_buffer_bottom(&mut self)
        requires
            old(self).wf(),
        ensures
            final(self).wf(),
            final(self).cursor_spec() == clamp_col(
                old(self).text(),
                old(self).text().len() - 1,
                old(self).cursor_spec().col as nat,
            ),
            final(self).view_spec() == scroll_to(
                ViewGeometry {
                    line: bottom_most(
                        old(self).text().len(),
                        old(self).view_spec().height as nat,
                    ) as usize,
                    ..old(self).view_spec()
                },
                final(self).cursor_spec(),
            ),
            final(self).same_content(old(self)),
    {
        let n = self.rendered_buffer.line_count();
        let top = self.bottom_most_view_pos();
        self.place_page(top, n - 1);
    }

    /// The first line of a view that ends at the last line of the text.
    fn bottom_most_view_pos(&self) -> (r: usize)
        requires
            self.inner_wf(),
        ensures
            r == bottom_most(self.text().len(), self.view.height as nat),
    {
        self.rendered_buffer.line_count().saturating_sub(self.view.height)
    }

    /// Scrolls one page up (stopping at the first line), keeping the cursor
    /// at the same row of the view.
    pub fn move_one_view_up(&mut self)
        requires
            old(self).wf(),
        ensures
            final(self).wf(),
            ({
                let v = old(self).view_spec();
                let c = old(self).cursor_spec();
                let top = if v.line >= v.height {
                    (v.line - v.height) as usize
                } else {
                    0usize
                };
                &&& final(self).cursor_spec() == clamp_col(
                    old(self).text(),
                    top + (c.line - v.line),
                    c.col as nat,
                )
                &&& final(self).view_spec() == scroll_to(
                    ViewGeometry { line: top, ..v },
                    final(self).cursor_spec(),
                )
            }),
            final(self).same_content(old(self)),
    {
        let offset = self.cursor.line - self.view.line;
        let top = self.view.line.saturating_sub(self.view.height);
        self.place_page(top, top + offset);
    }

    /// Scrolls one page down (stopping where the last line ends the view),
    /// keeping the cursor at the same row of the view.
    pub fn move_one_view_down(&mut self)
        requires
            old(self).wf(),
        ensures
            final(self).wf(),
            ({
                let v = old(self).view_spec();
                let c = old(self).cursor_spec();
                let bm = bottom_most(old(self).text().len(), v.height as nat);
                let top = if v.line + v.height < bm {
                    (v.line + v.height) as usize
                } else {
                    bm as usize
                };
                &&& final(self).cursor_spec() == clamp_col(
                    old(self).text(),
                    top + (c.line - v.line),
                    c.col as nat,
                )
                &&& final(self).view_spec() == scroll_to(
                    ViewGeometry { line: top, ..v },
                    final(self).cursor_spec(),
                )
            }),
            final(self).same_content(old(self)),
    {
        let offset = self.cursor.line - self.view.line;
        let bm = self.bottom_most_view_pos();
        let next = self.view.line.saturating_add(self.view.height);
        let top = if next < bm {
            next
        } else {
            bm
        };
        let n = self.rendered_buffer.line_count();
        assert(offset < self.view.height && offset <= self.cursor.line);
        assert(top + offset < n);
        self.place_page(top, top + offset);
    }

    /// Inserts `c` before the character under the cursor and moves the
    /// cursor just past it. Ends any search session.
    pub fn insert_char(&mut self, c: char)
        requires
            old(self).wf(),
        ensures
            final(self).wf(),
            ({
                let t = old(self).text();
                let cur = old(self).cursor_spec();
                let l = t[cur.line as int];
                let i = raw_of(l, cur.col as int);
                let l2 = l.insert(i, c);
                &&& final(self).text() == t.update(cur.line as int, l2)
                &&& final(self).cursor_spec() == (Location {
                    line: cur.line,
                    col: display_col(l2, i + 1) as usize,
                })
                &&& final(self).highlighting_spec() == old(self).highlighting_spec().update(
                    cur.line as int,
                    Seq::empty(),
                )
            }),
            final(self).view_spec() == scroll_to(old(self).view_spec(), final(self).cursor_spec()),
            final(self).dirty_spec(),
            final(self).path_spec() == old(self).path_spec(),
            !final(self).searching(),
    {
        let line = self.cursor.line;
        let ghost l = self.buffer@[line as int];
        let i = raw_index(self.buffer.get_line(line), self.cursor.col);
        proof {
            lemma_raw_of(l, self.cursor.col as int, i as int);
            lemma_insert_widens(l, self.cursor.col as int, i as int, c);
        }
        self.buffer.insert_char(Location::new(line, i), c);
        self.rendered_buffer.update_line(line, &self.buffer);
        assert(self.rendered_buffer@ =~= render_all(self.buffer@));
        let ghost l2 = self.buffer@[line as int];
        // Both lengths are a `usize`, so the columns below fit in one.
        let _width = self.rendered_buffer.eol_col(line);
        let _len = self.buffer.get_line(line).len();
        let col = display_col_of(self.buffer.get_line(line), i + 1);
        proof {
            lemma_display_col_mono(l2, i + 1, l2.len() as int);
            lemma_display_col_full(l2);
        }
        self.search_state = None;
        self.move_cursor_to(Location::new(line, col));
    }

    /// Removes the character under the cursor; at a line's end, joins the
    /// next line onto this one (nothing at the last line). The cursor stays,
    /// or moves back to the start of a removed tab. Ends any search session
    /// when something was removed.
    pub fn remove_char_in_front(&mut self)
        requires
            old(self).wf(),
        ensures
            final(self).wf(),
            ({
                let t = old(self).text();
                let cur = old(self).cursor_spec();
                let l = t[cur.line as int];
                if cur.col == eol(t, cur.line as int) {
                    if cur.line + 1 >= t.len() {
                        &&& final(self).cursor_spec() == cur
                        &&& final(self).view_spec() == old(self).view_spec()
                        &&& final(self).same_content(old(self))
                    } else {
                        &&& final(self).text() == joined_at(t, cur.line as int)
                        &&& final(self).cursor_spec() == cur
                        &&& final(self).view_spec() == old(self).view_spec()
                        &&& final(self).highlighting_spec() == old(self).highlighting_spec().remove(
                            cur.line + 1,
                        ).update(cur.line as int, Seq::empty())
                        &&& final(self).dirty_spec()
                        &&& !final(self).searching()
                    }
                } else {
                    let i = raw_of(l, cur.col as int);
                    &&& final(self).text() == t.update(cur.line as int, l.remove(i))
                    &&& final(self).cursor_spec() == (Location {
                        line: cur.line,
                        col: display_col(l, i) as usize,
                    })
                    &&& final(self).view_spec() == scroll_to(
                        old(self).view_spec(),
                        final(self).cursor_spec(),
                    )
                    &&& final(self).highlighting_spec() == old(self).highlighting_spec().update(
                        cur.line as int,
                        Seq::empty(),
                    )
                    &&& final(self).dirty_spec()
                    &&& !final(self).searching()
                }
            }),
            final(self).path_spec() == old(self).path_spec(),
    {
        let line = self.cursor.line;
        let e = self.eol_col(line);
        let n = self.rendered_buffer.line_count();
        let ghost t = self.buffer@;
        if self.cursor.col == e {
            if line + 1 >= n {
                return;
            }
            self.buffer.join_two_lines(line);
            self.rendered_buffer.remove_line(line + 1);
            self.rendered_buffer.update_line(line, &self.buffer);
            proof {
                lemma_render_append(t[line as int], t[line + 1]);
            }
            assert(self.rendered_buffer@ =~= render_all(self.buffer@));
            self.search_state = None;
        } else {
            let ghost l = t[line as int];
            let i = raw_index(self.buffer.get_line(line), self.cursor.col);
            proof {
                lemma_raw_of(l, self.cursor.col as int, i as int);
                lemma_display_col_full(l);
                if i == l.len() {
                    assert(false);
                }
                lemma_render_remove(l, i as int);
            }
            self.buffer.remove_char(Location::new(line, i));
            self.rendered_buffer.update_line(line, &self.buffer);
            assert(self.rendered_buffer@ =~= render_all(self.buffer@));
            // The displayed width is a `usize`, so the column below fits in one.
            let _width = self.rendered_buffer.eol_col(line);
            let col = display_col_of(self.buffer.get_line(line), i);
            self.search_state = None;
            self.move_cursor_to(Location::new(line, col));
        }
    }

    /// Removes the character before the cursor and moves the cursor to where
    /// it started; at a line's start, joins this line onto the one above and
    /// puts the cursor at the join (nothing at the first line). Ends any
    /// search session when something was removed.
    pub fn remove_char_behind(&mut self)
        requires
            old(self).wf(),
        ensures
            final(self).wf(),
            ({
                let t = old(self).text();
                let cur = old(self).cursor_spec();
                let l = t[cur.line as int];
                if cur.col == 0 {
                    if cur.line == 0 {
                        &&& final(self).cursor_spec() == cur
                        &&& final(self).view_spec() == old(self).view_spec()
                        &&& final(self).same_content(old(self))
                    } else {
                        &&& final(self).text() == joined_at(t, cur.line - 1)
                        &&& final(self).cursor_spec() == (Location {
                            line: (cur.line - 1) as usize,
                            col: eol(t, cur.line - 1) as usize,
                        })
                        &&& final(self).view_spec() == scroll_to(
                            old(self).view_spec(),
                            final(self).cursor_spec(),
                        )
                        &&& final(self).highlighting_spec() == old(self).highlighting_spec().remove(
                            cur.line as int,
                        ).update(cur.line - 1, Seq::empty())
                        &&& final(self).dirty_spec()
                        &&& !final(self).searching()
                    }
                } else {
                    let i = raw_of(l, cur.col - 1);
                    &&& final(self).text() == t.update(cur.line as int, l.remove(i))
                    &&& final(self).cursor_spec() == (Location {
                        line: cur.line,
                        col: display_col(l, i) as usize,
                    })
                    &&& final(self).view_spec() == scroll_to(
                        old(self).view_spec(),
                        final(self).cursor_spec(),
                    )
                    &&& final(self).highlighting_spec() == old(self).highlighting_spec().update(
                        cur.line as int,
                        Seq::empty(),
                    )
                    &&& final(self).dirty_spec()
                    &&& !final(self).searching()
                }
            }),
            final(self).path_spec() == old(self).path_spec(),
    {
        let line = self.cursor.line;
        let ghost t = self.buffer@;
        if self.cursor.col == 0 {
            if line == 0 {
                return;
            }
            let prev = line - 1;
            let e = self.eol_col(prev);
            self.buffer.join_two_lines(prev);
            self.rendered_buffer.remove_line(line);
            self.rendered_buffer.update_line(prev, &self.buffer);
            proof {
                lemma_render_append(t[prev as int], t[line as int]);
            }
            assert(self.rendered_buffer@ =~= render_all(self.buffer@));
            self.search_state = None;
            self.move_cursor_to(Location::new(prev, e));
        } else {
            let ghost l = t[line as int];
            let i = raw_index(self.buffer.get_line(line), self.cursor.col - 1);
            proof {
                lemma_raw_of(l, self.cursor.col - 1, i as int);
                lemma_display_col_full(l);
                if i == l.len() {
                    assert(false);
                }
                lemma_render_remove(l, i as int);
            }
            self.buffer.remove_char(Location::new(line, i));
            self.rendered_buffer.update_line(line, &self.buffer);
            assert(self.rendered_buffer@ =~= render_all(self.buffer@));
            // The displayed width is a `usize`, so the column below fits in one.
            let _width = self.rendered_buffer.eol_col(line);
            let col = display_col_of(self.buffer.get_line(line), i);
            self.search_state = None;
            self.move_cursor_to(Location::new(line, col));
        }
    }

    /// Breaks the line at the cursor: at the line's start an empty line goes
    /// above, at its end an empty line goes below, and elsewhere the line is
    /// cut before the character under the cursor. The cursor moves to the
    /// start of the next line. Ends any search session.
    pub fn insert_line(&mut self)
        requires
            old(self).wf(),
        ensures
            final(self).wf(),
            ({
                let t = old(self).text();
                let cur = old(self).cursor_spec();
                let l = t[cur.line as int];
                &&& final(self).text() == if cur.col == 0 {
                    t.insert(cur.line as int, Seq::empty())
                } else if cur.col == eol(t, cur.line as int) {
                    t.insert(cur.line + 1, Seq::empty())
                } else {
                    split_at(t, cur.line as int, raw_of(l, cur.col as int))
                }
                &&& final(self).cursor_spec() == (Location { line: (cur.line + 1) as usize, col: 0 })
                &&& final(self).highlighting_spec() == if cur.col == 0 {
                    old(self).highlighting_spec().insert(cur.line as int, Seq::empty())
                } else if cur.col == eol(t, cur.line as int) {
                    old(self).highlighting_spec().insert(cur.line + 1, Seq::empty())
                } else {
                    old(self).highlighting_spec().update(cur.line as int, Seq::empty()).insert(
                        cur.line + 1,
                        Seq::empty(),
                    )
                }
            }),
            final(self).view_spec() == scroll_to(old(self).view_spec(), final(self).cursor_spec()),
            final(self).dirty_spec(),
            final(self).path_spec() == old(self).path_spec(),
            !final(self).searching(),
    {
        let line = self.cursor.line;
        let e = self.eol_col(line);
        let ghost t = self.buffer@;
        // The line count is a `usize`, so the next line's index fits in one.
        let _n = self.rendered_buffer.line_count();
        if self.cursor.col == 0 {
            self.buffer.insert_line(line);
            self.rendered_buffer.insert_line(line, &self.buffer);
        } else if self.cursor.col == e {
            self.buffer.insert_line(line + 1);
            self.rendered_buffer.insert_line(line + 1, &self.buffer);
        } else {
            let ghost l = t[line as int];
            let i = raw_index(self.buffer.get_line(line), self.cursor.col);
            proof {
                lemma_raw_of(l, self.cursor.col as int, i as int);
            }
            self.buffer.split_line(Location::new(line, i));
            self.rendered_buffer.update_line(line, &self.buffer);
            self.rendered_buffer.insert_line(line + 1, &self.buffer);
        }
        assert(self.rendered_buffer@ =~= render_all(self.buffer@));
        assert(render(Seq::<char>::empty()).len() == 0);
        self.search_state = None;
        self.move_cursor_to(Location::new(line + 1, 0));
    }

    /// Where a search for `pattern` from `from` lands.
    fn find_target(&self, pattern: &str, forward: bool, from: Location) -> (r: Option<Location>)
        requires
            self.inner_wf(),
            from.line < self.text().len(),
        ensures
            r == search_target(self.text(), pattern@, forward, from),
            r matches Some(loc) ==> loc.line < self.text().len() && loc.col <= eol(
                self.text(),
                loc.line as int,
            ),
    {
        let ghost t = self.buffer@;
        let i = raw_index(self.buffer.get_line(from.line), from.col);
        proof {
            lemma_raw_of(t[from.line as int], from.col as int, i as int);
        }
        let start = Location::new(from.line, i);
        match self.buffer.find(pattern, forward, start) {
            Some(span) => {
                let l = span.start.line;
                proof {
                    lemma_first_match_is(t, pattern@, forward, start, l as int, span.start.col as int);
                    lemma_display_col_mono(t[l as int], span.start.col as int, t[l as int].len() as int);
                    lemma_display_col_full(t[l as int]);
                }
                // The displayed width is a `usize`, so the column below fits in one.
                let _width = self.eol_col(l);
                let col = display_col_of(self.buffer.get_line(l), span.start.col);
                Some(Location::new(l, col))
            },
            None => {
                proof {
                    if pattern@.len() > 0 {
                        assert(!exists|l: int, k: int| is_first_match(t, pattern@, forward, start, l, k));
                    }
                }
                None
            },
        }
    }

    /// Moves the cursor to `loc`; when it is out of sight, the view puts it
    /// at the top (or as low as the text allows) and at the left edge.
    fn move_cursor_to_location(&mut self, loc: Location)
        requires
            old(self).inner_wf(),
            old(self).view.width > 0,
            old(self).view.height > 0,
            loc.line < old(self).text().len(),
            loc.col <= eol(old(self).text(), loc.line as int),
        ensures
            final(self).wf(),
            final(self).cursor == loc,
            final(self).view == jump_view(old(self).text().len(), old(self).view, loc),
            final(self).buffer == old(self).buffer,
            final(self).rendered_buffer == old(self).rendered_buffer,
            final(self).search_state == old(self).search_state,
    {
        self.cursor = loc;
        if self.cursor.line < self.view.line || self.cursor.line > self.view.last_line() {
            let bm = self.bottom_most_view_pos();
            self.view.line = if self.cursor.line < bm {
                self.cursor.line
            } else {
                bm
            };
        }
        if self.cursor.col < self.view.col || self.cursor.col > self.view.last_col() {
            self.view.col = self.cursor.col;
        }
    }

    /// Opens a search session that remembers the cursor and the view, with
    /// no pattern yet and the forward direction.
    pub fn start_search(&mut self)
        requires
            old(self).wf(),
        ensures
            final(self).wf(),
            started_search(old(self), final(self)),
    {
        self.search_state = Some(
            SearchState {
                initial_cursor: self.cursor,
                initial_view: self.view,
                pattern: None,
                forward: true,
            },
        );
    }

    /// Sets the pattern and searches again from where the session started;
    /// on a match the cursor jumps there, otherwise it stays.
    pub fn set_search_pattern(&mut self, pattern: &str)
        requires
            old(self).wf(),
            old(self).searching(),
        ensures
            final(self).wf(),
            kept_search(old(self), final(self)),
            final(self).search_pattern() == Some(pattern@),
            final(self).search_forward() == old(self).search_forward(),
            match search_target(
                old(self).text(),
                pattern@,
                old(self).search_forward(),
                old(self).search_origin().unwrap().0,
            ) {
                Some(loc) => final(self).cursor_spec() == loc && final(self).view_spec()
                    == jump_view(old(self).text().len(), old(self).view_spec(), loc),
                None => final(self).cursor_spec() == old(self).cursor_spec()
                    && final(self).view_spec() == old(self).view_spec(),
            },
    {
        let (initial_cursor, initial_view, forward) = match &self.search_state {
            Some(st) => (st.initial_cursor, st.initial_view, st.forward),
            None => {
                return ;
            },
        };
        self.search_state = Some(
            SearchState {
                initial_cursor,
                initial_view,
                pattern: Some(String::from_str(pattern)),
                forward,
            },
        );
        if let Some(loc) = self.find_target(pattern, forward, initial_cursor) {
            self.move_cursor_to_location(loc);
        }
    }

    /// Sets the direction of later searches.
    pub fn set_search_direction(&mut self, forward: bool)
        requires
            old(self).wf(),
            old(self).searching(),
        ensures
            final(self).wf(),
            kept_search(old(self), final(self)),
            final(self).search_pattern() == old(self).search_pattern(),
            final(self).search_forward() == forward,
            final(self).cursor_spec() == old(self).cursor_spec(),
            final(self).view_spec() == old(self).view_spec(),
    {
        let st = self.search_state.take();
        match st {
            Some(st) => {
                self.search_state = Some(SearchState { forward, ..st });
            },
            None => {},
        }
    }

    /// Searches again from the cursor, in the session's direction; on a match
    /// the cursor jumps there. Without a pattern nothing changes.
    pub fn next_search_result(&mut self)
        requires
            old(self).wf(),
            old(self).searching(),
        ensures
            final(self).wf(),
            kept_search(old(self), final(self)),
            final(self).search_pattern() == old(self).search_pattern(),
            final(self).search_forward() == old(self).search_forward(),
            match old(self).search_pattern() {
                Some(p) => match search_target(
                    old(self).text(),
                    p,
                    old(self).search_forward(),
                    old(self).cursor_spec(),
                ) {
                    Some(loc) => final(self).cursor_spec() == loc && final(self).view_spec()
                        == jump_view(old(self).text().len(), old(self).view_spec(), loc),
                    None => final(self).cursor_spec() == old(self).cursor_spec()
                        && final(self).view_spec() == old(self).view_spec(),
                },
                None => final(self).cursor_spec() == old(self).cursor_spec()
                    && final(self).view_spec() == old(self).view_spec(),
            },
    {
        let found = match &self.search_state {
            Some(st) => match &st.pattern {
                Some(p) => self.find_target(p.as_str(), st.forward, self.cursor),
                None => None,
            },
            None => None,
        };
        if let Some(loc) = found {
            self.move_cursor_to_location(loc);
        }
    }

    /// Ends the search session, keeping the cursor and the view where they
    /// are.
    pub fn finish_search(&mut self)
        requires
            old(self).wf(),
        ensures
            final(self).wf(),
            !final(self).searching(),
            final(self).cursor_spec() == old(self).cursor_spec(),
            final(self).view_spec() == old(self).view_spec(),
            final(self).text() == old(self).text(),
            final(self).dirty_spec() == old(self).dirty_spec(),
            final(self).path_spec() == old(self).path_spec(),
            final(self).highlighting_spec() == old(self).highlighting_spec(),
    {
        self.search_state = None;
    }

    /// Ends the search session and puts the cursor and the view back where
    /// they were when it started.
    pub fn cancel_search(&mut self)
        requires
            old(self).wf(),
            old(self).searching(),
        ensures
            final(self).wf(),
            cancelled_search(old(self), final(self)),
    {
        let st = self.search_state.take();
        match st {
            Some(st) => {
                self.cursor = st.initial_cursor;
                self.view = st.initial_view;
            },
            None => {},
        }
    }

    /// Replaces the text with `contents` read from `file_path`; the cursor
    /// and the view go back to the origin and any search session ends.
    pub fn open_file(&mut self, file_path: &str, contents: &str)
        requires
            old(self).wf(),
        ensures
            final(self).wf(),
            final(self).text() == split_lines(contents@),
            final(self).path_spec() == Some(file_path@),
            !final(self).dirty_spec(),
            final(self).cursor_spec() == (Location { line: 0, col: 0 }),
            final(self).view_spec() == (ViewGeometry { line: 0, col: 0, ..old(self).view_spec() }),
            forall|i: int|
                0 <= i < final(self).text().len() ==> #[trigger] final(self).highlighting_spec()[i].len()
                    == 0,
            !final(self).searching(),
    {
        self.buffer = Buffer::from_text(file_path, contents);
        self.rendered_buffer = RenderedBuffer::from_buffer(&self.buffer);
        self.cursor = Location::new(0, 0);
        self.view.line = 0;
        self.view.col = 0;
        self.search_state = None;
    }

    /// What saving to the text's own path writes; fails when it has none.
    pub fn save_file(&self) -> (r: Result<SaveRequest, BufferError>)
        ensures
            self.path_spec() is None <==> r == Err::<SaveRequest, BufferError>(BufferError::NoFilePath),
            r matches Ok(q) ==> self.path_spec() == Some(q.path@) && q.contents@ == join_lines(self.text()),
    {
        self.buffer.save()
    }

    /// What saving to `file_path` writes.
    pub fn save_file_as(&self, file_path: &str) -> (r: SaveRequest)
        ensures
            r.path@ == file_path@,
            r.contents@ == join_lines(self.text()),
    {
        self.buffer.save_as(file_path)
    }

    /// Records that the text was written to `file_path`, which becomes its
    /// path; nothing is left unsaved.
    pub fn mark_saved(&mut self, file_path: &str)
        requires
            old(self).wf(),
        ensures
            final(self).wf(),
            final(self).path_spec() == Some(file_path@),
            !final(self).dirty_spec(),
            final(self).text() == old(self).text(),
            final(self).cursor_spec() == old(self).cursor_spec(),
            final(self).view_spec() == old(self).view_spec(),
            final(self).highlighting_spec() == old(self).highlighting_spec(),
            final(self).searching() == old(self).searching(),
            final(self).search_origin() == old(self).search_origin(),
            final(self).search_pattern() == old(self).search_pattern(),
            final(self).search_forward() == old(self).search_forward(),
    {
        self.buffer.mark_saved(file_path);
    }

    /// The visible window: each visible line cut to the view's columns, and
    /// its styles clipped to what is visible, in view columns.
    pub fn get_view_contents(&self) -> (r: (Vec<String>, Vec<Vec<Highlight>>))
        requires
            self.wf(),
        ensures
            ({
                let v = self.view_spec();
                let shown = render_all(self.text());
                &&& r.0@.len() == rows_shown(shown.len(), v.line as nat, v.height as nat)
                &&& r.1@.len() == r.0@.len()
                &&& forall|i: int|
                    0 <= i < r.0@.len() ==> #[trigger] r.0@[i]@ == window(
                        shown[v.line + i],
                        v.col as nat,
                        v.width as nat,
                    )
                &&& forall|i: int|
                    0 <= i < r.1@.len() ==> #[trigger] r.1@[i]@ == clip_all(
                        self.highlighting_spec()[v.line + i],
                        v.col as nat,
                        v.col as nat + r.0@[i]@.len(),
                    )
            }),
    {
        let (rows, styles) = self.rendered_buffer.get_view(
            self.view.line,
            self.view.col,
            self.view.width,
            self.view.height,
        );
        let mut out: Vec<String> = Vec::new();
        let mut i: usize = 0;
        while i < rows.len()
            invariant
                i <= rows@.len(),
                out@.len() == i,
                forall|j: int| 0 <= j < i ==> #[trigger] out@[j]@ == rows@[j]@,
            decreases rows@.len() - i,
        {
            out.push(string_of(&rows[i]));
            i = i + 1;
        }
        (out, styles)
    }

    /// Line `line` in displayed form.
    pub fn get_rendered_line(&self, line: usize) -> (r: String)
        requires
            self.wf(),
            line < self.text().len(),
        ensures
            r@ == render(self.text()[line as int]),
    {
        let rows = self.rendered_buffer.get_view(line, 0, self.rendered_buffer.eol_col(line), 1);
        string_of(&rows.0[0])
    }

    /// Sets the styles of displayed line `line`.
    pub fn set_line_highlighting(&mut self, line: usize, highlights: Vec<Highlight>)
        requires
            old(self).wf(),
            line < old(self).text().len(),
        ensures
            final(self).wf(),
            final(self).highlighting_spec() == old(self).highlighting_spec().update(
                line as int,
                highlights@,
            ),
            final(self).cursor_spec() == old(self).cursor_spec(),
            final(self).view_spec() == old(self).view_spec(),
            final(self).text() == old(self).text(),
            final(self).dirty_spec() == old(self).dirty_spec(),
            final(self).path_spec() == old(self).path_spec(),
            final(self).searching() == old(self).searching(),
            final(self).search_origin() == old(self).search_origin(),
            final(self).search_pattern() == old(self).search_pattern(),
            final(self).search_forward() == old(self).search_forward(),
    {
        self.rendered_buffer.set_line_highlighting(line, highlights);
    }
}

/// Every editing and movement operation keeps the editor well formed, and a
/// well-formed editor has its cursor within the text (at most at a line's
/// end, in displayed columns) and within the view.
pub proof fn lemma_cursor_stays_placed(e: &Editor)
    requires
        e.wf(),
    ensures
        e.cursor_spec().line < e.text().len(),
        e.cursor_spec().col <= eol(e.text(), e.cursor_spec().line as int),
        e.view_spec().line <= e.cursor_spec().line <= e.view_spec().last_line_spec(),
        e.view_spec().col <= e.cursor_spec().col <= e.view_spec().last_col_spec(),
{
}

/// A movement during a search session keeps the session.
pub proof fn lemma_move_keeps_search(before: &Editor, after: &Editor)
    requires
        before.searching(),
        after.same_content(before),
    ensures
        kept_search(before, after),
{
}

/// Steps that each keep a search session keep it together.
pub proof fn lemma_kept_search_trans(a: &Editor, b: &Editor, c: &Editor)
    requires
        kept_search(a, b),
        kept_search(b, c),
    ensures
        kept_search(a, c),
{
}

/// Cancelling a search puts the cursor and the view back exactly where they
/// were before the search started, whatever moves and searches came between.
pub proof fn lemma_cancel_restores(
    before: &Editor,
    started: &Editor,
    moved: &Editor,
    after: &Editor,
)
    requires
        started_search(before, started),
        kept_search(started, moved),
        cancelled_search(moved, after),
    ensures
        after.cursor_spec() == before.cursor_spec(),
        after.view_spec() == before.view_spec(),
        after.text() == before.text(),
        !after.searching(),
{
}

} // verus!
