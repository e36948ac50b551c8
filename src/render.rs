use vstd::prelude::*;
use crate::highlight::{clip_all, clip_highlights, Highlight};
use crate::text::{chars_of, lines_view, string_of, Buffer};

verus! {

/// Columns between two tab stops.
pub const TAB_STOP: usize = 8;

/// The number of spaces that a tab takes when it starts at column `w`: up to
/// the next multiple of the tab stop.
pub open spec fn tab_width(w: nat) -> nat {
    (TAB_STOP - w % (TAB_STOP as nat)) as nat
}

/// `r` followed by the rendering of `c`, where `r` is what was rendered
/// before it.
pub open spec fn render_step(r: Seq<char>, c: char) -> Seq<char> {
    if c == '\t' {
        r + Seq::new(tab_width(r.len()), |i: int| ' ')
    } else {
        r.push(c)
    }
}

/// A line as it is displayed: each tab replaced by spaces up to the next tab
/// stop, counted on the displayed text.
pub open spec fn render(s: Seq<char>) -> Seq<char>
    decreases s.len(),
{
    if s.len() == 0 {
        Seq::empty()
    } else {
        render_step(render(s.drop_last()), s.last())
    }
}

/// The displayed column at which the character at index `i` of `s` starts
/// (the displayed width of the first `i` characters).
pub open spec fn display_col(s: Seq<char>, i: int) -> int {
    render(s.take(i)).len() as int
}

/// The index of the character of `s` that covers displayed column `col`, or
/// `s.len()` when `col` lies past the last character.
pub open spec fn covers(s: Seq<char>, col: int, i: int) -> bool {
    &&& 0 <= i <= s.len()
    &&& display_col(s, i) <= col
    &&& i < s.len() ==> col < display_col(s, i + 1)
}

pub proof fn lemma_render_take_step(s: Seq<char>, i: int)
    requires
        0 <= i < s.len(),
    ensures
        render(s.take(i + 1)) == render_step(render(s.take(i)), s[i]),
        display_col(s, i + 1) >= display_col(s, i) + 1,
        display_col(s, i + 1) <= display_col(s, i) + TAB_STOP,
{
    assert(s.take(i + 1).drop_last() =~= s.take(i));
}

/// Each character takes at least one displayed column, so displayed columns
/// grow with the index.
pub proof fn lemma_display_col_mono(s: Seq<char>, i: int, j: int)
    requires
        0 <= i <= j <= s.len(),
    ensures
        display_col(s, i) + (j - i) <= display_col(s, j),
    decreases j - i,
{
    if i < j {
        lemma_display_col_mono(s, i, j - 1);
        lemma_render_take_step(s, j - 1);
    }
}

pub proof fn lemma_display_col_full(s: Seq<char>)
    ensures
        display_col(s, s.len() as int) == render(s).len(),
{
    assert(s.take(s.len() as int) =~= s);
}

/// Tab stops are monotone: a later start never reaches an earlier stop.
proof fn lemma_tab_stop_mono(a: nat, b: nat)
    requires
        a <= b,
    ensures
        a + tab_width(a) <= b + tab_width(b),
{
    assert(a + tab_width(a) <= b + tab_width(b)) by (nonlinear_arith)
        requires
            a <= b,
            tab_width(a) == 8 - a % 8,
            tab_width(b) == 8 - b % 8,
    {
        assert(a == 8 * (a / 8) + a % 8);
        assert(b == 8 * (b / 8) + b % 8);
        assert(a / 8 <= b / 8);
    }
}

/// Inserting a character before the one that covers displayed column `col`
/// leaves the line at least `col + 1` columns wide.
pub proof fn lemma_insert_widens(s: Seq<char>, col: int, i: int, c: char)
    requires
        covers(s, col, i),
        col <= render(s).len(),
    ensures
        render(s.insert(i, c)).len() >= col + 1,
{
    let t = s.insert(i, c);
    assert(t.take(i) =~= s.take(i));
    lemma_render_take_step(t, i);
    lemma_display_col_full(s);
    lemma_display_col_full(t);
    if i == s.len() {
        lemma_display_col_mono(t, i + 1, t.len() as int);
    } else {
        lemma_render_take_step(t, i + 1);
        lemma_render_take_step(s, i);
        let a = display_col(s, i);
        let p1 = display_col(t, i + 1);
        if s[i] == '\t' {
            lemma_tab_stop_mono(a as nat, p1 as nat);
        }
        assert(display_col(t, i + 2) >= col + 1);
        lemma_display_col_mono(t, i + 2, t.len() as int);
    }
}

/// The rendering of `c` after `r`: one column per character, up to the next
/// tab stop for a tab.
fn push_rendered(out: &mut Vec<char>, c: char)
    ensures
        final(out)@ == render_step(old(out)@, c),
{
    if c == '\t' {
        let count = TAB_STOP - out.len() % TAB_STOP;
        let ghost base = old(out)@;
        let mut k: usize = 0;
        while k < count
            invariant
                count == tab_width(base.len()),
                k <= count,
                out@ == base + Seq::new(k as nat, |i: int| ' '),
            decreases count - k,
        {
            out.push(' ');
            assert(out@ =~= base + Seq::new((k + 1) as nat, |i: int| ' '));
            k = k + 1;
        }
    } else {
        out.push(c);
    }
}

/// The displayed form of a line of characters.
pub fn render_chars(line: &Vec<char>) -> (r: Vec<char>)
    ensures
        r@ == render(line@),
{
    let mut out: Vec<char> = Vec::new();
    let mut i: usize = 0;
    while i < line.len()
        invariant
            i <= line@.len(),
            out@ == render(line@.take(i as int)),
        decreases line@.len() - i,
    {
        proof {
            lemma_render_take_step(line@, i as int);
        }
        push_rendered(&mut out, line[i]);
        i = i + 1;
    }
    assert(line@.take(i as int) =~= line@);
    out
}

/// The displayed form of a line: each tab becomes spaces up to the next
/// multiple of the tab stop.
pub fn render_line(line: &str) -> (r: String)
    ensures
        r@ == render(line@),
{
    let chars = chars_of(line);
    let rendered = render_chars(&chars);
    string_of(&rendered)
}

/// The index of the character that covers displayed column `col` of `line`;
/// `line.len()` when `col` lies past its end.
pub fn raw_index(line: &Vec<char>, col: usize) -> (r: usize)
    ensures
        covers(line@, col as int, r as int),
{
    let mut i: usize = 0;
    let mut w: usize = 0;
    proof {
        assert(line@.take(0) =~= Seq::<char>::empty());
    }
    while i < line.len()
        invariant
            i <= line@.len(),
            w == display_col(line@, i as int),
            w <= col,
        decreases line@.len() - i,
    {
        proof {
            lemma_render_take_step(line@, i as int);
        }
        let step: usize = if line[i] == '\t' {
            TAB_STOP - w % TAB_STOP
        } else {
            1
        };
        if step > col - w {
            return i;
        }
        w = w + step;
        i = i + 1;
    }
    i
}

/// Appending text to a line never narrows its displayed form.
pub proof fn lemma_render_append(a: Seq<char>, b: Seq<char>)
    ensures
        render(a + b).len() >= render(a).len(),
{
    let s = a + b;
    assert(s.take(a.len() as int) =~= a);
    lemma_display_col_mono(s, a.len() as int, s.len() as int);
    lemma_display_col_full(s);
}

/// Removing character `i` keeps the display columns of those before it.
pub proof fn lemma_render_remove(s: Seq<char>, i: int)
    requires
        0 <= i < s.len(),
    ensures
        display_col(s.remove(i), i) == display_col(s, i),
        display_col(s, i) <= render(s.remove(i)).len(),
{
    let t = s.remove(i);
    assert(t.take(i) =~= s.take(i));
    lemma_display_col_mono(t, i, t.len() as int);
    lemma_display_col_full(t);
}

/// No two indices cover the same displayed column.
pub proof fn lemma_covers_unique(s: Seq<char>, col: int, i: int, j: int)
    requires
        covers(s, col, i),
        covers(s, col, j),
    ensures
        i == j,
{
    if i < j {
        lemma_display_col_mono(s, i + 1, j);
    } else if j < i {
        lemma_display_col_mono(s, j + 1, i);
    }
}

/// The index of the character that covers displayed column `col` of `s`.
pub open spec fn raw_of(s: Seq<char>, col: int) -> int {
    choose|i: int| covers(s, col, i)
}

pub proof fn lemma_raw_of(s: Seq<char>, col: int, i: int)
    requires
        covers(s, col, i),
    ensures
        raw_of(s, col) == i,
{
    lemma_covers_unique(s, col, i, raw_of(s, col));
}

/// The displayed column at which character `i` of `line` starts.
pub fn display_col_of(line: &Vec<char>, i: usize) -> (r: usize)
    requires
        i <= line@.len(),
        render(line@).len() <= usize::MAX,
    ensures
        r == display_col(line@, i as int),
{
    let mut k: usize = 0;
    let mut w: usize = 0;
    proof {
        assert(line@.take(0) =~= Seq::<char>::empty());
        lemma_display_col_full(line@);
    }
    while k < i
        invariant
            k <= i <= line@.len(),
            w == display_col(line@, k as int),
            render(line@).len() <= usize::MAX,
            display_col(line@, line@.len() as int) == render(line@).len(),
        decreases i - k,
    {
        proof {
            lemma_render_take_step(line@, k as int);
            lemma_display_col_mono(line@, k + 1, line@.len() as int);
        }
        let step: usize = if line[k] == '\t' {
            TAB_STOP - w % TAB_STOP
        } else {
            1
        };
        w = w + step;
        k = k + 1;
    }
    w
}

/// Every line in displayed form.
pub open spec fn render_all(b: Seq<Seq<char>>) -> Seq<Seq<char>> {
    b.map_values(|l: Seq<char>| render(l))
}

/// The displayed columns `col..col + width` of `s`, cut at its end.
pub open spec fn window(s: Seq<char>, col: nat, width: nat) -> Seq<char> {
    let lo = if col < s.len() {
        col
    } else {
        s.len()
    };
    let hi = if col + width < s.len() {
        col + width
    } else {
        s.len()
    };
    s.subrange(lo as int, hi as int)
}

/// The number of lines from `line` on that a window of `height` lines shows
/// out of `n`.
pub open spec fn rows_shown(n: nat, line: nat, height: nat) -> nat {
    if line >= n {
        0
    } else if n - line < height {
        (n - line) as nat
    } else {
        height
    }
}

/// The displayed lines of a buffer, with the styles of each.
pub struct RenderedBuffer {
    lines: Vec<Vec<char>>,
    highlighting: Vec<Vec<Highlight>>,
}

impl View for RenderedBuffer {
    type V = Seq<Seq<char>>;

    closed spec fn view(&self) -> Seq<Seq<char>> {
        lines_view(self.lines@)
    }
}

impl RenderedBuffer {
    /// The styles of each line.
    pub closed spec fn highlighting_spec(&self) -> Seq<Seq<Highlight>> {
        self.highlighting@.map_values(|v: Vec<Highlight>| v@)
    }

    /// One list of styles per line.
    pub open spec fn wf(&self) -> bool {
        self@.len() == self.highlighting_spec().len()
    }

    /// Every line of `buffer` in displayed form, with no styles yet.
    pub fn from_buffer(buffer: &Buffer) -> (r: Self)
        ensures
            r@ == render_all(buffer@),
            r.wf(),
            forall|i: int| 0 <= i < r@.len() ==> #[trigger] r.highlighting_spec()[i].len() == 0,
    {
        let src = buffer.lines();
        let mut lines: Vec<Vec<char>> = Vec::new();
        let mut highlighting: Vec<Vec<Highlight>> = Vec::new();
        let mut i: usize = 0;
        while i < src.len()
            invariant
                i <= src@.len(),
                lines_view(src@) == buffer@,
                lines_view(lines@) == render_all(buffer@).take(i as int),
                highlighting@.len() == i,
                forall|j: int| 0 <= j < i ==> #[trigger] highlighting@[j]@.len() == 0,
            decreases src@.len() - i,
        {
            assert(src@[i as int]@ == buffer@[i as int]);
            let rendered = render_chars(&src[i]);
            let ghost before = lines@;
            lines.push(rendered);
            highlighting.push(Vec::new());
            assert(lines_view(lines@) =~= lines_view(before).push(render(buffer@[i as int])));
            assert(render_all(buffer@).take(i + 1) =~= render_all(buffer@).take(i as int).push(
                render(buffer@[i as int]),
            ));
            i = i + 1;
        }
        let r = RenderedBuffer { lines, highlighting };
        assert(r@ =~= render_all(buffer@));
        r
    }

    /// Renders line `line_number` of `buffer` anew and clears its styles.
    pub fn update_line(&mut self, line_number: usize, buffer: &Buffer)
        requires
            old(self).wf(),
            line_number < old(self)@.len(),
            line_number < buffer@.len(),
        ensures
            final(self).wf(),
            final(self)@ == old(self)@.update(line_number as int, render(buffer@[line_number as int])),
            final(self).highlighting_spec() == old(self).highlighting_spec().update(
                line_number as int,
                Seq::empty(),
            ),
    {
        let rendered = render_chars(buffer.get_line(line_number));
        self.lines.set(line_number, rendered);
        self.highlighting.set(line_number, Vec::new());
        assert(self@ =~= old(self)@.update(line_number as int, render(buffer@[line_number as int])));
        assert(self.highlighting_spec() =~= old(self).highlighting_spec().update(
            line_number as int,
            Seq::empty(),
        ));
    }

    /// Renders line `line_number` of `buffer` and inserts it, with no styles,
    /// as line `line_number`.
    pub fn insert_line(&mut self, line_number: usize, buffer: &Buffer)
        requires
            old(self).wf(),
            line_number <= old(self)@.len(),
            line_number < buffer@.len(),
        ensures
            final(self).wf(),
            final(self)@ == old(self)@.insert(line_number as int, render(buffer@[line_number as int])),
            final(self).highlighting_spec() == old(self).highlighting_spec().insert(
                line_number as int,
                Seq::empty(),
            ),
    {
        let rendered = render_chars(buffer.get_line(line_number));
        self.lines.insert(line_number, rendered);
        self.highlighting.insert(line_number, Vec::new());
        assert(self@ =~= old(self)@.insert(line_number as int, render(buffer@[line_number as int])));
        assert(self.highlighting_spec() =~= old(self).highlighting_spec().insert(
            line_number as int,
            Seq::empty(),
        ));
    }

    /// Removes line `line_number` and its styles.
    pub fn remove_line(&mut self, line_number: usize)
        requires
            old(self).wf(),
            line_number < old(self)@.len(),
        ensures
            final(self).wf(),
            final(self)@ == old(self)@.remove(line_number as int),
            final(self).highlighting_spec() == old(self).highlighting_spec().remove(
                line_number as int,
            ),
    {
        self.lines.remove(line_number);
        self.highlighting.remove(line_number);
        assert(self@ =~= old(self)@.remove(line_number as int));
        assert(self.highlighting_spec() =~= old(self).highlighting_spec().remove(
            line_number as int,
        ));
    }

    /// Sets the styles of line `line_number`.
    pub fn set_line_highlighting(&mut self, line_number: usize, highlights: Vec<Highlight>)
        requires
            old(self).wf(),
            line_number < old(self)@.len(),
        ensures
            final(self).wf(),
            final(self)@ == old(self)@,
            final(self).highlighting_spec() == old(self).highlighting_spec().update(
                line_number as int,
                highlights@,
            ),
    {
        self.highlighting.set(line_number, highlights);
        assert(self.highlighting_spec() =~= old(self).highlighting_spec().update(
            line_number as int,
            highlights@,
        ));
    }

    /// The window of `height` lines from `line` and `width` columns from
    /// `col`: each visible line cut to the window, and its styles clipped to
    /// what is visible, in window columns.
    pub fn get_view(&self, line: usize, col: usize, width: usize, height: usize) -> (r: (
        Vec<Vec<char>>,
        Vec<Vec<Highlight>>,
    ))
        requires
            self.wf(),
        ensures
            r.0@.len() == rows_shown(self@.len(), line as nat, height as nat),
            r.1@.len() == r.0@.len(),
            forall|i: int|
                0 <= i < r.0@.len() ==> #[trigger] r.0@[i]@ == window(
                    self@[line + i],
                    col as nat,
                    width as nat,
                ),
            forall|i: int|
                0 <= i < r.1@.len() ==> #[trigger] r.1@[i]@ == clip_all(
                    self.highlighting_spec()[line + i],
                    col as nat,
                    col as nat + r.0@[i]@.len(),
                ),
    {
        let n = self.lines.len();
        let count: usize = if line >= n {
            0
        } else if n - line < height {
            n - line
        } else {
            height
        };
        let mut rows: Vec<Vec<char>> = Vec::new();
        let mut styles: Vec<Vec<Highlight>> = Vec::new();
        let mut i: usize = 0;
        while i < count
            invariant
                self.wf(),
                n == self@.len(),
                count == rows_shown(n as nat, line as nat, height as nat),
                i <= count,
                rows@.len() == i,
                styles@.len() == i,
                forall|j: int|
                    0 <= j < i ==> #[trigger] rows@[j]@ == window(
                        self@[line + j],
                        col as nat,
                        width as nat,
                    ),
                forall|j: int|
                    0 <= j < i ==> #[trigger] styles@[j]@ == clip_all(
                        self.highlighting_spec()[line + j],
                        col as nat,
                        col as nat + rows@[j]@.len(),
                    ),
            decreases count - i,
        {
            let src = &self.lines[line + i];
            let len = src.len();
            let lo = if col < len {
                col
            } else {
                len
            };
            let hi = if width < len - lo {
                lo + width
            } else {
                len
            };
            let mut row: Vec<char> = Vec::new();
            let mut k: usize = lo;
            while k < hi
                invariant
                    lo <= k <= hi,
                    hi <= src@.len(),
                    row@ == src@.subrange(lo as int, k as int),
                decreases hi - k,
            {
                row.push(src[k]);
                assert(row@ =~= src@.subrange(lo as int, k + 1));
                k = k + 1;
            }
            assert(row@ =~= window(self@[line + i], col as nat, width as nat));
            let visible_end: usize = if col < len { hi } else { col };
            let clipped = clip_highlights(&self.highlighting[line + i], col, visible_end);
            rows.push(row);
            styles.push(clipped);
            i = i + 1;
        }
        (rows, styles)
    }

    /// The column just past the last character of line `line`.
    pub fn eol_col(&self, line: usize) -> (r: usize)
        requires
            line < self@.len(),
        ensures
            r == self@[line as int].len(),
    {
        self.lines[line].len()
    }

    /// The column of the last character of line `line` (zero when it is
    /// empty).
    pub fn last_col(&self, line: usize) -> (r: usize)
        requires
            line < self@.len(),
        ensures
            r == if self@[line as int].len() == 0 {
                0
            } else {
                self@[line as int].len() - 1
            },
    {
        self.eol_col(line).saturating_sub(1)
    }

    pub fn line_count(&self) -> (r: usize)
        ensures
            r == self@.len(),
    {
        self.lines.len()
    }

    /// The index of the last line (zero when there is none).
    pub fn last_line(&self) -> (r: usize)
        ensures
            r == if self@.len() == 0 {
                0
            } else {
                self@.len() - 1
            },
    {
        self.line_count().saturating_sub(1)
    }
}

} // verus!
