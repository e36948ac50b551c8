use vstd::prelude::*;
use vstd::string::StringExecFns;

verus! {

/// A position in the buffer: a line index and a column.
#[derive(Clone, Copy, PartialEq, Eq, Structural, Debug)]
pub struct Location {
    pub line: usize,
    pub col: usize,
}

impl Location {
    pub fn new(line: usize, col: usize) -> (r: Self)
        ensures
            r == (Location { line, col }),
    {
        Location { line, col }
    }
}

/// A stretch of text from `start` (included) to `end` (excluded).
#[derive(Clone, Copy, PartialEq, Eq, Structural, Debug)]
pub struct Span {
    pub start: Location,
    pub end: Location,
}

/// The lines joined with a newline between each two.
pub open spec fn join_lines(ls: Seq<Seq<char>>) -> Seq<char>
    decreases ls.len(),
{
    if ls.len() == 0 {
        Seq::empty()
    } else if ls.len() == 1 {
        ls[0]
    } else {
        join_lines(ls.drop_last()) + seq!['\n'] + ls.last()
    }
}

/// The text cut at each newline, the newlines dropped: `n` newlines give
/// `n + 1` pieces.
pub open spec fn pieces(s: Seq<char>) -> Seq<Seq<char>>
    decreases s.len(),
{
    if s.len() == 0 {
        seq![Seq::empty()]
    } else {
        let prev = pieces(s.drop_last());
        if s.last() == '\n' {
            prev.push(Seq::empty())
        } else {
            prev.update(prev.len() - 1, prev.last().push(s.last()))
        }
    }
}

/// A line without the carriage return that ends it, if any.
pub open spec fn drop_cr(l: Seq<char>) -> Seq<char> {
    if l.len() > 0 && l.last() == '\r' {
        l.drop_last()
    } else {
        l
    }
}

/// The lines of a text: each line ends at a newline, which is dropped
/// together with a carriage return just before it; a final newline starts no
/// further line. An empty text is one empty line.
pub open spec fn split_lines(s: Seq<char>) -> Seq<Seq<char>> {
    let p = pieces(s);
    if s.len() > 0 && s.last() == '\n' {
        p.drop_last().map_values(|l: Seq<char>| drop_cr(l))
    } else {
        p.drop_last().map_values(|l: Seq<char>| drop_cr(l)).push(p.last())
    }
}

pub proof fn lemma_pieces_nonempty(s: Seq<char>)
    ensures
        pieces(s).len() >= 1,
    decreases s.len(),
{
    if s.len() > 0 {
        lemma_pieces_nonempty(s.drop_last());
    }
}

/// Text without a newline only extends the last piece.
proof fn lemma_pieces_extend(t: Seq<char>, u: Seq<char>)
    requires
        forall|j: int| 0 <= j < u.len() ==> u[j] != '\n',
    ensures
        pieces(t + u) == pieces(t).update(pieces(t).len() - 1, pieces(t).last() + u),
    decreases u.len(),
{
    lemma_pieces_nonempty(t);
    if u.len() == 0 {
        assert(t + u =~= t);
        assert(pieces(t).last() + u =~= pieces(t).last());
        assert(pieces(t).update(pieces(t).len() - 1, pieces(t).last() + u) =~= pieces(t));
    } else {
        let v = u.drop_last();
        lemma_pieces_extend(t, v);
        assert((t + u).drop_last() =~= t + v);
        assert((pieces(t).last() + v).push(u.last()) =~= pieces(t).last() + u);
        assert(pieces(t + u) =~= pieces(t).update(pieces(t).len() - 1, pieces(t).last() + u));
    }
}

/// Lines without newlines, joined with newlines, cut back into the same
/// pieces.
proof fn lemma_pieces_of_join(ls: Seq<Seq<char>>)
    requires
        ls.len() >= 1,
        forall|i: int, j: int| 0 <= i < ls.len() && 0 <= j < ls[i].len() ==> ls[i][j] != '\n',
    ensures
        pieces(join_lines(ls)) == ls,
    decreases ls.len(),
{
    if ls.len() == 1 {
        lemma_pieces_extend(Seq::empty(), ls[0]);
        assert(Seq::<char>::empty() + ls[0] =~= ls[0]);
        assert(pieces(Seq::<char>::empty()).last() + ls[0] =~= ls[0]);
        assert(pieces(join_lines(ls)) =~= ls);
    } else {
        let init = ls.drop_last();
        lemma_pieces_of_join(init);
        let t = join_lines(init) + seq!['\n'];
        assert(t.drop_last() =~= join_lines(init));
        lemma_pieces_extend(t, ls.last());
        assert(pieces(t).last() + ls.last() =~= ls.last());
        assert(pieces(join_lines(ls)) =~= ls);
    }
}

/// Loading a text and saving it unchanged gives the same text back, for a
/// text made of lines joined by newlines, with no carriage return and no
/// final newline: loading gives back exactly those lines, and joining them
/// gives back the text.
pub proof fn lemma_load_save_round_trip(ls: Seq<Seq<char>>)
    requires
        ls.len() >= 1,
        forall|i: int, j: int|
            0 <= i < ls.len() && 0 <= j < ls[i].len() ==> ls[i][j] != '\n' && ls[i][j] != '\r',
        join_lines(ls).len() == 0 || join_lines(ls).last() != '\n',
    ensures
        split_lines(join_lines(ls)) == ls,
        join_lines(split_lines(join_lines(ls))) == join_lines(ls),
{
    lemma_pieces_of_join(ls);
    let s = join_lines(ls);
    assert forall|i: int| 0 <= i < ls.len() implies drop_cr(ls[i]) == ls[i] by {
        if ls[i].len() > 0 {
            assert(ls[i].last() == ls[i][ls[i].len() - 1]);
        }
    }
    assert(split_lines(s) =~= ls);
}

/// The characters of a text, in order.
pub(crate) fn chars_of(s: &str) -> (r: Vec<char>)
    ensures
        r@ == s@,
{
    broadcast use vstd::string::axiom_spec_iter, vstd::string::next_postcondition;

    let mut it = s.chars();
    let mut out: Vec<char> = Vec::new();
    loop
        invariant
            vstd::std_specs::iter::IteratorSpec::obeys_prophetic_iter_laws(&it),
            vstd::std_specs::iter::IteratorSpec::decrease(&it) is Some,
            out@ + vstd::std_specs::iter::IteratorSpec::remaining(&it) == s@,
        decreases vstd::std_specs::iter::IteratorSpec::decrease(&it)->0,
    {
        match it.next() {
            Some(c) => {
                out.push(c);
            },
            None => {
                assert(out@ + vstd::std_specs::iter::IteratorSpec::remaining(&it) == out@ + Seq::<char>::empty());
                return out;
            },
        }
    }
}

/// Relies on `String::from_iter` over chars: a string of exactly these
/// characters, in order.
#[verifier::external_body]
pub(crate) fn string_of(v: &Vec<char>) -> (r: String)
    ensures
        r@ == v@,
{
    String::from_iter(v.iter())
}

/// The lines after cutting line `line` at column `col`.
pub open spec fn split_at(b: Seq<Seq<char>>, line: int, col: int) -> Seq<Seq<char>> {
    b.update(line, b[line].take(col)).insert(line + 1, b[line].skip(col))
}

/// The lines after appending line `first + 1` to line `first`.
pub open spec fn joined_at(b: Seq<Seq<char>>, first: int) -> Seq<Seq<char>> {
    b.update(first, b[first] + b[first + 1]).remove(first + 1)
}

/// Cutting a line and joining it back with the next restores the lines.
pub proof fn lemma_split_then_join(b: Seq<Seq<char>>, line: int, col: int)
    requires
        0 <= line < b.len(),
        0 <= col <= b[line].len(),
    ensures
        joined_at(split_at(b, line, col), line) == b,
{
    let s = split_at(b, line, col);
    assert(s[line] + s[line + 1] =~= b[line]);
    assert(joined_at(s, line) =~= b);
}

/// The line contents of a vector of lines.
pub open spec fn lines_view(v: Seq<Vec<char>>) -> Seq<Seq<char>> {
    v.map_values(|l: Vec<char>| l@)
}

/// What saving writes: the text, and the path to write it to.
pub struct SaveRequest {
    pub path: String,
    pub contents: String,
}

/// Why a buffer cannot be saved.
#[derive(Clone, Copy, PartialEq, Eq, Structural, Debug)]
pub enum BufferError {
    /// `save` was called on a buffer that has no associated file path.
    NoFilePath,
}

/// The text being edited: a non-empty sequence of lines of characters, with
/// an optional file path and a flag that records unsaved changes.
pub struct Buffer {
    file_path: Option<String>,
    lines: Vec<Vec<char>>,
    dirty: bool,
}

impl View for Buffer {
    type V = Seq<Seq<char>>;

    closed spec fn view(&self) -> Seq<Seq<char>> {
        lines_view(self.lines@)
    }
}

impl Buffer {
    /// True after any change, false after loading or saving.
    pub closed spec fn dirty_spec(&self) -> bool {
        self.dirty
    }

    /// The associated file path, if any.
    pub closed spec fn path_spec(&self) -> Option<Seq<char>> {
        match self.file_path {
            Some(p) => Some(p@),
            None => None,
        }
    }

    /// A buffer always holds at least one line.
    pub open spec fn wf(&self) -> bool {
        self@.len() >= 1
    }

    /// An empty buffer: one empty line, no path, nothing unsaved.
    pub fn new() -> (r: Self)
        ensures
            r@ == seq![Seq::<char>::empty()],
            r.wf(),
            r.path_spec() is None,
            !r.dirty_spec(),
    {
        let mut lines: Vec<Vec<char>> = Vec::new();
        lines.push(Vec::new());
        let r = Buffer { file_path: None, lines, dirty: false };
        assert(r@ =~= seq![Seq::<char>::empty()]);
        r
    }

    /// A buffer holding `contents`, cut into lines at each newline, and
    /// associated with `file_path`.
    pub fn from_text(file_path: &str, contents: &str) -> (r: Self)
        ensures
            r@ == split_lines(contents@),
            r.wf(),
            r.path_spec() == Some(file_path@),
            !r.dirty_spec(),
    {
        let chars = chars_of(contents);
        let ghost text = chars@;
        let mut lines: Vec<Vec<char>> = Vec::new();
        let mut cur: Vec<char> = Vec::new();
        let mut i: usize = 0;
        proof {
            assert(text.subrange(0, 0) =~= Seq::<char>::empty());
        }
        while i < chars.len()
            invariant
                i <= text.len(),
                chars@ == text,
                text == contents@,
                lines_view(lines@) == pieces(text.subrange(0, i as int)).drop_last().map_values(
                    |l: Seq<char>| drop_cr(l),
                ),
                cur@ == pieces(text.subrange(0, i as int)).last(),
            decreases text.len() - i,
        {
            let c = chars[i];
            let ghost prev = pieces(text.subrange(0, i as int));
            proof {
                let s = text.subrange(0, i + 1);
                assert(s.drop_last() =~= text.subrange(0, i as int));
                lemma_pieces_nonempty(s.drop_last());
            }
            if c == '\n' {
                let n = cur.len();
                if n > 0 && cur[n - 1] == '\r' {
                    cur.pop();
                }
                assert(cur@ == drop_cr(prev.last()));
                let mut done: Vec<char> = Vec::new();
                std::mem::swap(&mut done, &mut cur);
                let ghost before = lines@;
                lines.push(done);
                assert(lines_view(lines@) =~= lines_view(before).push(drop_cr(prev.last())));
                assert(pieces(text.subrange(0, i + 1)).drop_last() =~= prev);
                assert(lines_view(lines@) =~= pieces(text.subrange(0, i + 1)).drop_last().map_values(
                    |l: Seq<char>| drop_cr(l),
                ));
            } else {
                cur.push(c);
                assert(pieces(text.subrange(0, i + 1)).drop_last() =~= prev.drop_last());
            }
            i = i + 1;
        }
        assert(text.subrange(0, i as int) =~= contents@);
        proof {
            lemma_pieces_nonempty(contents@);
        }
        let n = chars.len();
        if !(n > 0 && chars[n - 1] == '\n') {
            let ghost before = lines@;
            lines.push(cur);
            assert(lines_view(lines@) =~= lines_view(before).push(pieces(contents@).last()));
        } else {
            proof {
                lemma_pieces_nonempty(contents@.drop_last());
            }
            assert(pieces(contents@) == pieces(contents@.drop_last()).push(Seq::empty()));
        }
        let path = String::from_str(file_path);
        let r = Buffer { file_path: Some(path), lines, dirty: false };
        assert(r@ =~= split_lines(contents@));
        r
    }

    /// The text of the buffer: its lines joined with newlines.
    pub fn contents(&self) -> (r: String)
        ensures
            r@ == join_lines(self@),
    {
        let mut out: Vec<char> = Vec::new();
        let mut i: usize = 0;
        while i < self.lines.len()
            invariant
                i <= self@.len(),
                out@ == join_lines(self@.take(i as int)),
            decreases self@.len() - i,
        {
            let line = &self.lines[i];
            if i > 0 {
                out.push('\n');
            }
            let ghost base = out@;
            let mut j: usize = 0;
            while j < line.len()
                invariant
                    j <= line@.len(),
                    out@ == base + line@.take(j as int),
                decreases line@.len() - j,
            {
                out.push(line[j]);
                assert(out@ =~= base + line@.take(j + 1));
                j = j + 1;
            }
            proof {
                let t = self@.take(i + 1);
                assert(line@.take(j as int) =~= line@);
                assert(t.last() == self@[i as int]);
                if i > 0 {
                    assert(t.drop_last() =~= self@.take(i as int));
                } else {
                    assert(base =~= Seq::<char>::empty());
                }
                assert(out@ =~= join_lines(t));
            }
            i = i + 1;
        }
        assert(self@.take(i as int) =~= self@);
        string_of(&out)
    }

    /// What saving to the associated path writes; fails when the buffer has
    /// no path.
    pub fn save(&self) -> (r: Result<SaveRequest, BufferError>)
        ensures
            self.path_spec() is None <==> r == Err::<SaveRequest, BufferError>(BufferError::NoFilePath),
            r matches Ok(q) ==> self.path_spec() == Some(q.path@) && q.contents@ == join_lines(self@),
    {
        match &self.file_path {
            None => Err(BufferError::NoFilePath),
            Some(path) => Ok(SaveRequest { path: path.clone(), contents: self.contents() }),
        }
    }

    /// What saving to `file_path` writes.
    pub fn save_as(&self, file_path: &str) -> (r: SaveRequest)
        ensures
            r.path@ == file_path@,
            r.contents@ == join_lines(self@),
    {
        SaveRequest { path: String::from_str(file_path), contents: self.contents() }
    }

    /// Records that the text was written to `file_path`: that path becomes
    /// the buffer's own, and nothing is left unsaved.
    pub fn mark_saved(&mut self, file_path: &str)
        ensures
            final(self)@ == old(self)@,
            final(self).path_spec() == Some(file_path@),
            !final(self).dirty_spec(),
    {
        self.file_path = Some(String::from_str(file_path));
        self.dirty = false;
    }

    pub fn is_dirty(&self) -> (r: bool)
        ensures
            r == self.dirty_spec(),
    {
        self.dirty
    }

    pub fn file_path(&self) -> (r: Option<&String>)
        ensures
            r is None <==> self.path_spec() is None,
            r matches Some(p) ==> self.path_spec() == Some(p@),
    {
        self.file_path.as_ref()
    }

    /// All lines, in order.
    pub fn lines(&self) -> (r: &Vec<Vec<char>>)
        ensures
            lines_view(r@) == self@,
    {
        &self.lines
    }

    pub fn line_count(&self) -> (r: usize)
        ensures
            r == self@.len(),
    {
        self.lines.len()
    }

    pub fn get_line(&self, line_number: usize) -> (r: &Vec<char>)
        requires
            line_number < self@.len(),
        ensures
            r@ == self@[line_number as int],
    {
        &self.lines[line_number]
    }

    /// Takes line `i` out, leaving an empty line in its place.
    fn take_line(&mut self, i: usize) -> (r: Vec<char>)
        requires
            i < old(self)@.len(),
        ensures
            r@ == old(self)@[i as int],
            final(self)@ == old(self)@.update(i as int, Seq::empty()),
            final(self).lines@.len() == old(self).lines@.len(),
            final(self).file_path == old(self).file_path,
            final(self).dirty == old(self).dirty,
    {
        let mut line: Vec<char> = Vec::new();
        self.lines.set_and_swap(i, &mut line);
        assert(self@ =~= old(self)@.update(i as int, Seq::empty()));
        line
    }

    /// Puts `line` in place of line `i`.
    fn put_line(&mut self, i: usize, line: Vec<char>)
        requires
            i < old(self)@.len(),
        ensures
            final(self)@ == old(self)@.update(i as int, line@),
            final(self).lines@.len() == old(self).lines@.len(),
            final(self).file_path == old(self).file_path,
            final(self).dirty == old(self).dirty,
    {
        self.lines.set(i, line);
        assert(self@ =~= old(self)@.update(i as int, line@));
    }

    /// Inserts `c` before the character at `location`.
    pub fn insert_char(&mut self, location: Location, c: char)
        requires
            location.line < old(self)@.len(),
            location.col <= old(self)@[location.line as int].len(),
        ensures
            final(self)@ == old(self)@.update(
                location.line as int,
                old(self)@[location.line as int].insert(location.col as int, c),
            ),
            final(self).path_spec() == old(self).path_spec(),
            final(self).dirty_spec(),
    {
        let mut line = self.take_line(location.line);
        line.insert(location.col, c);
        self.put_line(location.line, line);
        self.dirty = true;
        assert(self@ =~= old(self)@.update(
            location.line as int,
            old(self)@[location.line as int].insert(location.col as int, c),
        ));
    }

    /// Removes the character at `location`.
    pub fn remove_char(&mut self, location: Location)
        requires
            location.line < old(self)@.len(),
            location.col < old(self)@[location.line as int].len(),
        ensures
            final(self)@ == old(self)@.update(
                location.line as int,
                old(self)@[location.line as int].remove(location.col as int),
            ),
            final(self).path_spec() == old(self).path_spec(),
            final(self).dirty_spec(),
    {
        let mut line = self.take_line(location.line);
        line.remove(location.col);
        self.put_line(location.line, line);
        self.dirty = true;
        assert(self@ =~= old(self)@.update(
            location.line as int,
            old(self)@[location.line as int].remove(location.col as int),
        ));
    }

    /// Inserts an empty line so that it becomes line `line_number`.
    pub fn insert_line(&mut self, line_number: usize)
        requires
            line_number <= old(self)@.len(),
        ensures
            final(self)@ == old(self)@.insert(line_number as int, Seq::empty()),
            final(self).path_spec() == old(self).path_spec(),
            final(self).dirty_spec(),
    {
        self.lines.insert(line_number, Vec::new());
        self.dirty = true;
        assert(self@ =~= old(self)@.insert(line_number as int, Seq::empty()));
    }

    /// Appends line `first_line + 1` to line `first_line` and removes it.
    pub fn join_two_lines(&mut self, first_line: usize)
        requires
            first_line + 1 < old(self)@.len(),
        ensures
            final(self)@ == joined_at(old(self)@, first_line as int),
            final(self).path_spec() == old(self).path_spec(),
            final(self).dirty_spec(),
    {
        // The line count is a `usize`, so the next line's index fits in one.
        let _n = self.lines.len();
        let mut second = self.lines.remove(first_line + 1);
        let mut line = self.take_line(first_line);
        line.append(&mut second);
        self.put_line(first_line, line);
        self.dirty = true;
        assert(self@ =~= joined_at(old(self)@, first_line as int));
    }

    /// Cuts line `location.line` at `location.col`: what follows the column
    /// becomes the next line.
    pub fn split_line(&mut self, location: Location)
        requires
            location.line < old(self)@.len(),
            location.col <= old(self)@[location.line as int].len(),
        ensures
            final(self)@ == split_at(old(self)@, location.line as int, location.col as int),
            final(self).path_spec() == old(self).path_spec(),
            final(self).dirty_spec(),
    {
        // The line count is a `usize`, so the next line's index fits in one.
        let _n = self.lines.len();
        let mut line = self.take_line(location.line);
        let second = line.split_off(location.col);
        self.put_line(location.line, line);
        let ghost mid = self@;
        self.lines.insert(location.line + 1, second);
        assert(self@ =~= mid.insert(location.line + 1, second@));
        self.dirty = true;
        assert(self@ =~= split_at(old(self)@, location.line as int, location.col as int));
    }
}

} // verus!
