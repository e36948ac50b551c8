use vstd::prelude::*;
use crate::text::{chars_of, lines_view, Buffer, Location, Span};

verus! {

/// `p` occurs in `line` starting at column `k`.
pub open spec fn occurs(line: Seq<char>, p: Seq<char>, k: int) -> bool {
    0 <= k && k + p.len() <= line.len() && line.subrange(k, k + p.len()) == p
}

/// How far line `l` lies from the start line `sl` in a cyclic scan over `n`
/// lines; the start line itself has rank zero.
pub open spec fn line_rank(n: int, sl: int, forward: bool, l: int) -> int {
    if l == sl {
        0
    } else if forward {
        if l > sl {
            l - sl
        } else {
            l + n - sl
        }
    } else {
        if l < sl {
            sl - l
        } else {
            sl + n - l
        }
    }
}

/// The place of a match at line `l`, column `k` in the cyclic scan that
/// starts just past `start`: first the rest of the start line in the scan
/// direction, then the other lines in turn, and last the start line up to and
/// including the start column. Within a line, columns are met left to right
/// forward and right to left backward.
pub open spec fn scan_order(n: int, start: Location, forward: bool, l: int, k: int) -> (int, int) {
    let phase = if l == start.line as int {
        if (forward && k > start.col as int) || (!forward && k < start.col as int) {
            0
        } else {
            n
        }
    } else {
        line_rank(n, start.line as int, forward, l)
    };
    (phase, if forward { k } else { -k })
}

/// `a` comes strictly before `b` in lexicographic order.
pub open spec fn lex_before(a: (int, int), b: (int, int)) -> bool {
    a.0 < b.0 || (a.0 == b.0 && a.1 < b.1)
}

/// The first match of `p` in `b` in the cyclic scan from `start`, or `None`
/// when `p` is empty or occurs nowhere.
pub open spec fn is_first_match(
    b: Seq<Seq<char>>,
    p: Seq<char>,
    forward: bool,
    start: Location,
    l: int,
    k: int,
) -> bool {
    &&& 0 <= l < b.len()
    &&& occurs(b[l], p, k)
    &&& forall|l2: int, k2: int|
        0 <= l2 < b.len() && #[trigger] occurs(b[l2], p, k2) ==> !lex_before(
            scan_order(b.len() as int, start, forward, l2, k2),
            scan_order(b.len() as int, start, forward, l, k),
        )
}

/// The line and column of the first match of `p` in the cyclic scan from
/// `start`, if there is one.
pub open spec fn first_match(b: Seq<Seq<char>>, p: Seq<char>, forward: bool, start: Location) -> Option<
    (int, int),
> {
    if p.len() > 0 && exists|l: int, k: int| is_first_match(b, p, forward, start, l, k) {
        let (l, k) = choose|l: int, k: int| is_first_match(b, p, forward, start, l, k);
        Some((l, k))
    } else {
        None
    }
}

/// The scan meets no two places at once, so the first match is unique.
pub proof fn lemma_first_match_unique(
    b: Seq<Seq<char>>,
    p: Seq<char>,
    forward: bool,
    start: Location,
    l1: int,
    k1: int,
    l2: int,
    k2: int,
)
    requires
        start.line < b.len(),
        is_first_match(b, p, forward, start, l1, k1),
        is_first_match(b, p, forward, start, l2, k2),
    ensures
        l1 == l2 && k1 == k2,
{
    let n = b.len() as int;
    let sl = start.line as int;
    if l1 != sl {
        lemma_line_rank(n, sl, forward, l1);
    }
    if l2 != sl {
        lemma_line_rank(n, sl, forward, l2);
    }
    assert(!lex_before(scan_order(n, start, forward, l2, k2), scan_order(n, start, forward, l1, k1)));
    assert(!lex_before(scan_order(n, start, forward, l1, k1), scan_order(n, start, forward, l2, k2)));
}

/// What `find` returns is the first match.
pub proof fn lemma_first_match_is(
    b: Seq<Seq<char>>,
    p: Seq<char>,
    forward: bool,
    start: Location,
    l: int,
    k: int,
)
    requires
        start.line < b.len(),
        p.len() > 0,
        is_first_match(b, p, forward, start, l, k),
    ensures
        first_match(b, p, forward, start) == Some((l, k)),
{
    let (l2, k2) = choose|l2: int, k2: int| is_first_match(b, p, forward, start, l2, k2);
    lemma_first_match_unique(b, p, forward, start, l, k, l2, k2);
}

/// Whether `p` occurs in `line` at column `k`.
fn occurs_at(line: &Vec<char>, p: &Vec<char>, k: usize) -> (r: bool)
    ensures
        r == occurs(line@, p@, k as int),
{
    if p.len() > line.len() || k > line.len() - p.len() {
        return false;
    }
    let n = line.len();
    let mut i: usize = 0;
    while i < p.len()
        invariant
            n == line@.len(),
            i <= p@.len(),
            k + p@.len() <= line@.len(),
            forall|j: int| 0 <= j < i ==> line@[k + j] == p@[j],
        decreases p@.len() - i,
    {
        if line[k + i] != p[i] {
            assert(line@.subrange(k as int, k + p@.len())[i as int] != p@[i as int]);
            return false;
        }
        i = i + 1;
    }
    assert(line@.subrange(k as int, k + p@.len()) =~= p@);
    true
}

/// The first column in `lo..hi` (forward) or the last (backward) at which
/// `p` occurs in `line`.
fn find_in_range(line: &Vec<char>, p: &Vec<char>, lo: usize, hi: usize, forward: bool) -> (r:
    Option<usize>)
    requires
        hi <= line@.len(),
    ensures
        match r {
            Some(k) => {
                &&& lo <= k < hi
                &&& occurs(line@, p@, k as int)
                &&& forall|j: int|
                    lo <= j < hi && #[trigger] occurs(line@, p@, j) ==> (forward ==> k <= j) && (
                    !forward ==> j <= k)
            },
            None => forall|j: int| lo <= j < hi ==> !#[trigger] occurs(line@, p@, j),
        },
{
    if lo >= hi {
        return None;
    }
    if forward {
        let mut k: usize = lo;
        while k < hi
            invariant
                forward,
                lo <= k <= hi,
                forall|j: int| lo <= j < k ==> !#[trigger] occurs(line@, p@, j),
            decreases hi - k,
        {
            if occurs_at(line, p, k) {
                return Some(k);
            }
            k = k + 1;
        }
        None
    } else {
        let mut k: usize = hi;
        while k > lo
            invariant
                !forward,
                lo <= k <= hi,
                forall|j: int| k <= j < hi ==> !#[trigger] occurs(line@, p@, j),
            decreases k - lo,
        {
            if occurs_at(line, p, k - 1) {
                return Some(k - 1);
            }
            k = k - 1;
        }
        None
    }
}

/// Every line other than `sl` has a rank between one and `n - 1`, and that
/// rank is `j` exactly for the line that the scan visits `j`-th.
proof fn lemma_line_rank(n: int, sl: int, forward: bool, l: int)
    requires
        0 <= sl < n,
        0 <= l < n,
        l != sl,
    ensures
        1 <= line_rank(n, sl, forward, l) < n,
{
}

fn make_span(line: usize, col: usize, len: usize) -> (r: Span)
    requires
        col + len <= usize::MAX,
    ensures
        r.start == (Location { line, col }),
        r.end == (Location { line, col: (col + len) as usize }),
{
    Span { start: Location::new(line, col), end: Location::new(line, col + len) }
}

impl Buffer {
    /// The first match of `pattern` in a cyclic scan of the buffer that starts
    /// just past `start` and goes forward or backward: the rest of the start
    /// line, then every other line in turn, wrapping around at either end, and
    /// last the start line up to and including the start column. `None` when
    /// the pattern is empty or occurs nowhere.
    pub fn find(&self, pattern: &str, forward: bool, start: Location) -> (r: Option<Span>)
        requires
            start.line < self@.len(),
        ensures
            match r {
                Some(s) => {
                    &&& pattern@.len() > 0
                    &&& is_first_match(
                        self@,
                        pattern@,
                        forward,
                        start,
                        s.start.line as int,
                        s.start.col as int,
                    )
                    &&& s.end.line == s.start.line
                    &&& s.end.col == s.start.col + pattern@.len()
                },
                None => pattern@.len() == 0 || forall|l: int, k: int|
                    0 <= l < self@.len() ==> !#[trigger] occurs(self@[l], pattern@, k),
            },
    {
        let p = chars_of(pattern);
        if p.len() == 0 {
            return None;
        }
        let lines = self.lines();
        let ghost b = self@;
        let ghost m = p@.len() as int;
        let n = lines.len();
        let sl = start.line;
        let col = start.col;
        assert(lines@[sl as int]@ == b[sl as int]);
        let line = &lines[sl];
        let len = line.len();
        // The rest of the start line.
        let first = if forward {
            if col < len {
                find_in_range(line, &p, col + 1, len, true)
            } else {
                None
            }
        } else {
            find_in_range(line, &p, 0, if col < len { col } else { len }, false)
        };
        if let Some(k) = first {
            proof {
                assert forall|l2: int, k2: int|
                    0 <= l2 < b.len() && #[trigger] occurs(b[l2], p@, k2) implies !lex_before(
                    scan_order(n as int, start, forward, l2, k2),
                    scan_order(n as int, start, forward, sl as int, k as int),
                ) by {
                    if l2 != sl as int {
                        lemma_line_rank(n as int, sl as int, forward, l2);
                    }
                }
            }
            return Some(make_span(sl, k, p.len()));
        }
        assert forall|k2: int| #[trigger] occurs(b[sl as int], p@, k2) implies !((forward && k2
            > col) || (!forward && k2 < col)) by {}
        // The other lines, wrapping around.
        let mut j: usize = 1;
        while j < n
            invariant
                n == b.len(),
                b == self@,
                lines_view(lines@) == b,
                p@.len() == m,
                p@ == pattern@,
                m > 0,
                sl < n,
                sl == start.line,
                col == start.col,
                forall|k2: int| #[trigger]
                    occurs(b[sl as int], p@, k2) ==> !((forward && k2 > col) || (!forward && k2
                        < col)),
                1 <= j <= n,
                forall|l2: int, k2: int|
                    0 <= l2 < n && l2 != sl && line_rank(n as int, sl as int, forward, l2) < j
                        ==> !#[trigger] occurs(b[l2], p@, k2),
            decreases n - j,
        {
            let l = if forward {
                if j < n - sl {
                    sl + j
                } else {
                    j - (n - sl)
                }
            } else {
                if j <= sl {
                    sl - j
                } else {
                    n - (j - sl)
                }
            };
            assert(line_rank(n as int, sl as int, forward, l as int) == j);
            assert(lines@[l as int]@ == b[l as int]);
            let other = &lines[l];
            let found = find_in_range(other, &p, 0, other.len(), forward);
            if let Some(k) = found {
                proof {
                    assert forall|l2: int, k2: int|
                        0 <= l2 < b.len() && #[trigger] occurs(b[l2], p@, k2) implies !lex_before(
                        scan_order(n as int, start, forward, l2, k2),
                        scan_order(n as int, start, forward, l as int, k as int),
                    ) by {
                        if l2 == l as int {
                            assert(b[l2] == other@);
                        } else if l2 != sl as int {
                            lemma_line_rank(n as int, sl as int, forward, l2);
                            assert(line_rank(n as int, sl as int, forward, l2) != j);
                            assert(line_rank(n as int, sl as int, forward, l2) > j);
                        } else {
                            assert(scan_order(n as int, start, forward, l2, k2).0 == n);
                        }
                    }
                }
                return Some(make_span(l, k, p.len()));
            }
            j = j + 1;
        }
        // The start line up to the start column.
        let last = if forward {
            find_in_range(line, &p, 0, if col < len { col + 1 } else { len }, true)
        } else {
            find_in_range(line, &p, if col < len { col } else { len }, len, false)
        };
        match last {
            Some(k) => {
                proof {
                    assert forall|l2: int, k2: int|
                        0 <= l2 < b.len() && #[trigger] occurs(b[l2], p@, k2) implies !lex_before(
                        scan_order(n as int, start, forward, l2, k2),
                        scan_order(n as int, start, forward, sl as int, k as int),
                    ) by {
                        if l2 != sl as int {
                            lemma_line_rank(n as int, sl as int, forward, l2);
                        }
                    }
                }
                Some(make_span(sl, k, p.len()))
            },
            None => {
                proof {
                    assert forall|l2: int, k2: int| 0 <= l2 < b.len() implies !#[trigger] occurs(
                        b[l2],
                        p@,
                        k2,
                    ) by {
                        if l2 != sl as int {
                            lemma_line_rank(n as int, sl as int, forward, l2);
                        }
                    }
                }
                None
            },
        }
    }
}

} // verus!
