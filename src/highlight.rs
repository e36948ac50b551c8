use vstd::prelude::*;

verus! {

/// A colour with an alpha channel.
#[derive(Clone, Copy, PartialEq, Eq, Structural, Debug)]
pub struct Color {
    pub r: u8,
    pub g: u8,
    pub b: u8,
    pub a: u8,
}

/// How a stretch of text is drawn.
#[derive(Clone, Copy, PartialEq, Eq, Structural, Debug)]
pub struct HighlightStyle {
    pub foreground: Color,
    pub background: Color,
    pub bold: bool,
    pub italic: bool,
    pub underline: bool,
}

/// A style applied to the displayed columns `start..end` of a line.
#[derive(Clone, Copy, PartialEq, Eq, Structural, Debug)]
pub struct Highlight {
    pub style: HighlightStyle,
    pub start: usize,
    pub end: usize,
}

impl Highlight {
    pub fn new(style: HighlightStyle, start: usize, end: usize) -> (r: Self)
        ensures
            r == (Highlight { style, start, end }),
    {
        Highlight { style, start, end }
    }
}

/// The part of `h` that falls in the window of displayed columns
/// `col..visible_end`, moved so that the window starts at zero; `None` when
/// nothing of it is visible.
pub open spec fn clip(h: Highlight, col: nat, visible_end: nat) -> Option<Highlight> {
    let s = if h.start < col {
        col
    } else {
        h.start as nat
    };
    let e = if h.end > visible_end {
        visible_end
    } else {
        h.end as nat
    };
    if s < e {
        Some(Highlight { style: h.style, start: (s - col) as usize, end: (e - col) as usize })
    } else {
        None
    }
}

/// The visible parts of `hs`, in order.
pub open spec fn clip_all(hs: Seq<Highlight>, col: nat, visible_end: nat) -> Seq<Highlight>
    decreases hs.len(),
{
    if hs.len() == 0 {
        Seq::empty()
    } else {
        let rest = clip_all(hs.drop_last(), col, visible_end);
        match clip(hs.last(), col, visible_end) {
            Some(h) => rest.push(h),
            None => rest,
        }
    }
}

/// The highlights of a line clipped to the window of displayed columns
/// `col..visible_end`, in window coordinates.
pub fn clip_highlights(hs: &Vec<Highlight>, col: usize, visible_end: usize) -> (r: Vec<Highlight>)
    requires
        col <= visible_end,
    ensures
        r@ == clip_all(hs@, col as nat, visible_end as nat),
{
    let mut out: Vec<Highlight> = Vec::new();
    let mut i: usize = 0;
    while i < hs.len()
        invariant
            i <= hs@.len(),
            col <= visible_end,
            out@ == clip_all(hs@.take(i as int), col as nat, visible_end as nat),
        decreases hs@.len() - i,
    {
        let h = hs[i];
        let s = if h.start < col {
            col
        } else {
            h.start
        };
        let e = if h.end > visible_end {
            visible_end
        } else {
            h.end
        };
        proof {
            assert(hs@.take(i + 1).drop_last() =~= hs@.take(i as int));
        }
        if s < e {
            out.push(Highlight { style: h.style, start: s - col, end: e - col });
        }
        i = i + 1;
    }
    assert(hs@.take(i as int) =~= hs@);
    out
}

} // verus!
