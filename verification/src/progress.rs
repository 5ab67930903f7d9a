use vstd::prelude::*;

verus! {

/// The characters the command line draws its progress display with.
pub struct Theme;

impl Theme {
    pub const PROGRESS_FILLED: &'static str = "-";
    pub const PROGRESS_ARROW: &'static str = ">>";
    pub const PROGRESS_TRAIL: &'static str = "===";
    pub const PROGRESS_EMPTY: &'static str = "•";
    pub const PHASE_IN_PROGRESS: &'static str = "•";
    pub const PHASE_COMPLETE: &'static str = "✓";
    pub const BRACKET_OPEN: &'static str = "[";
    pub const BRACKET_CLOSE: &'static str = "]";
}

/// How a progress bar of some width is drawn once `filled` cells are done:
/// `filled` dashes, then a trail of `trail` cells, then the two-cell arrow
/// when `arrow` holds, then `empty` dots.
#[derive(Clone, Copy, Debug, PartialEq, Eq, Structural)]
pub struct BarLayout {
    pub filled: usize,
    pub trail: usize,
    pub arrow: bool,
    pub empty: usize,
}

/// The layout of a bar `width` cells wide with `done` cells done: nothing
/// done is all dots; all done is all dashes; in between, the arrow (two
/// cells) heads a trail of up to three cells behind which come the dashes.
pub open spec fn spec_layout(width: usize, done: usize) -> BarLayout {
    if done == 0 {
        BarLayout { filled: 0, trail: 0, arrow: false, empty: width }
    } else if done >= width {
        BarLayout { filled: width, trail: 0, arrow: false, empty: 0 }
    } else {
        let after_arrow: int = if done >= 2 { done - 2 } else { 0 };
        let trail: int = if after_arrow < 3 { after_arrow } else { 3 };
        let filled: int = if done >= trail + 2 { done - trail - 2 } else { 0 };
        BarLayout { filled: filled as usize, trail: trail as usize, arrow: true, empty: (width - done) as usize }
    }
}

/// A text progress bar.
pub struct ProgressBar {
    width: usize,
    show_percentage: bool,
}

impl ProgressBar {
    pub closed spec fn spec_width(&self) -> usize {
        self.width
    }

    pub closed spec fn spec_shows_percentage(&self) -> bool {
        self.show_percentage
    }

    /// A bar `width` cells wide that shows its percentage.
    pub fn new(width: usize) -> (b: ProgressBar)
        ensures
            b.spec_width() == width,
            b.spec_shows_percentage(),
    {
        ProgressBar { width, show_percentage: true }
    }

    /// How many cells wide the bar is.
    pub fn width(&self) -> (w: usize)
        ensures
            w == self.spec_width(),
    {
        self.width
    }

    /// Whether the percentage is shown after the bar.
    pub fn shows_percentage(&self) -> (b: bool)
        ensures
            b == self.spec_shows_percentage(),
    {
        self.show_percentage
    }

    /// How the bar is drawn with `done` cells done.
    pub fn layout(&self, done: usize) -> (l: BarLayout)
        ensures
            l == spec_layout(self.spec_width(), done),
    {
        let width = self.width;
        if done == 0 {
            BarLayout { filled: 0, trail: 0, arrow: false, empty: width }
        } else if done >= width {
            BarLayout { filled: width, trail: 0, arrow: false, empty: 0 }
        } else {
            let arrow_len: usize = 2;
            let after_arrow = done.saturating_sub(arrow_len);
            let trail = if after_arrow < 3 { after_arrow } else { 3 };
            let filled = done.saturating_sub(trail + arrow_len);
            BarLayout { filled, trail, arrow: true, empty: width - done }
        }
    }
}

/// A bar with some but not all cells done has an arrow and spans exactly
/// its width, counting the arrow as two cells, unless it is too short to
/// hold the arrow.
pub proof fn law_layout_spans_width(width: usize, done: usize)
    ensures
        ({
            let l = spec_layout(width, done);
            &&& (done == 0 || done >= width) ==> l.filled + l.trail + l.empty == width && !l.arrow
            &&& (0 < done < width && done >= 2) ==> l.arrow && l.filled + l.trail + 2 + l.empty == width
            &&& l.trail <= 3
        }),
{
}

} // verus!
