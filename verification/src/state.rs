//! The state behind the interactive view: the line buffer of an iteration
//! with its scroll position, and what the dashboard shows in its status
//! line.

use crate::style::{line_views, SpanView, StyledLine};
use vstd::prelude::*;

verus! {

/// The furthest that a buffer of `len` lines can be scrolled down in a
/// viewport of `height` rows: so far that the last line is the last row.
pub open spec fn max_scroll(len: nat, height: nat) -> nat {
    if len > height {
        (len - height) as nat
    } else {
        0
    }
}

/// The index of the first line shown: the scroll offset, held to the number
/// of lines.
pub open spec fn window_start(len: nat, offset: nat) -> nat {
    if offset < len {
        offset
    } else {
        len
    }
}

/// The index after the last line shown in a viewport of `height` rows.
pub open spec fn window_end(len: nat, offset: nat, height: nat) -> nat {
    if window_start(len, offset) + height < len {
        window_start(len, offset) + height
    } else {
        len
    }
}

/// The lines that a viewport of `height` rows shows of `lines` at a scroll
/// offset.
pub open spec fn window<T>(lines: Seq<T>, offset: nat, height: nat) -> Seq<T> {
    lines.subrange(
        window_start(lines.len(), offset) as int,
        window_end(lines.len(), offset, height) as int,
    )
}

/// The styled lines of one iteration and the position to which they are
/// scrolled. Lines are only ever added at the end.
#[derive(Debug, Clone)]
pub struct IterationBuffer {
    /// The number of the iteration.
    pub number: u32,
    /// The lines, oldest first.
    pub lines: Vec<StyledLine>,
    /// The index of the first visible line.
    pub scroll_offset: usize,
}

impl IterationBuffer {
    /// The number of lines and the scroll offset.
    pub open spec fn extent(&self) -> Extent {
        Extent { len: self.lines@.len(), offset: self.scroll_offset as nat }
    }

    /// Whether the scroll offset is within what a viewport of `height` rows
    /// allows.
    pub open spec fn in_range(&self, height: nat) -> bool {
        self.scroll_offset <= max_scroll(self.lines@.len(), height)
    }

    /// Creates the empty buffer of iteration `number`.
    pub fn new(number: u32) -> (buffer: Self)
        ensures
            buffer.number == number,
            buffer.lines@.len() == 0,
            buffer.scroll_offset == 0,
            forall|height: nat| buffer.in_range(height),
    {
        IterationBuffer { number, lines: Vec::new(), scroll_offset: 0 }
    }

    /// Adds a line at the end. The scroll offset stays.
    pub fn append_line(&mut self, line: StyledLine)
        ensures
            final(self).lines@ == old(self).lines@.push(line),
            final(self).scroll_offset == old(self).scroll_offset,
            final(self).number == old(self).number,
            forall|height: nat|
                final(self).extent() == #[trigger] step(
                    old(self).extent(),
                    BufferStep::Append,
                    height,
                ),
            forall|height: nat| old(self).in_range(height) ==> final(self).in_range(height),
    {
        self.lines.push(line);
    }

    /// The number of lines.
    pub fn line_count(&self) -> (count: usize)
        ensures
            count == self.lines@.len(),
    {
        self.lines.len()
    }

    /// A copy of the lines that a viewport of `viewport_height` rows shows:
    /// those from the scroll offset on, as many as there are rows and lines.
    pub fn visible_lines(&self, viewport_height: usize) -> (visible: Vec<StyledLine>)
        ensures
            line_views(visible@) == window(
                line_views(self.lines@),
                self.scroll_offset as nat,
                viewport_height as nat,
            ),
    {
        let len = self.lines.len();
        let start = if self.scroll_offset < len {
            self.scroll_offset
        } else {
            len
        };
        let end = if viewport_height < len - start {
            start + viewport_height
        } else {
            len
        };
        let mut visible: Vec<StyledLine> = Vec::new();
        let mut i: usize = start;
        while i < end
            invariant
                start <= i <= end <= self.lines.len(),
                visible.len() == i - start,
                forall|k: int| 0 <= k < i - start ==> visible@[k]@ == self.lines@[start + k]@,
            decreases end - i,
        {
            visible.push(self.lines[i].clone());
            i += 1;
        }
        assert(line_views(visible@) =~= line_views(self.lines@).subrange(
            start as int,
            end as int,
        ));
        visible
    }

    /// The furthest that this buffer can be scrolled down in a viewport of
    /// `viewport_height` rows.
    pub fn max_scroll(&self, viewport_height: usize) -> (max: usize)
        ensures
            max == max_scroll(self.lines@.len(), viewport_height as nat),
    {
        if self.lines.len() > viewport_height {
            self.lines.len() - viewport_height
        } else {
            0
        }
    }

    /// Scrolls up by one line, if not at the top.
    pub fn scroll_up(&mut self)
        ensures
            final(self).scroll_offset == (if old(self).scroll_offset > 0 {
                old(self).scroll_offset - 1
            } else {
                0
            }),
            final(self).lines == old(self).lines,
            final(self).number == old(self).number,
            forall|height: nat|
                final(self).extent() == #[trigger] step(
                    old(self).extent(),
                    BufferStep::ScrollUp,
                    height,
                ),
            forall|height: nat| old(self).in_range(height) ==> final(self).in_range(height),
    {
        if self.scroll_offset > 0 {
            self.scroll_offset = self.scroll_offset - 1;
        }
    }

    /// Scrolls down by one line, if the viewport does not show the last line
    /// yet.
    pub fn scroll_down(&mut self, viewport_height: usize)
        ensures
            final(self).scroll_offset == (if old(self).scroll_offset < max_scroll(
                old(self).lines@.len(),
                viewport_height as nat,
            ) {
                old(self).scroll_offset + 1
            } else {
                old(self).scroll_offset as int
            }),
            final(self).lines == old(self).lines,
            final(self).number == old(self).number,
            final(self).extent() == step(
                old(self).extent(),
                BufferStep::ScrollDown,
                viewport_height as nat,
            ),
            old(self).in_range(viewport_height as nat) ==> final(self).in_range(
                viewport_height as nat,
            ),
    {
        let max = self.max_scroll(viewport_height);
        if self.scroll_offset < max {
            self.scroll_offset = self.scroll_offset + 1;
        }
    }

    /// Scrolls to the first line.
    pub fn scroll_top(&mut self)
        ensures
            final(self).scroll_offset == 0,
            final(self).lines == old(self).lines,
            final(self).number == old(self).number,
            forall|height: nat|
                final(self).extent() == #[trigger] step(
                    old(self).extent(),
                    BufferStep::ScrollTop,
                    height,
                ),
            forall|height: nat| final(self).in_range(height),
    {
        self.scroll_offset = 0;
    }

    /// Scrolls so far down that the viewport ends with the last line.
    pub fn scroll_bottom(&mut self, viewport_height: usize)
        ensures
            final(self).scroll_offset == max_scroll(
                old(self).lines@.len(),
                viewport_height as nat,
            ),
            final(self).lines == old(self).lines,
            final(self).number == old(self).number,
            final(self).extent() == step(
                old(self).extent(),
                BufferStep::ScrollBottom,
                viewport_height as nat,
            ),
            final(self).in_range(viewport_height as nat),
    {
        self.scroll_offset = self.max_scroll(viewport_height);
    }
}

/// One change to a buffer: a line added or a scroll.
pub ghost enum BufferStep {
    Append,
    ScrollUp,
    ScrollDown,
    ScrollTop,
    ScrollBottom,
}

/// The number of lines and the scroll offset of a buffer.
pub ghost struct Extent {
    pub len: nat,
    pub offset: nat,
}

/// The extent of a buffer after one step in a viewport of `height` rows, as
/// the operations of `IterationBuffer` leave it.
pub open spec fn step(before: Extent, op: BufferStep, height: nat) -> Extent {
    match op {
        BufferStep::Append => Extent { len: before.len + 1, offset: before.offset },
        BufferStep::ScrollUp => Extent {
            len: before.len,
            offset: if before.offset > 0 {
                (before.offset - 1) as nat
            } else {
                0
            },
        },
        BufferStep::ScrollDown => Extent {
            len: before.len,
            offset: if before.offset < max_scroll(before.len, height) {
                before.offset + 1
            } else {
                before.offset
            },
        },
        BufferStep::ScrollTop => Extent { len: before.len, offset: 0 },
        BufferStep::ScrollBottom => Extent {
            len: before.len,
            offset: max_scroll(before.len, height),
        },
    }
}

/// The extent of a buffer after a sequence of steps.
pub open spec fn run(start: Extent, ops: Seq<BufferStep>, height: nat) -> Extent
    decreases ops.len(),
{
    if ops.len() == 0 {
        start
    } else {
        step(run(start, ops.drop_last(), height), ops.last(), height)
    }
}

/// A step keeps the scroll offset within what the viewport allows.
pub proof fn lemma_step_in_range(before: Extent, op: BufferStep, height: nat)
    requires
        before.offset <= max_scroll(before.len, height),
    ensures
        step(before, op, height).offset <= max_scroll(step(before, op, height).len, height),
{
}

/// After any sequence of appends and scrolls on a new buffer, seen through
/// a viewport of one height, the scroll offset is at most the number of
/// lines less the viewport's height, and at most 0 where fewer lines than
/// rows are held.
pub proof fn lemma_scroll_stays_in_range(ops: Seq<BufferStep>, height: nat)
    ensures
        run(Extent { len: 0, offset: 0 }, ops, height).offset <= max_scroll(
            run(Extent { len: 0, offset: 0 }, ops, height).len,
            height,
        ),
    decreases ops.len(),
{
    if ops.len() > 0 {
        lemma_scroll_stays_in_range(ops.drop_last(), height);
        lemma_step_in_range(
            run(Extent { len: 0, offset: 0 }, ops.drop_last(), height),
            ops.last(),
            height,
        );
    }
}

/// Where the scroll offset is in range, the viewport is full or shows all
/// lines: the window starts at the offset and ends with the last line it
/// has room for.
pub proof fn lemma_window_in_range<T>(lines: Seq<T>, offset: nat, height: nat)
    requires
        offset <= max_scroll(lines.len(), height),
    ensures
        window(lines, offset, height).len() == (if lines.len() < height {
            lines.len()
        } else {
            height
        }),
        forall|k: int|
            0 <= k < window(lines, offset, height).len() ==> window(lines, offset, height)[k]
                == lines[offset + k],
{
}

/// The search that the dashboard is running, if any.
#[derive(Debug, Clone)]
pub struct SearchState {
    /// The text searched for.
    pub query: Option<String>,
    /// Where it was found: line index and column of each match, in order.
    pub matches: Vec<(usize, usize)>,
    /// The index in `matches` of the match that is selected.
    pub current_match: usize,
}

impl SearchState {
    /// The state without a search.
    pub fn new() -> (state: Self)
        ensures
            state.query is None,
            state.matches@.len() == 0,
            state.current_match == 0,
    {
        SearchState { query: None, matches: Vec::new(), current_match: 0 }
    }
}

/// How long after an event, in milliseconds, the session still counts as
/// active.
pub const ACTIVE_WINDOW_MS: u64 = 2000;

/// What the dashboard knows of the session and of its own view.
#[derive(Debug, Clone)]
pub struct TuiState {
    /// The search in progress.
    pub search_state: SearchState,
    /// The text typed at the search prompt.
    pub search_query: String,
    /// Whether the prompt searches forward.
    pub search_forward: bool,
    /// The topic of the last event.
    pub last_event: Option<String>,
    /// How long ago the last event arrived, in milliseconds.
    pub last_event_age_ms: Option<u64>,
    /// The persona that is about to act, by identifier and display name;
    /// none once the task is concluded.
    pub pending_hat: Option<(String, String)>,
    /// Whether the view follows the newest iteration.
    pub following_latest: bool,
    /// The number of an iteration that arrived while an older one is viewed.
    pub new_iteration_alert: Option<usize>,
}

impl TuiState {
    /// The state of a dashboard that has seen nothing yet.
    pub fn new() -> (state: Self)
        ensures
            state.search_state.query is None,
            state.search_state.matches@.len() == 0,
            state.search_state.current_match == 0,
            state.search_query@.len() == 0,
            state.search_forward,
            state.last_event is None,
            state.last_event_age_ms is None,
            state.pending_hat is None,
            state.following_latest,
            state.new_iteration_alert is None,
    {
        TuiState {
            search_state: SearchState::new(),
            search_query: String::new(),
            search_forward: true,
            last_event: None,
            last_event_age_ms: None,
            pending_hat: None,
            following_latest: true,
            new_iteration_alert: None,
        }
    }

    /// Whether an event arrived within the last two seconds.
    pub open spec fn spec_is_active(&self) -> bool {
        match self.last_event_age_ms {
            Some(age) => age < ACTIVE_WINDOW_MS,
            None => false,
        }
    }

    /// Whether an event arrived within the last two seconds.
    #[verifier::when_used_as_spec(spec_is_active)]
    pub fn is_active(&self) -> (active: bool)
        ensures
            active == self.spec_is_active(),
    {
        match self.last_event_age_ms {
            Some(age) => age < ACTIVE_WINDOW_MS,
            None => false,
        }
    }
}

} // verus!
