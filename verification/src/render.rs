//! A pure model of the selector's two-pane terminal layout.
//!
//! Rendering is a projection of the selector state: a list pane showing the
//! visible window of ranked results — each label character flagged when the
//! matcher matched it, each row flagged when it is the selected one — and a
//! prompt pane showing the live pattern, the cursor position, and a match
//! counter. The single state effect of rendering is the scroll re-alignment,
//! which runs exactly once before the window is sliced. Turning the model
//! into styled terminal cells is the embedding program's concern; the list
//! direction toggle is recorded but never changes the windowing math.

use vstd::prelude::*;

use crate::matcher::MatchResult;
use crate::state::{spec_adjust_scroll, State};
use crate::strings::{chars_to_string, spec_stats, stats_text};

verus! {

/// One visible row of the result list. Each cell pairs a label character
/// with whether the matcher matched it.
pub struct ResultRow {
    pub candidate_index: usize,
    pub cells: Vec<(char, bool)>,
    pub selected: bool,
}

/// The prompt pane: the live pattern, where the cursor stands in it, and the
/// match counter.
pub struct PromptModel {
    pub pattern: String,
    pub cursor_pos: usize,
    pub stats: String,
}

/// Everything one frame draws.
pub struct RenderModel {
    pub rows: Vec<ResultRow>,
    pub prompt: PromptModel,
    pub inverted: bool,
}

/// Whether the matcher matched the label character at offset `j` of this
/// result.
pub open spec fn position_matched(m: MatchResult, j: int) -> bool {
    exists|t: int| 0 <= t < m.matched_positions@.len() && m.matched_positions@[t] == j
}

/// The `k`-th visible row faithfully projects the `k`-th match of the window:
/// same candidate, one cell per label character, match flags from the witness
/// positions, and the selection flag exactly on the selected row.
pub open spec fn row_view_ok(s: &State, row: ResultRow, k: int) -> bool {
    let m = s.matches@[s.scroll_pos + k];
    let label = s.labels_view()[m.candidate_index as int];
    &&& row.candidate_index == m.candidate_index
    &&& row.selected == (s.scroll_pos + k == s.selection_pos)
    &&& row.cells@.len() == label.len()
    &&& forall|j: int|
        0 <= j < row.cells@.len() ==> (#[trigger] row.cells@[j]).0 == label[j]
            && row.cells@[j].1 == position_matched(m, j)
}

/// Whether `positions` holds the offset `j`.
fn contains_position(positions: &Vec<usize>, j: usize) -> (r: bool)
    ensures
        r == exists|t: int| 0 <= t < positions@.len() && positions@[t] == j,
{
    let mut i: usize = 0;
    while i < positions.len()
        invariant
            i <= positions@.len(),
            forall|t: int| 0 <= t < i ==> positions@[t] != j,
        decreases positions@.len() - i,
    {
        if positions[i] == j {
            return true;
        }
        i = i + 1;
    }
    false
}

/// Projects one label into render cells, flagging the matched offsets.
fn build_row_cells(label: &Vec<char>, positions: &Vec<usize>) -> (r: Vec<(char, bool)>)
    ensures
        r@.len() == label@.len(),
        forall|j: int|
            0 <= j < label@.len() ==> (#[trigger] r@[j]).0 == label@[j] && r@[j].1 == (exists|
                t: int,
            | 0 <= t < positions@.len() && positions@[t] == j),
{
    let mut cells: Vec<(char, bool)> = Vec::new();
    let mut j: usize = 0;
    while j < label.len()
        invariant
            j <= label@.len(),
            cells@.len() == j,
            forall|t: int|
                0 <= t < j ==> (#[trigger] cells@[t]).0 == label@[t] && cells@[t].1 == (exists|
                    u: int,
                | 0 <= u < positions@.len() && positions@[u] == t),
        decreases label@.len() - j,
    {
        let matched = contains_position(positions, j);
        cells.push((label[j], matched));
        j = j + 1;
    }
    cells
}

impl State {
    /// Builds the draw model of one frame: re-aligns the scroll window (the
    /// single state effect of rendering, run exactly once before the window
    /// is sliced), then projects the visible results and the prompt line.
    pub fn render_model(&mut self, item_count: usize, scrolloff: usize, inverted: bool) -> (r:
        RenderModel)
        requires
            old(self).wf(),
        ensures
            final (self).wf(),
            final (self).scroll_pos == spec_adjust_scroll(
                old(self).matches@.len() as int,
                item_count as int,
                scrolloff as int,
                old(self).scroll_pos as int,
                old(self).selection_pos as int,
            ),
            State::candidates_unchanged(old(self), final (self)),
            final (self).pattern == old(self).pattern,
            final (self).cursor_pos == old(self).cursor_pos,
            final (self).matches == old(self).matches,
            final (self).selection_pos == old(self).selection_pos,
            r.inverted == inverted,
            r.prompt.pattern@ == final (self).pattern@,
            r.prompt.cursor_pos == final (self).cursor_pos,
            r.prompt.stats@ == spec_stats(
                final (self).matches@.len() as nat,
                final (self).session_ids@.len() as nat,
            ),
            r.rows@.len() == final (self).visible_end(item_count as int) - final (self).scroll_pos,
            forall|k: int|
                0 <= k < r.rows@.len() ==> row_view_ok(final (self), #[trigger] r.rows@[k], k),
    {
        self.adjust_scroll_pos(item_count, scrolloff);
        let scroll = self.scroll_pos;
        let end = if item_count > self.matches.len() - scroll {
            self.matches.len()
        } else {
            scroll + item_count
        };
        let mut rows: Vec<ResultRow> = Vec::new();
        let mut k: usize = 0;
        while k < end - scroll
            invariant
                self.wf(),
                scroll == self.scroll_pos,
                scroll <= end <= self.matches@.len(),
                k <= end - scroll,
                rows@.len() == k,
                forall|t: int| 0 <= t < k ==> row_view_ok(self, #[trigger] rows@[t], t),
            decreases end - scroll - k,
        {
            let m = &self.matches[scroll + k];
            let ghost mm = self.matches@[scroll + k];
            let idx = m.candidate_index;
            let label = &self.session_paths[idx];
            proof {
                assert(self.labels_view()[idx as int] == self.session_paths@[idx as int]@);
            }
            let selected = scroll + k == self.selection_pos;
            let cells = build_row_cells(label, &m.matched_positions);
            rows.push(ResultRow { candidate_index: idx, cells, selected });
            k = k + 1;
        }
        let prompt = PromptModel {
            pattern: chars_to_string(&self.pattern),
            cursor_pos: self.cursor_pos,
            stats: stats_text(self.matches.len(), self.session_ids.len()),
        };
        RenderModel { rows, prompt, inverted }
    }
}

} // verus!
