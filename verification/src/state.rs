//! The selector state machine.
//!
//! A [`State`] owns the candidate snapshot (session identifiers and their
//! display labels), the editable pattern with its cursor, the current ranked
//! match list, and the viewport position. Editing commands re-run the matcher
//! and reset the viewport; navigation commands move the selection circularly.
//! Commands that would switch the active session do not perform the switch:
//! they return a [`SwitchDirective`] that the embedding program carries out.

use vstd::prelude::*;

use crate::matcher::{
    entries_of, entry_of, match_list, match_positions_spec, spec_rank, MatchResult,
};
use crate::strings::{chars_eq, chars_to_string};

verus! {

/// What the embedding program should do after a command: switch to the
/// candidate at `target_index`, first persisting the initially active session
/// as "last" when `save_initial_as_last` is set.
#[derive(Clone, Copy, Debug, PartialEq, Eq, Structural)]
pub struct SwitchDirective {
    pub target_index: usize,
    pub save_initial_as_last: bool,
}

/// The selector's whole interactive state for one invocation.
pub struct State {
    pub session_ids: Vec<Vec<char>>,
    pub session_paths: Vec<Vec<char>>,
    pub initial_session_id: Option<Vec<char>>,
    pub pattern: Vec<char>,
    pub matches: Vec<MatchResult>,
    pub cursor_pos: usize,
    pub scroll_pos: usize,
    pub selection_pos: usize,
}

impl State {
    /// The candidate labels, as character sequences.
    pub open spec fn labels_view(&self) -> Seq<Seq<char>> {
        self.session_paths.deep_view()
    }

    /// Well-formedness: the candidate vectors run in parallel, the cursor
    /// stays inside the pattern, the match list is exactly the matcher's
    /// ranked list for the current pattern, and selection and scroll positions
    /// are inside the match list.
    pub open spec fn wf(&self) -> bool {
        &&& self.session_ids@.len() == self.session_paths@.len()
        &&& self.session_paths@.len() < usize::MAX / 2
        &&& self.cursor_pos <= self.pattern@.len()
        &&& entries_of(self.matches@) == spec_rank(
            self.pattern@,
            self.labels_view(),
            self.session_paths@.len() as int,
        )
        &&& forall|k: int|
            0 <= k < self.matches@.len() ==> (
            #[trigger] self.matches@[k]).matched_positions@.map_values(|x: usize| x as int)
                == match_positions_spec(
                self.pattern@,
                self.labels_view()[self.matches@[k].candidate_index as int],
            )
        &&& forall|k: int|
            0 <= k < self.matches@.len() ==> (#[trigger] self.matches@[k]).candidate_index
                < self.session_paths@.len()
        &&& self.matches@.len() <= self.session_paths@.len()
        &&& (self.matches@.len() > 0 ==> self.selection_pos < self.matches@.len())
        &&& (self.matches@.len() == 0 ==> self.selection_pos == 0)
        &&& self.scroll_pos <= self.matches@.len()
    }

    /// The candidate snapshot is untouched by a command.
    pub open spec fn candidates_unchanged(a: &State, b: &State) -> bool {
        &&& b.session_ids == a.session_ids
        &&& b.session_paths == a.session_paths
        &&& b.initial_session_id == a.initial_session_id
    }

    /// The candidate index of the currently selected match.
    pub open spec fn selected_index(&self) -> int {
        self.matches@[self.selection_pos as int].candidate_index as int
    }

    /// The directive a switch-causing command returns: none when nothing
    /// matches; otherwise the selected candidate, persisting the initial
    /// session only when asked to and when the switch would actually leave
    /// it.
    pub open spec fn switch_directive_spec(&self, save_initial_as_last: bool) -> Option<
        SwitchDirective,
    > {
        if self.matches@.len() == 0 {
            None
        } else {
            Some(
                SwitchDirective {
                    target_index: self.matches@[self.selection_pos as int].candidate_index,
                    save_initial_as_last: save_initial_as_last
                        && (self.initial_session_id matches Some(id) && id@
                        != self.session_ids@[self.selected_index()]@),
                },
            )
        }
    }

    /// Builds the selector state for one invocation: a snapshot of session
    /// identifiers with their display labels, and the identifier of the
    /// session that was active when the selector opened. The pattern starts
    /// empty, so every candidate matches, in original order.
    pub fn new(
        session_ids: Vec<Vec<char>>,
        session_paths: Vec<Vec<char>>,
        initial_session_id: Option<Vec<char>>,
    ) -> (r: State)
        requires
            session_ids@.len() == session_paths@.len(),
            session_paths@.len() < usize::MAX / 2,
        ensures
            r.wf(),
            r.session_ids == session_ids,
            r.session_paths == session_paths,
            r.initial_session_id == initial_session_id,
            r.pattern@ == Seq::<char>::empty(),
            r.cursor_pos == 0,
            r.scroll_pos == 0,
            r.selection_pos == 0,
            r.matches@.len() == session_paths@.len(),
            forall|k: int|
                0 <= k < r.matches@.len() ==> (#[trigger] r.matches@[k]).candidate_index == k
                    && r.matches@[k].score == 0,
    {
        let pattern: Vec<char> = Vec::new();
        let matches = match_list(&pattern, &session_paths);
        proof {
            let lv = session_paths.deep_view();
            let n = session_paths@.len() as int;
            crate::matcher::lemma_empty_pattern_identity(lv, n);
            assert(entries_of(matches@).len() == matches@.len());
            assert forall|k: int|
                0 <= k < matches@.len() implies (#[trigger] matches@[k]).candidate_index == k
                && matches@[k].score == 0 by {
                assert(entries_of(matches@)[k] == entry_of(matches@[k]));
                assert(entries_of(matches@)[k] == (k, 0int));
            }
        }
        State {
            session_ids,
            session_paths,
            initial_session_id,
            pattern,
            matches,
            cursor_pos: 0,
            scroll_pos: 0,
            selection_pos: 0,
        }
    }

    /// How many candidates the selector was opened with.
    pub fn sessions_len(&self) -> (r: usize)
        ensures
            r == self.session_ids@.len(),
    {
        self.session_ids.len()
    }

    /// The display label of the candidate at `i`, when there is one.
    pub fn get_session_path_by_index(&self, i: usize) -> (r: Option<&Vec<char>>)
        ensures
            (r is Some) == (i < self.session_paths@.len()),
            r matches Some(p) ==> p@ == self.labels_view()[i as int],
    {
        if i < self.session_paths.len() {
            Some(&self.session_paths[i])
        } else {
            None
        }
    }

    /// The pattern as typed so far.
    pub fn pattern_string(&self) -> (r: String)
        ensures
            r@ == self.pattern@,
    {
        chars_to_string(&self.pattern)
    }

    /// Where the editing cursor stands within the pattern.
    pub fn cursor_pos(&self) -> (r: usize)
        ensures
            r == self.cursor_pos,
    {
        self.cursor_pos
    }

    /// How many candidates match the current pattern.
    pub fn matches_len(&self) -> (r: usize)
        ensures
            r == self.matches@.len(),
    {
        self.matches.len()
    }

    /// The end (exclusive) of the visible window of at most `count` rows.
    pub open spec fn visible_end(&self, count: int) -> int {
        if self.scroll_pos + count > self.matches@.len() {
            self.matches@.len() as int
        } else {
            self.scroll_pos + count
        }
    }

    /// The slice of the ranked list currently scrolled into view: at most
    /// `count` results starting at the scroll position.
    pub fn visible_matches(&self, count: usize) -> (r: &[MatchResult])
        requires
            self.wf(),
        ensures
            r@ == self.matches@.subrange(self.scroll_pos as int, self.visible_end(count as int)),
    {
        let end = if count > self.matches.len() - self.scroll_pos {
            self.matches.len()
        } else {
            self.scroll_pos + count
        };
        vstd::slice::slice_subrange(self.matches.as_slice(), self.scroll_pos, end)
    }

    /// Moves the editing cursor one character left, stopping at the pattern
    /// start.
    pub fn cursor_backward(&mut self)
        ensures
            final (self).cursor_pos == if old(self).cursor_pos > 0 {
                (old(self).cursor_pos - 1) as int
            } else {
                0
            },
            State::candidates_unchanged(old(self), final (self)),
            final (self).pattern == old(self).pattern,
            final (self).matches == old(self).matches,
            final (self).scroll_pos == old(self).scroll_pos,
            final (self).selection_pos == old(self).selection_pos,
            old(self).wf() ==> final (self).wf(),
    {
        if self.cursor_pos > 0 {
            self.cursor_pos = self.cursor_pos - 1;
        }
    }

    /// Moves the editing cursor one character right, stopping at the pattern
    /// end.
    pub fn cursor_forward(&mut self)
        ensures
            final (self).cursor_pos == if old(self).cursor_pos < old(self).pattern@.len() {
                old(self).cursor_pos + 1
            } else {
                old(self).cursor_pos as int
            },
            State::candidates_unchanged(old(self), final (self)),
            final (self).pattern == old(self).pattern,
            final (self).matches == old(self).matches,
            final (self).scroll_pos == old(self).scroll_pos,
            final (self).selection_pos == old(self).selection_pos,
            old(self).wf() ==> final (self).wf(),
    {
        if self.cursor_pos < self.pattern.len() {
            self.cursor_pos = self.cursor_pos + 1;
        }
    }

    /// The match list was rebuilt for the final pattern and the viewport was
    /// reset to the top.
    pub open spec fn rematched(a: &State, b: &State) -> bool {
        &&& State::candidates_unchanged(a, b)
        &&& b.scroll_pos == 0
        &&& b.selection_pos == 0
        &&& entries_of(b.matches@) == spec_rank(
            b.pattern@,
            b.labels_view(),
            b.session_paths@.len() as int,
        )
    }

    /// Re-runs the matcher on the current pattern and resets the viewport —
    /// the shared tail of every editing command.
    fn match_sessions(&mut self)
        requires
            old(self).session_ids@.len() == old(self).session_paths@.len(),
            old(self).session_paths@.len() < usize::MAX / 2,
            old(self).cursor_pos <= old(self).pattern@.len(),
        ensures
            final (self).wf(),
            State::rematched(old(self), final (self)),
            final (self).pattern == old(self).pattern,
            final (self).cursor_pos == old(self).cursor_pos,
    {
        self.scroll_pos = 0;
        self.selection_pos = 0;
        self.matches = match_list(&self.pattern, &self.session_paths);
        proof {
            crate::matcher::lemma_spec_rank_props(
                self.pattern@,
                self.labels_view(),
                self.session_paths@.len() as int,
            );
            assert(entries_of(self.matches@).len() == self.matches@.len());
            assert(forall|i: int|
                0 <= i < self.session_paths@.len() ==> self.labels_view()[i]
                    == #[trigger] self.session_paths@[i]@);
        }
    }

    /// Inserts a character at the cursor, advances the cursor, and re-runs
    /// the matcher.
    pub fn char_add(&mut self, c: char)
        requires
            old(self).wf(),
        ensures
            final (self).wf(),
            final (self).pattern@ == old(self).pattern@.insert(old(self).cursor_pos as int, c),
            final (self).cursor_pos == old(self).cursor_pos + 1,
            State::rematched(old(self), final (self)),
    {
        self.pattern.insert(self.cursor_pos, c);
        let pattern_len: usize = self.pattern.len();
        proof {
            assert(self.cursor_pos < pattern_len);
        }
        self.cursor_pos = self.cursor_pos + 1;
        self.match_sessions();
    }

    /// Removes the character before the cursor, if any, and re-runs the
    /// matcher; at the pattern start it does nothing.
    pub fn char_delete_backward(&mut self)
        requires
            old(self).wf(),
        ensures
            final (self).wf(),
            old(self).cursor_pos > 0 ==> {
                &&& final (self).pattern@ == old(self).pattern@.remove(
                    old(self).cursor_pos - 1 as int,
                )
                &&& final (self).cursor_pos == old(self).cursor_pos - 1
                &&& State::rematched(old(self), final (self))
            },
            old(self).cursor_pos == 0 ==> *final (self) == *old(self),
    {
        if self.cursor_pos > 0 {
            self.pattern.remove(self.cursor_pos - 1);
            self.cursor_pos = self.cursor_pos - 1;
            self.match_sessions();
        }
    }

    /// Removes the character at the cursor, if any, and re-runs the matcher;
    /// at the pattern end it does nothing.
    pub fn char_delete_forward(&mut self)
        requires
            old(self).wf(),
        ensures
            final (self).wf(),
            old(self).cursor_pos < old(self).pattern@.len() ==> {
                &&& final (self).pattern@ == old(self).pattern@.remove(old(self).cursor_pos as int)
                &&& final (self).cursor_pos == old(self).cursor_pos
                &&& State::rematched(old(self), final (self))
            },
            old(self).cursor_pos >= old(self).pattern@.len() ==> *final (self) == *old(self),
    {
        if self.cursor_pos < self.pattern.len() {
            self.pattern.remove(self.cursor_pos);
            self.match_sessions();
        }
    }

    /// Re-aligns the scroll position so the selected row stays visible in a
    /// window of `item_count` rows, keeping `scrolloff` rows of context: it
    /// snaps to the list edges when the selection is within `scrolloff` of
    /// them, and otherwise follows the selection one row at a time.
    pub fn adjust_scroll_pos(&mut self, item_count: usize, scrolloff: usize)
        requires
            old(self).wf(),
        ensures
            final (self).wf(),
            final (self).scroll_pos == spec_adjust_scroll(
                old(self).matches@.len() as int,
                item_count as int,
                scrolloff as int,
                old(self).scroll_pos as int,
                old(self).selection_pos as int,
            ),
            State::candidates_unchanged(old(self), final (self)),
            final (self).pattern == old(self).pattern,
            final (self).cursor_pos == old(self).cursor_pos,
            final (self).matches == old(self).matches,
            final (self).selection_pos == old(self).selection_pos,
    {
        if item_count == 0 || item_count >= self.matches.len() {
            return ;
        }
        let mut so = scrolloff;
        let cap = (item_count - 1) / 2;
        if so > cap {
            so = cap;
        }
        let len = self.matches.len();
        if self.selection_pos < so {
            self.scroll_pos = 0;
        } else if self.selection_pos >= len - so {
            self.scroll_pos = len - item_count;
        } else if self.selection_pos < self.scroll_pos + so {
            self.scroll_pos = self.scroll_pos - 1;
        } else if self.selection_pos >= self.scroll_pos + item_count - so {
            self.scroll_pos = self.scroll_pos + 1;
        }
    }

    /// Moves the selection one row up the ranked list, wrapping from the
    /// first result to the last, and returns the preview-switch directive for
    /// the newly selected candidate.
    pub fn selection_prev(&mut self) -> (r: Option<SwitchDirective>)
        requires
            old(self).wf(),
            old(self).matches@.len() > 0,
        ensures
            final (self).wf(),
            final (self).selection_pos == (old(self).selection_pos + old(self).matches@.len() - 1)
                % (old(self).matches@.len() as int),
            State::candidates_unchanged(old(self), final (self)),
            final (self).pattern == old(self).pattern,
            final (self).cursor_pos == old(self).cursor_pos,
            final (self).matches == old(self).matches,
            final (self).scroll_pos == old(self).scroll_pos,
            r == final (self).switch_directive_spec(false),
    {
        let len = self.matches.len();
        self.selection_pos = (self.selection_pos + len - 1) % len;
        self.switch_session(false)
    }

    /// Moves the selection one row down the ranked list, wrapping from the
    /// last result to the first, and returns the preview-switch directive for
    /// the newly selected candidate.
    pub fn selection_next(&mut self) -> (r: Option<SwitchDirective>)
        requires
            old(self).wf(),
            old(self).matches@.len() > 0,
        ensures
            final (self).wf(),
            final (self).selection_pos == (old(self).selection_pos + 1) % (
            old(self).matches@.len() as int),
            State::candidates_unchanged(old(self), final (self)),
            final (self).pattern == old(self).pattern,
            final (self).cursor_pos == old(self).cursor_pos,
            final (self).matches == old(self).matches,
            final (self).scroll_pos == old(self).scroll_pos,
            r == final (self).switch_directive_spec(false),
    {
        self.selection_pos = (self.selection_pos + 1) % self.matches.len();
        self.switch_session(false)
    }

    /// Whether the visible row `i` (counted from the top of the window) is
    /// the selected one.
    pub fn is_selected(&self, i: usize) -> (r: bool)
        ensures
            r == (self.selection_pos >= self.scroll_pos && i + self.scroll_pos
                == self.selection_pos),
    {
        self.selection_pos >= self.scroll_pos && i == self.selection_pos - self.scroll_pos
    }

    /// The candidate index of the selected match, or none when nothing
    /// matches.
    pub fn get_selected_session(&self) -> (r: Option<usize>)
        requires
            self.wf(),
        ensures
            (r is Some) == (self.matches@.len() > 0),
            r matches Some(i) ==> i == self.selected_index() && i < self.session_ids@.len(),
    {
        if self.matches.is_empty() {
            None
        } else {
            Some(self.matches[self.selection_pos].candidate_index)
        }
    }

    /// Decides the switch a command asks for: the selected candidate when
    /// anything matches, persisting the initial session as "last" only when
    /// `save_initial_as_last` is set and the selected candidate is a
    /// different session.
    pub fn switch_session(&self, save_initial_as_last: bool) -> (r: Option<SwitchDirective>)
        requires
            self.wf(),
        ensures
            r == self.switch_directive_spec(save_initial_as_last),
    {
        if self.matches.is_empty() {
            return None;
        }
        let idx = self.matches[self.selection_pos].candidate_index;
        let save = save_initial_as_last && match &self.initial_session_id {
            Some(id) => !chars_eq(id, &self.session_ids[idx]),
            None => false,
        };
        Some(SwitchDirective { target_index: idx, save_initial_as_last: save })
    }

    /// Confirms the selection: reports whether anything was selected, and
    /// returns the switch directive for the selected candidate — none when
    /// the match list is empty, so confirming an empty list switches nothing.
    pub fn confirm(&self) -> (r: (bool, Option<SwitchDirective>))
        requires
            self.wf(),
        ensures
            r.0 == (self.matches@.len() > 0),
            r.1 == self.switch_directive_spec(true),
            self.matches@.len() == 0 ==> r.1 is None,
    {
        let directive = self.switch_session(true);
        (!self.matches.is_empty(), directive)
    }

    /// Aborts the selector: returns the identifier of the initially active
    /// session to switch back to, when one was recorded.
    pub fn abort(&self) -> (r: Option<&Vec<char>>)
        ensures
            (r is Some) == (self.initial_session_id is Some),
            r matches Some(v) ==> self.initial_session_id matches Some(w) && v == w,
    {
        match &self.initial_session_id {
            Some(id) => Some(id),
            None => None,
        }
    }
}

pub open spec fn spec_min(a: int, b: int) -> int {
    if a < b {
        a
    } else {
        b
    }
}

/// The scroll position after one re-alignment of a window of `item_count`
/// rows over a list of `len` rows, with `scrolloff` rows of context: no
/// change when the whole list fits, a snap to the edge when the selection is
/// within the (clamped) scrolloff of either end, otherwise a one-row step
/// toward the selection when it presses against the window's soft margin.
pub open spec fn spec_adjust_scroll(
    len: int,
    item_count: int,
    scrolloff: int,
    scroll: int,
    sel: int,
) -> int {
    if item_count == 0 || item_count >= len {
        scroll
    } else {
        let so = spec_min(scrolloff, (item_count - 1) / 2);
        if sel < so {
            0
        } else if sel >= len - so {
            len - item_count
        } else if sel < scroll + so {
            scroll - 1
        } else if sel >= scroll + item_count - so {
            scroll + 1
        } else {
            scroll
        }
    }
}

/// One selection step of the navigation commands: a move to a neighbouring
/// row, staying put, or — when at least one row of context is asked for and
/// the window spans at least three rows — the wrap between the first and the
/// last row.
pub open spec fn one_selection_step(
    len: int,
    item_count: int,
    scrolloff: int,
    sel_old: int,
    sel_new: int,
) -> bool {
    ||| sel_new == sel_old + 1
    ||| sel_new == sel_old - 1
    ||| sel_new == sel_old
    ||| (sel_old == len - 1 && sel_new == 0 && scrolloff >= 1 && item_count >= 3)
    ||| (sel_old == 0 && sel_new == len - 1 && scrolloff >= 1 && item_count >= 3)
}

/// Law: once the selection is inside the window, one re-alignment after any
/// single selection step keeps it inside the window. (With no context rows, a
/// wrap from the last row can land outside a window scrolled to the far end
/// of a long list: the one-row follow cannot catch a jump to the top.)
pub proof fn lemma_scroll_keeps_selection_visible(
    len: int,
    item_count: int,
    scrolloff: int,
    scroll: int,
    sel_old: int,
    sel_new: int,
)
    requires
        1 <= item_count < len,
        0 <= scrolloff,
        0 <= scroll,
        scroll <= sel_old < scroll + item_count,
        sel_old < len,
        0 <= sel_new < len,
        one_selection_step(len, item_count, scrolloff, sel_old, sel_new),
    ensures
        spec_adjust_scroll(len, item_count, scrolloff, scroll, sel_new) <= sel_new
            < spec_adjust_scroll(len, item_count, scrolloff, scroll, sel_new) + item_count,
{
    let so = spec_min(scrolloff, (item_count - 1) / 2);
    assert(0 <= so);
    assert(2 * ((item_count - 1) / 2) <= item_count - 1);
    assert(so <= item_count - 1);
}

/// Law: however the pattern got there, once it is empty again — typed and
/// then fully deleted, say — a well-formed state shows every candidate, in
/// original order, with score zero.
pub proof fn lemma_empty_pattern_full_list(s: State)
    requires
        s.wf(),
        s.pattern@.len() == 0,
    ensures
        s.matches@.len() == s.session_paths@.len(),
        forall|k: int|
            0 <= k < s.matches@.len() ==> entry_of(#[trigger] s.matches@[k]) == (k, 0int),
{
    assert(s.pattern@ =~= Seq::<char>::empty());
    crate::matcher::lemma_empty_pattern_identity(s.labels_view(), s.session_paths@.len() as int);
    assert(entries_of(s.matches@).len() == s.matches@.len());
    assert forall|k: int| 0 <= k < s.matches@.len() implies entry_of(#[trigger] s.matches@[k]) == (
    k,
    0int,
    ) by {
        assert(entries_of(s.matches@)[k] == entry_of(s.matches@[k]));
    }
}

/// The selection position after one step down a ranked list of `len` rows.
pub open spec fn next_selection(sel: int, len: int) -> int {
    (sel + 1) % len
}

/// The selection position after `k` steps down a ranked list of `len` rows.
pub open spec fn iterate_next_selection(sel: int, len: int, k: nat) -> int
    decreases k,
{
    if k == 0 {
        sel
    } else {
        next_selection(iterate_next_selection(sel, len, (k - 1) as nat), len)
    }
}

proof fn lemma_iterate_next_mod(sel: int, len: int, k: nat)
    requires
        0 <= sel < len,
    ensures
        iterate_next_selection(sel, len, k) == (sel + k) % len,
    decreases k,
{
    if k == 0 {
        vstd::arithmetic::div_mod::lemma_small_mod(sel as nat, len as nat);
    } else {
        lemma_iterate_next_mod(sel, len, (k - 1) as nat);
        vstd::arithmetic::div_mod::lemma_add_mod_noop_right(1, sel + k - 1, len);
    }
}

/// Law: stepping the selection forward exactly `len` times returns it to
/// where it started.
pub proof fn lemma_selection_wraps(sel: int, len: int)
    requires
        0 <= sel < len,
    ensures
        iterate_next_selection(sel, len, len as nat) == sel,
{
    lemma_iterate_next_mod(sel, len, len as nat);
    vstd::arithmetic::div_mod::lemma_mod_add_multiples_vanish(sel, len);
    vstd::arithmetic::div_mod::lemma_small_mod(sel as nat, len as nat);
}

} // verus!
