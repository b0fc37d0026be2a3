//! Fuzzy matching of a pattern against candidate labels.
//!
//! A candidate label matches a pattern exactly when the pattern's characters
//! occur, in order but not necessarily contiguously, within the label, under
//! ASCII-case-insensitive comparison. The matcher records the witness
//! positions chosen greedily from the left, scores each match (rewarding
//! contiguous runs and word-boundary hits, penalising long labels), and
//! returns the matching candidates sorted by score, ties broken by the
//! original candidate order.

use vstd::prelude::*;

verus! {

/// ASCII case folding: uppercase letters map to lowercase, everything else is
/// unchanged.
pub open spec fn fold_char(c: char) -> char {
    if 'A' <= c && c <= 'Z' {
        ((c as u8) + 32) as char
    } else {
        c
    }
}

/// Executable ASCII case folding.
pub fn fold_char_exec(c: char) -> (r: char)
    ensures
        r == fold_char(c),
{
    if 'A' <= c && c <= 'Z' {
        ((c as u8) + 32) as char
    } else {
        c
    }
}

/// Whether the pattern suffix starting at `pi` occurs, in order and case
/// folded, within the label suffix starting at `li`, scanning greedily from
/// the left.
pub open spec fn matches_from(p: Seq<char>, l: Seq<char>, pi: int, li: int) -> bool
    decreases l.len() - li,
{
    if pi >= p.len() {
        true
    } else if li >= l.len() {
        false
    } else if fold_char(p[pi]) == fold_char(l[li]) {
        matches_from(p, l, pi + 1, li + 1)
    } else {
        matches_from(p, l, pi, li + 1)
    }
}

/// Whether the whole pattern occurs, in order and case folded, within the
/// label.
pub open spec fn pattern_matches(p: Seq<char>, l: Seq<char>) -> bool {
    matches_from(p, l, 0, 0)
}

/// The positions in the label at which the greedy left-to-right scan matches
/// the pattern's characters, starting from pattern index `pi` and label index
/// `li`. Meaningful when `matches_from(p, l, pi, li)` holds.
pub open spec fn positions_from(p: Seq<char>, l: Seq<char>, pi: int, li: int) -> Seq<int>
    decreases l.len() - li,
{
    if pi >= p.len() || li >= l.len() {
        Seq::empty()
    } else if fold_char(p[pi]) == fold_char(l[li]) {
        seq![li] + positions_from(p, l, pi + 1, li + 1)
    } else {
        positions_from(p, l, pi, li + 1)
    }
}

/// The witness positions for the whole pattern within the label.
pub open spec fn match_positions_spec(p: Seq<char>, l: Seq<char>) -> Seq<int> {
    positions_from(p, l, 0, 0)
}

/// The greedy witness is a valid in-order subsequence: one position per
/// remaining pattern character, strictly increasing, within the label, and
/// each position carries the corresponding pattern character up to case.
pub proof fn lemma_positions_valid(p: Seq<char>, l: Seq<char>, pi: int, li: int)
    requires
        0 <= pi <= p.len(),
        0 <= li <= l.len(),
        matches_from(p, l, pi, li),
    ensures
        positions_from(p, l, pi, li).len() == p.len() - pi,
        forall|k: int|
            0 <= k < positions_from(p, l, pi, li).len() ==> li <= #[trigger] positions_from(
                p,
                l,
                pi,
                li,
            )[k] < l.len(),
        forall|k: int|
            0 < k < positions_from(p, l, pi, li).len() ==> positions_from(p, l, pi, li)[k - 1]
                < #[trigger] positions_from(p, l, pi, li)[k],
        forall|k: int|
            0 <= k < positions_from(p, l, pi, li).len() ==> fold_char(
                l[#[trigger] positions_from(p, l, pi, li)[k]],
            ) == fold_char(p[pi + k]),
    decreases l.len() - li,
{
    if pi >= p.len() {
    } else if li >= l.len() {
    } else if fold_char(p[pi]) == fold_char(l[li]) {
        lemma_positions_valid(p, l, pi + 1, li + 1);
    } else {
        lemma_positions_valid(p, l, pi, li + 1);
    }
}

/// Finds the greedy witness positions of the pattern within the label, or
/// `None` when the pattern is not an in-order, case-insensitive subsequence
/// of the label.
pub fn match_positions(p: &Vec<char>, l: &Vec<char>) -> (r: Option<Vec<usize>>)
    ensures
        r is Some <==> pattern_matches(p@, l@),
        r matches Some(v) ==> v@.map_values(|x: usize| x as int) == match_positions_spec(p@, l@),
{
    let mut pi: usize = 0;
    let mut li: usize = 0;
    let mut out: Vec<usize> = Vec::new();
    while pi < p.len() && li < l.len()
        invariant
            pi <= p@.len(),
            li <= l@.len(),
            matches_from(p@, l@, 0, 0) == matches_from(p@, l@, pi as int, li as int),
            positions_from(p@, l@, 0, 0) == out@.map_values(|x: usize| x as int) + positions_from(
                p@,
                l@,
                pi as int,
                li as int,
            ),
        decreases l@.len() - li,
    {
        if fold_char_exec(p[pi]) == fold_char_exec(l[li]) {
            let ghost prev = out@;
            out.push(li);
            proof {
                assert(out@.map_values(|x: usize| x as int) =~= prev.map_values(|x: usize| x as int)
                    + seq![li as int]);
                assert(prev.map_values(|x: usize| x as int) + (seq![li as int] + positions_from(
                    p@,
                    l@,
                    pi + 1,
                    li + 1,
                )) =~= (prev.map_values(|x: usize| x as int) + seq![li as int]) + positions_from(
                    p@,
                    l@,
                    pi + 1,
                    li + 1,
                ));
            }
            pi = pi + 1;
            li = li + 1;
        } else {
            li = li + 1;
        }
    }
    if pi == p.len() {
        proof {
            assert(positions_from(p@, l@, pi as int, li as int) =~= Seq::<int>::empty());
            assert(out@.map_values(|x: usize| x as int) + Seq::<int>::empty() =~= out@.map_values(
                |x: usize| x as int,
            ));
        }
        Some(out)
    } else {
        None
    }
}

/// Characters that end a word or path segment: a match right after one of
/// these counts as boundary-aligned.
pub open spec fn is_separator(c: char) -> bool {
    c == '/' || c == '_' || c == '-'
}

pub open spec fn is_ascii_lower(c: char) -> bool {
    'a' <= c && c <= 'z'
}

pub open spec fn is_ascii_upper(c: char) -> bool {
    'A' <= c && c <= 'Z'
}

/// A label position starts a word: the label start, the character after a
/// separator, or a lowercase-to-uppercase case transition.
pub open spec fn is_word_boundary(l: Seq<char>, i: int) -> bool {
    i == 0 || is_separator(l[i - 1]) || (is_ascii_lower(l[i - 1]) && is_ascii_upper(l[i]))
}

/// Reward for the `k`-th matched position: a base weight for the matched
/// character, more when it continues a contiguous run, more when it sits on a
/// word boundary.
pub open spec fn position_bonus(l: Seq<char>, pos: Seq<int>, k: int) -> int {
    MATCH_WEIGHT + (if k > 0 && pos[k] == pos[k - 1] + 1 {
        CONTIGUOUS_WEIGHT as int
    } else {
        0
    }) + (if is_word_boundary(l, pos[k]) {
        BOUNDARY_WEIGHT as int
    } else {
        0
    })
}

pub const MATCH_WEIGHT: i128 = 16;

pub const CONTIGUOUS_WEIGHT: i128 = 8;

pub const BOUNDARY_WEIGHT: i128 = 8;

/// Sum of the rewards of the first `k` matched positions.
pub open spec fn bonus_sum(l: Seq<char>, pos: Seq<int>, k: int) -> int
    decreases k,
{
    if k <= 0 {
        0
    } else {
        bonus_sum(l, pos, k - 1) + position_bonus(l, pos, k - 1)
    }
}

/// The score of a matching label for a pattern: the summed position rewards
/// of the greedy witness, less the label length, so that for equal rewards a
/// denser (shorter) label ranks first. An empty pattern scores zero.
pub open spec fn score_spec(p: Seq<char>, l: Seq<char>) -> int {
    if p.len() == 0 {
        0
    } else {
        bonus_sum(l, match_positions_spec(p, l), p.len() as int) - l.len()
    }
}

proof fn lemma_bonus_sum_bounds(l: Seq<char>, pos: Seq<int>, k: int)
    requires
        k >= 0,
    ensures
        0 <= bonus_sum(l, pos, k) <= k * (MATCH_WEIGHT + CONTIGUOUS_WEIGHT + BOUNDARY_WEIGHT),
    decreases k,
{
    if k > 0 {
        lemma_bonus_sum_bounds(l, pos, k - 1);
        assert((k - 1) * 32 + 32 == k * 32) by (nonlinear_arith);
    }
}

/// Computes the score of a matched label from its witness positions.
fn score_of_match(p: &Vec<char>, l: &Vec<char>, positions: &Vec<usize>) -> (r: i128)
    requires
        positions@.map_values(|x: usize| x as int) == match_positions_spec(p@, l@),
        positions@.len() == p@.len(),
        forall|k: int| 0 <= k < positions@.len() ==> #[trigger] positions@[k] < l@.len(),
    ensures
        r == score_spec(p@, l@),
{
    if p.len() == 0 {
        return 0;
    }
    let ghost pos = positions@.map_values(|x: usize| x as int);
    let llen: usize = l.len();
    let mut acc: i128 = 0;
    let mut k: usize = 0;
    while k < positions.len()
        invariant
            0 <= k <= positions@.len(),
            positions@.len() <= p@.len(),
            llen == l@.len(),
            pos == positions@.map_values(|x: usize| x as int),
            forall|j: int| 0 <= j < positions@.len() ==> #[trigger] positions@[j] < llen,
            acc == bonus_sum(l@, pos, k as int),
            0 <= acc <= k * (MATCH_WEIGHT + CONTIGUOUS_WEIGHT + BOUNDARY_WEIGHT),
        decreases positions@.len() - k,
    {
        let p_k = positions[k];
        let mut bonus: i128 = MATCH_WEIGHT;
        if k > 0 && positions[k - 1] + 1 == p_k {
            bonus = bonus + CONTIGUOUS_WEIGHT;
        }
        let boundary = if p_k == 0 {
            true
        } else {
            let before = l[p_k - 1];
            let here = l[p_k];
            (before == '/' || before == '_' || before == '-') || (('a' <= before && before <= 'z')
                && ('A' <= here && here <= 'Z'))
        };
        if boundary {
            bonus = bonus + BOUNDARY_WEIGHT;
        }
        proof {
            assert(bonus == position_bonus(l@, pos, k as int));
            lemma_bonus_sum_bounds(l@, pos, k as int);
            assert((k + 1) * 32 == k * 32 + 32) by (nonlinear_arith);
        }
        acc = acc + bonus;
        k = k + 1;
    }
    acc - (llen as i128)
}

/// One entry of the ranked list: the index of the candidate in the original
/// candidate order, its score, and the greedy witness positions within its
/// label.
#[derive(Debug, Clone, PartialEq, Eq)]
pub struct MatchResult {
    pub candidate_index: usize,
    pub score: i128,
    pub matched_positions: Vec<usize>,
}

/// The (candidate index, score) pair of a result, as mathematical integers.
pub open spec fn entry_of(m: MatchResult) -> (int, int) {
    (m.candidate_index as int, m.score as int)
}

pub open spec fn entries_of(r: Seq<MatchResult>) -> Seq<(int, int)> {
    r.map_values(|m: MatchResult| entry_of(m))
}

/// Strict ranking order on (candidate index, score) pairs: higher score
/// first, ties broken by the original candidate order. A strict total order
/// on entries with distinct indices.
pub open spec fn rank_before(a: (int, int), b: (int, int)) -> bool {
    a.1 > b.1 || (a.1 == b.1 && a.0 < b.0)
}

/// Every entry strictly precedes all later ones: the list is sorted and, as
/// indices are distinct, duplicate-free.
pub open spec fn strictly_ranked(r: Seq<(int, int)>) -> bool {
    forall|i: int, j: int| 0 <= i < j < r.len() ==> rank_before(r[i], r[j])
}

/// Where a new entry belongs in a ranked list: right after the entries that
/// precede it in rank order.
pub open spec fn insert_pos(r: Seq<(int, int)>, m: (int, int)) -> int
    decreases r.len(),
{
    if r.len() == 0 {
        0
    } else if rank_before(r[0], m) {
        1 + insert_pos(r.drop_first(), m)
    } else {
        0
    }
}

/// The ranked-list entry of candidate `i`.
pub open spec fn entry_for(p: Seq<char>, labels: Seq<Seq<char>>, i: int) -> (int, int) {
    (i, score_spec(p, labels[i]))
}

/// The ranked list of the first `n` candidate labels: each matching label's
/// entry, inserted in rank order as the candidates are scanned.
pub open spec fn spec_rank(p: Seq<char>, labels: Seq<Seq<char>>, n: int) -> Seq<(int, int)>
    decreases n,
{
    if n <= 0 {
        Seq::empty()
    } else {
        let prev = spec_rank(p, labels, n - 1);
        if pattern_matches(p, labels[n - 1]) {
            prev.insert(insert_pos(prev, entry_for(p, labels, n - 1)), entry_for(p, labels, n - 1))
        } else {
            prev
        }
    }
}

proof fn lemma_insert_pos_bounds(r: Seq<(int, int)>, m: (int, int))
    ensures
        0 <= insert_pos(r, m) <= r.len(),
    decreases r.len(),
{
    if r.len() > 0 && rank_before(r[0], m) {
        lemma_insert_pos_bounds(r.drop_first(), m);
    }
}

/// In a ranked list with no entry sharing the new entry's index, everything
/// before the insertion position precedes the new entry, everything at or
/// after it follows it.
proof fn lemma_insert_pos_split(r: Seq<(int, int)>, m: (int, int))
    requires
        strictly_ranked(r),
        forall|k: int| 0 <= k < r.len() ==> (#[trigger] r[k]).0 != m.0,
    ensures
        forall|k: int| 0 <= k < insert_pos(r, m) ==> rank_before(#[trigger] r[k], m),
        forall|k: int| insert_pos(r, m) <= k < r.len() ==> rank_before(m, #[trigger] r[k]),
    decreases r.len(),
{
    lemma_insert_pos_bounds(r, m);
    if r.len() == 0 {
    } else if rank_before(r[0], m) {
        let t = r.drop_first();
        assert(forall|i: int, j: int| 0 <= i < j < t.len() ==> rank_before(t[i], t[j]));
        lemma_insert_pos_split(t, m);
        assert forall|k: int| 0 <= k < insert_pos(r, m) implies rank_before(#[trigger] r[k], m) by {
            if k > 0 {
                assert(r[k] == t[k - 1]);
            }
        }
        assert forall|k: int| insert_pos(r, m) <= k < r.len() implies rank_before(
            m,
            #[trigger] r[k],
        ) by {
            assert(r[k] == t[k - 1]);
        }
    } else {
        // the head does not precede m and differs from it, so m precedes the
        // head, and by transitivity every later entry too
        assert(rank_before(m, r[0]));
        assert forall|k: int| insert_pos(r, m) <= k < r.len() implies rank_before(
            m,
            #[trigger] r[k],
        ) by {
            if k > 0 {
                assert(rank_before(r[0], r[k]));
            }
        }
    }
}

/// The index where a scan that skipped exactly the entries preceding the new
/// entry stopped is the insertion position.
proof fn lemma_insert_pos_value(r: Seq<(int, int)>, m: (int, int), j: int)
    requires
        0 <= j <= r.len(),
        forall|k: int| 0 <= k < j ==> rank_before(#[trigger] r[k], m),
        j == r.len() || !rank_before(r[j], m),
    ensures
        insert_pos(r, m) == j,
    decreases r.len(),
{
    if r.len() == 0 {
    } else if rank_before(r[0], m) {
        let t = r.drop_first();
        assert(forall|k: int| 0 <= k < j - 1 ==> #[trigger] t[k] == r[k + 1]);
        if j < r.len() {
            assert(t[j - 1] == r[j]);
        }
        lemma_insert_pos_value(t, m, j - 1);
    } else {
        assert(j == 0);
    }
}

/// Every entry of the ranked list belongs to a matching candidate among the
/// first `n` and carries that candidate's score.
pub open spec fn sound_entries(p: Seq<char>, labels: Seq<Seq<char>>, r: Seq<(int, int)>, n: int) -> bool {
    forall|k: int|
        0 <= k < r.len() ==> {
            let e = #[trigger] r[k];
            0 <= e.0 < n && pattern_matches(p, labels[e.0]) && e.1 == score_spec(p, labels[e.0])
        }
}

/// Every matching candidate among the first `n` appears in the ranked list.
pub open spec fn complete_entries(p: Seq<char>, labels: Seq<Seq<char>>, r: Seq<(int, int)>, n: int) -> bool {
    forall|i: int|
        0 <= i < n && pattern_matches(p, labels[i]) ==> exists|k: int|
            0 <= k < r.len() && (#[trigger] r[k]).0 == i
}

/// The ranked list is sorted by the strict rank order, mentions exactly the
/// matching candidates, and scores each by `score_spec`.
pub proof fn lemma_spec_rank_props(p: Seq<char>, labels: Seq<Seq<char>>, n: int)
    requires
        n >= 0,
    ensures
        strictly_ranked(spec_rank(p, labels, n)),
        sound_entries(p, labels, spec_rank(p, labels, n), n),
        complete_entries(p, labels, spec_rank(p, labels, n), n),
        spec_rank(p, labels, n).len() <= n,
    decreases n,
{
    if n > 0 {
        lemma_spec_rank_props(p, labels, n - 1);
        let prev = spec_rank(p, labels, n - 1);
        if pattern_matches(p, labels[n - 1]) {
            let m = entry_for(p, labels, n - 1);
            let ip = insert_pos(prev, m);
            let cur = prev.insert(ip, m);
            lemma_insert_pos_bounds(prev, m);
            lemma_insert_pos_split(prev, m);
            prev.insert_ensures(ip, m);
            assert forall|i: int, j: int| 0 <= i < j < cur.len() implies rank_before(
                cur[i],
                cur[j],
            ) by {
                if i < ip && j < ip {
                } else if i < ip && j == ip {
                } else if i == ip && j > ip {
                    assert(cur[j] == prev[j - 1]);
                } else if i < ip && j > ip {
                    assert(cur[j] == prev[j - 1]);
                } else if i > ip {
                    assert(cur[i] == prev[i - 1]);
                    assert(cur[j] == prev[j - 1]);
                }
            }
            assert(sound_entries(p, labels, cur, n));
            assert forall|i: int| 0 <= i < n && pattern_matches(p, labels[i]) implies exists|k: int|
                0 <= k < cur.len() && (#[trigger] cur[k]).0 == i by {
                if i == n - 1 {
                    assert(cur[ip].0 == i);
                } else {
                    let k0 = choose|k0: int| 0 <= k0 < prev.len() && (#[trigger] prev[k0]).0 == i;
                    if k0 < ip {
                        assert(cur[k0].0 == i);
                    } else {
                        assert(cur[k0 + 1] == prev[k0]);
                        assert(cur[k0 + 1].0 == i);
                    }
                }
            }
        } else {
            assert(sound_entries(p, labels, spec_rank(p, labels, n), n));
        }
    }
}

fn rank_before_exec(a: &MatchResult, b: &MatchResult) -> (r: bool)
    ensures
        r == rank_before(entry_of(*a), entry_of(*b)),
{
    a.score > b.score || (a.score == b.score && a.candidate_index < b.candidate_index)
}

/// Matches every candidate label against the pattern and returns the ranked
/// list: one result per matching label, sorted by score, ties broken by the
/// original candidate order, with the greedy witness positions of each match.
/// An empty pattern matches every candidate with score zero in original
/// order.
pub fn match_list(pattern: &Vec<char>, labels: &Vec<Vec<char>>) -> (r: Vec<MatchResult>)
    ensures
        entries_of(r@) == spec_rank(pattern@, labels.deep_view(), labels@.len() as int),
        forall|k: int|
            0 <= k < r@.len() ==> (#[trigger] r@[k]).matched_positions@.map_values(
                |x: usize| x as int,
            ) == match_positions_spec(pattern@, labels@[r@[k].candidate_index as int]@),
        forall|k: int| 0 <= k < r@.len() ==> (#[trigger] r@[k]).candidate_index < labels@.len(),
{
    let ghost lv = labels.deep_view();
    proof {
        assert(lv.len() == labels@.len());
        assert(forall|i: int| 0 <= i < labels@.len() ==> lv[i] == #[trigger] labels@[i]@);
    }
    let mut out: Vec<MatchResult> = Vec::new();
    let mut i: usize = 0;
    while i < labels.len()
        invariant
            i <= labels@.len(),
            lv == labels.deep_view(),
            lv.len() == labels@.len(),
            forall|t: int| 0 <= t < labels@.len() ==> lv[t] == #[trigger] labels@[t]@,
            entries_of(out@) == spec_rank(pattern@, lv, i as int),
            forall|k: int|
                0 <= k < out@.len() ==> (#[trigger] out@[k]).matched_positions@.map_values(
                    |x: usize| x as int,
                ) == match_positions_spec(pattern@, labels@[out@[k].candidate_index as int]@),
            forall|k: int| 0 <= k < out@.len() ==> (#[trigger] out@[k]).candidate_index < i,
        decreases labels@.len() - i,
    {
        let lbl = &labels[i];
        if let Some(positions) = match_positions(pattern, lbl) {
            proof {
                lemma_positions_valid(pattern@, lbl@, 0, 0);
                assert forall|k: int| 0 <= k < positions@.len() implies #[trigger] positions@[k]
                    < lbl@.len() by {
                    assert(positions@.map_values(|x: usize| x as int)[k] == positions@[k] as int);
                }
            }
            let score = score_of_match(pattern, lbl, &positions);
            let m = MatchResult { candidate_index: i, score, matched_positions: positions };
            proof {
                assert(entry_of(m) == entry_for(pattern@, lv, i as int));
                lemma_spec_rank_props(pattern@, lv, i as int);
            }
            let mut j: usize = 0;
            while j < out.len() && rank_before_exec(&out[j], &m)
                invariant
                    0 <= j <= out@.len(),
                    forall|k: int|
                        0 <= k < j ==> rank_before(entry_of(#[trigger] out@[k]), entry_of(m)),
            decreases out@.len() - j,
            {
                j = j + 1;
            }
            proof {
                assert forall|k: int| 0 <= k < j implies rank_before(
                    #[trigger] entries_of(out@)[k],
                    entry_of(m),
                ) by {
                    assert(entries_of(out@)[k] == entry_of(out@[k]));
                }
                if j < out@.len() {
                    assert(entries_of(out@)[j as int] == entry_of(out@[j as int]));
                }
                lemma_insert_pos_value(entries_of(out@), entry_of(m), j as int);
            }
            let ghost prev = out@;
            out.insert(j, m);
            proof {
                assert(out@ == prev.insert(j as int, m));
                prev.insert_ensures(j as int, m);
                entries_of(prev).insert_ensures(j as int, entry_of(m));
                assert(entries_of(out@) =~= entries_of(prev).insert(j as int, entry_of(m)));
                assert(entries_of(out@) == spec_rank(pattern@, lv, i + 1));
            }
        } else {
            proof {
                assert(entries_of(out@) == spec_rank(pattern@, lv, i + 1));
            }
        }
        i = i + 1;
    }
    out
}

/// Law: the witness positions of a matching label form a valid in-order
/// subsequence of the pattern within the label — one position per pattern
/// character, strictly increasing, inside the label, and carrying the
/// pattern's characters up to ASCII case.
pub proof fn lemma_match_positions_are_subsequence(p: Seq<char>, l: Seq<char>)
    requires
        pattern_matches(p, l),
    ensures
        match_positions_spec(p, l).len() == p.len(),
        forall|k: int|
            0 <= k < p.len() ==> 0 <= #[trigger] match_positions_spec(p, l)[k] < l.len(),
        forall|k: int|
            0 < k < p.len() ==> match_positions_spec(p, l)[k - 1] < #[trigger] match_positions_spec(
                p,
                l,
            )[k],
        forall|k: int|
            0 <= k < p.len() ==> fold_char(l[#[trigger] match_positions_spec(p, l)[k]])
                == fold_char(p[k]),
{
    lemma_positions_valid(p, l, 0, 0);
}

/// Law: an empty pattern matches every candidate; the ranked list is then the
/// whole candidate list in original order, every entry with score zero.
pub proof fn lemma_empty_pattern_identity(labels: Seq<Seq<char>>, n: int)
    requires
        n >= 0,
    ensures
        spec_rank(Seq::<char>::empty(), labels, n).len() == n,
        forall|k: int|
            0 <= k < n ==> #[trigger] spec_rank(Seq::<char>::empty(), labels, n)[k] == (k, 0int),
    decreases n,
{
    let p = Seq::<char>::empty();
    if n > 0 {
        lemma_empty_pattern_identity(labels, n - 1);
        let prev = spec_rank(p, labels, n - 1);
        let m = entry_for(p, labels, n - 1);
        assert(pattern_matches(p, labels[n - 1]));
        assert(m == (n - 1, 0int));
        lemma_insert_pos_value(prev, m, prev.len() as int);
        prev.insert_ensures(prev.len() as int, m);
        assert forall|k: int| 0 <= k < n implies #[trigger] spec_rank(p, labels, n)[k] == (
        k,
        0int,
        ) by {
            if k < n - 1 {
                assert(spec_rank(p, labels, n)[k] == prev[k]);
            }
        }
    }
}

/// Law: ranking is deterministic. Any two ranked lists of the same pattern
/// and candidate labels that satisfy the matcher's contract are identical —
/// same length, same entries in the same order, same witness positions.
pub proof fn lemma_rank_deterministic(
    p: Seq<char>,
    labels: Seq<Seq<char>>,
    r1: Seq<MatchResult>,
    r2: Seq<MatchResult>,
)
    requires
        entries_of(r1) == spec_rank(p, labels, labels.len() as int),
        entries_of(r2) == spec_rank(p, labels, labels.len() as int),
        forall|k: int|
            0 <= k < r1.len() ==> (#[trigger] r1[k]).matched_positions@.map_values(
                |x: usize| x as int,
            ) == match_positions_spec(p, labels[r1[k].candidate_index as int]),
        forall|k: int|
            0 <= k < r2.len() ==> (#[trigger] r2[k]).matched_positions@.map_values(
                |x: usize| x as int,
            ) == match_positions_spec(p, labels[r2[k].candidate_index as int]),
    ensures
        r1.len() == r2.len(),
        forall|k: int|
            0 <= k < r1.len() ==> entry_of(#[trigger] r1[k]) == entry_of(r2[k])
                && r1[k].matched_positions@ == r2[k].matched_positions@,
{
    assert(entries_of(r1).len() == r1.len());
    assert(entries_of(r2).len() == r2.len());
    assert forall|k: int| 0 <= k < r1.len() implies entry_of(#[trigger] r1[k]) == entry_of(r2[k])
        && r1[k].matched_positions@ == r2[k].matched_positions@ by {
        assert(entries_of(r1)[k] == entry_of(r1[k]));
        assert(entries_of(r2)[k] == entry_of(r2[k]));
        let a = r1[k].matched_positions@;
        let b = r2[k].matched_positions@;
        assert(a.map_values(|x: usize| x as int) == b.map_values(|x: usize| x as int));
        assert forall|t: int| 0 <= t < a.len() implies a[t] == b[t] by {
            assert(a.map_values(|x: usize| x as int)[t] == a[t] as int);
            assert(b.map_values(|x: usize| x as int)[t] == b[t] as int);
        }
        assert(a =~= b);
    }
}

proof fn lemma_monotonic_refinement_from(p: Seq<char>, c: char, l: Seq<char>, pi: int, li: int)
    requires
        0 <= pi <= p.len(),
        0 <= li,
        matches_from(p.push(c), l, pi, li),
    ensures
        matches_from(p, l, pi, li),
    decreases l.len() - li,
{
    let p2 = p.push(c);
    if pi >= p.len() {
    } else if li >= l.len() {
        assert(pi < p2.len());
        assert(!matches_from(p2, l, pi, li));
    } else {
        assert(p2[pi] == p[pi]);
        if fold_char(p[pi]) == fold_char(l[li]) {
            lemma_monotonic_refinement_from(p, c, l, pi + 1, li + 1);
        } else {
            lemma_monotonic_refinement_from(p, c, l, pi, li + 1);
        }
    }
}

/// Law: refining the pattern only narrows the match set — every label that
/// matches a pattern extended by one character also matches the original
/// pattern.
pub proof fn lemma_monotonic_refinement(p: Seq<char>, c: char, l: Seq<char>)
    requires
        pattern_matches(p.push(c), l),
    ensures
        pattern_matches(p, l),
{
    lemma_monotonic_refinement_from(p, c, l, 0, 0);
}

} // verus!
