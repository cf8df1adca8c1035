//! The round-robin league: six fixtures over four teams, standings kept per
//! fixture and sorted by points, goal difference, goals for, then name.
//!
//! The sort is a verified insertion sort pinned to a spec-level sort, so the
//! whole league run is a pure function of the team list and the seed.

use vstd::multiset::Multiset;
use vstd::prelude::*;
use vstd::string::StringExecFns;

use crate::catalog::spec_display_name;
use crate::catalog::display_name;
use crate::lines::clone_lines;
use crate::lines::push_line;
use crate::rng::Rng;
use crate::sim::match_stats_lines;
use crate::sim::push_frame;
use crate::sim::simulate_match;
use crate::sim::spec_empty_frame;
use crate::sim::spec_match_frames;
use crate::sim::spec_match_result;
use crate::sim::spec_match_rng;
use crate::sim::spec_match_stats_lines;
use crate::sim::empty_frame;
use crate::sim::FrameV;
use crate::sim::PreparedSimulation;
use crate::sim::PreparedV;
use crate::sim::RowV;
use crate::sim::SimFrame;
use crate::sim::SimOutcome;
use crate::sim::SimOutcomeV;
use crate::sim::StandingsRow;
use crate::text::spec_i64_string;
use crate::text::spec_lex_le;
use crate::text::spec_pad_left;
use crate::text::spec_pad_right;
use crate::text::spec_u64_string;
use crate::text::i64_to_string;
use crate::text::lex_le;
use crate::text::pad_left;
use crate::text::pad_right;
use crate::text::u64_to_string;

verus! {

/// The standings order: more points first, then better goal difference, then
/// more goals for, then name in ascending lexicographic order. A total order
/// on rows with distinct team names.
pub open spec fn row_le(a: RowV, b: RowV) -> bool {
    if a.pts != b.pts {
        a.pts > b.pts
    } else if a.gd != b.gd {
        a.gd > b.gd
    } else if a.gf != b.gf {
        a.gf > b.gf
    } else {
        spec_lex_le(a.team, b.team)
    }
}

/// Compares two standings rows in the league's tie-break order.
pub fn standings_le(a: &StandingsRow, b: &StandingsRow) -> (r: bool)
    ensures
        r == row_le(a@, b@),
{
    if a.pts != b.pts {
        a.pts > b.pts
    } else if a.gd != b.gd {
        a.gd > b.gd
    } else if a.gf != b.gf {
        a.gf > b.gf
    } else {
        lex_le(a.team.as_str(), b.team.as_str())
    }
}

proof fn lemma_lex_total(a: Seq<char>, b: Seq<char>)
    ensures
        spec_lex_le(a, b) || spec_lex_le(b, a),
    decreases a.len(),
{
    if a.len() == 0 || b.len() == 0 {
    } else if (a[0] as u32) == (b[0] as u32) {
        lemma_lex_total(a.skip(1), b.skip(1));
    }
}

proof fn lemma_lex_antisym(a: Seq<char>, b: Seq<char>)
    requires
        spec_lex_le(a, b),
        spec_lex_le(b, a),
    ensures
        a == b,
    decreases a.len(),
{
    if a.len() == 0 {
        assert(b.len() == 0);
        assert(a =~= b);
    } else {
        assert(b.len() > 0);
        assert((a[0] as u32) == (b[0] as u32));
        vstd::utf8::char_u32_cast(a[0], a[0] as u32);
        vstd::utf8::char_u32_cast(b[0], b[0] as u32);
        assert(a[0] == b[0]);
        lemma_lex_antisym(a.skip(1), b.skip(1));
        assert(a.skip(1).len() == b.skip(1).len());
        assert(a.len() == b.len());
        assert forall|j: int| 0 <= j < a.len() implies a[j] == b[j] by {
            if j > 0 {
                assert(a.skip(1)[j - 1] == a[j]);
                assert(b.skip(1)[j - 1] == b[j]);
            }
        }
        assert(a =~= b);
    }
}

/// The standings order is total: any two rows compare one way or the other.
pub proof fn lemma_row_le_total(a: RowV, b: RowV)
    ensures
        row_le(a, b) || row_le(b, a),
{
    lemma_lex_total(a.team, b.team);
}

/// Two rows that precede each other carry the same team name.
pub proof fn lemma_row_le_antisym(a: RowV, b: RowV)
    requires
        row_le(a, b),
        row_le(b, a),
    ensures
        a.team == b.team,
{
    lemma_lex_antisym(a.team, b.team);
}

/// The sorted list that inserting a row into a sorted list gives: the row
/// goes after every row that precedes or ties it.
pub open spec fn spec_insert_row(s: Seq<RowV>, r: RowV) -> Seq<RowV>
    decreases s.len(),
{
    if s.len() == 0 {
        seq![r]
    } else if row_le(s[0], r) {
        seq![s[0]] + spec_insert_row(s.skip(1), r)
    } else {
        seq![r] + s
    }
}

/// Standings sorted by the league order: an insertion sort.
pub open spec fn spec_sort_rows(s: Seq<RowV>) -> Seq<RowV>
    decreases s.len(),
{
    if s.len() == 0 {
        Seq::empty()
    } else {
        spec_insert_row(spec_sort_rows(s.skip(1)), s[0])
    }
}

/// Whether adjacent rows are in order throughout.
pub open spec fn rows_sorted(s: Seq<RowV>) -> bool {
    forall|i: int| 0 <= i < s.len() - 1 ==> row_le(#[trigger] s[i], s[i + 1])
}

/// Whether no two rows carry the same team name.
pub open spec fn rows_distinct(s: Seq<RowV>) -> bool {
    forall|i: int, j: int| 0 <= i < j < s.len() ==> s[i].team != s[j].team
}

proof fn lemma_insert_len(s: Seq<RowV>, r: RowV)
    ensures
        spec_insert_row(s, r).len() == s.len() + 1,
    decreases s.len(),
{
    if s.len() > 0 && row_le(s[0], r) {
        lemma_insert_len(s.skip(1), r);
    }
}

/// Sorting keeps the number of rows.
pub proof fn lemma_sort_len(s: Seq<RowV>)
    ensures
        spec_sort_rows(s).len() == s.len(),
    decreases s.len(),
{
    if s.len() > 0 {
        lemma_sort_len(s.skip(1));
        lemma_insert_len(spec_sort_rows(s.skip(1)), s[0]);
    }
}

proof fn lemma_insert_contents(s: Seq<RowV>, r: RowV)
    ensures
        spec_insert_row(s, r).to_multiset() == s.to_multiset().insert(r),
    decreases s.len(),
{
    broadcast use vstd::seq_lib::group_to_multiset_ensures;

    if s.len() == 0 {
        assert(seq![r] =~= Seq::<RowV>::empty().push(r));
        assert(s.to_multiset() =~= Multiset::<RowV>::empty());
    } else if row_le(s[0], r) {
        lemma_insert_contents(s.skip(1), r);
        assert(seq![s[0]] + spec_insert_row(s.skip(1), r) =~= spec_insert_row(
            s.skip(1),
            r,
        ).insert(0, s[0]));
        assert(s =~= s.skip(1).insert(0, s[0]));
    } else {
        assert(seq![r] + s =~= s.insert(0, r));
    }
}

/// Sorting keeps exactly the given rows, as a multiset.
pub proof fn lemma_sort_contents(s: Seq<RowV>)
    ensures
        spec_sort_rows(s).to_multiset() == s.to_multiset(),
    decreases s.len(),
{
    broadcast use vstd::seq_lib::group_to_multiset_ensures;

    if s.len() > 0 {
        lemma_sort_contents(s.skip(1));
        lemma_insert_contents(spec_sort_rows(s.skip(1)), s[0]);
        assert(s =~= s.skip(1).insert(0, s[0]));
    }
}

proof fn lemma_insert_sorted(s: Seq<RowV>, r: RowV)
    requires
        rows_sorted(s),
    ensures
        rows_sorted(spec_insert_row(s, r)),
    decreases s.len(),
{
    if s.len() == 0 {
    } else if row_le(s[0], r) {
        assert(rows_sorted(s.skip(1)));
        lemma_insert_sorted(s.skip(1), r);
        let rest = spec_insert_row(s.skip(1), r);
        let out = seq![s[0]] + rest;
        assert forall|i: int| 0 <= i < out.len() - 1 implies row_le(#[trigger] out[i], out[i + 1]) by {
            if i == 0 {
                if s.len() == 1 {
                    assert(rest[0] == r);
                } else if row_le(s.skip(1)[0], r) {
                    assert(rest[0] == s.skip(1)[0]);
                    assert(s.skip(1)[0] == s[1]);
                } else {
                    assert(rest[0] == r);
                }
            } else {
                assert(out[i] == rest[i - 1]);
                assert(out[i + 1] == rest[i]);
            }
        }
    } else {
        lemma_row_le_total(s[0], r);
        let out = seq![r] + s;
        assert forall|i: int| 0 <= i < out.len() - 1 implies row_le(#[trigger] out[i], out[i + 1]) by {
            if i > 0 {
                assert(out[i] == s[i - 1]);
                assert(out[i + 1] == s[i]);
            }
        }
    }
}

/// Sorting by the league order leaves adjacent rows in order.
pub proof fn lemma_sort_sorted(s: Seq<RowV>)
    ensures
        rows_sorted(spec_sort_rows(s)),
    decreases s.len(),
{
    if s.len() > 0 {
        lemma_sort_sorted(s.skip(1));
        lemma_insert_sorted(spec_sort_rows(s.skip(1)), s[0]);
    }
}

/// Sorting a list that is already in order, with distinct team names, gives
/// the list itself: re-sorting final standings is a no-op.
pub proof fn lemma_sort_rows_idempotent(s: Seq<RowV>)
    requires
        rows_sorted(s),
        rows_distinct(s),
    ensures
        spec_sort_rows(s) == s,
    decreases s.len(),
{
    if s.len() == 0 {
        assert(spec_sort_rows(s) =~= s);
    } else {
        let tail = s.skip(1);
        assert(rows_sorted(tail));
        assert(rows_distinct(tail)) by {
            assert forall|i: int, j: int| 0 <= i < j < tail.len() implies tail[i].team
                != tail[j].team by {
                assert(tail[i] == s[i + 1]);
                assert(tail[j] == s[j + 1]);
            }
        }
        lemma_sort_rows_idempotent(tail);
        if tail.len() == 0 {
            assert(spec_sort_rows(s) =~= s);
        } else {
            assert(row_le(s[0], tail[0]));
            assert(s[0].team != tail[0].team);
            if row_le(tail[0], s[0]) {
                lemma_row_le_antisym(s[0], tail[0]);
                assert(false);
            }
            assert(spec_insert_row(tail, s[0]) =~= seq![s[0]] + tail);
            assert(seq![s[0]] + tail =~= s);
        }
    }
}

proof fn lemma_lex_refl(a: Seq<char>)
    ensures
        spec_lex_le(a, a),
    decreases a.len(),
{
    if a.len() > 0 {
        lemma_lex_refl(a.skip(1));
    }
}

proof fn lemma_lex_trans(a: Seq<char>, b: Seq<char>, c: Seq<char>)
    requires
        spec_lex_le(a, b),
        spec_lex_le(b, c),
    ensures
        spec_lex_le(a, c),
    decreases a.len(),
{
    if a.len() == 0 {
    } else {
        assert(b.len() > 0);
        assert(c.len() > 0);
        if (a[0] as u32) == (b[0] as u32) && (b[0] as u32) == (c[0] as u32) {
            lemma_lex_trans(a.skip(1), b.skip(1), c.skip(1));
        }
    }
}

/// The standings order is transitive.
pub proof fn lemma_row_le_trans(a: RowV, b: RowV, c: RowV)
    requires
        row_le(a, b),
        row_le(b, c),
    ensures
        row_le(a, c),
{
    if a.pts == b.pts && b.pts == c.pts && a.gd == b.gd && b.gd == c.gd && a.gf == b.gf && b.gf
        == c.gf {
        lemma_lex_trans(a.team, b.team, c.team);
    }
}

/// The standings order is reflexive.
pub proof fn lemma_row_le_refl(a: RowV)
    ensures
        row_le(a, a),
{
    lemma_lex_refl(a.team);
}

proof fn lemma_sorted_le(s: Seq<RowV>, i: int, j: int)
    requires
        rows_sorted(s),
        0 <= i <= j < s.len(),
    ensures
        row_le(s[i], s[j]),
    decreases j - i,
{
    if i == j {
        lemma_row_le_refl(s[i]);
    } else {
        lemma_sorted_le(s, i, j - 1);
        lemma_row_le_trans(s[i], s[j - 1], s[j]);
    }
}

/// Standings total order: rows with distinct team names admit exactly one
/// order under the league comparison — two sorted arrangements of the same
/// rows are identical.
pub proof fn lemma_sorted_unique(s: Seq<RowV>, t: Seq<RowV>)
    requires
        rows_sorted(s),
        rows_sorted(t),
        rows_distinct(s),
        s.to_multiset() == t.to_multiset(),
    ensures
        s == t,
    decreases s.len(),
{
    broadcast use vstd::seq_lib::group_to_multiset_ensures;

    assert(s.len() == s.to_multiset().len());
    assert(t.len() == t.to_multiset().len());
    if s.len() == 0 {
        assert(s =~= t);
    } else {
        assert(t.contains(t[0])) by {
            assert(t[0] == t[0]);
        }
        assert(s.to_multiset().count(t[0]) > 0);
        assert(s.contains(t[0]));
        let j = choose|j: int| 0 <= j < s.len() && s[j] == t[0];
        lemma_sorted_le(s, 0, j);
        assert(s.contains(s[0])) by {
            assert(s[0] == s[0]);
        }
        assert(t.to_multiset().count(s[0]) > 0);
        assert(t.contains(s[0]));
        let k = choose|k: int| 0 <= k < t.len() && t[k] == s[0];
        lemma_sorted_le(t, 0, k);
        lemma_row_le_antisym(s[0], t[0]);
        if j != 0 {
            assert(s[0].team != s[j].team);
            assert(false);
        }
        assert(t[0] == s[0]);
        let s1 = s.skip(1);
        let t1 = t.skip(1);
        assert(s.remove(0) =~= s1);
        assert(t.remove(0) =~= t1);
        assert(s1.to_multiset() == s.to_multiset().remove(s[0]));
        assert(t1.to_multiset() == t.to_multiset().remove(t[0]));
        assert(rows_sorted(s1)) by {
            assert forall|p: int| 0 <= p < s1.len() - 1 implies row_le(
                #[trigger] s1[p],
                s1[p + 1],
            ) by {
                assert(s1[p] == s[p + 1]);
                assert(s1[p + 1] == s[p + 2]);
            }
        }
        assert(rows_sorted(t1)) by {
            assert forall|p: int| 0 <= p < t1.len() - 1 implies row_le(
                #[trigger] t1[p],
                t1[p + 1],
            ) by {
                assert(t1[p] == t[p + 1]);
                assert(t1[p + 1] == t[p + 2]);
            }
        }
        assert(rows_distinct(s1)) by {
            assert forall|p: int, q: int| 0 <= p < q < s1.len() implies s1[p].team
                != s1[q].team by {
                assert(s1[p] == s[p + 1]);
                assert(s1[q] == s[q + 1]);
            }
        }
        lemma_sorted_unique(s1, t1);
        assert forall|p: int| 0 <= p < s.len() implies s[p] == t[p] by {
            if p > 0 {
                assert(s1[p - 1] == s[p]);
                assert(t1[p - 1] == t[p]);
            }
        }
        assert(s =~= t);
    }
}

/// Appends a row to a table, tracking the spec-level sequence.
pub fn push_row(v: &mut Vec<StandingsRow>, r: StandingsRow)
    ensures
        final(v).deep_view() == old(v).deep_view().push(r@),
{
    let ghost before = v.deep_view();
    v.push(r);
    assert(v.deep_view() =~= before.push(r@));
}

fn clone_rows(v: &Vec<StandingsRow>) -> (r: Vec<StandingsRow>)
    ensures
        r.deep_view() == v.deep_view(),
{
    let mut out: Vec<StandingsRow> = Vec::new();
    let mut i: usize = 0;
    while i < v.len()
        invariant
            i <= v@.len(),
            out.deep_view() =~= v.deep_view().take(i as int),
        decreases v@.len() - i,
    {
        push_row(&mut out, v[i].clone());
        assert(out.deep_view() =~= v.deep_view().take(i as int + 1));
        i = i + 1;
    }
    assert(v.deep_view().take(v@.len() as int) =~= v.deep_view());
    out
}

fn insert_row(sorted: Vec<StandingsRow>, row: StandingsRow) -> (r: Vec<StandingsRow>)
    ensures
        r.deep_view() == spec_insert_row(sorted.deep_view(), row@),
    decreases sorted@.len(),
{
    let mut sorted = sorted;
    if sorted.len() == 0 {
        let mut out: Vec<StandingsRow> = Vec::new();
        out.push(row);
        assert(out.deep_view() =~= seq![row@]);
        out
    } else if standings_le(&sorted[0], &row) {
        let ghost before = sorted.deep_view();
        let first = sorted.remove(0);
        assert(sorted.deep_view() =~= before.skip(1));
        let mut rest = insert_row(sorted, row);
        rest.insert(0, first);
        assert(rest.deep_view() =~= seq![first@] + spec_insert_row(before.skip(1), row@));
        rest
    } else {
        let ghost before = sorted.deep_view();
        sorted.insert(0, row);
        assert(sorted.deep_view() =~= seq![row@] + before);
        sorted
    }
}

/// Sorts standings rows by the league order.
pub fn sort_rows(rows: Vec<StandingsRow>) -> (r: Vec<StandingsRow>)
    ensures
        r.deep_view() == spec_sort_rows(rows.deep_view()),
    decreases rows@.len(),
{
    let mut rows = rows;
    if rows.len() == 0 {
        assert(rows.deep_view() =~= Seq::<RowV>::empty());
        assert(spec_sort_rows(rows.deep_view()) =~= Seq::<RowV>::empty());
        rows
    } else {
        let ghost before = rows.deep_view();
        let first = rows.remove(0);
        assert(rows.deep_view() =~= before.skip(1));
        let sorted_tail = sort_rows(rows);
        insert_row(sorted_tail, first)
    }
}

/// A fresh standings row for a team.
pub open spec fn spec_zero_row(team: Seq<char>) -> RowV {
    RowV { team, p: 0, w: 0, d: 0, l: 0, gf: 0, ga: 0, gd: 0, pts: 0 }
}

/// Fresh rows for a team list, in list order.
pub open spec fn spec_zero_rows(teams: Seq<Seq<char>>) -> Seq<RowV> {
    Seq::new(teams.len(), |i: int| spec_zero_row(teams[i]))
}

/// Builds the zeroed standings table for a team list, in list order.
pub fn init_table(teams: &Vec<String>) -> (r: Vec<StandingsRow>)
    ensures
        r.deep_view() == spec_zero_rows(teams.deep_view()),
{
    let mut out: Vec<StandingsRow> = Vec::new();
    let mut i: usize = 0;
    while i < teams.len()
        invariant
            i <= teams@.len(),
            out.deep_view() =~= spec_zero_rows(teams.deep_view()).take(i as int),
        decreases teams@.len() - i,
    {
        push_row(
            &mut out,
            StandingsRow {
                team: teams[i].clone(),
                p: 0,
                w: 0,
                d: 0,
                l: 0,
                gf: 0,
                ga: 0,
                gd: 0,
                pts: 0,
            },
        );
        assert(out.deep_view() =~= spec_zero_rows(teams.deep_view()).take(i as int + 1));
        i = i + 1;
    }
    assert(spec_zero_rows(teams.deep_view()).take(teams@.len() as int) =~= spec_zero_rows(
        teams.deep_view(),
    ));
    out
}

/// A row after one more fixture: played, goals, recomputed goal difference,
/// and the win/draw/loss counters and points the scoreline awards.
pub open spec fn spec_row_after(r: RowV, scored: int, conceded: int) -> RowV {
    let gf = r.gf + scored;
    let ga = r.ga + conceded;
    RowV {
        team: r.team,
        p: r.p + 1,
        w: r.w + if scored > conceded {
            1int
        } else {
            0int
        },
        d: r.d + if scored == conceded {
            1int
        } else {
            0int
        },
        l: r.l + if scored < conceded {
            1int
        } else {
            0int
        },
        gf,
        ga,
        gd: gf - ga,
        pts: r.pts + if scored > conceded {
            3int
        } else if scored == conceded {
            1int
        } else {
            0int
        },
    }
}

fn apply_fixture_result(r: StandingsRow, scored: u8, conceded: u8) -> (out: StandingsRow)
    requires
        r.p < 200,
        r.w < 200,
        r.d < 200,
        r.l < 200,
        r.gf < 600,
        r.ga < 600,
        r.pts < 200,
    ensures
        out@ == spec_row_after(r@, scored as int, conceded as int),
{
    let gf = r.gf + scored as u16;
    let ga = r.ga + conceded as u16;
    StandingsRow {
        team: r.team,
        p: r.p + 1,
        w: if scored > conceded {
            r.w + 1
        } else {
            r.w
        },
        d: if scored == conceded {
            r.d + 1
        } else {
            r.d
        },
        l: if scored < conceded {
            r.l + 1
        } else {
            r.l
        },
        gf,
        ga,
        gd: gf as i16 - ga as i16,
        pts: if scored > conceded {
            r.pts + 3
        } else if scored == conceded {
            r.pts + 1
        } else {
            r.pts
        },
    }
}

/// One formatted standings table row: the team name left-aligned to 28
/// characters, then the counters right-aligned in their columns.
pub open spec fn spec_table_row(r: RowV) -> Seq<char> {
    spec_pad_right(r.team, 28) + " "@ + spec_pad_left(spec_u64_string(r.p), 2) + " "@
        + spec_pad_left(spec_u64_string(r.w), 2) + " "@ + spec_pad_left(spec_u64_string(r.d), 2)
        + " "@ + spec_pad_left(spec_u64_string(r.l), 2) + " "@ + spec_pad_left(
        spec_u64_string(r.gf),
        3,
    ) + " "@ + spec_pad_left(spec_u64_string(r.ga), 2) + " "@ + spec_pad_left(
        spec_i64_string(r.gd),
        3,
    ) + " "@ + spec_pad_left(spec_u64_string(r.pts), 3)
}

fn table_row(r: &StandingsRow) -> (out: String)
    ensures
        out@ == spec_table_row(r@),
{
    let out = pad_right(r.team.as_str(), 28)
        .concat(" ")
        .concat(pad_left(u64_to_string(r.p as u64).as_str(), 2).as_str())
        .concat(" ")
        .concat(pad_left(u64_to_string(r.w as u64).as_str(), 2).as_str())
        .concat(" ")
        .concat(pad_left(u64_to_string(r.d as u64).as_str(), 2).as_str())
        .concat(" ")
        .concat(pad_left(u64_to_string(r.l as u64).as_str(), 2).as_str())
        .concat(" ")
        .concat(pad_left(u64_to_string(r.gf as u64).as_str(), 3).as_str())
        .concat(" ")
        .concat(pad_left(u64_to_string(r.ga as u64).as_str(), 2).as_str())
        .concat(" ")
        .concat(pad_left(i64_to_string(r.gd as i64).as_str(), 3).as_str())
        .concat(" ")
        .concat(pad_left(u64_to_string(r.pts as u64).as_str(), 3).as_str());
    assert(out@ =~= spec_table_row(r@));
    out
}

/// The formatted rows of a table body, in table order.
pub open spec fn spec_table_body(rows: Seq<RowV>) -> Seq<Seq<char>> {
    Seq::new(rows.len(), |i: int| spec_table_row(rows[i]))
}

/// The competition panel for a league: a header, a divider, and one line per
/// standings row.
pub open spec fn spec_league_table_lines(rows: Seq<RowV>) -> Seq<Seq<char>> {
    seq![
        "TEAM                         P  W  D  L  GF GA GD PTS"@,
        "--------------------------------------------------------"@,
    ] + spec_table_body(rows)
}

/// Formats a standings table for display.
pub fn league_table_lines(rows: &Vec<StandingsRow>) -> (r: Vec<String>)
    ensures
        r.deep_view() == spec_league_table_lines(rows.deep_view()),
{
    let mut out: Vec<String> = Vec::new();
    push_line(&mut out, "TEAM                         P  W  D  L  GF GA GD PTS".to_owned());
    push_line(&mut out, "--------------------------------------------------------".to_owned());
    let mut i: usize = 0;
    assert(rows.deep_view().take(0) =~= Seq::<RowV>::empty());
    while i < rows.len()
        invariant
            i <= rows@.len(),
            out.deep_view() =~= seq![
                "TEAM                         P  W  D  L  GF GA GD PTS"@,
                "--------------------------------------------------------"@,
            ] + spec_table_body(rows.deep_view().take(i as int)),
        decreases rows@.len() - i,
    {
        push_line(&mut out, table_row(&rows[i]));
        i = i + 1;
        assert(out.deep_view() =~= seq![
            "TEAM                         P  W  D  L  GF GA GD PTS"@,
            "--------------------------------------------------------"@,
        ] + spec_table_body(rows.deep_view().take(i as int)));
    }
    assert(rows.deep_view().take(rows@.len() as int) =~= rows.deep_view());
    out
}

fn replace_row(v: &mut Vec<StandingsRow>, i: usize, r: StandingsRow)
    requires
        i < old(v)@.len(),
    ensures
        final(v).deep_view() == old(v).deep_view().update(i as int, r@),
{
    let ghost before = v.deep_view();
    let _ = v.remove(i);
    v.insert(i, r);
    assert(v.deep_view() =~= before.update(i as int, r@));
}

/// Appends a batch of frames, tracking the spec-level sequence.
pub fn append_frames(v: &mut Vec<SimFrame>, other: Vec<SimFrame>)
    ensures
        final(v).deep_view() == old(v).deep_view() + other.deep_view(),
{
    let ghost before = v.deep_view();
    let ghost odv = other.deep_view();
    let mut other = other;
    v.append(&mut other);
    assert(v.deep_view() =~= before + odv);
}

/// The six fixtures of a four-team single round-robin, as index pairs into
/// the team list, in playing order.
pub open spec fn spec_league_fixture(i: int) -> (int, int) {
    if i == 0 {
        (0int, 1int)
    } else if i == 1 {
        (2int, 3int)
    } else if i == 2 {
        (0int, 2int)
    } else if i == 3 {
        (1int, 3int)
    } else if i == 4 {
        (0int, 3int)
    } else {
        (1int, 2int)
    }
}

fn fixture_pair(i: usize) -> (r: (usize, usize))
    requires
        i < 6,
    ensures
        r.0 as int == spec_league_fixture(i as int).0,
        r.1 as int == spec_league_fixture(i as int).1,
        r.0 < 4,
        r.1 < 4,
        r.0 != r.1,
{
    match i {
        0 => (0, 1),
        1 => (2, 3),
        2 => (0, 2),
        3 => (1, 3),
        4 => (0, 3),
        _ => (1, 2),
    }
}

/// The banner while a fixture runs.
pub open spec fn spec_match_progress_line(i: int) -> Seq<char> {
    "Running League Match "@ + spec_u64_string(i + 1) + "/6"@
}

fn match_progress_line(i: usize) -> (r: String)
    requires
        i < 6,
    ensures
        r@ == spec_match_progress_line(i as int),
{
    let r = "Running League Match ".to_owned().concat(u64_to_string(i as u64 + 1).as_str()).concat(
        "/6",
    );
    assert(r@ =~= spec_match_progress_line(i as int));
    r
}

/// The log line announcing a fixture.
pub open spec fn spec_fixture_log_line(i: int, home: Seq<char>, away: Seq<char>) -> Seq<char> {
    "League fixture "@ + spec_u64_string(i + 1) + "/6: "@ + spec_display_name(home) + " vs "@
        + spec_display_name(away)
}

fn fixture_log_line(i: usize, home: &str, away: &str) -> (r: String)
    requires
        i < 6,
    ensures
        r@ == spec_fixture_log_line(i as int, home@, away@),
{
    let r = "League fixture "
        .to_owned()
        .concat(u64_to_string(i as u64 + 1).as_str())
        .concat("/6: ")
        .concat(display_name(home).as_str())
        .concat(" vs ")
        .concat(display_name(away).as_str());
    assert(r@ =~= spec_fixture_log_line(i as int, home@, away@));
    r
}

/// One line of match history: both sides and the final score.
pub open spec fn spec_result_line(home: Seq<char>, hg: int, ag: int, away: Seq<char>) -> Seq<
    char,
> {
    spec_display_name(home) + " "@ + spec_u64_string(hg) + "-"@ + spec_u64_string(ag) + " "@
        + spec_display_name(away)
}

/// Builds a history line for a finished fixture.
pub fn result_line(home: &str, hg: u8, ag: u8, away: &str) -> (r: String)
    ensures
        r@ == spec_result_line(home@, hg as int, ag as int, away@),
{
    let r = display_name(home)
        .concat(" ")
        .concat(u64_to_string(hg as u64).as_str())
        .concat("-")
        .concat(u64_to_string(ag as u64).as_str())
        .concat(" ")
        .concat(display_name(away).as_str());
    assert(r@ =~= spec_result_line(home@, hg as int, ag as int, away@));
    r
}

/// The banner after a fixture's table update.
pub open spec fn spec_table_updated_line(i: int) -> Seq<char> {
    "League table updated after Match "@ + spec_u64_string(i + 1)
}

fn table_updated_line(i: usize) -> (r: String)
    requires
        i < 6,
    ensures
        r@ == spec_table_updated_line(i as int),
{
    let r = "League table updated after Match ".to_owned().concat(
        u64_to_string(i as u64 + 1).as_str(),
    );
    assert(r@ =~= spec_table_updated_line(i as int));
    r
}

/// The history line crowning the league champion.
pub open spec fn spec_champion_hist_line(champ: Seq<char>, pts: int) -> Seq<char> {
    "Champion: "@ + spec_display_name(champ) + " with "@ + spec_u64_string(pts) + " pts"@
}

fn champion_hist_line(champ: &str, pts: u8) -> (r: String)
    ensures
        r@ == spec_champion_hist_line(champ@, pts as int),
{
    let r = "Champion: "
        .to_owned()
        .concat(display_name(champ).as_str())
        .concat(" with ")
        .concat(u64_to_string(pts as u64).as_str())
        .concat(" pts");
    assert(r@ =~= spec_champion_hist_line(champ@, pts as int));
    r
}

/// The closing banner of a finished league.
pub open spec fn spec_league_complete_line(champ: Seq<char>) -> Seq<char> {
    "League complete - Champion "@ + spec_display_name(champ)
}

fn league_complete_line(champ: &str) -> (r: String)
    ensures
        r@ == spec_league_complete_line(champ@),
{
    let r = "League complete - Champion ".to_owned().concat(display_name(champ).as_str());
    assert(r@ =~= spec_league_complete_line(champ@));
    r
}

/// Spec-level running state of a league: the generator, the table in team
/// order, the frames so far, and the history.
#[verifier::ext_equal]
pub ghost struct LeagueAccV {
    pub rng: u64,
    pub rows: Seq<RowV>,
    pub frames: Seq<FrameV>,
    pub history: Seq<Seq<char>>,
}

/// A league before any fixture: zeroed rows and the table-created frame.
pub open spec fn spec_league_init(teams: Seq<Seq<char>>, s0: u64) -> LeagueAccV {
    let rows = spec_zero_rows(teams);
    LeagueAccV {
        rng: s0,
        rows,
        frames: seq![
            FrameV {
                scoreboard: "League created - waiting for Matchday 1"@,
                logs: seq!["League table initialized"@],
                stats_lines: None,
                competition_lines: Some(spec_league_table_lines(spec_sort_rows(rows))),
                history_append: Seq::empty(),
            }
        ],
        history: Seq::empty(),
    }
}

/// One fixture: announce it, play it, update both rows (goal difference
/// recomputed from the new totals), append the result line to history, and
/// emit the table-updated frame with the sorted snapshot.
pub open spec fn spec_league_step(teams: Seq<Seq<char>>, acc: LeagueAccV, i: int) -> LeagueAccV {
    let fx = spec_league_fixture(i);
    let home = teams[fx.0];
    let away = teams[fx.1];
    let pre_frame = spec_empty_frame(
        spec_match_progress_line(i),
        seq![spec_fixture_log_line(i, home, away)],
    );
    let res = spec_match_result(home, away, acc.rng);
    let mfs = spec_match_frames(home, away, acc.rng);
    let rng2 = spec_match_rng(home, away, acc.rng);
    let stats = spec_match_stats_lines(res);
    let rows1 = acc.rows.update(
        fx.0,
        spec_row_after(acc.rows[fx.0], res.home_goals, res.away_goals),
    );
    let rows2 = rows1.update(fx.1, spec_row_after(rows1[fx.1], res.away_goals, res.home_goals));
    let rline = spec_result_line(home, res.home_goals, res.away_goals, away);
    let upd_frame = FrameV {
        scoreboard: spec_table_updated_line(i),
        logs: seq!["Standings updated"@],
        stats_lines: Some(stats),
        competition_lines: Some(spec_league_table_lines(spec_sort_rows(rows2))),
        history_append: seq![rline],
    };
    LeagueAccV {
        rng: rng2,
        rows: rows2,
        frames: acc.frames.push(pre_frame) + mfs + seq![upd_frame],
        history: acc.history.push(rline),
    }
}

/// The league state after the first `n` fixtures.
#[verifier::opaque]
pub open spec fn spec_league_acc(teams: Seq<Seq<char>>, s0: u64, n: int) -> LeagueAccV
    decreases n,
{
    if n <= 0 {
        spec_league_init(teams, s0)
    } else {
        spec_league_step(teams, spec_league_acc(teams, s0, n - 1), n - 1)
    }
}

/// The stat panel after the first `n` fixtures: the latest fixture's lines.
#[verifier::opaque]
pub open spec fn spec_league_last_stats(teams: Seq<Seq<char>>, s0: u64, n: int) -> Seq<Seq<char>> {
    if n <= 0 {
        Seq::empty()
    } else {
        let acc = spec_league_acc(teams, s0, n - 1);
        let fx = spec_league_fixture(n - 1);
        spec_match_stats_lines(spec_match_result(teams[fx.0], teams[fx.1], acc.rng))
    }
}

/// The finished league: the final sorted table, its top row's team as
/// champion, and the league-complete frame.
#[verifier::opaque]
pub open spec fn spec_run_league4(teams: Seq<Seq<char>>, s0: u64) -> PreparedV {
    let acc = spec_league_acc(teams, s0, 6);
    let fin = spec_sort_rows(acc.rows);
    let champion = fin[0].team;
    let champ_line = spec_champion_hist_line(champion, fin[0].pts);
    let final_frame = FrameV {
        scoreboard: spec_league_complete_line(champion),
        logs: seq!["League finished"@],
        stats_lines: Some(spec_league_last_stats(teams, s0, 6)),
        competition_lines: Some(spec_league_table_lines(fin)),
        history_append: seq![champ_line],
    };
    PreparedV {
        frames: acc.frames.push(final_frame),
        outcome: SimOutcomeV::League { champion, final_table: fin },
        history_lines: acc.history.push(champ_line),
    }
}

/// The generator state a league run leaves behind.
#[verifier::opaque]
pub open spec fn spec_league_rng(teams: Seq<Seq<char>>, s0: u64) -> u64 {
    spec_league_acc(teams, s0, 6).rng
}

/// Row ranges after `n` fixtures of a four-team league: each side plays at
/// most `n` times and scores at most ninety goals a match, and every row's
/// goal difference is exactly its goals for minus its goals against.
pub open spec fn league_rows_ok(teams: Seq<Seq<char>>, rows: Seq<RowV>, n: int) -> bool {
    &&& rows.len() == 4
    &&& forall|j: int|
        0 <= j < 4 ==> {
            let r = #[trigger] rows[j];
            &&& r.team == teams[j]
            &&& 0 <= r.p <= n
            &&& 0 <= r.w <= n
            &&& 0 <= r.d <= n
            &&& 0 <= r.l <= n
            &&& 0 <= r.gf <= 90 * n
            &&& 0 <= r.ga <= 90 * n
            &&& r.gd == r.gf - r.ga
            &&& 0 <= r.pts <= 3 * n
        }
}

#[verifier::rlimit(100)]
proof fn lemma_league_rows_ok(teams: Seq<Seq<char>>, s0: u64, n: int)
    requires
        teams.len() == 4,
        0 <= n <= 6,
    ensures
        league_rows_ok(teams, spec_league_acc(teams, s0, n).rows, n),
    decreases n,
{
    reveal(spec_league_acc);
    if n == 0 {
    } else {
        reveal(crate::sim::spec_match_result);
        lemma_league_rows_ok(teams, s0, n - 1);
        let acc = spec_league_acc(teams, s0, n - 1);
        let fx = spec_league_fixture(n - 1);
        let home = teams[fx.0];
        let away = teams[fx.1];
        let cfg = crate::sim::spec_match_cfg(home, away);
        crate::sim::lemma_tactic_bounded(cfg.home_prof.tactic);
        crate::sim::lemma_tactic_bounded(cfg.away_prof.tactic);
        crate::sim::lemma_minutes_bounded(cfg, acc.rng, 90);
    }
}

/// Goal-difference invariant: at every point in a league run, every
/// standings row's goal difference equals its goals for minus its goals
/// against.
pub proof fn lemma_league_goal_difference(teams: Seq<Seq<char>>, s0: u64, n: int)
    requires
        teams.len() == 4,
        0 <= n <= 6,
    ensures
        forall|j: int|
            0 <= j < spec_league_acc(teams, s0, n).rows.len() ==> {
                let r = #[trigger] spec_league_acc(teams, s0, n).rows[j];
                r.gd == r.gf - r.ga
            },
{
    lemma_league_rows_ok(teams, s0, n);
}

#[verifier::rlimit(100)]
fn league_fixture_step(
    teams: &Vec<String>,
    table: &mut Vec<StandingsRow>,
    frames: &mut Vec<SimFrame>,
    history: &mut Vec<String>,
    rng: &mut Rng,
    i: usize,
) -> (stats: Vec<String>)
    requires
        teams@.len() == 4,
        i < 6,
        league_rows_ok(teams.deep_view(), old(table).deep_view(), 5),
    ensures
        ({
            let accin = LeagueAccV {
                rng: old(rng)@,
                rows: old(table).deep_view(),
                frames: old(frames).deep_view(),
                history: old(history).deep_view(),
            };
            let accout = spec_league_step(teams.deep_view(), accin, i as int);
            &&& final(rng)@ == accout.rng
            &&& final(table).deep_view() == accout.rows
            &&& final(frames).deep_view() == accout.frames
            &&& final(history).deep_view() == accout.history
            &&& stats.deep_view() == spec_match_stats_lines(
                spec_match_result(
                    teams.deep_view()[spec_league_fixture(i as int).0],
                    teams.deep_view()[spec_league_fixture(i as int).1],
                    old(rng)@,
                ),
            )
        }),
{
    let ghost tv = teams.deep_view();
    let (hi, ai) = fixture_pair(i);
    let home = teams[hi].clone();
    let away = teams[ai].clone();
    proof {
        reveal(crate::sim::spec_match_result);
        assert(home@ == tv[hi as int]);
        assert(away@ == tv[ai as int]);
    }
    let mut plogs: Vec<String> = Vec::new();
    push_line(&mut plogs, fixture_log_line(i, home.as_str(), away.as_str()));
    proof {
        assert(plogs.deep_view() =~= seq![spec_fixture_log_line(i as int, home@, away@)]);
    }
    let pre_frame = empty_frame(match_progress_line(i), plogs);
    push_frame(frames, pre_frame);
    let ghost cfg = crate::sim::spec_match_cfg(home@, away@);
    proof {
        crate::sim::lemma_tactic_bounded(cfg.home_prof.tactic);
        crate::sim::lemma_tactic_bounded(cfg.away_prof.tactic);
        crate::sim::lemma_minutes_bounded(cfg, rng@, 90);
    }
    let (res, mframes) = simulate_match(home.as_str(), away.as_str(), rng);
    append_frames(frames, mframes);
    let stats = match_stats_lines(&res);
    proof {
        assert(table@[hi as int]@ == old(table).deep_view()[hi as int]);
    }
    let hrow = apply_fixture_result(table[hi].clone(), res.home_goals, res.away_goals);
    replace_row(table, hi, hrow);
    proof {
        assert(old(table).deep_view().len() == 4);
        assert(table.deep_view().len() == 4);
        assert(table@.len() == 4);
        assert(table.deep_view()[ai as int] == table@[ai as int]@);
        assert(table.deep_view()[ai as int] == old(table).deep_view()[ai as int]);
    }
    let arow = apply_fixture_result(table[ai].clone(), res.away_goals, res.home_goals);
    replace_row(table, ai, arow);
    let rline = result_line(home.as_str(), res.home_goals, res.away_goals, away.as_str());
    push_line(history, rline.clone());
    let snapshot = sort_rows(clone_rows(&table));
    let comp = league_table_lines(&snapshot);
    let mut happ: Vec<String> = Vec::new();
    push_line(&mut happ, rline);
    let mut flogs: Vec<String> = Vec::new();
    push_line(&mut flogs, "Standings updated".to_owned());
    let upd_frame = SimFrame {
        scoreboard: table_updated_line(i),
        logs: flogs,
        stats_lines: Some(clone_lines(&stats)),
        competition_lines: Some(comp),
        history_append: happ,
    };
    proof {
        let accin = LeagueAccV {
            rng: old(rng)@,
            rows: old(table).deep_view(),
            frames: old(frames).deep_view(),
            history: old(history).deep_view(),
        };
        let accout = spec_league_step(tv, accin, i as int);
        assert(upd_frame@ =~~= accout.frames[accout.frames.len() - 1]);
    }
    push_frame(frames, upd_frame);
    proof {
        let accin = LeagueAccV {
            rng: old(rng)@,
            rows: old(table).deep_view(),
            frames: old(frames).deep_view(),
            history: old(history).deep_view(),
        };
        let accout = spec_league_step(tv, accin, i as int);
        assert(table.deep_view() =~= accout.rows);
        assert(frames.deep_view() =~= accout.frames);
        assert(history.deep_view() =~= accout.history);
    }
    stats
}

/// Runs a four-team single round-robin league: six fixtures in a fixed
/// order, standings updated and re-sorted after each, the top row of the
/// final table crowned champion. The whole run is a pure function of the
/// team list and the generator's starting state.
#[verifier::rlimit(100)]
pub fn run_league4(teams: &Vec<String>, rng: &mut Rng) -> (r: PreparedSimulation)
    requires
        teams@.len() == 4,
    ensures
        r@ == spec_run_league4(teams.deep_view(), old(rng)@),
        final(rng)@ == spec_league_rng(teams.deep_view(), old(rng)@),
{
    proof {
        reveal(spec_league_acc);
        reveal(spec_league_last_stats);
        reveal(spec_run_league4);
        reveal(spec_league_rng);
    }
    let ghost s0 = rng@;
    let ghost tv = teams.deep_view();
    let mut table = init_table(teams);
    let mut frames: Vec<SimFrame> = Vec::new();
    let mut history: Vec<String> = Vec::new();
    let mut last_stats: Vec<String> = Vec::new();
    let initial_sorted = sort_rows(clone_rows(&table));
    let comp0 = league_table_lines(&initial_sorted);
    let mut logs0: Vec<String> = Vec::new();
    push_line(&mut logs0, "League table initialized".to_owned());
    let frame0 = SimFrame {
        scoreboard: "League created - waiting for Matchday 1".to_owned(),
        logs: logs0,
        stats_lines: None,
        competition_lines: Some(comp0),
        history_append: Vec::new(),
    };
    proof {
        assert(frame0@ =~~= spec_league_init(tv, s0).frames[0]);
    }
    push_frame(&mut frames, frame0);
    proof {
        assert(frames.deep_view() =~= spec_league_init(tv, s0).frames);
        assert(history.deep_view() =~= Seq::<Seq<char>>::empty());
        assert(last_stats.deep_view() =~= Seq::<Seq<char>>::empty());
    }
    let mut i: usize = 0;
    while i < 6
        invariant
            i <= 6,
            tv == teams.deep_view(),
            teams@.len() == 4,
            ({
                let acc = spec_league_acc(tv, s0, i as int);
                &&& rng@ == acc.rng
                &&& table.deep_view() == acc.rows
                &&& frames.deep_view() == acc.frames
                &&& history.deep_view() == acc.history
                &&& last_stats.deep_view() == spec_league_last_stats(tv, s0, i as int)
            }),
        decreases 6 - i,
    {
        let ghost acc = spec_league_acc(tv, s0, i as int);
        proof {
            reveal(spec_league_acc);
            reveal(spec_league_last_stats);
            lemma_league_rows_ok(tv, s0, i as int);
            assert(league_rows_ok(tv, acc.rows, 5));
        }
        let stats = league_fixture_step(teams, &mut table, &mut frames, &mut history, rng, i);
        last_stats = stats;
        i = i + 1;
        proof {
            reveal(spec_league_acc);
            reveal(spec_league_last_stats);
            let acc2 = spec_league_acc(tv, s0, i as int);
            assert(acc2 == spec_league_step(tv, acc, i as int - 1));
        }
    }
    let ghost acc6 = spec_league_acc(tv, s0, 6);
    proof {
        lemma_league_rows_ok(tv, s0, 6);
        lemma_sort_len(acc6.rows);
    }
    let fin = sort_rows(table);
    proof {
        assert(fin.deep_view().len() == 4);
        assert(fin@.len() == 4);
    }
    let champion = fin[0].team.clone();
    let pts = fin[0].pts;
    let chline = champion_hist_line(champion.as_str(), pts);
    push_line(&mut history, chline.clone());
    let comp_f = league_table_lines(&fin);
    let mut flogs2: Vec<String> = Vec::new();
    push_line(&mut flogs2, "League finished".to_owned());
    let mut happ2: Vec<String> = Vec::new();
    push_line(&mut happ2, chline);
    let final_frame = SimFrame {
        scoreboard: league_complete_line(champion.as_str()),
        logs: flogs2,
        stats_lines: Some(last_stats),
        competition_lines: Some(comp_f),
        history_append: happ2,
    };
    proof {
        assert(final_frame@ =~~= spec_run_league4(tv, s0).frames[spec_run_league4(
            tv,
            s0,
        ).frames.len() - 1]);
    }
    push_frame(&mut frames, final_frame);
    let outcome = SimOutcome::League { champion, final_table: fin };
    let prepared = PreparedSimulation { frames, outcome, history_lines: history };
    proof {
        assert(prepared@ =~~= spec_run_league4(tv, s0));
    }
    prepared
}

} // verus!
