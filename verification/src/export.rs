//! CSV projection of a finished simulation: labeled rows for a single match,
//! the final table for a league, staged history lines for a knockout. Every
//! cell passes through the injection-safe escaping of [`crate::text`].

use vstd::prelude::*;
use vstd::string::StrSliceExecFns;
use vstd::string::StringExecFns;
use vstd::string::StringSliceAdditionalSpecFns;

use crate::sim::MatchResultV;
use crate::sim::PreparedSimulation;
use crate::sim::PreparedV;
use crate::sim::RowV;
use crate::sim::SimOutcome;
use crate::sim::SimOutcomeV;
use crate::sim::StandingsRow;
use crate::text::spec_csv_escape;
use crate::text::spec_i64_string;
use crate::text::spec_micro_2dp;
use crate::text::spec_u64_string;
use crate::text::csv_escape;
use crate::text::i64_to_string;
use crate::text::micro_2dp;
use crate::text::str_eq;
use crate::text::u64_to_string;
use crate::lines::push_line;

verus! {

/// The cells of one CSV row, escaped and comma-separated.
pub open spec fn spec_row_cells(cols: Seq<Seq<char>>) -> Seq<char>
    decreases cols.len(),
{
    if cols.len() == 0 {
        Seq::empty()
    } else if cols.len() == 1 {
        spec_csv_escape(cols[0])
    } else {
        spec_row_cells(cols.drop_last()) + ","@ + spec_csv_escape(cols.last())
    }
}

/// One CSV row: the escaped cells and a terminating newline.
pub open spec fn spec_csv_row(cols: Seq<Seq<char>>) -> Seq<char> {
    spec_row_cells(cols) + "\n"@
}

/// Appends one CSV row to the output.
pub fn write_row(out: &mut String, cols: &Vec<String>)
    ensures
        final(out)@ == old(out)@ + spec_csv_row(cols.deep_view()),
{
    let ghost before = out@;
    let mut row = String::new();
    let mut j: usize = 0;
    while j < cols.len()
        invariant
            j <= cols@.len(),
            j == 0 ==> row@ =~= Seq::<char>::empty(),
            j > 0 ==> row@ =~= spec_row_cells(cols.deep_view().take(j as int)),
        decreases cols@.len() - j,
    {
        if j > 0 {
            row.append(",");
        }
        row.append(csv_escape(cols[j].as_str()).as_str());
        proof {
            let dv = cols.deep_view();
            assert(dv.take(j as int + 1).drop_last() =~= dv.take(j as int));
            assert(dv.take(j as int + 1).last() == dv[j as int]);
            if j > 0 {
                assert(row@ =~= spec_row_cells(dv.take(j as int + 1)));
            } else {
                assert(dv.take(1).len() == 1);
                assert(row@ =~= spec_row_cells(dv.take(1)));
            }
        }
        j = j + 1;
    }
    proof {
        assert(cols.deep_view().take(cols@.len() as int) =~= cols.deep_view());
        if cols@.len() == 0 {
            assert(row@ =~= spec_row_cells(cols.deep_view()));
        }
    }
    out.append(row.as_str());
    out.append("\n");
    assert(out@ =~= before + spec_csv_row(cols.deep_view()));
}

/// The CSV of a single match: labeled two-column rows of names, goals,
/// shots, expected goals, possession and discipline.
pub open spec fn spec_csv_single(m: MatchResultV) -> Seq<char> {
    spec_csv_row(seq!["Category"@, "Home Team"@, "Away Team"@]) + spec_csv_row(
        seq!["Team"@, m.home, m.away],
    ) + spec_csv_row(
        seq!["Goals"@, spec_u64_string(m.home_goals), spec_u64_string(m.away_goals)],
    ) + spec_csv_row(
        seq!["Shots"@, spec_u64_string(m.stats.home.shots), spec_u64_string(m.stats.away.shots)],
    ) + spec_csv_row(
        seq![
            "Shots on Target"@,
            spec_u64_string(m.stats.home.sot),
            spec_u64_string(m.stats.away.sot),
        ],
    ) + spec_csv_row(
        seq!["xG"@, spec_micro_2dp(m.stats.home.xg), spec_micro_2dp(m.stats.away.xg)],
    ) + spec_csv_row(
        seq![
            "Possession"@,
            spec_u64_string(m.home_possession) + "%"@,
            spec_u64_string(m.away_possession) + "%"@,
        ],
    ) + spec_csv_row(
        seq![
            "Corners"@,
            spec_u64_string(m.stats.home.corners),
            spec_u64_string(m.stats.away.corners),
        ],
    ) + spec_csv_row(
        seq!["Fouls"@, spec_u64_string(m.stats.home.fouls), spec_u64_string(m.stats.away.fouls)],
    ) + spec_csv_row(
        seq![
            "Yellow Cards"@,
            spec_u64_string(m.stats.home.yellows),
            spec_u64_string(m.stats.away.yellows),
        ],
    ) + spec_csv_row(
        seq!["Saves"@, spec_u64_string(m.stats.home.saves), spec_u64_string(m.stats.away.saves)],
    )
}

/// The CSV rows of a league table, one per standings row, in table order.
pub open spec fn spec_csv_league_rows(rows: Seq<RowV>) -> Seq<char>
    decreases rows.len(),
{
    if rows.len() == 0 {
        Seq::empty()
    } else {
        spec_csv_league_rows(rows.drop_last()) + spec_csv_row(
            seq![
                rows.last().team,
                spec_u64_string(rows.last().p),
                spec_u64_string(rows.last().w),
                spec_u64_string(rows.last().d),
                spec_u64_string(rows.last().l),
                spec_u64_string(rows.last().gf),
                spec_u64_string(rows.last().ga),
                spec_i64_string(rows.last().gd),
                spec_u64_string(rows.last().pts),
            ],
        )
    }
}

/// The CSV of a league: a header row and the final table.
pub open spec fn spec_csv_league(final_table: Seq<RowV>) -> Seq<char> {
    spec_csv_row(
        seq!["Team"@, "P"@, "W"@, "D"@, "L"@, "GF"@, "GA"@, "GD"@, "Pts"@],
    ) + spec_csv_league_rows(final_table)
}

/// Whether a line starts with the given prefix.
pub open spec fn spec_starts_with(s: Seq<char>, prefix: Seq<char>) -> bool {
    s.len() >= prefix.len() && s.take(prefix.len() as int) == prefix
}

fn starts_with(s: &str, prefix: &str) -> (r: bool)
    ensures
        r == spec_starts_with(s@, prefix@),
{
    let n = s.unicode_len();
    let m = prefix.unicode_len();
    if n < m {
        false
    } else {
        str_eq(s.substring_char(0, m), prefix)
    }
}

/// The stage label a knockout history line gets, inferred from its leading
/// text.
pub open spec fn spec_stage_of(line: Seq<char>) -> Seq<char> {
    if spec_starts_with(line, "Semi 1"@) {
        "Semi 1"@
    } else if spec_starts_with(line, "Semi 2"@) {
        "Semi 2"@
    } else if spec_starts_with(line, "Final"@) {
        "Final"@
    } else if spec_starts_with(line, "Champion"@) {
        "Champion"@
    } else {
        "Info"@
    }
}

fn stage_of(line: &str) -> (r: &'static str)
    ensures
        r@ == spec_stage_of(line@),
{
    if starts_with(line, "Semi 1") {
        "Semi 1"
    } else if starts_with(line, "Semi 2") {
        "Semi 2"
    } else if starts_with(line, "Final") {
        "Final"
    } else if starts_with(line, "Champion") {
        "Champion"
    } else {
        "Info"
    }
}

/// The CSV rows of a knockout history, one staged row per line, in order.
pub open spec fn spec_csv_knockout_rows(history: Seq<Seq<char>>) -> Seq<char>
    decreases history.len(),
{
    if history.len() == 0 {
        Seq::empty()
    } else {
        spec_csv_knockout_rows(history.drop_last()) + spec_csv_row(
            seq![spec_stage_of(history.last()), history.last()],
        )
    }
}

/// The CSV of a knockout: a header row and the staged history lines.
pub open spec fn spec_csv_knockout(history: Seq<Seq<char>>) -> Seq<char> {
    spec_csv_row(seq!["Stage"@, "Match Result"@]) + spec_csv_knockout_rows(history)
}

/// The CSV text of a finished simulation, by its outcome kind.
pub open spec fn spec_simulation_csv(p: PreparedV) -> Seq<char> {
    match p.outcome {
        SimOutcomeV::Single(m) => spec_csv_single(m),
        SimOutcomeV::League { champion: _, final_table } => spec_csv_league(final_table),
        SimOutcomeV::Knockout { champion: _ } => spec_csv_knockout(p.history_lines),
    }
}

fn two_cols(a: String, b: String, c: String) -> (r: Vec<String>)
    ensures
        r.deep_view() == seq![a@, b@, c@],
{
    let mut v: Vec<String> = Vec::new();
    push_line(&mut v, a);
    push_line(&mut v, b);
    push_line(&mut v, c);
    assert(v.deep_view() =~= seq![a@, b@, c@]);
    v
}

fn csv_single(m: &crate::sim::MatchResult, out: &mut String)
    requires
        m.stats.home.xg < 0x1000_0000_0000_0000,
        m.stats.away.xg < 0x1000_0000_0000_0000,
    ensures
        final(out)@ == old(out)@ + spec_csv_single(m@),
{
    let ghost before = out@;
    write_row(
        out,
        &two_cols("Category".to_owned(), "Home Team".to_owned(), "Away Team".to_owned()),
    );
    write_row(out, &two_cols("Team".to_owned(), m.home.clone(), m.away.clone()));
    write_row(
        out,
        &two_cols(
            "Goals".to_owned(),
            u64_to_string(m.home_goals as u64),
            u64_to_string(m.away_goals as u64),
        ),
    );
    write_row(
        out,
        &two_cols(
            "Shots".to_owned(),
            u64_to_string(m.stats.home.shots as u64),
            u64_to_string(m.stats.away.shots as u64),
        ),
    );
    write_row(
        out,
        &two_cols(
            "Shots on Target".to_owned(),
            u64_to_string(m.stats.home.sot as u64),
            u64_to_string(m.stats.away.sot as u64),
        ),
    );
    write_row(
        out,
        &two_cols("xG".to_owned(), micro_2dp(m.stats.home.xg), micro_2dp(m.stats.away.xg)),
    );
    write_row(
        out,
        &two_cols(
            "Possession".to_owned(),
            u64_to_string(m.home_possession as u64).concat("%"),
            u64_to_string(m.away_possession as u64).concat("%"),
        ),
    );
    write_row(
        out,
        &two_cols(
            "Corners".to_owned(),
            u64_to_string(m.stats.home.corners as u64),
            u64_to_string(m.stats.away.corners as u64),
        ),
    );
    write_row(
        out,
        &two_cols(
            "Fouls".to_owned(),
            u64_to_string(m.stats.home.fouls as u64),
            u64_to_string(m.stats.away.fouls as u64),
        ),
    );
    write_row(
        out,
        &two_cols(
            "Yellow Cards".to_owned(),
            u64_to_string(m.stats.home.yellows as u64),
            u64_to_string(m.stats.away.yellows as u64),
        ),
    );
    write_row(
        out,
        &two_cols(
            "Saves".to_owned(),
            u64_to_string(m.stats.home.saves as u64),
            u64_to_string(m.stats.away.saves as u64),
        ),
    );
    assert(out@ =~= before + spec_csv_single(m@));
}

fn csv_league(final_table: &Vec<StandingsRow>, out: &mut String)
    ensures
        final(out)@ == old(out)@ + spec_csv_league(final_table.deep_view()),
{
    let ghost before = out@;
    let mut header: Vec<String> = Vec::new();
    push_line(&mut header, "Team".to_owned());
    push_line(&mut header, "P".to_owned());
    push_line(&mut header, "W".to_owned());
    push_line(&mut header, "D".to_owned());
    push_line(&mut header, "L".to_owned());
    push_line(&mut header, "GF".to_owned());
    push_line(&mut header, "GA".to_owned());
    push_line(&mut header, "GD".to_owned());
    push_line(&mut header, "Pts".to_owned());
    proof {
        assert(header.deep_view() =~= seq![
            "Team"@,
            "P"@,
            "W"@,
            "D"@,
            "L"@,
            "GF"@,
            "GA"@,
            "GD"@,
            "Pts"@,
        ]);
    }
    write_row(out, &header);
    let mut j: usize = 0;
    while j < final_table.len()
        invariant
            j <= final_table@.len(),
            out@ =~= before + spec_csv_row(
                seq!["Team"@, "P"@, "W"@, "D"@, "L"@, "GF"@, "GA"@, "GD"@, "Pts"@],
            ) + spec_csv_league_rows(final_table.deep_view().take(j as int)),
        decreases final_table@.len() - j,
    {
        let r = &final_table[j];
        let mut cells: Vec<String> = Vec::new();
        push_line(&mut cells, r.team.clone());
        push_line(&mut cells, u64_to_string(r.p as u64));
        push_line(&mut cells, u64_to_string(r.w as u64));
        push_line(&mut cells, u64_to_string(r.d as u64));
        push_line(&mut cells, u64_to_string(r.l as u64));
        push_line(&mut cells, u64_to_string(r.gf as u64));
        push_line(&mut cells, u64_to_string(r.ga as u64));
        push_line(&mut cells, i64_to_string(r.gd as i64));
        push_line(&mut cells, u64_to_string(r.pts as u64));
        write_row(out, &cells);
        proof {
            let dv = final_table.deep_view();
            assert(dv.take(j as int + 1).drop_last() =~= dv.take(j as int));
            assert(dv.take(j as int + 1).last() == dv[j as int]);
            assert(cells.deep_view() =~= seq![
                dv[j as int].team,
                spec_u64_string(dv[j as int].p),
                spec_u64_string(dv[j as int].w),
                spec_u64_string(dv[j as int].d),
                spec_u64_string(dv[j as int].l),
                spec_u64_string(dv[j as int].gf),
                spec_u64_string(dv[j as int].ga),
                spec_i64_string(dv[j as int].gd),
                spec_u64_string(dv[j as int].pts),
            ]);
        }
        j = j + 1;
    }
    proof {
        assert(final_table.deep_view().take(final_table@.len() as int) =~= final_table.deep_view());
    }
}

fn csv_knockout(history: &Vec<String>, out: &mut String)
    ensures
        final(out)@ == old(out)@ + spec_csv_knockout(history.deep_view()),
{
    let ghost before = out@;
    let mut header: Vec<String> = Vec::new();
    push_line(&mut header, "Stage".to_owned());
    push_line(&mut header, "Match Result".to_owned());
    proof {
        assert(header.deep_view() =~= seq!["Stage"@, "Match Result"@]);
    }
    write_row(out, &header);
    let mut j: usize = 0;
    while j < history.len()
        invariant
            j <= history@.len(),
            out@ =~= before + spec_csv_row(seq!["Stage"@, "Match Result"@])
                + spec_csv_knockout_rows(history.deep_view().take(j as int)),
        decreases history@.len() - j,
    {
        let line = &history[j];
        let mut cells: Vec<String> = Vec::new();
        push_line(&mut cells, stage_of(line.as_str()).to_owned());
        push_line(&mut cells, line.clone());
        write_row(out, &cells);
        proof {
            let dv = history.deep_view();
            assert(dv.take(j as int + 1).drop_last() =~= dv.take(j as int));
            assert(dv.take(j as int + 1).last() == dv[j as int]);
            assert(cells.deep_view() =~= seq![spec_stage_of(dv[j as int]), dv[j as int]]);
        }
        j = j + 1;
    }
    proof {
        assert(history.deep_view().take(history@.len() as int) =~= history.deep_view());
    }
}

/// Serializes a finished simulation to CSV bytes (UTF-8 of the CSV text):
/// labeled rows for a single match, the final table for a league, staged
/// history lines for a knockout.
pub fn simulation_to_csv_bytes(sim: &PreparedSimulation) -> (r: Vec<u8>)
    requires
        (sim.outcome matches SimOutcome::Single(m) ==> m.stats.home.xg < 0x1000_0000_0000_0000
            && m.stats.away.xg < 0x1000_0000_0000_0000),
    ensures
        r@ == vstd::utf8::encode_utf8(spec_simulation_csv(sim@)),
{
    let mut out = String::new();
    match &sim.outcome {
        SimOutcome::Single(m) => {
            csv_single(m, &mut out);
        },
        SimOutcome::League { champion: _, final_table } => {
            csv_league(final_table, &mut out);
        },
        SimOutcome::Knockout { champion: _ } => {
            csv_knockout(&sim.history_lines, &mut out);
        },
    }
    assert(out@ =~= spec_simulation_csv(sim@));
    let s = out.as_str();
    let bytes = vstd::slice::slice_to_vec(s.as_bytes());
    proof {
        assert(bytes@ == s.spec_bytes());
    }
    bytes
}

} // verus!
