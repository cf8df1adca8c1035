//! The service face of a session: wire labels, read projections for
//! summaries and details, and participant resolution for requests that name
//! teams explicitly and may ask for seeded auto-fill.

use std::collections::VecDeque;

use vstd::prelude::*;
use vstd::string::StringExecFns;

use crate::instance::InstanceV;
use crate::instance::SimStatus;
use crate::instance::SimulationInstance;
use crate::instance::StatusV;
use crate::lines::clone_lines;
use crate::lines::push_line;
use crate::rng::spec_range_draw;
use crate::rng::spec_range_mix;
use crate::rng::spec_rng_new;
use crate::rng::Rng;
use crate::runner::spec_required_team_count;
use crate::session::names_contain;
use crate::session::spec_filter_names;
use crate::session::spec_mode_label;
use crate::session::spec_team_names;
use crate::sim::spec_sim_type_str;
use crate::sim::SimulationType;
use crate::text::spec_u64_string;
use crate::text::str_eq;
use crate::text::u64_to_string;

verus! {

/// The display label of a tournament shape.
pub fn sim_type_label(sim_type: SimulationType) -> (r: &'static str)
    ensures
        r@ == spec_mode_label(sim_type),
{
    match sim_type {
        SimulationType::Single => "Single Match",
        SimulationType::League4 => "4-Team League",
        SimulationType::Knockout4 => "4-Team Knockout",
    }
}

/// The shape a wire label selects, if any.
pub open spec fn spec_mode_to_sim_type(mode: Seq<char>) -> Option<SimulationType> {
    if mode == "single"@ {
        Some(SimulationType::Single)
    } else if mode == "league4"@ {
        Some(SimulationType::League4)
    } else if mode == "knockout4"@ {
        Some(SimulationType::Knockout4)
    } else {
        None
    }
}

/// Parses a wire label into a tournament shape.
pub fn mode_to_sim_type(mode: &str) -> (r: Option<SimulationType>)
    ensures
        r == spec_mode_to_sim_type(mode@),
{
    if str_eq(mode, "single") {
        Some(SimulationType::Single)
    } else if str_eq(mode, "league4") {
        Some(SimulationType::League4)
    } else if str_eq(mode, "knockout4") {
        Some(SimulationType::Knockout4)
    } else {
        None
    }
}

/// The participant count a tournament shape needs.
pub fn required_team_count(sim_type: SimulationType) -> (r: usize)
    ensures
        r as int == spec_required_team_count(sim_type),
{
    match sim_type {
        SimulationType::Single => 2,
        SimulationType::League4 => 4,
        SimulationType::Knockout4 => 4,
    }
}

/// The wire label of a playback status.
pub open spec fn spec_status_label(st: StatusV) -> Seq<char> {
    match st {
        StatusV::Pending => "pending"@,
        StatusV::Running { frame_index: _, total_frames: _ } => "running"@,
        StatusV::Completed => "completed"@,
    }
}

/// The wire label of a session's status.
pub fn status_label(status: &SimStatus) -> (r: &'static str)
    ensures
        r@ == spec_status_label(status@),
{
    match status {
        SimStatus::Pending => "pending",
        SimStatus::Running { frame_index: _, total_frames: _ } => "running",
        SimStatus::Completed => "completed",
    }
}

/// The badge a dashboard shows for a session's status.
pub open spec fn spec_status_badge(st: StatusV) -> Seq<char> {
    match st {
        StatusV::Pending => "PENDING"@,
        StatusV::Running { frame_index: _, total_frames: _ } => "RUNNING"@,
        StatusV::Completed => "COMPLETED"@,
    }
}

/// The status badge of a session.
pub fn status_badge(status: &SimStatus) -> (r: &'static str)
    ensures
        r@ == spec_status_badge(status@),
{
    match status {
        SimStatus::Pending => "PENDING",
        SimStatus::Running { frame_index: _, total_frames: _ } => "RUNNING",
        SimStatus::Completed => "COMPLETED",
    }
}

/// The title a session displays: the pairing of a two-team single match, or
/// the shape's label.
pub open spec fn spec_simulation_title(v: InstanceV) -> Seq<char> {
    match v.sim_type {
        SimulationType::Single => if v.teams.len() == 2 {
            "Match: "@ + v.teams[0] + " vs "@ + v.teams[1]
        } else {
            "Match"@
        },
        _ => spec_mode_label(v.sim_type),
    }
}

/// Builds a session's display title.
pub fn simulation_title(sim: &SimulationInstance) -> (r: String)
    ensures
        r@ == spec_simulation_title(sim@),
{
    match sim.sim_type {
        SimulationType::Single => {
            if sim.teams.len() == 2 {
                let r = "Match: ".to_owned().concat(sim.teams[0].as_str()).concat(" vs ").concat(
                    sim.teams[1].as_str(),
                );
                assert(r@ =~= spec_simulation_title(sim@));
                r
            } else {
                "Match".to_owned()
            }
        },
        _ => sim_type_label(sim.sim_type).to_owned(),
    }
}

/// A one-line view of a session, as a list endpoint returns it.
pub struct SimulationSummaryDto {
    pub id: usize,
    pub mode: String,
    pub status: String,
    pub seed: u64,
    pub teams: Vec<String>,
    pub title: String,
    pub progress: String,
    pub scoreboard: String,
    pub outcome: String,
}

/// Builds the summary projection of a session.
pub fn to_summary(sim: &SimulationInstance) -> (r: SimulationSummaryDto)
    ensures
        r.id == sim.id,
        r.mode@ == spec_sim_type_str(sim@.sim_type),
        r.status@ == spec_status_label(sim@.status),
        r.seed == sim.seed,
        r.teams.deep_view() == sim@.teams,
        r.title@ == spec_simulation_title(sim@),
        r.progress@ == crate::instance::spec_progress_text(sim@.status),
        r.scoreboard@ == sim@.scoreboard,
        r.outcome@ == crate::instance::spec_outcome_summary(sim@),
{
    SimulationSummaryDto {
        id: sim.id,
        mode: sim.sim_type.as_str().to_owned(),
        status: status_label(&sim.status).to_owned(),
        seed: sim.seed,
        teams: clone_lines(&sim.teams),
        title: simulation_title(sim),
        progress: sim.progress_text(),
        scoreboard: sim.scoreboard.clone(),
        outcome: sim.outcome_summary(),
    }
}

/// The full view of a session: the summary plus its log ring buffer, stat
/// panel, competition panel and history.
pub struct SimulationDetailDto {
    pub id: usize,
    pub mode: String,
    pub status: String,
    pub seed: u64,
    pub teams: Vec<String>,
    pub title: String,
    pub progress: String,
    pub scoreboard: String,
    pub outcome: String,
    pub logs: Vec<String>,
    pub stats_lines: Vec<String>,
    pub competition_lines: Vec<String>,
    pub history_lines: Vec<String>,
}

/// Copies a log ring buffer out as a plain list, oldest first.
pub fn vecdeque_to_vec(items: &VecDeque<String>) -> (r: Vec<String>)
    ensures
        r.deep_view() == items.deep_view(),
{
    let mut out: Vec<String> = Vec::new();
    let mut i: usize = 0;
    while i < items.len()
        invariant
            i <= items@.len(),
            out.deep_view() =~= items.deep_view().take(i as int),
        decreases items@.len() - i,
    {
        push_line(&mut out, items[i].clone());
        assert(out.deep_view() =~= items.deep_view().take(i as int + 1));
        i = i + 1;
    }
    assert(items.deep_view().take(items@.len() as int) =~= items.deep_view());
    out
}

/// Builds the detail projection of a session.
pub fn to_detail(sim: &SimulationInstance) -> (r: SimulationDetailDto)
    ensures
        r.id == sim.id,
        r.mode@ == spec_sim_type_str(sim@.sim_type),
        r.status@ == spec_status_label(sim@.status),
        r.seed == sim.seed,
        r.teams.deep_view() == sim@.teams,
        r.title@ == spec_simulation_title(sim@),
        r.progress@ == crate::instance::spec_progress_text(sim@.status),
        r.scoreboard@ == sim@.scoreboard,
        r.outcome@ == crate::instance::spec_outcome_summary(sim@),
        r.logs.deep_view() == sim@.logs,
        r.stats_lines.deep_view() == sim@.stats_lines,
        r.competition_lines.deep_view() == sim@.competition_lines,
        r.history_lines.deep_view() == sim@.history_lines,
{
    SimulationDetailDto {
        id: sim.id,
        mode: sim.sim_type.as_str().to_owned(),
        status: status_label(&sim.status).to_owned(),
        seed: sim.seed,
        teams: clone_lines(&sim.teams),
        title: simulation_title(sim),
        progress: sim.progress_text(),
        scoreboard: sim.scoreboard.clone(),
        outcome: sim.outcome_summary(),
        logs: vecdeque_to_vec(&sim.logs),
        stats_lines: clone_lines(&sim.stats_lines),
        competition_lines: clone_lines(&sim.competition_lines),
        history_lines: clone_lines(&sim.history_lines),
    }
}

/// The validation pass over explicitly named teams: each must be a catalog
/// team and must not repeat an earlier one; rejected at the first offender.
pub open spec fn spec_validate_provided(teams: Seq<Seq<char>>, k: int) -> Option<Seq<char>>
    decreases teams.len() - k,
{
    if k < 0 || k >= teams.len() {
        None
    } else if !spec_team_names().contains(teams[k]) {
        Some("Unknown team: "@ + teams[k])
    } else if teams.take(k).contains(teams[k]) {
        Some("Duplicate team: "@ + teams[k])
    } else {
        spec_validate_provided(teams, k + 1)
    }
}

/// The auto-fill pass: draws without replacement from the pool until the
/// required count is reached, or fails on an empty pool.
pub open spec fn spec_autofill(
    selected: Seq<Seq<char>>,
    pool: Seq<Seq<char>>,
    s: u64,
    required: int,
) -> Result<Seq<Seq<char>>, Seq<char>>
    decreases required - selected.len(),
{
    if selected.len() >= required {
        Ok(selected)
    } else if pool.len() == 0 {
        Err("Not enough teams available for auto-fill"@)
    } else {
        let i = spec_range_draw(s, pool.len() as usize) as int;
        let s2 = spec_range_mix(s, pool.len() as usize);
        spec_autofill(selected.push(pool[i]), pool.remove(i), s2, required)
    }
}

/// The participant list an explicit request resolves to: at most the
/// required count of valid, distinct catalog names, filled to the required
/// count by seeded draws when auto-fill is on, required exactly otherwise.
pub open spec fn spec_resolve_teams(
    t: SimulationType,
    provided: Option<Seq<Seq<char>>>,
    auto_fill: bool,
    seed: u64,
) -> Result<Seq<Seq<char>>, Seq<char>> {
    let required = spec_required_team_count(t);
    let selected = match provided {
        Some(v) => v,
        None => Seq::empty(),
    };
    if selected.len() > required {
        Err(
            "mode "@ + spec_sim_type_str(t) + " accepts at most "@ + spec_u64_string(required)
                + " teams"@,
        )
    } else {
        match spec_validate_provided(selected, 0) {
            Some(e) => Err(e),
            None => if !auto_fill && selected.len() != required {
                Err(
                    "mode "@ + spec_sim_type_str(t) + " requires exactly "@ + spec_u64_string(
                        required,
                    ) + " teams when auto_fill=false"@,
                )
            } else if auto_fill {
                spec_autofill(
                    selected,
                    spec_filter_names(spec_team_names(), selected),
                    spec_rng_new(seed),
                    required,
                )
            } else {
                Ok(selected)
            },
        }
    }
}

fn filter_pool(names: &Vec<String>, taken: &Vec<String>) -> (r: Vec<String>)
    ensures
        r.deep_view() == spec_filter_names(names.deep_view(), taken.deep_view()),
{
    let mut out: Vec<String> = Vec::new();
    let mut i: usize = 0;
    let ghost nv = names.deep_view();
    let ghost sv = taken.deep_view();
    proof {
        assert(nv.skip(0) =~= nv);
    }
    while i < names.len()
        invariant
            i <= names@.len(),
            nv == names.deep_view(),
            sv == taken.deep_view(),
            spec_filter_names(nv, sv) =~= out.deep_view() + spec_filter_names(
                nv.skip(i as int),
                sv,
            ),
        decreases names@.len() - i,
    {
        proof {
            assert(nv.skip(i as int)[0] == nv[i as int]);
            assert(nv.skip(i as int).skip(1) =~= nv.skip(i as int + 1));
        }
        if !names_contain(taken, names[i].as_str()) {
            push_line(&mut out, names[i].clone());
        }
        i = i + 1;
        assert(spec_filter_names(nv, sv) =~= out.deep_view() + spec_filter_names(
            nv.skip(i as int),
            sv,
        ));
    }
    proof {
        assert(nv.skip(names@.len() as int).len() == 0);
        assert(out.deep_view() =~= spec_filter_names(nv, sv));
    }
    out
}

/// Resolves an explicit request to a participant list: the named teams must
/// be distinct catalog teams and no more than the shape requires; with
/// auto-fill the rest is drawn without replacement from the remaining
/// catalog, seeded deterministically; without it the count must be exact.
pub fn resolve_teams(
    sim_type: SimulationType,
    provided_teams: Option<Vec<String>>,
    auto_fill: bool,
    seed: u64,
) -> (r: Result<Vec<String>, String>)
    ensures
        ({
            let pv = match provided_teams {
                Some(v) => Some(v.deep_view()),
                None => None,
            };
            match r {
                Ok(teams) => spec_resolve_teams(sim_type, pv, auto_fill, seed) == Ok::<
                    _,
                    Seq<char>,
                >(teams.deep_view()),
                Err(e) => spec_resolve_teams(sim_type, pv, auto_fill, seed) == Err::<
                    Seq<Seq<char>>,
                    _,
                >(e@),
            }
        }),
{
    let required = required_team_count(sim_type);
    let ghost pv = match provided_teams {
        Some(ref v) => Some(v.deep_view()),
        None => None,
    };
    let mut selected: Vec<String> = match provided_teams {
        Some(v) => v,
        None => Vec::new(),
    };
    proof {
        if pv is None {
            assert(selected.deep_view() =~= Seq::<Seq<char>>::empty());
        }
    }
    let ghost sel0 = selected.deep_view();
    if selected.len() > required {
        let e = "mode "
            .to_owned()
            .concat(sim_type.as_str())
            .concat(" accepts at most ")
            .concat(u64_to_string(required as u64).as_str())
            .concat(" teams");
        assert(e@ =~= "mode "@ + spec_sim_type_str(sim_type) + " accepts at most "@
            + spec_u64_string(spec_required_team_count(sim_type)) + " teams"@);
        return Err(e);
    }
    let names = crate::catalog::team_names();
    proof {
        assert(names.deep_view() =~= spec_team_names());
    }
    let mut k: usize = 0;
    while k < selected.len()
        invariant
            k <= selected@.len(),
            sel0 == selected.deep_view(),
            sel0 == (match provided_teams {
                Some(v) => v.deep_view(),
                None => Seq::<Seq<char>>::empty(),
            }),
            required as int == spec_required_team_count(sim_type),
            sel0.len() <= required as int,
            names.deep_view() == spec_team_names(),
            spec_validate_provided(sel0, 0) == spec_validate_provided(sel0, k as int),
        decreases selected@.len() - k,
    {
        let ghost k0 = k as int;
        let team = &selected[k];
        proof {
            assert(selected.deep_view()[k0] == selected@[k0]@);
        }
        if !names_contain(&names, team.as_str()) {
            let e = "Unknown team: ".to_owned().concat(team.as_str());
            proof {
                assert(e@ =~= "Unknown team: "@ + sel0[k0]);
                assert(spec_validate_provided(sel0, k0) == Some("Unknown team: "@ + sel0[k0]));
            }
            return Err(e);
        }
        let mut dup = false;
        let mut j: usize = 0;
        while j < k
            invariant
                j <= k,
                k < selected@.len(),
                sel0 == selected.deep_view(),
                dup == sel0.take(k as int).take(j as int).contains(sel0[k as int]),
            decreases k - j,
        {
            proof {
                assert(sel0.take(k as int)[j as int] == sel0[j as int]);
            }
            if str_eq(selected[j].as_str(), selected[k].as_str()) {
                dup = true;
            }
            proof {
                if dup {
                    if sel0[j as int] == sel0[k as int] {
                        assert(sel0.take(k as int).take(j as int + 1)[j as int] == sel0[k as int]);
                    }
                }
                assert(sel0.take(k as int).take(j as int).push(sel0[j as int]) =~= sel0.take(
                    k as int,
                ).take(j as int + 1));
            }
            j = j + 1;
        }
        proof {
            assert(sel0.take(k as int).take(k as int) =~= sel0.take(k as int));
        }
        if dup {
            let e = "Duplicate team: ".to_owned().concat(team.as_str());
            proof {
                assert(e@ =~= "Duplicate team: "@ + sel0[k0]);
                assert(spec_validate_provided(sel0, k0) == Some("Duplicate team: "@ + sel0[k0]));
            }
            return Err(e);
        }
        k = k + 1;
        proof {
            assert(spec_validate_provided(sel0, k0) == spec_validate_provided(sel0, k as int));
        }
    }
    proof {
        assert(spec_validate_provided(sel0, 0) is None);
    }
    if !auto_fill {
        if selected.len() != required {
            let e = "mode "
                .to_owned()
                .concat(sim_type.as_str())
                .concat(" requires exactly ")
                .concat(u64_to_string(required as u64).as_str())
                .concat(" teams when auto_fill=false");
            assert(e@ =~= "mode "@ + spec_sim_type_str(sim_type) + " requires exactly "@
                + spec_u64_string(spec_required_team_count(sim_type))
                + " teams when auto_fill=false"@);
            return Err(e);
        }
        return Ok(selected);
    }
    let mut pool = filter_pool(&names, &selected);
    let mut rng = Rng::new(seed);
    while selected.len() < required
        invariant
            names.deep_view() == spec_team_names(),
            required as int == spec_required_team_count(sim_type),
            auto_fill,
            sel0 == (match provided_teams {
                Some(v) => v.deep_view(),
                None => Seq::<Seq<char>>::empty(),
            }),
            sel0.len() <= required as int,
            spec_validate_provided(sel0, 0) is None,
            spec_autofill(
                sel0,
                spec_filter_names(spec_team_names(), sel0),
                spec_rng_new(seed),
                required as int,
            ) == spec_autofill(
                selected.deep_view(),
                pool.deep_view(),
                rng@,
                required as int,
            ),
        decreases required - selected.len(),
    {
        let ghost selpre = selected.deep_view();
        let ghost poolpre = pool.deep_view();
        let ghost s0 = rng@;
        proof {
            assert(selected.deep_view().len() == selected@.len());
            assert(pool.deep_view().len() == pool@.len());
        }
        if pool.len() == 0 {
            proof {
                assert(poolpre.len() == 0);
                assert(spec_autofill(selpre, poolpre, s0, required as int) == Err::<
                    Seq<Seq<char>>,
                    _,
                >("Not enough teams available for auto-fill"@));
            }
            return Err("Not enough teams available for auto-fill".to_owned());
        }
        let i = rng.range_usize(pool.len());
        let picked = pool.remove(i);
        proof {
            assert(pool.deep_view() =~= poolpre.remove(i as int));
            assert(picked@ == poolpre[i as int]);
        }
        push_line(&mut selected, picked);
        proof {
            assert(spec_autofill(selpre, poolpre, s0, required as int) == spec_autofill(
                selected.deep_view(),
                pool.deep_view(),
                rng@,
                required as int,
            ));
        }
    }
    proof {
        assert(selected.deep_view().len() == selected@.len());
        assert(spec_autofill(
            selected.deep_view(),
            pool.deep_view(),
            rng@,
            required as int,
        ) == Ok::<_, Seq<char>>(selected.deep_view()));
    }
    Ok(selected)
}

} // verus!
