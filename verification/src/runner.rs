//! Running one simulation to completion: a single match, a league or a
//! knockout, dispatched by tournament shape.

use vstd::prelude::*;
use vstd::string::StringExecFns;

use crate::knockout::spec_run_knockout4;
use crate::knockout::spec_knockout_rng;
use crate::knockout::run_knockout4;
use crate::league::spec_result_line;
use crate::league::spec_run_league4;
use crate::league::spec_league_rng;
use crate::league::append_frames;
use crate::league::result_line;
use crate::league::run_league4;
use crate::rng::Rng;
use crate::sim::match_stats_lines;
use crate::sim::push_frame;
use crate::sim::simulate_match;
use crate::sim::spec_match_frames;
use crate::sim::spec_match_result;
use crate::sim::spec_match_rng;
use crate::sim::spec_match_stats_lines;
use crate::sim::FrameV;
use crate::sim::PreparedSimulation;
use crate::sim::PreparedV;
use crate::sim::SimFrame;
use crate::sim::SimOutcome;
use crate::sim::SimOutcomeV;
use crate::sim::SimulationType;

verus! {

/// The full-time scoreboard of a single match.
pub open spec fn spec_ft_scoreboard(home: Seq<char>, hg: int, ag: int, away: Seq<char>) -> Seq<
    char,
> {
    spec_result_line(home, hg, ag, away) + " | FT"@
}

fn ft_scoreboard(home: &str, hg: u8, ag: u8, away: &str) -> (r: String)
    ensures
        r@ == spec_ft_scoreboard(home@, hg as int, ag as int, away@),
{
    let r = result_line(home, hg, ag, away).concat(" | FT");
    assert(r@ =~= spec_ft_scoreboard(home@, hg as int, ag as int, away@));
    r
}

/// A finished single match: the match frames followed by one closing frame
/// that replaces the stats panel.
#[verifier::opaque]
pub open spec fn spec_run_single(teams: Seq<Seq<char>>, s0: u64) -> PreparedV {
    let home = teams[0];
    let away = teams[1];
    let res = spec_match_result(home, away, s0);
    let closing = FrameV {
        scoreboard: spec_ft_scoreboard(home, res.home_goals, res.away_goals, away),
        logs: Seq::empty(),
        stats_lines: Some(spec_match_stats_lines(res)),
        competition_lines: None,
        history_append: Seq::empty(),
    };
    PreparedV {
        frames: spec_match_frames(home, away, s0).push(closing),
        outcome: SimOutcomeV::Single(res),
        history_lines: Seq::empty(),
    }
}

/// The generator state a single-match run leaves behind.
#[verifier::opaque]
pub open spec fn spec_single_rng(teams: Seq<Seq<char>>, s0: u64) -> u64 {
    spec_match_rng(teams[0], teams[1], s0)
}

/// Runs a single match between the first two teams of the list: the match
/// frames, then a closing frame carrying the stat panel.
pub fn run_single(teams: &Vec<String>, rng: &mut Rng) -> (r: PreparedSimulation)
    requires
        teams@.len() >= 2,
    ensures
        r@ == spec_run_single(teams.deep_view(), old(rng)@),
        final(rng)@ == spec_single_rng(teams.deep_view(), old(rng)@),
{
    let ghost s0 = rng@;
    let ghost tv = teams.deep_view();
    let home = teams[0].clone();
    let away = teams[1].clone();
    proof {
        reveal(spec_run_single);
        reveal(spec_single_rng);
        reveal(crate::sim::spec_match_result);
        let cfg = crate::sim::spec_match_cfg(home@, away@);
        crate::sim::lemma_tactic_bounded(cfg.home_prof.tactic);
        crate::sim::lemma_tactic_bounded(cfg.away_prof.tactic);
        crate::sim::lemma_minutes_bounded(cfg, rng@, 90);
    }
    let mut frames: Vec<SimFrame> = Vec::new();
    let (res, mfs) = simulate_match(home.as_str(), away.as_str(), rng);
    append_frames(&mut frames, mfs);
    let stats = match_stats_lines(&res);
    let closing = SimFrame {
        scoreboard: ft_scoreboard(home.as_str(), res.home_goals, res.away_goals, away.as_str()),
        logs: Vec::new(),
        stats_lines: Some(stats),
        competition_lines: None,
        history_append: Vec::new(),
    };
    proof {
        assert(closing@ =~~= (FrameV {
            scoreboard: spec_ft_scoreboard(
                home@,
                spec_match_result(home@, away@, s0).home_goals,
                spec_match_result(home@, away@, s0).away_goals,
                away@,
            ),
            logs: Seq::empty(),
            stats_lines: Some(spec_match_stats_lines(spec_match_result(home@, away@, s0))),
            competition_lines: None,
            history_append: Seq::empty(),
        }));
    }
    push_frame(&mut frames, closing);
    let prepared = PreparedSimulation {
        frames,
        outcome: SimOutcome::Single(res),
        history_lines: Vec::new(),
    };
    proof {
        assert(prepared@ =~~= spec_run_single(tv, s0));
    }
    prepared
}

/// The number of participants a tournament shape needs.
pub open spec fn spec_required_team_count(t: SimulationType) -> int {
    match t {
        SimulationType::Single => 2,
        SimulationType::League4 => 4,
        SimulationType::Knockout4 => 4,
    }
}

/// The finished simulation a shape, a team list and a generator state
/// determine.
pub open spec fn spec_run_simulation(
    t: SimulationType,
    teams: Seq<Seq<char>>,
    s0: u64,
) -> PreparedV {
    match t {
        SimulationType::Single => spec_run_single(teams, s0),
        SimulationType::League4 => spec_run_league4(teams, s0),
        SimulationType::Knockout4 => spec_run_knockout4(teams, s0),
    }
}

/// The generator state a simulation run leaves behind.
pub open spec fn spec_simulation_rng(t: SimulationType, teams: Seq<Seq<char>>, s0: u64) -> u64 {
    match t {
        SimulationType::Single => spec_single_rng(teams, s0),
        SimulationType::League4 => spec_league_rng(teams, s0),
        SimulationType::Knockout4 => spec_knockout_rng(teams, s0),
    }
}

/// Runs one simulation to completion for the given tournament shape.
pub fn run_simulation(sim_type: SimulationType, teams: &Vec<String>, rng: &mut Rng) -> (r:
    PreparedSimulation)
    requires
        teams@.len() >= spec_required_team_count(sim_type),
        sim_type is League4 || sim_type is Knockout4 ==> teams@.len() == 4,
    ensures
        r@ == spec_run_simulation(sim_type, teams.deep_view(), old(rng)@),
        final(rng)@ == spec_simulation_rng(sim_type, teams.deep_view(), old(rng)@),
{
    match sim_type {
        SimulationType::Single => run_single(teams, rng),
        SimulationType::League4 => run_league4(teams, rng),
        SimulationType::Knockout4 => run_knockout4(teams, rng),
    }
}


/// Determinism: the outcome of a run is a pure function of the tournament
/// shape, the participant list and the generator's starting state, so two
/// independent runs with the same inputs produce identical frame sequences,
/// outcomes and histories. `run_simulation` pins its result to exactly this
/// function of its inputs.
pub proof fn lemma_run_simulation_deterministic(
    t: SimulationType,
    teams: Seq<Seq<char>>,
    s0: u64,
    first: PreparedV,
    second: PreparedV,
)
    requires
        first == spec_run_simulation(t, teams, s0),
        second == spec_run_simulation(t, teams, s0),
    ensures
        first == second,
{
}

} // verus!
