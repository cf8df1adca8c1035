//! The match engine: minute-by-minute simulation of one match, penalty
//! shootouts, and the frame/outcome types the tournaments build on.
//!
//! Every quantity is a pure function of the team names and the generator
//! state, so a simulation is reproducible bit for bit from its seed.
//! Expected goals are fixed-point integers in millionths.

use vstd::prelude::*;
use vstd::string::StringExecFns;

use vstd::arithmetic::div_mod::lemma_div_is_ordered;
use vstd::arithmetic::div_mod::lemma_div_is_ordered_by_denominator;
use vstd::arithmetic::div_mod::lemma_div_multiples_vanish;
use vstd::arithmetic::div_mod::lemma_div_pos_is_pos;
use vstd::arithmetic::div_mod::lemma_fundamental_div_mod_converse;
use vstd::arithmetic::mul::lemma_mul_inequality;

use crate::lines::spec_corner_line;
use crate::lines::spec_fulltime_line;
use crate::lines::spec_goal_line;
use crate::lines::spec_halftime_line;
use crate::lines::spec_kickoff_line;
use crate::lines::spec_miss_line;
use crate::lines::spec_offside_line;
use crate::lines::spec_save_line;
use crate::lines::spec_scoreboard_line;
use crate::lines::spec_yellow_line;
use crate::lines::corner_line;
use crate::lines::fulltime_line;
use crate::lines::goal_line;
use crate::lines::halftime_line;
use crate::lines::kickoff_line;
use crate::lines::miss_line;
use crate::lines::offside_line;
use crate::lines::push_line;
use crate::lines::save_line;
use crate::lines::scoreboard_line;
use crate::lines::yellow_line;
use crate::text::str_eq;

use crate::catalog::spec_display_name;
use crate::catalog::spec_profile_for;
use crate::catalog::spec_tactic_by_key;
use crate::catalog::display_name;
use crate::catalog::profile_for;
use crate::catalog::tactic_by_key;
use crate::catalog::TacticV;
use crate::catalog::Tactic;
use crate::catalog::TeamProfile;
use crate::catalog::TeamProfileV;
use crate::rng::spec_chance;
use crate::rng::spec_rng_mix;
use crate::rng::spec_rng_output;
use crate::rng::spec_unit_draw;
use crate::rng::Rng;
use crate::text::spec_micro_2dp;
use crate::text::spec_pad2;
use crate::text::spec_u64_string;
use crate::text::micro_2dp;
use crate::text::pad2;
use crate::text::u64_to_string;

verus! {

/// The three tournament shapes a simulation can run.
#[derive(Clone, Copy, PartialEq, Eq, Structural, Debug)]
pub enum SimulationType {
    Single,
    League4,
    Knockout4,
}

/// The wire label of a tournament shape.
pub open spec fn spec_sim_type_str(t: SimulationType) -> Seq<char> {
    match t {
        SimulationType::Single => "single"@,
        SimulationType::League4 => "league4"@,
        SimulationType::Knockout4 => "knockout4"@,
    }
}

impl SimulationType {
    /// The shape's wire label.
    pub fn as_str(self) -> (r: &'static str)
        ensures
            r@ == spec_sim_type_str(self),
    {
        match self {
            SimulationType::Single => "single",
            SimulationType::League4 => "league4",
            SimulationType::Knockout4 => "knockout4",
        }
    }
}

/// Spec-level image of one side's match counters.
#[verifier::ext_equal]
pub ghost struct StatsV {
    pub shots: int,
    pub sot: int,
    pub xg: int,
    pub corners: int,
    pub fouls: int,
    pub yellows: int,
    pub offsides: int,
    pub saves: int,
    pub attacks: int,
}

impl StatsV {
    /// All counters at zero.
    pub open spec fn zero() -> StatsV {
        StatsV {
            shots: 0,
            sot: 0,
            xg: 0,
            corners: 0,
            fouls: 0,
            yellows: 0,
            offsides: 0,
            saves: 0,
            attacks: 0,
        }
    }
}

/// One side's accumulating counters for a match. `xg` is the side's total
/// expected goals in millionths.
#[derive(Clone, Copy, PartialEq, Eq, Structural, Debug)]
pub struct TeamStats {
    pub shots: u16,
    pub sot: u16,
    pub xg: u64,
    pub corners: u16,
    pub fouls: u16,
    pub yellows: u16,
    pub offsides: u16,
    pub saves: u16,
    pub attacks: u16,
}

impl View for TeamStats {
    type V = StatsV;

    open spec fn view(&self) -> StatsV {
        StatsV {
            shots: self.shots as int,
            sot: self.sot as int,
            xg: self.xg as int,
            corners: self.corners as int,
            fouls: self.fouls as int,
            yellows: self.yellows as int,
            offsides: self.offsides as int,
            saves: self.saves as int,
            attacks: self.attacks as int,
        }
    }
}

impl Default for TeamStats {
    /// All counters at zero.
    fn default() -> (r: TeamStats)
        ensures
            r@ == StatsV::zero(),
    {
        TeamStats {
            shots: 0,
            sot: 0,
            xg: 0,
            corners: 0,
            fouls: 0,
            yellows: 0,
            offsides: 0,
            saves: 0,
            attacks: 0,
        }
    }
}

/// Spec-level image of a match's counters, both sides.
#[verifier::ext_equal]
pub ghost struct MatchStatsV {
    pub home: StatsV,
    pub away: StatsV,
}

/// Both sides' counters for one match.
#[derive(Clone, Copy, PartialEq, Eq, Structural, Debug)]
pub struct MatchStats {
    pub home: TeamStats,
    pub away: TeamStats,
}

impl View for MatchStats {
    type V = MatchStatsV;

    open spec fn view(&self) -> MatchStatsV {
        MatchStatsV { home: self.home@, away: self.away@ }
    }
}

/// Spec-level image of a finished match.
#[verifier::ext_equal]
pub ghost struct MatchResultV {
    pub home: Seq<char>,
    pub away: Seq<char>,
    pub home_goals: int,
    pub away_goals: int,
    pub home_profile: TeamProfileV,
    pub away_profile: TeamProfileV,
    pub stats: MatchStatsV,
    pub home_possession: int,
    pub away_possession: int,
}

/// A finished match: names, goals, profiles, counters and possession shares.
pub struct MatchResult {
    pub home: String,
    pub away: String,
    pub home_goals: u8,
    pub away_goals: u8,
    pub home_profile: TeamProfile,
    pub away_profile: TeamProfile,
    pub stats: MatchStats,
    pub home_possession: u8,
    pub away_possession: u8,
}

impl View for MatchResult {
    type V = MatchResultV;

    open spec fn view(&self) -> MatchResultV {
        MatchResultV {
            home: self.home@,
            away: self.away@,
            home_goals: self.home_goals as int,
            away_goals: self.away_goals as int,
            home_profile: self.home_profile@,
            away_profile: self.away_profile@,
            stats: self.stats@,
            home_possession: self.home_possession as int,
            away_possession: self.away_possession as int,
        }
    }
}

impl Clone for MatchResult {
    fn clone(&self) -> (r: MatchResult)
        ensures
            r@ == self@,
    {
        MatchResult {
            home: self.home.clone(),
            away: self.away.clone(),
            home_goals: self.home_goals,
            away_goals: self.away_goals,
            home_profile: self.home_profile.clone(),
            away_profile: self.away_profile.clone(),
            stats: self.stats,
            home_possession: self.home_possession,
            away_possession: self.away_possession,
        }
    }
}

/// Spec-level image of one league standings row.
#[verifier::ext_equal]
pub ghost struct RowV {
    pub team: Seq<char>,
    pub p: int,
    pub w: int,
    pub d: int,
    pub l: int,
    pub gf: int,
    pub ga: int,
    pub gd: int,
    pub pts: int,
}

/// One team's accumulated league record.
pub struct StandingsRow {
    pub team: String,
    pub p: u8,
    pub w: u8,
    pub d: u8,
    pub l: u8,
    pub gf: u16,
    pub ga: u16,
    pub gd: i16,
    pub pts: u8,
}

impl View for StandingsRow {
    type V = RowV;

    open spec fn view(&self) -> RowV {
        RowV {
            team: self.team@,
            p: self.p as int,
            w: self.w as int,
            d: self.d as int,
            l: self.l as int,
            gf: self.gf as int,
            ga: self.ga as int,
            gd: self.gd as int,
            pts: self.pts as int,
        }
    }
}

impl DeepView for StandingsRow {
    type V = RowV;

    open spec fn deep_view(&self) -> RowV {
        self.view()
    }
}

impl Clone for StandingsRow {
    fn clone(&self) -> (r: StandingsRow)
        ensures
            r@ == self@,
    {
        StandingsRow {
            team: self.team.clone(),
            p: self.p,
            w: self.w,
            d: self.d,
            l: self.l,
            gf: self.gf,
            ga: self.ga,
            gd: self.gd,
            pts: self.pts,
        }
    }
}

/// Spec-level image of one playback frame.
#[verifier::ext_equal]
pub ghost struct FrameV {
    pub scoreboard: Seq<char>,
    pub logs: Seq<Seq<char>>,
    pub stats_lines: Option<Seq<Seq<char>>>,
    pub competition_lines: Option<Seq<Seq<char>>>,
    pub history_append: Seq<Seq<char>>,
}

/// One playback unit: a scoreboard, the minute's log lines, optional
/// replacements for the stats and competition panels, and lines to append to
/// the permanent history.
pub struct SimFrame {
    pub scoreboard: String,
    pub logs: Vec<String>,
    pub stats_lines: Option<Vec<String>>,
    pub competition_lines: Option<Vec<String>>,
    pub history_append: Vec<String>,
}

impl View for SimFrame {
    type V = FrameV;

    open spec fn view(&self) -> FrameV {
        FrameV {
            scoreboard: self.scoreboard@,
            logs: self.logs.deep_view(),
            stats_lines: match self.stats_lines {
                Some(v) => Some(v.deep_view()),
                None => None,
            },
            competition_lines: match self.competition_lines {
                Some(v) => Some(v.deep_view()),
                None => None,
            },
            history_append: self.history_append.deep_view(),
        }
    }
}

impl DeepView for SimFrame {
    type V = FrameV;

    open spec fn deep_view(&self) -> FrameV {
        self.view()
    }
}

impl Clone for SimFrame {
    fn clone(&self) -> (r: SimFrame)
        ensures
            r@ == self@,
    {
        let r = SimFrame {
            scoreboard: self.scoreboard.clone(),
            logs: crate::lines::clone_lines(&self.logs),
            stats_lines: match &self.stats_lines {
                Some(v) => Some(crate::lines::clone_lines(v)),
                None => None,
            },
            competition_lines: match &self.competition_lines {
                Some(v) => Some(crate::lines::clone_lines(v)),
                None => None,
            },
            history_append: crate::lines::clone_lines(&self.history_append),
        };
        proof {
            assert(r@ =~~= self@);
        }
        r
    }
}

/// Spec-level image of a simulation's outcome.
#[verifier::ext_equal]
pub ghost enum SimOutcomeV {
    Single(MatchResultV),
    League { champion: Seq<char>, final_table: Seq<RowV> },
    Knockout { champion: Seq<char> },
}

/// What a finished simulation decided: a single result, a league champion
/// with its final table, or a knockout champion.
pub enum SimOutcome {
    Single(MatchResult),
    League { champion: String, final_table: Vec<StandingsRow> },
    Knockout { champion: String },
}

impl View for SimOutcome {
    type V = SimOutcomeV;

    open spec fn view(&self) -> SimOutcomeV {
        match self {
            SimOutcome::Single(m) => SimOutcomeV::Single(m@),
            SimOutcome::League { champion, final_table } => SimOutcomeV::League {
                champion: champion@,
                final_table: final_table.deep_view(),
            },
            SimOutcome::Knockout { champion } => SimOutcomeV::Knockout { champion: champion@ },
        }
    }
}

/// Spec-level image of a fully computed simulation.
#[verifier::ext_equal]
pub ghost struct PreparedV {
    pub frames: Seq<FrameV>,
    pub outcome: SimOutcomeV,
    pub history_lines: Seq<Seq<char>>,
}

/// The complete, immutable output of one simulation run: its frames, its
/// outcome and its history log.
pub struct PreparedSimulation {
    pub frames: Vec<SimFrame>,
    pub outcome: SimOutcome,
    pub history_lines: Vec<String>,
}

impl View for PreparedSimulation {
    type V = PreparedV;

    open spec fn view(&self) -> PreparedV {
        PreparedV {
            frames: self.frames.deep_view(),
            outcome: self.outcome@,
            history_lines: self.history_lines.deep_view(),
        }
    }
}

/// A frame with only a scoreboard and log lines.
pub open spec fn spec_empty_frame(scoreboard: Seq<char>, logs: Seq<Seq<char>>) -> FrameV {
    FrameV {
        scoreboard,
        logs,
        stats_lines: None,
        competition_lines: None,
        history_append: Seq::empty(),
    }
}

/// Wraps a scoreboard and log lines as a frame with no panel updates.
pub fn empty_frame(scoreboard: String, logs: Vec<String>) -> (r: SimFrame)
    ensures
        r@ == spec_empty_frame(scoreboard@, logs.deep_view()),
{
    let r = SimFrame {
        scoreboard,
        logs,
        stats_lines: None,
        competition_lines: None,
        history_append: Vec::new(),
    };
    assert(r@.history_append =~= Seq::<Seq<char>>::empty());
    assert(r@ =~= spec_empty_frame(r.scoreboard@, r.logs.deep_view()));
    r
}

/// Converted kicks for both sides after the five regular rounds, threading
/// the generator: home kicks first in every round.
pub open spec fn spec_pen_regular(s: u64, n: int) -> (u64, int, int)
    decreases n,
{
    if n <= 0 {
        (s, 0int, 0int)
    } else {
        let prev = spec_pen_regular(s, n - 1);
        let hk = spec_chance(prev.0, 760_000);
        let s1 = spec_rng_mix(prev.0);
        let ak = spec_chance(s1, 760_000);
        let s2 = spec_rng_mix(s1);
        (s2, prev.1 + if hk { 1int } else { 0int }, prev.2 + if ak { 1int } else { 0int })
    }
}

/// Sudden-death rounds: one kick per side per round, stopping at the first
/// round that separates the sides, and after twenty rounds in any case.
pub open spec fn spec_pen_sudden(s: u64, h: int, a: int, rounds: int) -> (u64, int, int)
    decreases 20 - rounds,
{
    if h != a || rounds >= 20 {
        (s, h, a)
    } else {
        let hk = spec_chance(s, 760_000);
        let s1 = spec_rng_mix(s);
        let ak = spec_chance(s1, 760_000);
        let s2 = spec_rng_mix(s1);
        spec_pen_sudden(
            s2,
            h + if hk { 1int } else { 0int },
            a + if ak { 1int } else { 0int },
            rounds + 1,
        )
    }
}

/// A whole shootout from generator state `s`: five regular rounds, then
/// sudden death. If the sides are still level when sudden death is exhausted,
/// the home side is not the winner: the away side advances.
pub open spec fn spec_penalties(s: u64) -> (u64, int, int) {
    let five = spec_pen_regular(s, 5);
    spec_pen_sudden(five.0, five.1, five.2, 0)
}

/// Runs a penalty shootout: each kick converts with probability 0.76; five
/// rounds per side, then up to twenty sudden-death rounds. Returns both
/// scores and whether the home side won; a shootout still level after the
/// last sudden-death round goes to the away side.
pub fn penalties(rng: &mut Rng) -> (r: (u8, u8, bool))
    ensures
        final(rng)@ == spec_penalties(old(rng)@).0,
        r.0 as int == spec_penalties(old(rng)@).1,
        r.1 as int == spec_penalties(old(rng)@).2,
        r.2 == (spec_penalties(old(rng)@).1 > spec_penalties(old(rng)@).2),
{
    let mut h: u8 = 0;
    let mut a: u8 = 0;
    let mut round: u8 = 0;
    while round < 5
        invariant
            round <= 5,
            h <= round,
            a <= round,
            rng@ == spec_pen_regular(old(rng)@, round as int).0,
            h as int == spec_pen_regular(old(rng)@, round as int).1,
            a as int == spec_pen_regular(old(rng)@, round as int).2,
        decreases 5 - round,
    {
        if rng.chance(760_000) {
            h = h + 1;
        }
        if rng.chance(760_000) {
            a = a + 1;
        }
        round = round + 1;
    }
    let mut rounds: u8 = 0;
    while h == a && rounds < 20
        invariant
            rounds <= 20,
            h <= 5 + rounds,
            a <= 5 + rounds,
            spec_pen_sudden(rng@, h as int, a as int, rounds as int) == spec_penalties(
                old(rng)@,
            ),
        decreases 20 - rounds,
    {
        let ghost s0 = rng@;
        let ghost h0 = h as int;
        let ghost a0 = a as int;
        let ghost r0 = rounds as int;
        if rng.chance(760_000) {
            h = h + 1;
        }
        if rng.chance(760_000) {
            a = a + 1;
        }
        rounds = rounds + 1;
        proof {
            assert(spec_pen_sudden(s0, h0, a0, r0) == spec_pen_sudden(
                rng@,
                h as int,
                a as int,
                rounds as int,
            ));
        }
    }
    (h, a, h > a)
}

/// Spec-level image of a fixture's configuration.
#[verifier::ext_equal]
pub ghost struct MatchCfgV {
    pub home: Seq<char>,
    pub away: Seq<char>,
    pub home_prof: TeamProfileV,
    pub away_prof: TeamProfileV,
    pub ht: TacticV,
    pub at: TacticV,
}

/// Everything the engine reads about one fixture: the two names with their
/// profiles and tactic parameter sets.
pub struct MatchCfg {
    pub home: String,
    pub away: String,
    pub home_prof: TeamProfile,
    pub away_prof: TeamProfile,
    pub ht: Tactic,
    pub at: Tactic,
}

impl View for MatchCfg {
    type V = MatchCfgV;

    open spec fn view(&self) -> MatchCfgV {
        MatchCfgV {
            home: self.home@,
            away: self.away@,
            home_prof: self.home_prof@,
            away_prof: self.away_prof@,
            ht: self.ht@,
            at: self.at@,
        }
    }
}

/// The configuration two team names select from the catalog.
pub open spec fn spec_match_cfg(home: Seq<char>, away: Seq<char>) -> MatchCfgV {
    let hp = spec_profile_for(home);
    let ap = spec_profile_for(away);
    MatchCfgV {
        home,
        away,
        home_prof: hp,
        away_prof: ap,
        ht: spec_tactic_by_key(hp.tactic),
        at: spec_tactic_by_key(ap.tactic),
    }
}

fn match_cfg(home: &str, away: &str) -> (c: MatchCfg)
    ensures
        c@ == spec_match_cfg(home@, away@),
{
    let home_prof = profile_for(home);
    let away_prof = profile_for(away);
    let ht = tactic_by_key(home_prof.tactic.as_str());
    let at = tactic_by_key(away_prof.tactic.as_str());
    MatchCfg { home: home.to_owned(), away: away.to_owned(), home_prof, away_prof, ht, at }
}

/// The ranges the catalog's tactic parameters move in; the engine's
/// overflow and expected-goal bounds rest on them.
pub open spec fn tactic_bounded(t: TacticV) -> bool {
    &&& 800 <= t.attack_bias <= 1200
    &&& 900 <= t.goal_mult <= 1100
    &&& 0 <= t.fast_break <= 300_000
    &&& 800 <= t.foul_mult <= 1300
    &&& 900 <= t.block_mult <= 1200
    &&& 800 <= t.press_mult <= 1300
}

/// Every tactic the catalog can give is within the engine's ranges.
pub proof fn lemma_tactic_bounded(key: Seq<char>)
    ensures
        tactic_bounded(spec_tactic_by_key(key)),
{
}

/// Spec-level running state of one match: generator state, score, counters.
#[verifier::ext_equal]
pub ghost struct CoreV {
    pub rng: u64,
    pub home_goals: int,
    pub away_goals: int,
    pub home: StatsV,
    pub away: StatsV,
}

/// The state a match starts from.
pub open spec fn spec_init_core(s: u64) -> CoreV {
    CoreV { rng: s, home_goals: 0, away_goals: 0, home: StatsV::zero(), away: StatsV::zero() }
}

/// Spec-level image of one attacking possession's outcome.
#[verifier::ext_equal]
pub ghost struct AttackV {
    pub fast: bool,
    pub shot: bool,
    pub on_target: bool,
    pub goal: bool,
    pub miss: bool,
    pub xg: int,
}

/// One attacking possession's outcome, as the engine records it.
#[derive(Clone, Copy)]
pub struct AttackOut {
    pub fast: bool,
    pub shot: bool,
    pub on_target: bool,
    pub goal: bool,
    pub miss: bool,
    pub xg: u64,
}

impl View for AttackOut {
    type V = AttackV;

    open spec fn view(&self) -> AttackV {
        AttackV {
            fast: self.fast,
            shot: self.shot,
            on_target: self.on_target,
            goal: self.goal,
            miss: self.miss,
            xg: self.xg as int,
        }
    }
}

/// One attacking possession from generator state `s`: the fast-break draw,
/// the shot draw, and, when a shot comes, its expected-goal value and the
/// on-target, goal and near-miss draws, in that order.
#[verifier::opaque]
pub open spec fn spec_attack(atk: TacticV, def: TacticV, pm: int, s: u64) -> (AttackV, u64) {
    let fast = spec_chance(s, atk.fast_break);
    let s1 = spec_rng_mix(s);
    let shot = spec_chance(s1, (if fast { 750_000int } else { 550_000int }) * pm / 1000);
    let s2 = spec_rng_mix(s1);
    if shot {
        let u = spec_unit_draw(s2) as int;
        let s3 = spec_rng_mix(s2);
        let base = if fast {
            200_000 + (u * 250_000) / 0x20000000000000
        } else {
            50_000 + (u * 220_000) / 0x20000000000000
        };
        let xg = (base * atk.goal_mult / 1000) * 1000 / def.block_mult;
        let on_target = spec_chance(s3, 520_000);
        let s4 = spec_rng_mix(s3);
        let goal = on_target && spec_chance(s4, xg);
        let s5 = if on_target {
            spec_rng_mix(s4)
        } else {
            s4
        };
        let miss = !on_target && spec_chance(s5, 250_000);
        let s6 = if !on_target {
            spec_rng_mix(s5)
        } else {
            s5
        };
        (AttackV { fast, shot, on_target, goal, miss, xg }, s6)
    } else {
        (AttackV { fast, shot, on_target: false, goal: false, miss: false, xg: 0 }, s2)
    }
}

/// The corner and offside draws that follow an attacking possession.
pub open spec fn spec_extras(atk: TacticV, s: u64) -> (bool, bool, u64) {
    let corner = spec_chance(s, 50_000 * atk.attack_bias / 1000);
    let s1 = spec_rng_mix(s);
    let offside = spec_chance(s1, 35_000 + atk.fast_break / 50);
    (corner, offside, spec_rng_mix(s1))
}

/// The minute's foul draw, driven by the attacking side's press and foul
/// multipliers, with the escalation draw to a yellow card.
pub open spec fn spec_fouls(atk: TacticV, s: u64) -> (bool, bool, u64) {
    let fouled = spec_chance(s, 70_000 * atk.press_mult * atk.foul_mult / 1_000_000);
    let s1 = spec_rng_mix(s);
    if fouled {
        (true, spec_chance(s1, 220_000 * atk.press_mult / 1000), spec_rng_mix(s1))
    } else {
        (false, false, s1)
    }
}

/// A unit draw scaled into `[0, span]`: multiplying by the span and dividing
/// by 2^53 stays within the span.
proof fn lemma_unit_scale(u: int, span: int)
    requires
        0 <= u < 0x20000000000000,
        0 <= span,
    ensures
        0 <= u * span <= 0x20000000000000 * span,
        0 <= (u * span) / 0x20000000000000 <= span,
{
    lemma_mul_inequality(u, 0x20000000000000, span);
    assert(u * span >= 0) by (nonlinear_arith)
        requires
            u >= 0 && span >= 0,
    ;
    lemma_div_pos_is_pos(u * span, 0x20000000000000);
    lemma_div_is_ordered(u * span, 0x20000000000000 * span, 0x20000000000000);
    lemma_div_multiples_vanish(span, 0x20000000000000);
}

/// Interval bound for a product of nonnegative factors.
proof fn lemma_mul_bounds(x: int, a: int, y: int, b: int)
    requires
        0 <= x <= a,
        0 <= y <= b,
    ensures
        0 <= x * y <= a * b,
{
    assert(0 <= x * y <= a * b) by (nonlinear_arith)
        requires
            0 <= x <= a && 0 <= y <= b,
    ;
}

/// A unit draw is below 2^53.
proof fn lemma_unit_draw_lt(s: u64)
    ensures
        0 <= spec_unit_draw(s) < 0x20000000000000,
{
    let v = spec_rng_output(s);
    assert(v >> 11 < 0x20000000000000u64) by (bit_vector);
}

/// An attacking possession's expected-goal value stays within `[0, 650000]`
/// millionths for catalog tactics.
proof fn lemma_attack_bounds(atk: TacticV, def: TacticV, pm: int, s: u64)
    requires
        tactic_bounded(atk),
        tactic_bounded(def),
    ensures
        0 <= spec_attack(atk, def, pm, s).0.xg <= 650_000,
{
    reveal(spec_attack);
    let s1 = spec_rng_mix(s);
    let s2 = spec_rng_mix(s1);
    let u = spec_unit_draw(s2) as int;
    lemma_unit_draw_lt(s2);
    lemma_unit_scale(u, 250_000);
    lemma_unit_scale(u, 220_000);
    let fast = spec_chance(s, atk.fast_break);
    let base = if fast {
        200_000 + (u * 250_000) / 0x20000000000000
    } else {
        50_000 + (u * 220_000) / 0x20000000000000
    };
    assert(0 <= base <= 450_000);
    let m1 = base * atk.goal_mult;
    lemma_mul_bounds(base, 450_000, atk.goal_mult, 1100);
    assert(0 <= m1 <= 495_000_000);
    let xg1 = m1 / 1000;
    lemma_div_pos_is_pos(m1, 1000);
    lemma_div_is_ordered(m1, 495_000_000, 1000);
    let m2 = xg1 * 1000;
    let xg = m2 / def.block_mult;
    lemma_div_pos_is_pos(m2, def.block_mult);
    lemma_div_is_ordered_by_denominator(m2, 900, def.block_mult);
    lemma_div_is_ordered(m2, 495_000_000, 900);
    assert(0 <= xg <= 650_000);
}

fn attack_phase(atk: &Tactic, def: &Tactic, pm: u64, rng: &mut Rng) -> (r: AttackOut)
    requires
        tactic_bounded(atk@),
        tactic_bounded(def@),
        pm == 1000 || pm == 1200,
    ensures
        (r@, final(rng)@) == spec_attack(atk@, def@, pm as int, old(rng)@),
        0 <= r@.xg <= 650_000,
{
    proof {
        reveal(spec_attack);
        lemma_attack_bounds(atk@, def@, pm as int, old(rng)@);
    }
    let fast = rng.chance(atk.fast_break);
    let shot_p = (if fast {
        750_000u64
    } else {
        550_000u64
    }) * pm / 1000;
    let shot = rng.chance(shot_p);
    if shot {
        let u = rng.next_unit();
        proof {
            lemma_unit_scale(u as int, 250_000);
            lemma_unit_scale(u as int, 220_000);
        }
        let base: u64 = if fast {
            200_000 + (((u as u128) * 250_000) / 0x20000000000000) as u64
        } else {
            50_000 + (((u as u128) * 220_000) / 0x20000000000000) as u64
        };
        assert(0 <= base <= 450_000);
        proof {
            lemma_mul_bounds(base as int, 450_000, atk.goal_mult as int, 1100);
        }
        let xg1 = base * atk.goal_mult / 1000;
        let xg = xg1 * 1000 / def.block_mult;
        let on_target = rng.chance(520_000);
        let goal = if on_target {
            rng.chance(xg)
        } else {
            false
        };
        let miss = if !on_target {
            rng.chance(250_000)
        } else {
            false
        };
        AttackOut { fast, shot: true, on_target, goal, miss, xg }
    } else {
        AttackOut { fast, shot: false, on_target: false, goal: false, miss: false, xg: 0 }
    }
}

fn extras_phase(atk: &Tactic, rng: &mut Rng) -> (r: (bool, bool))
    requires
        tactic_bounded(atk@),
    ensures
        r.0 == spec_extras(atk@, old(rng)@).0,
        r.1 == spec_extras(atk@, old(rng)@).1,
        final(rng)@ == spec_extras(atk@, old(rng)@).2,
{
    let corner = rng.chance(50_000 * atk.attack_bias / 1000);
    let offside = rng.chance(35_000 + atk.fast_break / 50);
    (corner, offside)
}

fn foul_phase(atk: &Tactic, rng: &mut Rng) -> (r: (bool, bool))
    requires
        tactic_bounded(atk@),
    ensures
        r.0 == spec_fouls(atk@, old(rng)@).0,
        r.1 == spec_fouls(atk@, old(rng)@).1,
        final(rng)@ == spec_fouls(atk@, old(rng)@).2,
{
    proof {
        lemma_mul_bounds(70_000 * atk.press_mult as int, 91_000_000, atk.foul_mult as int, 1300);
    }
    let fouled = rng.chance(70_000 * atk.press_mult * atk.foul_mult / 1_000_000);
    if fouled {
        let yellow = rng.chance(220_000 * atk.press_mult / 1000);
        (true, yellow)
    } else {
        (false, false)
    }
}

/// An attacking side's counters after one possession: attacks, shots,
/// on-target shots, accumulated expected goals, corners and offsides.
pub open spec fn stats_plus_attack(
    s: StatsV,
    attacked: bool,
    a: AttackV,
    corner: bool,
    offside: bool,
) -> StatsV {
    StatsV {
        shots: s.shots + if a.shot {
            1int
        } else {
            0int
        },
        sot: s.sot + if a.on_target {
            1int
        } else {
            0int
        },
        xg: s.xg + if a.shot {
            a.xg
        } else {
            0int
        },
        corners: s.corners + if corner {
            1int
        } else {
            0int
        },
        fouls: s.fouls,
        yellows: s.yellows,
        offsides: s.offsides + if offside {
            1int
        } else {
            0int
        },
        saves: s.saves,
        attacks: s.attacks + if attacked {
            1int
        } else {
            0int
        },
    }
}

/// A defending side's counters after one minute: a save when an on-target
/// shot did not score, and the foul and yellow charged to the defenders.
pub open spec fn stats_plus_defense(s: StatsV, save: bool, foul: bool, yellow: bool) -> StatsV {
    StatsV {
        shots: s.shots,
        sot: s.sot,
        xg: s.xg,
        corners: s.corners,
        fouls: s.fouls + if foul {
            1int
        } else {
            0int
        },
        yellows: s.yellows + if yellow {
            1int
        } else {
            0int
        },
        offsides: s.offsides,
        saves: s.saves + if save {
            1int
        } else {
            0int
        },
        attacks: s.attacks,
    }
}

/// Counter ranges that keep every in-match increment within its integer type.
pub open spec fn stats_ok(s: StatsV) -> bool {
    &&& 0 <= s.shots <= 60_000
    &&& 0 <= s.sot <= 60_000
    &&& 0 <= s.xg <= 100_000_000
    &&& 0 <= s.corners <= 60_000
    &&& 0 <= s.fouls <= 60_000
    &&& 0 <= s.yellows <= 60_000
    &&& 0 <= s.offsides <= 60_000
    &&& 0 <= s.saves <= 60_000
    &&& 0 <= s.attacks <= 60_000
}

fn apply_attack_stats(s: TeamStats, attacked: bool, a: AttackOut, corner: bool, offside: bool) -> (r:
    TeamStats)
    requires
        stats_ok(s@),
        0 <= a.xg <= 700_000,
    ensures
        r@ == stats_plus_attack(s@, attacked, a@, corner, offside),
{
    TeamStats {
        shots: if a.shot {
            s.shots + 1
        } else {
            s.shots
        },
        sot: if a.on_target {
            s.sot + 1
        } else {
            s.sot
        },
        xg: if a.shot {
            s.xg + a.xg
        } else {
            s.xg
        },
        corners: if corner {
            s.corners + 1
        } else {
            s.corners
        },
        fouls: s.fouls,
        yellows: s.yellows,
        offsides: if offside {
            s.offsides + 1
        } else {
            s.offsides
        },
        saves: s.saves,
        attacks: if attacked {
            s.attacks + 1
        } else {
            s.attacks
        },
    }
}

fn apply_defense_stats(s: TeamStats, save: bool, foul: bool, yellow: bool) -> (r: TeamStats)
    requires
        stats_ok(s@),
    ensures
        r@ == stats_plus_defense(s@, save, foul, yellow),
{
    TeamStats {
        shots: s.shots,
        sot: s.sot,
        xg: s.xg,
        corners: s.corners,
        fouls: if foul {
            s.fouls + 1
        } else {
            s.fouls
        },
        yellows: if yellow {
            s.yellows + 1
        } else {
            s.yellows
        },
        offsides: s.offsides,
        saves: if save {
            s.saves + 1
        } else {
            s.saves
        },
        attacks: s.attacks,
    }
}

/// The log lines one minute emits, in order: the shot's outcome, then
/// corner, offside and yellow-card notes, then the halftime or full-time
/// summary at those minutes.
pub open spec fn spec_minute_logs(
    minute: int,
    home: Seq<char>,
    away: Seq<char>,
    atk_name: Seq<char>,
    def_name: Seq<char>,
    a: AttackV,
    corner: bool,
    offside: bool,
    yellow: bool,
    hg: int,
    ag: int,
) -> Seq<Seq<char>> {
    let shot_logs: Seq<Seq<char>> = if a.goal {
        seq![spec_goal_line(minute, atk_name, a.fast, a.xg)]
    } else if a.on_target {
        seq![spec_save_line(minute, def_name)]
    } else if a.miss {
        seq![spec_miss_line(minute, atk_name)]
    } else {
        Seq::empty()
    };
    shot_logs + (if corner {
        seq![spec_corner_line(minute, atk_name)]
    } else {
        Seq::<Seq<char>>::empty()
    }) + (if offside {
        seq![spec_offside_line(minute, atk_name)]
    } else {
        Seq::<Seq<char>>::empty()
    }) + (if yellow {
        seq![spec_yellow_line(minute, def_name)]
    } else {
        Seq::<Seq<char>>::empty()
    }) + (if minute == 45 {
        seq![spec_halftime_line(home, hg, ag, away)]
    } else {
        Seq::<Seq<char>>::empty()
    }) + (if minute == 90 {
        seq![spec_fulltime_line(home, hg, ag, away)]
    } else {
        Seq::<Seq<char>>::empty()
    })
}

#[verifier::rlimit(60)]
fn minute_logs(
    minute: u8,
    home: &str,
    away: &str,
    atk_name: &str,
    def_name: &str,
    a: AttackOut,
    corner: bool,
    offside: bool,
    yellow: bool,
    hg: u8,
    ag: u8,
) -> (logs: Vec<String>)
    requires
        a.xg < 0x1000_0000_0000_0000,
    ensures
        logs.deep_view() == spec_minute_logs(
            minute as int,
            home@,
            away@,
            atk_name@,
            def_name@,
            a@,
            corner,
            offside,
            yellow,
            hg as int,
            ag as int,
        ),
{
    let mut logs: Vec<String> = Vec::new();
    if a.goal {
        push_line(&mut logs, goal_line(minute, atk_name, a.fast, a.xg));
    } else if a.on_target {
        push_line(&mut logs, save_line(minute, def_name));
    } else if a.miss {
        push_line(&mut logs, miss_line(minute, atk_name));
    }
    if corner {
        push_line(&mut logs, corner_line(minute, atk_name));
    }
    if offside {
        push_line(&mut logs, offside_line(minute, atk_name));
    }
    if yellow {
        push_line(&mut logs, yellow_line(minute, def_name));
    }
    if minute == 45 {
        push_line(&mut logs, halftime_line(home, hg, ag, away));
    }
    if minute == 90 {
        push_line(&mut logs, fulltime_line(home, hg, ag, away));
    }
    assert(logs.deep_view() =~= spec_minute_logs(
        minute as int,
        home@,
        away@,
        atk_name@,
        def_name@,
        a@,
        corner,
        offside,
        yellow,
        hg as int,
        ag as int,
    ));
    logs
}

/// One simulated minute from state `st`: pressure rises in the opening and
/// closing phases; a weighted coin picks the attacking side; an attacking
/// possession may bring a shot with its on-target, goal and near-miss draws,
/// then corner and offside draws; independently the defending side may concede
/// a foul, escalated to a yellow by the attacker's pressing; the minute ends
/// with a frame carrying the updated scoreboard and the minute's log lines.
#[verifier::opaque]
pub open spec fn spec_play_minute(cfg: MatchCfgV, st: CoreV, minute: int) -> (CoreV, FrameV) {
    let pm = if minute <= 15 || minute > 75 {
        1200int
    } else {
        1000int
    };
    let u0 = spec_unit_draw(st.rng) as int;
    let s1 = spec_rng_mix(st.rng);
    let home_attacks = u0 * (cfg.ht.attack_bias + cfg.at.attack_bias) < cfg.ht.attack_bias
        * 0x20000000000000;
    let atk_t = if home_attacks {
        cfg.ht
    } else {
        cfg.at
    };
    let def_t = if home_attacks {
        cfg.at
    } else {
        cfg.ht
    };
    let atk_name = if home_attacks {
        cfg.home
    } else {
        cfg.away
    };
    let def_name = if home_attacks {
        cfg.away
    } else {
        cfg.home
    };
    let attacked = spec_chance(s1, 240_000 * pm / 1000);
    let s2 = spec_rng_mix(s1);
    let att = if attacked {
        spec_attack(atk_t, def_t, pm, s2)
    } else {
        (AttackV { fast: false, shot: false, on_target: false, goal: false, miss: false, xg: 0 }, s2)
    };
    let ex = if attacked {
        spec_extras(atk_t, att.1)
    } else {
        (false, false, att.1)
    };
    let fl = spec_fouls(atk_t, ex.2);
    let hg = st.home_goals + if att.0.goal && home_attacks {
        1int
    } else {
        0int
    };
    let ag = st.away_goals + if att.0.goal && !home_attacks {
        1int
    } else {
        0int
    };
    let atk_stats = stats_plus_attack(
        if home_attacks {
            st.home
        } else {
            st.away
        },
        attacked,
        att.0,
        ex.0,
        ex.1,
    );
    let def_stats = stats_plus_defense(
        if home_attacks {
            st.away
        } else {
            st.home
        },
        att.0.on_target && !att.0.goal,
        fl.0,
        fl.1,
    );
    let frame = spec_empty_frame(
        spec_scoreboard_line(
            cfg.home,
            cfg.home_prof.formation,
            hg,
            ag,
            cfg.away,
            cfg.away_prof.formation,
            minute,
        ),
        spec_minute_logs(minute, cfg.home, cfg.away, atk_name, def_name, att.0, ex.0, ex.1, fl.1, hg, ag),
    );
    (
        CoreV {
            rng: fl.2,
            home_goals: hg,
            away_goals: ag,
            home: if home_attacks {
                atk_stats
            } else {
                def_stats
            },
            away: if home_attacks {
                def_stats
            } else {
                atk_stats
            },
        },
        frame,
    )
}

#[verifier::rlimit(100)]
fn play_minute(
    cfg: &MatchCfg,
    rng: &mut Rng,
    minute: u8,
    home_goals: u8,
    away_goals: u8,
    home_stats: TeamStats,
    away_stats: TeamStats,
) -> (r: (u8, u8, TeamStats, TeamStats, SimFrame))
    requires
        tactic_bounded(cfg@.ht),
        tactic_bounded(cfg@.at),
        1 <= minute <= 90,
        home_goals < 250,
        away_goals < 250,
        stats_ok(home_stats@),
        stats_ok(away_stats@),
    ensures
        ({
            let out = spec_play_minute(
                cfg@,
                CoreV {
                    rng: old(rng)@,
                    home_goals: home_goals as int,
                    away_goals: away_goals as int,
                    home: home_stats@,
                    away: away_stats@,
                },
                minute as int,
            );
            &&& final(rng)@ == out.0.rng
            &&& r.0 as int == out.0.home_goals
            &&& r.1 as int == out.0.away_goals
            &&& r.2@ == out.0.home
            &&& r.3@ == out.0.away
            &&& r.4@ == out.1
        }),
{
    proof {
        reveal(spec_play_minute);
    }
    let ghost st0 = CoreV {
        rng: rng@,
        home_goals: home_goals as int,
        away_goals: away_goals as int,
        home: home_stats@,
        away: away_stats@,
    };
    let pm: u64 = if minute <= 15 || minute > 75 {
        1200
    } else {
        1000
    };
    let u0 = rng.next_unit();
    let hb = cfg.ht.attack_bias;
    let ab = cfg.at.attack_bias;
    proof {
        lemma_unit_scale(u0 as int, (hb + ab) as int);
    }
    let home_attacks = (u0 as u128) * ((hb + ab) as u128) < (hb as u128) * 0x20000000000000;
    let attacked = rng.chance(240_000 * pm / 1000);
    let att: AttackOut = if attacked {
        attack_phase(
            if home_attacks {
                &cfg.ht
            } else {
                &cfg.at
            },
            if home_attacks {
                &cfg.at
            } else {
                &cfg.ht
            },
            pm,
            rng,
        )
    } else {
        AttackOut { fast: false, shot: false, on_target: false, goal: false, miss: false, xg: 0 }
    };
    let ex: (bool, bool) = if attacked {
        extras_phase(
            if home_attacks {
                &cfg.ht
            } else {
                &cfg.at
            },
            rng,
        )
    } else {
        (false, false)
    };
    let fl = foul_phase(
        if home_attacks {
            &cfg.ht
        } else {
            &cfg.at
        },
        rng,
    );
    let mut hg2 = home_goals;
    let mut ag2 = away_goals;
    if att.goal {
        if home_attacks {
            hg2 = hg2 + 1;
        } else {
            ag2 = ag2 + 1;
        }
    }
    let atk0 = if home_attacks {
        home_stats
    } else {
        away_stats
    };
    let def0 = if home_attacks {
        away_stats
    } else {
        home_stats
    };
    let atk1 = apply_attack_stats(atk0, attacked, att, ex.0, ex.1);
    let save = att.on_target && !att.goal;
    let def1 = apply_defense_stats(def0, save, fl.0, fl.1);
    let hs2 = if home_attacks {
        atk1
    } else {
        def1
    };
    let as2 = if home_attacks {
        def1
    } else {
        atk1
    };
    let atk_name: &str = if home_attacks {
        cfg.home.as_str()
    } else {
        cfg.away.as_str()
    };
    let def_name: &str = if home_attacks {
        cfg.away.as_str()
    } else {
        cfg.home.as_str()
    };
    let logs = minute_logs(
        minute,
        cfg.home.as_str(),
        cfg.away.as_str(),
        atk_name,
        def_name,
        att,
        ex.0,
        ex.1,
        fl.1,
        hg2,
        ag2,
    );
    let frame = empty_frame(
        scoreboard_line(
            cfg.home.as_str(),
            cfg.home_prof.formation.as_str(),
            hg2,
            ag2,
            cfg.away.as_str(),
            cfg.away_prof.formation.as_str(),
            minute,
        ),
        logs,
    );
    proof {
        let out = spec_play_minute(cfg@, st0, minute as int);
        assert(frame@ =~= out.1);
        assert(hs2@ =~= out.0.home);
        assert(as2@ =~= out.0.away);
    }
    (hg2, ag2, hs2, as2, frame)
}

/// The frame a match opens with: the 0-0 scoreboard and the kickoff line.
pub open spec fn spec_kickoff_frame(cfg: MatchCfgV) -> FrameV {
    spec_empty_frame(
        spec_scoreboard_line(
            cfg.home,
            cfg.home_prof.formation,
            0,
            0,
            cfg.away,
            cfg.away_prof.formation,
            0,
        ),
        seq![
            spec_kickoff_line(
                cfg.home,
                cfg.home_prof.formation,
                cfg.ht.label,
                cfg.away,
                cfg.away_prof.formation,
                cfg.at.label,
            )
        ],
    )
}

/// The match state and frames after the first `n` minutes: the kickoff frame,
/// then one frame per simulated minute.
pub open spec fn spec_minutes(cfg: MatchCfgV, s0: u64, n: int) -> (CoreV, Seq<FrameV>)
    decreases n,
{
    if n <= 0 {
        (spec_init_core(s0), seq![spec_kickoff_frame(cfg)])
    } else {
        let prev = spec_minutes(cfg, s0, n - 1);
        let out = spec_play_minute(cfg, prev.0, n);
        (out.0, prev.1.push(out.1))
    }
}

/// Counter bounds after `n` minutes: every counter at most `n`, expected
/// goals at most `650000 * n` millionths.
pub open spec fn stats_bounded(s: StatsV, n: int) -> bool {
    &&& 0 <= s.shots <= n
    &&& 0 <= s.sot <= n
    &&& 0 <= s.xg <= 650_000 * n
    &&& 0 <= s.corners <= n
    &&& 0 <= s.fouls <= n
    &&& 0 <= s.yellows <= n
    &&& 0 <= s.offsides <= n
    &&& 0 <= s.saves <= n
    &&& 0 <= s.attacks <= n
}

/// Score and counter bounds after `n` minutes.
pub open spec fn core_bounded(c: CoreV, n: int) -> bool {
    &&& 0 <= c.home_goals <= n
    &&& 0 <= c.away_goals <= n
    &&& stats_bounded(c.home, n)
    &&& stats_bounded(c.away, n)
}

proof fn lemma_play_minute_bounded(cfg: MatchCfgV, st: CoreV, minute: int, n: int)
    requires
        tactic_bounded(cfg.ht),
        tactic_bounded(cfg.at),
        core_bounded(st, n),
        0 <= n,
    ensures
        core_bounded(spec_play_minute(cfg, st, minute).0, n + 1),
{
    reveal(spec_play_minute);
    let pm = if minute <= 15 || minute > 75 {
        1200int
    } else {
        1000int
    };
    let u0 = spec_unit_draw(st.rng) as int;
    let s1 = spec_rng_mix(st.rng);
    let home_attacks = u0 * (cfg.ht.attack_bias + cfg.at.attack_bias) < cfg.ht.attack_bias
        * 0x20000000000000;
    let atk_t = if home_attacks {
        cfg.ht
    } else {
        cfg.at
    };
    let def_t = if home_attacks {
        cfg.at
    } else {
        cfg.ht
    };
    let s2 = spec_rng_mix(s1);
    lemma_attack_bounds(atk_t, def_t, pm, s2);
}

/// Every counter of the spec-level match state is bounded by the minute
/// count, and a match `n` minutes in holds exactly `n + 1` frames.
pub proof fn lemma_minutes_bounded(cfg: MatchCfgV, s0: u64, n: int)
    requires
        tactic_bounded(cfg.ht),
        tactic_bounded(cfg.at),
        0 <= n,
    ensures
        core_bounded(spec_minutes(cfg, s0, n).0, n),
        spec_minutes(cfg, s0, n).1.len() == n + 1,
    decreases n,
{
    if n == 0 {
    } else {
        lemma_minutes_bounded(cfg, s0, n - 1);
        lemma_play_minute_bounded(cfg, spec_minutes(cfg, s0, n - 1).0, n, n - 1);
    }
}

/// Possession shares from both sides' attacking-possession counts, the
/// possession tactic boosted by 15 percent: the home share of the boosted
/// total in percent, rounded half-up, the away share its complement; an
/// attack-less match splits 50-50.
pub open spec fn spec_possession(hposs: bool, aposs: bool, hatk: int, aatk: int) -> (int, int) {
    let hb = hatk * (if hposs {
        1150int
    } else {
        1000int
    });
    let ab = aatk * (if aposs {
        1150int
    } else {
        1000int
    });
    let total = hb + ab;
    if total > 0 {
        let hp = (200 * hb + total) / (2 * total);
        (hp, 100 - hp)
    } else {
        (50int, 50int)
    }
}

/// Possession shares are percentages that sum to one hundred.
pub proof fn lemma_possession_bounds(hposs: bool, aposs: bool, hatk: int, aatk: int)
    requires
        0 <= hatk,
        0 <= aatk,
    ensures
        ({
            let r = spec_possession(hposs, aposs, hatk, aatk);
            0 <= r.0 <= 100 && r.1 == 100 - r.0
        }),
{
    let hb = hatk * (if hposs {
        1150int
    } else {
        1000int
    });
    let ab = aatk * (if aposs {
        1150int
    } else {
        1000int
    });
    let total = hb + ab;
    if total > 0 {
        lemma_div_pos_is_pos(200 * hb + total, 2 * total);
        lemma_div_is_ordered(200 * hb + total, 201 * total, 2 * total);
        lemma_fundamental_div_mod_converse(201 * total, 2 * total, 100, total);
    }
}

fn possession_pct(result: &MatchResult) -> (r: (u8, u8))
    ensures
        ({
            let p = spec_possession(
                result@.home_profile.tactic == "possession"@,
                result@.away_profile.tactic == "possession"@,
                result@.stats.home.attacks,
                result@.stats.away.attacks,
            );
            r.0 as int == p.0 && r.1 as int == p.1
        }),
{
    let is_hp = str_eq(result.home_profile.tactic.as_str(), "possession");
    let is_ap = str_eq(result.away_profile.tactic.as_str(), "possession");
    let hb: u64 = (result.stats.home.attacks as u64) * (if is_hp {
        1150
    } else {
        1000
    });
    let ab: u64 = (result.stats.away.attacks as u64) * (if is_ap {
        1150
    } else {
        1000
    });
    proof {
        lemma_possession_bounds(
            is_hp,
            is_ap,
            result@.stats.home.attacks,
            result@.stats.away.attacks,
        );
    }
    let total = hb + ab;
    if total > 0 {
        let hp64 = (200 * hb + total) / (2 * total);
        let hp = hp64 as u8;
        (hp, 100 - hp)
    } else {
        (50, 50)
    }
}

/// The eight stat-panel lines of a finished match.
#[verifier::opaque]
pub open spec fn spec_match_stats_lines(m: MatchResultV) -> Seq<Seq<char>> {
    let ht = spec_tactic_by_key(m.home_profile.tactic);
    let at = spec_tactic_by_key(m.away_profile.tactic);
    seq![
        "Tactics: "@ + spec_display_name(m.home) + " "@ + ht.label + " | "@ + spec_display_name(
            m.away,
        ) + " "@ + at.label,
        "Shots (On Target): "@ + spec_u64_string(m.stats.home.shots) + " ("@ + spec_u64_string(
            m.stats.home.sot,
        ) + ") vs "@ + spec_u64_string(m.stats.away.shots) + " ("@ + spec_u64_string(
            m.stats.away.sot,
        ) + ")"@,
        "xG: "@ + spec_micro_2dp(m.stats.home.xg) + " vs "@ + spec_micro_2dp(m.stats.away.xg),
        "Corners: "@ + spec_u64_string(m.stats.home.corners) + " vs "@ + spec_u64_string(
            m.stats.away.corners,
        ),
        "Fouls (Yellows): "@ + spec_u64_string(m.stats.home.fouls) + " ("@ + spec_u64_string(
            m.stats.home.yellows,
        ) + ") vs "@ + spec_u64_string(m.stats.away.fouls) + " ("@ + spec_u64_string(
            m.stats.away.yellows,
        ) + ")"@,
        "Offsides: "@ + spec_u64_string(m.stats.home.offsides) + " vs "@ + spec_u64_string(
            m.stats.away.offsides,
        ),
        "Saves: "@ + spec_u64_string(m.stats.home.saves) + " vs "@ + spec_u64_string(
            m.stats.away.saves,
        ),
        "Possession: "@ + spec_u64_string(m.home_possession) + "% vs "@ + spec_u64_string(
            m.away_possession,
        ) + "%"@,
    ]
}

/// Builds the eight stat-panel lines for a finished match.
pub fn match_stats_lines(result: &MatchResult) -> (r: Vec<String>)
    requires
        result.stats.home.xg < 0x1000_0000_0000_0000,
        result.stats.away.xg < 0x1000_0000_0000_0000,
    ensures
        r.deep_view() == spec_match_stats_lines(result@),
{
    proof {
        reveal(spec_match_stats_lines);
    }
    let home_tactic = tactic_by_key(result.home_profile.tactic.as_str());
    let away_tactic = tactic_by_key(result.away_profile.tactic.as_str());
    let mut out: Vec<String> = Vec::new();
    let l1 = "Tactics: "
        .to_owned()
        .concat(display_name(result.home.as_str()).as_str())
        .concat(" ")
        .concat(home_tactic.label.as_str())
        .concat(" | ")
        .concat(display_name(result.away.as_str()).as_str())
        .concat(" ")
        .concat(away_tactic.label.as_str());
    push_line(&mut out, l1);
    let l2 = "Shots (On Target): "
        .to_owned()
        .concat(u64_to_string(result.stats.home.shots as u64).as_str())
        .concat(" (")
        .concat(u64_to_string(result.stats.home.sot as u64).as_str())
        .concat(") vs ")
        .concat(u64_to_string(result.stats.away.shots as u64).as_str())
        .concat(" (")
        .concat(u64_to_string(result.stats.away.sot as u64).as_str())
        .concat(")");
    push_line(&mut out, l2);
    let l3 = "xG: ".to_owned().concat(micro_2dp(result.stats.home.xg).as_str()).concat(
        " vs ",
    ).concat(micro_2dp(result.stats.away.xg).as_str());
    push_line(&mut out, l3);
    let l4 = "Corners: ".to_owned().concat(
        u64_to_string(result.stats.home.corners as u64).as_str(),
    ).concat(" vs ").concat(u64_to_string(result.stats.away.corners as u64).as_str());
    push_line(&mut out, l4);
    let l5 = "Fouls (Yellows): "
        .to_owned()
        .concat(u64_to_string(result.stats.home.fouls as u64).as_str())
        .concat(" (")
        .concat(u64_to_string(result.stats.home.yellows as u64).as_str())
        .concat(") vs ")
        .concat(u64_to_string(result.stats.away.fouls as u64).as_str())
        .concat(" (")
        .concat(u64_to_string(result.stats.away.yellows as u64).as_str())
        .concat(")");
    push_line(&mut out, l5);
    let l6 = "Offsides: ".to_owned().concat(
        u64_to_string(result.stats.home.offsides as u64).as_str(),
    ).concat(" vs ").concat(u64_to_string(result.stats.away.offsides as u64).as_str());
    push_line(&mut out, l6);
    let l7 = "Saves: ".to_owned().concat(
        u64_to_string(result.stats.home.saves as u64).as_str(),
    ).concat(" vs ").concat(u64_to_string(result.stats.away.saves as u64).as_str());
    push_line(&mut out, l7);
    let l8 = "Possession: "
        .to_owned()
        .concat(u64_to_string(result.home_possession as u64).as_str())
        .concat("% vs ")
        .concat(u64_to_string(result.away_possession as u64).as_str())
        .concat("%");
    push_line(&mut out, l8);
    assert(out.deep_view() =~= spec_match_stats_lines(result@));
    out
}

/// Appends a frame to a frame list, tracking the spec-level sequence.
pub fn push_frame(v: &mut Vec<SimFrame>, f: SimFrame)
    ensures
        final(v).deep_view() == old(v).deep_view().push(f@),
{
    let ghost before = v.deep_view();
    v.push(f);
    assert(v.deep_view() =~= before.push(f@));
}

/// The finished match two names and a generator state determine.
#[verifier::opaque]
pub open spec fn spec_match_result(home: Seq<char>, away: Seq<char>, s0: u64) -> MatchResultV {
    let cfg = spec_match_cfg(home, away);
    let fin = spec_minutes(cfg, s0, 90);
    let poss = spec_possession(
        cfg.home_prof.tactic == "possession"@,
        cfg.away_prof.tactic == "possession"@,
        fin.0.home.attacks,
        fin.0.away.attacks,
    );
    MatchResultV {
        home,
        away,
        home_goals: fin.0.home_goals,
        away_goals: fin.0.away_goals,
        home_profile: cfg.home_prof,
        away_profile: cfg.away_prof,
        stats: MatchStatsV { home: fin.0.home, away: fin.0.away },
        home_possession: poss.0,
        away_possession: poss.1,
    }
}

/// The frame sequence a match produces: the kickoff frame and one frame per
/// minute.
#[verifier::opaque]
pub open spec fn spec_match_frames(home: Seq<char>, away: Seq<char>, s0: u64) -> Seq<FrameV> {
    spec_minutes(spec_match_cfg(home, away), s0, 90).1
}

/// The generator state a match leaves behind.
#[verifier::opaque]
pub open spec fn spec_match_rng(home: Seq<char>, away: Seq<char>, s0: u64) -> u64 {
    spec_minutes(spec_match_cfg(home, away), s0, 90).0.rng
}

/// Simulates one 90-minute match between two named sides, consuming the
/// given generator stream. Returns the result and the 91 frames (kickoff
/// plus one per minute); both, and the stream's final state, are pure
/// functions of the names and the stream's starting state.
pub fn simulate_match(home: &str, away: &str, rng: &mut Rng) -> (r: (MatchResult, Vec<SimFrame>))
    ensures
        r.0@ == spec_match_result(home@, away@, old(rng)@),
        r.1.deep_view() == spec_match_frames(home@, away@, old(rng)@),
        r.1@.len() == 91,
        final(rng)@ == spec_match_rng(home@, away@, old(rng)@),
{
    let ghost s0 = rng@;
    let cfg = match_cfg(home, away);
    proof {
        reveal(spec_match_result);
        reveal(spec_match_frames);
        reveal(spec_match_rng);
        lemma_tactic_bounded(cfg@.home_prof.tactic);
        lemma_tactic_bounded(cfg@.away_prof.tactic);
    }
    let kickoff = kickoff_line(
        home,
        cfg.home_prof.formation.as_str(),
        cfg.ht.label.as_str(),
        away,
        cfg.away_prof.formation.as_str(),
        cfg.at.label.as_str(),
    );
    let mut logs0: Vec<String> = Vec::new();
    push_line(&mut logs0, kickoff);
    proof {
        assert(logs0.deep_view() =~= seq![
            spec_kickoff_line(
                home@,
                cfg@.home_prof.formation,
                cfg@.ht.label,
                away@,
                cfg@.away_prof.formation,
                cfg@.at.label,
            )
        ]);
    }
    let mut frames: Vec<SimFrame> = Vec::new();
    push_frame(
        &mut frames,
        empty_frame(
            scoreboard_line(
                home,
                cfg.home_prof.formation.as_str(),
                0,
                0,
                away,
                cfg.away_prof.formation.as_str(),
                0,
            ),
            logs0,
        ),
    );
    let mut minute: u8 = 0;
    let mut hg: u8 = 0;
    let mut ag: u8 = 0;
    let mut hs = TeamStats::default();
    let mut ast = TeamStats::default();
    proof {
        assert(frames.deep_view() =~~= spec_minutes(cfg@, s0, 0).1);
        assert(hs@ =~= StatsV::zero());
        assert(ast@ =~= StatsV::zero());
    }
    while minute < 90
        invariant
            minute <= 90,
            cfg@ == spec_match_cfg(home@, away@),
            tactic_bounded(cfg@.ht),
            tactic_bounded(cfg@.at),
            ({
                let g = spec_minutes(cfg@, s0, minute as int);
                &&& rng@ == g.0.rng
                &&& hg as int == g.0.home_goals
                &&& ag as int == g.0.away_goals
                &&& hs@ == g.0.home
                &&& ast@ == g.0.away
                &&& frames.deep_view() == g.1
            }),
        decreases 90 - minute,
    {
        proof {
            lemma_minutes_bounded(cfg@, s0, minute as int);
        }
        minute = minute + 1;
        let (nhg, nag, nhs, nas, frame) = play_minute(&cfg, rng, minute, hg, ag, hs, ast);
        hg = nhg;
        ag = nag;
        hs = nhs;
        ast = nas;
        push_frame(&mut frames, frame);
        proof {
            let prev = spec_minutes(cfg@, s0, minute as int - 1);
            assert(spec_minutes(cfg@, s0, minute as int) == (
                spec_play_minute(cfg@, prev.0, minute as int).0,
                prev.1.push(spec_play_minute(cfg@, prev.0, minute as int).1),
            ));
        }
    }
    proof {
        lemma_minutes_bounded(cfg@, s0, 90);
    }
    let MatchCfg { home: home_name, away: away_name, home_prof, away_prof, ht: _, at: _ } = cfg;
    let mut result = MatchResult {
        home: home_name,
        away: away_name,
        home_goals: hg,
        away_goals: ag,
        home_profile: home_prof,
        away_profile: away_prof,
        stats: MatchStats { home: hs, away: ast },
        home_possession: 50,
        away_possession: 50,
    };
    let (hpos, apos) = possession_pct(&result);
    result.home_possession = hpos;
    result.away_possession = apos;
    proof {
        assert(result@ =~= spec_match_result(home@, away@, s0));
        assert(frames.deep_view().len() == frames@.len());
    }
    (result, frames)
}

} // verus!
