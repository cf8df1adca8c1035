//! The playback state machine: one session wrapping a fully precomputed
//! simulation behind a stepping cursor. `start` computes everything; `tick`
//! reveals frames incrementally; `Completed` is terminal and idempotent.

use std::collections::VecDeque;

use vstd::prelude::*;
use vstd::string::StringExecFns;

use crate::export::simulation_to_csv_bytes;
use crate::export::spec_simulation_csv;
use crate::lines::clone_lines;
use crate::rng::spec_rng_new;
use crate::rng::Rng;
use crate::runner::run_simulation;
use crate::runner::spec_run_simulation;
use crate::sim::FrameV;
use crate::sim::PreparedSimulation;
use crate::sim::PreparedV;
use crate::sim::SimOutcome;
use crate::sim::SimOutcomeV;
use crate::sim::SimulationType;
use crate::text::spec_u64_string;
use crate::text::u64_to_string;

verus! {

/// The ring buffer of recent log lines holds at most this many entries.
pub const MAX_LOG_LINES: usize = 1000;

/// Spec-level image of a playback status.
#[verifier::ext_equal]
pub ghost enum StatusV {
    Pending,
    Running { frame_index: int, total_frames: int },
    Completed,
}

/// Where a session stands: not yet computed, revealing frames, or done.
#[derive(Clone, Copy, PartialEq, Eq, Structural, Debug)]
pub enum SimStatus {
    Pending,
    Running { frame_index: usize, total_frames: usize },
    Completed,
}

impl View for SimStatus {
    type V = StatusV;

    open spec fn view(&self) -> StatusV {
        match self {
            SimStatus::Pending => StatusV::Pending,
            SimStatus::Running { frame_index, total_frames } => StatusV::Running {
                frame_index: *frame_index as int,
                total_frames: *total_frames as int,
            },
            SimStatus::Completed => StatusV::Completed,
        }
    }
}

/// Spec-level image of a session.
#[verifier::ext_equal]
pub ghost struct InstanceV {
    pub id: int,
    pub sim_type: SimulationType,
    pub teams: Seq<Seq<char>>,
    pub seed: u64,
    pub status: StatusV,
    pub scoreboard: Seq<char>,
    pub logs: Seq<Seq<char>>,
    pub stats_lines: Seq<Seq<char>>,
    pub competition_lines: Seq<Seq<char>>,
    pub history_lines: Seq<Seq<char>>,
    pub prepared: Option<PreparedV>,
}

/// Whether a team list is the right size for a tournament shape.
pub open spec fn team_count_ok(t: SimulationType, n: int) -> bool {
    match t {
        SimulationType::Single => n >= 2,
        SimulationType::League4 => n == 4,
        SimulationType::Knockout4 => n == 4,
    }
}

/// The session invariant: the team list fits the shape; the simulation is
/// computed exactly when the session has left `Pending`, and then it is the
/// one its own shape, teams and seed determine; a running cursor never
/// exceeds the frame count, which the status mirrors.
pub open spec fn inst_wf(v: InstanceV) -> bool {
    &&& team_count_ok(v.sim_type, v.teams.len() as int)
    &&& (v.status is Pending <==> v.prepared is None)
    &&& match v.prepared {
        Some(p) => p == spec_run_simulation(
            v.sim_type,
            v.teams,
            spec_rng_new(v.seed),
        ),
        None => true,
    }
    &&& match v.status {
        StatusV::Running { frame_index, total_frames } => {
            &&& v.prepared is Some
            &&& total_frames == v.prepared->0.frames.len()
            &&& 0 <= frame_index <= total_frames
        },
        _ => true,
    }
}

/// A session as just created.
pub open spec fn spec_new_instance(
    id: int,
    sim_type: SimulationType,
    teams: Seq<Seq<char>>,
    seed: u64,
) -> InstanceV {
    InstanceV {
        id,
        sim_type,
        teams,
        seed,
        status: StatusV::Pending,
        scoreboard: "Waiting for kickoff..."@,
        logs: Seq::empty(),
        stats_lines: Seq::empty(),
        competition_lines: Seq::empty(),
        history_lines: Seq::empty(),
        prepared: None,
    }
}

/// A log after one line: the oldest entry falls out once the buffer is full.
pub open spec fn spec_push_log(logs: Seq<Seq<char>>, line: Seq<char>) -> Seq<Seq<char>> {
    if logs.len() == 1000 {
        logs.skip(1).push(line)
    } else {
        logs.push(line)
    }
}

/// A log after a batch of lines, applied in order.
pub open spec fn spec_push_logs(logs: Seq<Seq<char>>, lines: Seq<Seq<char>>) -> Seq<Seq<char>>
    decreases lines.len(),
{
    if lines.len() == 0 {
        logs
    } else {
        spec_push_logs(spec_push_log(logs, lines[0]), lines.skip(1))
    }
}

/// A session after one frame is applied: the scoreboard replaced, the
/// frame's log lines pushed, the stats and competition panels replaced when
/// the frame carries them, and the history extended. The status and cursor
/// are not part of the application itself.
pub open spec fn spec_apply_frame(v: InstanceV, f: FrameV) -> InstanceV {
    InstanceV {
        scoreboard: f.scoreboard,
        logs: spec_push_logs(v.logs, f.logs),
        stats_lines: match f.stats_lines {
            Some(s) => s,
            None => v.stats_lines,
        },
        competition_lines: match f.competition_lines {
            Some(s) => s,
            None => v.competition_lines,
        },
        history_lines: v.history_lines + f.history_append,
        ..v
    }
}

/// The session with its cursor at the given index.
pub open spec fn spec_with_index(v: InstanceV, i: int) -> InstanceV {
    match v.status {
        StatusV::Running { frame_index: _, total_frames } => InstanceV {
            status: StatusV::Running { frame_index: i, total_frames },
            ..v
        },
        _ => v,
    }
}

/// The session once playback ends: `Completed`, with a terminal log line.
pub open spec fn spec_complete(v: InstanceV) -> InstanceV {
    InstanceV {
        status: StatusV::Completed,
        logs: spec_push_log(v.logs, "Simulation completed."@),
        ..v
    }
}

/// Advancing a running session by up to `n` frames: each step applies the
/// frame under the cursor and moves it; exhausting the frames, during or
/// after the steps, completes the session.
pub open spec fn spec_tick_loop(v: InstanceV, n: int) -> InstanceV
    decreases n,
{
    match (v.status, v.prepared) {
        (StatusV::Running { frame_index, total_frames }, Some(p)) => {
            if n <= 0 {
                if frame_index >= total_frames {
                    spec_complete(v)
                } else {
                    v
                }
            } else if frame_index >= p.frames.len() {
                spec_complete(v)
            } else {
                spec_tick_loop(
                    spec_with_index(
                        spec_apply_frame(v, p.frames[frame_index]),
                        frame_index + 1,
                    ),
                    n - 1,
                )
            }
        },
        _ => v,
    }
}

/// A tick: a no-op unless the session is computed and running, else the
/// cursor advances by up to `n` frames.
pub open spec fn spec_tick(v: InstanceV, n: int) -> InstanceV {
    match (v.status, v.prepared) {
        (StatusV::Running { frame_index: _, total_frames: _ }, Some(_)) => spec_tick_loop(v, n),
        _ => v,
    }
}

/// A session after `start`: a no-op unless `Pending`; otherwise the whole
/// simulation is computed from the session's own seed, the projections are
/// cleared, the cursor starts at zero, and a start line is logged.
pub open spec fn spec_start(v: InstanceV) -> InstanceV {
    if !(v.status is Pending) {
        v
    } else {
        let p = spec_run_simulation(v.sim_type, v.teams, spec_rng_new(v.seed));
        InstanceV {
            status: StatusV::Running { frame_index: 0, total_frames: p.frames.len() as int },
            prepared: Some(p),
            stats_lines: Seq::empty(),
            competition_lines: Seq::empty(),
            history_lines: Seq::empty(),
            logs: spec_push_log(v.logs, spec_started_line(v.id, v.seed)),
            ..v
        }
    }
}

/// The log line recording that a session started.
pub open spec fn spec_started_line(id: int, seed: u64) -> Seq<char> {
    "Instance sim-"@ + spec_u64_string(id) + " started (seed="@ + spec_u64_string(seed as int)
        + ")"@
}

fn started_line(id: usize, seed: u64) -> (r: String)
    ensures
        r@ == spec_started_line(id as int, seed),
{
    let r = "Instance sim-"
        .to_owned()
        .concat(u64_to_string(id as u64).as_str())
        .concat(" started (seed=")
        .concat(u64_to_string(seed).as_str())
        .concat(")");
    assert(r@ =~= spec_started_line(id as int, seed));
    r
}

/// One user-visible simulation session: a precomputed simulation behind a
/// playback cursor, with the current scoreboard, log ring buffer, panel and
/// history projections.
pub struct SimulationInstance {
    pub id: usize,
    pub sim_type: SimulationType,
    pub teams: Vec<String>,
    pub seed: u64,
    pub status: SimStatus,
    pub scoreboard: String,
    pub logs: VecDeque<String>,
    pub stats_lines: Vec<String>,
    pub competition_lines: Vec<String>,
    pub history_lines: Vec<String>,
    pub prepared: Option<PreparedSimulation>,
}

impl View for SimulationInstance {
    type V = InstanceV;

    open spec fn view(&self) -> InstanceV {
        InstanceV {
            id: self.id as int,
            sim_type: self.sim_type,
            teams: self.teams.deep_view(),
            seed: self.seed,
            status: self.status@,
            scoreboard: self.scoreboard@,
            logs: self.logs.deep_view(),
            stats_lines: self.stats_lines.deep_view(),
            competition_lines: self.competition_lines.deep_view(),
            history_lines: self.history_lines.deep_view(),
            prepared: match &self.prepared {
                Some(p) => Some(p@),
                None => None,
            },
        }
    }
}

fn push_log_line(logs: &mut VecDeque<String>, line: String)
    ensures
        final(logs).deep_view() == spec_push_log(old(logs).deep_view(), line@),
{
    let ghost before = logs.deep_view();
    if logs.len() == MAX_LOG_LINES {
        let _ = logs.pop_front();
        proof {
            assert(logs.deep_view() =~= before.skip(1));
        }
    }
    let ghost mid = logs.deep_view();
    logs.push_back(line);
    proof {
        assert(logs.deep_view() =~= mid.push(line@));
        assert(logs.deep_view() =~= spec_push_log(before, line@));
    }
}

impl SimulationInstance {
    /// A fresh session for a shape, a validated team list and a seed.
    pub fn new(id: usize, sim_type: SimulationType, teams: Vec<String>, seed: u64) -> (r:
        SimulationInstance)
        requires
            team_count_ok(sim_type, teams@.len() as int),
        ensures
            r@ == spec_new_instance(id as int, sim_type, teams.deep_view(), seed),
            inst_wf(r@),
    {
        let r = SimulationInstance {
            id,
            sim_type,
            teams,
            seed,
            status: SimStatus::Pending,
            scoreboard: "Waiting for kickoff...".to_owned(),
            logs: VecDeque::with_capacity(MAX_LOG_LINES),
            stats_lines: Vec::new(),
            competition_lines: Vec::new(),
            history_lines: Vec::new(),
            prepared: None,
        };
        proof {
            assert(r@ =~~= spec_new_instance(id as int, sim_type, r.teams.deep_view(), seed));
        }
        r
    }

    /// A fresh session with the same shape and teams under a new id and
    /// seed.
    pub fn clone_as(&self, new_id: usize, new_seed: u64) -> (r: SimulationInstance)
        requires
            inst_wf(self@),
        ensures
            r@ == spec_new_instance(new_id as int, self@.sim_type, self@.teams, new_seed),
            inst_wf(r@),
    {
        SimulationInstance::new(new_id, self.sim_type, clone_lines(&self.teams), new_seed)
    }

    /// Computes the whole simulation and begins playback. A no-op unless the
    /// session is still `Pending`.
    pub fn start(&mut self)
        requires
            inst_wf(old(self)@),
        ensures
            final(self)@ == spec_start(old(self)@),
            inst_wf(final(self)@),
    {
        match self.status {
            SimStatus::Pending => {},
            _ => {
                return ;
            },
        }
        let mut rng = Rng::new(self.seed);
        let prepared = run_simulation(self.sim_type, &self.teams, &mut rng);
        let total_frames = prepared.frames.len();
        self.stats_lines = Vec::new();
        self.competition_lines = Vec::new();
        self.history_lines = Vec::new();
        self.status = SimStatus::Running { frame_index: 0, total_frames };
        self.prepared = Some(prepared);
        let line = started_line(self.id, self.seed);
        push_log_line(&mut self.logs, line);
        proof {
            assert(self@ =~~= spec_start(old(self)@));
        }
    }

    /// Reveals up to `frames_to_advance` frames: each applies its scoreboard,
    /// log lines, panel replacements and history lines; the session completes
    /// when the cursor exhausts the frames, and further ticks are no-ops.
    #[verifier::rlimit(60)]
    pub fn tick(&mut self, frames_to_advance: usize)
        requires
            inst_wf(old(self)@),
        ensures
            final(self)@ == spec_tick(old(self)@, frames_to_advance as int),
            inst_wf(final(self)@),
    {
        let total_available = match &self.prepared {
            Some(p) => p.frames.len(),
            None => {
                return ;
            },
        };
        let (mut frame_index, total_frames) = match self.status {
            SimStatus::Running { frame_index, total_frames } => (frame_index, total_frames),
            _ => {
                return ;
            },
        };
        let mut k: usize = 0;
        while k < frames_to_advance
            invariant
                inst_wf(old(self)@),
                k <= frames_to_advance,
                self@ == (InstanceV {
                    scoreboard: self@.scoreboard,
                    logs: self@.logs,
                    stats_lines: self@.stats_lines,
                    competition_lines: self@.competition_lines,
                    history_lines: self@.history_lines,
                    ..old(self)@
                }),
                self@.status == (StatusV::Running {
                    frame_index: old(self)@.status->Running_frame_index,
                    total_frames: total_frames as int,
                }),
                total_frames == total_available,
                frame_index <= total_available,
                total_available as int == self@.prepared->0.frames.len(),
                spec_tick(old(self)@, frames_to_advance as int) == spec_tick_loop(
                    spec_with_index(self@, frame_index as int),
                    frames_to_advance as int - k as int,
                ),
            decreases frames_to_advance - k,
        {
            let ghost pre = spec_with_index(self@, frame_index as int);
            if frame_index >= total_available {
                self.status = SimStatus::Completed;
                push_log_line(&mut self.logs, "Simulation completed.".to_owned());
                proof {
                    assert(self@ =~~= spec_complete(pre));
                }
                return ;
            }
            let frame = match &self.prepared {
                Some(p) => {
                    proof {
                        assert(p@ == self@.prepared->0);
                        assert(p.frames.deep_view().len() == p.frames@.len());
                        assert(p.frames@.len() == total_available);
                    }
                    p.frames[frame_index].clone()
                },
                None => {
                    return ;
                },
            };
            self.scoreboard = frame.scoreboard;
            let mut j: usize = 0;
            let ghost logs0 = self.logs.deep_view();
            let ghost before_logs = self@;
            let ghost frame_logs = frame.logs.deep_view();
            proof {
                assert(frame_logs.skip(0) =~= frame_logs);
            }
            while j < frame.logs.len()
                invariant
                    j <= frame.logs@.len(),
                    frame_logs == frame.logs.deep_view(),
                    self@ == (InstanceV { logs: self@.logs, ..before_logs }),
                    spec_push_logs(logs0, frame_logs) == spec_push_logs(
                        self.logs.deep_view(),
                        frame_logs.skip(j as int),
                    ),
                decreases frame.logs@.len() - j,
            {
                push_log_line(&mut self.logs, frame.logs[j].clone());
                proof {
                    assert(frame_logs.skip(j as int)[0] == frame_logs[j as int]);
                    assert(frame_logs.skip(j as int).skip(1) =~= frame_logs.skip(j as int + 1));
                }
                j = j + 1;
            }
            proof {
                assert(frame_logs.skip(frame.logs@.len() as int).len() == 0);
                assert(self.logs.deep_view() == spec_push_logs(logs0, frame_logs));
            }
            if let Some(stats) = frame.stats_lines {
                self.stats_lines = stats;
            }
            if let Some(comp) = frame.competition_lines {
                self.competition_lines = comp;
            }
            let ghost hist0 = self.history_lines.deep_view();
            let ghost before_hist = self@;
            let ghost happ = frame.history_append.deep_view();
            let mut h: usize = 0;
            while h < frame.history_append.len()
                invariant
                    h <= frame.history_append@.len(),
                    happ == frame.history_append.deep_view(),
                    self@ == (InstanceV { history_lines: self@.history_lines, ..before_hist }),
                    self.history_lines.deep_view() =~= hist0 + happ.take(h as int),
                decreases frame.history_append@.len() - h,
            {
                crate::lines::push_line(&mut self.history_lines, frame.history_append[h].clone());
                proof {
                    assert(self.history_lines.deep_view() =~= hist0 + happ.take(h as int + 1));
                }
                h = h + 1;
            }
            proof {
                assert(happ.take(happ.len() as int) =~= happ);
            }
            frame_index = frame_index + 1;
            proof {
                assert(spec_with_index(self@, frame_index as int) =~~= spec_with_index(
                    spec_apply_frame(pre, pre.prepared->0.frames[frame_index as int - 1]),
                    frame_index as int,
                ));
            }
            k = k + 1;
        }
        if frame_index >= total_frames {
            let ghost pre = spec_with_index(self@, frame_index as int);
            self.status = SimStatus::Completed;
            push_log_line(&mut self.logs, "Simulation completed.".to_owned());
            proof {
                assert(self@ =~~= spec_complete(pre));
            }
        } else {
            let ghost pre = spec_with_index(self@, frame_index as int);
            self.status = SimStatus::Running { frame_index, total_frames };
            proof {
                assert(self@ =~~= pre);
            }
        }
    }

    /// The progress text: ready, a running cursor over the total, or done.
    pub fn progress_text(&self) -> (r: String)
        ensures
            r@ == spec_progress_text(self@.status),
    {
        match self.status {
            SimStatus::Pending => "Ready to start".to_owned(),
            SimStatus::Running { frame_index, total_frames } => {
                let r = "Running "
                    .to_owned()
                    .concat(u64_to_string(frame_index as u64).as_str())
                    .concat("/")
                    .concat(u64_to_string(total_frames as u64).as_str());
                assert(r@ =~= spec_progress_text(self@.status));
                r
            },
            SimStatus::Completed => "Completed".to_owned(),
        }
    }

    /// The CSV bytes of the finished simulation, or an error while the
    /// session has never been started.
    pub fn export_csv(&self) -> (r: Result<Vec<u8>, String>)
        requires
            inst_wf(self@),
        ensures
            match r {
                Ok(bytes) => self@.prepared is Some && bytes@ == vstd::utf8::encode_utf8(
                    spec_simulation_csv(self@.prepared->0),
                ),
                Err(e) => self@.prepared is None && e@ == "Simulation has not run yet"@,
            },
    {
        match &self.prepared {
            None => Err("Simulation has not run yet".to_owned()),
            Some(p) => {
                proof {
                    lemma_prepared_xg_bounds(self@.sim_type, self@.teams, spec_rng_new(self@.seed));
                }
                Ok(simulation_to_csv_bytes(p))
            },
        }
    }

    /// One line summarizing the outcome: the scoreline of a single match,
    /// the champion of a tournament, or a placeholder before any run.
    pub fn outcome_summary(&self) -> (r: String)
        ensures
            r@ == spec_outcome_summary(self@),
    {
        match &self.prepared {
            None => "No result yet".to_owned(),
            Some(p) => match &p.outcome {
                SimOutcome::Single(m) => {
                    let r = m
                        .home
                        .clone()
                        .concat(" ")
                        .concat(u64_to_string(m.home_goals as u64).as_str())
                        .concat("-")
                        .concat(u64_to_string(m.away_goals as u64).as_str())
                        .concat(" ")
                        .concat(m.away.as_str());
                    assert(r@ =~= spec_outcome_summary(self@));
                    r
                },
                SimOutcome::League { champion, final_table: _ } => {
                    let r = "Champion: ".to_owned().concat(champion.as_str());
                    assert(r@ =~= spec_outcome_summary(self@));
                    r
                },
                SimOutcome::Knockout { champion } => {
                    let r = "Champion: ".to_owned().concat(champion.as_str());
                    assert(r@ =~= spec_outcome_summary(self@));
                    r
                },
            },
        }
    }
}

/// The progress text a status displays.
pub open spec fn spec_progress_text(st: StatusV) -> Seq<char> {
    match st {
        StatusV::Pending => "Ready to start"@,
        StatusV::Running { frame_index, total_frames } => "Running "@ + spec_u64_string(
            frame_index,
        ) + "/"@ + spec_u64_string(total_frames),
        StatusV::Completed => "Completed"@,
    }
}

/// The outcome summary a session displays.
pub open spec fn spec_outcome_summary(v: InstanceV) -> Seq<char> {
    match v.prepared {
        None => "No result yet"@,
        Some(p) => match p.outcome {
            SimOutcomeV::Single(m) => m.home + " "@ + spec_u64_string(m.home_goals) + "-"@
                + spec_u64_string(m.away_goals) + " "@ + m.away,
            SimOutcomeV::League { champion, final_table: _ } => "Champion: "@ + champion,
            SimOutcomeV::Knockout { champion } => "Champion: "@ + champion,
        },
    }
}

/// A computed single-match outcome carries expected-goal totals far below
/// the formatting limit.
pub proof fn lemma_prepared_xg_bounds(t: SimulationType, teams: Seq<Seq<char>>, s0: u64)
    ensures
        match spec_run_simulation(t, teams, s0).outcome {
            SimOutcomeV::Single(m) => 0 <= m.stats.home.xg < 0x1000_0000_0000_0000 && 0
                <= m.stats.away.xg < 0x1000_0000_0000_0000,
            _ => true,
        },
{
    reveal(crate::runner::spec_run_single);
    reveal(crate::sim::spec_match_result);
    match t {
        SimulationType::Single => {
            let cfg = crate::sim::spec_match_cfg(teams[0], teams[1]);
            crate::sim::lemma_tactic_bounded(cfg.home_prof.tactic);
            crate::sim::lemma_tactic_bounded(cfg.away_prof.tactic);
            crate::sim::lemma_minutes_bounded(cfg, s0, 90);
        },
        SimulationType::League4 => {
            reveal(crate::league::spec_run_league4);
        },
        SimulationType::Knockout4 => {
            reveal(crate::knockout::spec_run_knockout4);
            reveal(crate::knockout::spec_knockout_full);
        },
    }
}

/// The session after `k` single-frame ticks.
pub open spec fn spec_ticks(v: InstanceV, k: int) -> InstanceV
    decreases k,
{
    if k <= 0 {
        v
    } else {
        spec_tick(spec_ticks(v, k - 1), 1)
    }
}

/// A tick of any size is a no-op on a completed session.
pub proof fn lemma_tick_completed(v: InstanceV, n: int)
    requires
        v.status is Completed,
    ensures
        spec_tick(v, n) == v,
{
}

/// One tick of one frame from a running cursor advances it by one, and
/// completes the session exactly when the cursor reaches the end.
pub proof fn lemma_tick_one_step(v: InstanceV)
    requires
        inst_wf(v),
        v.status is Running,
        v.status->Running_frame_index < v.status->Running_total_frames,
    ensures
        inst_wf(spec_tick(v, 1)),
        spec_tick(v, 1).prepared == v.prepared,
        spec_tick(v, 1).status == if v.status->Running_frame_index + 1
            == v.status->Running_total_frames {
            StatusV::Completed
        } else {
            StatusV::Running {
                frame_index: v.status->Running_frame_index + 1,
                total_frames: v.status->Running_total_frames,
            }
        },
{
    let i = v.status->Running_frame_index;
    let p = v.prepared->0;
    assert(spec_tick(v, 1) == spec_tick_loop(v, 1));
    let v1 = spec_with_index(spec_apply_frame(v, p.frames[i]), i + 1);
    assert(spec_tick_loop(v, 1) == spec_tick_loop(v1, 0));
    assert(v1.prepared == v.prepared);
    if i + 1 >= v.status->Running_total_frames {
        assert(spec_tick_loop(v1, 0) == spec_complete(v1));
    } else {
        assert(spec_tick_loop(v1, 0) == v1);
    }
}

/// Playback exhaustion: from a running cursor, single-frame ticks reach
/// `Completed` in exactly the number of frames that remain — any fewer
/// ticks leave the session running — and every tick after that is a no-op.
pub proof fn lemma_playback_exhaustion(v: InstanceV, m: int)
    requires
        inst_wf(v),
        v.status is Running,
        v.status->Running_frame_index < v.status->Running_total_frames,
        0 <= m,
    ensures
        ({
            let remaining = v.status->Running_total_frames - v.status->Running_frame_index;
            &&& m < remaining ==> spec_ticks(v, m).status == (StatusV::Running {
                frame_index: v.status->Running_frame_index + m,
                total_frames: v.status->Running_total_frames,
            })
            &&& m >= remaining ==> spec_ticks(v, m).status is Completed
            &&& m > remaining ==> spec_ticks(v, m) == spec_ticks(v, remaining)
            &&& inst_wf(spec_ticks(v, m))
            &&& spec_ticks(v, m).prepared == v.prepared
        }),
    decreases m,
{
    let i = v.status->Running_frame_index;
    let total = v.status->Running_total_frames;
    if m == 0 {
    } else {
        lemma_playback_exhaustion(v, m - 1);
        let prev = spec_ticks(v, m - 1);
        assert(spec_ticks(v, m) == spec_tick(prev, 1));
        if m - 1 < total - i {
            assert(prev.status == (StatusV::Running {
                frame_index: i + m - 1,
                total_frames: total,
            }));
            lemma_tick_one_step(prev);
            if m < total - i {
                assert(spec_ticks(v, m).status == (StatusV::Running {
                    frame_index: i + m,
                    total_frames: total,
                }));
            } else {
                assert(m == total - i);
                assert(spec_ticks(v, m).status is Completed);
            }
        } else {
            assert(prev.status is Completed);
            lemma_tick_completed(prev, 1);
            assert(spec_ticks(v, m) == prev);
            if m - 1 == total - i {
                assert(prev == spec_ticks(v, total - i));
            }
        }
    }
}

} // verus!
