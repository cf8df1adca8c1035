//! The single-elimination knockout: two semifinals over four teams and a
//! final, level matches resolved by a penalty shootout, with a bracket
//! snapshot frame after each round.

use vstd::prelude::*;
use vstd::string::StringExecFns;

use crate::catalog::spec_display_name;
use crate::catalog::display_name;
use crate::league::spec_result_line;
use crate::league::append_frames;
use crate::league::result_line;
use crate::lines::push_line;
use crate::rng::Rng;
use crate::sim::spec_penalties;
use crate::sim::match_stats_lines;
use crate::sim::penalties;
use crate::sim::push_frame;
use crate::sim::simulate_match;
use crate::sim::spec_empty_frame;
use crate::sim::spec_match_frames;
use crate::sim::spec_match_result;
use crate::sim::spec_match_rng;
use crate::sim::spec_match_stats_lines;
use crate::sim::empty_frame;
use crate::sim::FrameV;
use crate::sim::PreparedSimulation;
use crate::sim::PreparedV;
use crate::sim::SimFrame;
use crate::sim::SimOutcome;
use crate::sim::SimOutcomeV;
use crate::text::spec_u64_string;
use crate::text::u64_to_string;

verus! {

/// A bracket slot's display text: the known line, or a placeholder.
pub open spec fn spec_or_tbd(o: Option<Seq<char>>) -> Seq<char> {
    match o {
        Some(s) => s,
        None => "TBD"@,
    }
}

/// The competition panel for a knockout: the bracket with whatever semifinal,
/// final and champion lines are known so far.
pub open spec fn spec_bracket_lines(
    semi1: Option<Seq<char>>,
    semi2: Option<Seq<char>>,
    final_line: Option<Seq<char>>,
    champion: Option<Seq<char>>,
) -> Seq<Seq<char>> {
    seq![
        "Knockout Bracket"@,
        "Semi 1: "@ + spec_or_tbd(semi1),
        "            \\"@,
        "            +-- Final: "@ + spec_or_tbd(final_line),
        "            /"@,
        "Semi 2: "@ + spec_or_tbd(semi2),
        "Champion: "@ + spec_or_tbd(champion),
    ]
}

fn or_tbd(o: Option<&str>) -> (r: &str)
    ensures
        r@ == spec_or_tbd(
            match o {
                Some(s) => Some(s@),
                None => None,
            },
        ),
{
    match o {
        Some(s) => s,
        None => "TBD",
    }
}

/// Formats the knockout bracket panel.
pub fn knockout_bracket_lines(
    semi1: Option<&str>,
    semi2: Option<&str>,
    final_line: Option<&str>,
    champion: Option<&str>,
) -> (r: Vec<String>)
    ensures
        r.deep_view() == spec_bracket_lines(
            match semi1 {
                Some(s) => Some(s@),
                None => None,
            },
            match semi2 {
                Some(s) => Some(s@),
                None => None,
            },
            match final_line {
                Some(s) => Some(s@),
                None => None,
            },
            match champion {
                Some(s) => Some(s@),
                None => None,
            },
        ),
{
    let mut out: Vec<String> = Vec::new();
    push_line(&mut out, "Knockout Bracket".to_owned());
    push_line(&mut out, "Semi 1: ".to_owned().concat(or_tbd(semi1)));
    push_line(&mut out, "            \\".to_owned());
    push_line(&mut out, "            +-- Final: ".to_owned().concat(or_tbd(final_line)));
    push_line(&mut out, "            /".to_owned());
    push_line(&mut out, "Semi 2: ".to_owned().concat(or_tbd(semi2)));
    push_line(&mut out, "Champion: ".to_owned().concat(or_tbd(champion)));
    assert(out.deep_view() =~= spec_bracket_lines(
        match semi1 {
            Some(s) => Some(s@),
            None => None,
        },
        match semi2 {
            Some(s) => Some(s@),
            None => None,
        },
        match final_line {
            Some(s) => Some(s@),
            None => None,
        },
        match champion {
            Some(s) => Some(s@),
            None => None,
        },
    ));
    out
}

/// How a level-or-not scoreline resolves: a drawn match goes to a shootout
/// from the current generator state, and the side with more converted kicks
/// advances (the away side on a shootout still level when the sudden-death
/// cap is reached); otherwise the higher scorer advances without consuming
/// the stream.
pub open spec fn spec_decide(
    home: Seq<char>,
    away: Seq<char>,
    hg: int,
    ag: int,
    s: u64,
) -> (Seq<char>, Option<(int, int)>, u64) {
    if hg == ag {
        let p = spec_penalties(s);
        (
            if p.1 > p.2 {
                home
            } else {
                away
            },
            Some((p.1, p.2)),
            p.0,
        )
    } else if hg > ag {
        (home, None, s)
    } else {
        (away, None, s)
    }
}

/// A shootout happens exactly when the match ends level.
pub proof fn lemma_shootout_iff_level(home: Seq<char>, away: Seq<char>, hg: int, ag: int, s: u64)
    ensures
        spec_decide(home, away, hg, ag, s).1 is Some <==> hg == ag,
{
}

/// The side a decision advances is one of the two that played.
pub proof fn lemma_decide_winner(home: Seq<char>, away: Seq<char>, hg: int, ag: int, s: u64)
    ensures
        spec_decide(home, away, hg, ag, s).0 == home || spec_decide(home, away, hg, ag, s).0
            == away,
{
}

fn decide_match(home: &String, away: &String, hg: u8, ag: u8, rng: &mut Rng) -> (r: (
    String,
    Option<(u8, u8)>,
))
    ensures
        ({
            let d = spec_decide(home@, away@, hg as int, ag as int, old(rng)@);
            &&& r.0@ == d.0
            &&& final(rng)@ == d.2
            &&& match (r.1, d.1) {
                (Some(p), Some(q)) => p.0 as int == q.0 && p.1 as int == q.1,
                (None, None) => true,
                _ => false,
            }
        }),
{
    if hg == ag {
        let (ph, pa, home_wins) = penalties(rng);
        if home_wins {
            (home.clone(), Some((ph, pa)))
        } else {
            (away.clone(), Some((ph, pa)))
        }
    } else if hg > ag {
        (home.clone(), None)
    } else {
        (away.clone(), None)
    }
}

/// The shootout suffix a history line carries when a match went to kicks.
pub open spec fn spec_pens_suffix(p: Option<(int, int)>) -> Seq<char> {
    match p {
        Some(q) => " (pens "@ + spec_u64_string(q.0) + "-"@ + spec_u64_string(q.1) + ")"@,
        None => Seq::empty(),
    }
}

/// The history line of one semifinal, shootout score included when one
/// happened.
pub open spec fn spec_semi_line(
    idx: int,
    home: Seq<char>,
    hg: int,
    ag: int,
    away: Seq<char>,
    p: Option<(int, int)>,
) -> Seq<char> {
    "Semi "@ + spec_u64_string(idx + 1) + ": "@ + spec_result_line(home, hg, ag, away)
        + spec_pens_suffix(p)
}

fn semi_line(idx: usize, home: &str, hg: u8, ag: u8, away: &str, p: Option<(u8, u8)>) -> (r:
    String)
    requires
        idx < 2,
    ensures
        r@ == spec_semi_line(
            idx as int,
            home@,
            hg as int,
            ag as int,
            away@,
            match p {
                Some(q) => Some((q.0 as int, q.1 as int)),
                None => None,
            },
        ),
{
    let base = "Semi ".to_owned().concat(u64_to_string(idx as u64 + 1).as_str()).concat(
        ": ",
    ).concat(result_line(home, hg, ag, away).as_str());
    let r = match p {
        Some(q) => base.concat(" (pens ").concat(u64_to_string(q.0 as u64).as_str()).concat(
            "-",
        ).concat(u64_to_string(q.1 as u64).as_str()).concat(")"),
        None => base,
    };
    assert(r@ =~= spec_semi_line(
        idx as int,
        home@,
        hg as int,
        ag as int,
        away@,
        match p {
            Some(q) => Some((q.0 as int, q.1 as int)),
            None => None,
        },
    ));
    r
}

/// The history line of the final, shootout score included when one happened.
pub open spec fn spec_final_line(
    home: Seq<char>,
    hg: int,
    ag: int,
    away: Seq<char>,
    p: Option<(int, int)>,
) -> Seq<char> {
    "Final: "@ + spec_result_line(home, hg, ag, away) + spec_pens_suffix(p)
}

fn final_line(home: &str, hg: u8, ag: u8, away: &str, p: Option<(u8, u8)>) -> (r: String)
    ensures
        r@ == spec_final_line(
            home@,
            hg as int,
            ag as int,
            away@,
            match p {
                Some(q) => Some((q.0 as int, q.1 as int)),
                None => None,
            },
        ),
{
    let base = "Final: ".to_owned().concat(result_line(home, hg, ag, away).as_str());
    let r = match p {
        Some(q) => base.concat(" (pens ").concat(u64_to_string(q.0 as u64).as_str()).concat(
            "-",
        ).concat(u64_to_string(q.1 as u64).as_str()).concat(")"),
        None => base,
    };
    assert(r@ =~= spec_final_line(
        home@,
        hg as int,
        ag as int,
        away@,
        match p {
            Some(q) => Some((q.0 as int, q.1 as int)),
            None => None,
        },
    ));
    r
}

/// The banner while a semifinal runs.
pub open spec fn spec_semi_running_line(idx: int) -> Seq<char> {
    "Running Semi-final "@ + spec_u64_string(idx + 1) + "/2"@
}

fn semi_running_line(idx: usize) -> (r: String)
    requires
        idx < 2,
    ensures
        r@ == spec_semi_running_line(idx as int),
{
    let r = "Running Semi-final ".to_owned().concat(u64_to_string(idx as u64 + 1).as_str()).concat(
        "/2",
    );
    assert(r@ =~= spec_semi_running_line(idx as int));
    r
}

/// The log line announcing a semifinal.
pub open spec fn spec_semi_intro_line(idx: int, home: Seq<char>, away: Seq<char>) -> Seq<char> {
    "Semi "@ + spec_u64_string(idx + 1) + ": "@ + spec_display_name(home) + " vs "@
        + spec_display_name(away)
}

fn semi_intro_line(idx: usize, home: &str, away: &str) -> (r: String)
    requires
        idx < 2,
    ensures
        r@ == spec_semi_intro_line(idx as int, home@, away@),
{
    let r = "Semi "
        .to_owned()
        .concat(u64_to_string(idx as u64 + 1).as_str())
        .concat(": ")
        .concat(display_name(home).as_str())
        .concat(" vs ")
        .concat(display_name(away).as_str());
    assert(r@ =~= spec_semi_intro_line(idx as int, home@, away@));
    r
}

/// The banner after a semifinal.
pub open spec fn spec_semi_done_line(idx: int) -> Seq<char> {
    "Semi-final "@ + spec_u64_string(idx + 1) + " complete"@
}

fn semi_done_line(idx: usize) -> (r: String)
    requires
        idx < 2,
    ensures
        r@ == spec_semi_done_line(idx as int),
{
    let r = "Semi-final ".to_owned().concat(u64_to_string(idx as u64 + 1).as_str()).concat(
        " complete",
    );
    assert(r@ =~= spec_semi_done_line(idx as int));
    r
}

/// The log line announcing the final.
pub open spec fn spec_final_intro_line(home: Seq<char>, away: Seq<char>) -> Seq<char> {
    "Final: "@ + spec_display_name(home) + " vs "@ + spec_display_name(away)
}

fn final_intro_line(home: &str, away: &str) -> (r: String)
    ensures
        r@ == spec_final_intro_line(home@, away@),
{
    let r = "Final: ".to_owned().concat(display_name(home).as_str()).concat(" vs ").concat(
        display_name(away).as_str(),
    );
    assert(r@ =~= spec_final_intro_line(home@, away@));
    r
}

/// The history line crowning the knockout champion.
pub open spec fn spec_ko_champion_line(champ: Seq<char>) -> Seq<char> {
    "Champion: "@ + spec_display_name(champ) + " 🏆"@
}

fn ko_champion_line(champ: &str) -> (r: String)
    ensures
        r@ == spec_ko_champion_line(champ@),
{
    let r = "Champion: ".to_owned().concat(display_name(champ).as_str()).concat(" 🏆");
    assert(r@ =~= spec_ko_champion_line(champ@));
    r
}

/// The closing banner of a finished knockout.
pub open spec fn spec_ko_complete_line(champ: Seq<char>) -> Seq<char> {
    "Knockout complete - "@ + spec_display_name(champ)
}

fn ko_complete_line(champ: &str) -> (r: String)
    ensures
        r@ == spec_ko_complete_line(champ@),
{
    let r = "Knockout complete - ".to_owned().concat(display_name(champ).as_str());
    assert(r@ =~= spec_ko_complete_line(champ@));
    r
}

/// The whole knockout a team list and a generator state determine, with the
/// stream's final state. Semifinals pair the first seed with the fourth and
/// the second with the third; each drawn match goes to a shootout; the two
/// winners meet in the final.
#[verifier::opaque]
pub open spec fn spec_knockout_full(teams: Seq<Seq<char>>, s0: u64) -> (PreparedV, u64) {
    let f0 = FrameV {
        scoreboard: "Knockout bracket initialized"@,
        logs: seq!["Semi-finals ready"@],
        stats_lines: None,
        competition_lines: Some(spec_bracket_lines(None, None, None, None)),
        history_append: Seq::empty(),
    };
    let h1 = teams[0];
    let a1 = teams[3];
    let pre1 = spec_empty_frame(spec_semi_running_line(0), seq![spec_semi_intro_line(0, h1, a1)]);
    let res1 = spec_match_result(h1, a1, s0);
    let mf1 = spec_match_frames(h1, a1, s0);
    let d1 = spec_decide(h1, a1, res1.home_goals, res1.away_goals, spec_match_rng(h1, a1, s0));
    let line1 = spec_semi_line(0, h1, res1.home_goals, res1.away_goals, a1, d1.1);
    let post1 = FrameV {
        scoreboard: spec_semi_done_line(0),
        logs: seq!["Bracket updated"@],
        stats_lines: Some(spec_match_stats_lines(res1)),
        competition_lines: Some(spec_bracket_lines(Some(line1), None, None, None)),
        history_append: seq![line1],
    };
    let h2 = teams[1];
    let a2 = teams[2];
    let pre2 = spec_empty_frame(spec_semi_running_line(1), seq![spec_semi_intro_line(1, h2, a2)]);
    let res2 = spec_match_result(h2, a2, d1.2);
    let mf2 = spec_match_frames(h2, a2, d1.2);
    let d2 = spec_decide(h2, a2, res2.home_goals, res2.away_goals, spec_match_rng(h2, a2, d1.2));
    let line2 = spec_semi_line(1, h2, res2.home_goals, res2.away_goals, a2, d2.1);
    let post2 = FrameV {
        scoreboard: spec_semi_done_line(1),
        logs: seq!["Bracket updated"@],
        stats_lines: Some(spec_match_stats_lines(res2)),
        competition_lines: Some(spec_bracket_lines(Some(line1), Some(line2), None, None)),
        history_append: seq![line2],
    };
    let w1 = d1.0;
    let w2 = d2.0;
    let pref = spec_empty_frame("Running Final"@, seq![spec_final_intro_line(w1, w2)]);
    let resf = spec_match_result(w1, w2, d2.2);
    let mff = spec_match_frames(w1, w2, d2.2);
    let df = spec_decide(w1, w2, resf.home_goals, resf.away_goals, spec_match_rng(w1, w2, d2.2));
    let linef = spec_final_line(w1, resf.home_goals, resf.away_goals, w2, df.1);
    let champion = df.0;
    let champ_line = spec_ko_champion_line(champion);
    let postf = FrameV {
        scoreboard: spec_ko_complete_line(champion),
        logs: seq!["Final complete"@],
        stats_lines: Some(spec_match_stats_lines(resf)),
        competition_lines: Some(
            spec_bracket_lines(Some(line1), Some(line2), Some(linef), Some(champ_line)),
        ),
        history_append: seq![linef, champ_line],
    };
    (
        PreparedV {
            frames: seq![f0, pre1] + mf1 + seq![post1, pre2] + mf2 + seq![post2, pref] + mff
                + seq![postf],
            outcome: SimOutcomeV::Knockout { champion },
            history_lines: seq![line1, line2, linef, champ_line],
        },
        df.2,
    )
}

/// The finished knockout a team list and a generator state determine.
#[verifier::opaque]
pub open spec fn spec_run_knockout4(teams: Seq<Seq<char>>, s0: u64) -> PreparedV {
    spec_knockout_full(teams, s0).0
}

/// The generator state a knockout run leaves behind.
#[verifier::opaque]
pub open spec fn spec_knockout_rng(teams: Seq<Seq<char>>, s0: u64) -> u64 {
    spec_knockout_full(teams, s0).1
}

/// Knockout termination: for every seed, the knockout crowns exactly one
/// champion, and it is one of the four teams that entered.
pub proof fn lemma_knockout_champion_is_participant(teams: Seq<Seq<char>>, s0: u64)
    requires
        teams.len() == 4,
    ensures
        ({
            let out = spec_run_knockout4(teams, s0).outcome;
            &&& out is Knockout
            &&& {
                let c = out->Knockout_champion;
                c == teams[0] || c == teams[1] || c == teams[2] || c == teams[3]
            }
        }),
{
    reveal(spec_knockout_full);
    reveal(spec_run_knockout4);
}

/// Runs a four-team single-elimination knockout: the first seed meets the
/// fourth and the second meets the third; drawn matches go to a shootout;
/// the winners meet in the final. The whole run is a pure function of the
/// team list and the generator's starting state.
#[verifier::rlimit(100)]
pub fn run_knockout4(teams: &Vec<String>, rng: &mut Rng) -> (r: PreparedSimulation)
    requires
        teams@.len() == 4,
    ensures
        r@ == spec_run_knockout4(teams.deep_view(), old(rng)@),
        final(rng)@ == spec_knockout_rng(teams.deep_view(), old(rng)@),
{
    proof {
        reveal(spec_knockout_full);
        reveal(spec_run_knockout4);
        reveal(spec_knockout_rng);
    }
    let ghost s0 = rng@;
    let ghost tv = teams.deep_view();
    let mut frames: Vec<SimFrame> = Vec::new();
    let mut history: Vec<String> = Vec::new();
    let comp0 = knockout_bracket_lines(None, None, None, None);
    let mut logs0: Vec<String> = Vec::new();
    push_line(&mut logs0, "Semi-finals ready".to_owned());
    let frame0 = SimFrame {
        scoreboard: "Knockout bracket initialized".to_owned(),
        logs: logs0,
        stats_lines: None,
        competition_lines: Some(comp0),
        history_append: Vec::new(),
    };
    proof {
        assert(frame0@ =~~= spec_knockout_full(tv, s0).0.frames[0]);
    }
    push_frame(&mut frames, frame0);
    // Semifinal one: first seed against fourth.
    let h1 = teams[0].clone();
    let a1 = teams[3].clone();
    let mut il1: Vec<String> = Vec::new();
    push_line(&mut il1, semi_intro_line(0, h1.as_str(), a1.as_str()));
    proof {
        assert(il1.deep_view() =~= seq![spec_semi_intro_line(0, h1@, a1@)]);
    }
    push_frame(&mut frames, empty_frame(semi_running_line(0), il1));
    proof {
        reveal(crate::sim::spec_match_result);
        let cfg = crate::sim::spec_match_cfg(h1@, a1@);
        crate::sim::lemma_tactic_bounded(cfg.home_prof.tactic);
        crate::sim::lemma_tactic_bounded(cfg.away_prof.tactic);
        crate::sim::lemma_minutes_bounded(cfg, rng@, 90);
    }
    let (res1, mf1) = simulate_match(h1.as_str(), a1.as_str(), rng);
    append_frames(&mut frames, mf1);
    let stats1 = match_stats_lines(&res1);
    let (w1, p1) = decide_match(&h1, &a1, res1.home_goals, res1.away_goals, rng);
    let line1 = semi_line(0, h1.as_str(), res1.home_goals, res1.away_goals, a1.as_str(), p1);
    push_line(&mut history, line1.clone());
    let comp1 = knockout_bracket_lines(Some(line1.as_str()), None, None, None);
    let mut bl1: Vec<String> = Vec::new();
    push_line(&mut bl1, "Bracket updated".to_owned());
    let mut ha1: Vec<String> = Vec::new();
    push_line(&mut ha1, line1.clone());
    let post1 = SimFrame {
        scoreboard: semi_done_line(0),
        logs: bl1,
        stats_lines: Some(stats1),
        competition_lines: Some(comp1),
        history_append: ha1,
    };
    proof {
        let res1s = spec_match_result(h1@, a1@, s0);
        let d1s = spec_decide(
            h1@,
            a1@,
            res1s.home_goals,
            res1s.away_goals,
            spec_match_rng(h1@, a1@, s0),
        );
        let line1s = spec_semi_line(0, h1@, res1s.home_goals, res1s.away_goals, a1@, d1s.1);
        assert(line1@ == line1s);
        assert(post1@ =~~= (FrameV {
            scoreboard: spec_semi_done_line(0),
            logs: seq!["Bracket updated"@],
            stats_lines: Some(spec_match_stats_lines(res1s)),
            competition_lines: Some(spec_bracket_lines(Some(line1s), None, None, None)),
            history_append: seq![line1s],
        }));
    }
    push_frame(&mut frames, post1);
    // Semifinal two: second seed against third.
    let h2 = teams[1].clone();
    let a2 = teams[2].clone();
    let mut il2: Vec<String> = Vec::new();
    push_line(&mut il2, semi_intro_line(1, h2.as_str(), a2.as_str()));
    proof {
        assert(il2.deep_view() =~= seq![spec_semi_intro_line(1, h2@, a2@)]);
    }
    push_frame(&mut frames, empty_frame(semi_running_line(1), il2));
    proof {
        let cfg = crate::sim::spec_match_cfg(h2@, a2@);
        crate::sim::lemma_tactic_bounded(cfg.home_prof.tactic);
        crate::sim::lemma_tactic_bounded(cfg.away_prof.tactic);
        crate::sim::lemma_minutes_bounded(cfg, rng@, 90);
    }
    let (res2, mf2) = simulate_match(h2.as_str(), a2.as_str(), rng);
    append_frames(&mut frames, mf2);
    let stats2 = match_stats_lines(&res2);
    let (w2, p2) = decide_match(&h2, &a2, res2.home_goals, res2.away_goals, rng);
    let line2 = semi_line(1, h2.as_str(), res2.home_goals, res2.away_goals, a2.as_str(), p2);
    push_line(&mut history, line2.clone());
    let comp2 = knockout_bracket_lines(Some(line1.as_str()), Some(line2.as_str()), None, None);
    let mut bl2: Vec<String> = Vec::new();
    push_line(&mut bl2, "Bracket updated".to_owned());
    let mut ha2: Vec<String> = Vec::new();
    push_line(&mut ha2, line2.clone());
    let post2 = SimFrame {
        scoreboard: semi_done_line(1),
        logs: bl2,
        stats_lines: Some(stats2),
        competition_lines: Some(comp2),
        history_append: ha2,
    };
    proof {
        let res1s = spec_match_result(h1@, a1@, s0);
        let d1s = spec_decide(
            h1@,
            a1@,
            res1s.home_goals,
            res1s.away_goals,
            spec_match_rng(h1@, a1@, s0),
        );
        let line1s = spec_semi_line(0, h1@, res1s.home_goals, res1s.away_goals, a1@, d1s.1);
        let res2s = spec_match_result(h2@, a2@, d1s.2);
        let d2s = spec_decide(
            h2@,
            a2@,
            res2s.home_goals,
            res2s.away_goals,
            spec_match_rng(h2@, a2@, d1s.2),
        );
        let line2s = spec_semi_line(1, h2@, res2s.home_goals, res2s.away_goals, a2@, d2s.1);
        assert(line2@ == line2s);
        assert(post2@ =~~= (FrameV {
            scoreboard: spec_semi_done_line(1),
            logs: seq!["Bracket updated"@],
            stats_lines: Some(spec_match_stats_lines(res2s)),
            competition_lines: Some(spec_bracket_lines(Some(line1s), Some(line2s), None, None)),
            history_append: seq![line2s],
        }));
    }
    push_frame(&mut frames, post2);
    // The final between the two winners.
    let mut ilf: Vec<String> = Vec::new();
    push_line(&mut ilf, final_intro_line(w1.as_str(), w2.as_str()));
    proof {
        assert(ilf.deep_view() =~= seq![spec_final_intro_line(w1@, w2@)]);
    }
    push_frame(&mut frames, empty_frame("Running Final".to_owned(), ilf));
    proof {
        let cfg = crate::sim::spec_match_cfg(w1@, w2@);
        crate::sim::lemma_tactic_bounded(cfg.home_prof.tactic);
        crate::sim::lemma_tactic_bounded(cfg.away_prof.tactic);
        crate::sim::lemma_minutes_bounded(cfg, rng@, 90);
    }
    let (resf, mff) = simulate_match(w1.as_str(), w2.as_str(), rng);
    append_frames(&mut frames, mff);
    let statsf = match_stats_lines(&resf);
    let (champion, pf) = decide_match(&w1, &w2, resf.home_goals, resf.away_goals, rng);
    let linef = final_line(w1.as_str(), resf.home_goals, resf.away_goals, w2.as_str(), pf);
    push_line(&mut history, linef.clone());
    let champ_line = ko_champion_line(champion.as_str());
    push_line(&mut history, champ_line.clone());
    let compf = knockout_bracket_lines(
        Some(line1.as_str()),
        Some(line2.as_str()),
        Some(linef.as_str()),
        Some(champ_line.as_str()),
    );
    let mut blf: Vec<String> = Vec::new();
    push_line(&mut blf, "Final complete".to_owned());
    let mut haf: Vec<String> = Vec::new();
    push_line(&mut haf, linef.clone());
    push_line(&mut haf, champ_line.clone());
    let postf = SimFrame {
        scoreboard: ko_complete_line(champion.as_str()),
        logs: blf,
        stats_lines: Some(statsf),
        competition_lines: Some(compf),
        history_append: haf,
    };
    push_frame(&mut frames, postf);
    let outcome = SimOutcome::Knockout { champion };
    let prepared = PreparedSimulation { frames, outcome, history_lines: history };
    proof {
        assert(prepared@ =~~= spec_run_knockout4(tv, s0));
    }
    prepared
}

} // verus!
