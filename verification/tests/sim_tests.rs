use soccercloud::rng::Rng;
use soccercloud::sim::penalties;
use soccercloud::sim::simulate_match;
use soccercloud::sim::SimFrame;

fn frames_equal(a: &SimFrame, b: &SimFrame) -> bool {
    a.scoreboard == b.scoreboard && a.logs == b.logs && a.stats_lines == b.stats_lines
        && a.competition_lines == b.competition_lines && a.history_append == b.history_append
}

#[test]
fn match_produces_ninety_one_frames() {
    let mut rng = Rng::new(1);
    let (_, frames) = simulate_match("Arsenal", "Liverpool", &mut rng);
    assert_eq!(frames.len(), 91);
}

#[test]
fn match_is_deterministic() {
    let mut r1 = Rng::new(42);
    let mut r2 = Rng::new(42);
    let (a, fa) = simulate_match("Arsenal", "Real Madrid", &mut r1);
    let (b, fb) = simulate_match("Arsenal", "Real Madrid", &mut r2);
    assert_eq!(a.home_goals, b.home_goals);
    assert_eq!(a.away_goals, b.away_goals);
    assert_eq!(a.stats.home, b.stats.home);
    assert_eq!(a.stats.away, b.stats.away);
    assert_eq!(fa.len(), fb.len());
    for i in 0..fa.len() {
        assert!(frames_equal(&fa[i], &fb[i]));
    }
    // the streams end in the same state: the next draw agrees
    assert_eq!(r1.next_u64(), r2.next_u64());
}

#[test]
fn seed_42_scenario() {
    let mut rng = Rng::new(42);
    let (res, frames) = simulate_match("Arsenal", "Real Madrid", &mut rng);
    assert_eq!(res.home_goals, 0);
    assert_eq!(res.away_goals, 2);
    assert_eq!(res.stats.home.shots, 4);
    assert_eq!(res.stats.home.sot, 1);
    assert_eq!(res.stats.home.xg, 665_695);
    assert_eq!(res.stats.home.corners, 1);
    assert_eq!(res.stats.home.fouls, 1);
    assert_eq!(res.stats.home.yellows, 0);
    assert_eq!(res.stats.home.offsides, 1);
    assert_eq!(res.stats.home.saves, 1);
    assert_eq!(res.stats.home.attacks, 6);
    assert_eq!(res.stats.away.shots, 5);
    assert_eq!(res.stats.away.sot, 3);
    assert_eq!(res.stats.away.xg, 1_131_163);
    assert_eq!(res.stats.away.attacks, 10);
    assert_eq!(res.home_possession, 41);
    assert_eq!(res.away_possession, 59);
    // the ordered narrative is pinned too
    assert_eq!(
        frames[13].logs[0],
        "13' GOOOOAL - 🇪🇸 Real Madrid (cut-back finish, xG 0.23)"
    );
    assert_eq!(
        frames[45].logs[frames[45].logs.len() - 1],
        "Halftime - 🇬🇧 Arsenal 0-1 🇪🇸 Real Madrid"
    );
    assert_eq!(
        frames[90].scoreboard,
        "🇬🇧 Arsenal (4-3-3) 0 - 2 🇪🇸 Real Madrid (4-3-3) | 90'"
    );
}

#[test]
fn kickoff_frame_opens_the_match() {
    let mut rng = Rng::new(5);
    let (_, frames) = simulate_match("Japan", "Brazil", &mut rng);
    assert_eq!(
        frames[0].scoreboard,
        "🇯🇵 Japan (4-3-3) 0 - 0 🇧🇷 Brazil (4-2-3-1) | 00'"
    );
    assert_eq!(frames[0].logs.len(), 1);
    assert!(frames[0].logs[0].starts_with("Kickoff! "));
}

#[test]
fn penalties_are_bounded_and_consistent() {
    for seed in 0..30u64 {
        let mut rng = Rng::new(seed);
        let (h, a, home_wins) = penalties(&mut rng);
        assert!(h <= 25 && a <= 25);
        assert_eq!(home_wins, h > a);
    }
}

#[test]
fn penalties_are_deterministic() {
    let mut r1 = Rng::new(1234);
    let mut r2 = Rng::new(1234);
    assert_eq!(penalties(&mut r1), penalties(&mut r2));
}
