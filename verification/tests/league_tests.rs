use soccercloud::league::league_table_lines;
use soccercloud::league::run_league4;
use soccercloud::league::sort_rows;
use soccercloud::league::standings_le;
use soccercloud::rng::Rng;
use soccercloud::sim::SimOutcome;
use soccercloud::sim::StandingsRow;

fn row(team: &str, gf: u16, ga: u16, pts: u8) -> StandingsRow {
    StandingsRow {
        team: team.to_string(),
        p: 3,
        w: 0,
        d: 0,
        l: 0,
        gf,
        ga,
        gd: gf as i16 - ga as i16,
        pts,
    }
}

fn teams4() -> Vec<String> {
    vec![
        "Arsenal".to_string(),
        "Real Madrid".to_string(),
        "Liverpool".to_string(),
        "Juventus".to_string(),
    ]
}

#[test]
fn standings_sort_by_tie_break_chain() {
    let rows = vec![
        row("Delta", 2, 2, 4),
        row("Alpha", 5, 1, 7),
        row("Charlie", 4, 1, 4),
        row("Bravo", 3, 0, 4),
    ];
    let sorted = sort_rows(rows);
    // points first, then goal difference, then goals for, then the name
    assert_eq!(sorted[0].team, "Alpha");
    assert_eq!(sorted[1].team, "Charlie");
    assert_eq!(sorted[2].team, "Bravo");
    assert_eq!(sorted[3].team, "Delta");
}

#[test]
fn standings_sort_is_idempotent() {
    let rows = vec![row("Bravo", 1, 0, 3), row("Alpha", 1, 0, 3), row("Zulu", 9, 0, 9)];
    let once = sort_rows(rows);
    let names: Vec<String> = once.iter().map(|r| r.team.clone()).collect();
    let twice = sort_rows(once);
    let names2: Vec<String> = twice.iter().map(|r| r.team.clone()).collect();
    assert_eq!(names, names2);
    assert_eq!(names, vec!["Zulu".to_string(), "Alpha".to_string(), "Bravo".to_string()]);
}

#[test]
fn standings_name_breaks_full_ties() {
    let a = row("Alpha", 2, 1, 6);
    let b = row("Bravo", 2, 1, 6);
    assert!(standings_le(&a, &b));
    assert!(!standings_le(&b, &a));
}

#[test]
fn league_run_is_deterministic() {
    let teams = teams4();
    let mut r1 = Rng::new(9);
    let mut r2 = Rng::new(9);
    let a = run_league4(&teams, &mut r1);
    let b = run_league4(&teams, &mut r2);
    assert_eq!(a.history_lines, b.history_lines);
    assert_eq!(a.frames.len(), b.frames.len());
    for i in 0..a.frames.len() {
        assert_eq!(a.frames[i].scoreboard, b.frames[i].scoreboard);
        assert_eq!(a.frames[i].logs, b.frames[i].logs);
    }
}

#[test]
fn league_goal_difference_invariant() {
    let teams = teams4();
    let mut rng = Rng::new(123);
    let prepared = run_league4(&teams, &mut rng);
    match &prepared.outcome {
        SimOutcome::League { champion, final_table } => {
            assert_eq!(final_table.len(), 4);
            for r in final_table {
                assert_eq!(r.gd as i32, r.gf as i32 - r.ga as i32);
                assert_eq!(r.p, 3);
                assert!(teams.contains(&r.team));
            }
            assert_eq!(*champion, final_table[0].team);
        },
        _ => panic!("league outcome expected"),
    }
}

#[test]
fn league_emits_fixture_and_table_frames() {
    let teams = teams4();
    let mut rng = Rng::new(77);
    let prepared = run_league4(&teams, &mut rng);
    // one created frame, then per fixture: one announcement, 91 match frames,
    // one table update; one closing frame
    assert_eq!(prepared.frames.len(), 1 + 6 * 93 + 1);
    assert_eq!(prepared.frames[0].scoreboard, "League created - waiting for Matchday 1");
    assert!(prepared.history_lines.len() == 7);
    assert!(prepared.history_lines[6].starts_with("Champion: "));
}

#[test]
fn table_lines_have_header_and_rows() {
    let rows = vec![row("Alpha", 1, 0, 3)];
    let lines = league_table_lines(&rows);
    assert_eq!(lines.len(), 3);
    assert_eq!(lines[0], "TEAM                         P  W  D  L  GF GA GD PTS");
    assert_eq!(lines[2], "Alpha                         3  0  0  0   1  0   1   3");
}
