use soccercloud::instance::SimStatus;
use soccercloud::instance::SimulationInstance;
use soccercloud::rng::Rng;
use soccercloud::league::run_league4;
use soccercloud::export::simulation_to_csv_bytes;
use soccercloud::service::mode_to_sim_type;
use soccercloud::service::required_team_count;
use soccercloud::service::resolve_teams;
use soccercloud::service::sim_type_label;
use soccercloud::service::status_badge;
use soccercloud::service::status_label;
use soccercloud::service::to_detail;
use soccercloud::service::to_summary;
use soccercloud::sim::SimulationType;

#[test]
fn mode_parsing_round_trip() {
    assert_eq!(mode_to_sim_type("single"), Some(SimulationType::Single));
    assert_eq!(mode_to_sim_type("league4"), Some(SimulationType::League4));
    assert_eq!(mode_to_sim_type("knockout4"), Some(SimulationType::Knockout4));
    assert_eq!(mode_to_sim_type("cup"), None);
    assert_eq!(SimulationType::League4.as_str(), "league4");
    assert_eq!(sim_type_label(SimulationType::League4), "4-Team League");
    assert_eq!(required_team_count(SimulationType::Single), 2);
    assert_eq!(required_team_count(SimulationType::Knockout4), 4);
}

#[test]
fn status_labels_and_badges() {
    assert_eq!(status_label(&SimStatus::Pending), "pending");
    assert_eq!(status_label(&SimStatus::Running { frame_index: 1, total_frames: 2 }), "running");
    assert_eq!(status_label(&SimStatus::Completed), "completed");
    assert_eq!(status_badge(&SimStatus::Pending), "PENDING");
    assert_eq!(status_badge(&SimStatus::Completed), "COMPLETED");
}

#[test]
fn resolve_teams_rejects_too_many() {
    let provided = Some(vec![
        "Arsenal".to_string(),
        "Liverpool".to_string(),
        "Juventus".to_string(),
    ]);
    let e = resolve_teams(SimulationType::Single, provided, true, 1).unwrap_err();
    assert_eq!(e, "mode single accepts at most 2 teams");
}

#[test]
fn resolve_teams_rejects_unknown_and_duplicate() {
    let e = resolve_teams(
        SimulationType::Single,
        Some(vec!["Nowhere FC".to_string()]),
        true,
        1,
    )
    .unwrap_err();
    assert_eq!(e, "Unknown team: Nowhere FC");
    let e2 = resolve_teams(
        SimulationType::League4,
        Some(vec!["Arsenal".to_string(), "Arsenal".to_string()]),
        true,
        1,
    )
    .unwrap_err();
    assert_eq!(e2, "Duplicate team: Arsenal");
}

#[test]
fn resolve_teams_exact_count_without_autofill() {
    let e = resolve_teams(
        SimulationType::League4,
        Some(vec!["Arsenal".to_string()]),
        false,
        1,
    )
    .unwrap_err();
    assert_eq!(e, "mode league4 requires exactly 4 teams when auto_fill=false");
    let ok = resolve_teams(
        SimulationType::Single,
        Some(vec!["Arsenal".to_string(), "Liverpool".to_string()]),
        false,
        1,
    )
    .unwrap();
    assert_eq!(ok, vec!["Arsenal".to_string(), "Liverpool".to_string()]);
}

#[test]
fn resolve_teams_autofill_is_seeded_and_distinct() {
    let a = resolve_teams(SimulationType::Knockout4, None, true, 11).unwrap();
    let b = resolve_teams(SimulationType::Knockout4, None, true, 11).unwrap();
    assert_eq!(a, b);
    assert_eq!(a.len(), 4);
    for i in 0..4 {
        for j in 0..i {
            assert_ne!(a[i], a[j]);
        }
    }
    let with_pick = resolve_teams(
        SimulationType::Knockout4,
        Some(vec!["Arsenal".to_string()]),
        true,
        11,
    )
    .unwrap();
    assert_eq!(with_pick[0], "Arsenal");
    assert_eq!(with_pick.len(), 4);
    assert!(!with_pick[1..].contains(&"Arsenal".to_string()));
}

#[test]
fn summary_and_detail_projections() {
    let mut inst = SimulationInstance::new(
        3,
        SimulationType::Single,
        vec!["Arsenal".to_string(), "Liverpool".to_string()],
        77,
    );
    let s = to_summary(&inst);
    assert_eq!(s.id, 3);
    assert_eq!(s.mode, "single");
    assert_eq!(s.status, "pending");
    assert_eq!(s.seed, 77);
    assert_eq!(s.title, "Match: Arsenal vs Liverpool");
    assert_eq!(s.progress, "Ready to start");
    assert_eq!(s.outcome, "No result yet");
    inst.start();
    inst.tick(500);
    let d = to_detail(&inst);
    assert_eq!(d.status, "completed");
    assert_eq!(d.stats_lines.len(), 8);
    assert!(d.logs.len() > 0);
    assert_eq!(d.teams, vec!["Arsenal".to_string(), "Liverpool".to_string()]);
}

#[test]
fn league_csv_lists_the_final_table() {
    let teams = vec![
        "Arsenal".to_string(),
        "Real Madrid".to_string(),
        "Liverpool".to_string(),
        "Juventus".to_string(),
    ];
    let mut rng = Rng::new(8);
    let prepared = run_league4(&teams, &mut rng);
    let text = String::from_utf8(simulation_to_csv_bytes(&prepared)).unwrap();
    let lines: Vec<&str> = text.lines().collect();
    assert_eq!(lines[0], "Team,P,W,D,L,GF,GA,GD,Pts");
    assert_eq!(lines.len(), 5);
}

#[test]
fn knockout_csv_stages_history() {
    let teams = vec![
        "Arsenal".to_string(),
        "Real Madrid".to_string(),
        "Liverpool".to_string(),
        "Juventus".to_string(),
    ];
    let mut rng = Rng::new(8);
    let prepared = soccercloud::knockout::run_knockout4(&teams, &mut rng);
    let text = String::from_utf8(simulation_to_csv_bytes(&prepared)).unwrap();
    let lines: Vec<&str> = text.lines().collect();
    assert_eq!(lines[0], "Stage,Match Result");
    assert_eq!(lines.len(), 5);
    assert!(lines[1].starts_with("Semi 1,"));
    assert!(lines[2].starts_with("Semi 2,"));
    assert!(lines[3].starts_with("Final,"));
    assert!(lines[4].starts_with("Champion,"));
}
