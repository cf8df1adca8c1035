use soccercloud::instance::SimStatus;
use soccercloud::instance::SimulationInstance;
use soccercloud::sim::SimulationType;

fn two_teams() -> Vec<String> {
    vec!["Arsenal".to_string(), "Real Madrid".to_string()]
}

#[test]
fn new_instance_is_pending() {
    let inst = SimulationInstance::new(0, SimulationType::Single, two_teams(), 42);
    assert!(matches!(inst.status, SimStatus::Pending));
    assert_eq!(inst.scoreboard, "Waiting for kickoff...");
    assert_eq!(inst.progress_text(), "Ready to start");
    assert_eq!(inst.outcome_summary(), "No result yet");
}

#[test]
fn export_before_start_is_an_error() {
    let inst = SimulationInstance::new(0, SimulationType::Single, two_teams(), 42);
    assert_eq!(inst.export_csv().unwrap_err(), "Simulation has not run yet");
}

#[test]
fn start_prepares_and_runs() {
    let mut inst = SimulationInstance::new(7, SimulationType::Single, two_teams(), 42);
    inst.start();
    match inst.status {
        SimStatus::Running { frame_index, total_frames } => {
            assert_eq!(frame_index, 0);
            // 91 match frames and one closing stats frame
            assert_eq!(total_frames, 92);
        },
        _ => panic!("running expected"),
    }
    assert_eq!(inst.logs.len(), 1);
    assert_eq!(inst.logs[0], "Instance sim-7 started (seed=42)");
    // starting again is a no-op
    inst.start();
    assert_eq!(inst.logs.len(), 1);
}

#[test]
fn playback_exhausts_in_exactly_total_frames_ticks() {
    let mut inst = SimulationInstance::new(0, SimulationType::Single, two_teams(), 42);
    inst.start();
    let total = match inst.status {
        SimStatus::Running { total_frames, .. } => total_frames,
        _ => panic!("running expected"),
    };
    for k in 1..total {
        inst.tick(1);
        match inst.status {
            SimStatus::Running { frame_index, .. } => assert_eq!(frame_index, k),
            _ => panic!("still running expected after {} ticks", k),
        }
    }
    inst.tick(1);
    assert!(matches!(inst.status, SimStatus::Completed));
    // further ticks are no-ops
    let scoreboard = inst.scoreboard.clone();
    let logs_len = inst.logs.len();
    inst.tick(5);
    assert!(matches!(inst.status, SimStatus::Completed));
    assert_eq!(inst.scoreboard, scoreboard);
    assert_eq!(inst.logs.len(), logs_len);
}

#[test]
fn big_tick_completes_at_once() {
    let mut inst = SimulationInstance::new(0, SimulationType::Single, two_teams(), 42);
    inst.start();
    inst.tick(200);
    assert!(matches!(inst.status, SimStatus::Completed));
    assert_eq!(inst.scoreboard, "🇬🇧 Arsenal 0-2 🇪🇸 Real Madrid | FT");
    assert_eq!(inst.outcome_summary(), "Arsenal 0-2 Real Madrid");
    assert_eq!(inst.stats_lines.len(), 8);
    assert_eq!(inst.stats_lines[7], "Possession: 41% vs 59%");
}

#[test]
fn tick_applies_frames_in_order() {
    let mut inst = SimulationInstance::new(0, SimulationType::Single, two_teams(), 42);
    inst.start();
    inst.tick(1);
    assert_eq!(inst.scoreboard, "🇬🇧 Arsenal (4-3-3) 0 - 0 🇪🇸 Real Madrid (4-3-3) | 00'");
    assert_eq!(inst.progress_text(), "Running 1/92");
}

#[test]
fn export_after_start_yields_csv() {
    let mut inst = SimulationInstance::new(0, SimulationType::Single, two_teams(), 42);
    inst.start();
    let bytes = inst.export_csv().unwrap();
    let text = String::from_utf8(bytes).unwrap();
    assert!(text.starts_with("Category,Home Team,Away Team\n"));
    assert!(text.contains("\nGoals,0,2\n"));
    assert!(text.contains("\nxG,0.67,1.13\n"));
    assert!(text.contains("\nPossession,41%,59%\n"));
}

#[test]
fn clone_as_starts_fresh() {
    let mut inst = SimulationInstance::new(0, SimulationType::Single, two_teams(), 42);
    inst.start();
    let copy = inst.clone_as(9, 1234);
    assert_eq!(copy.id, 9);
    assert_eq!(copy.seed, 1234);
    assert_eq!(copy.teams, inst.teams);
    assert!(matches!(copy.status, SimStatus::Pending));
}

#[test]
fn league_instance_completes() {
    let teams = vec![
        "Arsenal".to_string(),
        "Real Madrid".to_string(),
        "Liverpool".to_string(),
        "Juventus".to_string(),
    ];
    let mut inst = SimulationInstance::new(1, SimulationType::League4, teams, 5);
    inst.start();
    while matches!(inst.status, SimStatus::Running { .. }) {
        inst.tick(50);
    }
    assert!(matches!(inst.status, SimStatus::Completed));
    assert!(inst.outcome_summary().starts_with("Champion: "));
    assert_eq!(inst.history_lines.len(), 7);
}
