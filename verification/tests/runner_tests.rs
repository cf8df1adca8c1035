use soccercloud::export::simulation_to_csv_bytes;
use soccercloud::rng::Rng;
use soccercloud::runner::run_simulation;
use soccercloud::runner::run_single;
use soccercloud::sim::SimOutcome;
use soccercloud::sim::SimulationType;

fn teams4() -> Vec<String> {
    vec![
        "Arsenal".to_string(),
        "Real Madrid".to_string(),
        "Liverpool".to_string(),
        "Juventus".to_string(),
    ]
}

#[test]
fn single_run_structure() {
    let teams = vec!["Arsenal".to_string(), "Real Madrid".to_string()];
    let mut rng = Rng::new(42);
    let prepared = run_single(&teams, &mut rng);
    assert_eq!(prepared.frames.len(), 92);
    assert!(prepared.history_lines.is_empty());
    match &prepared.outcome {
        SimOutcome::Single(m) => {
            assert_eq!(m.home, "Arsenal");
            assert_eq!(m.away, "Real Madrid");
            assert_eq!((m.home_goals, m.away_goals), (0, 2));
        },
        _ => panic!("single outcome expected"),
    }
    let closing = &prepared.frames[91];
    assert_eq!(closing.scoreboard, "🇬🇧 Arsenal 0-2 🇪🇸 Real Madrid | FT");
    let stats = closing.stats_lines.as_ref().unwrap();
    assert_eq!(stats[2], "xG: 0.67 vs 1.13");
}

#[test]
fn run_simulation_dispatches_by_shape() {
    let mut rng = Rng::new(3);
    let single = run_simulation(
        SimulationType::Single,
        &vec!["Japan".to_string(), "Brazil".to_string()],
        &mut rng,
    );
    assert!(matches!(single.outcome, SimOutcome::Single(_)));
    let mut rng2 = Rng::new(3);
    let league = run_simulation(SimulationType::League4, &teams4(), &mut rng2);
    assert!(matches!(league.outcome, SimOutcome::League { .. }));
    let mut rng3 = Rng::new(3);
    let ko = run_simulation(SimulationType::Knockout4, &teams4(), &mut rng3);
    assert!(matches!(ko.outcome, SimOutcome::Knockout { .. }));
}

#[test]
fn identical_inputs_export_identical_bytes() {
    // determinism observed through the full pipeline, for every shape
    for (t, teams) in [
        (SimulationType::Single, vec!["Arsenal".to_string(), "Porto".to_string()]),
        (SimulationType::League4, teams4()),
        (SimulationType::Knockout4, teams4()),
    ] {
        let mut r1 = Rng::new(77);
        let mut r2 = Rng::new(77);
        let a = run_simulation(t, &teams, &mut r1);
        let b = run_simulation(t, &teams, &mut r2);
        assert_eq!(simulation_to_csv_bytes(&a), simulation_to_csv_bytes(&b));
        assert_eq!(a.history_lines, b.history_lines);
        assert_eq!(r1.next_u64(), r2.next_u64());
    }
}
