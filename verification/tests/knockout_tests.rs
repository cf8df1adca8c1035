use soccercloud::knockout::knockout_bracket_lines;
use soccercloud::knockout::run_knockout4;
use soccercloud::rng::Rng;
use soccercloud::sim::SimOutcome;

fn teams4() -> Vec<String> {
    vec![
        "Arsenal".to_string(),
        "Real Madrid".to_string(),
        "Liverpool".to_string(),
        "Juventus".to_string(),
    ]
}

#[test]
fn knockout_always_crowns_one_participant() {
    let teams = teams4();
    for seed in 0..12u64 {
        let mut rng = Rng::new(seed);
        let prepared = run_knockout4(&teams, &mut rng);
        match &prepared.outcome {
            SimOutcome::Knockout { champion } => {
                assert!(teams.contains(champion));
            },
            _ => panic!("knockout outcome expected"),
        }
    }
}

#[test]
fn knockout_history_has_two_semis_final_and_champion() {
    let teams = teams4();
    let mut rng = Rng::new(3);
    let prepared = run_knockout4(&teams, &mut rng);
    assert_eq!(prepared.history_lines.len(), 4);
    assert!(prepared.history_lines[0].starts_with("Semi 1: "));
    assert!(prepared.history_lines[1].starts_with("Semi 2: "));
    assert!(prepared.history_lines[2].starts_with("Final: "));
    assert!(prepared.history_lines[3].starts_with("Champion: "));
}

#[test]
fn knockout_shootout_happens_exactly_on_draws() {
    // every level match carries a shootout score; every decided one does not
    let teams = teams4();
    let mut saw_pens = false;
    let mut saw_clean = false;
    for seed in 0..40u64 {
        let mut rng = Rng::new(seed);
        let prepared = run_knockout4(&teams, &mut rng);
        for line in prepared.history_lines.iter().take(3) {
            let has_pens = line.contains("(pens ");
            let mut score: Option<(u32, u32)> = None;
            for tok in line.split(' ') {
                if let Some((a, b)) = tok.split_once('-') {
                    if !a.is_empty() && !b.is_empty() && a.chars().all(|c| c.is_ascii_digit())
                        && b.chars().all(|c| c.is_ascii_digit()) && score.is_none()
                    {
                        score = Some((a.parse().unwrap(), b.parse().unwrap()));
                    }
                }
            }
            let (hg, ag) = score.unwrap();
            assert_eq!(has_pens, hg == ag);
            if has_pens {
                saw_pens = true;
            } else {
                saw_clean = true;
            }
        }
    }
    assert!(saw_pens);
    assert!(saw_clean);
}

#[test]
fn knockout_is_deterministic() {
    let teams = teams4();
    let mut r1 = Rng::new(2024);
    let mut r2 = Rng::new(2024);
    let a = run_knockout4(&teams, &mut r1);
    let b = run_knockout4(&teams, &mut r2);
    assert_eq!(a.history_lines, b.history_lines);
    assert_eq!(a.frames.len(), b.frames.len());
}

#[test]
fn bracket_lines_show_placeholders() {
    let lines = knockout_bracket_lines(None, None, None, None);
    assert_eq!(lines.len(), 7);
    assert_eq!(lines[0], "Knockout Bracket");
    assert_eq!(lines[1], "Semi 1: TBD");
    assert_eq!(lines[5], "Semi 2: TBD");
    assert_eq!(lines[6], "Champion: TBD");
    let filled = knockout_bracket_lines(Some("Semi 1: A 1-0 B"), None, None, None);
    assert_eq!(filled[1], "Semi 1: Semi 1: A 1-0 B");
}
