use soccercloud::catalog::team_names;
use soccercloud::session::resolve_quick_single_teams;
use soccercloud::session::resolve_teams_from_slots;
use soccercloud::session::App;
use soccercloud::session::CreateDraft;
use soccercloud::session::Speed;
use soccercloud::session::TeamSlotDraft;
use soccercloud::sim::SimulationType;

#[test]
fn speed_multipliers() {
    assert_eq!(Speed::X1.frames_per_tick(), 1);
    assert_eq!(Speed::X2.frames_per_tick(), 2);
    assert_eq!(Speed::X4.frames_per_tick(), 4);
    assert_eq!(Speed::Instant.frames_per_tick(), 200);
    assert_eq!(Speed::Instant.label(), "Instant");
}

#[test]
fn fresh_draft_has_auto_slots() {
    let d = CreateDraft::new(SimulationType::Knockout4);
    assert_eq!(d.slots.len(), 4);
    assert!(d.slots.iter().all(|s| s.is_cpu));
    assert_eq!(d.mode_label(), "4-Team Knockout");
    let s = CreateDraft::new(SimulationType::Single);
    assert_eq!(s.slots.len(), 2);
    assert_eq!(s.mode_label(), "Single Match");
}

#[test]
fn slots_resolve_manual_and_auto() {
    let names = team_names();
    let slots = vec![
        TeamSlotDraft { is_cpu: false, team_idx: 13 },
        TeamSlotDraft { is_cpu: true, team_idx: 0 },
    ];
    let teams = resolve_teams_from_slots(&slots, 42).unwrap();
    assert_eq!(teams.len(), 2);
    assert_eq!(teams[0], names[13]);
    assert_ne!(teams[1], teams[0]);
    assert!(names.contains(&teams[1]));
}

#[test]
fn slot_resolution_is_deterministic() {
    let slots = vec![
        TeamSlotDraft { is_cpu: true, team_idx: 0 },
        TeamSlotDraft { is_cpu: true, team_idx: 1 },
        TeamSlotDraft { is_cpu: true, team_idx: 2 },
        TeamSlotDraft { is_cpu: true, team_idx: 3 },
    ];
    let a = resolve_teams_from_slots(&slots, 7).unwrap();
    let b = resolve_teams_from_slots(&slots, 7).unwrap();
    assert_eq!(a, b);
    for i in 0..a.len() {
        for j in 0..i {
            assert_ne!(a[i], a[j]);
        }
    }
}

#[test]
fn duplicate_manual_pick_is_rejected() {
    let names = team_names();
    let slots = vec![
        TeamSlotDraft { is_cpu: false, team_idx: 2 },
        TeamSlotDraft { is_cpu: false, team_idx: 2 },
    ];
    let e = resolve_teams_from_slots(&slots, 1).unwrap_err();
    assert_eq!(e, format!("Duplicate manual team: {}", names[2]));
}

#[test]
fn out_of_range_manual_pick_is_rejected() {
    let slots = vec![TeamSlotDraft { is_cpu: false, team_idx: 9999 }];
    let e = resolve_teams_from_slots(&slots, 1).unwrap_err();
    assert_eq!(e, "Manual team selection is out of range");
}

#[test]
fn quick_single_resolution() {
    let teams = resolve_quick_single_teams(Some("Arsenal"), Some("Liverpool"), 9).unwrap();
    assert_eq!(teams, vec!["Arsenal".to_string(), "Liverpool".to_string()]);
    let e = resolve_quick_single_teams(Some("Nowhere FC"), None, 9).unwrap_err();
    assert_eq!(e, "Unknown home team: Nowhere FC");
    let auto = resolve_quick_single_teams(None, None, 9).unwrap();
    assert_eq!(auto.len(), 2);
    assert_ne!(auto[0], auto[1]);
}

#[test]
fn app_create_start_tick_flow() {
    let mut app = App::new(42, Speed::X1);
    assert_eq!(app.status_line, "Ready. Seed=42, Speed=1x");
    app.open_create_draft(SimulationType::Single);
    assert_eq!(app.status_line, "Create modal: single");
    app.confirm_create_draft();
    assert_eq!(app.instances.len(), 1);
    assert_eq!(app.status_line, "Created sim-0");
    assert!(app.create_draft.is_none());
    app.start_selected();
    assert_eq!(app.status_line, "Started sim-0");
    app.cycle_speed(Speed::Instant);
    app.tick();
    let inst = app.selected_instance().unwrap();
    assert!(matches!(inst.status, soccercloud::instance::SimStatus::Completed));
}

#[test]
fn app_clone_and_delete() {
    let mut app = App::new(1, Speed::X1);
    app.open_create_draft(SimulationType::Single);
    app.confirm_create_draft();
    app.clone_selected();
    assert_eq!(app.instances.len(), 2);
    assert_eq!(app.status_line, "Cloned sim-0 -> sim-1");
    assert_ne!(app.instances[0].seed, app.instances[1].seed);
    app.delete_selected();
    assert_eq!(app.instances.len(), 1);
    assert_eq!(app.status_line, "Deleted sim-1");
}

#[test]
fn app_enforces_the_instance_cap() {
    let mut app = App::new(5, Speed::X1);
    for _ in 0..100 {
        app.open_create_draft(SimulationType::Single);
        app.confirm_create_draft();
    }
    assert_eq!(app.instances.len(), 100);
    app.open_create_draft(SimulationType::Single);
    app.confirm_create_draft();
    assert_eq!(app.instances.len(), 100);
    assert_eq!(app.status_line, "Instance limit reached (100)");
    app.clone_selected();
    assert_eq!(app.instances.len(), 100);
}

#[test]
fn app_selection_wraps() {
    let mut app = App::new(9, Speed::X1);
    for _ in 0..3 {
        app.open_create_draft(SimulationType::Single);
        app.confirm_create_draft();
    }
    assert_eq!(app.selected, 2);
    app.select_next();
    assert_eq!(app.selected, 0);
    app.select_prev();
    assert_eq!(app.selected, 2);
}

#[test]
fn app_draft_slot_editing() {
    let mut app = App::new(9, Speed::X1);
    app.open_create_draft(SimulationType::Single);
    app.draft_set_selected_manual();
    app.draft_cycle_selected_team(3);
    let d = app.create_draft.as_ref().unwrap();
    assert!(!d.slots[0].is_cpu);
    assert_eq!(d.slots[0].team_idx, 3);
    app.draft_cycle_selected_team(-10);
    let d = app.create_draft.as_ref().unwrap();
    assert_eq!(d.slots[0].team_idx, team_names().len() - 1);
    app.draft_select_next_slot();
    app.draft_select_next_slot();
    let d = app.create_draft.as_ref().unwrap();
    assert_eq!(d.selected_slot, 0);
}

#[test]
fn auto_fill_fails_when_the_catalog_runs_dry() {
    let n = team_names().len();
    let mut slots = Vec::new();
    for _ in 0..n + 1 {
        slots.push(TeamSlotDraft { is_cpu: true, team_idx: 0 });
    }
    let e = resolve_teams_from_slots(&slots, 3).unwrap_err();
    assert_eq!(e, "Not enough teams left for CPU auto-fill");
}

#[test]
fn unknown_away_team_is_rejected() {
    let e = resolve_quick_single_teams(Some("Arsenal"), Some("Nowhere FC"), 9).unwrap_err();
    assert_eq!(e, "Unknown away team: Nowhere FC");
}
