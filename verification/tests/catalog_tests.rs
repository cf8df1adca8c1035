use soccercloud::catalog::catalog;
use soccercloud::catalog::display_name;
use soccercloud::catalog::profile_for;
use soccercloud::catalog::tactic_by_key;
use soccercloud::catalog::team_by_name;
use soccercloud::catalog::team_flag;
use soccercloud::catalog::team_names;

#[test]
fn catalog_has_every_team_once() {
    let names = team_names();
    assert_eq!(names.len(), 85);
    for i in 0..names.len() {
        for j in 0..i {
            assert_ne!(names[i], names[j]);
        }
    }
}

#[test]
fn known_team_lookup() {
    let t = team_by_name("Arsenal").unwrap();
    assert_eq!(t.name, "Arsenal");
    assert_eq!(t.formation, "4-3-3");
    assert_eq!(t.tactic, "possession");
    assert!(team_by_name("Nowhere FC").is_none());
}

#[test]
fn flags_and_display_names() {
    assert_eq!(team_flag("Arsenal"), "🇬🇧");
    assert_eq!(team_flag("Unknown"), "🏳️");
    assert_eq!(display_name("Arsenal"), "🇬🇧 Arsenal");
    assert_eq!(display_name("Unknown"), "🏳️ Unknown");
}

#[test]
fn tactic_parameters() {
    let hp = tactic_by_key("high_press");
    assert_eq!(hp.label, "High Press");
    assert_eq!(hp.attack_bias, 1150);
    assert_eq!(hp.press_mult, 1200);
    // unknown keys fall back to the counter tactic
    let fallback = tactic_by_key("zonal");
    assert_eq!(fallback.key, "counter");
    assert_eq!(fallback.goal_mult, 1080);
}

#[test]
fn profile_defaults_for_unknown_names() {
    let p = profile_for("Nowhere FC");
    assert_eq!(p.formation, "4-4-2");
    assert_eq!(p.tactic, "counter");
    let q = profile_for("Juventus");
    assert_eq!(q.formation, "3-5-2");
    assert_eq!(q.tactic, "low_block");
}

#[test]
fn catalog_entries_match_names() {
    let cat = catalog();
    let names = team_names();
    assert_eq!(cat.len(), names.len());
    for i in 0..cat.len() {
        assert_eq!(cat[i].name, names[i]);
    }
}
