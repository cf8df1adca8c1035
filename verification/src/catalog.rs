//! The read-only team and tactic catalog: team names with flags, formations
//! and tactic keys, and the four tactic parameter sets.
//!
//! Tactic multipliers are fixed-point integers in thousandths (`1000` is a
//! neutral multiplier); the fast-break tendency is a probability in
//! millionths, as the generator takes it.

use vstd::prelude::*;
use vstd::string::StringExecFns;

use crate::text::str_eq;

verus! {

/// Spec-level image of a tactic.
#[verifier::ext_equal]
pub ghost struct TacticV {
    pub key: Seq<char>,
    pub label: Seq<char>,
    pub attack_bias: int,
    pub goal_mult: int,
    pub fast_break: int,
    pub foul_mult: int,
    pub block_mult: int,
    pub press_mult: int,
}

/// A named bundle of multipliers shaping a side's event probabilities.
/// Multipliers are in thousandths; `fast_break` is a probability in
/// millionths.
pub struct Tactic {
    pub key: String,
    pub label: String,
    pub attack_bias: u64,
    pub goal_mult: u64,
    pub fast_break: u64,
    pub foul_mult: u64,
    pub block_mult: u64,
    pub press_mult: u64,
}

impl View for Tactic {
    type V = TacticV;

    open spec fn view(&self) -> TacticV {
        TacticV {
            key: self.key@,
            label: self.label@,
            attack_bias: self.attack_bias as int,
            goal_mult: self.goal_mult as int,
            fast_break: self.fast_break as int,
            foul_mult: self.foul_mult as int,
            block_mult: self.block_mult as int,
            press_mult: self.press_mult as int,
        }
    }
}

/// The counter-attacking tactic.
pub open spec fn spec_counter() -> TacticV {
    TacticV {
        key: "counter"@,
        label: "Counter"@,
        attack_bias: 1100,
        goal_mult: 1080,
        fast_break: 250_000,
        foul_mult: 1000,
        block_mult: 1000,
        press_mult: 950,
    }
}

/// The possession tactic.
pub open spec fn spec_possession() -> TacticV {
    TacticV {
        key: "possession"@,
        label: "Possession"@,
        attack_bias: 1000,
        goal_mult: 950,
        fast_break: 100_000,
        foul_mult: 900,
        block_mult: 1000,
        press_mult: 900,
    }
}

/// The high-press tactic.
pub open spec fn spec_high_press() -> TacticV {
    TacticV {
        key: "high_press"@,
        label: "High Press"@,
        attack_bias: 1150,
        goal_mult: 1000,
        fast_break: 200_000,
        foul_mult: 1200,
        block_mult: 950,
        press_mult: 1200,
    }
}

/// The low-block tactic.
pub open spec fn spec_low_block() -> TacticV {
    TacticV {
        key: "low_block"@,
        label: "Low Block"@,
        attack_bias: 920,
        goal_mult: 920,
        fast_break: 120_000,
        foul_mult: 950,
        block_mult: 1150,
        press_mult: 850,
    }
}

/// The tactic a key selects; unknown keys fall back to the counter tactic.
pub open spec fn spec_tactic_by_key(key: Seq<char>) -> TacticV {
    if key == "counter"@ {
        spec_counter()
    } else if key == "possession"@ {
        spec_possession()
    } else if key == "high_press"@ {
        spec_high_press()
    } else if key == "low_block"@ {
        spec_low_block()
    } else {
        spec_counter()
    }
}

fn mk_tactic(
    key: &str,
    label: &str,
    attack_bias: u64,
    goal_mult: u64,
    fast_break: u64,
    foul_mult: u64,
    block_mult: u64,
    press_mult: u64,
) -> (t: Tactic)
    ensures
        t@ == (TacticV {
            key: key@,
            label: label@,
            attack_bias: attack_bias as int,
            goal_mult: goal_mult as int,
            fast_break: fast_break as int,
            foul_mult: foul_mult as int,
            block_mult: block_mult as int,
            press_mult: press_mult as int,
        }),
{
    Tactic {
        key: key.to_owned(),
        label: label.to_owned(),
        attack_bias,
        goal_mult,
        fast_break,
        foul_mult,
        block_mult,
        press_mult,
    }
}

/// Looks a tactic up by key; unknown keys give the counter tactic.
pub fn tactic_by_key(key: &str) -> (t: Tactic)
    ensures
        t@ == spec_tactic_by_key(key@),
{
    if str_eq(key, "counter") {
        mk_tactic("counter", "Counter", 1100, 1080, 250_000, 1000, 1000, 950)
    } else if str_eq(key, "possession") {
        mk_tactic("possession", "Possession", 1000, 950, 100_000, 900, 1000, 900)
    } else if str_eq(key, "high_press") {
        mk_tactic("high_press", "High Press", 1150, 1000, 200_000, 1200, 950, 1200)
    } else if str_eq(key, "low_block") {
        mk_tactic("low_block", "Low Block", 920, 920, 120_000, 950, 1150, 850)
    } else {
        mk_tactic("counter", "Counter", 1100, 1080, 250_000, 1000, 1000, 950)
    }
}

/// Spec-level image of a catalog entry.
#[verifier::ext_equal]
pub ghost struct TeamV {
    pub name: Seq<char>,
    pub flag: Seq<char>,
    pub formation: Seq<char>,
    pub tactic: Seq<char>,
}

/// One catalog entry: a team's name, flag, formation label and tactic key.
pub struct Team {
    pub name: String,
    pub flag: String,
    pub formation: String,
    pub tactic: String,
}

impl View for Team {
    type V = TeamV;

    open spec fn view(&self) -> TeamV {
        TeamV { name: self.name@, flag: self.flag@, formation: self.formation@, tactic: self.tactic@ }
    }
}

impl Clone for Team {
    fn clone(&self) -> (r: Team)
        ensures
            r == *self,
    {
        Team {
            name: self.name.clone(),
            flag: self.flag.clone(),
            formation: self.formation.clone(),
            tactic: self.tactic.clone(),
        }
    }
}

/// Spec-level image of a team's profile.
#[verifier::ext_equal]
pub ghost struct TeamProfileV {
    pub formation: Seq<char>,
    pub tactic: Seq<char>,
}

/// A team's formation label and tactic key.
pub struct TeamProfile {
    pub formation: String,
    pub tactic: String,
}

impl View for TeamProfile {
    type V = TeamProfileV;

    open spec fn view(&self) -> TeamProfileV {
        TeamProfileV { formation: self.formation@, tactic: self.tactic@ }
    }
}

impl Clone for TeamProfile {
    fn clone(&self) -> (r: TeamProfile)
        ensures
            r == *self,
    {
        TeamProfile { formation: self.formation.clone(), tactic: self.tactic.clone() }
    }
}

pub open spec fn tv(name: Seq<char>, flag: Seq<char>, formation: Seq<char>, tactic: Seq<char>) -> TeamV {
    TeamV { name, flag, formation, tactic }
}

/// Whether a built catalog slice matches its spec-level image entry by entry.
pub open spec fn teams_match(v: Seq<Team>, s: Seq<TeamV>) -> bool {
    v.len() == s.len() && (forall|i: int| 0 <= i < v.len() ==> v[i]@ == s[i])
}

proof fn lemma_teams_match_concat(a: Seq<Team>, x: Seq<TeamV>, b: Seq<Team>, y: Seq<TeamV>)
    requires
        teams_match(a, x),
        teams_match(b, y),
    ensures
        teams_match(a + b, x + y),
{
    assert forall|i: int| 0 <= i < (a + b).len() implies (a + b)[i]@ == (x + y)[i] by {
        if i < a.len() {
            assert((a + b)[i] == a[i]);
            assert((x + y)[i] == x[i]);
        } else {
            assert((a + b)[i] == b[i - a.len()]);
            assert((x + y)[i] == y[i - a.len()]);
        }
    }
}

fn mk_team(name: &str, flag: &str, formation: &str, tactic: &str) -> (t: Team)
    ensures
        t@ == tv(name@, flag@, formation@, tactic@),
{
    Team {
        name: name.to_owned(),
        flag: flag.to_owned(),
        formation: formation.to_owned(),
        tactic: tactic.to_owned(),
    }
}

/// The J-League entries of the catalog.
pub open spec fn spec_jleague_teams() -> Seq<TeamV> {
    seq![
        tv("Kashima Antlers"@, "🇯🇵"@, "4-4-2"@, "counter"@),
        tv("Urawa Red Diamonds"@, "🇯🇵"@, "4-2-3-1"@, "possession"@),
        tv("Gamba Osaka"@, "🇯🇵"@, "4-4-2"@, "counter"@),
        tv("Cerezo Osaka"@, "🇯🇵"@, "4-4-2"@, "counter"@),
        tv("Kawasaki Frontale"@, "🇯🇵"@, "4-3-3"@, "possession"@),
        tv("Yokohama F. Marinos"@, "🇯🇵"@, "4-3-3"@, "high_press"@),
        tv("Nagoya Grampus"@, "🇯🇵"@, "4-2-3-1"@, "low_block"@),
        tv("Shimizu S-Pulse"@, "🇯🇵"@, "4-4-2"@, "counter"@),
        tv("Sanfrecce Hiroshima"@, "🇯🇵"@, "3-5-2"@, "possession"@),
        tv("Consadole Sapporo"@, "🇯🇵"@, "3-5-2"@, "high_press"@),
        tv("Ventforet Kofu"@, "🇯🇵"@, "4-4-2"@, "counter"@),
        tv("Tokyo Verdy"@, "🇯🇵"@, "4-3-3"@, "possession"@),
        tv("JEF United Chiba"@, "🇯🇵"@, "4-3-3"@, "counter"@),
    ]
}

fn jleague_teams() -> (v: Vec<Team>)
    ensures
        teams_match(v@, spec_jleague_teams()),
{
    let mut v: Vec<Team> = Vec::new();
    v.push(mk_team("Kashima Antlers", "🇯🇵", "4-4-2", "counter"));
    v.push(mk_team("Urawa Red Diamonds", "🇯🇵", "4-2-3-1", "possession"));
    v.push(mk_team("Gamba Osaka", "🇯🇵", "4-4-2", "counter"));
    v.push(mk_team("Cerezo Osaka", "🇯🇵", "4-4-2", "counter"));
    v.push(mk_team("Kawasaki Frontale", "🇯🇵", "4-3-3", "possession"));
    v.push(mk_team("Yokohama F. Marinos", "🇯🇵", "4-3-3", "high_press"));
    v.push(mk_team("Nagoya Grampus", "🇯🇵", "4-2-3-1", "low_block"));
    v.push(mk_team("Shimizu S-Pulse", "🇯🇵", "4-4-2", "counter"));
    v.push(mk_team("Sanfrecce Hiroshima", "🇯🇵", "3-5-2", "possession"));
    v.push(mk_team("Consadole Sapporo", "🇯🇵", "3-5-2", "high_press"));
    v.push(mk_team("Ventforet Kofu", "🇯🇵", "4-4-2", "counter"));
    v.push(mk_team("Tokyo Verdy", "🇯🇵", "4-3-3", "possession"));
    v.push(mk_team("JEF United Chiba", "🇯🇵", "4-3-3", "counter"));
    assert(teams_match(v@, spec_jleague_teams()));
    v
}

/// The European club entries of the catalog.
pub open spec fn spec_european_teams() -> Seq<TeamV> {
    seq![
        tv("Arsenal"@, "🇬🇧"@, "4-3-3"@, "possession"@),
        tv("FC Barcelona"@, "🇪🇸"@, "4-3-3"@, "possession"@),
        tv("Real Madrid"@, "🇪🇸"@, "4-3-3"@, "counter"@),
        tv("Manchester City"@, "🇬🇧"@, "4-3-3"@, "possession"@),
        tv("Manchester United"@, "🇬🇧"@, "4-2-3-1"@, "high_press"@),
        tv("Liverpool"@, "🇬🇧"@, "4-3-3"@, "high_press"@),
        tv("Bayern Munich"@, "🇩🇪"@, "4-2-3-1"@, "high_press"@),
        tv("Borussia Dortmund"@, "🇩🇪"@, "4-2-3-1"@, "high_press"@),
        tv("Paris Saint-Germain"@, "🇫🇷"@, "4-3-3"@, "possession"@),
        tv("Juventus"@, "🇮🇹"@, "3-5-2"@, "low_block"@),
        tv("Inter"@, "🇮🇹"@, "3-5-2"@, "low_block"@),
        tv("AC Milan"@, "🇮🇹"@, "4-2-3-1"@, "possession"@),
        tv("Ajax"@, "🇳🇱"@, "4-3-3"@, "possession"@),
        tv("Benfica"@, "🇵🇹"@, "4-2-3-1"@, "possession"@),
        tv("Porto"@, "🇵🇹"@, "4-4-2"@, "counter"@),
        tv("Celtic"@, "🇬🇧"@, "4-3-3"@, "possession"@),
    ]
}

fn european_teams() -> (v: Vec<Team>)
    ensures
        teams_match(v@, spec_european_teams()),
{
    let mut v: Vec<Team> = Vec::new();
    v.push(mk_team("Arsenal", "🇬🇧", "4-3-3", "possession"));
    v.push(mk_team("FC Barcelona", "🇪🇸", "4-3-3", "possession"));
    v.push(mk_team("Real Madrid", "🇪🇸", "4-3-3", "counter"));
    v.push(mk_team("Manchester City", "🇬🇧", "4-3-3", "possession"));
    v.push(mk_team("Manchester United", "🇬🇧", "4-2-3-1", "high_press"));
    v.push(mk_team("Liverpool", "🇬🇧", "4-3-3", "high_press"));
    v.push(mk_team("Bayern Munich", "🇩🇪", "4-2-3-1", "high_press"));
    v.push(mk_team("Borussia Dortmund", "🇩🇪", "4-2-3-1", "high_press"));
    v.push(mk_team("Paris Saint-Germain", "🇫🇷", "4-3-3", "possession"));
    v.push(mk_team("Juventus", "🇮🇹", "3-5-2", "low_block"));
    v.push(mk_team("Inter", "🇮🇹", "3-5-2", "low_block"));
    v.push(mk_team("AC Milan", "🇮🇹", "4-2-3-1", "possession"));
    v.push(mk_team("Ajax", "🇳🇱", "4-3-3", "possession"));
    v.push(mk_team("Benfica", "🇵🇹", "4-2-3-1", "possession"));
    v.push(mk_team("Porto", "🇵🇹", "4-4-2", "counter"));
    v.push(mk_team("Celtic", "🇬🇧", "4-3-3", "possession"));
    assert(teams_match(v@, spec_european_teams()));
    v
}

/// The UEFA national-team entries of the catalog.
pub open spec fn spec_uefa_teams() -> Seq<TeamV> {
    seq![
        tv("England"@, "🇬🇧"@, "4-2-3-1"@, "high_press"@),
        tv("France"@, "🇫🇷"@, "4-2-3-1"@, "high_press"@),
        tv("Spain"@, "🇪🇸"@, "4-3-3"@, "possession"@),
        tv("Germany"@, "🇩🇪"@, "4-2-3-1"@, "high_press"@),
        tv("Italy"@, "🇮🇹"@, "4-4-2"@, "counter"@),
        tv("Portugal"@, "🇵🇹"@, "4-3-3"@, "possession"@),
        tv("Netherlands"@, "🇳🇱"@, "4-3-3"@, "possession"@),
        tv("Belgium"@, "🇧🇪"@, "4-2-3-1"@, "high_press"@),
        tv("Croatia"@, "🇭🇷"@, "4-4-2"@, "counter"@),
        tv("Denmark"@, "🇩🇰"@, "4-4-2"@, "counter"@),
        tv("Switzerland"@, "🇨🇭"@, "4-4-2"@, "counter"@),
        tv("Austria"@, "🇦🇹"@, "4-2-3-1"@, "counter"@),
        tv("Sweden"@, "🇸🇪"@, "4-2-3-1"@, "counter"@),
        tv("Norway"@, "🇳🇴"@, "4-2-3-1"@, "counter"@),
        tv("Poland"@, "🇵🇱"@, "4-2-3-1"@, "counter"@),
        tv("Serbia"@, "🇷🇸"@, "4-2-3-1"@, "counter"@),
        tv("Turkey"@, "🇹🇷"@, "4-2-3-1"@, "counter"@),
        tv("Ukraine"@, "🇺🇦"@, "4-2-3-1"@, "counter"@),
        tv("Czech Republic"@, "🇨🇿"@, "4-2-3-1"@, "counter"@),
        tv("Scotland"@, "🇬🇧"@, "4-2-3-1"@, "counter"@),
    ]
}

fn uefa_teams() -> (v: Vec<Team>)
    ensures
        teams_match(v@, spec_uefa_teams()),
{
    let mut v: Vec<Team> = Vec::new();
    v.push(mk_team("England", "🇬🇧", "4-2-3-1", "high_press"));
    v.push(mk_team("France", "🇫🇷", "4-2-3-1", "high_press"));
    v.push(mk_team("Spain", "🇪🇸", "4-3-3", "possession"));
    v.push(mk_team("Germany", "🇩🇪", "4-2-3-1", "high_press"));
    v.push(mk_team("Italy", "🇮🇹", "4-4-2", "counter"));
    v.push(mk_team("Portugal", "🇵🇹", "4-3-3", "possession"));
    v.push(mk_team("Netherlands", "🇳🇱", "4-3-3", "possession"));
    v.push(mk_team("Belgium", "🇧🇪", "4-2-3-1", "high_press"));
    v.push(mk_team("Croatia", "🇭🇷", "4-4-2", "counter"));
    v.push(mk_team("Denmark", "🇩🇰", "4-4-2", "counter"));
    v.push(mk_team("Switzerland", "🇨🇭", "4-4-2", "counter"));
    v.push(mk_team("Austria", "🇦🇹", "4-2-3-1", "counter"));
    v.push(mk_team("Sweden", "🇸🇪", "4-2-3-1", "counter"));
    v.push(mk_team("Norway", "🇳🇴", "4-2-3-1", "counter"));
    v.push(mk_team("Poland", "🇵🇱", "4-2-3-1", "counter"));
    v.push(mk_team("Serbia", "🇷🇸", "4-2-3-1", "counter"));
    v.push(mk_team("Turkey", "🇹🇷", "4-2-3-1", "counter"));
    v.push(mk_team("Ukraine", "🇺🇦", "4-2-3-1", "counter"));
    v.push(mk_team("Czech Republic", "🇨🇿", "4-2-3-1", "counter"));
    v.push(mk_team("Scotland", "🇬🇧", "4-2-3-1", "counter"));
    assert(teams_match(v@, spec_uefa_teams()));
    v
}

/// The CONMEBOL national-team entries of the catalog.
pub open spec fn spec_conmebol_teams() -> Seq<TeamV> {
    seq![
        tv("Argentina"@, "🇦🇷"@, "4-2-3-1"@, "high_press"@),
        tv("Brazil"@, "🇧🇷"@, "4-2-3-1"@, "high_press"@),
        tv("Uruguay"@, "🇺🇾"@, "4-4-2"@, "counter"@),
        tv("Colombia"@, "🇨🇴"@, "4-2-3-1"@, "counter"@),
        tv("Chile"@, "🇨🇱"@, "4-2-3-1"@, "counter"@),
        tv("Peru"@, "🇵🇪"@, "4-2-3-1"@, "counter"@),
        tv("Ecuador"@, "🇪🇨"@, "4-2-3-1"@, "counter"@),
        tv("Paraguay"@, "🇵🇾"@, "4-2-3-1"@, "counter"@),
        tv("Bolivia"@, "🇧🇴"@, "4-2-3-1"@, "counter"@),
        tv("Venezuela"@, "🇻🇪"@, "4-2-3-1"@, "counter"@),
    ]
}

fn conmebol_teams() -> (v: Vec<Team>)
    ensures
        teams_match(v@, spec_conmebol_teams()),
{
    let mut v: Vec<Team> = Vec::new();
    v.push(mk_team("Argentina", "🇦🇷", "4-2-3-1", "high_press"));
    v.push(mk_team("Brazil", "🇧🇷", "4-2-3-1", "high_press"));
    v.push(mk_team("Uruguay", "🇺🇾", "4-4-2", "counter"));
    v.push(mk_team("Colombia", "🇨🇴", "4-2-3-1", "counter"));
    v.push(mk_team("Chile", "🇨🇱", "4-2-3-1", "counter"));
    v.push(mk_team("Peru", "🇵🇪", "4-2-3-1", "counter"));
    v.push(mk_team("Ecuador", "🇪🇨", "4-2-3-1", "counter"));
    v.push(mk_team("Paraguay", "🇵🇾", "4-2-3-1", "counter"));
    v.push(mk_team("Bolivia", "🇧🇴", "4-2-3-1", "counter"));
    v.push(mk_team("Venezuela", "🇻🇪", "4-2-3-1", "counter"));
    assert(teams_match(v@, spec_conmebol_teams()));
    v
}

/// The CONCACAF national-team entries of the catalog.
pub open spec fn spec_concacaf_teams() -> Seq<TeamV> {
    seq![
        tv("United States"@, "🇺🇸"@, "4-2-3-1"@, "high_press"@),
        tv("Mexico"@, "🇲🇽"@, "4-4-2"@, "counter"@),
        tv("Canada"@, "🇨🇦"@, "4-4-2"@, "counter"@),
        tv("Costa Rica"@, "🇨🇷"@, "4-2-3-1"@, "counter"@),
        tv("Panama"@, "🇵🇦"@, "4-2-3-1"@, "counter"@),
        tv("Jamaica"@, "🇯🇲"@, "4-2-3-1"@, "counter"@),
        tv("Honduras"@, "🇭🇳"@, "4-2-3-1"@, "counter"@),
    ]
}

fn concacaf_teams() -> (v: Vec<Team>)
    ensures
        teams_match(v@, spec_concacaf_teams()),
{
    let mut v: Vec<Team> = Vec::new();
    v.push(mk_team("United States", "🇺🇸", "4-2-3-1", "high_press"));
    v.push(mk_team("Mexico", "🇲🇽", "4-4-2", "counter"));
    v.push(mk_team("Canada", "🇨🇦", "4-4-2", "counter"));
    v.push(mk_team("Costa Rica", "🇨🇷", "4-2-3-1", "counter"));
    v.push(mk_team("Panama", "🇵🇦", "4-2-3-1", "counter"));
    v.push(mk_team("Jamaica", "🇯🇲", "4-2-3-1", "counter"));
    v.push(mk_team("Honduras", "🇭🇳", "4-2-3-1", "counter"));
    assert(teams_match(v@, spec_concacaf_teams()));
    v
}

/// The AFC and OFC national-team entries of the catalog.
pub open spec fn spec_afc_teams() -> Seq<TeamV> {
    seq![
        tv("Japan"@, "🇯🇵"@, "4-3-3"@, "possession"@),
        tv("South Korea"@, "🇰🇷"@, "4-2-3-1"@, "high_press"@),
        tv("Australia"@, "🇦🇺"@, "4-2-3-1"@, "counter"@),
        tv("Iran"@, "🇮🇷"@, "4-4-2"@, "counter"@),
        tv("Saudi Arabia"@, "🇸🇦"@, "4-4-2"@, "counter"@),
        tv("Qatar"@, "🇶🇦"@, "4-2-3-1"@, "counter"@),
        tv("Iraq"@, "🇮🇶"@, "4-2-3-1"@, "counter"@),
        tv("United Arab Emirates"@, "🇦🇪"@, "4-2-3-1"@, "counter"@),
        tv("PRC China"@, "🇨🇳"@, "4-3-3"@, "possession"@),
    ]
}

fn afc_teams() -> (v: Vec<Team>)
    ensures
        teams_match(v@, spec_afc_teams()),
{
    let mut v: Vec<Team> = Vec::new();
    v.push(mk_team("Japan", "🇯🇵", "4-3-3", "possession"));
    v.push(mk_team("South Korea", "🇰🇷", "4-2-3-1", "high_press"));
    v.push(mk_team("Australia", "🇦🇺", "4-2-3-1", "counter"));
    v.push(mk_team("Iran", "🇮🇷", "4-4-2", "counter"));
    v.push(mk_team("Saudi Arabia", "🇸🇦", "4-4-2", "counter"));
    v.push(mk_team("Qatar", "🇶🇦", "4-2-3-1", "counter"));
    v.push(mk_team("Iraq", "🇮🇶", "4-2-3-1", "counter"));
    v.push(mk_team("United Arab Emirates", "🇦🇪", "4-2-3-1", "counter"));
    v.push(mk_team("PRC China", "🇨🇳", "4-3-3", "possession"));
    assert(teams_match(v@, spec_afc_teams()));
    v
}

/// The CAF national-team entries of the catalog.
pub open spec fn spec_caf_teams() -> Seq<TeamV> {
    seq![
        tv("Morocco"@, "🇲🇦"@, "4-2-3-1"@, "high_press"@),
        tv("Senegal"@, "🇸🇳"@, "4-4-2"@, "counter"@),
        tv("Nigeria"@, "🇳🇬"@, "4-2-3-1"@, "high_press"@),
        tv("Egypt"@, "🇪🇬"@, "4-2-3-1"@, "counter"@),
        tv("Algeria"@, "🇩🇿"@, "4-4-2"@, "counter"@),
        tv("Tunisia"@, "🇹🇳"@, "4-4-2"@, "counter"@),
        tv("Ghana"@, "🇬🇭"@, "4-2-3-1"@, "counter"@),
        tv("Cameroon"@, "🇨🇲"@, "4-2-3-1"@, "counter"@),
        tv("Ivory Coast"@, "🇨🇮"@, "4-2-3-1"@, "counter"@),
        tv("South Africa"@, "🇿🇦"@, "4-2-3-1"@, "counter"@),
    ]
}

fn caf_teams() -> (v: Vec<Team>)
    ensures
        teams_match(v@, spec_caf_teams()),
{
    let mut v: Vec<Team> = Vec::new();
    v.push(mk_team("Morocco", "🇲🇦", "4-2-3-1", "high_press"));
    v.push(mk_team("Senegal", "🇸🇳", "4-4-2", "counter"));
    v.push(mk_team("Nigeria", "🇳🇬", "4-2-3-1", "high_press"));
    v.push(mk_team("Egypt", "🇪🇬", "4-2-3-1", "counter"));
    v.push(mk_team("Algeria", "🇩🇿", "4-4-2", "counter"));
    v.push(mk_team("Tunisia", "🇹🇳", "4-4-2", "counter"));
    v.push(mk_team("Ghana", "🇬🇭", "4-2-3-1", "counter"));
    v.push(mk_team("Cameroon", "🇨🇲", "4-2-3-1", "counter"));
    v.push(mk_team("Ivory Coast", "🇨🇮", "4-2-3-1", "counter"));
    v.push(mk_team("South Africa", "🇿🇦", "4-2-3-1", "counter"));
    assert(teams_match(v@, spec_caf_teams()));
    v
}

/// The whole catalog, in its fixed order.
pub open spec fn spec_teams() -> Seq<TeamV> {
    spec_jleague_teams() + spec_european_teams() + spec_uefa_teams() + spec_conmebol_teams()
        + spec_concacaf_teams() + spec_afc_teams() + spec_caf_teams()
}

/// Builds the full catalog of teams, in its fixed order.
pub fn catalog() -> (v: Vec<Team>)
    ensures
        teams_match(v@, spec_teams()),
{
    let mut v = jleague_teams();
    let mut g1 = european_teams();
    proof {
        lemma_teams_match_concat(v@, spec_jleague_teams(), g1@, spec_european_teams());
    }
    v.append(&mut g1);
    let mut g2 = uefa_teams();
    proof {
        lemma_teams_match_concat(
            v@,
            spec_jleague_teams() + spec_european_teams(),
            g2@,
            spec_uefa_teams(),
        );
    }
    v.append(&mut g2);
    let mut g3 = conmebol_teams();
    proof {
        lemma_teams_match_concat(
            v@,
            spec_jleague_teams() + spec_european_teams() + spec_uefa_teams(),
            g3@,
            spec_conmebol_teams(),
        );
    }
    v.append(&mut g3);
    let mut g4 = concacaf_teams();
    proof {
        lemma_teams_match_concat(
            v@,
            spec_jleague_teams() + spec_european_teams() + spec_uefa_teams()
                + spec_conmebol_teams(),
            g4@,
            spec_concacaf_teams(),
        );
    }
    v.append(&mut g4);
    let mut g5 = afc_teams();
    proof {
        lemma_teams_match_concat(
            v@,
            spec_jleague_teams() + spec_european_teams() + spec_uefa_teams()
                + spec_conmebol_teams() + spec_concacaf_teams(),
            g5@,
            spec_afc_teams(),
        );
    }
    v.append(&mut g5);
    let mut g6 = caf_teams();
    proof {
        lemma_teams_match_concat(
            v@,
            spec_jleague_teams() + spec_european_teams() + spec_uefa_teams()
                + spec_conmebol_teams() + spec_concacaf_teams() + spec_afc_teams(),
            g6@,
            spec_caf_teams(),
        );
    }
    v.append(&mut g6);
    v
}

/// The catalog's team names, in catalog order.
pub fn team_names() -> (v: Vec<String>)
    ensures
        v@.len() == spec_teams().len(),
        forall|i: int| 0 <= i < v@.len() ==> v@[i]@ == spec_teams()[i].name,
{
    let cat = catalog();
    let mut v: Vec<String> = Vec::new();
    let mut i: usize = 0;
    while i < cat.len()
        invariant
            i <= cat@.len(),
            teams_match(cat@, spec_teams()),
            v@.len() == i,
            forall|j: int| 0 <= j < i ==> v@[j]@ == spec_teams()[j].name,
        decreases cat@.len() - i,
    {
        v.push(cat[i].name.clone());
        i = i + 1;
    }
    v
}

/// The first catalog entry with the given name, searching front to back.
pub open spec fn spec_find_team(s: Seq<TeamV>, name: Seq<char>) -> Option<TeamV>
    decreases s.len(),
{
    if s.len() == 0 {
        None
    } else if s[0].name == name {
        Some(s[0])
    } else {
        spec_find_team(s.skip(1), name)
    }
}

/// The catalog entry a name selects, if the name is known.
pub open spec fn spec_team_by_name(name: Seq<char>) -> Option<TeamV> {
    spec_find_team(spec_teams(), name)
}

/// Looks a team up by its exact name.
pub fn team_by_name(name: &str) -> (r: Option<Team>)
    ensures
        match r {
            Some(t) => spec_team_by_name(name@) == Some(t@),
            None => spec_team_by_name(name@) is None,
        },
{
    let mut cat = catalog();
    let mut i: usize = 0;
    assert(spec_teams().skip(0) =~= spec_teams());
    while i < cat.len()
        invariant
            i <= cat@.len(),
            teams_match(cat@, spec_teams()),
            spec_team_by_name(name@) == spec_find_team(spec_teams().skip(i as int), name@),
        decreases cat@.len() - i,
    {
        assert(spec_teams().skip(i as int)[0] == spec_teams()[i as int]);
        if str_eq(cat[i].name.as_str(), name) {
            let t = cat.remove(i);
            return Some(t);
        }
        assert(spec_teams().skip(i as int).skip(1) =~= spec_teams().skip(i as int + 1));
        i = i + 1;
    }
    assert(spec_teams().skip(i as int).len() == 0);
    None
}

/// The flag shown for a team name: its catalog flag, or a white flag for a
/// name the catalog does not know.
pub open spec fn spec_team_flag(name: Seq<char>) -> Seq<char> {
    match spec_team_by_name(name) {
        Some(t) => t.flag,
        None => "🏳️"@,
    }
}

/// The flag for a team name; unknown names get a white flag.
pub fn team_flag(team: &str) -> (r: String)
    ensures
        r@ == spec_team_flag(team@),
{
    match team_by_name(team) {
        Some(t) => t.flag,
        None => "🏳️".to_owned(),
    }
}

/// A team name prefixed with its flag, as shown in narration.
pub open spec fn spec_display_name(name: Seq<char>) -> Seq<char> {
    spec_team_flag(name) + " "@ + name
}

/// Renders a team name with its flag in front.
pub fn display_name(team: &str) -> (r: String)
    ensures
        r@ == spec_display_name(team@),
{
    let r = team_flag(team).concat(" ").concat(team);
    assert(r@ =~= spec_display_name(team@));
    r
}

/// The profile a team name selects: its catalog formation and tactic, or the
/// default 4-4-2 counter profile for an unknown name.
pub open spec fn spec_profile_for(name: Seq<char>) -> TeamProfileV {
    match spec_team_by_name(name) {
        Some(t) => TeamProfileV { formation: t.formation, tactic: t.tactic },
        None => TeamProfileV { formation: "4-4-2"@, tactic: "counter"@ },
    }
}

/// The formation and tactic for a team name, with a default for unknown
/// names.
pub fn profile_for(team: &str) -> (r: TeamProfile)
    ensures
        r@ == spec_profile_for(team@),
{
    match team_by_name(team) {
        Some(t) => TeamProfile { formation: t.formation, tactic: t.tactic },
        None => TeamProfile { formation: "4-4-2".to_owned(), tactic: "counter".to_owned() },
    }
}

} // verus!
