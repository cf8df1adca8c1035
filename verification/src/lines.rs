//! The narrative lines the match engine emits: scoreboard text, kickoff and
//! event commentary, and the halftime and full-time summaries.
//!
//! Each builder is pinned to a spec-level concatenation, so every line is a
//! pure function of the match situation it describes.

use vstd::prelude::*;
use vstd::string::StringExecFns;

use crate::catalog::spec_display_name;
use crate::catalog::display_name;
use crate::text::spec_micro_2dp;
use crate::text::spec_pad2;
use crate::text::spec_u64_string;
use crate::text::micro_2dp;
use crate::text::pad2;
use crate::text::u64_to_string;

verus! {

/// The scoreboard line: both sides with formations, the score, and the
/// minute.
pub open spec fn spec_scoreboard_line(
    home: Seq<char>,
    hform: Seq<char>,
    hg: int,
    ag: int,
    away: Seq<char>,
    aform: Seq<char>,
    minute: int,
) -> Seq<char> {
    spec_display_name(home) + " ("@ + hform + ") "@ + spec_u64_string(hg) + " - "@
        + spec_u64_string(ag) + " "@ + spec_display_name(away) + " ("@ + aform + ") | "@
        + spec_pad2(minute) + "'"@
}

/// Builds the scoreboard line for a minute.
pub fn scoreboard_line(
    home: &str,
    hform: &str,
    hg: u8,
    ag: u8,
    away: &str,
    aform: &str,
    minute: u8,
) -> (r: String)
    ensures
        r@ == spec_scoreboard_line(home@, hform@, hg as int, ag as int, away@, aform@, minute as int),
{
    let r = display_name(home)
        .concat(" (")
        .concat(hform)
        .concat(") ")
        .concat(u64_to_string(hg as u64).as_str())
        .concat(" - ")
        .concat(u64_to_string(ag as u64).as_str())
        .concat(" ")
        .concat(display_name(away).as_str())
        .concat(" (")
        .concat(aform)
        .concat(") | ")
        .concat(pad2(minute).as_str())
        .concat("'");
    assert(r@ =~= spec_scoreboard_line(
        home@,
        hform@,
        hg as int,
        ag as int,
        away@,
        aform@,
        minute as int,
    ));
    r
}

/// The kickoff announcement with both sides' formations and tactic labels.
pub open spec fn spec_kickoff_line(
    home: Seq<char>,
    hform: Seq<char>,
    hlabel: Seq<char>,
    away: Seq<char>,
    aform: Seq<char>,
    alabel: Seq<char>,
) -> Seq<char> {
    "Kickoff! "@ + spec_display_name(home) + " ("@ + hform + ", "@ + hlabel + ") vs "@
        + spec_display_name(away) + " ("@ + aform + ", "@ + alabel + ")"@
}

/// Builds the kickoff announcement.
pub fn kickoff_line(
    home: &str,
    hform: &str,
    hlabel: &str,
    away: &str,
    aform: &str,
    alabel: &str,
) -> (r: String)
    ensures
        r@ == spec_kickoff_line(home@, hform@, hlabel@, away@, aform@, alabel@),
{
    let r = "Kickoff! "
        .to_owned()
        .concat(display_name(home).as_str())
        .concat(" (")
        .concat(hform)
        .concat(", ")
        .concat(hlabel)
        .concat(") vs ")
        .concat(display_name(away).as_str())
        .concat(" (")
        .concat(aform)
        .concat(", ")
        .concat(alabel)
        .concat(")");
    assert(r@ =~= spec_kickoff_line(home@, hform@, hlabel@, away@, aform@, alabel@));
    r
}

/// The goal line: scorer, finish style and the shot's expected-goal value.
pub open spec fn spec_goal_line(minute: int, atk: Seq<char>, fast: bool, xg: int) -> Seq<char> {
    spec_pad2(minute) + "' GOOOOAL - "@ + spec_display_name(atk) + " ("@ + (if fast {
        "cut-back finish"@
    } else {
        "drilled low"@
    }) + ", xG "@ + spec_micro_2dp(xg) + ")"@
}

/// Builds a goal line.
pub fn goal_line(minute: u8, atk: &str, fast: bool, xg: u64) -> (r: String)
    requires
        xg < 0x1000_0000_0000_0000,
    ensures
        r@ == spec_goal_line(minute as int, atk@, fast, xg as int),
{
    let finish = if fast {
        "cut-back finish"
    } else {
        "drilled low"
    };
    let r = pad2(minute)
        .concat("' GOOOOAL - ")
        .concat(display_name(atk).as_str())
        .concat(" (")
        .concat(finish)
        .concat(", xG ")
        .concat(micro_2dp(xg).as_str())
        .concat(")");
    assert(r@ =~= spec_goal_line(minute as int, atk@, fast, xg as int));
    r
}

/// The save line, credited to the defending side's keeper.
pub open spec fn spec_save_line(minute: int, def: Seq<char>) -> Seq<char> {
    spec_pad2(minute) + "' Big save by "@ + spec_display_name(def) + "'s keeper!"@
}

/// Builds a save line.
pub fn save_line(minute: u8, def: &str) -> (r: String)
    ensures
        r@ == spec_save_line(minute as int, def@),
{
    let r = pad2(minute).concat("' Big save by ").concat(display_name(def).as_str()).concat(
        "'s keeper!",
    );
    assert(r@ =~= spec_save_line(minute as int, def@));
    r
}

/// The near-miss line for a shot off target.
pub open spec fn spec_miss_line(minute: int, atk: Seq<char>) -> Seq<char> {
    spec_pad2(minute) + "' "@ + spec_display_name(atk) + " fire it just wide."@
}

/// Builds a near-miss line.
pub fn miss_line(minute: u8, atk: &str) -> (r: String)
    ensures
        r@ == spec_miss_line(minute as int, atk@),
{
    let r = pad2(minute).concat("' ").concat(display_name(atk).as_str()).concat(
        " fire it just wide.",
    );
    assert(r@ =~= spec_miss_line(minute as int, atk@));
    r
}

/// The corner line for the attacking side.
pub open spec fn spec_corner_line(minute: int, atk: Seq<char>) -> Seq<char> {
    spec_pad2(minute) + "' Corner to "@ + spec_display_name(atk) + "."@
}

/// Builds a corner line.
pub fn corner_line(minute: u8, atk: &str) -> (r: String)
    ensures
        r@ == spec_corner_line(minute as int, atk@),
{
    let r = pad2(minute).concat("' Corner to ").concat(display_name(atk).as_str()).concat(".");
    assert(r@ =~= spec_corner_line(minute as int, atk@));
    r
}

/// The offside line for the attacking side.
pub open spec fn spec_offside_line(minute: int, atk: Seq<char>) -> Seq<char> {
    spec_pad2(minute) + "' Flag up - "@ + spec_display_name(atk) + " caught offside."@
}

/// Builds an offside line.
pub fn offside_line(minute: u8, atk: &str) -> (r: String)
    ensures
        r@ == spec_offside_line(minute as int, atk@),
{
    let r = pad2(minute).concat("' Flag up - ").concat(display_name(atk).as_str()).concat(
        " caught offside.",
    );
    assert(r@ =~= spec_offside_line(minute as int, atk@));
    r
}

/// The yellow-card line, charged to the defending side.
pub open spec fn spec_yellow_line(minute: int, def: Seq<char>) -> Seq<char> {
    spec_pad2(minute) + "' Yellow card to "@ + spec_display_name(def) + "."@
}

/// Builds a yellow-card line.
pub fn yellow_line(minute: u8, def: &str) -> (r: String)
    ensures
        r@ == spec_yellow_line(minute as int, def@),
{
    let r = pad2(minute).concat("' Yellow card to ").concat(display_name(def).as_str()).concat(
        ".",
    );
    assert(r@ =~= spec_yellow_line(minute as int, def@));
    r
}

/// The halftime summary with the running score.
pub open spec fn spec_halftime_line(home: Seq<char>, hg: int, ag: int, away: Seq<char>) -> Seq<
    char,
> {
    "Halftime - "@ + spec_display_name(home) + " "@ + spec_u64_string(hg) + "-"@
        + spec_u64_string(ag) + " "@ + spec_display_name(away)
}

/// Builds the halftime summary.
pub fn halftime_line(home: &str, hg: u8, ag: u8, away: &str) -> (r: String)
    ensures
        r@ == spec_halftime_line(home@, hg as int, ag as int, away@),
{
    let r = "Halftime - "
        .to_owned()
        .concat(display_name(home).as_str())
        .concat(" ")
        .concat(u64_to_string(hg as u64).as_str())
        .concat("-")
        .concat(u64_to_string(ag as u64).as_str())
        .concat(" ")
        .concat(display_name(away).as_str());
    assert(r@ =~= spec_halftime_line(home@, hg as int, ag as int, away@));
    r
}

/// The full-time summary with the final score.
pub open spec fn spec_fulltime_line(home: Seq<char>, hg: int, ag: int, away: Seq<char>) -> Seq<
    char,
> {
    "Full time - "@ + spec_display_name(home) + " "@ + spec_u64_string(hg) + "-"@
        + spec_u64_string(ag) + " "@ + spec_display_name(away)
}

/// Builds the full-time summary.
pub fn fulltime_line(home: &str, hg: u8, ag: u8, away: &str) -> (r: String)
    ensures
        r@ == spec_fulltime_line(home@, hg as int, ag as int, away@),
{
    let r = "Full time - "
        .to_owned()
        .concat(display_name(home).as_str())
        .concat(" ")
        .concat(u64_to_string(hg as u64).as_str())
        .concat("-")
        .concat(u64_to_string(ag as u64).as_str())
        .concat(" ")
        .concat(display_name(away).as_str());
    assert(r@ =~= spec_fulltime_line(home@, hg as int, ag as int, away@));
    r
}

/// Appends a line to a log, tracking the spec-level sequence.
pub fn push_line(v: &mut Vec<String>, s: String)
    ensures
        final(v).deep_view() == old(v).deep_view().push(s@),
{
    let ghost before = v.deep_view();
    v.push(s);
    assert(v.deep_view() =~= before.push(s@));
}

/// Copies a list of lines.
pub fn clone_lines(v: &Vec<String>) -> (r: Vec<String>)
    ensures
        r.deep_view() == v.deep_view(),
{
    let mut out: Vec<String> = Vec::new();
    let mut i: usize = 0;
    while i < v.len()
        invariant
            i <= v@.len(),
            out.deep_view() =~= v.deep_view().take(i as int),
        decreases v@.len() - i,
    {
        push_line(&mut out, v[i].clone());
        assert(out.deep_view() =~= v.deep_view().take(i as int + 1));
        i = i + 1;
    }
    assert(v.deep_view().take(v@.len() as int) =~= v.deep_view());
    out
}

} // verus!
