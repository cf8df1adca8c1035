//! The interactive session: playback speed, the create-dialog draft,
//! participant resolution with seeded auto-fill, and the capped collection of
//! simulation sessions a front end manages.

use vstd::prelude::*;
use vstd::string::StringExecFns;

use crate::catalog::spec_teams;
use crate::catalog::team_names;
use crate::instance::inst_wf;
use crate::instance::spec_new_instance;
use crate::instance::spec_start;
use crate::instance::spec_tick;
use crate::instance::InstanceV;
use crate::instance::SimulationInstance;
use crate::rng::derive_seed;
use crate::rng::spec_derive_seed;
use crate::rng::spec_range_draw;
use crate::rng::spec_range_mix;
use crate::rng::spec_rng_new;
use crate::rng::Rng;
use crate::sim::spec_sim_type_str;
use crate::sim::SimulationType;
use crate::text::spec_u64_string;
use crate::text::str_eq;
use crate::text::u64_to_string;

verus! {

/// The hard cap on concurrently held sessions.
pub const MAX_INSTANCES: usize = 100;

/// Playback speed: how many frames one tick reveals.
#[derive(Clone, Copy, PartialEq, Eq, Structural, Debug)]
pub enum Speed {
    X1,
    X2,
    X4,
    Instant,
}

/// The frames one tick reveals at a speed.
pub open spec fn spec_frames_per_tick(s: Speed) -> int {
    match s {
        Speed::X1 => 1,
        Speed::X2 => 2,
        Speed::X4 => 4,
        Speed::Instant => 200,
    }
}

/// The display label of a speed.
pub open spec fn spec_speed_label(s: Speed) -> Seq<char> {
    match s {
        Speed::X1 => "1x"@,
        Speed::X2 => "2x"@,
        Speed::X4 => "4x"@,
        Speed::Instant => "Instant"@,
    }
}

impl Speed {
    /// How many frames one tick reveals at this speed.
    pub fn frames_per_tick(self) -> (r: usize)
        ensures
            r as int == spec_frames_per_tick(self),
    {
        match self {
            Speed::X1 => 1,
            Speed::X2 => 2,
            Speed::X4 => 4,
            Speed::Instant => 200,
        }
    }

    /// The display label of this speed.
    pub fn label(self) -> (r: &'static str)
        ensures
            r@ == spec_speed_label(self),
    {
        match self {
            Speed::X1 => "1x",
            Speed::X2 => "2x",
            Speed::X4 => "4x",
            Speed::Instant => "Instant",
        }
    }
}

/// One participant slot of the create dialog: filled automatically, or a
/// manual pick by catalog index.
#[derive(Clone, Copy, PartialEq, Eq, Structural, Debug)]
pub struct TeamSlotDraft {
    pub is_cpu: bool,
    pub team_idx: usize,
}

/// Spec-level image of a create-dialog draft.
#[verifier::ext_equal]
pub ghost struct CreateDraftV {
    pub mode: SimulationType,
    pub slots: Seq<TeamSlotDraft>,
    pub selected_slot: int,
}

/// The create dialog's working state: a tournament shape and its slots.
pub struct CreateDraft {
    pub mode: SimulationType,
    pub slots: Vec<TeamSlotDraft>,
    pub selected_slot: usize,
}

impl View for CreateDraft {
    type V = CreateDraftV;

    open spec fn view(&self) -> CreateDraftV {
        CreateDraftV {
            mode: self.mode,
            slots: self.slots@,
            selected_slot: self.selected_slot as int,
        }
    }
}

/// The slot count a tournament shape needs in the create dialog.
pub open spec fn spec_slot_count_for_mode(t: SimulationType) -> int {
    match t {
        SimulationType::Single => 2,
        SimulationType::League4 => 4,
        SimulationType::Knockout4 => 4,
    }
}

/// The participant slots a tournament shape needs.
pub fn slot_count_for_mode(sim_type: SimulationType) -> (r: usize)
    ensures
        r as int == spec_slot_count_for_mode(sim_type),
{
    match sim_type {
        SimulationType::Single => 2,
        SimulationType::League4 => 4,
        SimulationType::Knockout4 => 4,
    }
}

/// A fresh draft: every slot automatic, preset to successive catalog teams.
pub open spec fn spec_new_draft(mode: SimulationType) -> CreateDraftV {
    CreateDraftV {
        mode,
        slots: Seq::new(
            spec_slot_count_for_mode(mode) as nat,
            |i: int| TeamSlotDraft { is_cpu: true, team_idx: (i % (spec_teams().len() as int)) as usize },
        ),
        selected_slot: 0,
    }
}

impl CreateDraft {
    /// A fresh draft for a tournament shape: every slot automatic.
    pub fn new(mode: SimulationType) -> (r: CreateDraft)
        ensures
            r@ == spec_new_draft(mode),
    {
        let count = slot_count_for_mode(mode);
        let names = team_names();
        let mut slots: Vec<TeamSlotDraft> = Vec::new();
        let mut i: usize = 0;
        while i < count
            invariant
                i <= count,
                names@.len() == spec_teams().len(),
                names@.len() > 0,
                slots@ =~= spec_new_draft(mode).slots.take(i as int),
                count as int == spec_slot_count_for_mode(mode),
            decreases count - i,
        {
            slots.push(TeamSlotDraft { is_cpu: true, team_idx: i % names.len() });
            assert(slots@ =~= spec_new_draft(mode).slots.take(i as int + 1));
            i = i + 1;
        }
        assert(spec_new_draft(mode).slots.take(count as int) =~= spec_new_draft(mode).slots);
        CreateDraft { mode, slots, selected_slot: 0 }
    }

    /// The display label of the draft's tournament shape.
    pub fn mode_label(&self) -> (r: &'static str)
        ensures
            r@ == spec_mode_label(self@.mode),
    {
        match self.mode {
            SimulationType::Single => "Single Match",
            SimulationType::League4 => "4-Team League",
            SimulationType::Knockout4 => "4-Team Knockout",
        }
    }
}

/// The display label of a tournament shape in the create dialog.
pub open spec fn spec_mode_label(t: SimulationType) -> Seq<char> {
    match t {
        SimulationType::Single => "Single Match"@,
        SimulationType::League4 => "4-Team League"@,
        SimulationType::Knockout4 => "4-Team Knockout"@,
    }
}

/// The catalog names, in catalog order.
pub open spec fn spec_team_names() -> Seq<Seq<char>> {
    Seq::new(spec_teams().len(), |i: int| spec_teams()[i].name)
}

/// Whether a list of names holds the given one.
pub fn names_contain(v: &Vec<String>, name: &str) -> (r: bool)
    ensures
        r == v.deep_view().contains(name@),
{
    let mut i: usize = 0;
    while i < v.len()
        invariant
            i <= v@.len(),
            forall|j: int| 0 <= j < i ==> v.deep_view()[j] != name@,
        decreases v@.len() - i,
    {
        if str_eq(v[i].as_str(), name) {
            assert(v.deep_view()[i as int] == name@);
            return true;
        }
        i = i + 1;
    }
    assert(!v.deep_view().contains(name@)) by {
        if v.deep_view().contains(name@) {
            let j = choose|j: int| 0 <= j < v.deep_view().len() && v.deep_view()[j] == name@;
            assert(v.deep_view()[j] == name@);
        }
    }
    false
}

/// The manual-slot scan: walks the slots in order, counting automatic slots
/// and collecting manual picks, rejecting an out-of-range index or a
/// duplicated manual team at the first offender.
pub open spec fn spec_scan_slots(
    slots: Seq<TeamSlotDraft>,
    k: int,
    seen: Seq<Seq<char>>,
    cpu: int,
) -> Result<(Seq<Seq<char>>, int), Seq<char>>
    decreases slots.len() - k,
{
    if k < 0 || k >= slots.len() {
        Ok((seen, cpu))
    } else {
        let s = slots[k];
        if s.is_cpu {
            spec_scan_slots(slots, k + 1, seen, cpu + 1)
        } else if s.team_idx >= spec_teams().len() {
            Err("Manual team selection is out of range"@)
        } else {
            let name = spec_teams()[s.team_idx as int].name;
            if seen.contains(name) {
                Err("Duplicate manual team: "@ + name)
            } else {
                spec_scan_slots(slots, k + 1, seen.push(name), cpu)
            }
        }
    }
}

/// The catalog names not yet taken by a manual pick, in catalog order.
pub open spec fn spec_filter_names(names: Seq<Seq<char>>, seen: Seq<Seq<char>>) -> Seq<Seq<char>>
    decreases names.len(),
{
    if names.len() == 0 {
        Seq::empty()
    } else {
        (if seen.contains(names[0]) {
            Seq::<Seq<char>>::empty()
        } else {
            seq![names[0]]
        }) + spec_filter_names(names.skip(1), seen)
    }
}

/// The fill pass: manual slots take their picked name; automatic slots draw
/// without replacement from the remaining pool with the session's own seeded
/// generator.
pub open spec fn spec_fill_slots(
    slots: Seq<TeamSlotDraft>,
    k: int,
    remaining: Seq<Seq<char>>,
    s: u64,
    out: Seq<Seq<char>>,
) -> (Seq<Seq<char>>, u64)
    decreases slots.len() - k,
{
    if k < 0 || k >= slots.len() {
        (out, s)
    } else {
        let slot = slots[k];
        if slot.is_cpu {
            let i = spec_range_draw(s, remaining.len() as usize) as int;
            let s2 = spec_range_mix(s, remaining.len() as usize);
            spec_fill_slots(slots, k + 1, remaining.remove(i), s2, out.push(remaining[i]))
        } else {
            spec_fill_slots(slots, k + 1, remaining, s, out.push(spec_teams()[slot.team_idx as int].name))
        }
    }
}

/// The participant list a slot draft resolves to: manual picks validated
/// against the catalog and for duplicates, automatic slots drawn without
/// replacement from what remains, seeded by the session's seed; or the first
/// validation error.
pub open spec fn spec_resolve_teams_from_slots(slots: Seq<TeamSlotDraft>, seed: u64) -> Result<
    Seq<Seq<char>>,
    Seq<char>,
> {
    match spec_scan_slots(slots, 0, Seq::empty(), 0) {
        Err(e) => Err(e),
        Ok((seen, cpu)) => {
            let remaining = spec_filter_names(spec_team_names(), seen);
            if remaining.len() < cpu {
                Err("Not enough teams left for CPU auto-fill"@)
            } else {
                Ok(spec_fill_slots(slots, 0, remaining, spec_rng_new(seed), Seq::empty()).0)
            }
        },
    }
}

fn filter_taken(names: &Vec<String>, seen: &Vec<String>) -> (r: Vec<String>)
    ensures
        r.deep_view() == spec_filter_names(names.deep_view(), seen.deep_view()),
{
    let mut out: Vec<String> = Vec::new();
    let mut i: usize = 0;
    let ghost nv = names.deep_view();
    let ghost sv = seen.deep_view();
    proof {
        assert(nv.skip(0) =~= nv);
    }
    while i < names.len()
        invariant
            i <= names@.len(),
            nv == names.deep_view(),
            sv == seen.deep_view(),
            spec_filter_names(nv, sv) =~= out.deep_view() + spec_filter_names(
                nv.skip(i as int),
                sv,
            ),
        decreases names@.len() - i,
    {
        proof {
            assert(nv.skip(i as int)[0] == nv[i as int]);
            assert(nv.skip(i as int).skip(1) =~= nv.skip(i as int + 1));
        }
        if !names_contain(seen, names[i].as_str()) {
            crate::lines::push_line(&mut out, names[i].clone());
        }
        i = i + 1;
        assert(spec_filter_names(nv, sv) =~= out.deep_view() + spec_filter_names(
            nv.skip(i as int),
            sv,
        ));
    }
    proof {
        assert(nv.skip(names@.len() as int).len() == 0);
        assert(out.deep_view() =~= spec_filter_names(nv, sv));
    }
    out
}

/// Automatic slots from position `k` on.
pub open spec fn spec_count_cpu(slots: Seq<TeamSlotDraft>, k: int) -> int
    decreases slots.len() - k,
{
    if k < 0 || k >= slots.len() {
        0
    } else {
        (if slots[k].is_cpu {
            1int
        } else {
            0int
        }) + spec_count_cpu(slots, k + 1)
    }
}

proof fn lemma_scan_ok_facts(slots: Seq<TeamSlotDraft>, k: int, seen: Seq<Seq<char>>, cpu: int)
    requires
        0 <= k,
        spec_scan_slots(slots, k, seen, cpu) is Ok,
    ensures
        forall|t: int|
            k <= t < slots.len() && !(#[trigger] slots[t]).is_cpu ==> slots[t].team_idx
                < spec_teams().len(),
        (spec_scan_slots(slots, k, seen, cpu)->Ok_0).1 == cpu + spec_count_cpu(slots, k),
    decreases slots.len() - k,
{
    if k < 0 || k >= slots.len() {
    } else {
        let s = slots[k];
        if s.is_cpu {
            lemma_scan_ok_facts(slots, k + 1, seen, cpu + 1);
        } else {
            assert(s.team_idx < spec_teams().len());
            let name = spec_teams()[s.team_idx as int].name;
            lemma_scan_ok_facts(slots, k + 1, seen.push(name), cpu);
        }
        assert forall|t: int|
            k <= t < slots.len() && !(#[trigger] slots[t]).is_cpu implies slots[t].team_idx
            < spec_teams().len() by {
            if t == k {
                assert(slots[k].team_idx < spec_teams().len());
            }
        }
    }
}

proof fn lemma_count_cpu_nonneg(slots: Seq<TeamSlotDraft>, k: int)
    ensures
        spec_count_cpu(slots, k) >= 0,
    decreases slots.len() - k,
{
    if 0 <= k < slots.len() {
        lemma_count_cpu_nonneg(slots, k + 1);
    }
}

/// Resolves the create dialog's slots to a participant list: manual picks
/// must name distinct catalog teams; automatic slots are drawn without
/// replacement from the remaining catalog, seeded deterministically.
pub fn resolve_teams_from_slots(slots: &Vec<TeamSlotDraft>, seed: u64) -> (r: Result<
    Vec<String>,
    String,
>)
    ensures
        match r {
            Ok(teams) => spec_resolve_teams_from_slots(slots@, seed) == Ok::<_, Seq<char>>(
                teams.deep_view(),
            ),
            Err(e) => spec_resolve_teams_from_slots(slots@, seed) == Err::<Seq<Seq<char>>, _>(e@),
        },
{
    let names = team_names();
    proof {
        assert(names.deep_view() =~= spec_team_names());
    }
    let mut seen: Vec<String> = Vec::new();
    let mut cpu_count: usize = 0;
    let mut k: usize = 0;
    proof {
        assert(seen.deep_view() =~= Seq::<Seq<char>>::empty());
    }
    while k < slots.len()
        invariant
            k <= slots@.len(),
            cpu_count <= k,
            names.deep_view() == spec_team_names(),
            names@.len() == spec_teams().len(),
            spec_scan_slots(slots@, 0, Seq::empty(), 0) == spec_scan_slots(
                slots@,
                k as int,
                seen.deep_view(),
                cpu_count as int,
            ),
        decreases slots@.len() - k,
    {
        let ghost k0 = k as int;
        let ghost seen0 = seen.deep_view();
        let ghost cpu0 = cpu_count as int;
        let slot = slots[k];
        if slot.is_cpu {
            cpu_count = cpu_count + 1;
        } else {
            if slot.team_idx >= names.len() {
                proof {
                    assert(spec_scan_slots(slots@, k0, seen0, cpu0) == Err::<
                        (Seq<Seq<char>>, int),
                        _,
                    >("Manual team selection is out of range"@));
                }
                return Err("Manual team selection is out of range".to_owned());
            }
            let name = &names[slot.team_idx];
            proof {
                assert(names.deep_view()[slot.team_idx as int] == spec_teams()[slot.team_idx as int].name);
            }
            if names_contain(&seen, name.as_str()) {
                let e = "Duplicate manual team: ".to_owned().concat(name.as_str());
                proof {
                    assert(e@ =~= "Duplicate manual team: "@ + spec_teams()[slot.team_idx as int].name);
                    assert(spec_scan_slots(slots@, k0, seen0, cpu0) == Err::<
                        (Seq<Seq<char>>, int),
                        _,
                    >("Duplicate manual team: "@ + spec_teams()[slot.team_idx as int].name));
                }
                return Err(e);
            }
            crate::lines::push_line(&mut seen, name.clone());
        }
        k = k + 1;
        proof {
            assert(spec_scan_slots(slots@, k0, seen0, cpu0) == spec_scan_slots(
                slots@,
                k as int,
                seen.deep_view(),
                cpu_count as int,
            ));
        }
    }
    let ghost seen_final = seen.deep_view();
    proof {
        assert(spec_scan_slots(slots@, 0, Seq::empty(), 0) == Ok::<_, Seq<char>>((
            seen_final,
            cpu_count as int,
        )));
        lemma_scan_ok_facts(slots@, 0, Seq::empty(), 0);
    }
    let mut remaining = filter_taken(&names, &seen);
    if remaining.len() < cpu_count {
        return Err("Not enough teams left for CPU auto-fill".to_owned());
    }
    let mut rng = Rng::new(seed);
    let mut output: Vec<String> = Vec::new();
    let mut j: usize = 0;
    proof {
        assert(remaining.deep_view().len() == remaining@.len());
        assert(output.deep_view() =~= Seq::<Seq<char>>::empty());
    }
    while j < slots.len()
        invariant
            j <= slots@.len(),
            names.deep_view() == spec_team_names(),
            names@.len() == spec_teams().len(),
            forall|t: int|
                0 <= t < slots@.len() && !(#[trigger] slots@[t]).is_cpu ==> slots@[t].team_idx
                    < spec_teams().len(),
            remaining.deep_view().len() >= spec_count_cpu(slots@, j as int),
            spec_fill_slots(
                slots@,
                0,
                spec_filter_names(spec_team_names(), seen_final),
                spec_rng_new(seed),
                Seq::empty(),
            ) == spec_fill_slots(slots@, j as int, remaining.deep_view(), rng@, output.deep_view()),
        decreases slots@.len() - j,
    {
        let ghost j0 = j as int;
        let ghost rem0 = remaining.deep_view();
        let ghost out0 = output.deep_view();
        let ghost s0 = rng@;
        let slot = slots[j];
        if slot.is_cpu {
            proof {
                lemma_count_cpu_nonneg(slots@, j0 + 1);
                assert(spec_count_cpu(slots@, j0) >= 1);
                assert(remaining.deep_view().len() == remaining@.len());
                assert(remaining@.len() == rem0.len());
            }
            let i = rng.range_usize(remaining.len());
            let picked = remaining.remove(i);
            proof {
                assert(remaining.deep_view() =~= rem0.remove(i as int));
                assert(picked@ == rem0[i as int]);
            }
            crate::lines::push_line(&mut output, picked);
        } else {
            proof {
                assert(spec_team_names()[slot.team_idx as int] == spec_teams()[slot.team_idx as int].name);
            }
            crate::lines::push_line(&mut output, names[slot.team_idx].clone());
        }
        j = j + 1;
        proof {
            assert(spec_fill_slots(slots@, j0, rem0, s0, out0) == spec_fill_slots(
                slots@,
                j as int,
                remaining.deep_view(),
                rng@,
                output.deep_view(),
            ));
            assert(remaining.deep_view().len() >= spec_count_cpu(slots@, j as int));
        }
    }
    proof {
        assert(spec_fill_slots(
            slots@,
            slots@.len() as int,
            remaining.deep_view(),
            rng@,
            output.deep_view(),
        ).0 == output.deep_view());
    }
    Ok(output)
}

/// Where a name sits in the catalog, if anywhere.
pub open spec fn spec_name_index(names: Seq<Seq<char>>, name: Seq<char>, k: int) -> Option<int>
    decreases names.len() - k,
{
    if k < 0 || k >= names.len() {
        None
    } else if names[k] == name {
        Some(k)
    } else {
        spec_name_index(names, name, k + 1)
    }
}

fn find_name_index(names: &Vec<String>, name: &str) -> (r: Option<usize>)
    ensures
        match r {
            Some(i) => spec_name_index(names.deep_view(), name@, 0) == Some(i as int) && i
                < names@.len(),
            None => spec_name_index(names.deep_view(), name@, 0) is None,
        },
{
    let mut k: usize = 0;
    while k < names.len()
        invariant
            k <= names@.len(),
            spec_name_index(names.deep_view(), name@, 0) == spec_name_index(
                names.deep_view(),
                name@,
                k as int,
            ),
        decreases names@.len() - k,
    {
        if str_eq(names[k].as_str(), name) {
            return Some(k);
        }
        k = k + 1;
    }
    None
}

/// The quick-match participant pair: each side is either a validated manual
/// name or an automatic slot, resolved like the create dialog's slots.
pub open spec fn spec_resolve_quick_single(
    home: Option<Seq<char>>,
    away: Option<Seq<char>>,
    seed: u64,
) -> Result<Seq<Seq<char>>, Seq<char>> {
    let hi = match home {
        Some(h) => spec_name_index(spec_team_names(), h, 0),
        None => Some(0int),
    };
    let ai = match away {
        Some(a) => spec_name_index(spec_team_names(), a, 0),
        None => Some(1int),
    };
    match (home, hi) {
        (Some(h), None) => Err("Unknown home team: "@ + h),
        _ => match (away, ai) {
            (Some(a), None) => Err("Unknown away team: "@ + a),
            _ => spec_resolve_teams_from_slots(
                seq![
                    TeamSlotDraft { is_cpu: home is None, team_idx: hi->0 as usize },
                    TeamSlotDraft { is_cpu: away is None, team_idx: ai->0 as usize },
                ],
                seed,
            ),
        },
    }
}

/// Resolves a quick single match's two sides: manual names must be catalog
/// teams; unnamed sides are auto-filled with the selection seed.
pub fn resolve_quick_single_teams(home: Option<&str>, away: Option<&str>, selection_seed: u64) -> (r:
    Result<Vec<String>, String>)
    ensures
        ({
            let hv = match home {
                Some(h) => Some(h@),
                None => None,
            };
            let av = match away {
                Some(a) => Some(a@),
                None => None,
            };
            match r {
                Ok(teams) => spec_resolve_quick_single(hv, av, selection_seed) == Ok::<
                    _,
                    Seq<char>,
                >(teams.deep_view()),
                Err(e) => spec_resolve_quick_single(hv, av, selection_seed) == Err::<
                    Seq<Seq<char>>,
                    _,
                >(e@),
            }
        }),
{
    let names = team_names();
    proof {
        assert(names.deep_view() =~= spec_team_names());
    }
    let hi: usize = match home {
        Some(h) => match find_name_index(&names, h) {
            Some(i) => i,
            None => {
                let e = "Unknown home team: ".to_owned().concat(h);
                assert(e@ =~= "Unknown home team: "@ + h@);
                return Err(e);
            },
        },
        None => 0,
    };
    let ai: usize = match away {
        Some(a) => match find_name_index(&names, a) {
            Some(i) => i,
            None => {
                let e = "Unknown away team: ".to_owned().concat(a);
                assert(e@ =~= "Unknown away team: "@ + a@);
                return Err(e);
            },
        },
        None => 1,
    };
    let mut slots: Vec<TeamSlotDraft> = Vec::new();
    slots.push(TeamSlotDraft { is_cpu: home.is_none(), team_idx: hi });
    slots.push(TeamSlotDraft { is_cpu: away.is_none(), team_idx: ai });
    proof {
        assert(slots@ =~= seq![
            TeamSlotDraft { is_cpu: home is None, team_idx: hi },
            TeamSlotDraft { is_cpu: away is None, team_idx: ai },
        ]);
    }
    resolve_teams_from_slots(&slots, selection_seed)
}


proof fn lemma_fill_len(
    slots: Seq<TeamSlotDraft>,
    k: int,
    remaining: Seq<Seq<char>>,
    s: u64,
    out: Seq<Seq<char>>,
)
    requires
        0 <= k <= slots.len(),
    ensures
        spec_fill_slots(slots, k, remaining, s, out).0.len() == out.len() + slots.len() - k,
    decreases slots.len() - k,
{
    if k < slots.len() {
        let slot = slots[k];
        if slot.is_cpu {
            let i = spec_range_draw(s, remaining.len() as usize) as int;
            let s2 = spec_range_mix(s, remaining.len() as usize);
            lemma_fill_len(slots, k + 1, remaining.remove(i), s2, out.push(remaining[i]));
        } else {
            lemma_fill_len(
                slots,
                k + 1,
                remaining,
                s,
                out.push(spec_teams()[slot.team_idx as int].name),
            );
        }
    }
}

/// A resolved participant list has one name per slot.
pub proof fn lemma_resolve_len(slots: Seq<TeamSlotDraft>, seed: u64)
    requires
        spec_resolve_teams_from_slots(slots, seed) is Ok,
    ensures
        spec_resolve_teams_from_slots(slots, seed)->Ok_0.len() == slots.len(),
{
    match spec_scan_slots(slots, 0, Seq::empty(), 0) {
        Err(_) => {},
        Ok((seen, cpu)) => {
            let remaining = spec_filter_names(spec_team_names(), seen);
            if remaining.len() >= cpu {
                lemma_fill_len(slots, 0, remaining, spec_rng_new(seed), Seq::empty());
            }
        },
    }
}

/// Spec-level image of a session collection.
#[verifier::ext_equal]
pub ghost struct AppV {
    pub base_seed: u64,
    pub speed: Speed,
    pub instances: Seq<InstanceV>,
    pub selected: int,
    pub show_detail: bool,
    pub create_draft: Option<CreateDraftV>,
    pub status_line: Seq<char>,
    pub next_id: int,
}

/// The collection invariant: every session is well formed, the cap holds,
/// the selection points at a session whenever one exists, and an open draft
/// has the slot count its shape needs.
pub open spec fn app_wf(v: AppV) -> bool {
    &&& forall|j: int| 0 <= j < v.instances.len() ==> inst_wf(#[trigger] v.instances[j])
    &&& v.instances.len() <= 100
    &&& (v.instances.len() > 0 ==> 0 <= v.selected < v.instances.len())
    &&& (v.instances.len() == 0 ==> v.selected == 0)
    &&& match v.create_draft {
        Some(d) => {
            &&& d.slots.len() == spec_slot_count_for_mode(d.mode)
            &&& 0 <= d.selected_slot < d.slots.len()
            &&& forall|t: int|
                0 <= t < d.slots.len() ==> (#[trigger] d.slots[t]).team_idx < spec_teams().len()
        },
        None => true,
    }
    &&& 0 <= v.next_id
}

/// The ready banner a fresh collection shows.
pub open spec fn spec_ready_line(base_seed: u64, speed: Speed) -> Seq<char> {
    "Ready. Seed="@ + spec_u64_string(base_seed as int) + ", Speed="@ + spec_speed_label(speed)
}

/// The owned state behind a front end: the session collection with its
/// selection, speed, create dialog and status banner, and the id and seed
/// counters every operation derives from.
pub struct App {
    pub base_seed: u64,
    pub speed: Speed,
    pub instances: Vec<SimulationInstance>,
    pub selected: usize,
    pub show_detail: bool,
    pub create_draft: Option<CreateDraft>,
    pub status_line: String,
    next_id: usize,
}

impl View for App {
    type V = AppV;

    closed spec fn view(&self) -> AppV {
        AppV {
            base_seed: self.base_seed,
            speed: self.speed,
            instances: Seq::new(self.instances@.len(), |j: int| self.instances@[j]@),
            selected: self.selected as int,
            show_detail: self.show_detail,
            create_draft: match &self.create_draft {
                Some(d) => Some(d@),
                None => None,
            },
            status_line: self.status_line@,
            next_id: self.next_id as int,
        }
    }
}

impl App {
    /// An empty collection with a base seed and a speed.
    pub fn new(base_seed: u64, speed: Speed) -> (r: App)
        ensures
            r@ == (AppV {
                base_seed,
                speed,
                instances: Seq::empty(),
                selected: 0,
                show_detail: false,
                create_draft: None,
                status_line: spec_ready_line(base_seed, speed),
                next_id: 0,
            }),
            app_wf(r@),
    {
        let status = "Ready. Seed=".to_owned().concat(u64_to_string(base_seed).as_str()).concat(
            ", Speed=",
        ).concat(speed.label());
        assert(status@ =~= spec_ready_line(base_seed, speed));
        let r = App {
            base_seed,
            speed,
            instances: Vec::new(),
            selected: 0,
            show_detail: false,
            create_draft: None,
            status_line: status,
            next_id: 0,
        };
        proof {
            assert(r@.instances =~= Seq::<InstanceV>::empty());
            assert(r@ =~~= (AppV {
                base_seed,
                speed,
                instances: Seq::empty(),
                selected: 0,
                show_detail: false,
                create_draft: None,
                status_line: spec_ready_line(base_seed, speed),
                next_id: 0,
            }));
        }
        r
    }

    /// Opens the create dialog with a fresh draft for a shape.
    pub fn open_create_draft(&mut self, sim_type: SimulationType)
        requires
            app_wf(old(self)@),
        ensures
            final(self)@ == (AppV {
                create_draft: Some(spec_new_draft(sim_type)),
                status_line: "Create modal: "@ + spec_sim_type_str(sim_type),
                ..old(self)@
            }),
            app_wf(final(self)@),
    {
        self.create_draft = Some(CreateDraft::new(sim_type));
        let status = "Create modal: ".to_owned().concat(sim_type.as_str());
        assert(status@ =~= "Create modal: "@ + spec_sim_type_str(sim_type));
        self.status_line = status;
        proof {
            assert(self@ =~~= (AppV {
                create_draft: Some(spec_new_draft(sim_type)),
                status_line: "Create modal: "@ + spec_sim_type_str(sim_type),
                ..old(self)@
            }));
        }
    }

    /// Closes the create dialog without creating anything.
    pub fn cancel_create_draft(&mut self)
        requires
            app_wf(old(self)@),
        ensures
            final(self)@ == (AppV {
                create_draft: None,
                status_line: "Create canceled"@,
                ..old(self)@
            }),
            app_wf(final(self)@),
    {
        self.create_draft = None;
        self.status_line = "Create canceled".to_owned();
        proof {
            assert(self@ =~~= (AppV {
                create_draft: None,
                status_line: "Create canceled"@,
                ..old(self)@
            }));
        }
    }

    /// The seed the next created session would get.
    pub fn next_instance_seed_preview(&self) -> (r: u64)
        requires
            self@.next_id + 1 <= u64::MAX,
        ensures
            r == spec_derive_seed(self@.base_seed, (self@.next_id + 1) as u64),
    {
        derive_seed(self.base_seed, self.next_id as u64 + 1)
    }

    /// Moves the dialog selection to the previous slot, wrapping at the top.
    pub fn draft_select_prev_slot(&mut self)
        requires
            app_wf(old(self)@),
        ensures
            final(self)@ == (match old(self)@.create_draft {
                Some(d) => AppV {
                    create_draft: Some(CreateDraftV {
                        selected_slot: if d.selected_slot == 0 {
                            if d.slots.len() == 0 {
                                0int
                            } else {
                                d.slots.len() - 1
                            }
                        } else {
                            d.selected_slot - 1
                        },
                        ..d
                    }),
                    ..old(self)@
                },
                None => old(self)@,
            }),
            app_wf(final(self)@),
    {
        match &mut self.create_draft {
            None => {},
            Some(draft) => {
                if draft.selected_slot == 0 {
                    let n = draft.slots.len();
                    draft.selected_slot = if n == 0 {
                        0
                    } else {
                        n - 1
                    };
                } else {
                    draft.selected_slot = draft.selected_slot - 1;
                }
            },
        }
        proof {
            assert(self@ =~~= (match old(self)@.create_draft {
                Some(d) => AppV {
                    create_draft: Some(CreateDraftV {
                        selected_slot: if d.selected_slot == 0 {
                            if d.slots.len() == 0 {
                                0int
                            } else {
                                d.slots.len() - 1
                            }
                        } else {
                            d.selected_slot - 1
                        },
                        ..d
                    }),
                    ..old(self)@
                },
                None => old(self)@,
            }));
        }
    }

    /// Moves the dialog selection to the next slot, wrapping at the bottom.
    pub fn draft_select_next_slot(&mut self)
        requires
            app_wf(old(self)@),
        ensures
            final(self)@ == (match old(self)@.create_draft {
                Some(d) => if d.slots.len() == 0 {
                    old(self)@
                } else {
                    AppV {
                        create_draft: Some(CreateDraftV {
                            selected_slot: (d.selected_slot + 1) % (d.slots.len() as int),
                            ..d
                        }),
                        ..old(self)@
                    }
                },
                None => old(self)@,
            }),
            app_wf(final(self)@),
    {
        match &mut self.create_draft {
            None => {},
            Some(draft) => {
                if draft.slots.len() == 0 {
                } else {
                    draft.selected_slot = (draft.selected_slot + 1) % draft.slots.len();
                }
            },
        }
        proof {
            assert(self@ =~~= (match old(self)@.create_draft {
                Some(d) => if d.slots.len() == 0 {
                    old(self)@
                } else {
                    AppV {
                        create_draft: Some(CreateDraftV {
                            selected_slot: (d.selected_slot + 1) % (d.slots.len() as int),
                            ..d
                        }),
                        ..old(self)@
                    }
                },
                None => old(self)@,
            }));
        }
    }

    /// Marks the selected slot as a manual pick.
    pub fn draft_set_selected_manual(&mut self)
        requires
            app_wf(old(self)@),
        ensures
            final(self)@ == spec_set_slot_cpu(old(self)@, false),
            app_wf(final(self)@),
    {
        match &mut self.create_draft {
            None => {},
            Some(draft) => {
                if draft.selected_slot < draft.slots.len() {
                    let idx = draft.selected_slot;
                    let old_slot = draft.slots[idx];
                    let ghost before = draft.slots@;
                    let _ = draft.slots.remove(idx);
                    draft.slots.insert(idx, TeamSlotDraft { is_cpu: false, ..old_slot });
                    proof {
                        assert(draft.slots@ =~= before.update(
                            idx as int,
                            TeamSlotDraft { is_cpu: false, ..before[idx as int] },
                        ));
                    }
                }
            },
        }
        proof {
            assert(self@ =~~= spec_set_slot_cpu(old(self)@, false));
        }
    }

    /// Marks the selected slot as automatic.
    pub fn draft_set_selected_cpu(&mut self)
        requires
            app_wf(old(self)@),
        ensures
            final(self)@ == spec_set_slot_cpu(old(self)@, true),
            app_wf(final(self)@),
    {
        match &mut self.create_draft {
            None => {},
            Some(draft) => {
                if draft.selected_slot < draft.slots.len() {
                    let idx = draft.selected_slot;
                    let old_slot = draft.slots[idx];
                    let ghost before = draft.slots@;
                    let _ = draft.slots.remove(idx);
                    draft.slots.insert(idx, TeamSlotDraft { is_cpu: true, ..old_slot });
                    proof {
                        assert(draft.slots@ =~= before.update(
                            idx as int,
                            TeamSlotDraft { is_cpu: true, ..before[idx as int] },
                        ));
                    }
                }
            },
        }
        proof {
            assert(self@ =~~= spec_set_slot_cpu(old(self)@, true));
        }
    }

    /// Steps the selected manual slot through the catalog by `delta`,
    /// clamping a step past either end to the opposite end.
    pub fn draft_cycle_selected_team(&mut self, delta: i32)
        requires
            app_wf(old(self)@),
        ensures
            final(self)@ == spec_cycle_team(old(self)@, delta as int),
            app_wf(final(self)@),
    {
        let catalog_len = team_names().len();
        match &mut self.create_draft {
            None => {},
            Some(draft) => {
                if draft.selected_slot < draft.slots.len() {
                    let idx = draft.selected_slot;
                    let slot = draft.slots[idx];
                    if !slot.is_cpu {
                        let moved: i64 = slot.team_idx as i64 + delta as i64;
                        let new_idx: usize = if moved < 0 {
                            catalog_len - 1
                        } else if moved >= catalog_len as i64 {
                            0
                        } else {
                            moved as usize
                        };
                        let ghost before = draft.slots@;
                        let _ = draft.slots.remove(idx);
                        draft.slots.insert(idx, TeamSlotDraft { is_cpu: false, team_idx: new_idx });
                        proof {
                            assert(draft.slots@ =~= before.update(
                                idx as int,
                                TeamSlotDraft { is_cpu: false, team_idx: new_idx },
                            ));
                        }
                    }
                }
            },
        }
        proof {
            assert(self@ =~~= spec_cycle_team(old(self)@, delta as int));
        }
    }
}

/// The collection with the selected slot's automatic flag set, when the
/// dialog is open and the selection is in range.
pub open spec fn spec_set_slot_cpu(v: AppV, is_cpu: bool) -> AppV {
    match v.create_draft {
        Some(d) => if 0 <= d.selected_slot < d.slots.len() {
            AppV {
                create_draft: Some(CreateDraftV {
                    slots: d.slots.update(
                        d.selected_slot,
                        TeamSlotDraft { is_cpu, ..d.slots[d.selected_slot] },
                    ),
                    ..d
                }),
                ..v
            }
        } else {
            v
        },
        None => v,
    }
}

/// The collection with the selected manual slot stepped through the catalog:
/// a step below zero lands on the last team, a step past the end on the
/// first.
pub open spec fn spec_cycle_team(v: AppV, delta: int) -> AppV {
    match v.create_draft {
        Some(d) => if 0 <= d.selected_slot < d.slots.len() && !d.slots[d.selected_slot].is_cpu {
            let moved = d.slots[d.selected_slot].team_idx + delta;
            let new_idx: int = if moved < 0 {
                spec_teams().len() - 1
            } else if moved >= spec_teams().len() {
                0int
            } else {
                moved
            };
            AppV {
                create_draft: Some(CreateDraftV {
                    slots: d.slots.update(
                        d.selected_slot,
                        TeamSlotDraft { is_cpu: false, team_idx: new_idx as usize },
                    ),
                    ..d
                }),
                ..v
            }
        } else {
            v
        },
        None => v,
    }
}


spec fn insts_view(v: Seq<SimulationInstance>) -> Seq<InstanceV> {
    Seq::new(v.len(), |j: int| v[j]@)
}

/// The collection after confirming the create dialog: rejected at the cap,
/// a no-op without an open dialog, the first validation error reported in
/// the status line, or a new pending session appended and selected.
pub open spec fn spec_confirm_create(v: AppV) -> AppV {
    if v.instances.len() >= 100 {
        AppV { status_line: "Instance limit reached (100)"@, ..v }
    } else {
        match v.create_draft {
            None => v,
            Some(d) => {
                let id = v.next_id;
                let seed = spec_derive_seed(v.base_seed, (id + 1) as u64);
                match spec_resolve_teams_from_slots(d.slots, seed) {
                    Err(e) => AppV { status_line: e, ..v },
                    Ok(teams) => AppV {
                        instances: v.instances.push(spec_new_instance(id, d.mode, teams, seed)),
                        selected: v.instances.len() as int,
                        next_id: id + 1,
                        status_line: "Created sim-"@ + spec_u64_string(id),
                        create_draft: None,
                        ..v
                    },
                }
            },
        }
    }
}

impl App {
    /// Confirms the create dialog: validates the slots, derives the new
    /// session's seed from the base seed and its id, and appends a pending
    /// session — or reports the cap or the first validation error.
    pub fn confirm_create_draft(&mut self)
        requires
            app_wf(old(self)@),
            old(self)@.next_id + 1 <= usize::MAX,
        ensures
            final(self)@ == spec_confirm_create(old(self)@),
            app_wf(final(self)@),
    {
        if self.instances.len() >= MAX_INSTANCES {
            self.status_line = "Instance limit reached (100)".to_owned();
            proof {
                assert(self@ =~~= spec_confirm_create(old(self)@));
            }
            return ;
        }
        let id = self.next_id;
        let seed = derive_seed(self.base_seed, id as u64 + 1);
        let (mode, resolved) = match &self.create_draft {
            None => {
                proof {
                    assert(self@ =~~= spec_confirm_create(old(self)@));
                }
                return ;
            },
            Some(draft) => (draft.mode, resolve_teams_from_slots(&draft.slots, seed)),
        };
        match resolved {
            Err(e) => {
                self.status_line = e;
                proof {
                    assert(self@ =~~= spec_confirm_create(old(self)@));
                }
            },
            Ok(teams) => {
                proof {
                    lemma_resolve_len(old(self)@.create_draft->0.slots, seed);
                }
                let inst = SimulationInstance::new(id, mode, teams, seed);
                let ghost before = insts_view(self.instances@);
                self.instances.push(inst);
                proof {
                    assert(insts_view(self.instances@) =~= before.push(
                        spec_new_instance(
                            id as int,
                            mode,
                            spec_resolve_teams_from_slots(
                                old(self)@.create_draft->0.slots,
                                seed,
                            )->Ok_0,
                            seed,
                        ),
                    ));
                }
                self.selected = self.instances.len() - 1;
                self.next_id = id + 1;
                let status = "Created sim-".to_owned().concat(u64_to_string(id as u64).as_str());
                assert(status@ =~= "Created sim-"@ + spec_u64_string(id as int));
                self.status_line = status;
                self.create_draft = None;
                proof {
                    assert(self@ =~~= spec_confirm_create(old(self)@));
                }
            },
        }
    }

    /// Starts the selected session, if there is one.
    pub fn start_selected(&mut self)
        requires
            app_wf(old(self)@),
        ensures
            final(self)@ == (if old(self)@.instances.len() == 0 {
                old(self)@
            } else {
                AppV {
                    instances: old(self)@.instances.update(
                        old(self)@.selected,
                        spec_start(old(self)@.instances[old(self)@.selected]),
                    ),
                    status_line: "Started sim-"@ + spec_u64_string(
                        old(self)@.instances[old(self)@.selected].id,
                    ),
                    ..old(self)@
                }
            }),
            app_wf(final(self)@),
    {
        if self.selected < self.instances.len() {
            let ghost before = insts_view(self.instances@);
            let sel = self.selected;
            let mut inst = self.instances.remove(sel);
            inst.start();
            let status = "Started sim-".to_owned().concat(u64_to_string(inst.id as u64).as_str());
            assert(status@ =~= "Started sim-"@ + spec_u64_string(
                old(self)@.instances[old(self)@.selected].id,
            ));
            self.instances.insert(sel, inst);
            self.status_line = status;
            proof {
                assert(insts_view(self.instances@) =~= before.update(
                    sel as int,
                    spec_start(before[sel as int]),
                ));
                assert(self@ =~~= (AppV {
                    instances: old(self)@.instances.update(
                        old(self)@.selected,
                        spec_start(old(self)@.instances[old(self)@.selected]),
                    ),
                    status_line: "Started sim-"@ + spec_u64_string(
                        old(self)@.instances[old(self)@.selected].id,
                    ),
                    ..old(self)@
                }));
            }
        }
    }

    /// Clones the selected session under a new id and a freshly derived
    /// seed; rejected at the cap.
    pub fn clone_selected(&mut self)
        requires
            app_wf(old(self)@),
            old(self)@.next_id + 1 <= usize::MAX,
        ensures
            final(self)@ == (if old(self)@.instances.len() >= 100 {
                AppV { status_line: "Instance limit reached (100)"@, ..old(self)@ }
            } else if old(self)@.instances.len() == 0 {
                old(self)@
            } else {
                let ex = old(self)@.instances[old(self)@.selected];
                let nid = old(self)@.next_id;
                let nseed = spec_derive_seed(old(self)@.base_seed, (nid + 1) as u64);
                AppV {
                    instances: old(self)@.instances.push(
                        spec_new_instance(nid, ex.sim_type, ex.teams, nseed),
                    ),
                    selected: old(self)@.instances.len() as int,
                    next_id: nid + 1,
                    status_line: "Cloned sim-"@ + spec_u64_string(ex.id) + " -> sim-"@
                        + spec_u64_string(nid),
                    ..old(self)@
                }
            }),
            app_wf(final(self)@),
    {
        if self.instances.len() >= MAX_INSTANCES {
            self.status_line = "Instance limit reached (100)".to_owned();
            proof {
                assert(self@ =~~= (AppV {
                    status_line: "Instance limit reached (100)"@,
                    ..old(self)@
                }));
            }
            return ;
        }
        if self.selected < self.instances.len() {
            let new_id = self.next_id;
            let new_seed = derive_seed(self.base_seed, new_id as u64 + 1);
            let existing = &self.instances[self.selected];
            let old_id = existing.id;
            let cloned = existing.clone_as(new_id, new_seed);
            let ghost before = insts_view(self.instances@);
            let ghost clv = cloned@;
            self.instances.push(cloned);
            proof {
                assert(insts_view(self.instances@) =~= before.push(clv));
            }
            self.selected = self.instances.len() - 1;
            self.next_id = new_id + 1;
            let status = "Cloned sim-"
                .to_owned()
                .concat(u64_to_string(old_id as u64).as_str())
                .concat(" -> sim-")
                .concat(u64_to_string(new_id as u64).as_str());
            assert(status@ =~= "Cloned sim-"@ + spec_u64_string(
                old(self)@.instances[old(self)@.selected].id,
            ) + " -> sim-"@ + spec_u64_string(new_id as int));
            self.status_line = status;
            proof {
                let ex = old(self)@.instances[old(self)@.selected];
                let nid = old(self)@.next_id;
                let nseed = spec_derive_seed(old(self)@.base_seed, (nid + 1) as u64);
                assert(self@ =~~= (AppV {
                    instances: old(self)@.instances.push(
                        spec_new_instance(nid, ex.sim_type, ex.teams, nseed),
                    ),
                    selected: old(self)@.instances.len() as int,
                    next_id: nid + 1,
                    status_line: "Cloned sim-"@ + spec_u64_string(ex.id) + " -> sim-"@
                        + spec_u64_string(nid),
                    ..old(self)@
                }));
            }
        }
    }

    /// Deletes the selected session; the selection falls back to the new
    /// last session when it pointed past the end.
    pub fn delete_selected(&mut self)
        requires
            app_wf(old(self)@),
        ensures
            final(self)@ == (if old(self)@.instances.len() == 0 {
                old(self)@
            } else {
                let rest = old(self)@.instances.remove(old(self)@.selected);
                AppV {
                    instances: rest,
                    selected: if old(self)@.selected >= rest.len() {
                        if rest.len() == 0 {
                            0int
                        } else {
                            rest.len() - 1
                        }
                    } else {
                        old(self)@.selected
                    },
                    status_line: "Deleted sim-"@ + spec_u64_string(
                        old(self)@.instances[old(self)@.selected].id,
                    ),
                    ..old(self)@
                }
            }),
            app_wf(final(self)@),
    {
        if self.instances.len() == 0 {
            return ;
        }
        let ghost before = insts_view(self.instances@);
        let removed = self.instances.remove(self.selected);
        proof {
            assert(insts_view(self.instances@) =~= before.remove(old(self)@.selected));
        }
        if self.selected >= self.instances.len() {
            let n = self.instances.len();
            self.selected = if n == 0 {
                0
            } else {
                n - 1
            };
        }
        let status = "Deleted sim-".to_owned().concat(u64_to_string(removed.id as u64).as_str());
        assert(status@ =~= "Deleted sim-"@ + spec_u64_string(
            old(self)@.instances[old(self)@.selected].id,
        ));
        self.status_line = status;
        proof {
            let rest = old(self)@.instances.remove(old(self)@.selected);
            assert(self@ =~~= (AppV {
                instances: rest,
                selected: if old(self)@.selected >= rest.len() {
                    if rest.len() == 0 {
                        0int
                    } else {
                        rest.len() - 1
                    }
                } else {
                    old(self)@.selected
                },
                status_line: "Deleted sim-"@ + spec_u64_string(
                    old(self)@.instances[old(self)@.selected].id,
                ),
                ..old(self)@
            }));
        }
    }

    /// The export of the selected session: its CSV bytes under its file
    /// name, the not-yet-run error, or nothing when no session is selected.
    /// Writing the bytes anywhere is the caller's business.
    pub fn export_selected(&self) -> (r: Option<Result<(String, Vec<u8>), String>>)
        requires
            app_wf(self@),
        ensures
            match r {
                None => self@.selected >= self@.instances.len(),
                Some(Err(e)) => self@.selected < self@.instances.len()
                    && self@.instances[self@.selected].prepared is None && e@
                    == "Simulation has not run yet"@,
                Some(Ok(out)) => {
                    let inst = self@.instances[self@.selected];
                    &&& self@.selected < self@.instances.len()
                    &&& inst.prepared is Some
                    &&& out.0@ == "sim-"@ + spec_u64_string(inst.id) + "-"@ + spec_sim_type_str(
                        inst.sim_type,
                    ) + ".csv"@
                    &&& out.1@ == vstd::utf8::encode_utf8(
                        crate::export::spec_simulation_csv(inst.prepared->0),
                    )
                },
            },
    {
        if self.selected < self.instances.len() {
            let inst = &self.instances[self.selected];
            match inst.export_csv() {
                Ok(bytes) => {
                    let fname = "sim-"
                        .to_owned()
                        .concat(u64_to_string(inst.id as u64).as_str())
                        .concat("-")
                        .concat(inst.sim_type.as_str())
                        .concat(".csv");
                    assert(fname@ =~= "sim-"@ + spec_u64_string(
                        self@.instances[self@.selected].id,
                    ) + "-"@ + spec_sim_type_str(self@.instances[self@.selected].sim_type)
                        + ".csv"@);
                    Some(Ok((fname, bytes)))
                },
                Err(e) => Some(Err(e)),
            }
        } else {
            None
        }
    }

    /// Sets the playback speed.
    pub fn cycle_speed(&mut self, speed: Speed)
        requires
            app_wf(old(self)@),
        ensures
            final(self)@ == (AppV {
                speed,
                status_line: "Speed set to "@ + spec_speed_label(speed),
                ..old(self)@
            }),
            app_wf(final(self)@),
    {
        self.speed = speed;
        let status = "Speed set to ".to_owned().concat(speed.label());
        assert(status@ =~= "Speed set to "@ + spec_speed_label(speed));
        self.status_line = status;
        proof {
            assert(self@ =~~= (AppV {
                speed,
                status_line: "Speed set to "@ + spec_speed_label(speed),
                ..old(self)@
            }));
        }
    }

    /// One cadence tick: every running session advances by the current
    /// speed's frame count.
    #[verifier::rlimit(100)]
    pub fn tick(&mut self)
        requires
            app_wf(old(self)@),
        ensures
            final(self)@ == (AppV {
                instances: Seq::new(
                    old(self)@.instances.len(),
                    |j: int|
                        if old(self)@.instances[j].status is Running {
                            spec_tick(
                                old(self)@.instances[j],
                                spec_frames_per_tick(old(self)@.speed),
                            )
                        } else {
                            old(self)@.instances[j]
                        },
                ),
                ..old(self)@
            }),
            app_wf(final(self)@),
    {
        let frames = self.speed.frames_per_tick();
        let mut i: usize = 0;
        while i < self.instances.len()
            invariant
                app_wf(old(self)@),
                i <= self.instances@.len(),
                self.instances@.len() == old(self)@.instances.len(),
                frames as int == spec_frames_per_tick(old(self)@.speed),
                self@ == (AppV { instances: self@.instances, ..old(self)@ }),
                forall|j: int|
                    0 <= j < i ==> #[trigger] insts_view(self.instances@)[j] == (
                    if old(self)@.instances[j].status is Running {
                        spec_tick(old(self)@.instances[j], spec_frames_per_tick(old(self)@.speed))
                    } else {
                        old(self)@.instances[j]
                    }),
                forall|j: int|
                    i <= j < self.instances@.len() ==> #[trigger] insts_view(self.instances@)[j]
                        == old(self)@.instances[j],
                forall|j: int|
                    0 <= j < self.instances@.len() ==> inst_wf(
                        #[trigger] insts_view(self.instances@)[j],
                    ),
            decreases self.instances@.len() - i,
        {
            let ghost before = insts_view(self.instances@);
            proof {
                assert(before[i as int] == old(self)@.instances[i as int]);
                assert(inst_wf(before[i as int]));
            }
            let mut inst = self.instances.remove(i);
            proof {
                assert(inst@ == before[i as int]);
            }
            let running = match inst.status {
                crate::instance::SimStatus::Running { frame_index: _, total_frames: _ } => true,
                _ => false,
            };
            if running {
                inst.tick(frames);
            }
            let ghost newv = inst@;
            self.instances.insert(i, inst);
            proof {
                assert(insts_view(self.instances@) =~= before.update(i as int, newv));
            }
            i = i + 1;
        }
        proof {
            assert(self@.instances =~= insts_view(self.instances@));
            assert(self@.instances =~= Seq::new(
                old(self)@.instances.len(),
                |j: int|
                    if old(self)@.instances[j].status is Running {
                        spec_tick(old(self)@.instances[j], spec_frames_per_tick(old(self)@.speed))
                    } else {
                        old(self)@.instances[j]
                    },
            ));
            assert(self@ =~~= (AppV {
                instances: Seq::new(
                    old(self)@.instances.len(),
                    |j: int|
                        if old(self)@.instances[j].status is Running {
                            spec_tick(
                                old(self)@.instances[j],
                                spec_frames_per_tick(old(self)@.speed),
                            )
                        } else {
                            old(self)@.instances[j]
                        },
                ),
                ..old(self)@
            }));
        }
    }

    /// The selected session, if one exists.
    pub fn selected_instance(&self) -> (r: Option<&SimulationInstance>)
        ensures
            match r {
                Some(inst) => self@.selected < self@.instances.len() && inst@
                    == self@.instances[self@.selected],
                None => self@.selected >= self@.instances.len(),
            },
    {
        if self.selected < self.instances.len() {
            Some(&self.instances[self.selected])
        } else {
            None
        }
    }

    /// Moves the selection up, wrapping at the top.
    pub fn select_prev(&mut self)
        requires
            app_wf(old(self)@),
        ensures
            final(self)@ == (if old(self)@.instances.len() == 0 {
                old(self)@
            } else {
                AppV {
                    selected: if old(self)@.selected == 0 {
                        old(self)@.instances.len() - 1
                    } else {
                        old(self)@.selected - 1
                    },
                    ..old(self)@
                }
            }),
            app_wf(final(self)@),
    {
        if self.instances.len() == 0 {
            return ;
        }
        if self.selected == 0 {
            self.selected = self.instances.len() - 1;
        } else {
            self.selected = self.selected - 1;
        }
        proof {
            assert(self@ =~~= (AppV {
                selected: if old(self)@.selected == 0 {
                    old(self)@.instances.len() - 1
                } else {
                    old(self)@.selected - 1
                },
                ..old(self)@
            }));
        }
    }

    /// Moves the selection down, wrapping at the bottom.
    pub fn select_next(&mut self)
        requires
            app_wf(old(self)@),
        ensures
            final(self)@ == (if old(self)@.instances.len() == 0 {
                old(self)@
            } else {
                AppV {
                    selected: (old(self)@.selected + 1) % (old(self)@.instances.len() as int),
                    ..old(self)@
                }
            }),
            app_wf(final(self)@),
    {
        if self.instances.len() == 0 {
            return ;
        }
        self.selected = (self.selected + 1) % self.instances.len();
        proof {
            assert(self@ =~~= (AppV {
                selected: (old(self)@.selected + 1) % (old(self)@.instances.len() as int),
                ..old(self)@
            }));
        }
    }
}

} // verus!
