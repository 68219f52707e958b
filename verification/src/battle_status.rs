//! The status panel of the battle screen: the names of the enemies still in
//! view, each member's name, level and gauges as last shown, the enemy or
//! member being pointed at, and the prompt of the command being chosen.
use vstd::prelude::*;
use crate::battle_input::{phase_member, CommandInput, InputPhase};
use crate::battle_messages::{decimal, decimal_text, enemy_display_names, enemy_label, unsigned_text};
use crate::battle_screen::BattleDisplay;
use crate::combat::{alive_list, BattleState};
use crate::party::{member_name, PartyMember};

verus! {

/// A member's lines in the panel.
#[derive(Debug)]
pub struct MemberLines {
    /// `name Lv.N`.
    pub name_line: String,
    /// `HP:shown/max`.
    pub hp_line: String,
    /// `MP:shown/max`.
    pub mp_line: String,
    /// The member is the one being pointed at as the target of a spell or
    /// item.
    pub highlighted: bool,
}

/// What the status panel shows.
#[derive(Debug)]
pub struct StatusPanel {
    /// For each enemy, its name while it is in view.
    pub enemy_labels: Vec<Option<String>>,
    /// For each member, its lines.
    pub members: Vec<MemberLines>,
    /// The enemy under the target cursor, while an enemy is being chosen.
    pub target_cursor: Option<usize>,
    /// The question asked of the player.
    pub prompt: String,
}

/// An enemy out of the list of hidden flags counts as hidden.
pub open spec fn hidden_at(h: Seq<bool>, i: int) -> bool {
    if 0 <= i < h.len() {
        h[i]
    } else {
        true
    }
}

/// A shown gauge value, zero where none is kept.
pub open spec fn shown_at(v: Seq<i32>, i: int) -> i32 {
    if 0 <= i < v.len() {
        v[i]
    } else {
        0
    }
}

/// `name Lv.N`.
pub open spec fn name_level_line(m: PartyMember) -> Seq<char> {
    member_name(m.kind)@ + " Lv."@ + decimal(m.level as int)
}

/// `tag shown/max`.
pub open spec fn gauge_line(tag: Seq<char>, shown: i32, max: i32) -> Seq<char> {
    tag + decimal(shown as int) + "/"@ + decimal(max as int)
}

/// The member at position `i` of the party is the chosen ally target.
pub open spec fn ally_pointed(state: BattleState, input: CommandInput, i: int) -> bool {
    let alive = alive_list(state.model().party_stats);
    &&& input.phase is AllyTargetSelect
    &&& input.ally_target_offset < alive.len()
    &&& alive[input.ally_target_offset as int] == i
}

/// The enemy under the cursor while an enemy target is chosen.
pub open spec fn pointed_enemy(state: BattleState, input: CommandInput) -> Option<usize> {
    let alive = alive_list(state.model().enemy_stats);
    if input.phase is TargetSelect && input.target_offset < alive.len() {
        Some(alive[input.target_offset as int])
    } else {
        None
    }
}

/// The question asked in a phase of choosing.
pub open spec fn prompt_text(party: Seq<PartyMember>, phase: InputPhase, spell_waits: bool) -> Seq<char> {
    match phase {
        InputPhase::CommandSelect { member_index } => member_name(party[member_index as int].kind)@ + "の コマンド？"@,
        InputPhase::SpellSelect { member_index } => member_name(party[member_index as int].kind)@ + "は どの じゅもんを つかう？"@,
        InputPhase::ItemSelect { member_index } => member_name(party[member_index as int].kind)@ + "は どの どうぐを つかう？"@,
        InputPhase::TargetSelect { .. } => if spell_waits {
            "だれに つかう？"@
        } else {
            "だれに こうげきする？"@
        },
        InputPhase::AllyTargetSelect { .. } => "だれに つかう？"@,
    }
}

/// The lines of one member.
pub open spec fn member_lines_ok(l: MemberLines, state: BattleState, display: BattleDisplay, input: CommandInput, i: int) -> bool {
    let m = state.party@[i];
    &&& l.name_line@ == name_level_line(m)
    &&& l.hp_line@ == gauge_line("HP:"@, shown_at(display.party_hp@, i), m.stats.max_hp)
    &&& l.mp_line@ == gauge_line("MP:"@, shown_at(display.party_mp@, i), m.stats.max_mp)
    &&& l.highlighted == ally_pointed(state, input, i)
}

/// A gauge line.
fn gauge_text(tag: &str, shown: i32, max: i32) -> (r: String)
    ensures
        r@ == gauge_line(tag@, shown, max),
{
    let mut s = String::from_str(tag);
    let a = decimal_text(shown);
    s.append(a.as_str());
    s.append("/");
    let b = decimal_text(max);
    s.append(b.as_str());
    s
}

/// The question asked of the player in the phase of choosing the command
/// input is in.
pub fn prompt_line(party: &Vec<PartyMember>, input: &CommandInput) -> (r: String)
    requires
        input.phase is CommandSelect || input.phase is SpellSelect || input.phase is ItemSelect ==> phase_member(input.phase) < party@.len(),
    ensures
        r@ == prompt_text(party@, input.phase, input.pending_spell is Some),
{
    match input.phase {
        InputPhase::CommandSelect { member_index } => {
            let mut s = String::from_str(party[member_index].kind.name());
            s.append("の コマンド？");
            s
        },
        InputPhase::SpellSelect { member_index } => {
            let mut s = String::from_str(party[member_index].kind.name());
            s.append("は どの じゅもんを つかう？");
            s
        },
        InputPhase::ItemSelect { member_index } => {
            let mut s = String::from_str(party[member_index].kind.name());
            s.append("は どの どうぐを つかう？");
            s
        },
        InputPhase::TargetSelect { .. } => {
            if input.pending_spell.is_some() {
                String::from_str("だれに つかう？")
            } else {
                String::from_str("だれに こうげきする？")
            }
        },
        InputPhase::AllyTargetSelect { .. } => String::from_str("だれに つかう？"),
    }
}

/// Fills the status panel from the battle, the values the screen shows and
/// the state of the command input.
pub fn status_panel(state: &BattleState, display: &BattleDisplay, input: &CommandInput) -> (r: StatusPanel)
    requires
        input.phase is CommandSelect || input.phase is SpellSelect || input.phase is ItemSelect ==> phase_member(input.phase) < state.party@.len(),
    ensures
        r.enemy_labels@.len() == state.enemies@.len(),
        forall|i: int| 0 <= i < state.enemies@.len() ==> match #[trigger] r.enemy_labels@[i] {
            Some(name) => !hidden_at(display.hidden_enemies@, i) && name@ == enemy_label(state.enemies@, i),
            None => hidden_at(display.hidden_enemies@, i),
        },
        r.members@.len() == state.party@.len(),
        forall|i: int| 0 <= i < state.party@.len() ==> member_lines_ok(#[trigger] r.members@[i], *state, *display, *input, i),
        r.target_cursor == pointed_enemy(*state, *input),
        r.prompt@ == prompt_text(state.party@, input.phase, input.pending_spell is Some),
{
    let names = enemy_display_names(state.enemies.as_slice());
    let mut enemy_labels: Vec<Option<String>> = Vec::new();
    let mut i: usize = 0;
    while i < state.enemies.len()
        invariant
            i <= state.enemies@.len(),
            names@.len() == state.enemies@.len(),
            forall|j: int| 0 <= j < state.enemies@.len() ==> (#[trigger] names@[j])@ == enemy_label(state.enemies@, j),
            enemy_labels@.len() == i,
            forall|j: int| 0 <= j < i ==> match #[trigger] enemy_labels@[j] {
                Some(name) => !hidden_at(display.hidden_enemies@, j) && name@ == enemy_label(state.enemies@, j),
                None => hidden_at(display.hidden_enemies@, j),
            },
        decreases state.enemies@.len() - i,
    {
        let hidden = if i < display.hidden_enemies.len() { display.hidden_enemies[i] } else { true };
        if hidden {
            enemy_labels.push(None);
        } else {
            let name = names[i].clone();
            enemy_labels.push(Some(name));
        }
        i = i + 1;
    }
    let living = state.alive_party_indices();
    let pointed: Option<usize> = match input.phase {
        InputPhase::AllyTargetSelect { .. } => if input.ally_target_offset < living.len() {
            Some(living[input.ally_target_offset])
        } else {
            None
        },
        _ => None,
    };
    let mut members: Vec<MemberLines> = Vec::new();
    let mut k: usize = 0;
    while k < state.party.len()
        invariant
            k <= state.party@.len(),
            living@ == alive_list(state.model().party_stats),
            pointed == (if input.phase is AllyTargetSelect && input.ally_target_offset < living@.len() {
                Some(living@[input.ally_target_offset as int])
            } else {
                None::<usize>
            }),
            members@.len() == k,
            forall|j: int| 0 <= j < k ==> member_lines_ok(#[trigger] members@[j], *state, *display, *input, j),
        decreases state.party@.len() - k,
    {
        let m = &state.party[k];
        let mut name_line = String::from_str(m.kind.name());
        name_line.append(" Lv.");
        let lv = unsigned_text(m.level as u64);
        name_line.append(lv.as_str());
        let hp: i32 = if k < display.party_hp.len() { display.party_hp[k] } else { 0 };
        let mp: i32 = if k < display.party_mp.len() { display.party_mp[k] } else { 0 };
        let hp_line = gauge_text("HP:", hp, m.stats.max_hp);
        let mp_line = gauge_text("MP:", mp, m.stats.max_mp);
        let highlighted = match pointed {
            Some(p) => p == k,
            None => false,
        };
        let lines = MemberLines { name_line, hp_line, mp_line, highlighted };
        proof {
            assert(lines.name_line@ == name_level_line(state.party@[k as int]));
        }
        members.push(lines);
        k = k + 1;
    }
    let alive_enemies = state.alive_enemy_indices();
    let target_cursor: Option<usize> = match input.phase {
        InputPhase::TargetSelect { .. } => if input.target_offset < alive_enemies.len() {
            Some(alive_enemies[input.target_offset])
        } else {
            None
        },
        _ => None,
    };
    let prompt = prompt_line(&state.party, input);
    StatusPanel { enemy_labels, members, target_cursor, prompt }
}

} // verus!
