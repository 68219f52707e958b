//! The spell menu of the field: pick a caster among the living, one of the
//! spells the caster knows, then a living target. Spells aimed at enemies
//! do nothing outside battle; every other spell restores HP by its power.
use vstd::prelude::*;
use crate::battle_messages::{decimal, decimal_text};
use crate::battle_spell::{
    available_spells, calculate_heal_amount, learn_table_spec, mp_cost_spec, power_spec, spell_name_spec, target_spec,
    SpellKind,
};
use crate::combat::{alive_list, lemma_alive_list};
use crate::formula::scaled_amount;
use crate::menu_keys::{clamped_cursor, move_clamped, KeyPresses};
use crate::party::{member_name, PartyMember, PartyMemberKind};
use crate::spell::{learned_by, pick_spells};
use crate::stats::CombatStats;

verus! {

/// The step of the spell menu.
#[derive(Debug, Clone, Copy, PartialEq, Eq, Structural)]
pub enum FieldSpellPhase {
    CasterSelect,
    SpellSelect,
    TargetSelect,
    ShowMessage,
}

/// What the screen has to do after a frame of the spell menu.
#[derive(Debug, Clone, Copy, PartialEq, Eq, Structural)]
pub enum MenuAction {
    Nothing,
    OpenMenu,
    CloseMenu,
}

/// The open spell menu.
#[derive(Debug)]
pub struct FieldSpellState {
    pub phase: FieldSpellPhase,
    /// Living members, by index in the party.
    pub caster_candidates: Vec<usize>,
    pub caster_cursor: usize,
    /// The caster, by index in the party.
    pub selected_caster: usize,
    pub spell_candidates: Vec<SpellKind>,
    pub spell_cursor: usize,
    /// Living members, by index in the party.
    pub target_candidates: Vec<usize>,
    pub target_cursor: usize,
    pub message: String,
}

/// The values of an open spell menu.
#[verifier::ext_equal]
pub struct SpellMenuView {
    pub phase: FieldSpellPhase,
    pub caster_candidates: Seq<usize>,
    pub caster_cursor: usize,
    pub selected_caster: usize,
    pub spell_candidates: Seq<SpellKind>,
    pub spell_cursor: usize,
    pub target_candidates: Seq<usize>,
    pub target_cursor: usize,
    pub message: Seq<char>,
}

impl View for FieldSpellState {
    type V = SpellMenuView;

    open spec fn view(&self) -> SpellMenuView {
        SpellMenuView {
            phase: self.phase,
            caster_candidates: self.caster_candidates@,
            caster_cursor: self.caster_cursor,
            selected_caster: self.selected_caster,
            spell_candidates: self.spell_candidates@,
            spell_cursor: self.spell_cursor,
            target_candidates: self.target_candidates@,
            target_cursor: self.target_cursor,
            message: self.message@,
        }
    }
}

/// The menu's values, or `None` while it is closed.
pub open spec fn menu_view(m: Option<FieldSpellState>) -> Option<SpellMenuView> {
    match m {
        Some(s) => Some(s@),
        None => None,
    }
}

/// The statistics of each member.
pub open spec fn stats_of(ms: Seq<PartyMember>) -> Seq<CombatStats> {
    ms.map_values(|m: PartyMember| m.stats)
}

/// No member has more HP than its maximum.
pub open spec fn hp_within_max(ms: Seq<PartyMember>) -> bool {
    forall|i: int| 0 <= i < ms.len() ==> (#[trigger] ms[i]).stats.hp <= ms[i].stats.max_hp
}

/// The spells a member knows at its level.
pub open spec fn known_spells(m: PartyMember) -> Seq<SpellKind> {
    pick_spells(learn_table_spec(m.kind), learned_by(m.level))
}

/// A spell aimed at the caster's enemies.
pub open spec fn aimed_at_enemies(k: SpellKind) -> bool {
    target_spec(k) is SingleEnemy || target_spec(k) is AllEnemies
}

/// HP after healing, capped at the maximum.
pub open spec fn healed_hp(s: CombatStats, amount: int) -> i32 {
    if s.hp + amount < s.max_hp { (s.hp + amount) as i32 } else { s.max_hp }
}

/// The line shown after a spell heals someone.
pub open spec fn heal_message(caster: PartyMemberKind, spell: SpellKind, target: PartyMemberKind, amount: int) -> Seq<char> {
    member_name(caster)@ + "は "@ + spell_name_spec(spell)@ + "を となえた！\n"@ + member_name(target)@ + "の HPが "@
        + decimal(amount) + "かいふく！"@
}

/// The line shown when the chosen caster knows no spell.
pub open spec fn no_spell_message() -> Seq<char> {
    "じゅもんを おぼえていない"@
}

/// The line shown when a spell only works in battle.
pub open spec fn battle_only_message() -> Seq<char> {
    "フィールドでは つかえない"@
}

/// Every index of `v` names a member.
pub open spec fn indices_in(v: Seq<usize>, n: int) -> bool {
    forall|k: int| 0 <= k < v.len() ==> #[trigger] v[k] < n
}

/// What holds of an open menu while the party is `ms`: the lists the
/// current step reads are not empty, the cursors point into them, every
/// index names a member, the listed casters are alive, and so is the
/// chosen caster once spells are shown.
pub open spec fn menu_ok(v: SpellMenuView, ms: Seq<PartyMember>) -> bool {
    &&& v.caster_candidates.len() > 0
    &&& v.caster_cursor < v.caster_candidates.len()
    &&& indices_in(v.caster_candidates, ms.len() as int)
    &&& forall|k: int| 0 <= k < v.caster_candidates.len() ==> ms[#[trigger] v.caster_candidates[k] as int].stats.hp > 0
    &&& (v.phase is SpellSelect || v.phase is TargetSelect) ==> {
        &&& v.selected_caster < ms.len()
        &&& ms[v.selected_caster as int].stats.hp > 0
        &&& v.spell_candidates.len() > 0
        &&& v.spell_cursor < v.spell_candidates.len()
    }
    &&& v.phase is TargetSelect ==> {
        &&& v.target_candidates.len() > 0
        &&& v.target_cursor < v.target_candidates.len()
        &&& indices_in(v.target_candidates, ms.len() as int)
    }
}

/// The menu is closed, or open and in order.
pub open spec fn menu_state_ok(m: Option<SpellMenuView>, ms: Seq<PartyMember>) -> bool {
    match m {
        Some(v) => menu_ok(v, ms),
        None => true,
    }
}

/// A frame while the menu is closed: confirming opens it on the living
/// members, if any.
pub open spec fn closed_step(ms: Seq<PartyMember>, keys: KeyPresses) -> (Option<SpellMenuView>, MenuAction) {
    let living = alive_list(stats_of(ms));
    if keys.confirm && living.len() > 0 {
        (
            Some(
                SpellMenuView {
                    phase: FieldSpellPhase::CasterSelect,
                    caster_candidates: living,
                    caster_cursor: 0,
                    selected_caster: 0,
                    spell_candidates: Seq::empty(),
                    spell_cursor: 0,
                    target_candidates: Seq::empty(),
                    target_cursor: 0,
                    message: Seq::empty(),
                },
            ),
            MenuAction::OpenMenu,
        )
    } else {
        (None, MenuAction::Nothing)
    }
}

/// A frame of choosing the caster.
pub open spec fn caster_step(v: SpellMenuView, ms: Seq<PartyMember>, keys: KeyPresses) -> (Option<SpellMenuView>, MenuAction) {
    let c = clamped_cursor(v.caster_cursor, v.caster_candidates.len() as int, keys.up, keys.down);
    let v1 = SpellMenuView { caster_cursor: c, ..v };
    if keys.cancel {
        (None, MenuAction::CloseMenu)
    } else if keys.confirm {
        let who = v1.caster_candidates[c as int];
        let spells = known_spells(ms[who as int]);
        if spells.len() == 0 {
            (
                Some(SpellMenuView { selected_caster: who, message: no_spell_message(), phase: FieldSpellPhase::ShowMessage, ..v1 }),
                MenuAction::Nothing,
            )
        } else {
            (
                Some(
                    SpellMenuView {
                        selected_caster: who,
                        spell_candidates: spells,
                        spell_cursor: 0,
                        phase: FieldSpellPhase::SpellSelect,
                        ..v1
                    },
                ),
                MenuAction::Nothing,
            )
        }
    } else {
        (Some(v1), MenuAction::Nothing)
    }
}

/// A frame of choosing the spell.
pub open spec fn spell_step(v: SpellMenuView, ms: Seq<PartyMember>, keys: KeyPresses) -> SpellMenuView {
    let c = clamped_cursor(v.spell_cursor, v.spell_candidates.len() as int, keys.up, keys.down);
    let v1 = SpellMenuView { spell_cursor: c, ..v };
    if keys.cancel {
        SpellMenuView { phase: FieldSpellPhase::CasterSelect, ..v1 }
    } else if keys.confirm {
        let spell = v1.spell_candidates[c as int];
        if ms[v1.selected_caster as int].stats.mp < mp_cost_spec(spell) {
            v1
        } else if aimed_at_enemies(spell) {
            SpellMenuView { message: battle_only_message(), phase: FieldSpellPhase::ShowMessage, ..v1 }
        } else {
            SpellMenuView {
                target_candidates: alive_list(stats_of(ms)),
                target_cursor: 0,
                phase: FieldSpellPhase::TargetSelect,
                ..v1
            }
        }
    } else {
        v1
    }
}

/// The party after `caster` spends `cost` MP.
pub open spec fn after_cost(ms: Seq<PartyMember>, caster: int, cost: int) -> Seq<PartyMember> {
    ms.update(caster, PartyMember { stats: CombatStats { mp: (ms[caster].stats.mp - cost) as i32, ..ms[caster].stats }, ..ms[caster] })
}

/// The party after `target` is healed by `amount`.
pub open spec fn after_heal(ms: Seq<PartyMember>, target: int, amount: int) -> Seq<PartyMember> {
    ms.update(target, PartyMember { stats: CombatStats { hp: healed_hp(ms[target].stats, amount), ..ms[target].stats }, ..ms[target] })
}

/// A frame of choosing the target; confirming casts the spell with the
/// random factor `random` (in thousandths).
pub open spec fn target_step(v: SpellMenuView, ms: Seq<PartyMember>, keys: KeyPresses, random: u32) -> (SpellMenuView, Seq<PartyMember>) {
    let c = clamped_cursor(v.target_cursor, v.target_candidates.len() as int, keys.up, keys.down);
    let v1 = SpellMenuView { target_cursor: c, ..v };
    if keys.cancel {
        (SpellMenuView { phase: FieldSpellPhase::SpellSelect, ..v1 }, ms)
    } else if keys.confirm {
        let spell = v1.spell_candidates[v1.spell_cursor as int];
        let target = v1.target_candidates[c as int] as int;
        let caster = v1.selected_caster as int;
        if ms[caster].stats.mp < mp_cost_spec(spell) {
            (v1, ms)
        } else {
            let amount = scaled_amount(power_spec(spell) as int, random as int);
            let paid = after_cost(ms, caster, mp_cost_spec(spell) as int);
            (
                SpellMenuView {
                    message: heal_message(ms[caster].kind, spell, ms[target].kind, amount as int),
                    phase: FieldSpellPhase::ShowMessage,
                    ..v1
                },
                after_heal(paid, target, amount as int),
            )
        }
    } else {
        (v1, ms)
    }
}

/// A frame of showing a line: confirming goes back to the first caster,
/// cancelling closes the menu.
pub open spec fn message_step(v: SpellMenuView, keys: KeyPresses) -> (Option<SpellMenuView>, MenuAction) {
    let v1 = if keys.confirm {
        SpellMenuView { caster_cursor: 0, phase: FieldSpellPhase::CasterSelect, ..v }
    } else {
        v
    };
    if keys.cancel {
        (None, MenuAction::CloseMenu)
    } else {
        (Some(v1), MenuAction::Nothing)
    }
}

/// One frame of the spell menu: the menu after it, the party after it,
/// and what the screen has to do.
pub open spec fn spell_menu_step(m: Option<SpellMenuView>, ms: Seq<PartyMember>, keys: KeyPresses, random: u32) -> (Option<SpellMenuView>, Seq<PartyMember>, MenuAction) {
    match m {
        None => {
            let (n, a) = closed_step(ms, keys);
            (n, ms, a)
        },
        Some(v) => match v.phase {
            FieldSpellPhase::CasterSelect => {
                let (n, a) = caster_step(v, ms, keys);
                (n, ms, a)
            },
            FieldSpellPhase::SpellSelect => (Some(spell_step(v, ms, keys)), ms, MenuAction::Nothing),
            FieldSpellPhase::TargetSelect => {
                let (n, p) = target_step(v, ms, keys, random);
                (Some(n), p, MenuAction::Nothing)
            },
            FieldSpellPhase::ShowMessage => {
                let (n, a) = message_step(v, keys);
                (n, ms, a)
            },
        },
    }
}

/// The indices of the living members, in increasing order.
pub fn alive_member_indices(members: &Vec<PartyMember>) -> (r: Vec<usize>)
    ensures
        r@ == alive_list(stats_of(members@)),
{
    let ghost s = stats_of(members@);
    let mut out: Vec<usize> = Vec::new();
    let mut i: usize = 0;
    while i < members.len()
        invariant
            i <= members@.len(),
            s == stats_of(members@),
            out@ == alive_list(s.take(i as int)),
        decreases members@.len() - i,
    {
        proof {
            assert(s.take(i + 1).drop_last() =~= s.take(i as int));
        }
        if members[i].stats.hp > 0 {
            out.push(i);
        }
        i = i + 1;
    }
    proof {
        assert(s.take(s.len() as int) =~= s);
    }
    out
}

fn set_member_stats(members: &mut Vec<PartyMember>, i: usize, stats: CombatStats)
    requires
        i < old(members)@.len(),
    ensures
        final(members)@ == old(members)@.update(i as int, PartyMember { stats, ..old(members)@[i as int] }),
{
    let mut m = members.remove(i);
    m.stats = stats;
    members.insert(i, m);
    proof {
        assert(final(members)@ =~= old(members)@.update(i as int, PartyMember { stats, ..old(members)@[i as int] }));
    }
}

/// The line shown after a spell heals someone.
pub(crate) fn heal_text(caster: PartyMemberKind, spell: SpellKind, target: PartyMemberKind, amount: i32) -> (r: String)
    ensures
        r@ == heal_message(caster, spell, target, amount as int),
{
    let mut s = String::from_str(caster.name());
    s.append("は ");
    s.append(spell.name());
    s.append("を となえた！\n");
    s.append(target.name());
    s.append("の HPが ");
    let n = decimal_text(amount);
    s.append(n.as_str());
    s.append("かいふく！");
    s
}

/// What the living members are, read off the list of the living.
proof fn lemma_living(ms: Seq<PartyMember>)
    requires
        ms.len() <= usize::MAX,
    ensures
        indices_in(alive_list(stats_of(ms)), ms.len() as int),
        forall|k: int| 0 <= k < alive_list(stats_of(ms)).len() ==> ms[#[trigger] alive_list(stats_of(ms))[k] as int].stats.hp > 0,
        forall|i: int| 0 <= i < ms.len() && (#[trigger] ms[i]).stats.hp > 0 ==> alive_list(stats_of(ms)).len() > 0,
{
    let s = stats_of(ms);
    lemma_alive_list(s);
    assert forall|k: int| 0 <= k < alive_list(s).len() implies ms[#[trigger] alive_list(s)[k] as int].stats.hp > 0 by {
        assert(s[alive_list(s)[k] as int] == ms[alive_list(s)[k] as int].stats);
    }
    assert forall|i: int| 0 <= i < ms.len() && (#[trigger] ms[i]).stats.hp > 0 implies alive_list(s).len() > 0 by {
        assert(s[i] == ms[i].stats);
        assert(alive_list(s).contains(i as usize));
    }
}

fn closed_frame(members: &Vec<PartyMember>, keys: KeyPresses) -> (r: (Option<FieldSpellState>, MenuAction))
    ensures
        menu_view(r.0) == closed_step(members@, keys).0,
        r.1 == closed_step(members@, keys).1,
        menu_state_ok(menu_view(r.0), members@),
{
    if keys.confirm {
        let living = alive_member_indices(members);
        if living.len() > 0 {
            let _n = members.len();
            proof {
                lemma_living(members@);
            }
            let st = FieldSpellState {
                phase: FieldSpellPhase::CasterSelect,
                caster_candidates: living,
                caster_cursor: 0,
                selected_caster: 0,
                spell_candidates: Vec::new(),
                spell_cursor: 0,
                target_candidates: Vec::new(),
                target_cursor: 0,
                message: String::new(),
            };
            return (Some(st), MenuAction::OpenMenu);
        }
    }
    (None, MenuAction::Nothing)
}

fn caster_frame(st: FieldSpellState, members: &Vec<PartyMember>, keys: KeyPresses) -> (r: (Option<FieldSpellState>, MenuAction))
    requires
        st@.phase is CasterSelect,
        menu_ok(st@, members@),
    ensures
        menu_view(r.0) == caster_step(st@, members@, keys).0,
        r.1 == caster_step(st@, members@, keys).1,
        menu_state_ok(menu_view(r.0), members@),
{
    let ghost v = st@;
    let mut st = st;
    let c = move_clamped(st.caster_cursor, st.caster_candidates.len(), keys.up, keys.down);
    st.caster_cursor = c;
    if keys.cancel {
        return (None, MenuAction::CloseMenu);
    }
    if keys.confirm {
        let who = st.caster_candidates[c];
        proof {
            assert(v.caster_candidates[c as int] < members@.len());
        }
        let spells = available_spells(members[who].kind, members[who].level);
        st.selected_caster = who;
        if spells.len() == 0 {
            st.message = String::from_str("じゅもんを おぼえていない");
            st.phase = FieldSpellPhase::ShowMessage;
        } else {
            st.spell_candidates = spells;
            st.spell_cursor = 0;
            st.phase = FieldSpellPhase::SpellSelect;
        }
    }
    (Some(st), MenuAction::Nothing)
}

fn spell_frame(st: FieldSpellState, members: &Vec<PartyMember>, keys: KeyPresses) -> (r: FieldSpellState)
    requires
        st@.phase is SpellSelect,
        menu_ok(st@, members@),
    ensures
        r@ == spell_step(st@, members@, keys),
        menu_ok(r@, members@),
{
    let ghost v = st@;
    let mut st = st;
    let c = move_clamped(st.spell_cursor, st.spell_candidates.len(), keys.up, keys.down);
    st.spell_cursor = c;
    if keys.cancel {
        st.phase = FieldSpellPhase::CasterSelect;
        return st;
    }
    if keys.confirm {
        let spell = st.spell_candidates[c];
        if members[st.selected_caster].stats.mp < spell.mp_cost() {
            return st;
        }
        if spell.is_offensive() {
            st.message = String::from_str("フィールドでは つかえない");
            st.phase = FieldSpellPhase::ShowMessage;
        } else {
            let targets = alive_member_indices(members);
            let _n = members.len();
            proof {
                lemma_living(members@);
                assert(members@[v.selected_caster as int].stats.hp > 0);
            }
            st.target_candidates = targets;
            st.target_cursor = 0;
            st.phase = FieldSpellPhase::TargetSelect;
        }
    }
    st
}

fn target_frame(st: FieldSpellState, members: &mut Vec<PartyMember>, keys: KeyPresses, random_factor: u32) -> (r: FieldSpellState)
    requires
        st@.phase is TargetSelect,
        menu_ok(st@, old(members)@),
        hp_within_max(old(members)@),
    ensures
        r@ == target_step(st@, old(members)@, keys, random_factor).0,
        final(members)@ == target_step(st@, old(members)@, keys, random_factor).1,
        menu_ok(r@, final(members)@),
        hp_within_max(final(members)@),
{
    let ghost v = st@;
    let ghost ms = members@;
    let mut st = st;
    let c = move_clamped(st.target_cursor, st.target_candidates.len(), keys.up, keys.down);
    st.target_cursor = c;
    if keys.cancel {
        st.phase = FieldSpellPhase::SpellSelect;
        return st;
    }
    if keys.confirm {
        let spell = st.spell_candidates[st.spell_cursor];
        let target = st.target_candidates[c];
        let caster = st.selected_caster;
        proof {
            assert(v.target_candidates[c as int] < ms.len());
        }
        let mut cs = members[caster].stats;
        let cost = spell.mp_cost();
        if !cs.use_mp(cost) {
            return st;
        }
        set_member_stats(members, caster, cs);
        let amount = calculate_heal_amount(spell.power(), random_factor);
        let ts = members[target].stats;
        let sum: i64 = ts.hp as i64 + amount as i64;
        let new_hp: i32 = if sum < ts.max_hp as i64 { sum as i32 } else { ts.max_hp };
        set_member_stats(members, target, CombatStats { hp: new_hp, ..ts });
        let caster_kind = members[caster].kind;
        let target_kind = members[target].kind;
        st.message = heal_text(caster_kind, spell, target_kind, amount);
        st.phase = FieldSpellPhase::ShowMessage;
        proof {
            let paid = after_cost(ms, caster as int, cost as int);
            assert(members@ =~= after_heal(paid, target as int, amount as int));
            assert forall|k: int| 0 <= k < v.caster_candidates.len() implies members@[#[trigger] v.caster_candidates[k] as int].stats.hp > 0 by {
                assert(ms[v.caster_candidates[k] as int].stats.hp > 0);
            }
            assert forall|i: int| 0 <= i < members@.len() implies (#[trigger] members@[i]).stats.hp <= members@[i].stats.max_hp by {
                assert(ms[i].stats.hp <= ms[i].stats.max_hp);
            }
        }
    }
    st
}

fn message_frame(st: FieldSpellState, keys: KeyPresses) -> (r: (Option<FieldSpellState>, MenuAction))
    ensures
        menu_view(r.0) == message_step(st@, keys).0,
        r.1 == message_step(st@, keys).1,
{
    let mut st = st;
    if keys.confirm {
        st.caster_cursor = 0;
        st.phase = FieldSpellPhase::CasterSelect;
    }
    if keys.cancel {
        return (None, MenuAction::CloseMenu);
    }
    (Some(st), MenuAction::Nothing)
}

/// One frame of the spell menu, given the keys pressed and a random factor
/// in thousandths for a spell that is cast: the menu and the party change
/// as `spell_menu_step` says, and the result tells the screen whether to
/// open or close the menu. While the menu is open the party keeps its HP
/// within the maxima, and the menu stays in order.
pub fn field_spell_input(
    menu: &mut Option<FieldSpellState>,
    members: &mut Vec<PartyMember>,
    keys: KeyPresses,
    random_factor: u32,
) -> (r: MenuAction)
    requires
        hp_within_max(old(members)@),
        menu_state_ok(menu_view(*old(menu)), old(members)@),
    ensures
        menu_view(*final(menu)) == spell_menu_step(menu_view(*old(menu)), old(members)@, keys, random_factor).0,
        final(members)@ == spell_menu_step(menu_view(*old(menu)), old(members)@, keys, random_factor).1,
        r == spell_menu_step(menu_view(*old(menu)), old(members)@, keys, random_factor).2,
        hp_within_max(final(members)@),
        menu_state_ok(menu_view(*final(menu)), final(members)@),
{
    let current = menu.take();
    match current {
        None => {
            let (next, action) = closed_frame(members, keys);
            *menu = next;
            action
        },
        Some(st) => {
            match st.phase {
                FieldSpellPhase::CasterSelect => {
                    let (next, action) = caster_frame(st, members, keys);
                    *menu = next;
                    action
                },
                FieldSpellPhase::SpellSelect => {
                    let next = spell_frame(st, members, keys);
                    *menu = Some(next);
                    MenuAction::Nothing
                },
                FieldSpellPhase::TargetSelect => {
                    let next = target_frame(st, members, keys, random_factor);
                    *menu = Some(next);
                    MenuAction::Nothing
                },
                FieldSpellPhase::ShowMessage => {
                    let ghost v = st@;
                    let (next, action) = message_frame(st, keys);
                    proof {
                        assert(menu_ok(v, members@));
                    }
                    *menu = next;
                    action
                },
            }
        },
    }
}


// ---- what the menu shows ----

/// How a line of the menu is drawn.
#[derive(Debug, Clone, Copy, PartialEq, Eq, Structural)]
pub enum LineTone {
    Selected,
    Unselected,
    /// A spell the caster has too little MP for.
    Disabled,
}

/// A line of the menu.
#[derive(Debug)]
pub struct MenuLine {
    pub text: String,
    pub tone: LineTone,
}

/// What the open spell menu shows: a title and one line per entry of the
/// list the current step chooses from.
#[derive(Debug)]
pub struct SpellMenuScreen {
    pub title: String,
    pub lines: Vec<MenuLine>,
}

/// `> ` in front of the line under the cursor, two spaces elsewhere.
pub open spec fn cursor_mark(selected: bool) -> Seq<char> {
    if selected {
        "> "@
    } else {
        "  "@
    }
}

/// The tone of a line that can always be chosen.
pub open spec fn plain_tone(selected: bool) -> LineTone {
    if selected {
        LineTone::Selected
    } else {
        LineTone::Unselected
    }
}

/// A caster's line: name, HP and MP.
pub open spec fn caster_line(m: PartyMember, selected: bool) -> Seq<char> {
    cursor_mark(selected) + member_name(m.kind)@ + " HP:"@ + decimal(m.stats.hp as int) + "/"@ + decimal(m.stats.max_hp as int)
        + " MP:"@ + decimal(m.stats.mp as int) + "/"@ + decimal(m.stats.max_mp as int)
}

/// A spell's line: name and MP cost.
pub open spec fn spell_line(k: SpellKind, selected: bool) -> Seq<char> {
    cursor_mark(selected) + spell_name_spec(k)@ + " ("@ + decimal(mp_cost_spec(k) as int) + ")"@
}

/// A target's line: name and HP.
pub open spec fn target_line(m: PartyMember, selected: bool) -> Seq<char> {
    cursor_mark(selected) + member_name(m.kind)@ + " HP:"@ + decimal(m.stats.hp as int) + "/"@ + decimal(m.stats.max_hp as int)
}

/// The title of the menu at each step.
pub open spec fn spell_menu_title(v: SpellMenuView, ms: Seq<PartyMember>) -> Seq<char> {
    match v.phase {
        FieldSpellPhase::CasterSelect => "だれが じゅもんを つかう？"@,
        FieldSpellPhase::SpellSelect => member_name(ms[v.selected_caster as int].kind)@ + "の じゅもん"@,
        FieldSpellPhase::TargetSelect => "だれに つかう？"@,
        FieldSpellPhase::ShowMessage => v.message,
    }
}

/// The lines of the menu at each step, with their tones; none while a
/// message is shown.
pub open spec fn spell_menu_lines(v: SpellMenuView, ms: Seq<PartyMember>) -> Seq<(Seq<char>, LineTone)> {
    match v.phase {
        FieldSpellPhase::CasterSelect => Seq::new(v.caster_candidates.len(), |i: int|
            (caster_line(ms[v.caster_candidates[i] as int], i == v.caster_cursor), plain_tone(i == v.caster_cursor))),
        FieldSpellPhase::SpellSelect => Seq::new(v.spell_candidates.len(), |i: int|
            (spell_line(v.spell_candidates[i], i == v.spell_cursor),
                if ms[v.selected_caster as int].stats.mp < mp_cost_spec(v.spell_candidates[i]) { LineTone::Disabled } else { plain_tone(i == v.spell_cursor) })),
        FieldSpellPhase::TargetSelect => Seq::new(v.target_candidates.len(), |i: int|
            (target_line(ms[v.target_candidates[i] as int], i == v.target_cursor), plain_tone(i == v.target_cursor))),
        FieldSpellPhase::ShowMessage => Seq::empty(),
    }
}

fn mark_text(selected: bool) -> (r: &'static str)
    ensures
        r@ == cursor_mark(selected),
{
    if selected {
        "> "
    } else {
        "  "
    }
}

fn caster_text(m: &PartyMember, selected: bool) -> (r: String)
    ensures
        r@ == caster_line(*m, selected),
{
    let mut s = String::from_str(mark_text(selected));
    s.append(m.kind.name());
    s.append(" HP:");
    let a = decimal_text(m.stats.hp);
    s.append(a.as_str());
    s.append("/");
    let b = decimal_text(m.stats.max_hp);
    s.append(b.as_str());
    s.append(" MP:");
    let c = decimal_text(m.stats.mp);
    s.append(c.as_str());
    s.append("/");
    let d = decimal_text(m.stats.max_mp);
    s.append(d.as_str());
    s
}

fn spell_text(k: SpellKind, selected: bool) -> (r: String)
    ensures
        r@ == spell_line(k, selected),
{
    let mut s = String::from_str(mark_text(selected));
    s.append(k.name());
    s.append(" (");
    let c = decimal_text(k.mp_cost());
    s.append(c.as_str());
    s.append(")");
    s
}

fn target_text(m: &PartyMember, selected: bool) -> (r: String)
    ensures
        r@ == target_line(*m, selected),
{
    let mut s = String::from_str(mark_text(selected));
    s.append(m.kind.name());
    s.append(" HP:");
    let a = decimal_text(m.stats.hp);
    s.append(a.as_str());
    s.append("/");
    let b = decimal_text(m.stats.max_hp);
    s.append(b.as_str());
    s
}

/// What the open spell menu shows for the party `members`.
pub fn spell_menu_screen(menu: &FieldSpellState, members: &Vec<PartyMember>) -> (r: SpellMenuScreen)
    requires
        menu.phase is CasterSelect ==> indices_in(menu.caster_candidates@, members@.len() as int),
        menu.phase is SpellSelect ==> menu.selected_caster < members@.len(),
        menu.phase is TargetSelect ==> indices_in(menu.target_candidates@, members@.len() as int),
    ensures
        r.title@ == spell_menu_title(menu@, members@),
        r.lines@.len() == spell_menu_lines(menu@, members@).len(),
        forall|i: int| 0 <= i < r.lines@.len() ==>
            ((#[trigger] r.lines@[i]).text@, r.lines@[i].tone) == spell_menu_lines(menu@, members@)[i],
{
    let ghost want = spell_menu_lines(menu@, members@);
    let mut lines: Vec<MenuLine> = Vec::new();
    let title = match menu.phase {
        FieldSpellPhase::CasterSelect => {
            let mut i: usize = 0;
            while i < menu.caster_candidates.len()
                invariant
                    menu.phase is CasterSelect,
                    want == spell_menu_lines(menu@, members@),
                    indices_in(menu.caster_candidates@, members@.len() as int),
                    i <= menu.caster_candidates@.len(),
                    lines@.len() == i,
                    forall|j: int| 0 <= j < i ==> ((#[trigger] lines@[j]).text@, lines@[j].tone) == want[j],
                decreases menu.caster_candidates@.len() - i,
            {
                let selected = i == menu.caster_cursor;
                let m = &members[menu.caster_candidates[i]];
                let text = caster_text(m, selected);
                let tone = if selected { LineTone::Selected } else { LineTone::Unselected };
                lines.push(MenuLine { text, tone });
                i = i + 1;
            }
            String::from_str("だれが じゅもんを つかう？")
        },
        FieldSpellPhase::SpellSelect => {
            let caster_mp = members[menu.selected_caster].stats.mp;
            let mut i: usize = 0;
            while i < menu.spell_candidates.len()
                invariant
                    menu.phase is SpellSelect,
                    want == spell_menu_lines(menu@, members@),
                    menu.selected_caster < members@.len(),
                    caster_mp == members@[menu.selected_caster as int].stats.mp,
                    i <= menu.spell_candidates@.len(),
                    lines@.len() == i,
                    forall|j: int| 0 <= j < i ==> ((#[trigger] lines@[j]).text@, lines@[j].tone) == want[j],
                decreases menu.spell_candidates@.len() - i,
            {
                let selected = i == menu.spell_cursor;
                let k = menu.spell_candidates[i];
                let text = spell_text(k, selected);
                let tone = if caster_mp < k.mp_cost() {
                    LineTone::Disabled
                } else if selected {
                    LineTone::Selected
                } else {
                    LineTone::Unselected
                };
                lines.push(MenuLine { text, tone });
                i = i + 1;
            }
            let mut t = String::from_str(members[menu.selected_caster].kind.name());
            t.append("の じゅもん");
            t
        },
        FieldSpellPhase::TargetSelect => {
            let mut i: usize = 0;
            while i < menu.target_candidates.len()
                invariant
                    menu.phase is TargetSelect,
                    want == spell_menu_lines(menu@, members@),
                    indices_in(menu.target_candidates@, members@.len() as int),
                    i <= menu.target_candidates@.len(),
                    lines@.len() == i,
                    forall|j: int| 0 <= j < i ==> ((#[trigger] lines@[j]).text@, lines@[j].tone) == want[j],
                decreases menu.target_candidates@.len() - i,
            {
                let selected = i == menu.target_cursor;
                let m = &members[menu.target_candidates[i]];
                let text = target_text(m, selected);
                let tone = if selected { LineTone::Selected } else { LineTone::Unselected };
                lines.push(MenuLine { text, tone });
                i = i + 1;
            }
            String::from_str("だれに つかう？")
        },
        FieldSpellPhase::ShowMessage => menu.message.clone(),
    };
    SpellMenuScreen { title, lines }
}

} // verus!
