//! The menu opened on the field: spells (a caster, a spell, a target) and
//! items (a member, an item, a target). Healing works outside battle,
//! weapons are equipped, other items are looked at.
use vstd::prelude::*;
use crate::battle_messages::{decimal, decimal_text, unsigned_text};
use crate::battle_spell::{available_spells, calculate_heal_amount, effect_spec, learn_table_spec, mp_cost_spec, power_spec, spell_name_spec, target_spec, SpellKind};
use crate::combat::{alive_list, lemma_alive_list};
use crate::battle_turn::random_at;
use crate::field_spell::{alive_member_indices, heal_message, heal_text, healed_hp, stats_of, MenuAction};
use crate::formula::scaled_amount;
use crate::item::{all_item_keys_spec, item_attack_bonus, item_description, item_effect, item_name, key_index, ItemEffect, ItemKey};
use crate::menu_keys::{clamped_cursor, move_clamped, KeyPresses};
use crate::party::{member_name, PartyMember, PartyMemberKind};
use crate::spell::{learned_by, pick_spells, SpellTarget};
use crate::stats::CombatStats;

verus! {

/// How many entries of a long list the menu shows at once.
pub const VISIBLE_ITEMS: usize = 6;

/// What a target is being chosen for, with what to go back to.
#[derive(Debug, Clone)]
pub enum TargetContext {
    Spell { caster: usize, spells: Vec<SpellKind>, spell_cursor: usize },
    Item { member: usize, items: Vec<ItemKey>, item_cursor: usize },
}

/// The step of the field menu, with what it shows.
#[derive(Debug, Clone)]
pub enum FieldMenuPhase {
    TopMenu { cursor: usize },
    CasterSelect { candidates: Vec<usize>, cursor: usize },
    SpellSelect { caster: usize, spells: Vec<SpellKind>, cursor: usize },
    MemberSelect { candidates: Vec<usize>, cursor: usize },
    ItemSelect { member: usize, items: Vec<ItemKey>, cursor: usize },
    TargetSelect { candidates: Vec<usize>, cursor: usize, context: TargetContext },
    ShowMessage { message: String },
}

/// The values of a target context.
pub enum ContextView {
    Spell { caster: usize, spells: Seq<SpellKind>, spell_cursor: usize },
    Item { member: usize, items: Seq<ItemKey>, item_cursor: usize },
}

/// The values of a phase.
pub enum PhaseView {
    TopMenu { cursor: usize },
    CasterSelect { candidates: Seq<usize>, cursor: usize },
    SpellSelect { caster: usize, spells: Seq<SpellKind>, cursor: usize },
    MemberSelect { candidates: Seq<usize>, cursor: usize },
    ItemSelect { member: usize, items: Seq<ItemKey>, cursor: usize },
    TargetSelect { candidates: Seq<usize>, cursor: usize, context: ContextView },
    ShowMessage { message: Seq<char> },
}

impl View for TargetContext {
    type V = ContextView;

    open spec fn view(&self) -> ContextView {
        match self {
            TargetContext::Spell { caster, spells, spell_cursor } => ContextView::Spell {
                caster: *caster,
                spells: spells@,
                spell_cursor: *spell_cursor,
            },
            TargetContext::Item { member, items, item_cursor } => ContextView::Item {
                member: *member,
                items: items@,
                item_cursor: *item_cursor,
            },
        }
    }
}

impl View for FieldMenuPhase {
    type V = PhaseView;

    open spec fn view(&self) -> PhaseView {
        match self {
            FieldMenuPhase::TopMenu { cursor } => PhaseView::TopMenu { cursor: *cursor },
            FieldMenuPhase::CasterSelect { candidates, cursor } => PhaseView::CasterSelect {
                candidates: candidates@,
                cursor: *cursor,
            },
            FieldMenuPhase::SpellSelect { caster, spells, cursor } => PhaseView::SpellSelect {
                caster: *caster,
                spells: spells@,
                cursor: *cursor,
            },
            FieldMenuPhase::MemberSelect { candidates, cursor } => PhaseView::MemberSelect {
                candidates: candidates@,
                cursor: *cursor,
            },
            FieldMenuPhase::ItemSelect { member, items, cursor } => PhaseView::ItemSelect {
                member: *member,
                items: items@,
                cursor: *cursor,
            },
            FieldMenuPhase::TargetSelect { candidates, cursor, context } => PhaseView::TargetSelect {
                candidates: candidates@,
                cursor: *cursor,
                context: context@,
            },
            FieldMenuPhase::ShowMessage { message } => PhaseView::ShowMessage { message: message@ },
        }
    }
}

/// The values of a party member that the menu reads and changes.
pub struct MemberView {
    pub kind: PartyMemberKind,
    pub level: u32,
    pub exp: u32,
    pub stats: CombatStats,
    pub counts: Seq<u32>,
    pub capacity: u32,
    pub weapon: Option<ItemKey>,
}

/// A member's values.
pub open spec fn member_view(m: PartyMember) -> MemberView {
    MemberView {
        kind: m.kind,
        level: m.level,
        exp: m.exp,
        stats: m.stats,
        counts: m.inventory.counts(),
        capacity: m.inventory.capacity(),
        weapon: m.equipment.weapon,
    }
}

/// The party's values.
pub open spec fn party_view(ms: Seq<PartyMember>) -> Seq<MemberView> {
    ms.map_values(|m: PartyMember| member_view(m))
}

/// The statistics of each member.
pub open spec fn view_stats(p: Seq<MemberView>) -> Seq<CombatStats> {
    p.map_values(|m: MemberView| m.stats)
}

/// The items a member holds, in key order.
pub open spec fn held_items(m: MemberView) -> Seq<ItemKey> {
    all_item_keys_spec().filter(|k: ItemKey| m.counts[key_index(k)] > 0)
}

/// The spells a member knows at its level.
pub open spec fn spells_known(m: MemberView) -> Seq<SpellKind> {
    pick_spells(learn_table_spec(m.kind), learned_by(m.level))
}

// ---- what a frame does ----

/// The living members, in increasing order.
pub open spec fn living(p: Seq<MemberView>) -> Seq<usize> {
    alive_list(view_stats(p))
}

/// A member with new statistics.
pub open spec fn with_stats(p: Seq<MemberView>, i: int, s: CombatStats) -> Seq<MemberView> {
    p.update(i, MemberView { stats: s, ..p[i] })
}

/// The party after `caster` spends `cost` MP.
pub open spec fn paid(p: Seq<MemberView>, caster: int, cost: int) -> Seq<MemberView> {
    with_stats(p, caster, CombatStats { mp: (p[caster].stats.mp - cost) as i32, ..p[caster].stats })
}

/// The party after `target` is healed by `amount`.
pub open spec fn healed(p: Seq<MemberView>, target: int, amount: int) -> Seq<MemberView> {
    with_stats(p, target, CombatStats { hp: healed_hp(p[target].stats, amount), ..p[target].stats })
}

/// The line of one healed member in a list of healings.
pub open spec fn heal_line(k: PartyMemberKind, amount: int) -> Seq<char> {
    "\n"@ + member_name(k)@ + "の HPが "@ + decimal(amount) + "かいふく！"@
}

/// Heals the listed members one after another, the k-th with the k-th
/// random factor; gives the party after and the lines written.
pub open spec fn heal_all(p: Seq<MemberView>, targets: Seq<usize>, power: int, rs: Seq<u32>) -> (Seq<MemberView>, Seq<char>)
    decreases targets.len(),
{
    if targets.len() == 0 {
        (p, Seq::empty())
    } else {
        let (p1, text) = heal_all(p, targets.drop_last(), power, rs);
        let t = targets.last() as int;
        let amount = scaled_amount(power, random_at(rs, targets.len() - 1) as int) as int;
        (healed(p1, t, amount), text + heal_line(p1[t].kind, amount))
    }
}

/// The first line of a spell cast on the whole party.
pub open spec fn cast_line(k: PartyMemberKind, spell: SpellKind) -> Seq<char> {
    member_name(k)@ + "は "@ + spell_name_spec(spell)@ + "を となえた！"@
}

/// The line shown after an item heals someone.
pub open spec fn item_heal_message(user: PartyMemberKind, item: ItemKey, target: PartyMemberKind, amount: int) -> Seq<char> {
    member_name(user)@ + "は "@ + item_name(item)@ + "を つかった！\n"@ + member_name(target)@ + "の HPが "@ + decimal(amount)
        + "かいふく！"@
}

/// The line shown after a weapon is equipped, naming the one put away.
pub open spec fn equip_message(k: PartyMemberKind, weapon: ItemKey, previous: Option<ItemKey>) -> Seq<char> {
    member_name(k)@ + "は "@ + item_name(weapon)@ + "を そうびした！"@ + match previous {
        Some(w) => "\n"@ + item_name(w)@ + "を はずした"@,
        None => Seq::empty(),
    }
}

/// The line shown when an item is looked at.
pub open spec fn examine_message(k: PartyMemberKind, item: ItemKey) -> Seq<char> {
    member_name(k)@ + "は "@ + item_name(item)@ + "を しらべた。\n"@ + item_description(item)@
}

/// The result of a frame: the phase after (none once closed), the party
/// after, and what the screen has to do.
pub type MenuStep = (Option<PhaseView>, Seq<MemberView>, MenuAction);

/// The menu goes on in a phase, the party as given.
pub open spec fn stay(ph: PhaseView, p: Seq<MemberView>) -> MenuStep {
    (Some(ph), p, MenuAction::Nothing)
}

/// A frame of the top menu: spells or items.
pub open spec fn top_step(cursor: usize, p: Seq<MemberView>, keys: KeyPresses) -> MenuStep {
    let c = clamped_cursor(cursor, 2, keys.up, keys.down);
    if keys.cancel {
        (None, p, MenuAction::CloseMenu)
    } else if keys.confirm {
        if c == 0 {
            stay(PhaseView::CasterSelect { candidates: living(p), cursor: 0 }, p)
        } else {
            stay(PhaseView::MemberSelect { candidates: living(p), cursor: 0 }, p)
        }
    } else {
        stay(PhaseView::TopMenu { cursor: c }, p)
    }
}

/// A frame of choosing who casts.
pub open spec fn caster_select_step(cands: Seq<usize>, cursor: usize, p: Seq<MemberView>, keys: KeyPresses) -> MenuStep {
    let c = clamped_cursor(cursor, cands.len() as int, keys.up, keys.down);
    if keys.cancel {
        stay(PhaseView::TopMenu { cursor: 0 }, p)
    } else if keys.confirm {
        let who = cands[c as int];
        let spells = spells_known(p[who as int]);
        if spells.len() == 0 {
            stay(PhaseView::ShowMessage { message: "じゅもんを おぼえていない"@ }, p)
        } else {
            stay(PhaseView::SpellSelect { caster: who, spells, cursor: 0 }, p)
        }
    } else {
        stay(PhaseView::CasterSelect { candidates: cands, cursor: c }, p)
    }
}

/// A frame of choosing the spell; only healing spells work here, and one
/// aimed at the whole party heals every living member at once.
pub open spec fn spell_select_step(caster: usize, spells: Seq<SpellKind>, cursor: usize, p: Seq<MemberView>, keys: KeyPresses, rs: Seq<u32>) -> MenuStep {
    let c = clamped_cursor(cursor, spells.len() as int, keys.up, keys.down);
    let here = PhaseView::SpellSelect { caster, spells, cursor: c };
    if keys.cancel {
        stay(PhaseView::CasterSelect { candidates: living(p), cursor: 0 }, p)
    } else if keys.confirm {
        let spell = spells[c as int];
        let cost = mp_cost_spec(spell) as int;
        if p[caster as int].stats.mp < cost {
            stay(here, p)
        } else if !(effect_spec(spell) is Heal) {
            stay(PhaseView::ShowMessage { message: "フィールドでは つかえない"@ }, p)
        } else if target_spec(spell) is AllAllies {
            let p1 = paid(p, caster as int, cost);
            let (p2, lines) = heal_all(p1, living(p1), power_spec(spell) as int, rs);
            stay(PhaseView::ShowMessage { message: cast_line(p[caster as int].kind, spell) + lines }, p2)
        } else {
            stay(
                PhaseView::TargetSelect {
                    candidates: living(p),
                    cursor: 0,
                    context: ContextView::Spell { caster, spells, spell_cursor: c },
                },
                p,
            )
        }
    } else {
        stay(here, p)
    }
}

/// A frame of choosing whose items to look at.
pub open spec fn member_select_step(cands: Seq<usize>, cursor: usize, p: Seq<MemberView>, keys: KeyPresses) -> MenuStep {
    let c = clamped_cursor(cursor, cands.len() as int, keys.up, keys.down);
    if keys.cancel {
        stay(PhaseView::TopMenu { cursor: 0 }, p)
    } else if keys.confirm {
        let who = cands[c as int];
        let items = held_items(p[who as int]);
        if items.len() == 0 {
            stay(PhaseView::ShowMessage { message: "もちものが ない"@ }, p)
        } else {
            stay(PhaseView::ItemSelect { member: who, items, cursor: 0 }, p)
        }
    } else {
        stay(PhaseView::MemberSelect { candidates: cands, cursor: c }, p)
    }
}

/// A frame of choosing an item: healing items need a target, weapons are
/// equipped, anything else is looked at.
pub open spec fn item_select_step(member: usize, items: Seq<ItemKey>, cursor: usize, p: Seq<MemberView>, keys: KeyPresses) -> MenuStep {
    let c = clamped_cursor(cursor, items.len() as int, keys.up, keys.down);
    if keys.cancel {
        stay(PhaseView::MemberSelect { candidates: living(p), cursor: 0 }, p)
    } else if keys.confirm {
        let item = items[c as int];
        let m = p[member as int];
        if item_effect(item) is Heal {
            stay(
                PhaseView::TargetSelect {
                    candidates: living(p),
                    cursor: 0,
                    context: ContextView::Item { member, items, item_cursor: c },
                },
                p,
            )
        } else if item_attack_bonus(item) > 0 {
            stay(
                PhaseView::ShowMessage { message: equip_message(m.kind, item, m.weapon) },
                p.update(member as int, MemberView { weapon: Some(item), ..m }),
            )
        } else {
            stay(PhaseView::ShowMessage { message: examine_message(m.kind, item) }, p)
        }
    } else {
        stay(PhaseView::ItemSelect { member, items, cursor: c }, p)
    }
}

/// A frame of choosing whom to heal with the waiting item or spell; the
/// first random factor decides the amount.
pub open spec fn target_select_step(cands: Seq<usize>, cursor: usize, ctx: ContextView, p: Seq<MemberView>, keys: KeyPresses, rs: Seq<u32>) -> MenuStep {
    let c = clamped_cursor(cursor, cands.len() as int, keys.up, keys.down);
    let here = PhaseView::TargetSelect { candidates: cands, cursor: c, context: ctx };
    if keys.cancel {
        match ctx {
            ContextView::Item { member, items, item_cursor } => stay(PhaseView::ItemSelect { member, items, cursor: item_cursor }, p),
            ContextView::Spell { caster, spells, spell_cursor } => stay(PhaseView::SpellSelect { caster, spells, cursor: spell_cursor }, p),
        }
    } else if keys.confirm {
        let t = cands[c as int] as int;
        match ctx {
            ContextView::Item { member, items, item_cursor } => {
                let item = items[item_cursor as int];
                let m = p[member as int];
                match item_effect(item) {
                    ItemEffect::Heal { power } => if m.counts[key_index(item)] > 0 {
                        let p1 = p.update(
                            member as int,
                            MemberView { counts: m.counts.update(key_index(item), (m.counts[key_index(item)] - 1) as u32), ..m },
                        );
                        let amount = scaled_amount(power as int, random_at(rs, 0) as int) as int;
                        stay(PhaseView::ShowMessage { message: item_heal_message(m.kind, item, p[t].kind, amount) }, healed(p1, t, amount))
                    } else {
                        stay(here, p)
                    },
                    _ => stay(here, p),
                }
            },
            ContextView::Spell { caster, spells, spell_cursor } => {
                let spell = spells[spell_cursor as int];
                let cost = mp_cost_spec(spell) as int;
                if p[caster as int].stats.mp < cost {
                    stay(here, p)
                } else {
                    let amount = scaled_amount(power_spec(spell) as int, random_at(rs, 0) as int) as int;
                    stay(
                        PhaseView::ShowMessage { message: heal_message(p[caster as int].kind, spell, p[t].kind, amount) },
                        healed(paid(p, caster as int, cost), t, amount),
                    )
                }
            },
        }
    } else {
        stay(here, p)
    }
}

/// A frame of showing a line: confirming goes back to the top, cancelling
/// closes the menu.
pub open spec fn message_step(ph: PhaseView, p: Seq<MemberView>, keys: KeyPresses) -> MenuStep {
    if keys.cancel {
        (None, p, MenuAction::CloseMenu)
    } else if keys.confirm {
        stay(PhaseView::TopMenu { cursor: 0 }, p)
    } else {
        stay(ph, p)
    }
}

/// One frame of the field menu, with the keys pressed and the random
/// factors (in thousandths) of the healings it makes, in order.
pub open spec fn field_menu_step(m: Option<PhaseView>, p: Seq<MemberView>, keys: KeyPresses, rs: Seq<u32>) -> MenuStep {
    match m {
        None => if keys.menu && living(p).len() > 0 {
            (Some(PhaseView::TopMenu { cursor: 0 }), p, MenuAction::OpenMenu)
        } else {
            (None, p, MenuAction::Nothing)
        },
        Some(ph) => match ph {
            PhaseView::TopMenu { cursor } => top_step(cursor, p, keys),
            PhaseView::CasterSelect { candidates, cursor } => caster_select_step(candidates, cursor, p, keys),
            PhaseView::SpellSelect { caster, spells, cursor } => spell_select_step(caster, spells, cursor, p, keys, rs),
            PhaseView::MemberSelect { candidates, cursor } => member_select_step(candidates, cursor, p, keys),
            PhaseView::ItemSelect { member, items, cursor } => item_select_step(member, items, cursor, p, keys),
            PhaseView::TargetSelect { candidates, cursor, context } => target_select_step(candidates, cursor, context, p, keys, rs),
            PhaseView::ShowMessage { .. } => message_step(ph, p, keys),
        },
    }
}

/// No member has more HP than its maximum.
pub open spec fn hp_ok(p: Seq<MemberView>) -> bool {
    forall|i: int| 0 <= i < p.len() ==> (#[trigger] p[i]).stats.hp <= p[i].stats.max_hp
}

/// A list with a cursor inside it.
pub open spec fn pointed(len: int, cursor: usize) -> bool {
    0 < len && cursor < len
}

/// What holds of an open menu: someone is alive, no one has more HP than
/// the maximum, and the lists the phase reads are not empty, with the
/// cursors inside them and the indices naming members.
pub open spec fn menu_ok(ph: PhaseView, p: Seq<MemberView>) -> bool {
    let n = p.len() as int;
    &&& living(p).len() > 0
    &&& hp_ok(p)
    &&& phase_indices_ok(ph, n)
    &&& match ph {
        PhaseView::TopMenu { cursor } => cursor < 2,
        PhaseView::CasterSelect { candidates, cursor } => pointed(candidates.len() as int, cursor),
        PhaseView::SpellSelect { spells, cursor, .. } => pointed(spells.len() as int, cursor),
        PhaseView::MemberSelect { candidates, cursor } => pointed(candidates.len() as int, cursor),
        PhaseView::ItemSelect { items, cursor, .. } => pointed(items.len() as int, cursor),
        PhaseView::TargetSelect { candidates, cursor, context } => {
            &&& pointed(candidates.len() as int, cursor)
            &&& match context {
                ContextView::Spell { caster, spells, spell_cursor } => caster < n && pointed(spells.len() as int, spell_cursor),
                ContextView::Item { member, items, item_cursor } => member < n && pointed(items.len() as int, item_cursor),
            }
        },
        PhaseView::ShowMessage { .. } => true,
    }
}

// ---- labels ----

/// `name HP:hp/max MP:mp/max`
pub open spec fn caster_label(m: MemberView) -> Seq<char> {
    member_name(m.kind)@ + " HP:"@ + decimal(m.stats.hp as int) + "/"@ + decimal(m.stats.max_hp as int) + " MP:"@
        + decimal(m.stats.mp as int) + "/"@ + decimal(m.stats.max_mp as int)
}

/// `name HP:hp/max`
pub open spec fn hp_label(m: MemberView) -> Seq<char> {
    member_name(m.kind)@ + " HP:"@ + decimal(m.stats.hp as int) + "/"@ + decimal(m.stats.max_hp as int)
}

/// `spell (cost)`
pub open spec fn spell_label(k: SpellKind) -> Seq<char> {
    spell_name_spec(k)@ + " ("@ + decimal(mp_cost_spec(k) as int) + ")"@
}

/// A held item with its count; a weapon shows its attack bonus and an
/// `E ` when it is the one equipped.
pub open spec fn item_label(m: MemberView, k: ItemKey) -> Seq<char> {
    let count = decimal(m.counts[key_index(k)] as int);
    if item_attack_bonus(k) > 0 {
        (if m.weapon == Some(k) { "E "@ } else { Seq::empty() }) + item_name(k)@ + " ATK+"@ + decimal(item_attack_bonus(k) as int)
            + " x"@ + count
    } else {
        item_name(k)@ + " x"@ + count
    }
}

/// The positions of the spells that cost more than `mp`.
pub open spec fn unaffordable(spells: Seq<SpellKind>, mp: i32) -> Seq<usize>
    decreases spells.len(),
{
    if spells.len() == 0 {
        Seq::empty()
    } else {
        let rest = unaffordable(spells.drop_last(), mp);
        if mp < mp_cost_spec(spells.last()) {
            rest.push((spells.len() - 1) as usize)
        } else {
            rest
        }
    }
}

/// The lines a phase shows.
pub open spec fn phase_labels(ph: PhaseView, p: Seq<MemberView>) -> Seq<Seq<char>> {
    match ph {
        PhaseView::TopMenu { .. } => seq!["じゅもん"@, "どうぐ"@],
        PhaseView::CasterSelect { candidates, .. } => candidates.map_values(|i: usize| caster_label(p[i as int])),
        PhaseView::SpellSelect { spells, .. } => spells.map_values(|k: SpellKind| spell_label(k)),
        PhaseView::MemberSelect { candidates, .. } => candidates.map_values(|i: usize| hp_label(p[i as int])),
        PhaseView::ItemSelect { member, items, .. } => items.map_values(|k: ItemKey| item_label(p[member as int], k)),
        PhaseView::TargetSelect { candidates, .. } => candidates.map_values(|i: usize| hp_label(p[i as int])),
        PhaseView::ShowMessage { .. } => Seq::empty(),
    }
}

/// A phase with its cursor moved; a message has none.
pub open spec fn with_cursor(ph: PhaseView, index: usize) -> PhaseView {
    match ph {
        PhaseView::TopMenu { .. } => PhaseView::TopMenu { cursor: index },
        PhaseView::CasterSelect { candidates, .. } => PhaseView::CasterSelect { candidates, cursor: index },
        PhaseView::SpellSelect { caster, spells, .. } => PhaseView::SpellSelect { caster, spells, cursor: index },
        PhaseView::MemberSelect { candidates, .. } => PhaseView::MemberSelect { candidates, cursor: index },
        PhaseView::ItemSelect { member, items, .. } => PhaseView::ItemSelect { member, items, cursor: index },
        PhaseView::TargetSelect { candidates, context, .. } => PhaseView::TargetSelect { candidates, cursor: index, context },
        PhaseView::ShowMessage { message } => PhaseView::ShowMessage { message },
    }
}

/// The lines of a phase that cannot be chosen: spells beyond the caster's MP.
pub open spec fn phase_disabled(ph: PhaseView, p: Seq<MemberView>) -> Seq<usize> {
    match ph {
        PhaseView::SpellSelect { caster, spells, .. } => unaffordable(spells, p[caster as int].stats.mp),
        _ => Seq::empty(),
    }
}

/// Every index of `v` names a member.
pub open spec fn names_members(v: Seq<usize>, n: int) -> bool {
    forall|k: int| 0 <= k < v.len() ==> #[trigger] v[k] < n
}

/// The indices a phase reads name members.
pub open spec fn phase_indices_ok(ph: PhaseView, n: int) -> bool {
    match ph {
        PhaseView::CasterSelect { candidates, .. } => names_members(candidates, n),
        PhaseView::SpellSelect { caster, .. } => caster < n,
        PhaseView::MemberSelect { candidates, .. } => names_members(candidates, n),
        PhaseView::ItemSelect { member, .. } => member < n,
        PhaseView::TargetSelect { candidates, .. } => names_members(candidates, n),
        _ => true,
    }
}

/// The open field menu.
#[derive(Debug)]
pub struct FieldMenuState {
    pub phase: FieldMenuPhase,
    /// The lines shown for the phase, built when the phase was set.
    pub cached_labels: Vec<String>,
    /// The lines that cannot be chosen.
    pub disabled_indices: Vec<usize>,
}

/// The texts of strings.
pub open spec fn texts(v: Seq<String>) -> Seq<Seq<char>> {
    v.map_values(|s: String| s@)
}

impl FieldMenuState {
    /// The lines shown for the phase, as they were last built.
    pub open spec fn labels(self) -> Seq<Seq<char>> {
        texts(self.cached_labels@)
    }

    /// The lines that cannot be chosen, as they were last built.
    pub open spec fn disabled(self) -> Seq<usize> {
        self.disabled_indices@
    }

    /// The lines and the disabled lines are those of the phase for the party.
    pub open spec fn shows(self, p: Seq<MemberView>) -> bool {
        &&& self.labels() == phase_labels(self.phase@, p)
        &&& self.disabled() == phase_disabled(self.phase@, p)
    }
}

fn caster_text(m: &PartyMember) -> (r: String)
    ensures
        r@ == caster_label(member_view(*m)),
{
    let mut s = String::from_str(m.kind.name());
    s.append(" HP:");
    let t = decimal_text(m.stats.hp);
    s.append(t.as_str());
    s.append("/");
    let t = decimal_text(m.stats.max_hp);
    s.append(t.as_str());
    s.append(" MP:");
    let t = decimal_text(m.stats.mp);
    s.append(t.as_str());
    s.append("/");
    let t = decimal_text(m.stats.max_mp);
    s.append(t.as_str());
    s
}

fn hp_text(m: &PartyMember) -> (r: String)
    ensures
        r@ == hp_label(member_view(*m)),
{
    let mut s = String::from_str(m.kind.name());
    s.append(" HP:");
    let t = decimal_text(m.stats.hp);
    s.append(t.as_str());
    s.append("/");
    let t = decimal_text(m.stats.max_hp);
    s.append(t.as_str());
    s
}

fn spell_text(k: SpellKind) -> (r: String)
    ensures
        r@ == spell_label(k),
{
    let mut s = String::from_str(k.name());
    s.append(" (");
    let t = decimal_text(k.mp_cost());
    s.append(t.as_str());
    s.append(")");
    s
}

fn item_text(m: &PartyMember, k: ItemKey) -> (r: String)
    ensures
        r@ == item_label(member_view(*m), k),
{
    let count = m.inventory.count(k);
    let count_text = unsigned_text(count as u64);
    let mut s = String::new();
    if k.is_weapon() {
        let equipped = match m.equipment.weapon {
            Some(w) => w == k,
            None => false,
        };
        if equipped {
            s.append("E ");
        }
        s.append(k.name());
        s.append(" ATK+");
        let t = decimal_text(k.entry().attack_bonus);
        s.append(t.as_str());
        s.append(" x");
        s.append(count_text.as_str());
        proof {
            assert(s@ =~= item_label(member_view(*m), k));
        }
    } else {
        s.append(k.name());
        s.append(" x");
        s.append(count_text.as_str());
        proof {
            assert(s@ =~= item_label(member_view(*m), k));
        }
    }
    s
}

proof fn lemma_texts_push(v: Seq<String>, s: String)
    ensures
        texts(v.push(s)) == texts(v).push(s@),
{
    assert(texts(v.push(s)) =~= texts(v).push(s@));
}

proof fn lemma_map_take_step<A, B>(v: Seq<A>, k: int, f: spec_fn(A) -> B)
    requires
        0 <= k < v.len(),
    ensures
        v.take(k + 1).map_values(f) == v.take(k).map_values(f).push(f(v[k])),
{
    assert(v.take(k + 1).map_values(f) =~= v.take(k).map_values(f).push(f(v[k])));
}

fn member_lines(cands: &Vec<usize>, party: &Vec<PartyMember>, with_mp: bool) -> (r: Vec<String>)
    requires
        names_members(cands@, party@.len() as int),
    ensures
        with_mp ==> texts(r@) == cands@.map_values(|i: usize| caster_label(party_view(party@)[i as int])),
        !with_mp ==> texts(r@) == cands@.map_values(|i: usize| hp_label(party_view(party@)[i as int])),
{
    let ghost p = party_view(party@);
    let ghost f = |i: usize| if with_mp { caster_label(p[i as int]) } else { hp_label(p[i as int]) };
    let mut out: Vec<String> = Vec::new();
    let mut k: usize = 0;
    while k < cands.len()
        invariant
            k <= cands@.len(),
            names_members(cands@, party@.len() as int),
            p == party_view(party@),
            f == (|i: usize| if with_mp { caster_label(p[i as int]) } else { hp_label(p[i as int]) }),
            texts(out@) == cands@.take(k as int).map_values(f),
        decreases cands@.len() - k,
    {
        let i = cands[k];
        proof {
            assert(cands@[k as int] < party@.len());
            assert(p[i as int] == member_view(party@[i as int]));
        }
        let line = if with_mp { caster_text(&party[i]) } else { hp_text(&party[i]) };
        proof {
            lemma_texts_push(out@, line);
            lemma_map_take_step(cands@, k as int, f);
        }
        out.push(line);
        k = k + 1;
    }
    proof {
        assert(cands@.take(cands@.len() as int) =~= cands@);
        if with_mp {
            assert(texts(out@) =~= cands@.map_values(|i: usize| caster_label(party_view(party@)[i as int])));
        } else {
            assert(texts(out@) =~= cands@.map_values(|i: usize| hp_label(party_view(party@)[i as int])));
        }
    }
    out
}

fn spell_lines(spells: &Vec<SpellKind>) -> (r: Vec<String>)
    ensures
        texts(r@) == spells@.map_values(|k: SpellKind| spell_label(k)),
{
    let mut out: Vec<String> = Vec::new();
    let mut k: usize = 0;
    while k < spells.len()
        invariant
            k <= spells@.len(),
            texts(out@) == spells@.take(k as int).map_values(|k: SpellKind| spell_label(k)),
        decreases spells@.len() - k,
    {
        let line = spell_text(spells[k]);
        proof {
            lemma_texts_push(out@, line);
            lemma_map_take_step(spells@, k as int, |k: SpellKind| spell_label(k));
        }
        out.push(line);
        k = k + 1;
    }
    proof {
        assert(spells@.take(spells@.len() as int) =~= spells@);
    }
    out
}

fn item_lines(m: &PartyMember, items: &Vec<ItemKey>) -> (r: Vec<String>)
    ensures
        texts(r@) == items@.map_values(|k: ItemKey| item_label(member_view(*m), k)),
{
    let mut out: Vec<String> = Vec::new();
    let mut k: usize = 0;
    while k < items.len()
        invariant
            k <= items@.len(),
            texts(out@) == items@.take(k as int).map_values(|k: ItemKey| item_label(member_view(*m), k)),
        decreases items@.len() - k,
    {
        let line = item_text(m, items[k]);
        proof {
            lemma_texts_push(out@, line);
            lemma_map_take_step(items@, k as int, |k: ItemKey| item_label(member_view(*m), k));
        }
        out.push(line);
        k = k + 1;
    }
    proof {
        assert(items@.take(items@.len() as int) =~= items@);
    }
    out
}

fn unaffordable_indices(spells: &Vec<SpellKind>, mp: i32) -> (r: Vec<usize>)
    ensures
        r@ == unaffordable(spells@, mp),
{
    let mut out: Vec<usize> = Vec::new();
    let mut k: usize = 0;
    while k < spells.len()
        invariant
            k <= spells@.len(),
            out@ == unaffordable(spells@.take(k as int), mp),
        decreases spells@.len() - k,
    {
        proof {
            assert(spells@.take(k + 1).drop_last() =~= spells@.take(k as int));
            assert(spells@.take(k + 1).last() == spells@[k as int]);
        }
        if mp < spells[k].mp_cost() {
            out.push(k);
        }
        k = k + 1;
    }
    proof {
        assert(spells@.take(spells@.len() as int) =~= spells@);
    }
    out
}

impl FieldMenuState {
    fn rebuild_cache(&mut self, party: &Vec<PartyMember>)
        requires
            phase_indices_ok(old(self).phase@, party@.len() as int),
        ensures
            final(self).phase@ == old(self).phase@,
            final(self).shows(party_view(party@)),
    {
        let ghost p = party_view(party@);
        let mut disabled: Vec<usize> = Vec::new();
        let labels: Vec<String> = match &self.phase {
            FieldMenuPhase::TopMenu { .. } => {
                let mut v: Vec<String> = Vec::new();
                v.push(String::from_str("じゅもん"));
                v.push(String::from_str("どうぐ"));
                proof {
                    assert(texts(v@) =~= seq!["じゅもん"@, "どうぐ"@]);
                }
                v
            },
            FieldMenuPhase::CasterSelect { candidates, .. } => member_lines(candidates, party, true),
            FieldMenuPhase::SpellSelect { caster, spells, .. } => {
                proof {
                    assert(p[*caster as int] == member_view(party@[*caster as int]));
                }
                disabled = unaffordable_indices(spells, party[*caster].stats.mp);
                spell_lines(spells)
            },
            FieldMenuPhase::MemberSelect { candidates, .. } => member_lines(candidates, party, false),
            FieldMenuPhase::ItemSelect { member, items, .. } => {
                proof {
                    assert(p[*member as int] == member_view(party@[*member as int]));
                }
                item_lines(&party[*member], items)
            },
            FieldMenuPhase::TargetSelect { candidates, .. } => member_lines(candidates, party, false),
            FieldMenuPhase::ShowMessage { .. } => Vec::new(),
        };
        self.cached_labels = labels;
        self.disabled_indices = disabled;
        proof {
            assert(self.labels() =~= phase_labels(self.phase@, p));
            assert(self.disabled() =~= phase_disabled(self.phase@, p));
        }
    }

    fn set_phase(&mut self, phase: FieldMenuPhase, party: &Vec<PartyMember>)
        requires
            phase_indices_ok(phase@, party@.len() as int),
        ensures
            final(self).phase@ == phase@,
            final(self).shows(party_view(party@)),
    {
        self.phase = phase;
        self.rebuild_cache(party);
    }

    /// A menu in a phase, its lines built for the party.
    pub fn new(phase: FieldMenuPhase, party: &Vec<PartyMember>) -> (r: Self)
        requires
            phase_indices_ok(phase@, party@.len() as int),
        ensures
            r.phase@ == phase@,
            r.labels() == phase_labels(phase@, party_view(party@)),
            r.disabled() == phase_disabled(phase@, party_view(party@)),
    {
        let mut s = FieldMenuState { phase, cached_labels: Vec::new(), disabled_indices: Vec::new() };
        s.rebuild_cache(party);
        s
    }

    /// The lines shown.
    pub fn menu_labels(&self) -> (r: Vec<String>)
        ensures
            texts(r@) == self.labels(),
    {
        let mut out: Vec<String> = Vec::new();
        let mut k: usize = 0;
        while k < self.cached_labels.len()
            invariant
                k <= self.cached_labels@.len(),
                texts(out@) == texts(self.cached_labels@.take(k as int)),
            decreases self.cached_labels@.len() - k,
        {
            let line = self.cached_labels[k].clone();
            proof {
                lemma_texts_push(out@, line);
                lemma_map_take_step(self.cached_labels@, k as int, |s: String| s@);
                assert(self.cached_labels@.take(k + 1) =~= self.cached_labels@.take(k as int).push(line));
                lemma_texts_push(self.cached_labels@.take(k as int), line);
            }
            out.push(line);
            k = k + 1;
        }
        proof {
            assert(self.cached_labels@.take(self.cached_labels@.len() as int) =~= self.cached_labels@);
        }
        out
    }

    /// The cursor of the phase; none while a message shows.
    pub fn selected(&self) -> (r: usize)
        ensures
            r == match self.phase@ {
                PhaseView::TopMenu { cursor } => cursor,
                PhaseView::CasterSelect { cursor, .. } => cursor,
                PhaseView::SpellSelect { cursor, .. } => cursor,
                PhaseView::MemberSelect { cursor, .. } => cursor,
                PhaseView::ItemSelect { cursor, .. } => cursor,
                PhaseView::TargetSelect { cursor, .. } => cursor,
                PhaseView::ShowMessage { .. } => 0,
            },
    {
        match &self.phase {
            FieldMenuPhase::TopMenu { cursor } => *cursor,
            FieldMenuPhase::CasterSelect { cursor, .. } => *cursor,
            FieldMenuPhase::SpellSelect { cursor, .. } => *cursor,
            FieldMenuPhase::MemberSelect { cursor, .. } => *cursor,
            FieldMenuPhase::ItemSelect { cursor, .. } => *cursor,
            FieldMenuPhase::TargetSelect { cursor, .. } => *cursor,
            FieldMenuPhase::ShowMessage { .. } => 0,
        }
    }

    /// Moves the cursor of the phase; a message has none.
    pub fn set_selected(&mut self, index: usize)
        ensures
            final(self).phase@ == with_cursor(old(self).phase@, index),
            final(self).cached_labels@ == old(self).cached_labels@,
            final(self).disabled_indices@ == old(self).disabled_indices@,
    {
        match &mut self.phase {
            FieldMenuPhase::TopMenu { cursor } => {
                *cursor = index;
            },
            FieldMenuPhase::CasterSelect { cursor, .. } => {
                *cursor = index;
            },
            FieldMenuPhase::SpellSelect { cursor, .. } => {
                *cursor = index;
            },
            FieldMenuPhase::MemberSelect { cursor, .. } => {
                *cursor = index;
            },
            FieldMenuPhase::ItemSelect { cursor, .. } => {
                *cursor = index;
            },
            FieldMenuPhase::TargetSelect { cursor, .. } => {
                *cursor = index;
            },
            FieldMenuPhase::ShowMessage { .. } => {},
        }
    }

    /// Menus read their keys while no message shows.
    pub fn is_active(&self) -> (r: bool)
        ensures
            r == !(self.phase@ is ShowMessage),
    {
        match &self.phase {
            FieldMenuPhase::ShowMessage { .. } => false,
            _ => true,
        }
    }

    /// Spell and item lists scroll, showing a few entries at a time.
    pub fn visible_items(&self) -> (r: Option<usize>)
        ensures
            r == if self.phase@ is SpellSelect || self.phase@ is ItemSelect { Some(VISIBLE_ITEMS) } else { None::<usize> },
    {
        match &self.phase {
            FieldMenuPhase::SpellSelect { .. } | FieldMenuPhase::ItemSelect { .. } => Some(VISIBLE_ITEMS),
            _ => None,
        }
    }

    /// Whether a line cannot be chosen.
    pub fn is_disabled(&self, index: usize) -> (r: bool)
        ensures
            r == self.disabled().contains(index),
    {
        let mut k: usize = 0;
        while k < self.disabled_indices.len()
            invariant
                k <= self.disabled_indices@.len(),
                forall|j: int| 0 <= j < k ==> self.disabled_indices@[j] != index,
            decreases self.disabled_indices@.len() - k,
        {
            if self.disabled_indices[k] == index {
                proof {
                    assert(self.disabled()[k as int] == index);
                }
                return true;
            }
            k = k + 1;
        }
        false
    }
}

// ---- frames ----

/// The phase of the menu, or `None` while it is closed.
pub open spec fn menu_phase(m: Option<FieldMenuState>) -> Option<PhaseView> {
    match m {
        Some(s) => Some(s.phase@),
        None => None,
    }
}

/// The menu is closed, or open, in order and showing the lines of its phase.
pub open spec fn menu_state_ok(m: Option<FieldMenuState>, p: Seq<MemberView>) -> bool {
    match m {
        Some(s) => menu_ok(s.phase@, p) && s.shows(p),
        None => true,
    }
}

proof fn lemma_view_update(ms: Seq<PartyMember>, i: int, m: PartyMember)
    requires
        0 <= i < ms.len(),
    ensures
        party_view(ms.update(i, m)) == party_view(ms).update(i, member_view(m)),
{
    assert(party_view(ms.update(i, m)) =~= party_view(ms).update(i, member_view(m)));
}

/// The living are read off the statistics; someone is alive as long as
/// no one loses HP.
proof fn lemma_living(p: Seq<MemberView>)
    requires
        p.len() <= usize::MAX,
    ensures
        names_members(living(p), p.len() as int),
        forall|i: int| 0 <= i < p.len() && (#[trigger] p[i]).stats.hp > 0 ==> living(p).len() > 0,
        living(p).len() > 0 ==> exists|i: int| 0 <= i < p.len() && (#[trigger] p[i]).stats.hp > 0,
{
    let s = view_stats(p);
    lemma_alive_list(s);
    assert forall|i: int| 0 <= i < p.len() && (#[trigger] p[i]).stats.hp > 0 implies living(p).len() > 0 by {
        assert(s[i] == p[i].stats);
        assert(alive_list(s).contains(i as usize));
    }
    if living(p).len() > 0 {
        let i = living(p)[0] as int;
        assert(s[i] == p[i].stats);
        assert(p[i].stats.hp > 0);
    }
}

/// Losing no HP keeps someone alive.
proof fn lemma_still_living(p: Seq<MemberView>, q: Seq<MemberView>)
    requires
        p.len() == q.len(),
        p.len() <= usize::MAX,
        living(p).len() > 0,
        forall|i: int| 0 <= i < p.len() ==> (#[trigger] q[i]).stats.hp >= p[i].stats.hp,
    ensures
        living(q).len() > 0,
{
    lemma_living(p);
    lemma_living(q);
    let i = choose|i: int| 0 <= i < p.len() && (#[trigger] p[i]).stats.hp > 0;
    assert(q[i].stats.hp > 0);
}

fn set_member(members: &mut Vec<PartyMember>, i: usize, stats: CombatStats)
    requires
        i < old(members)@.len(),
    ensures
        final(members)@ == old(members)@.update(i as int, PartyMember { stats, ..old(members)@[i as int] }),
        party_view(final(members)@) == with_stats(party_view(old(members)@), i as int, stats),
{
    let mut m = members.remove(i);
    m.stats = stats;
    members.insert(i, m);
    proof {
        assert(final(members)@ =~= old(members)@.update(i as int, PartyMember { stats, ..old(members)@[i as int] }));
        lemma_view_update(old(members)@, i as int, PartyMember { stats, ..old(members)@[i as int] });
        assert(party_view(final(members)@) =~= with_stats(party_view(old(members)@), i as int, stats));
    }
}

/// Heals one member by `amount`, up to the maximum.
fn heal_member(members: &mut Vec<PartyMember>, t: usize, amount: i32)
    requires
        t < old(members)@.len(),
        amount >= 1,
    ensures
        party_view(final(members)@) == healed(party_view(old(members)@), t as int, amount as int),
        final(members)@.len() == old(members)@.len(),
{
    let ts = members[t].stats;
    let sum: i64 = ts.hp as i64 + amount as i64;
    let new_hp: i32 = if sum < ts.max_hp as i64 { sum as i32 } else { ts.max_hp };
    proof {
        assert(member_view(old(members)@[t as int]).stats == ts);
    }
    set_member(members, t, CombatStats { hp: new_hp, ..ts });
}

/// Healing keeps HP within the maximum and takes none away.
proof fn lemma_heal_keeps(p: Seq<MemberView>, t: int, amount: int)
    requires
        0 <= t < p.len(),
        amount >= 1,
        hp_ok(p),
    ensures
        hp_ok(healed(p, t, amount)),
        healed(p, t, amount).len() == p.len(),
        forall|i: int| 0 <= i < p.len() ==> (#[trigger] healed(p, t, amount)[i]).stats.hp >= p[i].stats.hp,
        forall|i: int| 0 <= i < p.len() ==> (#[trigger] healed(p, t, amount)[i]).kind == p[i].kind,
{
}

/// The line of one healed member.
fn heal_line_text(k: PartyMemberKind, amount: i32) -> (r: String)
    ensures
        r@ == heal_line(k, amount as int),
{
    let mut s = String::from_str("\n");
    s.append(k.name());
    s.append("の HPが ");
    let t = decimal_text(amount);
    s.append(t.as_str());
    s.append("かいふく！");
    s
}

/// Heals the listed members one after another; the text holds a line per
/// healing.
fn heal_each(members: &mut Vec<PartyMember>, targets: &Vec<usize>, power: i32, randoms: &Vec<u32>) -> (r: String)
    requires
        names_members(targets@, old(members)@.len() as int),
        hp_ok(party_view(old(members)@)),
    ensures
        party_view(final(members)@) == heal_all(party_view(old(members)@), targets@, power as int, randoms@).0,
        r@ == heal_all(party_view(old(members)@), targets@, power as int, randoms@).1,
        final(members)@.len() == old(members)@.len(),
        hp_ok(party_view(final(members)@)),
        forall|i: int| 0 <= i < old(members)@.len() ==> (#[trigger] party_view(final(members)@)[i]).stats.hp >= party_view(old(members)@)[i].stats.hp,
{
    let ghost p0 = party_view(members@);
    let mut text = String::new();
    let mut k: usize = 0;
    proof {
        assert(targets@.take(0).len() == 0);
    }
    while k < targets.len()
        invariant
            k <= targets@.len(),
            p0.len() == members@.len(),
            names_members(targets@, p0.len() as int),
            party_view(members@) == heal_all(p0, targets@.take(k as int), power as int, randoms@).0,
            text@ == heal_all(p0, targets@.take(k as int), power as int, randoms@).1,
            hp_ok(party_view(members@)),
            forall|i: int| 0 <= i < p0.len() ==> (#[trigger] party_view(members@)[i]).stats.hp >= p0[i].stats.hp,
        decreases targets@.len() - k,
    {
        let t = targets[k];
        proof {
            assert(targets@[k as int] < p0.len());
            assert(targets@.take(k + 1).drop_last() =~= targets@.take(k as int));
            assert(targets@.take(k + 1).last() == t);
        }
        let r: u32 = if k < randoms.len() { randoms[k] } else { 1000 };
        let amount = calculate_heal_amount(power, r);
        let ghost before = party_view(members@);
        heal_member(members, t, amount);
        proof {
            lemma_heal_keeps(before, t as int, amount as int);
        }
        let kind = members[t].kind;
        proof {
            assert(party_view(members@)[t as int].kind == kind);
            assert(before[t as int].kind == kind);
        }
        let line = heal_line_text(kind, amount);
        text.append(line.as_str());
        k = k + 1;
    }
    proof {
        assert(targets@.take(targets@.len() as int) =~= targets@);
    }
    text
}

/// The living members, read off the party.
fn living_now(members: &Vec<PartyMember>) -> (r: Vec<usize>)
    ensures
        r@ == living(party_view(members@)),
        names_members(r@, members@.len() as int),
{
    let r = alive_member_indices(members);
    let _n = members.len();
    proof {
        assert(view_stats(party_view(members@)) =~= stats_of(members@));
        lemma_living(party_view(members@));
    }
    r
}

fn cast_line_text(k: PartyMemberKind, spell: SpellKind) -> (r: String)
    ensures
        r@ == cast_line(k, spell),
{
    let mut s = String::from_str(k.name());
    s.append("は ");
    s.append(spell.name());
    s.append("を となえた！");
    s
}

fn item_heal_text(user: PartyMemberKind, item: ItemKey, target: PartyMemberKind, amount: i32) -> (r: String)
    ensures
        r@ == item_heal_message(user, item, target, amount as int),
{
    let mut s = String::from_str(user.name());
    s.append("は ");
    s.append(item.name());
    s.append("を つかった！\n");
    s.append(target.name());
    s.append("の HPが ");
    let t = decimal_text(amount);
    s.append(t.as_str());
    s.append("かいふく！");
    s
}

fn equip_text(k: PartyMemberKind, weapon: ItemKey, previous: Option<ItemKey>) -> (r: String)
    ensures
        r@ == equip_message(k, weapon, previous),
{
    let mut s = String::from_str(k.name());
    s.append("は ");
    s.append(weapon.name());
    s.append("を そうびした！");
    match previous {
        Some(w) => {
            s.append("\n");
            s.append(w.name());
            s.append("を はずした");
        },
        None => {},
    }
    proof {
        assert(s@ =~= equip_message(k, weapon, previous));
    }
    s
}

fn examine_text(k: PartyMemberKind, item: ItemKey) -> (r: String)
    ensures
        r@ == examine_message(k, item),
{
    let mut s = String::from_str(k.name());
    s.append("は ");
    s.append(item.name());
    s.append("を しらべた。\n");
    s.append(item.entry().description);
    s
}

/// A message to show, its lines built.
fn show(message: String, members: &Vec<PartyMember>) -> (r: FieldMenuState)
    ensures
        r.phase@ == (PhaseView::ShowMessage { message: message@ }),
        r.shows(party_view(members@)),
{
    FieldMenuState::new(FieldMenuPhase::ShowMessage { message }, members)
}

fn top_frame(cursor: usize, labels: Vec<String>, disabled: Vec<usize>, members: &Vec<PartyMember>, keys: KeyPresses) -> (r: (Option<FieldMenuState>, MenuAction))
    requires
        menu_ok(PhaseView::TopMenu { cursor }, party_view(members@)),
        (FieldMenuState { phase: FieldMenuPhase::TopMenu { cursor }, cached_labels: labels, disabled_indices: disabled }).shows(party_view(members@)),
    ensures
        menu_phase(r.0) == top_step(cursor, party_view(members@), keys).0,
        r.1 == top_step(cursor, party_view(members@), keys).2,
        menu_state_ok(r.0, party_view(members@)),
{
    let c = move_clamped(cursor, 2, keys.up, keys.down);
    if keys.cancel {
        return (None, MenuAction::CloseMenu);
    }
    if keys.confirm {
        let candidates = living_now(members);
        let phase = if c == 0 {
            FieldMenuPhase::CasterSelect { candidates, cursor: 0 }
        } else {
            FieldMenuPhase::MemberSelect { candidates, cursor: 0 }
        };
        return (Some(FieldMenuState::new(phase, members)), MenuAction::Nothing);
    }
    (Some(FieldMenuState { phase: FieldMenuPhase::TopMenu { cursor: c }, cached_labels: labels, disabled_indices: disabled }), MenuAction::Nothing)
}

fn caster_frame(candidates: Vec<usize>, cursor: usize, labels: Vec<String>, disabled: Vec<usize>, members: &Vec<PartyMember>, keys: KeyPresses) -> (r: (Option<FieldMenuState>, MenuAction))
    requires
        menu_ok(PhaseView::CasterSelect { candidates: candidates@, cursor }, party_view(members@)),
        (FieldMenuState { phase: FieldMenuPhase::CasterSelect { candidates, cursor }, cached_labels: labels, disabled_indices: disabled }).shows(party_view(members@)),
    ensures
        menu_phase(r.0) == caster_select_step(candidates@, cursor, party_view(members@), keys).0,
        r.1 == caster_select_step(candidates@, cursor, party_view(members@), keys).2,
        menu_state_ok(r.0, party_view(members@)),
{
    let c = move_clamped(cursor, candidates.len(), keys.up, keys.down);
    if keys.cancel {
        return (Some(FieldMenuState::new(FieldMenuPhase::TopMenu { cursor: 0 }, members)), MenuAction::Nothing);
    }
    if keys.confirm {
        let who = candidates[c];
        proof {
            assert(candidates@[c as int] < members@.len());
            assert(party_view(members@)[who as int] == member_view(members@[who as int]));
        }
        let spells = available_spells(members[who].kind, members[who].level);
        if spells.len() == 0 {
            return (Some(show(String::from_str("じゅもんを おぼえていない"), members)), MenuAction::Nothing);
        }
        let phase = FieldMenuPhase::SpellSelect { caster: who, spells, cursor: 0 };
        return (Some(FieldMenuState::new(phase, members)), MenuAction::Nothing);
    }
    (
        Some(FieldMenuState { phase: FieldMenuPhase::CasterSelect { candidates, cursor: c }, cached_labels: labels, disabled_indices: disabled }),
        MenuAction::Nothing,
    )
}

fn spell_frame(
    caster: usize,
    spells: Vec<SpellKind>,
    cursor: usize,
    labels: Vec<String>,
    disabled: Vec<usize>,
    members: &mut Vec<PartyMember>,
    keys: KeyPresses,
    randoms: &Vec<u32>,
) -> (r: (Option<FieldMenuState>, MenuAction))
    requires
        menu_ok(PhaseView::SpellSelect { caster, spells: spells@, cursor }, party_view(old(members)@)),
        (FieldMenuState { phase: FieldMenuPhase::SpellSelect { caster, spells, cursor }, cached_labels: labels, disabled_indices: disabled }).shows(party_view(old(members)@)),
    ensures
        menu_phase(r.0) == spell_select_step(caster, spells@, cursor, party_view(old(members)@), keys, randoms@).0,
        party_view(final(members)@) == spell_select_step(caster, spells@, cursor, party_view(old(members)@), keys, randoms@).1,
        r.1 == spell_select_step(caster, spells@, cursor, party_view(old(members)@), keys, randoms@).2,
        final(members)@.len() == old(members)@.len(),
        menu_state_ok(r.0, party_view(final(members)@)),
{
    let ghost p = party_view(members@);
    let _n = members.len();
    let c = move_clamped(cursor, spells.len(), keys.up, keys.down);
    if keys.cancel {
        let candidates = living_now(members);
        return (Some(FieldMenuState::new(FieldMenuPhase::CasterSelect { candidates, cursor: 0 }, members)), MenuAction::Nothing);
    }
    if keys.confirm {
        let spell = spells[c];
        let cost = spell.mp_cost();
        proof {
            assert(p[caster as int] == member_view(members@[caster as int]));
        }
        if members[caster].stats.mp < cost {
            return (
                Some(FieldMenuState { phase: FieldMenuPhase::SpellSelect { caster, spells, cursor: c }, cached_labels: labels, disabled_indices: disabled }),
                MenuAction::Nothing,
            );
        }
        if !spell.is_usable_in_field() {
            return (Some(show(String::from_str("フィールドでは つかえない"), members)), MenuAction::Nothing);
        }
        let all_allies = match spell.target_type() {
            SpellTarget::AllAllies => true,
            _ => false,
        };
        if all_allies {
            let mut cs = members[caster].stats;
            let _spent = cs.use_mp(cost);
            let kind = members[caster].kind;
            set_member(members, caster, cs);
            let ghost p1 = party_view(members@);
            proof {
                assert(p1 =~= paid(p, caster as int, cost as int));
                assert(hp_ok(p1)) by {
                    assert forall|i: int| 0 <= i < p1.len() implies (#[trigger] p1[i]).stats.hp <= p1[i].stats.max_hp by {
                        assert(p[i].stats.hp <= p[i].stats.max_hp);
                    }
                }
            }
            let targets = living_now(members);
            let mut message = cast_line_text(kind, spell);
            let lines = heal_each(members, &targets, spell.power(), randoms);
            message.append(lines.as_str());
            proof {
                assert forall|i: int| 0 <= i < p.len() implies (#[trigger] party_view(members@)[i]).stats.hp >= p[i].stats.hp by {
                    assert(p1[i].stats.hp == p[i].stats.hp);
                }
                lemma_still_living(p, party_view(members@));
            }
            return (Some(show(message, members)), MenuAction::Nothing);
        }
        let candidates = living_now(members);
        let phase = FieldMenuPhase::TargetSelect {
            candidates,
            cursor: 0,
            context: TargetContext::Spell { caster, spells, spell_cursor: c },
        };
        return (Some(FieldMenuState::new(phase, members)), MenuAction::Nothing);
    }
    (
        Some(FieldMenuState { phase: FieldMenuPhase::SpellSelect { caster, spells, cursor: c }, cached_labels: labels, disabled_indices: disabled }),
        MenuAction::Nothing,
    )
}

fn member_frame(candidates: Vec<usize>, cursor: usize, labels: Vec<String>, disabled: Vec<usize>, members: &Vec<PartyMember>, keys: KeyPresses) -> (r: (Option<FieldMenuState>, MenuAction))
    requires
        menu_ok(PhaseView::MemberSelect { candidates: candidates@, cursor }, party_view(members@)),
        (FieldMenuState { phase: FieldMenuPhase::MemberSelect { candidates, cursor }, cached_labels: labels, disabled_indices: disabled }).shows(party_view(members@)),
    ensures
        menu_phase(r.0) == member_select_step(candidates@, cursor, party_view(members@), keys).0,
        r.1 == member_select_step(candidates@, cursor, party_view(members@), keys).2,
        menu_state_ok(r.0, party_view(members@)),
{
    let c = move_clamped(cursor, candidates.len(), keys.up, keys.down);
    if keys.cancel {
        return (Some(FieldMenuState::new(FieldMenuPhase::TopMenu { cursor: 0 }, members)), MenuAction::Nothing);
    }
    if keys.confirm {
        let who = candidates[c];
        proof {
            assert(candidates@[c as int] < members@.len());
            assert(party_view(members@)[who as int] == member_view(members@[who as int]));
        }
        let items = members[who].inventory.owned_items();
        proof {
            let inv = members@[who as int].inventory;
            let f1 = |k: ItemKey| inv.count_of(k) > 0;
            let f2 = |k: ItemKey| party_view(members@)[who as int].counts[key_index(k)] > 0;
            assert(f1 =~= f2);
            assert(items@ == held_items(party_view(members@)[who as int]));
        }
        if items.len() == 0 {
            return (Some(show(String::from_str("もちものが ない"), members)), MenuAction::Nothing);
        }
        let phase = FieldMenuPhase::ItemSelect { member: who, items, cursor: 0 };
        return (Some(FieldMenuState::new(phase, members)), MenuAction::Nothing);
    }
    (
        Some(FieldMenuState { phase: FieldMenuPhase::MemberSelect { candidates, cursor: c }, cached_labels: labels, disabled_indices: disabled }),
        MenuAction::Nothing,
    )
}

fn item_frame(
    member: usize,
    items: Vec<ItemKey>,
    cursor: usize,
    labels: Vec<String>,
    disabled: Vec<usize>,
    members: &mut Vec<PartyMember>,
    keys: KeyPresses,
) -> (r: (Option<FieldMenuState>, MenuAction))
    requires
        menu_ok(PhaseView::ItemSelect { member, items: items@, cursor }, party_view(old(members)@)),
        (FieldMenuState { phase: FieldMenuPhase::ItemSelect { member, items, cursor }, cached_labels: labels, disabled_indices: disabled }).shows(party_view(old(members)@)),
    ensures
        menu_phase(r.0) == item_select_step(member, items@, cursor, party_view(old(members)@), keys).0,
        party_view(final(members)@) == item_select_step(member, items@, cursor, party_view(old(members)@), keys).1,
        r.1 == item_select_step(member, items@, cursor, party_view(old(members)@), keys).2,
        final(members)@.len() == old(members)@.len(),
        menu_state_ok(r.0, party_view(final(members)@)),
{
    let ghost p = party_view(members@);
    let c = move_clamped(cursor, items.len(), keys.up, keys.down);
    if keys.cancel {
        let candidates = living_now(members);
        return (Some(FieldMenuState::new(FieldMenuPhase::MemberSelect { candidates, cursor: 0 }, members)), MenuAction::Nothing);
    }
    if keys.confirm {
        let item = items[c];
        let entry = item.entry();
        proof {
            assert(p[member as int] == member_view(members@[member as int]));
        }
        match entry.effect {
            ItemEffect::Heal { .. } => {
                let candidates = living_now(members);
                let phase = FieldMenuPhase::TargetSelect {
                    candidates,
                    cursor: 0,
                    context: TargetContext::Item { member, items, item_cursor: c },
                };
                return (Some(FieldMenuState::new(phase, members)), MenuAction::Nothing);
            },
            _ => {},
        }
        if item.is_weapon() {
            let mut m = members.remove(member);
            let previous = m.equipment.equip_weapon(item);
            let kind = m.kind;
            let ghost mv = m;
            members.insert(member, m);
            proof {
                assert(members@ =~= old(members)@.update(member as int, mv));
                lemma_view_update(old(members)@, member as int, mv);
                assert(member_view(mv) == (MemberView { weapon: Some(item), ..p[member as int] }));
                assert(party_view(members@) =~= p.update(member as int, MemberView { weapon: Some(item), ..p[member as int] }));
                assert(view_stats(party_view(members@)) =~= view_stats(p));
            }
            let message = equip_text(kind, item, previous);
            return (Some(show(message, members)), MenuAction::Nothing);
        }
        let message = examine_text(members[member].kind, item);
        return (Some(show(message, members)), MenuAction::Nothing);
    }
    (
        Some(FieldMenuState { phase: FieldMenuPhase::ItemSelect { member, items, cursor: c }, cached_labels: labels, disabled_indices: disabled }),
        MenuAction::Nothing,
    )
}

fn target_frame(
    candidates: Vec<usize>,
    cursor: usize,
    context: TargetContext,
    labels: Vec<String>,
    disabled: Vec<usize>,
    members: &mut Vec<PartyMember>,
    keys: KeyPresses,
    randoms: &Vec<u32>,
) -> (r: (Option<FieldMenuState>, MenuAction))
    requires
        menu_ok(PhaseView::TargetSelect { candidates: candidates@, cursor, context: context@ }, party_view(old(members)@)),
        (FieldMenuState { phase: FieldMenuPhase::TargetSelect { candidates, cursor, context }, cached_labels: labels, disabled_indices: disabled }).shows(party_view(old(members)@)),
    ensures
        menu_phase(r.0) == target_select_step(candidates@, cursor, context@, party_view(old(members)@), keys, randoms@).0,
        party_view(final(members)@) == target_select_step(candidates@, cursor, context@, party_view(old(members)@), keys, randoms@).1,
        r.1 == target_select_step(candidates@, cursor, context@, party_view(old(members)@), keys, randoms@).2,
        final(members)@.len() == old(members)@.len(),
        menu_state_ok(r.0, party_view(final(members)@)),
{
    let ghost p = party_view(members@);
    let ghost ctx = context@;
    let _n = members.len();
    let c = move_clamped(cursor, candidates.len(), keys.up, keys.down);
    if keys.cancel {
        let phase = match context {
            TargetContext::Item { member, items, item_cursor } => FieldMenuPhase::ItemSelect { member, items, cursor: item_cursor },
            TargetContext::Spell { caster, spells, spell_cursor } => FieldMenuPhase::SpellSelect { caster, spells, cursor: spell_cursor },
        };
        return (Some(FieldMenuState::new(phase, members)), MenuAction::Nothing);
    }
    if !keys.confirm {
        return (
            Some(FieldMenuState { phase: FieldMenuPhase::TargetSelect { candidates, cursor: c, context }, cached_labels: labels, disabled_indices: disabled }),
            MenuAction::Nothing,
        );
    }
    let t = candidates[c];
    proof {
        assert(candidates@[c as int] < p.len());
        assert(p[t as int] == member_view(members@[t as int]));
    }
    let random: u32 = if randoms.len() > 0 { randoms[0] } else { 1000 };
    match context {
        TargetContext::Item { member, items, item_cursor } => {
            let item = items[item_cursor];
            proof {
                assert(p[member as int] == member_view(members@[member as int]));
            }
            match item.entry().effect {
                ItemEffect::Heal { power } => {
                    let user = members[member].kind;
                    let mut m = members.remove(member);
                    let used = m.inventory.use_item(item);
                    let ghost mv = m;
                    members.insert(member, m);
                    proof {
                        assert(members@ =~= old(members)@.update(member as int, mv));
                        lemma_view_update(old(members)@, member as int, mv);
                    }
                    if !used {
                        proof {
                            assert(party_view(members@) =~= p);
                        }
                        let context = TargetContext::Item { member, items, item_cursor };
                        return (
                            Some(FieldMenuState { phase: FieldMenuPhase::TargetSelect { candidates, cursor: c, context }, cached_labels: labels, disabled_indices: disabled }),
                            MenuAction::Nothing,
                        );
                    }
                    let ghost p1 = party_view(members@);
                    proof {
                        let m0 = p[member as int];
                        assert(p1 =~= p.update(
                            member as int,
                            MemberView { counts: m0.counts.update(key_index(item), (m0.counts[key_index(item)] - 1) as u32), ..m0 },
                        ));
                        assert(hp_ok(p1)) by {
                            assert forall|i: int| 0 <= i < p1.len() implies (#[trigger] p1[i]).stats.hp <= p1[i].stats.max_hp by {
                                assert(p[i].stats.hp <= p[i].stats.max_hp);
                            }
                        }
                    }
                    let amount = calculate_heal_amount(power, random);
                    let target_kind = members[t].kind;
                    proof {
                        assert(party_view(members@)[t as int].kind == p[t as int].kind);
                    }
                    heal_member(members, t, amount);
                    proof {
                        lemma_heal_keeps(p1, t as int, amount as int);
                        assert forall|i: int| 0 <= i < p.len() implies (#[trigger] party_view(members@)[i]).stats.hp >= p[i].stats.hp by {
                            assert(p1[i].stats.hp == p[i].stats.hp);
                        }
                        lemma_still_living(p, party_view(members@));
                    }
                    let message = item_heal_text(user, item, target_kind, amount);
                    (Some(show(message, members)), MenuAction::Nothing)
                },
                _ => {
                    let context = TargetContext::Item { member, items, item_cursor };
                    (
                        Some(FieldMenuState { phase: FieldMenuPhase::TargetSelect { candidates, cursor: c, context }, cached_labels: labels, disabled_indices: disabled }),
                        MenuAction::Nothing,
                    )
                },
            }
        },
        TargetContext::Spell { caster, spells, spell_cursor } => {
            let spell = spells[spell_cursor];
            let cost = spell.mp_cost();
            proof {
                assert(p[caster as int] == member_view(members@[caster as int]));
            }
            let mut cs = members[caster].stats;
            if !cs.use_mp(cost) {
                let context = TargetContext::Spell { caster, spells, spell_cursor };
                return (
                    Some(FieldMenuState { phase: FieldMenuPhase::TargetSelect { candidates, cursor: c, context }, cached_labels: labels, disabled_indices: disabled }),
                    MenuAction::Nothing,
                );
            }
            let caster_kind = members[caster].kind;
            set_member(members, caster, cs);
            let ghost p1 = party_view(members@);
            proof {
                assert(p1 =~= paid(p, caster as int, cost as int));
                assert(hp_ok(p1)) by {
                    assert forall|i: int| 0 <= i < p1.len() implies (#[trigger] p1[i]).stats.hp <= p1[i].stats.max_hp by {
                        assert(p[i].stats.hp <= p[i].stats.max_hp);
                    }
                }
            }
            let amount = calculate_heal_amount(spell.power(), random);
            let target_kind = members[t].kind;
            proof {
                assert(party_view(members@)[t as int].kind == p[t as int].kind);
            }
            heal_member(members, t, amount);
            proof {
                lemma_heal_keeps(p1, t as int, amount as int);
                assert forall|i: int| 0 <= i < p.len() implies (#[trigger] party_view(members@)[i]).stats.hp >= p[i].stats.hp by {
                    assert(p1[i].stats.hp == p[i].stats.hp);
                }
                lemma_still_living(p, party_view(members@));
            }
            let message = heal_text(caster_kind, spell, target_kind, amount);
            (Some(show(message, members)), MenuAction::Nothing)
        },
    }
}

fn message_frame(message: String, labels: Vec<String>, disabled: Vec<usize>, members: &Vec<PartyMember>, keys: KeyPresses) -> (r: (Option<FieldMenuState>, MenuAction))
    requires
        menu_ok(PhaseView::ShowMessage { message: message@ }, party_view(members@)),
        (FieldMenuState { phase: FieldMenuPhase::ShowMessage { message }, cached_labels: labels, disabled_indices: disabled }).shows(party_view(members@)),
    ensures
        menu_phase(r.0) == message_step(PhaseView::ShowMessage { message: message@ }, party_view(members@), keys).0,
        r.1 == message_step(PhaseView::ShowMessage { message: message@ }, party_view(members@), keys).2,
        menu_state_ok(r.0, party_view(members@)),
{
    if keys.cancel {
        return (None, MenuAction::CloseMenu);
    }
    if keys.confirm {
        return (Some(FieldMenuState::new(FieldMenuPhase::TopMenu { cursor: 0 }, members)), MenuAction::Nothing);
    }
    (Some(FieldMenuState { phase: FieldMenuPhase::ShowMessage { message }, cached_labels: labels, disabled_indices: disabled }), MenuAction::Nothing)
}

/// One frame of the field menu, given the keys pressed and the random
/// factors (in thousandths) for the healings it may make, in order: the
/// menu and the party change as `field_menu_step` says, and the result
/// tells the screen whether to open or close the menu. An open menu stays
/// in order and shows the lines of its phase for the party.
pub fn field_menu_input(
    menu: &mut Option<FieldMenuState>,
    members: &mut Vec<PartyMember>,
    keys: KeyPresses,
    randoms: &Vec<u32>,
) -> (r: MenuAction)
    requires
        hp_ok(party_view(old(members)@)),
        menu_state_ok(*old(menu), party_view(old(members)@)),
    ensures
        menu_phase(*final(menu)) == field_menu_step(menu_phase(*old(menu)), party_view(old(members)@), keys, randoms@).0,
        party_view(final(members)@) == field_menu_step(menu_phase(*old(menu)), party_view(old(members)@), keys, randoms@).1,
        r == field_menu_step(menu_phase(*old(menu)), party_view(old(members)@), keys, randoms@).2,
        hp_ok(party_view(final(members)@)),
        menu_state_ok(*final(menu), party_view(final(members)@)),
{
    let current = menu.take();
    match current {
        None => {
            if keys.menu {
                let alive = living_now(members);
                if alive.len() > 0 {
                    *menu = Some(FieldMenuState::new(FieldMenuPhase::TopMenu { cursor: 0 }, members));
                    return MenuAction::OpenMenu;
                }
            }
            MenuAction::Nothing
        },
        Some(st) => {
            let FieldMenuState { phase, cached_labels, disabled_indices } = st;
            let (next, action) = match phase {
                FieldMenuPhase::TopMenu { cursor } => top_frame(cursor, cached_labels, disabled_indices, members, keys),
                FieldMenuPhase::CasterSelect { candidates, cursor } => caster_frame(candidates, cursor, cached_labels, disabled_indices, members, keys),
                FieldMenuPhase::SpellSelect { caster, spells, cursor } => spell_frame(caster, spells, cursor, cached_labels, disabled_indices, members, keys, randoms),
                FieldMenuPhase::MemberSelect { candidates, cursor } => member_frame(candidates, cursor, cached_labels, disabled_indices, members, keys),
                FieldMenuPhase::ItemSelect { member, items, cursor } => item_frame(member, items, cursor, cached_labels, disabled_indices, members, keys),
                FieldMenuPhase::TargetSelect { candidates, cursor, context } => target_frame(candidates, cursor, context, cached_labels, disabled_indices, members, keys, randoms),
                FieldMenuPhase::ShowMessage { message } => message_frame(message, cached_labels, disabled_indices, members, keys),
            };
            *menu = next;
            action
        },
    }
}


/// The title of the field menu at each step.
pub open spec fn menu_title(p: PhaseView, ms: Seq<MemberView>) -> Seq<char> {
    match p {
        PhaseView::TopMenu { .. } => Seq::empty(),
        PhaseView::CasterSelect { .. } => "だれが じゅもんを つかう？"@,
        PhaseView::SpellSelect { caster, .. } => member_name(ms[caster as int].kind)@ + "の じゅもん"@,
        PhaseView::MemberSelect { .. } => "だれの どうぐを つかう？"@,
        PhaseView::ItemSelect { member, .. } => member_name(ms[member as int].kind)@ + "の もちもの"@,
        PhaseView::TargetSelect { .. } => "だれに つかう？"@,
        PhaseView::ShowMessage { message } => message,
    }
}

/// The title shown above the field menu: the question of the step, or the
/// message being shown.
pub fn field_menu_title(menu: &FieldMenuState, members: &Vec<PartyMember>) -> (r: String)
    requires
        menu.phase@ matches PhaseView::SpellSelect { caster, .. } ==> caster < members@.len(),
        menu.phase@ matches PhaseView::ItemSelect { member, .. } ==> member < members@.len(),
    ensures
        r@ == menu_title(menu.phase@, party_view(members@)),
{
    match &menu.phase {
        FieldMenuPhase::TopMenu { .. } => String::new(),
        FieldMenuPhase::CasterSelect { .. } => String::from_str("だれが じゅもんを つかう？"),
        FieldMenuPhase::SpellSelect { caster, .. } => {
            let mut s = String::from_str(members[*caster].kind.name());
            s.append("の じゅもん");
            s
        },
        FieldMenuPhase::MemberSelect { .. } => String::from_str("だれの どうぐを つかう？"),
        FieldMenuPhase::ItemSelect { member, .. } => {
            let mut s = String::from_str(members[*member].kind.name());
            s.append("の もちもの");
            s
        },
        FieldMenuPhase::TargetSelect { .. } => String::from_str("だれに つかう？"),
        FieldMenuPhase::ShowMessage { message } => message.clone(),
    }
}


/// The cursor of a phase; none while a message shows.
pub open spec fn phase_cursor(ph: PhaseView) -> usize {
    match ph {
        PhaseView::TopMenu { cursor } => cursor,
        PhaseView::CasterSelect { cursor, .. } => cursor,
        PhaseView::SpellSelect { cursor, .. } => cursor,
        PhaseView::MemberSelect { cursor, .. } => cursor,
        PhaseView::ItemSelect { cursor, .. } => cursor,
        PhaseView::TargetSelect { cursor, .. } => cursor,
        PhaseView::ShowMessage { .. } => 0,
    }
}

/// The cursor after a frame of the up and down keys over `count` lines,
/// wrapping round at both ends; with both pressed, down wins, counted from
/// where the cursor stood.
pub open spec fn navigated(current: int, count: int, up: bool, down: bool) -> int {
    if down {
        if current < count - 1 { current + 1 } else { 0 }
    } else if up {
        if current > 0 { current - 1 } else { count - 1 }
    } else {
        current
    }
}

/// Moves the cursor of the menu with the up and down keys, wrapping round;
/// a menu showing a message, or with no lines, stays as it is.
pub fn handle_menu_navigation(menu: &mut FieldMenuState, keys: KeyPresses)
    ensures
        final(menu).cached_labels@ == old(menu).cached_labels@,
        final(menu).disabled_indices@ == old(menu).disabled_indices@,
        final(menu).phase@ == if !(old(menu).phase@ is ShowMessage) && old(menu).cached_labels@.len() > 0 && (keys.up || keys.down) {
            with_cursor(
                old(menu).phase@,
                navigated(phase_cursor(old(menu).phase@) as int, old(menu).cached_labels@.len() as int, keys.up, keys.down) as usize,
            )
        } else {
            old(menu).phase@
        },
{
    if !menu.is_active() {
        return;
    }
    let count = menu.cached_labels.len();
    if count == 0 {
        return;
    }
    let current = menu.selected();
    if keys.up {
        menu.set_selected(if current > 0 { current - 1 } else { count - 1 });
    }
    if keys.down {
        menu.set_selected(if current < count - 1 { current + 1 } else { 0 });
    }
}


/// The positions of the unaffordable spells rise strictly, lie inside the
/// list, and are exactly those of the spells costing more than `mp`.
pub proof fn lemma_unaffordable(spells: Seq<SpellKind>, mp: i32)
    requires
        spells.len() <= usize::MAX,
    ensures
        forall|a: int, b: int| 0 <= a < b < unaffordable(spells, mp).len() ==>
            #[trigger] unaffordable(spells, mp)[a] < #[trigger] unaffordable(spells, mp)[b],
        forall|a: int| 0 <= a < unaffordable(spells, mp).len() ==> #[trigger] unaffordable(spells, mp)[a] < spells.len(),
        forall|i: usize| i < spells.len() ==>
            (unaffordable(spells, mp).contains(i) <==> mp < mp_cost_spec(#[trigger] spells[i as int])),
    decreases spells.len(),
{
    if spells.len() > 0 {
        let d = spells.drop_last();
        lemma_unaffordable(d, mp);
        let rest = unaffordable(d, mp);
        let u = unaffordable(spells, mp);
        let n = (spells.len() - 1) as usize;
        let last_out = mp < mp_cost_spec(spells.last());
        if last_out {
            assert(u == rest.push(n));
        } else {
            assert(u == rest);
        }
        assert forall|a: int, b: int| 0 <= a < b < u.len() implies #[trigger] u[a] < #[trigger] u[b] by {
            if b < rest.len() {
                assert(u[a] == rest[a] && u[b] == rest[b]);
                assert(rest[a] < rest[b]);
            } else {
                assert(last_out && b == rest.len());
                assert(u[a] == rest[a] && u[b] == n);
                assert(rest[a] < d.len());
            }
        }
        assert forall|a: int| 0 <= a < u.len() implies #[trigger] u[a] < spells.len() by {
            if a < rest.len() {
                assert(rest[a] < d.len());
            }
        }
        assert forall|i: usize| i < spells.len() implies
            (u.contains(i) <==> mp < mp_cost_spec(#[trigger] spells[i as int])) by {
            if (i as int) < spells.len() - 1 {
                assert(d[i as int] == spells[i as int]);
                assert(rest.contains(i) <==> mp < mp_cost_spec(d[i as int]));
                if u.contains(i) {
                    let k = choose|k: int| 0 <= k < u.len() && u[k] == i;
                    if k < rest.len() {
                        assert(rest[k] == i);
                    }
                }
                if rest.contains(i) {
                    let k = choose|k: int| 0 <= k < rest.len() && rest[k] == i;
                    assert(u[k] == i);
                }
            } else {
                assert(i as int == spells.len() - 1);
                assert(i == n);
                if last_out {
                    assert(u[rest.len() as int] == n);
                } else if u.contains(i) {
                    let k = choose|k: int| 0 <= k < u.len() && u[k] == i;
                    assert(rest[k] < d.len());
                }
            }
        }
    }
}

/// The lines the menu builds for a phase: the two top entries, one per
/// candidate, spell or item, none for a message; only spells the caster
/// cannot pay for are greyed out, by rising position.
pub proof fn lemma_phase_cache(ph: PhaseView, p: Seq<MemberView>)
    requires
        ph matches PhaseView::SpellSelect { spells, .. } ==> spells.len() <= usize::MAX,
    ensures
        ph is TopMenu ==> phase_labels(ph, p) == seq!["じゅもん"@, "どうぐ"@],
        ph matches PhaseView::CasterSelect { candidates, .. } ==> phase_labels(ph, p).len() == candidates.len(),
        ph matches PhaseView::MemberSelect { candidates, .. } ==> phase_labels(ph, p).len() == candidates.len(),
        ph matches PhaseView::TargetSelect { candidates, .. } ==> phase_labels(ph, p).len() == candidates.len(),
        ph matches PhaseView::ItemSelect { items, .. } ==> phase_labels(ph, p).len() == items.len(),
        ph matches PhaseView::SpellSelect { spells, .. } ==> {
            &&& phase_labels(ph, p).len() == spells.len()
            &&& forall|i: int| 0 <= i < spells.len() ==> #[trigger] phase_labels(ph, p)[i] == spell_label(spells[i])
        },
        ph is ShowMessage ==> phase_labels(ph, p).len() == 0,
        !(ph is SpellSelect) ==> phase_disabled(ph, p).len() == 0,
        forall|a: int, b: int| 0 <= a < b < phase_disabled(ph, p).len() ==>
            #[trigger] phase_disabled(ph, p)[a] < #[trigger] phase_disabled(ph, p)[b],
        ph matches PhaseView::SpellSelect { caster, spells, .. } ==> forall|i: usize| i < spells.len() ==>
            (phase_disabled(ph, p).contains(i) <==> p[caster as int].stats.mp < mp_cost_spec(#[trigger] spells[i as int])),
        ph matches PhaseView::SpellSelect { spells, .. } ==> forall|a: int| 0 <= a < phase_disabled(ph, p).len() ==>
            #[trigger] phase_disabled(ph, p)[a] < spells.len(),
{
    match ph {
        PhaseView::SpellSelect { caster, spells, .. } => {
            lemma_unaffordable(spells, p[caster as int].stats.mp);
        },
        _ => {},
    }
}

} // verus!
