//! Choosing the party's commands for a turn, one living member after
//! another: attack, spell, item or escape, then a target where one is
//! needed. When the last living member has chosen, the turn can be run.
use vstd::prelude::*;
use crate::character_table::CharacterParamTable;
use crate::battle_turn::{command_ok, commands_ok};
use crate::combat::{alive_list, lemma_alive_list, BattleAction, BattleModel, BattleState, TargetId};
use crate::item::{all_item_keys_spec, item_effect, ItemEffect, ItemKey};
use crate::menu_keys::{move_wrapped, wrapped_cursor, KeyPresses};
use crate::party::PartyMember;
use crate::spell::{learned_by, pick_spells, select_learned, spell_entry_spec, SpellKind, SpellTarget};

verus! {

/// The step of choosing, with the member whose command is being chosen.
#[derive(Debug, Clone, Copy, PartialEq, Eq, Structural)]
pub enum InputPhase {
    CommandSelect { member_index: usize },
    SpellSelect { member_index: usize },
    ItemSelect { member_index: usize },
    TargetSelect { member_index: usize },
    AllyTargetSelect { member_index: usize },
}

/// The member a phase is about.
pub open spec fn phase_member(p: InputPhase) -> usize {
    match p {
        InputPhase::CommandSelect { member_index } => member_index,
        InputPhase::SpellSelect { member_index } => member_index,
        InputPhase::ItemSelect { member_index } => member_index,
        InputPhase::TargetSelect { member_index } => member_index,
        InputPhase::AllyTargetSelect { member_index } => member_index,
    }
}

/// Whether a frame leaves the choosing going or hands the commands over.
#[derive(Debug, Clone, Copy, PartialEq, Eq, Structural)]
pub enum InputOutcome {
    Waiting,
    ExecuteTurn,
}

/// The commands chosen so far, one slot per party member.
#[derive(Debug)]
pub struct PendingCommands {
    pub commands: Vec<Option<BattleAction>>,
}

/// The command given to a member who has none; such a member has fallen
/// and does not act.
pub open spec fn idle_command() -> BattleAction {
    BattleAction::Attack { target: TargetId::Enemy(0) }
}

/// The commands handed to the turn, an idle command where none was chosen.
pub open spec fn filled_commands(s: Seq<Option<BattleAction>>) -> Seq<BattleAction> {
    s.map_values(|c: Option<BattleAction>| match c {
        Some(a) => a,
        None => idle_command(),
    })
}

impl PendingCommands {
    /// No command yet for any of `n` members.
    pub fn new(n: usize) -> (r: Self)
        ensures
            r.commands@ == Seq::new(n as nat, |i: int| None::<BattleAction>),
    {
        let mut v: Vec<Option<BattleAction>> = Vec::new();
        let mut i: usize = 0;
        while i < n
            invariant
                i <= n,
                v@ == Seq::new(i as nat, |j: int| None::<BattleAction>),
            decreases n - i,
        {
            v.push(None);
            i = i + 1;
            proof {
                assert(v@ =~= Seq::new(i as nat, |j: int| None::<BattleAction>));
            }
        }
        PendingCommands { commands: v }
    }

    /// Records the command of a member.
    pub fn set(&mut self, member: usize, action: BattleAction)
        requires
            member < old(self).commands@.len(),
        ensures
            final(self).commands@ == old(self).commands@.update(member as int, Some(action)),
    {
        self.commands.set(member, Some(action));
    }

    /// Forgets the command of a member.
    pub fn remove(&mut self, member: usize)
        requires
            member < old(self).commands@.len(),
        ensures
            final(self).commands@ == old(self).commands@.update(member as int, None),
    {
        self.commands.set(member, None);
    }

    /// Forgets every command.
    pub fn clear(&mut self)
        ensures
            final(self).commands@ == Seq::new(old(self).commands@.len(), |i: int| None::<BattleAction>),
    {
        let n = self.commands.len();
        let mut i: usize = 0;
        while i < n
            invariant
                i <= n,
                n == self.commands@.len(),
                forall|j: int| 0 <= j < i ==> self.commands@[j] is None,
            decreases n - i,
        {
            self.commands.set(i, None);
            i = i + 1;
        }
        proof {
            assert(self.commands@ =~= Seq::new(n as nat, |i: int| None::<BattleAction>));
        }
    }

    /// The commands for the turn, by member index; a member without one
    /// gets an attack on the first enemy, which a fallen member never makes.
    pub fn to_commands(&self) -> (r: Vec<BattleAction>)
        ensures
            r@ == filled_commands(self.commands@),
    {
        let mut out: Vec<BattleAction> = Vec::new();
        let mut i: usize = 0;
        while i < self.commands.len()
            invariant
                i <= self.commands@.len(),
                out@ == filled_commands(self.commands@.take(i as int)),
            decreases self.commands@.len() - i,
        {
            let a = match self.commands[i] {
                Some(a) => a,
                None => BattleAction::Attack { target: TargetId::Enemy(0) },
            };
            out.push(a);
            i = i + 1;
            proof {
                assert(filled_commands(self.commands@.take(i as int)) =~= filled_commands(self.commands@.take(i - 1)).push(a));
            }
        }
        proof {
            assert(self.commands@.take(self.commands@.len() as int) =~= self.commands@);
        }
        out
    }
}

/// The state of choosing commands.
#[derive(Debug)]
pub struct CommandInput {
    pub phase: InputPhase,
    /// 0 attack, 1 spell, 2 item, 3 escape.
    pub selected_command: usize,
    pub selected_spell: usize,
    pub selected_item: usize,
    /// Position among the living enemies.
    pub target_offset: usize,
    /// Position among the living members.
    pub ally_target_offset: usize,
    /// A spell waiting for its target.
    pub pending_spell: Option<SpellKind>,
    /// An item waiting for its target.
    pub pending_item: Option<ItemKey>,
    pub pending_commands: PendingCommands,
}

/// The values of the command input.
#[verifier::ext_equal]
pub struct CommandInputView {
    pub phase: InputPhase,
    pub selected_command: usize,
    pub selected_spell: usize,
    pub selected_item: usize,
    pub target_offset: usize,
    pub ally_target_offset: usize,
    pub pending_spell: Option<SpellKind>,
    pub pending_item: Option<ItemKey>,
    pub pending_commands: Seq<Option<BattleAction>>,
}

impl View for CommandInput {
    type V = CommandInputView;

    open spec fn view(&self) -> CommandInputView {
        CommandInputView {
            phase: self.phase,
            selected_command: self.selected_command,
            selected_spell: self.selected_spell,
            selected_item: self.selected_item,
            target_offset: self.target_offset,
            ally_target_offset: self.ally_target_offset,
            pending_spell: self.pending_spell,
            pending_item: self.pending_item,
            pending_commands: self.pending_commands.commands@,
        }
    }
}

/// The spells a member knows at its level, from the character table.
pub open spec fn member_spells(t: CharacterParamTable, m: PartyMember) -> Seq<SpellKind> {
    pick_spells(t.entry_of(m.kind).spell_learn_table@, learned_by(m.level))
}

/// The items a member holds, in key order.
pub open spec fn member_items(m: PartyMember) -> Seq<ItemKey> {
    all_item_keys_spec().filter(|k: ItemKey| m.inventory.count_of(k) > 0)
}

/// The first entry of `s` above `cur`.
pub open spec fn first_above(s: Seq<usize>, cur: usize) -> Option<usize>
    decreases s.len(),
{
    if s.len() == 0 {
        None
    } else if s[0] > cur {
        Some(s[0])
    } else {
        first_above(s.drop_first(), cur)
    }
}

/// The last entry of `s` below `cur`.
pub open spec fn last_below(s: Seq<usize>, cur: usize) -> Option<usize>
    decreases s.len(),
{
    if s.len() == 0 {
        None
    } else if s.last() < cur {
        Some(s.last())
    } else {
        last_below(s.drop_last(), cur)
    }
}

/// The living members of the battle, in increasing order.
pub open spec fn living_members(b: BattleModel) -> Seq<usize> {
    alive_list(b.party_stats)
}

/// The living enemies of the battle, in increasing order.
pub open spec fn living_enemies(b: BattleModel) -> Seq<usize> {
    alive_list(b.enemy_stats)
}

/// What holds of the command input during a battle: one slot per member,
/// the member of the phase exists, the cursors point into the lists the
/// phase reads, and a spell or item waits only while its target is
/// chosen.
pub open spec fn input_ok(v: CommandInputView, b: BattleState, t: CharacterParamTable) -> bool {
    let m = phase_member(v.phase);
    let member = b.party@[m as int];
    &&& v.pending_commands.len() == b.party@.len()
    &&& m < b.party@.len()
    &&& v.selected_command < 4
    &&& v.phase is SpellSelect ==> 0 < member_spells(t, member).len() && v.selected_spell < member_spells(t, member).len()
    &&& v.phase is ItemSelect ==> (member_items(member).len() > 0 ==> v.selected_item < member_items(member).len())
    &&& v.phase is TargetSelect ==> (living_enemies(b.model()).len() > 0 ==> v.target_offset < living_enemies(b.model()).len())
    &&& v.phase is AllyTargetSelect ==> {
        &&& living_members(b.model()).len() > 0 ==> v.ally_target_offset < living_members(b.model()).len()
        &&& v.pending_spell is Some || v.pending_item is Some
    }
    &&& v.pending_spell is Some ==> {
        &&& v.phase is TargetSelect || v.phase is AllyTargetSelect
        &&& 0 < member_spells(t, member).len()
        &&& v.selected_spell < member_spells(t, member).len()
    }
    &&& v.pending_item is Some ==> {
        &&& v.phase is AllyTargetSelect
        &&& v.pending_spell is None
        &&& 0 < member_items(member).len()
        &&& v.selected_item < member_items(member).len()
    }
    &&& chosen_before(v, b, m)
    &&& pending_ok(v, b)
}

/// Every command chosen so far names existing actors.
pub open spec fn pending_ok(v: CommandInputView, b: BattleState) -> bool {
    forall|i: int| 0 <= i < v.pending_commands.len() ==> (#[trigger] v.pending_commands[i] matches Some(a) ==> command_ok(
        a,
        b.party@.len() as int,
        b.enemies@.len() as int,
    ))
}

/// Once every choice names existing actors and there is an enemy to stand
/// in for the fallen, the commands handed to the turn are all well aimed.
pub proof fn lemma_filled_commands_ok(v: CommandInputView, b: BattleState)
    requires
        pending_ok(v, b),
        b.enemies@.len() > 0,
    ensures
        commands_ok(filled_commands(v.pending_commands), b.party@.len() as int, b.enemies@.len() as int),
{
    let f = filled_commands(v.pending_commands);
    assert forall|i: int| 0 <= i < f.len() && i < b.party@.len() implies command_ok(#[trigger] f[i], b.party@.len() as int, b.enemies@.len() as int) by {
        match v.pending_commands[i] {
            Some(a) => {},
            None => {},
        }
    }
}

/// Every living member before `m` has a command.
pub open spec fn chosen_before(v: CommandInputView, b: BattleState, m: usize) -> bool {
    let living = living_members(b.model());
    forall|k: int| 0 <= k < living.len() && #[trigger] living[k] < m ==> v.pending_commands[living[k] as int] is Some
}

/// Every living member has a command.
pub open spec fn all_chosen(v: CommandInputView, b: BattleState) -> bool {
    let living = living_members(b.model());
    forall|k: int| 0 <= k < living.len() ==> v.pending_commands[#[trigger] living[k] as int] is Some
}

/// The entries only grow.
pub open spec fn increasing(s: Seq<usize>) -> bool {
    forall|a: int, b: int| 0 <= a < b < s.len() ==> s[a] < s[b]
}

/// In a growing list, the first entry above `cur` is the least of them,
/// and when there is none every entry is at most `cur`.
pub proof fn lemma_first_above_least(s: Seq<usize>, cur: usize)
    requires
        increasing(s),
    ensures
        first_above(s, cur) matches Some(n) ==> forall|k: int| 0 <= k < s.len() && #[trigger] s[k] > cur ==> s[k] >= n,
        first_above(s, cur) is None ==> forall|k: int| 0 <= k < s.len() ==> #[trigger] s[k] <= cur,
    decreases s.len(),
{
    if s.len() > 0 {
        let t = s.drop_first();
        assert(increasing(t));
        lemma_first_above_least(t, cur);
        assert forall|k: int| 0 < k < s.len() implies s[k] == #[trigger] t[k - 1] by {}
        if s[0] > cur {
            assert forall|k: int| 0 <= k < s.len() && #[trigger] s[k] > cur implies s[k] >= s[0] by {
                if k > 0 {
                    assert(s[0] < s[k]);
                }
            }
        } else {
            if let Some(n) = first_above(t, cur) {
                assert forall|k: int| 0 <= k < s.len() && #[trigger] s[k] > cur implies s[k] >= n by {
                    if k > 0 {
                        assert(t[k - 1] > cur);
                    }
                }
            } else {
                assert forall|k: int| 0 <= k < s.len() implies #[trigger] s[k] <= cur by {
                    if k > 0 {
                        assert(t[k - 1] <= cur);
                    }
                }
            }
        }
    }
}

/// In a growing list, the last entry below `cur` is the greatest of them.
pub proof fn lemma_last_below_greatest(s: Seq<usize>, cur: usize)
    requires
        increasing(s),
    ensures
        last_below(s, cur) matches Some(p) ==> p < cur && forall|k: int| 0 <= k < s.len() && #[trigger] s[k] < cur ==> s[k] <= p,
    decreases s.len(),
{
    if s.len() > 0 {
        let t = s.drop_last();
        assert(increasing(t));
        lemma_last_below_greatest(t, cur);
        if s.last() < cur {
            assert forall|k: int| 0 <= k < s.len() && #[trigger] s[k] < cur implies s[k] <= s.last() by {
                if k < s.len() - 1 {
                    assert(s[k] < s[s.len() - 1]);
                }
            }
        } else {
            if let Some(p) = last_below(t, cur) {
                assert forall|k: int| 0 <= k < s.len() && #[trigger] s[k] < cur implies s[k] <= p by {
                    if k < s.len() - 1 {
                        assert(t[k] == s[k]);
                    }
                }
            }
        }
    }
}

/// After a member's command is recorded: the next living member chooses,
/// or, when there is none, the turn is run.
pub open spec fn after_choice(v: CommandInputView, living: Seq<usize>, member: usize) -> (CommandInputView, InputOutcome) {
    match first_above(living, member) {
        Some(n) => (
            CommandInputView { selected_command: 0, phase: InputPhase::CommandSelect { member_index: n }, ..v },
            InputOutcome::Waiting,
        ),
        None => (v, InputOutcome::ExecuteTurn),
    }
}

/// A frame of choosing among attack, spell, item and escape.
pub open spec fn command_step(v: CommandInputView, b: BattleState, t: CharacterParamTable, keys: KeyPresses, member: usize) -> (CommandInputView, InputOutcome) {
    let sel = wrapped_cursor(v.selected_command, 4, keys.up, keys.down);
    let v1 = CommandInputView { selected_command: sel, ..v };
    if keys.cancel {
        match last_below(living_members(b.model()), member) {
            Some(p) => (
                CommandInputView {
                    pending_commands: v1.pending_commands.update(p as int, None),
                    selected_command: 0,
                    phase: InputPhase::CommandSelect { member_index: p },
                    ..v1
                },
                InputOutcome::Waiting,
            ),
            None => (v1, InputOutcome::Waiting),
        }
    } else if keys.confirm {
        if sel == 0 {
            (
                CommandInputView {
                    target_offset: 0,
                    pending_spell: None,
                    phase: InputPhase::TargetSelect { member_index: member },
                    selected_command: 0,
                    ..v1
                },
                InputOutcome::Waiting,
            )
        } else if sel == 1 {
            if member_spells(t, b.party@[member as int]).len() == 0 {
                (v1, InputOutcome::Waiting)
            } else {
                (
                    CommandInputView { selected_spell: 0, phase: InputPhase::SpellSelect { member_index: member }, selected_command: 0, ..v1 },
                    InputOutcome::Waiting,
                )
            }
        } else if sel == 2 {
            if b.party@[member as int].inventory.holds_nothing() {
                (v1, InputOutcome::Waiting)
            } else {
                (
                    CommandInputView { selected_item: 0, phase: InputPhase::ItemSelect { member_index: member }, selected_command: 0, ..v1 },
                    InputOutcome::Waiting,
                )
            }
        } else {
            (
                CommandInputView {
                    pending_commands: Seq::new(v1.pending_commands.len(), |i: int| Some(BattleAction::Flee)),
                    selected_command: 0,
                    ..v1
                },
                InputOutcome::ExecuteTurn,
            )
        }
    } else {
        (v1, InputOutcome::Waiting)
    }
}

/// A frame of choosing a spell.
pub open spec fn spell_select_step(v: CommandInputView, b: BattleState, t: CharacterParamTable, keys: KeyPresses, member: usize) -> (CommandInputView, InputOutcome) {
    let spells = member_spells(t, b.party@[member as int]);
    let s1 = wrapped_cursor(v.selected_spell, spells.len() as int, keys.up, keys.down);
    let v1 = CommandInputView { selected_spell: s1, ..v };
    if keys.cancel {
        (CommandInputView { phase: InputPhase::CommandSelect { member_index: member }, ..v1 }, InputOutcome::Waiting)
    } else if keys.confirm {
        let spell = spells[s1 as int];
        if b.party@[member as int].stats.mp < spell_entry_spec(spell).mp_cost {
            (v1, InputOutcome::Waiting)
        } else {
            match spell_entry_spec(spell).target_type {
                SpellTarget::SingleEnemy => (
                    CommandInputView { pending_spell: Some(spell), target_offset: 0, phase: InputPhase::TargetSelect { member_index: member }, ..v1 },
                    InputOutcome::Waiting,
                ),
                SpellTarget::AllEnemies => after_choice(
                    CommandInputView {
                        pending_spell: None,
                        pending_commands: v1.pending_commands.update(
                            member as int,
                            Some(BattleAction::Spell { spell, target: TargetId::Enemy(0) }),
                        ),
                        ..v1
                    },
                    living_members(b.model()),
                    member,
                ),
                SpellTarget::SingleAlly => (
                    CommandInputView {
                        pending_spell: Some(spell),
                        ally_target_offset: 0,
                        phase: InputPhase::AllyTargetSelect { member_index: member },
                        ..v1
                    },
                    InputOutcome::Waiting,
                ),
                SpellTarget::AllAllies => after_choice(
                    CommandInputView {
                        pending_spell: None,
                        pending_commands: v1.pending_commands.update(
                            member as int,
                            Some(BattleAction::Spell { spell, target: TargetId::Party(0) }),
                        ),
                        ..v1
                    },
                    living_members(b.model()),
                    member,
                ),
            }
        }
    } else {
        (v1, InputOutcome::Waiting)
    }
}

/// A frame of choosing an item; only healing items can be used in battle.
pub open spec fn item_select_step(v: CommandInputView, b: BattleState, keys: KeyPresses, member: usize) -> CommandInputView {
    let items = member_items(b.party@[member as int]);
    if items.len() == 0 {
        CommandInputView { phase: InputPhase::CommandSelect { member_index: member }, ..v }
    } else {
        let i1 = wrapped_cursor(v.selected_item, items.len() as int, keys.up, keys.down);
        let v1 = CommandInputView { selected_item: i1, ..v };
        if keys.cancel {
            CommandInputView { phase: InputPhase::CommandSelect { member_index: member }, ..v1 }
        } else if keys.confirm {
            let item = items[i1 as int];
            if item_effect(item) is Heal {
                CommandInputView {
                    pending_item: Some(item),
                    ally_target_offset: 0,
                    phase: InputPhase::AllyTargetSelect { member_index: member },
                    ..v1
                }
            } else {
                v1
            }
        } else {
            v1
        }
    }
}

/// A frame of choosing an enemy to attack or to cast the waiting spell on.
pub open spec fn target_select_step(v: CommandInputView, b: BattleState, keys: KeyPresses, member: usize) -> (CommandInputView, InputOutcome) {
    let living = living_enemies(b.model());
    if living.len() == 0 {
        (v, InputOutcome::Waiting)
    } else {
        let o = wrapped_cursor(v.target_offset, living.len() as int, keys.left, keys.right);
        let v1 = CommandInputView { target_offset: o, ..v };
        if keys.cancel {
            match v1.pending_spell {
                Some(_) => (
                    CommandInputView { pending_spell: None, phase: InputPhase::SpellSelect { member_index: member }, ..v1 },
                    InputOutcome::Waiting,
                ),
                None => (CommandInputView { phase: InputPhase::CommandSelect { member_index: member }, ..v1 }, InputOutcome::Waiting),
            }
        } else if keys.confirm {
            let target = TargetId::Enemy(living[o as int]);
            let cmd = match v1.pending_spell {
                Some(spell) => BattleAction::Spell { spell, target },
                None => BattleAction::Attack { target },
            };
            after_choice(
                CommandInputView { pending_spell: None, pending_commands: v1.pending_commands.update(member as int, Some(cmd)), ..v1 },
                living_members(b.model()),
                member,
            )
        } else {
            (v1, InputOutcome::Waiting)
        }
    }
}

/// A frame of choosing a member to cast the waiting spell on or to use the
/// waiting item on.
pub open spec fn ally_select_step(v: CommandInputView, b: BattleState, keys: KeyPresses, member: usize) -> (CommandInputView, InputOutcome) {
    let living = living_members(b.model());
    if living.len() == 0 {
        (v, InputOutcome::Waiting)
    } else {
        let o = wrapped_cursor(v.ally_target_offset, living.len() as int, keys.left, keys.right);
        let v1 = CommandInputView { ally_target_offset: o, ..v };
        if keys.cancel {
            match v1.pending_item {
                Some(_) => (
                    CommandInputView { pending_item: None, phase: InputPhase::ItemSelect { member_index: member }, ..v1 },
                    InputOutcome::Waiting,
                ),
                None => (
                    CommandInputView { pending_spell: None, phase: InputPhase::SpellSelect { member_index: member }, ..v1 },
                    InputOutcome::Waiting,
                ),
            }
        } else if keys.confirm {
            let target = TargetId::Party(living[o as int]);
            match v1.pending_spell {
                Some(spell) => after_choice(
                    CommandInputView {
                        pending_spell: None,
                        pending_commands: v1.pending_commands.update(member as int, Some(BattleAction::Spell { spell, target })),
                        ..v1
                    },
                    living,
                    member,
                ),
                None => match v1.pending_item {
                    Some(item) => after_choice(
                        CommandInputView {
                            pending_item: None,
                            pending_commands: v1.pending_commands.update(member as int, Some(BattleAction::UseItem { item, target })),
                            ..v1
                        },
                        living,
                        member,
                    ),
                    None => after_choice(v1, living, member),
                },
            }
        } else {
            (v1, InputOutcome::Waiting)
        }
    }
}

/// One frame of choosing commands.
pub open spec fn input_step(v: CommandInputView, b: BattleState, t: CharacterParamTable, keys: KeyPresses) -> (CommandInputView, InputOutcome) {
    match v.phase {
        InputPhase::CommandSelect { member_index } => command_step(v, b, t, keys, member_index),
        InputPhase::SpellSelect { member_index } => spell_select_step(v, b, t, keys, member_index),
        InputPhase::ItemSelect { member_index } => (item_select_step(v, b, keys, member_index), InputOutcome::Waiting),
        InputPhase::TargetSelect { member_index } => target_select_step(v, b, keys, member_index),
        InputPhase::AllyTargetSelect { member_index } => ally_select_step(v, b, keys, member_index),
    }
}

/// What `first_above` finds is among the entries.
proof fn lemma_first_above_in(s: Seq<usize>, cur: usize)
    ensures
        first_above(s, cur) matches Some(n) ==> s.contains(n),
    decreases s.len(),
{
    if s.len() > 0 && s[0] <= cur {
        lemma_first_above_in(s.drop_first(), cur);
        if let Some(n) = first_above(s.drop_first(), cur) {
            let k = choose|k: int| 0 <= k < s.drop_first().len() && s.drop_first()[k] == n;
            assert(s[k + 1] == n);
        }
    } else if s.len() > 0 {
        assert(s[0] == s[0]);
    }
}

/// What `last_below` finds is among the entries.
proof fn lemma_last_below_in(s: Seq<usize>, cur: usize)
    ensures
        last_below(s, cur) matches Some(n) ==> s.contains(n),
    decreases s.len(),
{
    if s.len() > 0 && s.last() >= cur {
        lemma_last_below_in(s.drop_last(), cur);
        if let Some(n) = last_below(s.drop_last(), cur) {
            let k = choose|k: int| 0 <= k < s.drop_last().len() && s.drop_last()[k] == n;
            assert(s[k] == n);
        }
    } else if s.len() > 0 {
        assert(s[s.len() - 1] == s.last());
    }
}

/// The next living member after `cur`.
fn next_living(living: &Vec<usize>, cur: usize) -> (r: Option<usize>)
    ensures
        r == first_above(living@, cur),
{
    let mut i: usize = 0;
    proof {
        assert(living@.skip(0) =~= living@);
    }
    while i < living.len()
        invariant
            i <= living@.len(),
            first_above(living@, cur) == first_above(living@.skip(i as int), cur),
        decreases living@.len() - i,
    {
        proof {
            assert(living@.skip(i as int)[0] == living@[i as int]);
            assert(living@.skip(i as int).drop_first() =~= living@.skip(i + 1));
        }
        if living[i] > cur {
            return Some(living[i]);
        }
        i = i + 1;
    }
    proof {
        assert(living@.skip(i as int).len() == 0);
    }
    None
}

/// The last living member before `cur`.
fn prev_living(living: &Vec<usize>, cur: usize) -> (r: Option<usize>)
    ensures
        r == last_below(living@, cur),
{
    let mut i: usize = living.len();
    proof {
        assert(living@.take(i as int) =~= living@);
    }
    while i > 0
        invariant
            i <= living@.len(),
            last_below(living@, cur) == last_below(living@.take(i as int), cur),
        decreases i,
    {
        proof {
            assert(living@.take(i as int).last() == living@[i - 1]);
            assert(living@.take(i as int).drop_last() =~= living@.take(i - 1));
        }
        if living[i - 1] < cur {
            return Some(living[i - 1]);
        }
        i = i - 1;
    }
    proof {
        assert(living@.take(0).len() == 0);
    }
    None
}

/// Every one of `n` members flees.
fn flee_commands(n: usize) -> (r: Vec<Option<BattleAction>>)
    ensures
        r@ == Seq::new(n as nat, |i: int| Some(BattleAction::Flee)),
{
    let mut v: Vec<Option<BattleAction>> = Vec::new();
    let mut i: usize = 0;
    while i < n
        invariant
            i <= n,
            v@ == Seq::new(i as nat, |j: int| Some(BattleAction::Flee)),
        decreases n - i,
    {
        v.push(Some(BattleAction::Flee));
        i = i + 1;
        proof {
            assert(v@ =~= Seq::new(i as nat, |j: int| Some(BattleAction::Flee)));
        }
    }
    v
}

/// The spells a member knows at its level.
fn spells_of(t: &CharacterParamTable, m: &PartyMember) -> (r: Vec<SpellKind>)
    ensures
        r@ == member_spells(*t, *m),
{
    select_learned(t.spell_learn_table(m.kind), m.level, false)
}

impl CommandInput {
    /// Choosing starts with the first living member, no command chosen; none
    /// when the whole party has fallen.
    pub fn new(battle: &BattleState) -> (r: Option<CommandInput>)
        ensures
            r is None <==> living_members(battle.model()).len() == 0,
            r matches Some(c) ==> {
                &&& c@.phase == InputPhase::CommandSelect { member_index: living_members(battle.model())[0] }
                &&& c@.pending_commands == Seq::new(battle.party@.len(), |i: int| None::<BattleAction>)
                &&& c@.selected_command == 0
                &&& c@.pending_spell is None
                &&& c@.pending_item is None
            },
            r matches Some(c) ==> forall|t: CharacterParamTable| #[trigger] input_ok(c@, *battle, t),
    {
        let living = battle.alive_party_indices();
        if living.len() == 0 {
            return None;
        }
        let n = battle.party.len();
        proof {
            assert(battle.model().party_stats.len() == n);
            lemma_alive_list(battle.model().party_stats);
        }
        let first = living[0];
        Some(CommandInput {
            phase: InputPhase::CommandSelect { member_index: first },
            selected_command: 0,
            selected_spell: 0,
            selected_item: 0,
            target_offset: 0,
            ally_target_offset: 0,
            pending_spell: None,
            pending_item: None,
            pending_commands: PendingCommands::new(n),
        })
    }

    fn record_and_advance(&mut self, battle: &BattleState, member: usize, action: BattleAction) -> (r: InputOutcome)
        requires
            member < old(self).pending_commands.commands@.len(),
            old(self).pending_commands.commands@.len() == battle.party@.len(),
            chosen_before(old(self)@, *battle, member),
            pending_ok(old(self)@, *battle),
            command_ok(action, battle.party@.len() as int, battle.enemies@.len() as int),
        ensures
            pending_ok(final(self)@, *battle),
            final(self)@ == after_choice(
                CommandInputView { pending_commands: old(self)@.pending_commands.update(member as int, Some(action)), ..old(self)@ },
                living_members(battle.model()),
                member,
            ).0,
            r == after_choice(
                CommandInputView { pending_commands: old(self)@.pending_commands.update(member as int, Some(action)), ..old(self)@ },
                living_members(battle.model()),
                member,
            ).1,
            r is Waiting ==> phase_member(final(self)@.phase) < battle.party@.len(),
            r is Waiting ==> chosen_before(final(self)@, *battle, phase_member(final(self)@.phase)),
            r is ExecuteTurn ==> all_chosen(final(self)@, *battle),
            pending_ok(final(self)@, *battle),
    {
        self.pending_commands.set(member, action);
        let living = battle.alive_party_indices();
        let next = next_living(&living, member);
        let _n = battle.party.len();
        proof {
            assert(battle.model().party_stats.len() == battle.party@.len());
            lemma_alive_list(battle.model().party_stats);
            lemma_first_above_in(living@, member);
            lemma_first_above_least(living@, member);
        }
        match next {
            Some(n) => {
                self.selected_command = 0;
                self.phase = InputPhase::CommandSelect { member_index: n };
                proof {
                    let lv = living_members(battle.model());
                    assert forall|k: int| 0 <= k < lv.len() && #[trigger] lv[k] < n implies self@.pending_commands[lv[k] as int] is Some by {
                        if lv[k] != member {
                            assert(lv[k] < member);
                        }
                    }
                }
                InputOutcome::Waiting
            },
            None => {
                proof {
                    let lv = living_members(battle.model());
                    assert forall|k: int| 0 <= k < lv.len() implies self@.pending_commands[#[trigger] lv[k] as int] is Some by {
                        if lv[k] != member {
                            assert(lv[k] < member);
                        }
                    }
                }
                InputOutcome::ExecuteTurn
            },
        }
    }

    fn command_frame(&mut self, battle: &BattleState, table: &CharacterParamTable, keys: KeyPresses, member: usize) -> (r: InputOutcome)
        requires
            old(self)@.phase == (InputPhase::CommandSelect { member_index: member }),
            input_ok(old(self)@, *battle, *table),
        ensures
            final(self)@ == command_step(old(self)@, *battle, *table, keys, member).0,
            r == command_step(old(self)@, *battle, *table, keys, member).1,
            r is Waiting ==> input_ok(final(self)@, *battle, *table),
            r is ExecuteTurn ==> all_chosen(final(self)@, *battle),
            pending_ok(final(self)@, *battle),
    {
        let sel = move_wrapped(self.selected_command, 4, keys.up, keys.down);
        self.selected_command = sel;
        if keys.cancel {
            let living = battle.alive_party_indices();
            let prev = prev_living(&living, member);
            let _n = battle.party.len();
            proof {
                assert(battle.model().party_stats.len() == battle.party@.len());
                lemma_alive_list(battle.model().party_stats);
                lemma_last_below_in(living@, member);
                lemma_last_below_greatest(living@, member);
            }
            if let Some(p) = prev {
                self.pending_commands.remove(p);
                self.selected_command = 0;
                self.phase = InputPhase::CommandSelect { member_index: p };
                proof {
                    let lv = living_members(battle.model());
                    assert forall|k: int| 0 <= k < lv.len() && #[trigger] lv[k] < p implies self@.pending_commands[lv[k] as int] is Some by {
                        assert(lv[k] < member);
                    }
                }
            }
            return InputOutcome::Waiting;
        }
        if keys.confirm {
            if sel == 0 {
                self.target_offset = 0;
                self.pending_spell = None;
                self.phase = InputPhase::TargetSelect { member_index: member };
            } else if sel == 1 {
                let spells = spells_of(table, &battle.party[member]);
                if spells.len() == 0 {
                    return InputOutcome::Waiting;
                }
                self.selected_spell = 0;
                self.phase = InputPhase::SpellSelect { member_index: member };
            } else if sel == 2 {
                if battle.party[member].inventory.is_empty() {
                    return InputOutcome::Waiting;
                }
                self.selected_item = 0;
                self.phase = InputPhase::ItemSelect { member_index: member };
            } else {
                let n = battle.party.len();
                self.pending_commands.commands = flee_commands(n);
                proof {
                    assert(battle.model().party_stats.len() == n);
                    lemma_alive_list(battle.model().party_stats);
                    let lv = living_members(battle.model());
                    assert forall|k: int| 0 <= k < lv.len() implies self@.pending_commands[#[trigger] lv[k] as int] is Some by {
                        assert(lv[k] < n);
                    }
                }
                self.selected_command = 0;
                return InputOutcome::ExecuteTurn;
            }
            self.selected_command = 0;
        }
        InputOutcome::Waiting
    }

    fn spell_frame(&mut self, battle: &BattleState, table: &CharacterParamTable, keys: KeyPresses, member: usize) -> (r: InputOutcome)
        requires
            old(self)@.phase == (InputPhase::SpellSelect { member_index: member }),
            input_ok(old(self)@, *battle, *table),
        ensures
            final(self)@ == spell_select_step(old(self)@, *battle, *table, keys, member).0,
            r == spell_select_step(old(self)@, *battle, *table, keys, member).1,
            r is Waiting ==> input_ok(final(self)@, *battle, *table),
            r is ExecuteTurn ==> all_chosen(final(self)@, *battle),
            pending_ok(final(self)@, *battle),
    {
        let spells = spells_of(table, &battle.party[member]);
        let s1 = move_wrapped(self.selected_spell, spells.len(), keys.up, keys.down);
        self.selected_spell = s1;
        if keys.cancel {
            self.phase = InputPhase::CommandSelect { member_index: member };
            return InputOutcome::Waiting;
        }
        if keys.confirm {
            let spell = spells[s1];
            let entry = spell.entry();
            if battle.party[member].stats.mp < entry.mp_cost {
                return InputOutcome::Waiting;
            }
            self.pending_spell = Some(spell);
            match entry.target_type {
                SpellTarget::SingleEnemy => {
                    self.target_offset = 0;
                    self.phase = InputPhase::TargetSelect { member_index: member };
                },
                SpellTarget::AllEnemies => {
                    self.pending_spell = None;
                    return self.record_and_advance(battle, member, BattleAction::Spell { spell, target: TargetId::Enemy(0) });
                },
                SpellTarget::SingleAlly => {
                    self.ally_target_offset = 0;
                    self.phase = InputPhase::AllyTargetSelect { member_index: member };
                },
                SpellTarget::AllAllies => {
                    self.pending_spell = None;
                    return self.record_and_advance(battle, member, BattleAction::Spell { spell, target: TargetId::Party(0) });
                },
            }
        }
        InputOutcome::Waiting
    }

    fn item_frame(&mut self, battle: &BattleState, table: &CharacterParamTable, keys: KeyPresses, member: usize)
        requires
            old(self)@.phase == (InputPhase::ItemSelect { member_index: member }),
            input_ok(old(self)@, *battle, *table),
        ensures
            final(self)@ == item_select_step(old(self)@, *battle, keys, member),
            input_ok(final(self)@, *battle, *table),
    {
        let owned = battle.party[member].inventory.owned_items();
        proof {
            assert(owned@ == member_items(battle.party@[member as int]));
        }
        if owned.len() == 0 {
            self.phase = InputPhase::CommandSelect { member_index: member };
            return;
        }
        let i1 = move_wrapped(self.selected_item, owned.len(), keys.up, keys.down);
        self.selected_item = i1;
        if keys.cancel {
            self.phase = InputPhase::CommandSelect { member_index: member };
            return;
        }
        if keys.confirm {
            let item = owned[i1];
            let entry = item.entry();
            match entry.effect {
                ItemEffect::Heal { .. } => {
                    self.pending_item = Some(item);
                    self.ally_target_offset = 0;
                    self.phase = InputPhase::AllyTargetSelect { member_index: member };
                },
                _ => {},
            }
        }
    }

    fn target_frame(&mut self, battle: &BattleState, table: &CharacterParamTable, keys: KeyPresses, member: usize) -> (r: InputOutcome)
        requires
            old(self)@.phase == (InputPhase::TargetSelect { member_index: member }),
            input_ok(old(self)@, *battle, *table),
        ensures
            final(self)@ == target_select_step(old(self)@, *battle, keys, member).0,
            r == target_select_step(old(self)@, *battle, keys, member).1,
            r is Waiting ==> input_ok(final(self)@, *battle, *table),
            r is ExecuteTurn ==> all_chosen(final(self)@, *battle),
            pending_ok(final(self)@, *battle),
    {
        let living = battle.alive_enemy_indices();
        if living.len() == 0 {
            return InputOutcome::Waiting;
        }
        let o = move_wrapped(self.target_offset, living.len(), keys.left, keys.right);
        self.target_offset = o;
        if keys.cancel {
            if self.pending_spell.is_some() {
                self.pending_spell = None;
                self.phase = InputPhase::SpellSelect { member_index: member };
            } else {
                self.phase = InputPhase::CommandSelect { member_index: member };
            }
            return InputOutcome::Waiting;
        }
        if keys.confirm {
            let _ne = battle.enemies.len();
            proof {
                assert(battle.model().enemy_stats.len() == battle.enemies@.len());
                lemma_alive_list(battle.model().enemy_stats);
                assert(living@[o as int] < battle.enemies@.len());
            }
            let target = TargetId::Enemy(living[o]);
            let cmd = match self.pending_spell {
                Some(spell) => BattleAction::Spell { spell, target },
                None => BattleAction::Attack { target },
            };
            self.pending_spell = None;
            return self.record_and_advance(battle, member, cmd);
        }
        InputOutcome::Waiting
    }

    fn ally_frame(&mut self, battle: &BattleState, table: &CharacterParamTable, keys: KeyPresses, member: usize) -> (r: InputOutcome)
        requires
            old(self)@.phase == (InputPhase::AllyTargetSelect { member_index: member }),
            input_ok(old(self)@, *battle, *table),
        ensures
            final(self)@ == ally_select_step(old(self)@, *battle, keys, member).0,
            r == ally_select_step(old(self)@, *battle, keys, member).1,
            r is Waiting ==> input_ok(final(self)@, *battle, *table),
            r is ExecuteTurn ==> all_chosen(final(self)@, *battle),
            pending_ok(final(self)@, *battle),
    {
        let living = battle.alive_party_indices();
        if living.len() == 0 {
            return InputOutcome::Waiting;
        }
        let o = move_wrapped(self.ally_target_offset, living.len(), keys.left, keys.right);
        self.ally_target_offset = o;
        if keys.cancel {
            if self.pending_item.is_some() {
                self.pending_item = None;
                self.phase = InputPhase::ItemSelect { member_index: member };
            } else {
                self.pending_spell = None;
                self.phase = InputPhase::SpellSelect { member_index: member };
            }
            return InputOutcome::Waiting;
        }
        if keys.confirm {
            let _np = battle.party.len();
            proof {
                assert(battle.model().party_stats.len() == battle.party@.len());
                lemma_alive_list(battle.model().party_stats);
                assert(living@[o as int] < battle.party@.len());
            }
            let target = TargetId::Party(living[o]);
            match self.pending_spell {
                Some(spell) => {
                    self.pending_spell = None;
                    return self.record_and_advance(battle, member, BattleAction::Spell { spell, target });
                },
                None => {},
            }
            match self.pending_item {
                Some(item) => {
                    self.pending_item = None;
                    return self.record_and_advance(battle, member, BattleAction::UseItem { item, target });
                },
                None => {},
            }
            let next = next_living(&living, member);
            let _n = battle.party.len();
            proof {
                assert(battle.model().party_stats.len() == battle.party@.len());
                lemma_alive_list(battle.model().party_stats);
                lemma_first_above_in(living@, member);
            }
            match next {
                Some(n) => {
                    self.selected_command = 0;
                    self.phase = InputPhase::CommandSelect { member_index: n };
                    return InputOutcome::Waiting;
                },
                None => {
                    return InputOutcome::ExecuteTurn;
                },
            }
        }
        InputOutcome::Waiting
    }

    /// One frame of choosing commands with the keys pressed: the choosing
    /// changes as `input_step` says and every command chosen names existing
    /// actors. While it goes on, it stays in order; when the result is
    /// `ExecuteTurn`, every living member has a command, and (with an enemy
    /// left) the commands handed to the turn are all well aimed.
    pub fn handle_keys(&mut self, battle: &BattleState, table: &CharacterParamTable, keys: KeyPresses) -> (r: InputOutcome)
        requires
            input_ok(old(self)@, *battle, *table),
        ensures
            final(self)@ == input_step(old(self)@, *battle, *table, keys).0,
            r == input_step(old(self)@, *battle, *table, keys).1,
            r is Waiting ==> input_ok(final(self)@, *battle, *table),
            r is ExecuteTurn ==> all_chosen(final(self)@, *battle),
            pending_ok(final(self)@, *battle),
            r is ExecuteTurn && battle.enemies@.len() > 0 ==> commands_ok(
                filled_commands(final(self)@.pending_commands),
                battle.party@.len() as int,
                battle.enemies@.len() as int,
            ),
    {
        let r = match self.phase {
            InputPhase::CommandSelect { member_index } => self.command_frame(battle, table, keys, member_index),
            InputPhase::SpellSelect { member_index } => self.spell_frame(battle, table, keys, member_index),
            InputPhase::ItemSelect { member_index } => {
                self.item_frame(battle, table, keys, member_index);
                InputOutcome::Waiting
            },
            InputPhase::TargetSelect { member_index } => self.target_frame(battle, table, keys, member_index),
            InputPhase::AllyTargetSelect { member_index } => self.ally_frame(battle, table, keys, member_index),
        };
        proof {
            if battle.enemies@.len() > 0 {
                lemma_filled_commands_ok(self@, *battle);
            }
        }
        r
    }
}

} // verus!
