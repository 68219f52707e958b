//! What the battle screen shows while the report of a turn is paged
//! through: the gauges follow the lines, defeated enemies disappear, and
//! some lines shake the screen or flash an enemy.
use vstd::prelude::*;
use crate::battle_messages::{decimal, enemy_display_names, enemy_label, unsigned_text, MessageEffect};
use crate::enemy::{enemy_name, Enemy};
use crate::combat::{all_down, alive_list, lemma_alive_list, BattleState};
use crate::party::PartyMember;

verus! {

/// The values on the battle screen that lag behind the battle itself.
#[derive(Debug)]
pub struct BattleDisplay {
    pub party_hp: Vec<i32>,
    pub party_mp: Vec<i32>,
    pub hidden_enemies: Vec<bool>,
    /// A shake was asked for.
    pub shake: bool,
    /// The enemy last asked to flash.
    pub blink_enemy: Option<usize>,
}

/// The values of a battle screen.
#[verifier::ext_equal]
pub struct DisplayView {
    pub party_hp: Seq<i32>,
    pub party_mp: Seq<i32>,
    pub hidden_enemies: Seq<bool>,
    pub shake: bool,
    pub blink_enemy: Option<usize>,
}

impl View for BattleDisplay {
    type V = DisplayView;

    open spec fn view(&self) -> DisplayView {
        DisplayView {
            party_hp: self.party_hp@,
            party_mp: self.party_mp@,
            hidden_enemies: self.hidden_enemies@,
            shake: self.shake,
            blink_enemy: self.blink_enemy,
        }
    }
}

/// The screen after one effect; an index past the end changes nothing.
pub open spec fn effect_applied(d: DisplayView, e: MessageEffect) -> DisplayView {
    match e {
        MessageEffect::UpdatePartyHp { member_index, new_hp } => if member_index < d.party_hp.len() {
            DisplayView { party_hp: d.party_hp.update(member_index as int, new_hp), ..d }
        } else {
            d
        },
        MessageEffect::UpdatePartyMp { member_index, new_mp } => if member_index < d.party_mp.len() {
            DisplayView { party_mp: d.party_mp.update(member_index as int, new_mp), ..d }
        } else {
            d
        },
        MessageEffect::HideEnemy { enemy_index } => if enemy_index < d.hidden_enemies.len() {
            DisplayView { hidden_enemies: d.hidden_enemies.update(enemy_index as int, true), ..d }
        } else {
            d
        },
        MessageEffect::Shake => DisplayView { shake: true, ..d },
        MessageEffect::BlinkEnemy { enemy_index } => DisplayView { blink_enemy: Some(enemy_index), ..d },
    }
}

/// The screen after the effects of line `index`, in the order listed.
pub open spec fn effects_applied(d: DisplayView, effects: Seq<(usize, MessageEffect)>, index: usize) -> DisplayView
    decreases effects.len(),
{
    if effects.len() == 0 {
        d
    } else {
        let d1 = effects_applied(d, effects.drop_last(), index);
        if effects.last().0 == index {
            effect_applied(d1, effects.last().1)
        } else {
            d1
        }
    }
}

/// The screen with its gauges set to the members' HP and MP, as far as
/// both lists go.
pub open spec fn synced(d: DisplayView, ms: Seq<PartyMember>) -> DisplayView {
    DisplayView {
        party_hp: Seq::new(d.party_hp.len(), |i: int| if i < ms.len() { ms[i].stats.hp } else { d.party_hp[i] }),
        party_mp: Seq::new(d.party_mp.len(), |i: int| if i < ms.len() { ms[i].stats.mp } else { d.party_mp[i] }),
        ..d
    }
}

impl BattleDisplay {
    /// A screen showing the battle as it stands, no enemy hidden.
    pub fn new(battle: &BattleState) -> (r: Self)
        ensures
            r@.party_hp == battle.party@.map_values(|m: PartyMember| m.stats.hp),
            r@.party_mp == battle.party@.map_values(|m: PartyMember| m.stats.mp),
            r@.hidden_enemies == Seq::new(battle.enemies@.len(), |i: int| false),
            !r@.shake,
            r@.blink_enemy is None,
    {
        let mut hp: Vec<i32> = Vec::new();
        let mut mp: Vec<i32> = Vec::new();
        let mut i: usize = 0;
        while i < battle.party.len()
            invariant
                i <= battle.party@.len(),
                hp@ == battle.party@.take(i as int).map_values(|m: PartyMember| m.stats.hp),
                mp@ == battle.party@.take(i as int).map_values(|m: PartyMember| m.stats.mp),
            decreases battle.party@.len() - i,
        {
            hp.push(battle.party[i].stats.hp);
            mp.push(battle.party[i].stats.mp);
            i = i + 1;
            proof {
                assert(hp@ =~= battle.party@.take(i as int).map_values(|m: PartyMember| m.stats.hp));
                assert(mp@ =~= battle.party@.take(i as int).map_values(|m: PartyMember| m.stats.mp));
            }
        }
        let mut hidden: Vec<bool> = Vec::new();
        let mut k: usize = 0;
        while k < battle.enemies.len()
            invariant
                k <= battle.enemies@.len(),
                hidden@ == Seq::new(k as nat, |i: int| false),
            decreases battle.enemies@.len() - k,
        {
            hidden.push(false);
            k = k + 1;
            proof {
                assert(hidden@ =~= Seq::new(k as nat, |i: int| false));
            }
        }
        proof {
            assert(battle.party@.take(battle.party@.len() as int) =~= battle.party@);
        }
        BattleDisplay { party_hp: hp, party_mp: mp, hidden_enemies: hidden, shake: false, blink_enemy: None }
    }

    fn apply(&mut self, e: MessageEffect)
        ensures
            final(self)@ == effect_applied(old(self)@, e),
    {
        match e {
            MessageEffect::UpdatePartyHp { member_index, new_hp } => {
                if member_index < self.party_hp.len() {
                    self.party_hp.set(member_index, new_hp);
                }
            },
            MessageEffect::UpdatePartyMp { member_index, new_mp } => {
                if member_index < self.party_mp.len() {
                    self.party_mp.set(member_index, new_mp);
                }
            },
            MessageEffect::HideEnemy { enemy_index } => {
                if enemy_index < self.hidden_enemies.len() {
                    self.hidden_enemies.set(enemy_index, true);
                }
            },
            MessageEffect::Shake => {
                self.shake = true;
            },
            MessageEffect::BlinkEnemy { enemy_index } => {
                self.blink_enemy = Some(enemy_index);
            },
        }
    }

    /// Carries out the effects that belong to line `index`, in the order
    /// listed.
    pub fn process_message_effects(&mut self, effects: &Vec<(usize, MessageEffect)>, index: usize)
        ensures
            final(self)@ == effects_applied(old(self)@, effects@, index),
    {
        let mut k: usize = 0;
        while k < effects.len()
            invariant
                k <= effects@.len(),
                self@ == effects_applied(old(self)@, effects@.take(k as int), index),
            decreases effects@.len() - k,
        {
            proof {
                assert(effects@.take(k + 1).drop_last() =~= effects@.take(k as int));
                assert(effects@.take(k + 1).last() == effects@[k as int]);
            }
            let (line, e) = effects[k];
            if line == index {
                self.apply(e);
            }
            k = k + 1;
        }
        proof {
            assert(effects@.take(effects@.len() as int) =~= effects@);
        }
    }

    /// Sets the gauges to the members' HP and MP.
    pub fn sync_display_hp(&mut self, battle: &BattleState)
        ensures
            final(self)@ == synced(old(self)@, battle.party@),
    {
        let ghost d = self@;
        let ghost ms = battle.party@;
        let mut i: usize = 0;
        while i < battle.party.len()
            invariant
                i <= ms.len(),
                ms == battle.party@,
                self@.party_hp.len() == d.party_hp.len(),
                self@.party_mp.len() == d.party_mp.len(),
                self@.hidden_enemies == d.hidden_enemies,
                self@.shake == d.shake,
                self@.blink_enemy == d.blink_enemy,
                forall|j: int| 0 <= j < d.party_hp.len() ==> #[trigger] self@.party_hp[j] == if j < i { ms[j].stats.hp } else { d.party_hp[j] },
                forall|j: int| 0 <= j < d.party_mp.len() ==> #[trigger] self@.party_mp[j] == if j < i { ms[j].stats.mp } else { d.party_mp[j] },
            decreases ms.len() - i,
        {
            if i < self.party_hp.len() {
                self.party_hp.set(i, battle.party[i].stats.hp);
            }
            if i < self.party_mp.len() {
                self.party_mp.set(i, battle.party[i].stats.mp);
            }
            i = i + 1;
        }
        proof {
            assert(self@.party_hp =~= synced(d, ms).party_hp);
            assert(self@.party_mp =~= synced(d, ms).party_mp);
        }
    }
}

/// Where paging through a turn's report leads.
#[derive(Debug, Clone, Copy, PartialEq, Eq)]
pub enum ReportStep {
    /// Line `index` of the report is shown.
    Show { index: usize },
    /// The battle is over; the line left on screen, if any.
    BattleOver { last_line: Option<usize> },
    /// The next turn's commands are chosen, starting with this member.
    Commands { member_index: usize },
}

/// The battle is over: won, lost, or fled.
pub open spec fn battle_over(b: BattleState) -> bool {
    all_down(b.model().enemy_stats) || all_down(b.model().party_stats) || b.has_fled()
}

/// Where the report ends: the battle is over, with its last line left on
/// screen, or the first living member chooses next.
pub open spec fn report_end(b: BattleState, last_line: Option<usize>) -> ReportStep {
    if battle_over(b) {
        ReportStep::BattleOver { last_line }
    } else {
        ReportStep::Commands { member_index: alive_list(b.model().party_stats)[0] }
    }
}

impl BattleDisplay {
    fn report_end_step(battle: &BattleState, last_line: Option<usize>) -> (r: ReportStep)
        ensures
            r == report_end(*battle, last_line),
    {
        if battle.is_over() {
            return ReportStep::BattleOver { last_line };
        }
        let living = battle.alive_party_indices();
        let _n = battle.party.len();
        proof {
            assert(battle.model().party_stats.len() == battle.party@.len());
            lemma_alive_list(battle.model().party_stats);
            let s = battle.model().party_stats;
            let j = choose|j: int| 0 <= j < s.len() && !(s[j].hp <= 0);
            assert(s[j].hp > 0);
            assert(alive_list(s).contains(j as usize));
        }
        ReportStep::Commands { member_index: living[0] }
    }

    /// After a turn with `n_lines` lines of report: the first line shows with
    /// its effects; with no line the gauges catch up at once.
    pub fn start_report(&mut self, battle: &BattleState, effects: &Vec<(usize, MessageEffect)>, n_lines: usize) -> (r: ReportStep)
        ensures
            n_lines == 0 ==> final(self)@ == synced(old(self)@, battle.party@) && r == report_end(*battle, None),
            n_lines > 0 ==> final(self)@ == effects_applied(old(self)@, effects@, 0),
            n_lines > 0 ==> r == if battle_over(*battle) && n_lines == 1 {
                ReportStep::BattleOver { last_line: Some(0) }
            } else {
                ReportStep::Show { index: 0 }
            },
    {
        if n_lines == 0 {
            self.sync_display_hp(battle);
            return Self::report_end_step(battle, None);
        }
        self.process_message_effects(effects, 0);
        if battle.is_over() && n_lines == 1 {
            ReportStep::BattleOver { last_line: Some(0) }
        } else {
            ReportStep::Show { index: 0 }
        }
    }

    /// Confirming line `index` of `n_lines`: the next line shows with its
    /// effects, or, after the last, the gauges catch up and the report ends.
    pub fn advance_report(
        &mut self,
        battle: &BattleState,
        effects: &Vec<(usize, MessageEffect)>,
        index: usize,
        n_lines: usize,
        confirm: bool,
    ) -> (r: ReportStep)
        requires
            index < n_lines,
        ensures
            !confirm ==> final(self)@ == old(self)@ && r == (ReportStep::Show { index }),
            confirm && index + 1 >= n_lines ==> final(self)@ == synced(old(self)@, battle.party@)
                && r == report_end(*battle, Some((n_lines - 1) as usize)),
            confirm && index + 1 < n_lines ==> final(self)@ == effects_applied(old(self)@, effects@, (index + 1) as usize)
                && r == (ReportStep::Show { index: (index + 1) as usize }),
    {
        if !confirm {
            return ReportStep::Show { index };
        }
        let next = index + 1;
        if next >= n_lines {
            self.sync_display_hp(battle);
            return Self::report_end_step(battle, Some(n_lines - 1));
        }
        self.process_message_effects(effects, next);
        ReportStep::Show { index: next }
    }
}


/// The line that opens a battle: the enemy's name when it comes alone, else
/// the kind of the first and how many there are.
pub open spec fn encounter_line(es: Seq<Enemy>) -> Seq<char> {
    if es.len() == 1 {
        enemy_label(es, 0) + "が あらわれた！"@
    } else {
        enemy_name(es[0].kind)@ + "が "@ + decimal(es.len() as int) + "匹 あらわれた！"@
    }
}

/// The line that opens a battle against `enemies`.
pub fn encounter_message(enemies: &Vec<Enemy>) -> (r: String)
    requires
        enemies@.len() > 0,
    ensures
        r@ == encounter_line(enemies@),
{
    if enemies.len() == 1 {
        let names = enemy_display_names(enemies.as_slice());
        let mut s = names[0].clone();
        s.append("が あらわれた！");
        s
    } else {
        let mut s = String::from_str(enemies[0].kind.name());
        s.append("が ");
        let n = unsigned_text(enemies.len() as u64);
        s.append(n.as_str());
        s.append("匹 あらわれた！");
        s
    }
}

} // verus!
