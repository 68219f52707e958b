//! The battle report: each event of a turn becomes a line of text, with the
//! screen effects (hit flashes, shakes, gauge updates) that go with it.
use vstd::prelude::*;
use crate::combat::{ActorId, BattleState, BuffStat, TargetId, TurnResult, STAT_LIMIT};
use crate::enemy::{enemy_name, Enemy, EnemyKind};
use crate::item::item_name;
use crate::party::{member_name, PartyMember};
use crate::spell::{ailment_name, spell_entry_spec, SpellEffect, SpellKind};

verus! {

/// What the battle screen does when a line is shown.
#[derive(Debug, Clone, Copy, PartialEq, Eq)]
pub enum MessageEffect {
    /// Shows a new HP for a party member.
    UpdatePartyHp { member_index: usize, new_hp: i32 },
    /// Shows a new MP for a party member.
    UpdatePartyMp { member_index: usize, new_mp: i32 },
    /// Hides a defeated enemy.
    HideEnemy { enemy_index: usize },
    /// Shakes the screen.
    Shake,
    /// Flashes an enemy.
    BlinkEnemy { enemy_index: usize },
}

// ---- numbers ----

/// The character of a decimal digit.
pub open spec fn digit_char(d: int) -> char {
    if d == 0 {
        '0'
    } else if d == 1 {
        '1'
    } else if d == 2 {
        '2'
    } else if d == 3 {
        '3'
    } else if d == 4 {
        '4'
    } else if d == 5 {
        '5'
    } else if d == 6 {
        '6'
    } else if d == 7 {
        '7'
    } else if d == 8 {
        '8'
    } else {
        '9'
    }
}

/// The decimal digits of a natural number, without leading zeros.
pub open spec fn digits_of(n: nat) -> Seq<char>
    decreases n,
{
    if n < 10 {
        seq![digit_char(n as int)]
    } else {
        digits_of(n / 10).push(digit_char((n % 10) as int))
    }
}

/// An integer written in decimal, with a minus sign when negative.
pub open spec fn decimal(n: int) -> Seq<char> {
    if n < 0 {
        seq!['-'] + digits_of((-n) as nat)
    } else {
        digits_of(n as nat)
    }
}

fn digit_text(d: u64) -> (r: &'static str)
    requires
        d < 10,
    ensures
        r@ == seq![digit_char(d as int)],
{
    if d == 0 {
        proof { reveal_strlit("0"); }
        "0"
    } else if d == 1 {
        proof { reveal_strlit("1"); }
        "1"
    } else if d == 2 {
        proof { reveal_strlit("2"); }
        "2"
    } else if d == 3 {
        proof { reveal_strlit("3"); }
        "3"
    } else if d == 4 {
        proof { reveal_strlit("4"); }
        "4"
    } else if d == 5 {
        proof { reveal_strlit("5"); }
        "5"
    } else if d == 6 {
        proof { reveal_strlit("6"); }
        "6"
    } else if d == 7 {
        proof { reveal_strlit("7"); }
        "7"
    } else if d == 8 {
        proof { reveal_strlit("8"); }
        "8"
    } else {
        proof { reveal_strlit("9"); }
        "9"
    }
}

/// A natural number written in decimal.
pub fn unsigned_text(n: u64) -> (r: String)
    ensures
        r@ == digits_of(n as nat),
        r@ == decimal(n as int),
{
    let ghost whole = n as nat;
    let mut m: u64 = n;
    let mut s = String::new();
    loop
        invariant_except_break
            m == 0 ==> whole == 0 && s@.len() == 0,
            m <= whole,
            m > 0 ==> digits_of(whole) == digits_of(m as nat) + s@,
        ensures
            digits_of(whole) == s@,
        decreases m,
    {
        let d = m % 10;
        let piece = digit_text(d);
        let ghost before = s@;
        s = String::from_str(piece).concat(s.as_str());
        proof {
            if m == 0 {
                assert(s@ =~= digits_of(0));
            } else if m < 10 {
                assert(digits_of(m as nat) == seq![digit_char(m as int)]);
                assert(d == m);
                assert(s@ =~= digits_of(m as nat) + before);
            } else {
                assert(digits_of(m as nat) == digits_of((m / 10) as nat).push(digit_char((m % 10) as int)));
                assert(digits_of((m / 10) as nat) + s@ =~= digits_of((m / 10) as nat).push(digit_char((m % 10) as int)) + before);
            }
        }
        m = m / 10;
        if m == 0 {
            break;
        }
    }
    s
}

/// An integer written in decimal.
pub fn decimal_text(n: i32) -> (r: String)
    ensures
        r@ == decimal(n as int),
{
    let negative = n < 0;
    let magnitude: u64 = if negative { (0 - (n as i64)) as u64 } else { n as u64 };
    let ghost whole = magnitude as nat;
    let s = unsigned_text(magnitude);
    if negative {
        proof { reveal_strlit("-"); }
        let r = String::from_str("-").concat(s.as_str());
        proof { assert(r@ =~= seq!['-'] + digits_of(whole)); }
        r
    } else {
        s
    }
}

// ---- names ----

/// How many enemies of a kind are among the first `n`.
pub open spec fn kind_count(es: Seq<Enemy>, k: EnemyKind, n: int) -> nat
    decreases n,
{
    if n <= 0 {
        0
    } else {
        kind_count(es, k, n - 1) + if es[n - 1].kind == k { 1nat } else { 0nat }
    }
}

/// The letter that tells apart the enemies of one kind: A to D, then '?'.
pub open spec fn suffix_letter(rank: nat) -> Seq<char> {
    if rank == 0 {
        "A"@
    } else if rank == 1 {
        "B"@
    } else if rank == 2 {
        "C"@
    } else if rank == 3 {
        "D"@
    } else {
        "?"@
    }
}

/// The name shown for the `i`-th enemy: its kind's name, followed by a
/// letter for its place among enemies of the same kind when there are
/// several of them.
pub open spec fn enemy_label(es: Seq<Enemy>, i: int) -> Seq<char> {
    let k = es[i].kind;
    if kind_count(es, k, es.len() as int) > 1 {
        enemy_name(k)@ + suffix_letter(kind_count(es, k, i))
    } else {
        enemy_name(k)@
    }
}

fn count_kind(es: &[Enemy], k: EnemyKind, n: usize) -> (r: usize)
    requires
        n <= es@.len(),
    ensures
        r == kind_count(es@, k, n as int),
        r <= n,
{
    let mut c: usize = 0;
    let mut i: usize = 0;
    while i < n
        invariant
            i <= n,
            n <= es@.len(),
            c == kind_count(es@, k, i as int),
            c <= i,
        decreases n - i,
    {
        if es[i].kind == k {
            c = c + 1;
        }
        i = i + 1;
    }
    c
}

/// The names shown for the enemies of a battle.
pub fn enemy_display_names(enemies: &[Enemy]) -> (r: Vec<String>)
    ensures
        r@.len() == enemies@.len(),
        forall|i: int| 0 <= i < enemies@.len() ==> (#[trigger] r@[i])@ == enemy_label(enemies@, i),
{
    let mut out: Vec<String> = Vec::new();
    let mut i: usize = 0;
    while i < enemies.len()
        invariant
            i <= enemies@.len(),
            out@.len() == i,
            forall|j: int| 0 <= j < i ==> (#[trigger] out@[j])@ == enemy_label(enemies@, j),
        decreases enemies@.len() - i,
    {
        let k = enemies[i].kind;
        let total = count_kind(enemies, k, enemies.len());
        let mut name = String::from_str(k.name());
        if total > 1 {
            let rank = count_kind(enemies, k, i);
            if rank == 0 {
                name.append("A");
            } else if rank == 1 {
                name.append("B");
            } else if rank == 2 {
                name.append("C");
            } else if rank == 3 {
                name.append("D");
            } else {
                name.append("?");
            }
        }
        out.push(name);
        i = i + 1;
    }
    out
}

/// The name of a party member or enemy.
pub open spec fn actor_label(pn: Seq<Seq<char>>, en: Seq<Seq<char>>, a: ActorId) -> Seq<char> {
    match a {
        ActorId::Party(i) => pn[i as int],
        ActorId::Enemy(i) => en[i as int],
    }
}

/// The name of a target.
pub open spec fn target_label(pn: Seq<Seq<char>>, en: Seq<Seq<char>>, t: TargetId) -> Seq<char> {
    match t {
        TargetId::Party(i) => pn[i as int],
        TargetId::Enemy(i) => en[i as int],
    }
}

/// The names of the party members of a battle.
pub open spec fn party_labels(party: Seq<PartyMember>) -> Seq<Seq<char>> {
    party.map_values(|m: PartyMember| member_name(m.kind)@)
}

/// The names of the enemies of a battle.
pub open spec fn enemy_labels(es: Seq<Enemy>) -> Seq<Seq<char>> {
    Seq::new(es.len(), |i: int| enemy_label(es, i))
}

// ---- lines ----

/// "<caster> casts <spell>! " in front of a spell's line.
pub open spec fn cast_text(caster: Seq<char>, spell: SpellKind) -> Seq<char> {
    caster + "は "@ + spell_entry_spec(spell).name@ + "を となえた！ "@
}

/// The front of a spell's line: nothing when it continues the same cast.
pub open spec fn cast_front(caster: Seq<char>, spell: SpellKind, cont: bool) -> Seq<char> {
    if cont {
        Seq::empty()
    } else {
        cast_text(caster, spell)
    }
}

/// The name of the statistic a buff spell raises.
pub open spec fn buffed_stat_text(spell: SpellKind) -> Seq<char> {
    match spell_entry_spec(spell).effect {
        SpellEffect::AttackBuff { .. } => "こうげきりょく"@,
        SpellEffect::Block { .. } => "しゅびりょく"@,
        _ => Seq::empty(),
    }
}

/// The name of a buffed statistic.
pub open spec fn stat_text(stat: BuffStat) -> Seq<char> {
    match stat {
        BuffStat::Attack => "こうげきりょく"@,
        BuffStat::Defense => "しゅびりょく"@,
    }
}

/// The line of an event; `cont` says that a spell line continues the cast
/// of the line before it.
pub open spec fn result_text(pn: Seq<Seq<char>>, en: Seq<Seq<char>>, r: TurnResult, cont: bool) -> Seq<char> {
    match r {
        TurnResult::Attack { attacker, target, damage } =>
            actor_label(pn, en, attacker) + "の こうげき！ "@ + target_label(pn, en, target) + "に "@ + decimal(damage as int) + "ダメージ！"@,
        TurnResult::SpellDamage { caster, spell, target, damage } =>
            cast_front(actor_label(pn, en, caster), spell, cont) + target_label(pn, en, target) + "に "@ + decimal(damage as int) + "ダメージ！"@,
        TurnResult::Healed { caster, spell, target, amount } =>
            cast_front(actor_label(pn, en, caster), spell, cont) + target_label(pn, en, target) + "の HPが "@ + decimal(amount as int) + "かいふく！"@,
        TurnResult::Buffed { caster, spell, target, amount } =>
            cast_front(actor_label(pn, en, caster), spell, cont) + target_label(pn, en, target) + "の "@ + buffed_stat_text(spell) + "が "@ + decimal(amount as int) + "あがった！"@,
        TurnResult::BuffExpired { target, stat } =>
            target_label(pn, en, target) + "の "@ + stat_text(stat) + "アップの こうかが きれた！"@,
        TurnResult::ItemUsed { user, item, target, amount } =>
            actor_label(pn, en, user) + "は "@ + item_name(item)@ + "を つかった！ "@ + target_label(pn, en, target) + "の HPが "@ + decimal(amount as int) + "かいふく！"@,
        TurnResult::MpDrained { caster, spell, target, amount } =>
            cast_front(actor_label(pn, en, caster), spell, cont) + target_label(pn, en, target) + "の MPが "@ + decimal(amount as int) + "へった！"@,
        TurnResult::Defeated { target } => match target {
            TargetId::Enemy(_) => target_label(pn, en, target) + "を たおした！"@,
            TargetId::Party(_) => target_label(pn, en, target) + "は たおれた..."@,
        },
        TurnResult::AilmentInflicted { caster, spell, target, ailment } =>
            cast_front(actor_label(pn, en, caster), spell, cont) + target_label(pn, en, target) + "は "@ + ailment_name(ailment)@ + "になった！"@,
        TurnResult::AilmentResisted { caster, spell, target } =>
            cast_front(actor_label(pn, en, caster), spell, cont) + "しかし "@ + target_label(pn, en, target) + "には きかなかった！"@,
        TurnResult::Sleeping { actor } => actor_label(pn, en, actor) + "は ねむっている…"@,
        TurnResult::PoisonDamage { target, damage } =>
            target_label(pn, en, target) + "は どくで "@ + decimal(damage as int) + "ダメージ！"@,
        TurnResult::AilmentCured { target, ailment } =>
            target_label(pn, en, target) + "の "@ + ailment_name(ailment)@ + "が なおった！"@,
        TurnResult::Fled => "うまく にげきれた！"@,
        TurnResult::FleeFailed => "にげられなかった！"@,
    }
}

// ---- the report ----

/// The report so far, with the HP and MP the screen shows and the last cast.
pub struct MessageLog {
    pub messages: Seq<Seq<char>>,
    pub effects: Seq<(usize, MessageEffect)>,
    pub hp: Seq<i32>,
    pub mp: Seq<i32>,
    pub last: Option<(ActorId, SpellKind)>,
}

/// The caster and spell of a spell event.
pub open spec fn cast_of(r: TurnResult) -> Option<(ActorId, SpellKind)> {
    match r {
        TurnResult::SpellDamage { caster, spell, .. } => Some((caster, spell)),
        TurnResult::Healed { caster, spell, .. } => Some((caster, spell)),
        TurnResult::Buffed { caster, spell, .. } => Some((caster, spell)),
        TurnResult::MpDrained { caster, spell, .. } => Some((caster, spell)),
        TurnResult::AilmentInflicted { caster, spell, .. } => Some((caster, spell)),
        TurnResult::AilmentResisted { caster, spell, .. } => Some((caster, spell)),
        _ => None,
    }
}

/// A value lowered by an amount, not below zero.
pub open spec fn lowered(v: i32, d: i32) -> i32 {
    if v - d < 0 {
        0
    } else {
        (v - d) as i32
    }
}

/// A value raised by an amount, not above a cap.
pub open spec fn raised(v: i32, a: i32, cap: i32) -> i32 {
    if v + a < cap {
        (v + a) as i32
    } else {
        cap
    }
}

/// The caster's MP paid for a spell on the first line of its cast.
pub open spec fn pay_cast(log: MessageLog, r: TurnResult, idx: usize) -> MessageLog {
    match cast_of(r) {
        Some((ActorId::Party(ci), spell)) => if log.last == cast_of(r) {
            log
        } else {
            let v = lowered(log.mp[ci as int], spell_entry_spec(spell).mp_cost);
            MessageLog {
                mp: log.mp.update(ci as int, v),
                effects: log.effects.push((idx, MessageEffect::UpdatePartyMp { member_index: ci, new_mp: v })),
                ..log
            }
        },
        _ => log,
    }
}

/// A hit on a target: an enemy flashes; a party member's screen shakes and
/// the HP shown drops.
pub open spec fn hit_on(log: MessageLog, t: TargetId, damage: i32, idx: usize) -> MessageLog {
    match t {
        TargetId::Enemy(i) => MessageLog { effects: log.effects.push((idx, MessageEffect::BlinkEnemy { enemy_index: i })), ..log },
        TargetId::Party(i) => {
            let v = lowered(log.hp[i as int], damage);
            MessageLog {
                hp: log.hp.update(i as int, v),
                effects: log.effects.push((idx, MessageEffect::Shake)).push((idx, MessageEffect::UpdatePartyHp { member_index: i, new_hp: v })),
                ..log
            }
        },
    }
}

/// Healing shown on a party member, capped at the member's maximum.
pub open spec fn heal_on(log: MessageLog, t: TargetId, amount: i32, max_hp: Seq<i32>, idx: usize) -> MessageLog {
    match t {
        TargetId::Party(i) => {
            let v = raised(log.hp[i as int], amount, max_hp[i as int]);
            MessageLog {
                hp: log.hp.update(i as int, v),
                effects: log.effects.push((idx, MessageEffect::UpdatePartyHp { member_index: i, new_hp: v })),
                ..log
            }
        },
        TargetId::Enemy(_) => log,
    }
}

/// A flash on an enemy target.
pub open spec fn blink_on(log: MessageLog, t: TargetId, idx: usize) -> MessageLog {
    match t {
        TargetId::Enemy(i) => MessageLog { effects: log.effects.push((idx, MessageEffect::BlinkEnemy { enemy_index: i })), ..log },
        TargetId::Party(_) => log,
    }
}

/// The effects of one event, for the line at `idx`.
pub open spec fn event_effects(log: MessageLog, r: TurnResult, max_hp: Seq<i32>, idx: usize) -> MessageLog {
    match r {
        TurnResult::Attack { target, damage, .. } => hit_on(log, target, damage, idx),
        TurnResult::SpellDamage { target, damage, .. } => hit_on(pay_cast(log, r, idx), target, damage, idx),
        TurnResult::Healed { target, amount, .. } => heal_on(pay_cast(log, r, idx), target, amount, max_hp, idx),
        TurnResult::Buffed { .. } => pay_cast(log, r, idx),
        TurnResult::ItemUsed { target, amount, .. } => heal_on(log, target, amount, max_hp, idx),
        TurnResult::MpDrained { target, amount, .. } => {
            let l = pay_cast(log, r, idx);
            match target {
                TargetId::Party(pi) => {
                    let v = lowered(l.mp[pi as int], amount);
                    MessageLog {
                        mp: l.mp.update(pi as int, v),
                        effects: l.effects.push((idx, MessageEffect::UpdatePartyMp { member_index: pi, new_mp: v })),
                        ..l
                    }
                },
                TargetId::Enemy(_) => blink_on(l, target, idx),
            }
        },
        TurnResult::Defeated { target } => match target {
            TargetId::Enemy(i) => MessageLog { effects: log.effects.push((idx, MessageEffect::HideEnemy { enemy_index: i })), ..log },
            TargetId::Party(_) => log,
        },
        TurnResult::AilmentInflicted { target, .. } => blink_on(pay_cast(log, r, idx), target, idx),
        TurnResult::AilmentResisted { target, .. } => blink_on(pay_cast(log, r, idx), target, idx),
        TurnResult::PoisonDamage { target, damage } => hit_on(log, target, damage, idx),
        _ => log,
    }
}

/// One event added to the report: its line, its effects, and the cast it
/// continues.
pub open spec fn log_step(log: MessageLog, r: TurnResult, pn: Seq<Seq<char>>, en: Seq<Seq<char>>, max_hp: Seq<i32>) -> MessageLog {
    let idx = log.messages.len() as usize;
    let cont = cast_of(r) is Some && log.last == cast_of(r);
    let l = event_effects(log, r, max_hp, idx);
    MessageLog {
        messages: log.messages.push(result_text(pn, en, r, cont)),
        last: cast_of(r),
        ..l
    }
}

/// The report of a list of events.
pub open spec fn log_fold(start: MessageLog, rs: Seq<TurnResult>, pn: Seq<Seq<char>>, en: Seq<Seq<char>>, max_hp: Seq<i32>) -> MessageLog
    decreases rs.len(),
{
    if rs.len() == 0 {
        start
    } else {
        log_step(log_fold(start, rs.drop_last(), pn, en, max_hp), rs.last(), pn, en, max_hp)
    }
}


/// Every amount of an event lies between zero and the statistic bound, and
/// every index names an existing party member or enemy.
pub open spec fn event_ok(r: TurnResult, np: int, ne: int) -> bool {
    let actor_in = |a: ActorId| match a {
        ActorId::Party(i) => i < np,
        ActorId::Enemy(i) => i < ne,
    };
    let target_in = |t: TargetId| match t {
        TargetId::Party(i) => i < np,
        TargetId::Enemy(i) => i < ne,
    };
    let amount_in = |v: i32| 0 <= v <= STAT_LIMIT;
    match r {
        TurnResult::Attack { attacker, target, damage } => actor_in(attacker) && target_in(target) && amount_in(damage),
        TurnResult::SpellDamage { caster, target, damage, .. } => actor_in(caster) && target_in(target) && amount_in(damage),
        TurnResult::Healed { caster, target, amount, .. } => actor_in(caster) && target_in(target) && amount_in(amount),
        TurnResult::Buffed { caster, target, amount, .. } => actor_in(caster) && target_in(target) && amount_in(amount),
        TurnResult::BuffExpired { target, .. } => target_in(target),
        TurnResult::ItemUsed { user, target, amount, .. } => actor_in(user) && target_in(target) && amount_in(amount),
        TurnResult::MpDrained { caster, target, amount, .. } => actor_in(caster) && target_in(target) && amount_in(amount),
        TurnResult::Defeated { target } => target_in(target),
        TurnResult::AilmentInflicted { caster, target, .. } => actor_in(caster) && target_in(target),
        TurnResult::AilmentResisted { caster, target, .. } => actor_in(caster) && target_in(target),
        TurnResult::Sleeping { actor } => actor_in(actor),
        TurnResult::PoisonDamage { target, damage } => target_in(target) && amount_in(damage),
        TurnResult::AilmentCured { target, .. } => target_in(target),
        TurnResult::Fled => true,
        TurnResult::FleeFailed => true,
    }
}

/// The HP and MP shown stay between zero and the statistic bound.
pub open spec fn gauges_ok(l: MessageLog, np: int) -> bool {
    &&& l.hp.len() == np
    &&& l.mp.len() == np
    &&& forall|k: int| 0 <= k < np ==> 0 <= #[trigger] l.hp[k] <= STAT_LIMIT
    &&& forall|k: int| 0 <= k < np ==> 0 <= #[trigger] l.mp[k] <= STAT_LIMIT
}

/// Maximum HP values between zero and the statistic bound.
pub open spec fn caps_ok(max_hp: Seq<i32>, np: int) -> bool {
    &&& max_hp.len() == np
    &&& forall|k: int| 0 <= k < np ==> 0 <= #[trigger] max_hp[k] <= STAT_LIMIT
}

/// The report being built.
struct Report {
    messages: Vec<String>,
    effects: Vec<(usize, MessageEffect)>,
    hp: Vec<i32>,
    mp: Vec<i32>,
    last: Option<(ActorId, SpellKind)>,
}

impl Report {
    spec fn log(&self) -> MessageLog {
        MessageLog {
            messages: self.messages@.map_values(|s: String| s@),
            effects: self.effects@,
            hp: self.hp@,
            mp: self.mp@,
            last: self.last,
        }
    }
}

/// Two logs that agree field by field are the same.
proof fn lemma_log_ext(a: MessageLog, b: MessageLog)
    requires
        a.messages =~= b.messages,
        a.effects =~= b.effects,
        a.hp =~= b.hp,
        a.mp =~= b.mp,
        a.last == b.last,
    ensures
        a == b,
{
}

fn cast_of_exec(r: TurnResult) -> (c: Option<(ActorId, SpellKind)>)
    ensures
        c == cast_of(r),
{
    match r {
        TurnResult::SpellDamage { caster, spell, .. } => Some((caster, spell)),
        TurnResult::Healed { caster, spell, .. } => Some((caster, spell)),
        TurnResult::Buffed { caster, spell, .. } => Some((caster, spell)),
        TurnResult::MpDrained { caster, spell, .. } => Some((caster, spell)),
        TurnResult::AilmentInflicted { caster, spell, .. } => Some((caster, spell)),
        TurnResult::AilmentResisted { caster, spell, .. } => Some((caster, spell)),
        _ => None,
    }
}

fn same_cast(a: Option<(ActorId, SpellKind)>, b: Option<(ActorId, SpellKind)>) -> (r: bool)
    ensures
        r == (a == b),
{
    match (a, b) {
        (Some((c1, s1)), Some((c2, s2))) => c1 == c2 && s1 == s2,
        (None, None) => true,
        _ => false,
    }
}

fn lower(v: i32, d: i32) -> (r: i32)
    requires
        0 <= v <= STAT_LIMIT,
        0 <= d <= STAT_LIMIT,
    ensures
        r == lowered(v, d),
        0 <= r <= v,
{
    if v - d < 0 {
        0
    } else {
        v - d
    }
}

fn raise(v: i32, a: i32, cap: i32) -> (r: i32)
    requires
        0 <= v <= STAT_LIMIT,
        0 <= a <= STAT_LIMIT,
        0 <= cap <= STAT_LIMIT,
    ensures
        r == raised(v, a, cap),
        0 <= r <= STAT_LIMIT,
{
    if v + a < cap {
        v + a
    } else {
        cap
    }
}

impl Report {
    fn pay_cast(&mut self, r: TurnResult, idx: usize)
        requires
            gauges_ok(old(self).log(), old(self).hp@.len() as int),
            cast_of(r) matches Some((ActorId::Party(ci), _)) ==> ci < old(self).hp@.len(),
        ensures
            final(self).log() == pay_cast(old(self).log(), r, idx),
            gauges_ok(final(self).log(), old(self).hp@.len() as int),
            final(self).messages@ == old(self).messages@,
            final(self).last == old(self).last,
    {
        let ghost before = self.log();
        let c = cast_of_exec(r);
        match c {
            Some((ActorId::Party(ci), spell)) => {
                if !same_cast(self.last, c) {
                    let cost = spell.entry().mp_cost;
                    proof { crate::spell::lemma_spell_data(spell); }
                    let v = lower(self.mp[ci], cost);
                    self.mp.set(ci, v);
                    self.effects.push((idx, MessageEffect::UpdatePartyMp { member_index: ci, new_mp: v }));
                    proof { lemma_log_ext(self.log(), pay_cast(before, r, idx)); }
                }
            },
            _ => {},
        }
    }

    fn hit_on(&mut self, t: TargetId, damage: i32, idx: usize)
        requires
            gauges_ok(old(self).log(), old(self).hp@.len() as int),
            0 <= damage <= STAT_LIMIT,
            t matches TargetId::Party(i) ==> i < old(self).hp@.len(),
        ensures
            final(self).log() == hit_on(old(self).log(), t, damage, idx),
            gauges_ok(final(self).log(), old(self).hp@.len() as int),
            final(self).messages@ == old(self).messages@,
            final(self).last == old(self).last,
    {
        let ghost before = self.log();
        match t {
            TargetId::Enemy(i) => {
                self.effects.push((idx, MessageEffect::BlinkEnemy { enemy_index: i }));
            },
            TargetId::Party(i) => {
                let v = lower(self.hp[i], damage);
                self.hp.set(i, v);
                self.effects.push((idx, MessageEffect::Shake));
                self.effects.push((idx, MessageEffect::UpdatePartyHp { member_index: i, new_hp: v }));
            },
        }
        proof { lemma_log_ext(self.log(), hit_on(before, t, damage, idx)); }
    }

    fn heal_on(&mut self, t: TargetId, amount: i32, max_hp: &Vec<i32>, idx: usize)
        requires
            gauges_ok(old(self).log(), old(self).hp@.len() as int),
            caps_ok(max_hp@, old(self).hp@.len() as int),
            0 <= amount <= STAT_LIMIT,
            t matches TargetId::Party(i) ==> i < old(self).hp@.len(),
        ensures
            final(self).log() == heal_on(old(self).log(), t, amount, max_hp@, idx),
            gauges_ok(final(self).log(), old(self).hp@.len() as int),
            final(self).messages@ == old(self).messages@,
            final(self).last == old(self).last,
    {
        let ghost before = self.log();
        match t {
            TargetId::Party(i) => {
                let v = raise(self.hp[i], amount, max_hp[i]);
                self.hp.set(i, v);
                self.effects.push((idx, MessageEffect::UpdatePartyHp { member_index: i, new_hp: v }));
                proof { lemma_log_ext(self.log(), heal_on(before, t, amount, max_hp@, idx)); }
            },
            TargetId::Enemy(_) => {},
        }
    }

    fn blink_on(&mut self, t: TargetId, idx: usize)
        requires
            gauges_ok(old(self).log(), old(self).hp@.len() as int),
        ensures
            final(self).log() == blink_on(old(self).log(), t, idx),
            gauges_ok(final(self).log(), old(self).hp@.len() as int),
            final(self).messages@ == old(self).messages@,
            final(self).last == old(self).last,
    {
        let ghost before = self.log();
        match t {
            TargetId::Enemy(i) => {
                self.effects.push((idx, MessageEffect::BlinkEnemy { enemy_index: i }));
                proof { lemma_log_ext(self.log(), blink_on(before, t, idx)); }
            },
            TargetId::Party(_) => {},
        }
    }

    fn event_effects(&mut self, r: TurnResult, max_hp: &Vec<i32>, idx: usize, ne: Ghost<int>)
        requires
            gauges_ok(old(self).log(), old(self).hp@.len() as int),
            caps_ok(max_hp@, old(self).hp@.len() as int),
            event_ok(r, old(self).hp@.len() as int, ne@),
        ensures
            final(self).log() == event_effects(old(self).log(), r, max_hp@, idx),
            gauges_ok(final(self).log(), old(self).hp@.len() as int),
            final(self).messages@ == old(self).messages@,
            final(self).last == old(self).last,
    {
        let ghost before = self.log();
        match r {
            TurnResult::Attack { target, damage, .. } => self.hit_on(target, damage, idx),
            TurnResult::SpellDamage { target, damage, .. } => {
                self.pay_cast(r, idx);
                self.hit_on(target, damage, idx);
            },
            TurnResult::Healed { target, amount, .. } => {
                self.pay_cast(r, idx);
                self.heal_on(target, amount, max_hp, idx);
            },
            TurnResult::Buffed { .. } => self.pay_cast(r, idx),
            TurnResult::ItemUsed { target, amount, .. } => self.heal_on(target, amount, max_hp, idx),
            TurnResult::MpDrained { target, amount, .. } => {
                self.pay_cast(r, idx);
                let ghost mid = self.log();
                match target {
                    TargetId::Party(pi) => {
                        let v = lower(self.mp[pi], amount);
                        self.mp.set(pi, v);
                        self.effects.push((idx, MessageEffect::UpdatePartyMp { member_index: pi, new_mp: v }));
                        proof {
                            let l = pay_cast(before, r, idx);
                            lemma_log_ext(self.log(), MessageLog {
                                mp: l.mp.update(pi as int, v),
                                effects: l.effects.push((idx, MessageEffect::UpdatePartyMp { member_index: pi, new_mp: v })),
                                ..l
                            });
                        }
                    },
                    TargetId::Enemy(_) => self.blink_on(target, idx),
                }
            },
            TurnResult::Defeated { target } => {
                match target {
                    TargetId::Enemy(i) => {
                        self.effects.push((idx, MessageEffect::HideEnemy { enemy_index: i }));
                        proof {
                            lemma_log_ext(self.log(), MessageLog { effects: before.effects.push((idx, MessageEffect::HideEnemy { enemy_index: i })), ..before });
                        }
                    },
                    TargetId::Party(_) => {},
                }
            },
            TurnResult::AilmentInflicted { target, .. } => {
                self.pay_cast(r, idx);
                self.blink_on(target, idx);
            },
            TurnResult::AilmentResisted { target, .. } => {
                self.pay_cast(r, idx);
                self.blink_on(target, idx);
            },
            TurnResult::PoisonDamage { target, damage } => self.hit_on(target, damage, idx),
            _ => {},
        }
    }
}


/// The name of an actor, from the party or from the enemies' names.
fn actor_name(actor: ActorId, party: &Vec<PartyMember>, enemy_names: &Vec<String>, en: Ghost<Seq<Seq<char>>>) -> (r: String)
    requires
        en@.len() == enemy_names@.len(),
        forall|k: int| 0 <= k < enemy_names@.len() ==> (#[trigger] enemy_names@[k])@ == en@[k],
        match actor {
            ActorId::Party(i) => i < party@.len(),
            ActorId::Enemy(i) => i < enemy_names@.len(),
        },
    ensures
        r@ == actor_label(party_labels(party@), en@, actor),
{
    match actor {
        ActorId::Party(i) => String::from_str(party[i].kind.name()),
        ActorId::Enemy(i) => enemy_names[i].clone(),
    }
}

/// The name of a target, from the party or from the enemies' names.
fn target_name(target: TargetId, party: &Vec<PartyMember>, enemy_names: &Vec<String>, en: Ghost<Seq<Seq<char>>>) -> (r: String)
    requires
        en@.len() == enemy_names@.len(),
        forall|k: int| 0 <= k < enemy_names@.len() ==> (#[trigger] enemy_names@[k])@ == en@[k],
        match target {
            TargetId::Party(i) => i < party@.len(),
            TargetId::Enemy(i) => i < enemy_names@.len(),
        },
    ensures
        r@ == target_label(party_labels(party@), en@, target),
{
    match target {
        TargetId::Party(i) => String::from_str(party[i].kind.name()),
        TargetId::Enemy(i) => enemy_names[i].clone(),
    }
}

/// The front of a spell line.
fn cast_front_text(caster: &String, spell: SpellKind, cont: bool) -> (r: String)
    ensures
        r@ == cast_front(caster@, spell, cont),
{
    if cont {
        String::new()
    } else {
        let mut s = caster.clone();
        s.append("は ");
        s.append(spell.entry().name);
        s.append("を となえた！ ");
        s
    }
}

/// The line of one event.
fn line_text(r: TurnResult, cont: bool, party: &Vec<PartyMember>, enemy_names: &Vec<String>, en: Ghost<Seq<Seq<char>>>) -> (t: String)
    requires
        en@.len() == enemy_names@.len(),
        forall|k: int| 0 <= k < enemy_names@.len() ==> (#[trigger] enemy_names@[k])@ == en@[k],
        event_ok(r, party@.len() as int, enemy_names@.len() as int),
    ensures
        t@ == result_text(party_labels(party@), en@, r, cont),
{
    match r {
        TurnResult::Attack { attacker, target, damage } => {
            let mut s = actor_name(attacker, party, enemy_names, en);
            s.append("の こうげき！ ");
            s.append(target_name(target, party, enemy_names, en).as_str());
            s.append("に ");
            s.append(decimal_text(damage).as_str());
            s.append("ダメージ！");
            s
        },
        TurnResult::SpellDamage { caster, spell, target, damage } => {
            let mut s = cast_front_text(&actor_name(caster, party, enemy_names, en), spell, cont);
            s.append(target_name(target, party, enemy_names, en).as_str());
            s.append("に ");
            s.append(decimal_text(damage).as_str());
            s.append("ダメージ！");
            s
        },
        TurnResult::Healed { caster, spell, target, amount } => {
            let mut s = cast_front_text(&actor_name(caster, party, enemy_names, en), spell, cont);
            s.append(target_name(target, party, enemy_names, en).as_str());
            s.append("の HPが ");
            s.append(decimal_text(amount).as_str());
            s.append("かいふく！");
            s
        },
        TurnResult::Buffed { caster, spell, target, amount } => {
            let mut s = cast_front_text(&actor_name(caster, party, enemy_names, en), spell, cont);
            s.append(target_name(target, party, enemy_names, en).as_str());
            s.append("の ");
            match spell.entry().effect {
                SpellEffect::AttackBuff { .. } => s.append("こうげきりょく"),
                SpellEffect::Block { .. } => s.append("しゅびりょく"),
                _ => {
                    proof { assert(s@ + Seq::<char>::empty() =~= s@); }
                },
            }
            s.append("が ");
            s.append(decimal_text(amount).as_str());
            s.append("あがった！");
            s
        },
        TurnResult::BuffExpired { target, stat } => {
            let mut s = target_name(target, party, enemy_names, en);
            s.append("の ");
            match stat {
                BuffStat::Attack => s.append("こうげきりょく"),
                BuffStat::Defense => s.append("しゅびりょく"),
            }
            s.append("アップの こうかが きれた！");
            s
        },
        TurnResult::ItemUsed { user, item, target, amount } => {
            let mut s = actor_name(user, party, enemy_names, en);
            s.append("は ");
            s.append(item.name());
            s.append("を つかった！ ");
            s.append(target_name(target, party, enemy_names, en).as_str());
            s.append("の HPが ");
            s.append(decimal_text(amount).as_str());
            s.append("かいふく！");
            s
        },
        TurnResult::MpDrained { caster, spell, target, amount } => {
            let mut s = cast_front_text(&actor_name(caster, party, enemy_names, en), spell, cont);
            s.append(target_name(target, party, enemy_names, en).as_str());
            s.append("の MPが ");
            s.append(decimal_text(amount).as_str());
            s.append("へった！");
            s
        },
        TurnResult::Defeated { target } => {
            let mut s = target_name(target, party, enemy_names, en);
            match target {
                TargetId::Enemy(_) => s.append("を たおした！"),
                TargetId::Party(_) => s.append("は たおれた..."),
            }
            s
        },
        TurnResult::AilmentInflicted { caster, spell, target, ailment } => {
            let mut s = cast_front_text(&actor_name(caster, party, enemy_names, en), spell, cont);
            s.append(target_name(target, party, enemy_names, en).as_str());
            s.append("は ");
            s.append(ailment.name());
            s.append("になった！");
            s
        },
        TurnResult::AilmentResisted { caster, spell, target } => {
            let mut s = cast_front_text(&actor_name(caster, party, enemy_names, en), spell, cont);
            s.append("しかし ");
            s.append(target_name(target, party, enemy_names, en).as_str());
            s.append("には きかなかった！");
            s
        },
        TurnResult::Sleeping { actor } => {
            let mut s = actor_name(actor, party, enemy_names, en);
            s.append("は ねむっている…");
            s
        },
        TurnResult::PoisonDamage { target, damage } => {
            let mut s = target_name(target, party, enemy_names, en);
            s.append("は どくで ");
            s.append(decimal_text(damage).as_str());
            s.append("ダメージ！");
            s
        },
        TurnResult::AilmentCured { target, ailment } => {
            let mut s = target_name(target, party, enemy_names, en);
            s.append("の ");
            s.append(ailment.name());
            s.append("が なおった！");
            s
        },
        TurnResult::Fled => String::from_str("うまく にげきれた！"),
        TurnResult::FleeFailed => String::from_str("にげられなかった！"),
    }
}

/// The maximum HP of each party member.
pub open spec fn max_hps(party: Seq<PartyMember>) -> Seq<i32> {
    party.map_values(|m: PartyMember| m.stats.max_hp)
}

/// The report before any event: no lines, the gauges as they stood.
pub open spec fn start_log(hp: Seq<i32>, mp: Seq<i32>) -> MessageLog {
    MessageLog { messages: Seq::empty(), effects: Seq::empty(), hp, mp, last: None }
}

/// Turns the events of a turn into the lines shown and the effects that go
/// with each line (by line index). The HP and MP gauges start from the values
/// shown before the turn; a spell that hits several targets names its caster
/// and pays its MP on the first line only.
pub fn results_to_messages(
    results: &[TurnResult],
    state: &BattleState,
    pre_party_hp: &[i32],
    pre_party_mp: &[i32],
) -> (r: (Vec<String>, Vec<(usize, MessageEffect)>))
    requires
        pre_party_hp@.len() == state.party@.len(),
        pre_party_mp@.len() == state.party@.len(),
        forall|k: int| 0 <= k < pre_party_hp@.len() ==> 0 <= #[trigger] pre_party_hp@[k] <= STAT_LIMIT,
        forall|k: int| 0 <= k < pre_party_mp@.len() ==> 0 <= #[trigger] pre_party_mp@[k] <= STAT_LIMIT,
        forall|k: int| 0 <= k < state.party@.len() ==> 0 <= (#[trigger] state.party@[k]).stats.max_hp <= STAT_LIMIT,
        forall|k: int| 0 <= k < results@.len() ==> event_ok(#[trigger] results@[k], state.party@.len() as int, state.enemies@.len() as int),
    ensures
        ({
            let l = log_fold(
                start_log(pre_party_hp@, pre_party_mp@),
                results@,
                party_labels(state.party@),
                enemy_labels(state.enemies@),
                max_hps(state.party@),
            );
            &&& r.0@.map_values(|s: String| s@) == l.messages
            &&& r.1@ == l.effects
        }),
        r.0@.len() == results@.len(),
        forall|j: int| 0 <= j < r.1@.len() ==> (#[trigger] r.1@[j]).0 < results@.len(),
        forall|i: int, j: int| 0 <= i <= j < r.1@.len() ==> (#[trigger] r.1@[i]).0 <= (#[trigger] r.1@[j]).0,
        forall|j: int| 0 <= j < r.1@.len() ==> gauge_effect_ok((#[trigger] r.1@[j]).1),
        forall|k: int| 0 <= k < results@.len() ==> (#[trigger] results@[k] matches TurnResult::Defeated { target: TargetId::Enemy(e) } ==>
            r.1@.contains((k as usize, MessageEffect::HideEnemy { enemy_index: e }))),
{
    let ghost np = state.party@.len() as int;
    let ghost en = enemy_labels(state.enemies@);
    let ghost pn = party_labels(state.party@);
    let enemy_names = enemy_display_names(state.enemies.as_slice());
    let mut max_hp: Vec<i32> = Vec::new();
    let mut hp: Vec<i32> = Vec::new();
    let mut mp: Vec<i32> = Vec::new();
    let mut k: usize = 0;
    while k < state.party.len()
        invariant
            k <= state.party@.len(),
            np == state.party@.len(),
            pre_party_hp@.len() == np,
            pre_party_mp@.len() == np,
            max_hp@ =~= max_hps(state.party@).take(k as int),
            hp@ =~= pre_party_hp@.take(k as int),
            mp@ =~= pre_party_mp@.take(k as int),
        decreases state.party@.len() - k,
    {
        max_hp.push(state.party[k].stats.max_hp);
        hp.push(pre_party_hp[k]);
        mp.push(pre_party_mp[k]);
        k = k + 1;
    }
    proof {
        assert(max_hp@ =~= max_hps(state.party@));
        assert(hp@ =~= pre_party_hp@);
        assert(mp@ =~= pre_party_mp@);
    }
    let mut rep = Report { messages: Vec::new(), effects: Vec::new(), hp, mp, last: None };
    proof {
        lemma_log_ext(rep.log(), start_log(pre_party_hp@, pre_party_mp@));
        assert(results@.take(0) =~= Seq::<TurnResult>::empty());
    }
    let mut i: usize = 0;
    while i < results.len()
        invariant
            i <= results@.len(),
            np == state.party@.len(),
            rep.hp@.len() == np,
            gauges_ok(rep.log(), np),
            caps_ok(max_hp@, np),
            max_hp@ == max_hps(state.party@),
            en == enemy_labels(state.enemies@),
            pn == party_labels(state.party@),
            enemy_names@.len() == state.enemies@.len(),
            forall|q: int| 0 <= q < enemy_names@.len() ==> (#[trigger] enemy_names@[q])@ == en[q],
            forall|q: int| 0 <= q < results@.len() ==> event_ok(#[trigger] results@[q], np, state.enemies@.len() as int),
            rep.log() == log_fold(start_log(pre_party_hp@, pre_party_mp@), results@.take(i as int), pn, en, max_hp@),
        decreases results@.len() - i,
    {
        let r = results[i];
        let ghost before = rep.log();
        proof {
            assert(results@.take(i + 1).drop_last() =~= results@.take(i as int));
            assert(results@.take(i + 1).last() == r);
            assert(event_ok(r, np, state.enemies@.len() as int));
        }
        let idx = rep.messages.len();
        let c = cast_of_exec(r);
        let cont = match c {
            Some(_) => same_cast(rep.last, c),
            None => false,
        };
        let line = line_text(r, cont, &state.party, &enemy_names, Ghost(en));
        rep.event_effects(r, &max_hp, idx, Ghost(state.enemies@.len() as int));
        rep.messages.push(line);
        rep.last = c;
        proof {
            let want = log_step(before, r, pn, en, max_hp@);
            assert(rep.log().messages =~= want.messages);
            lemma_log_ext(rep.log(), want);
        }
        i = i + 1;
    }
    proof {
        assert(results@.take(results@.len() as int) =~= results@);
        lemma_report_shape(pre_party_hp@, pre_party_mp@, results@, pn, en, max_hps(state.party@), state.enemies@.len() as int);
        assert(rep.messages@.map_values(|s: String| s@).len() == rep.messages@.len());
    }
    (rep.messages, rep.effects)
}

/// A gauge update never shows a value below zero.
pub open spec fn gauge_effect_ok(e: MessageEffect) -> bool {
    match e {
        MessageEffect::UpdatePartyHp { new_hp, .. } => new_hp >= 0,
        MessageEffect::UpdatePartyMp { new_mp, .. } => new_mp >= 0,
        _ => true,
    }
}

/// The shape of a report of `n` lines: every effect belongs to one of the
/// lines, in line order, no gauge update goes below zero, and the gauges
/// kept are those of `np` members, none below zero.
pub open spec fn report_shaped(l: MessageLog, n: int, np: int) -> bool {
    &&& l.messages.len() == n
    &&& forall|j: int| 0 <= j < l.effects.len() ==> (#[trigger] l.effects[j]).0 < n
    &&& forall|i: int, j: int| 0 <= i <= j < l.effects.len() ==> (#[trigger] l.effects[i]).0 <= (#[trigger] l.effects[j]).0
    &&& forall|j: int| 0 <= j < l.effects.len() ==> gauge_effect_ok((#[trigger] l.effects[j]).1)
    &&& l.hp.len() == np
    &&& l.mp.len() == np
    &&& forall|k: int| 0 <= k < np ==> 0 <= #[trigger] l.hp[k]
    &&& forall|k: int| 0 <= k < np ==> 0 <= #[trigger] l.mp[k]
}

/// The effects of one event keep those before and add only effects of the
/// line at `idx`, with no gauge below zero; a defeated enemy is hidden.
proof fn lemma_event_effects_shape(log: MessageLog, r: TurnResult, max_hp: Seq<i32>, idx: usize, np: int, ne: int)
    requires
        event_ok(r, np, ne),
        max_hp.len() == np,
        forall|k: int| 0 <= k < np ==> 0 <= #[trigger] max_hp[k],
        log.hp.len() == np,
        log.mp.len() == np,
        forall|k: int| 0 <= k < np ==> 0 <= #[trigger] log.hp[k],
        forall|k: int| 0 <= k < np ==> 0 <= #[trigger] log.mp[k],
    ensures
        ({
            let l = event_effects(log, r, max_hp, idx);
            &&& l.messages == log.messages
            &&& l.last == log.last
            &&& log.effects.len() <= l.effects.len()
            &&& forall|j: int| 0 <= j < log.effects.len() ==> #[trigger] l.effects[j] == log.effects[j]
            &&& forall|j: int| log.effects.len() <= j < l.effects.len() ==> (#[trigger] l.effects[j]).0 == idx
            &&& forall|j: int| log.effects.len() <= j < l.effects.len() ==> gauge_effect_ok((#[trigger] l.effects[j]).1)
            &&& l.hp.len() == np
            &&& l.mp.len() == np
            &&& forall|k: int| 0 <= k < np ==> 0 <= #[trigger] l.hp[k]
            &&& forall|k: int| 0 <= k < np ==> 0 <= #[trigger] l.mp[k]
            &&& (r matches TurnResult::Defeated { target: TargetId::Enemy(e) } ==> l.effects.contains((idx, MessageEffect::HideEnemy { enemy_index: e })))
        }),
{
    let p = pay_cast(log, r, idx);
    assert(p.messages == log.messages && p.last == log.last);
    assert(p.hp.len() == np && p.mp.len() == np);
    assert forall|k: int| 0 <= k < np implies 0 <= #[trigger] p.mp[k] by {
        assert(0 <= log.mp[k]);
    }
    match r {
        TurnResult::Defeated { target: TargetId::Enemy(e) } => {
            let l = event_effects(log, r, max_hp, idx);
            assert(l.effects[log.effects.len() as int] == (idx, MessageEffect::HideEnemy { enemy_index: e }));
        },
        _ => {},
    }
}

/// The report of any events whose indices and amounts are in range, from
/// gauges not below zero: one line per event, every effect tied to an
/// existing line and in line order, no gauge update below zero, and a hide
/// for every defeated enemy on the line of its defeat.
pub proof fn lemma_report_shape(hp: Seq<i32>, mp: Seq<i32>, rs: Seq<TurnResult>, pn: Seq<Seq<char>>, en: Seq<Seq<char>>, max_hp: Seq<i32>, ne: int)
    requires
        hp.len() == max_hp.len(),
        mp.len() == max_hp.len(),
        forall|k: int| 0 <= k < hp.len() ==> 0 <= #[trigger] hp[k],
        forall|k: int| 0 <= k < mp.len() ==> 0 <= #[trigger] mp[k],
        forall|k: int| 0 <= k < max_hp.len() ==> 0 <= #[trigger] max_hp[k],
        forall|k: int| 0 <= k < rs.len() ==> event_ok(#[trigger] rs[k], max_hp.len() as int, ne),
        rs.len() <= usize::MAX,
    ensures
        report_shaped(log_fold(start_log(hp, mp), rs, pn, en, max_hp), rs.len() as int, max_hp.len() as int),
        forall|k: int| 0 <= k < rs.len() ==> (#[trigger] rs[k] matches TurnResult::Defeated { target: TargetId::Enemy(e) } ==>
            log_fold(start_log(hp, mp), rs, pn, en, max_hp).effects.contains((k as usize, MessageEffect::HideEnemy { enemy_index: e }))),
    decreases rs.len(),
{
    let np = max_hp.len() as int;
    if rs.len() > 0 {
        let d = rs.drop_last();
        assert forall|k: int| 0 <= k < d.len() implies event_ok(#[trigger] d[k], np, ne) by {
            assert(d[k] == rs[k]);
        }
        lemma_report_shape(hp, mp, d, pn, en, max_hp, ne);
        let prev = log_fold(start_log(hp, mp), d, pn, en, max_hp);
        let r = rs.last();
        assert(event_ok(rs[rs.len() - 1], np, ne));
        let idx = prev.messages.len() as usize;
        lemma_event_effects_shape(prev, r, max_hp, idx, np, ne);
        let l = log_fold(start_log(hp, mp), rs, pn, en, max_hp);
        let ev = event_effects(prev, r, max_hp, idx);
        assert(l.effects == ev.effects);
        assert(idx as int == d.len());
        assert forall|i: int, j: int| 0 <= i <= j < l.effects.len() implies (#[trigger] l.effects[i]).0 <= (#[trigger] l.effects[j]).0 by {
            if j < prev.effects.len() {
                assert(l.effects[i] == prev.effects[i] && l.effects[j] == prev.effects[j]);
            } else if i < prev.effects.len() {
                assert(l.effects[i] == prev.effects[i]);
            }
        }
        assert forall|j: int| 0 <= j < l.effects.len() implies (#[trigger] l.effects[j]).0 < rs.len() by {
            if j < prev.effects.len() {
                assert(l.effects[j] == prev.effects[j]);
            }
        }
        assert forall|j: int| 0 <= j < l.effects.len() implies gauge_effect_ok((#[trigger] l.effects[j]).1) by {
            if j < prev.effects.len() {
                assert(l.effects[j] == prev.effects[j]);
            }
        }
        assert forall|k: int| 0 <= k < rs.len() implies (#[trigger] rs[k] matches TurnResult::Defeated { target: TargetId::Enemy(e) } ==>
            l.effects.contains((k as usize, MessageEffect::HideEnemy { enemy_index: e }))) by {
            if k < d.len() {
                assert(d[k] == rs[k]);
                if let TurnResult::Defeated { target: TargetId::Enemy(e) } = rs[k] {
                    let x = (k as usize, MessageEffect::HideEnemy { enemy_index: e });
                    assert(prev.effects.contains(x));
                    let j = choose|j: int| 0 <= j < prev.effects.len() && prev.effects[j] == x;
                    assert(l.effects[j] == x);
                }
            }
        }
    }
}


/// A party member's spell that starts a new cast (damage, healing, a buff,
/// a drain or an ailment alike) shows the caster's MP going down by the
/// spell's cost, not below zero, on the line of the cast.
pub proof fn lemma_new_cast_pays_mp(log: MessageLog, r: TurnResult, pn: Seq<Seq<char>>, en: Seq<Seq<char>>, max_hp: Seq<i32>, c: usize, spell: SpellKind)
    requires
        cast_of(r) == Some((ActorId::Party(c), spell)),
        log.last != cast_of(r),
        c < log.mp.len(),
    ensures
        ({
            let cost = spell_entry_spec(spell).mp_cost;
            let shown = if log.mp[c as int] >= cost { log.mp[c as int] - cost } else { 0 };
            let l = log_step(log, r, pn, en, max_hp);
            &&& l.effects.len() > log.effects.len()
            &&& l.effects[log.effects.len() as int] == (log.messages.len() as usize, MessageEffect::UpdatePartyMp { member_index: c, new_mp: shown as i32 })
        }),
{
    crate::spell::lemma_spell_data(spell);
    let idx = log.messages.len() as usize;
    let p = pay_cast(log, r, idx);
    let cost = spell_entry_spec(spell).mp_cost;
    let shown = if log.mp[c as int] >= cost { log.mp[c as int] - cost } else { 0 };
    assert(p.effects == log.effects.push((idx, MessageEffect::UpdatePartyMp { member_index: c, new_mp: shown as i32 })));
    let l = event_effects(log, r, max_hp, idx);
    assert(l.effects.len() >= p.effects.len());
    assert(l.effects[log.effects.len() as int] == p.effects[log.effects.len() as int]);
}

/// A spell event that continues the cast before it (a further target of the
/// same spell from the same caster) charges no MP again: the MP shown stays
/// as it was, unless the event itself drains MP.
pub proof fn lemma_continued_cast_keeps_mp(log: MessageLog, r: TurnResult, pn: Seq<Seq<char>>, en: Seq<Seq<char>>, max_hp: Seq<i32>)
    requires
        cast_of(r) is Some,
        log.last == cast_of(r),
        !(r is MpDrained),
    ensures
        log_step(log, r, pn, en, max_hp).mp == log.mp,
{
    let idx = log.messages.len() as usize;
    assert(pay_cast(log, r, idx) == log);
}

} // verus!
