//! What a won battle gives: the experience of the defeated enemies goes to
//! every living member, and each level-up and newly learned spell is
//! announced.
use vstd::prelude::*;
use crate::battle_messages::{decimal, unsigned_text};
use crate::character_table::CharacterParamTable;
use crate::party::{exp_to_next_level, lemma_exp_threshold_fits, lemma_level_reached, level_reached, member_name, PartyMember, PartyMemberKind, LEVEL_CAP};
use crate::party_spells::spells_learned_at_level;
use crate::spell::{learned_at, pick_spells, spell_entry_spec, SpellEntry, SpellKind};
use crate::stats::{fits_i32, grown, growth_fits, CombatStats, StatGrowth};

verus! {

/// `けいけんち N ポイント かくとく！`
pub open spec fn exp_line(amount: int) -> Seq<char> {
    "けいけんち "@ + decimal(amount) + "ポイント かくとく！"@
}

/// `name は レベル N に あがった！`
pub open spec fn level_line(k: PartyMemberKind, level: int) -> Seq<char> {
    member_name(k)@ + "は レベル"@ + decimal(level) + "に あがった！"@
}

/// `name は spell を おぼえた！`
pub open spec fn learn_line(k: PartyMemberKind, e: SpellEntry) -> Seq<char> {
    member_name(k)@ + "は "@ + e.name@ + "を おぼえた！"@
}

/// The spells a character learns on reaching exactly `level`.
pub open spec fn learned_on(t: CharacterParamTable, k: PartyMemberKind, level: int) -> Seq<SpellEntry> {
    pick_spells(t.entry_of(k).spell_learn_table@, learned_at(level as u32)).map_values(|s: SpellKind| spell_entry_spec(s))
}

/// The announcements of the spells learned on the levels `from` to `to`.
pub open spec fn learned_lines(t: CharacterParamTable, k: PartyMemberKind, from: int, to: int) -> Seq<Seq<char>>
    decreases to - from + 1,
{
    if to < from {
        Seq::empty()
    } else {
        learned_lines(t, k, from, to - 1) + learned_on(t, k, to).map_values(|e: SpellEntry| learn_line(k, e))
    }
}

/// The level a member reaches with `amount` more experience.
pub open spec fn new_level(m: PartyMember, amount: int) -> int {
    level_reached(m.level as int, m.exp + amount)
}

/// What a member announces on gaining `amount` experience: its new level
/// and the spells of every level passed, when it levels up at all.
pub open spec fn member_lines(t: CharacterParamTable, m: PartyMember, amount: int) -> Seq<Seq<char>> {
    if new_level(m, amount) > m.level {
        seq![level_line(m.kind, new_level(m, amount))] + learned_lines(t, m.kind, m.level + 1, new_level(m, amount))
    } else {
        Seq::empty()
    }
}

/// The announcements of the first `n` members; only the living gain.
pub open spec fn reward_lines(t: CharacterParamTable, ms: Seq<PartyMember>, amount: int, n: int) -> Seq<Seq<char>>
    decreases n,
{
    if n <= 0 {
        Seq::empty()
    } else {
        reward_lines(t, ms, amount, n - 1) + if ms[n - 1].stats.hp > 0 { member_lines(t, ms[n - 1], amount) } else { Seq::empty() }
    }
}

/// A member can take `amount` experience: the total fits, the level stays
/// below the cap and the grown statistics fit.
pub open spec fn can_gain(t: CharacterParamTable, m: PartyMember, amount: int) -> bool {
    &&& m.exp + amount <= u32::MAX
    &&& new_level(m, amount) < LEVEL_CAP
    &&& growth_fits(m.stats, t.entry_of(m.kind).stat_growth, new_level(m, amount) - m.level)
}

/// A member after gaining `amount` experience.
pub open spec fn gained(t: CharacterParamTable, before: PartyMember, after: PartyMember, amount: int) -> bool {
    &&& after.exp == before.exp + amount
    &&& after.level == new_level(before, amount)
    &&& after.stats == grown(before.stats, t.entry_of(before.kind).stat_growth, new_level(before, amount) - before.level)
    &&& after.kind == before.kind
    &&& after.equipment == before.equipment
    &&& after.inventory == before.inventory
}

/// The texts of strings.
pub open spec fn texts(v: Seq<String>) -> Seq<Seq<char>> {
    v.map_values(|s: String| s@)
}

proof fn lemma_texts_push(v: Seq<String>, s: String)
    ensures
        texts(v.push(s)) == texts(v).push(s@),
{
    assert(texts(v.push(s)) =~= texts(v).push(s@));
}

fn level_text(k: PartyMemberKind, level: u32) -> (r: String)
    ensures
        r@ == level_line(k, level as int),
{
    let mut s = String::from_str(k.name());
    s.append("は レベル");
    let n = unsigned_text(level as u64);
    s.append(n.as_str());
    s.append("に あがった！");
    s
}

fn learn_text(k: PartyMemberKind, e: &SpellEntry) -> (r: String)
    ensures
        r@ == learn_line(k, *e),
{
    let mut s = String::from_str(k.name());
    s.append("は ");
    s.append(e.name);
    s.append("を おぼえた！");
    s
}

/// Appends the announcements of the spells learned on the levels `from` to
/// `to`.
fn announce_spells(lines: &mut Vec<String>, t: &CharacterParamTable, k: PartyMemberKind, from: u32, to: u32)
    requires
        1 <= from <= to + 1,
        to < LEVEL_CAP,
    ensures
        texts(final(lines)@) == texts(old(lines)@) + learned_lines(*t, k, from as int, to as int),
{
    let ghost start = texts(lines@);
    let mut lvl: u32 = from;
    proof {
        assert(learned_lines(*t, k, from as int, from - 1) =~= Seq::<Seq<char>>::empty());
        assert(start + Seq::<Seq<char>>::empty() =~= start);
    }
    while lvl <= to
        invariant
            from <= lvl <= to + 1,
            to < LEVEL_CAP,
            texts(lines@) == start + learned_lines(*t, k, from as int, lvl - 1),
        decreases to + 1 - lvl,
    {
        let learned = spells_learned_at_level(k, lvl, t);
        let ghost before = texts(lines@);
        let mut j: usize = 0;
        while j < learned.len()
            invariant
                j <= learned@.len(),
                learned@ == learned_on(*t, k, lvl as int),
                texts(lines@) == before + learned@.take(j as int).map_values(|e: SpellEntry| learn_line(k, e)),
            decreases learned@.len() - j,
        {
            let line = learn_text(k, &learned[j]);
            proof {
                lemma_texts_push(lines@, line);
                assert(learned@.take(j + 1).map_values(|e: SpellEntry| learn_line(k, e))
                    =~= learned@.take(j as int).map_values(|e: SpellEntry| learn_line(k, e)).push(learn_line(k, learned@[j as int])));
                assert(before + learned@.take(j + 1).map_values(|e: SpellEntry| learn_line(k, e))
                    =~= (before + learned@.take(j as int).map_values(|e: SpellEntry| learn_line(k, e))).push(line@));
            }
            lines.push(line);
            j = j + 1;
        }
        proof {
            assert(learned@.take(learned@.len() as int) =~= learned@);
            assert(start + learned_lines(*t, k, from as int, lvl as int)
                =~= start + learned_lines(*t, k, from as int, lvl - 1) + learned_on(*t, k, lvl as int).map_values(|e: SpellEntry| learn_line(k, e)));
        }
        lvl = lvl + 1;
    }
}

/// Gives `amount` experience to every living member, in party order, and
/// returns the announcements: first the experience gained, then for each
/// member that levels up its new level and the spells of every level it
/// passed. Fallen members gain nothing.
pub fn award_experience(party: &mut Vec<PartyMember>, amount: u32, t: &CharacterParamTable) -> (r: Vec<String>)
    requires
        forall|i: int| 0 <= i < old(party)@.len() && (#[trigger] old(party)@[i]).stats.hp > 0 ==> can_gain(*t, old(party)@[i], amount as int),
    ensures
        texts(r@) == seq![exp_line(amount as int)] + reward_lines(*t, old(party)@, amount as int, old(party)@.len() as int),
        final(party)@.len() == old(party)@.len(),
        forall|i: int| 0 <= i < old(party)@.len() ==> if (#[trigger] old(party)@[i]).stats.hp > 0 {
            gained(*t, old(party)@[i], final(party)@[i], amount as int)
        } else {
            final(party)@[i] == old(party)@[i]
        },
{
    let ghost ms = party@;
    let mut lines: Vec<String> = Vec::new();
    let mut first = String::from_str("けいけんち ");
    let n = unsigned_text(amount as u64);
    first.append(n.as_str());
    first.append("ポイント かくとく！");
    lines.push(first);
    proof {
        assert(texts(lines@) =~= seq![exp_line(amount as int)]);
    }
    let mut i: usize = 0;
    while i < party.len()
        invariant
            i <= party@.len(),
            party@.len() == ms.len(),
            forall|j: int| 0 <= j < ms.len() && (#[trigger] ms[j]).stats.hp > 0 ==> can_gain(*t, ms[j], amount as int),
            texts(lines@) == seq![exp_line(amount as int)] + reward_lines(*t, ms, amount as int, i as int),
            forall|j: int| 0 <= j < i ==> if (#[trigger] ms[j]).stats.hp > 0 {
                gained(*t, ms[j], party@[j], amount as int)
            } else {
                party@[j] == ms[j]
            },
            forall|j: int| i <= j < ms.len() ==> #[trigger] party@[j] == ms[j],
        decreases ms.len() - i,
    {
        let ghost cur = party@;
        if party[i].stats.hp > 0 {
            let mut m = party.remove(i);
            let old_level = m.level;
            let ups = m.gain_exp(amount, t);
            let kind = m.kind;
            let level = m.level;
            let ghost mv = m;
            party.insert(i, m);
            proof {
                assert(party@ =~= cur.update(i as int, mv));
            }
            if ups > 0 {
                let line = level_text(kind, level);
                proof {
                    lemma_texts_push(lines@, line);
                }
                lines.push(line);
                announce_spells(&mut lines, t, kind, old_level + 1, level);
            }
            proof {
                assert(texts(lines@) =~= seq![exp_line(amount as int)] + reward_lines(*t, ms, amount as int, i + 1));
            }
        } else {
            proof {
                assert(reward_lines(*t, ms, amount as int, i + 1) =~= reward_lines(*t, ms, amount as int, i as int));
            }
        }
        i = i + 1;
    }
    lines
}

/// The level reached from `level` with `exp` experience, or nothing when it
/// is not below the cap.
fn level_below_cap(level: u32, exp: u32) -> (r: Option<u32>)
    ensures
        r == if level_reached(level as int, exp as int) < LEVEL_CAP {
            Some(level_reached(level as int, exp as int) as u32)
        } else {
            None::<u32>
        },
{
    proof {
        lemma_level_reached(level as int, exp as int);
    }
    if level >= LEVEL_CAP {
        return None;
    }
    let mut l: u32 = level;
    loop
        invariant
            level <= l < LEVEL_CAP,
            level_reached(level as int, exp as int) == level_reached(l as int, exp as int),
        decreases LEVEL_CAP - l,
    {
        proof {
            lemma_exp_threshold_fits(l as int);
            lemma_level_reached(l as int, exp as int);
        }
        if exp < exp_to_next_level(l) {
            return Some(l);
        }
        if l + 1 >= LEVEL_CAP {
            proof {
                lemma_level_reached(l + 1, exp as int);
            }
            return None;
        }
        l = l + 1;
    }
}

/// Whether `v + n * g` fits in `i32`.
fn fits_after(v: i32, n: u32, g: i32) -> (r: bool)
    requires
        n < LEVEL_CAP,
    ensures
        r == fits_i32(v + n * g),
{
    assert(-0x1_0000_0000_0000 <= n * g <= 0x1_0000_0000_0000) by (nonlinear_arith)
        requires
            0 <= n < 29309,
            -0x8000_0000 <= g < 0x8000_0000,
    ;
    let prod: i64 = n as i64 * g as i64;
    let total: i64 = v as i64 + prod;
    -2147483648 <= total && total <= 2147483647
}

fn growth_fits_check(s: CombatStats, g: StatGrowth, n: u32) -> (r: bool)
    requires
        n < LEVEL_CAP,
    ensures
        r == growth_fits(s, g, n as int),
{
    fits_after(s.hp, n, g.hp) && fits_after(s.max_hp, n, g.hp) && fits_after(s.mp, n, g.mp) && fits_after(s.max_mp, n, g.mp)
        && fits_after(s.attack, n, g.attack) && fits_after(s.defense, n, g.defense) && fits_after(s.speed, n, g.speed)
}

/// Whether every living member can take `amount` experience.
pub fn can_award(party: &Vec<PartyMember>, amount: u32, t: &CharacterParamTable) -> (r: bool)
    ensures
        r == forall|i: int| 0 <= i < party@.len() && (#[trigger] party@[i]).stats.hp > 0 ==> can_gain(*t, party@[i], amount as int),
{
    let mut i: usize = 0;
    while i < party.len()
        invariant
            i <= party@.len(),
            forall|j: int| 0 <= j < i && (#[trigger] party@[j]).stats.hp > 0 ==> can_gain(*t, party@[j], amount as int),
        decreases party@.len() - i,
    {
        let m = &party[i];
        if m.stats.hp > 0 {
            if m.exp as u64 + amount as u64 > 0xffff_ffff {
                return false;
            }
            match level_below_cap(m.level, m.exp + amount) {
                None => {
                    return false;
                },
                Some(nl) => {
                    proof {
                        lemma_level_reached(m.level as int, m.exp + amount);
                    }
                    let g = t.stat_growth(m.kind);
                    if !growth_fits_check(m.stats, *g, nl - m.level) {
                        return false;
                    }
                },
            }
        }
        i = i + 1;
    }
    true
}


/// A spell on a line of a learn table whose level passes `keep` is picked.
proof fn lemma_pick_has<T>(t: Seq<(u32, T)>, keep: spec_fn(u32) -> bool, j: int)
    requires
        0 <= j < t.len(),
        keep(t[j].0),
    ensures
        pick_spells(t, keep).contains(t[j].1),
    decreases t.len(),
{
    let rest = pick_spells(t.drop_last(), keep);
    if j < t.len() - 1 {
        assert(t.drop_last()[j] == t[j]);
        lemma_pick_has(t.drop_last(), keep, j);
        let k = choose|k: int| 0 <= k < rest.len() && rest[k] == t[j].1;
        if keep(t.last().0) {
            assert(rest.push(t.last().1)[k] == t[j].1);
        }
    } else {
        assert(rest.push(t.last().1)[rest.len() as int] == t[j].1);
    }
}

/// Whatever is picked from a learn table stands on a line whose level
/// passes `keep`.
proof fn lemma_pick_only<T>(t: Seq<(u32, T)>, keep: spec_fn(u32) -> bool, x: T)
    requires
        pick_spells(t, keep).contains(x),
    ensures
        exists|j: int| 0 <= j < t.len() && keep(#[trigger] t[j].0) && t[j].1 == x,
    decreases t.len(),
{
    let rest = pick_spells(t.drop_last(), keep);
    if t.len() > 0 {
        if rest.contains(x) {
            lemma_pick_only(t.drop_last(), keep, x);
            let j = choose|j: int| 0 <= j < t.drop_last().len() && keep(#[trigger] t.drop_last()[j].0) && t.drop_last()[j].1 == x;
            assert(t[j] == t.drop_last()[j]);
        } else {
            let k = choose|k: int| 0 <= k < pick_spells(t, keep).len() && pick_spells(t, keep)[k] == x;
            if keep(t.last().0) {
                if k < rest.len() {
                    assert(rest.push(t.last().1)[k] == rest[k]);
                }
                assert(t[t.len() - 1] == t.last());
            }
        }
    }
}

/// Every announcement of the levels `from` to `to` names a spell of the
/// learn table whose level lies in between.
proof fn lemma_learned_lines_only(t: CharacterParamTable, k: PartyMemberKind, from: int, to: int, x: Seq<char>)
    requires
        0 <= from,
        to <= u32::MAX,
        learned_lines(t, k, from, to).contains(x),
    ensures
        exists|j: int| 0 <= j < t.entry_of(k).spell_learn_table@.len()
            && from <= #[trigger] t.entry_of(k).spell_learn_table@[j].0 <= to
            && x == learn_line(k, spell_entry_spec(t.entry_of(k).spell_learn_table@[j].1)),
    decreases to - from + 1,
{
    let table = t.entry_of(k).spell_learn_table@;
    if to >= from {
        let last = learned_on(t, k, to).map_values(|e: SpellEntry| learn_line(k, e));
        let before = learned_lines(t, k, from, to - 1);
        let i = choose|i: int| 0 <= i < (before + last).len() && (before + last)[i] == x;
        if i < before.len() {
            assert(before[i] == x);
            lemma_learned_lines_only(t, k, from, to - 1, x);
        } else {
            let picked = pick_spells(table, learned_at(to as u32));
            let q = i - before.len();
            assert(last[q] == x);
            assert(picked.contains(picked[q]));
            lemma_pick_only(table, learned_at(to as u32), picked[q]);
            let j = choose|j: int| 0 <= j < table.len() && learned_at(to as u32)(#[trigger] table[j].0) && table[j].1 == picked[q];
            assert(table[j].0 == to as u32);
        }
    }
}

/// The announcements of the levels `from` to `to` include those of each
/// level in between.
proof fn lemma_learned_lines_has(t: CharacterParamTable, k: PartyMemberKind, from: int, to: int, level: int, x: Seq<char>)
    requires
        from <= level <= to,
        learned_on(t, k, level).map_values(|e: SpellEntry| learn_line(k, e)).contains(x),
    ensures
        learned_lines(t, k, from, to).contains(x),
    decreases to - from + 1,
{
    let last = learned_on(t, k, to).map_values(|e: SpellEntry| learn_line(k, e));
    let before = learned_lines(t, k, from, to - 1);
    if level < to {
        lemma_learned_lines_has(t, k, from, to - 1, level, x);
        let i = choose|i: int| 0 <= i < before.len() && before[i] == x;
        assert((before + last)[i] == x);
    } else {
        let i = choose|i: int| 0 <= i < last.len() && last[i] == x;
        assert((before + last)[before.len() + i] == x);
    }
}

/// A member who levels up announces its new level first, then every spell
/// of its learn table whose required level lies above the old level and at
/// most the new one, the new level included.
pub proof fn lemma_level_up_lines(t: CharacterParamTable, m: PartyMember, amount: int, j: int)
    requires
        new_level(m, amount) > m.level,
        0 <= j < t.entry_of(m.kind).spell_learn_table@.len(),
        m.level < t.entry_of(m.kind).spell_learn_table@[j].0 <= new_level(m, amount),
    ensures
        member_lines(t, m, amount)[0] == level_line(m.kind, new_level(m, amount)),
        member_lines(t, m, amount).contains(
            learn_line(m.kind, spell_entry_spec(t.entry_of(m.kind).spell_learn_table@[j].1)),
        ),
{
    let table = t.entry_of(m.kind).spell_learn_table@;
    let lvl = table[j].0;
    lemma_pick_has(table, learned_at(lvl), j);
    let picked = pick_spells(table, learned_at(lvl));
    let i = choose|i: int| 0 <= i < picked.len() && picked[i] == table[j].1;
    let x = learn_line(m.kind, spell_entry_spec(table[j].1));
    let on = learned_on(t, m.kind, lvl as int);
    assert(on[i] == spell_entry_spec(table[j].1));
    assert(on.map_values(|e: SpellEntry| learn_line(m.kind, e))[i] == x);
    lemma_learned_lines_has(t, m.kind, m.level + 1, new_level(m, amount), lvl as int, x);
    let ll = learned_lines(t, m.kind, m.level + 1, new_level(m, amount));
    let h = seq![level_line(m.kind, new_level(m, amount))];
    let q = choose|q: int| 0 <= q < ll.len() && ll[q] == x;
    assert((h + ll)[1 + q] == x);
}

/// The lines of the first `n` members hold those of every living one.
proof fn lemma_reward_lines_has(t: CharacterParamTable, ms: Seq<PartyMember>, amount: int, n: int, i: int, x: Seq<char>)
    requires
        0 <= i < n,
        ms[i].stats.hp > 0,
        member_lines(t, ms[i], amount).contains(x),
    ensures
        reward_lines(t, ms, amount, n).contains(x),
    decreases n,
{
    let before = reward_lines(t, ms, amount, n - 1);
    let last = if ms[n - 1].stats.hp > 0 { member_lines(t, ms[n - 1], amount) } else { Seq::empty() };
    if i < n - 1 {
        lemma_reward_lines_has(t, ms, amount, n - 1, i, x);
        let q = choose|q: int| 0 <= q < before.len() && before[q] == x;
        assert((before + last)[q] == x);
    } else {
        let q = choose|q: int| 0 <= q < last.len() && last[q] == x;
        assert((before + last)[before.len() + q] == x);
    }
}

/// A member who levels up announces nothing but its new level, first, and
/// the spells of its learn table whose required level lies above the old
/// level and at most the new one.
pub proof fn lemma_level_up_lines_only(t: CharacterParamTable, m: PartyMember, amount: int, q: int)
    requires
        1 <= q < member_lines(t, m, amount).len(),
        new_level(m, amount) <= u32::MAX,
    ensures
        new_level(m, amount) > m.level,
        exists|j: int| 0 <= j < t.entry_of(m.kind).spell_learn_table@.len()
            && m.level < #[trigger] t.entry_of(m.kind).spell_learn_table@[j].0 <= new_level(m, amount)
            && member_lines(t, m, amount)[q] == learn_line(m.kind, spell_entry_spec(t.entry_of(m.kind).spell_learn_table@[j].1)),
{
    let ll = learned_lines(t, m.kind, m.level + 1, new_level(m, amount));
    let h = seq![level_line(m.kind, new_level(m, amount))];
    assert(member_lines(t, m, amount) == h + ll);
    assert((h + ll)[q] == ll[q - 1]);
    assert(ll.contains(ll[q - 1]));
    lemma_learned_lines_only(t, m.kind, m.level + 1, new_level(m, amount), ll[q - 1]);
}

/// After a victory, a living member who levels up is announced reaching
/// its new level, and every spell it learns on the levels it passes, the
/// level it reaches included, is announced too.
pub proof fn lemma_award_announces(t: CharacterParamTable, ms: Seq<PartyMember>, amount: int, i: int, j: int)
    requires
        0 <= i < ms.len(),
        ms[i].stats.hp > 0,
        new_level(ms[i], amount) > ms[i].level,
        0 <= j < t.entry_of(ms[i].kind).spell_learn_table@.len(),
        ms[i].level < t.entry_of(ms[i].kind).spell_learn_table@[j].0 <= new_level(ms[i], amount),
    ensures
        (seq![exp_line(amount)] + reward_lines(t, ms, amount, ms.len() as int)).contains(
            learn_line(ms[i].kind, spell_entry_spec(t.entry_of(ms[i].kind).spell_learn_table@[j].1)),
        ),
        (seq![exp_line(amount)] + reward_lines(t, ms, amount, ms.len() as int)).contains(
            level_line(ms[i].kind, new_level(ms[i], amount)),
        ),
{
    let m = ms[i];
    lemma_level_up_lines(t, m, amount, j);
    let x = learn_line(m.kind, spell_entry_spec(t.entry_of(m.kind).spell_learn_table@[j].1));
    let y = level_line(m.kind, new_level(m, amount));
    assert(member_lines(t, m, amount)[0] == y);
    lemma_reward_lines_has(t, ms, amount, ms.len() as int, i, x);
    lemma_reward_lines_has(t, ms, amount, ms.len() as int, i, y);
    let rl = reward_lines(t, ms, amount, ms.len() as int);
    let h = seq![exp_line(amount)];
    let q = choose|q: int| 0 <= q < rl.len() && rl[q] == x;
    assert((h + rl)[1 + q] == x);
    let q2 = choose|q: int| 0 <= q < rl.len() && rl[q] == y;
    assert((h + rl)[1 + q2] == y);
}

} // verus!
