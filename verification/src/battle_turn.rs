//! A whole battle turn: the order of action, every actor's move, and what
//! happens at the end of the turn.
use vstd::prelude::*;
use crate::battle_actions::{
    enemy_action_spec, item_use_spec, lemma_damaged_ok, lemma_enemy_stats_ok, lemma_party_stats_ok,
    party_attack_spec, spell_target_ok,
};
use crate::combat::{
    alive_list, ally_index_ok, buff_ok, damaged, enemy_index_ok, lemma_alive_list, model_ok,
    party_spell_spec, retarget_enemy_spec, stats_ok, with_fall, ActorAilments, ActorBuffs, ActorId,
    BattleAction, BattleModel, BattleState, BuffStat, BuffState, TargetId, TurnRandomFactors,
    TurnResult, RANDOM_LIMIT,
};
use crate::enemy::{base_exp_spec, tier_exp, Enemy};
use crate::formula::RANDOM_SCALE;
use crate::item::item_effect;
use crate::spell::POISON_DAMAGE;
use crate::stats::CombatStats;

verus! {

/// Fleeing succeeds when the flee roll is below this, in thousandths.
pub const FLEE_CHANCE: u32 = 500;

/// The random factor at a position; a missing one counts as one.
pub open spec fn random_at(v: Seq<u32>, i: int) -> u32 {
    if 0 <= i < v.len() {
        v[i]
    } else {
        RANDOM_SCALE
    }
}

/// Every damage factor within the bound.
pub open spec fn randoms_ok(v: Seq<u32>) -> bool {
    forall|i: int| 0 <= i < v.len() ==> #[trigger] v[i] <= RANDOM_LIMIT
}

/// A command whose target names an existing actor wherever the move looks
/// the target up.
pub open spec fn command_ok(cmd: BattleAction, n_party: int, n_enemies: int) -> bool {
    match cmd {
        BattleAction::Attack { target } => enemy_index_ok(target, n_enemies),
        BattleAction::Spell { spell, target } => spell_target_ok(spell, target, n_party, n_enemies),
        BattleAction::UseItem { item, target } => item_effect(item) is Heal ==> ally_index_ok(target, n_party),
        BattleAction::Flee => true,
    }
}

/// The commands of the party members are all well aimed.
pub open spec fn commands_ok(cmds: Seq<BattleAction>, n_party: int, n_enemies: int) -> bool {
    forall|i: int| 0 <= i < cmds.len() && i < n_party ==> command_ok(#[trigger] cmds[i], n_party, n_enemies)
}

/// Someone chose to flee.
pub open spec fn has_flee(cmds: Seq<BattleAction>) -> bool {
    exists|i: int| 0 <= i < cmds.len() && #[trigger] cmds[i] is Flee
}

// ---- order of action ----

/// The speed of an actor.
pub open spec fn actor_speed(m: BattleModel, a: ActorId) -> int {
    match a {
        ActorId::Party(i) => m.party_stats[i as int].speed as int,
        ActorId::Enemy(i) => m.enemy_stats[i as int].speed as int,
    }
}

/// Party members come before enemies of the same speed.
pub open spec fn side_rank(a: ActorId) -> int {
    match a {
        ActorId::Party(_) => 0,
        ActorId::Enemy(_) => 1,
    }
}

/// The index of an actor within its side.
pub open spec fn actor_index(a: ActorId) -> int {
    match a {
        ActorId::Party(i) => i as int,
        ActorId::Enemy(i) => i as int,
    }
}

/// `a` acts before `b`: faster first; at equal speed the party first; and
/// within a side, in index order.
pub open spec fn acts_before(m: BattleModel, a: ActorId, b: ActorId) -> bool {
    ||| actor_speed(m, a) > actor_speed(m, b)
    ||| actor_speed(m, a) == actor_speed(m, b) && side_rank(a) < side_rank(b)
    ||| actor_speed(m, a) == actor_speed(m, b) && side_rank(a) == side_rank(b) && actor_index(a) < actor_index(b)
}

/// An actor names an existing party member or enemy.
pub open spec fn actor_ok(a: ActorId, n_party: int, n_enemies: int) -> bool {
    match a {
        ActorId::Party(i) => i < n_party,
        ActorId::Enemy(i) => i < n_enemies,
    }
}

/// Where an actor goes in an ordered list: before the first one it acts before.
pub open spec fn slot_for(m: BattleModel, o: Seq<ActorId>, x: ActorId) -> int
    decreases o.len(),
{
    if o.len() == 0 {
        0
    } else if acts_before(m, x, o[0]) {
        0
    } else {
        1 + slot_for(m, o.drop_first(), x)
    }
}

/// The actors put in order of action, one at a time.
pub open spec fn order_by_speed(m: BattleModel, c: Seq<ActorId>) -> Seq<ActorId>
    decreases c.len(),
{
    if c.len() == 0 {
        Seq::empty()
    } else {
        let o = order_by_speed(m, c.drop_last());
        o.insert(slot_for(m, o, c.last()), c.last())
    }
}

/// The living party members among the first `n` that have a command.
pub open spec fn party_candidates(m: BattleModel, n_cmds: int, n: nat) -> Seq<ActorId>
    decreases n,
{
    if n == 0 {
        Seq::empty()
    } else {
        let rest = party_candidates(m, n_cmds, (n - 1) as nat);
        let i = n - 1;
        if m.party_stats[i].hp > 0 && i < n_cmds {
            rest.push(ActorId::Party(i as usize))
        } else {
            rest
        }
    }
}

/// The living enemies among the first `n`.
pub open spec fn enemy_candidates(m: BattleModel, n: nat) -> Seq<ActorId>
    decreases n,
{
    if n == 0 {
        Seq::empty()
    } else {
        let rest = enemy_candidates(m, (n - 1) as nat);
        let i = n - 1;
        if m.enemy_stats[i].hp > 0 {
            rest.push(ActorId::Enemy(i as usize))
        } else {
            rest
        }
    }
}

/// The actors of a turn: living party members with a command, then living
/// enemies.
pub open spec fn turn_candidates(m: BattleModel, n_cmds: int) -> Seq<ActorId> {
    party_candidates(m, n_cmds, m.party_stats.len()) + enemy_candidates(m, m.enemy_stats.len())
}

/// The order of action of a turn.
pub open spec fn action_order_spec(m: BattleModel, n_cmds: int) -> Seq<ActorId> {
    order_by_speed(m, turn_candidates(m, n_cmds))
}

/// Actors listed from the first to move to the last.
pub open spec fn in_speed_order(m: BattleModel, o: Seq<ActorId>) -> bool {
    forall|i: int, j: int| 0 <= i < j < o.len() ==> acts_before(m, #[trigger] o[i], #[trigger] o[j])
}

/// An actor that takes part in a turn with `n_cmds` commands: a living party
/// member with a command, or a living enemy.
pub open spec fn turn_candidate(m: BattleModel, n_cmds: int, a: ActorId) -> bool {
    match a {
        ActorId::Party(i) => i < m.party_stats.len() && i < n_cmds && m.party_stats[i as int].hp > 0,
        ActorId::Enemy(i) => i < m.enemy_stats.len() && m.enemy_stats[i as int].hp > 0,
    }
}

proof fn lemma_acts_before_total(m: BattleModel, a: ActorId, b: ActorId)
    requires
        a != b,
    ensures
        acts_before(m, a, b) || acts_before(m, b, a),
        !(acts_before(m, a, b) && acts_before(m, b, a)),
{
}

proof fn lemma_acts_before_trans(m: BattleModel, a: ActorId, b: ActorId, c: ActorId)
    requires
        acts_before(m, a, b),
        acts_before(m, b, c),
    ensures
        acts_before(m, a, c),
{
}

proof fn lemma_acts_before_irreflexive(m: BattleModel, a: ActorId)
    ensures
        !acts_before(m, a, a),
{
}

proof fn lemma_slot_for(m: BattleModel, o: Seq<ActorId>, x: ActorId)
    requires
        in_speed_order(m, o),
        !o.contains(x),
    ensures
        0 <= slot_for(m, o, x) <= o.len(),
        forall|k: int| 0 <= k < slot_for(m, o, x) ==> acts_before(m, #[trigger] o[k], x),
        forall|k: int| slot_for(m, o, x) <= k < o.len() ==> acts_before(m, x, #[trigger] o[k]),
    decreases o.len(),
{
    if o.len() > 0 {
        if acts_before(m, x, o[0]) {
            assert forall|k: int| 0 <= k < o.len() implies acts_before(m, x, #[trigger] o[k]) by {
                if k > 0 {
                    lemma_acts_before_trans(m, x, o[0], o[k]);
                }
            }
        } else {
            let rest = o.drop_first();
            assert(x != o[0]);
            lemma_acts_before_total(m, x, o[0]);
            assert(in_speed_order(m, rest)) by {
                assert forall|i: int, j: int| 0 <= i < j < rest.len() implies acts_before(m, #[trigger] rest[i], #[trigger] rest[j]) by {
                    assert(rest[i] == o[i + 1] && rest[j] == o[j + 1]);
                }
            }
            assert(!rest.contains(x)) by {
                if rest.contains(x) {
                    let k = choose|k: int| 0 <= k < rest.len() && rest[k] == x;
                    assert(o[k + 1] == x);
                }
            }
            lemma_slot_for(m, rest, x);
            let s = slot_for(m, rest, x);
            assert forall|k: int| 0 <= k < s + 1 implies acts_before(m, #[trigger] o[k], x) by {
                if k > 0 {
                    assert(o[k] == rest[k - 1]);
                }
            }
            assert forall|k: int| s + 1 <= k < o.len() implies acts_before(m, x, #[trigger] o[k]) by {
                assert(o[k] == rest[k - 1]);
            }
        }
    }
}

proof fn lemma_insert_in_order(m: BattleModel, o: Seq<ActorId>, x: ActorId)
    requires
        in_speed_order(m, o),
        !o.contains(x),
    ensures
        in_speed_order(m, o.insert(slot_for(m, o, x), x)),
        forall|a: ActorId| o.insert(slot_for(m, o, x), x).contains(a) <==> (o.contains(a) || a == x),
        o.insert(slot_for(m, o, x), x).len() == o.len() + 1,
{
    lemma_slot_for(m, o, x);
    let p = slot_for(m, o, x);
    let n = o.insert(p, x);
    assert forall|k: int| 0 <= k < n.len() implies #[trigger] n[k] == (if k < p { o[k] } else if k == p { x } else { o[k - 1] }) by {
    }
    assert forall|i: int, j: int| 0 <= i < j < n.len() implies acts_before(m, #[trigger] n[i], #[trigger] n[j]) by {
        if j < p {
            assert(n[i] == o[i] && n[j] == o[j]);
        } else if j == p {
            assert(n[i] == o[i]);
        } else if i < p {
            assert(n[i] == o[i] && n[j] == o[j - 1]);
            lemma_acts_before_trans(m, o[i], x, o[j - 1]);
        } else if i == p {
            assert(n[j] == o[j - 1]);
        } else {
            assert(n[i] == o[i - 1] && n[j] == o[j - 1]);
        }
    }
    assert forall|a: ActorId| n.contains(a) <==> (o.contains(a) || a == x) by {
        if n.contains(a) {
            let k = choose|k: int| 0 <= k < n.len() && n[k] == a;
            if k < p {
                assert(o[k] == a);
            } else if k > p {
                assert(o[k - 1] == a);
            }
        }
        if o.contains(a) {
            let k = choose|k: int| 0 <= k < o.len() && o[k] == a;
            if k < p {
                assert(n[k] == a);
            } else {
                assert(n[k + 1] == a);
            }
        }
        if a == x {
            assert(n[p] == a);
        }
    }
}

proof fn lemma_order_by_speed(m: BattleModel, c: Seq<ActorId>)
    requires
        c.no_duplicates(),
    ensures
        in_speed_order(m, order_by_speed(m, c)),
        forall|a: ActorId| order_by_speed(m, c).contains(a) <==> c.contains(a),
        order_by_speed(m, c).len() == c.len(),
    decreases c.len(),
{
    if c.len() > 0 {
        let d = c.drop_last();
        assert(d.no_duplicates()) by {
            assert forall|i: int, j: int| 0 <= i < d.len() && 0 <= j < d.len() && i != j implies d[i] != d[j] by {
                assert(d[i] == c[i] && d[j] == c[j]);
            }
        }
        lemma_order_by_speed(m, d);
        let o = order_by_speed(m, d);
        assert(!o.contains(c.last())) by {
            if d.contains(c.last()) {
                let k = choose|k: int| 0 <= k < d.len() && d[k] == c.last();
                assert(c[k] == c[c.len() - 1]);
            }
        }
        lemma_insert_in_order(m, o, c.last());
        assert forall|a: ActorId| order_by_speed(m, c).contains(a) <==> c.contains(a) by {
            if c.contains(a) {
                let k = choose|k: int| 0 <= k < c.len() && c[k] == a;
                if k < c.len() - 1 {
                    assert(d[k] == a);
                    assert(d.contains(a));
                }
            }
            if d.contains(a) {
                let k = choose|k: int| 0 <= k < d.len() && d[k] == a;
                assert(c[k] == a);
            }
        }
    }
}

proof fn lemma_party_candidates(m: BattleModel, n_cmds: int, n: nat)
    requires
        n <= m.party_stats.len(),
        m.party_stats.len() <= usize::MAX,
    ensures
        party_candidates(m, n_cmds, n).no_duplicates(),
        forall|a: ActorId| party_candidates(m, n_cmds, n).contains(a) <==> (a is Party && actor_index(a) < n && turn_candidate(m, n_cmds, a)),
        forall|k: int| 0 <= k < party_candidates(m, n_cmds, n).len() ==> (#[trigger] party_candidates(m, n_cmds, n)[k]) is Party
            && actor_index(party_candidates(m, n_cmds, n)[k]) < n,
    decreases n,
{
    if n > 0 {
        lemma_party_candidates(m, n_cmds, (n - 1) as nat);
        let rest = party_candidates(m, n_cmds, (n - 1) as nat);
        let i = n - 1;
        if m.party_stats[i].hp > 0 && i < n_cmds {
            let c = rest.push(ActorId::Party(i as usize));
            assert(!rest.contains(ActorId::Party(i as usize)));
            assert forall|a: ActorId| c.contains(a) <==> (a is Party && actor_index(a) < n && turn_candidate(m, n_cmds, a)) by {
                if c.contains(a) {
                    let k = choose|k: int| 0 <= k < c.len() && c[k] == a;
                    if k < rest.len() {
                        assert(rest[k] == a);
                        assert(rest.contains(a));
                    }
                }
                if a is Party && actor_index(a) < n && turn_candidate(m, n_cmds, a) {
                    if actor_index(a) < n - 1 {
                        assert(rest.contains(a));
                        let k = choose|k: int| 0 <= k < rest.len() && rest[k] == a;
                        assert(c[k] == a);
                    } else {
                        assert(c[c.len() - 1] == a);
                    }
                }
            }
            assert(c.no_duplicates()) by {
                assert forall|x: int, y: int| 0 <= x < c.len() && 0 <= y < c.len() && x != y implies c[x] != c[y] by {
                    if x == c.len() - 1 {
                        assert(c[y] == rest[y]);
                        assert(actor_index(rest[y]) < n - 1);
                    } else if y == c.len() - 1 {
                        assert(c[x] == rest[x]);
                        assert(actor_index(rest[x]) < n - 1);
                    } else {
                        assert(c[x] == rest[x] && c[y] == rest[y]);
                    }
                }
            }
        }
    }
}

proof fn lemma_enemy_candidates(m: BattleModel, n: nat)
    requires
        n <= m.enemy_stats.len(),
        m.enemy_stats.len() <= usize::MAX,
    ensures
        enemy_candidates(m, n).no_duplicates(),
        forall|a: ActorId| enemy_candidates(m, n).contains(a) <==> (a is Enemy && actor_index(a) < n && turn_candidate(m, 0, a)),
        forall|k: int| 0 <= k < enemy_candidates(m, n).len() ==> (#[trigger] enemy_candidates(m, n)[k]) is Enemy
            && actor_index(enemy_candidates(m, n)[k]) < n,
    decreases n,
{
    if n > 0 {
        lemma_enemy_candidates(m, (n - 1) as nat);
        let rest = enemy_candidates(m, (n - 1) as nat);
        let i = n - 1;
        if m.enemy_stats[i].hp > 0 {
            let c = rest.push(ActorId::Enemy(i as usize));
            assert(!rest.contains(ActorId::Enemy(i as usize)));
            assert forall|a: ActorId| c.contains(a) <==> (a is Enemy && actor_index(a) < n && turn_candidate(m, 0, a)) by {
                if c.contains(a) {
                    let k = choose|k: int| 0 <= k < c.len() && c[k] == a;
                    if k < rest.len() {
                        assert(rest[k] == a);
                        assert(rest.contains(a));
                    }
                }
                if a is Enemy && actor_index(a) < n && turn_candidate(m, 0, a) {
                    if actor_index(a) < n - 1 {
                        assert(rest.contains(a));
                        let k = choose|k: int| 0 <= k < rest.len() && rest[k] == a;
                        assert(c[k] == a);
                    } else {
                        assert(c[c.len() - 1] == a);
                    }
                }
            }
            assert(c.no_duplicates()) by {
                assert forall|x: int, y: int| 0 <= x < c.len() && 0 <= y < c.len() && x != y implies c[x] != c[y] by {
                    if x == c.len() - 1 {
                        assert(c[y] == rest[y]);
                        assert(actor_index(rest[y]) < n - 1);
                    } else if y == c.len() - 1 {
                        assert(c[x] == rest[x]);
                        assert(actor_index(rest[x]) < n - 1);
                    } else {
                        assert(c[x] == rest[x] && c[y] == rest[y]);
                    }
                }
            }
        }
    }
}

/// The order of action lists every actor of the turn exactly once, the
/// faster before the slower, the party before enemies of equal speed, and
/// within a side in index order.
pub proof fn lemma_action_order(m: BattleModel, n_cmds: int)
    requires
        m.party_stats.len() <= usize::MAX,
        m.enemy_stats.len() <= usize::MAX,
    ensures
        in_speed_order(m, action_order_spec(m, n_cmds)),
        forall|a: ActorId| action_order_spec(m, n_cmds).contains(a) <==> turn_candidate(m, n_cmds, a),
        action_order_spec(m, n_cmds).no_duplicates(),
{
    let pc = party_candidates(m, n_cmds, m.party_stats.len());
    let ec = enemy_candidates(m, m.enemy_stats.len());
    lemma_party_candidates(m, n_cmds, m.party_stats.len());
    lemma_enemy_candidates(m, m.enemy_stats.len());
    let c = pc + ec;
    assert(c.no_duplicates()) by {
        assert forall|x: int, y: int| 0 <= x < c.len() && 0 <= y < c.len() && x != y implies c[x] != c[y] by {
            if x < pc.len() && y < pc.len() {
                assert(c[x] == pc[x] && c[y] == pc[y]);
            } else if x >= pc.len() && y >= pc.len() {
                assert(c[x] == ec[x - pc.len()] && c[y] == ec[y - pc.len()]);
            } else if x < pc.len() {
                assert(c[x] == pc[x] && c[y] == ec[y - pc.len()]);
            } else {
                assert(c[y] == pc[y] && c[x] == ec[x - pc.len()]);
            }
        }
    }
    assert forall|a: ActorId| c.contains(a) <==> turn_candidate(m, n_cmds, a) by {
        if c.contains(a) {
            let k = choose|k: int| 0 <= k < c.len() && c[k] == a;
            if k < pc.len() {
                assert(pc[k] == a);
                assert(pc.contains(a));
                assert(a is Party && turn_candidate(m, n_cmds, a));
            } else {
                assert(ec[k - pc.len()] == a);
                assert(ec.contains(a));
                assert(a is Enemy && turn_candidate(m, 0, a));
                match a {
                    ActorId::Enemy(i) => {},
                    ActorId::Party(i) => {},
                }
            }
        }
        if turn_candidate(m, n_cmds, a) {
            match a {
                ActorId::Party(i) => {
                    assert(pc.contains(a));
                    let k = choose|k: int| 0 <= k < pc.len() && pc[k] == a;
                    assert(c[k] == a);
                },
                ActorId::Enemy(i) => {
                    assert(turn_candidate(m, 0, a));
                    assert(ec.contains(a));
                    let k = choose|k: int| 0 <= k < ec.len() && ec[k] == a;
                    assert(c[k + pc.len()] == a);
                },
            }
        }
    }
    lemma_order_by_speed(m, c);
    assert(turn_candidates(m, n_cmds) == c);
    let o = action_order_spec(m, n_cmds);
    assert(o == order_by_speed(m, c));
    assert forall|a: ActorId| o.contains(a) <==> turn_candidate(m, n_cmds, a) by {
        assert(order_by_speed(m, c).contains(a) <==> c.contains(a));
    }
    assert forall|x: int, y: int| 0 <= x < o.len() && 0 <= y < o.len() && x != y implies o[x] != o[y] by {
        if x < y {
            assert(acts_before(m, o[x], o[y]));
        } else {
            assert(acts_before(m, o[y], o[x]));
        }
        lemma_acts_before_irreflexive(m, o[x]);
    }
}

// ---- moves ----

/// What a party member's command does.
pub open spec fn party_move_spec(m: BattleModel, pi: usize, cmd: BattleAction, random: u32) -> (BattleModel, Seq<TurnResult>) {
    match cmd {
        BattleAction::Attack { target } => match retarget_enemy_spec(m, target) {
            Some(TargetId::Enemy(ei)) => party_attack_spec(m, pi, ei, random),
            _ => (m, Seq::empty()),
        },
        BattleAction::Spell { spell, target } => party_spell_spec(m, pi, spell, target, random),
        BattleAction::UseItem { item, target } => item_use_spec(m, pi, item, target, random),
        BattleAction::Flee => (m, Seq::empty()),
    }
}

/// One actor's move: the fallen do nothing, sleepers only sleep.
pub open spec fn actor_step(m: BattleModel, cmds: Seq<BattleAction>, a: ActorId, random: u32, spell_randoms: Seq<u32>) -> (BattleModel, Seq<TurnResult>) {
    match a {
        ActorId::Party(pi) => if m.party_stats[pi as int].hp <= 0 {
            (m, Seq::empty())
        } else if m.party_ailments[pi as int].sleep {
            (m, seq![TurnResult::Sleeping { actor: a }])
        } else if (pi as int) < cmds.len() {
            party_move_spec(m, pi, cmds[pi as int], random)
        } else {
            (m, Seq::empty())
        },
        ActorId::Enemy(ei) => if m.enemy_stats[ei as int].hp <= 0 {
            (m, Seq::empty())
        } else if m.enemy_ailments[ei as int].sleep {
            (m, seq![TurnResult::Sleeping { actor: a }])
        } else {
            enemy_action_spec(m, ei, random, random_at(spell_randoms, ei as int))
        },
    }
}

/// The actors move one after another; the k-th gets the k-th damage factor.
pub open spec fn actors_fold(m: BattleModel, cmds: Seq<BattleAction>, order: Seq<ActorId>, dmg: Seq<u32>, sr: Seq<u32>) -> (BattleModel, Seq<TurnResult>)
    decreases order.len(),
{
    if order.len() == 0 {
        (m, Seq::empty())
    } else {
        let (m1, r1) = actors_fold(m, cmds, order.drop_last(), dmg, sr);
        let (m2, r2) = actor_step(m1, cmds, order.last(), random_at(dmg, order.len() - 1), sr);
        (m2, r1 + r2)
    }
}

/// After a failed escape the listed enemies move in turn.
pub open spec fn flee_fold(m: BattleModel, eis: Seq<usize>, dmg: Seq<u32>, sr: Seq<u32>) -> (BattleModel, Seq<TurnResult>)
    decreases eis.len(),
{
    if eis.len() == 0 {
        (m, Seq::empty())
    } else {
        let (m1, r1) = flee_fold(m, eis.drop_last(), dmg, sr);
        let ei = eis.last();
        let (m2, r2) = enemy_action_spec(m1, ei, random_at(dmg, eis.len() - 1), random_at(sr, ei as int));
        (m2, r1 + r2)
    }
}

// ---- end of turn ----

/// A buff runs out on this tick.
pub open spec fn buff_expires(b: Option<BuffState>) -> bool {
    b matches Some(x) && x.remaining_turns <= 1
}

/// A buff after one tick.
pub open spec fn buff_after_tick(b: Option<BuffState>) -> Option<BuffState> {
    match b {
        Some(x) => if x.remaining_turns <= 1 {
            None
        } else {
            Some(BuffState { remaining_turns: (x.remaining_turns - 1) as u32, ..x })
        },
        None => None,
    }
}

/// A member's buffs after one tick.
pub open spec fn buffs_after_tick(b: ActorBuffs) -> ActorBuffs {
    ActorBuffs { attack_up: buff_after_tick(b.attack_up), defense_up: buff_after_tick(b.defense_up) }
}

/// The expiry events of one member.
pub open spec fn expiry_events(pi: usize, b: ActorBuffs) -> Seq<TurnResult> {
    let t = TargetId::Party(pi);
    (if buff_expires(b.attack_up) {
        seq![TurnResult::BuffExpired { target: t, stat: BuffStat::Attack }]
    } else {
        Seq::empty()
    }) + (if buff_expires(b.defense_up) {
        seq![TurnResult::BuffExpired { target: t, stat: BuffStat::Defense }]
    } else {
        Seq::empty()
    })
}

/// The expiry events of the members in order.
pub open spec fn tick_events(bs: Seq<ActorBuffs>) -> Seq<TurnResult>
    decreases bs.len(),
{
    if bs.len() == 0 {
        Seq::empty()
    } else {
        tick_events(bs.drop_last()) + expiry_events((bs.len() - 1) as usize, bs.last())
    }
}

/// The buffs with the first `i` members ticked.
pub open spec fn ticked_prefix(bs: Seq<ActorBuffs>, i: int) -> Seq<ActorBuffs> {
    Seq::new(bs.len(), |j: int| if j < i { buffs_after_tick(bs[j]) } else { bs[j] })
}

/// Every buff runs down by one turn; those that run out are removed.
pub open spec fn tick_buffs_spec(m: BattleModel) -> (BattleModel, Seq<TurnResult>) {
    (
        BattleModel { party_buffs: ticked_prefix(m.party_buffs, m.party_buffs.len() as int), ..m },
        tick_events(m.party_buffs),
    )
}

/// The statistics after the poison of the turn's end.
pub open spec fn poisoned(s: CombatStats, a: ActorAilments) -> CombatStats {
    if s.hp > 0 && a.poison {
        damaged(s, POISON_DAMAGE as int)
    } else {
        s
    }
}

/// The poison event of one actor.
pub open spec fn poison_event(s: CombatStats, a: ActorAilments, t: TargetId) -> Seq<TurnResult> {
    if s.hp > 0 && a.poison {
        with_fall(TurnResult::PoisonDamage { target: t, damage: POISON_DAMAGE }, t, damaged(s, POISON_DAMAGE as int))
    } else {
        Seq::empty()
    }
}

/// The target an index names on a side.
pub open spec fn side_target(party: bool, i: usize) -> TargetId {
    if party {
        TargetId::Party(i)
    } else {
        TargetId::Enemy(i)
    }
}

/// The poison events of one side, in index order.
pub open spec fn poison_events(s: Seq<CombatStats>, a: Seq<ActorAilments>, party: bool) -> Seq<TurnResult>
    decreases s.len(),
{
    if s.len() == 0 {
        Seq::empty()
    } else {
        let i = s.len() - 1;
        poison_events(s.drop_last(), a, party) + poison_event(s.last(), a[i], side_target(party, i as usize))
    }
}

/// The statistics of a side with the first `i` poisoned.
pub open spec fn poisoned_prefix(s: Seq<CombatStats>, a: Seq<ActorAilments>, i: int) -> Seq<CombatStats> {
    Seq::new(s.len(), |j: int| if j < i { poisoned(s[j], a[j]) } else { s[j] })
}

/// Poison bites every living poisoned actor: the party first, then the enemies.
pub open spec fn tick_poison_spec(m: BattleModel) -> (BattleModel, Seq<TurnResult>) {
    (
        BattleModel {
            party_stats: poisoned_prefix(m.party_stats, m.party_ailments, m.party_stats.len() as int),
            enemy_stats: poisoned_prefix(m.enemy_stats, m.enemy_ailments, m.enemy_stats.len() as int),
            ..m
        },
        poison_events(m.party_stats, m.party_ailments, true) + poison_events(m.enemy_stats, m.enemy_ailments, false),
    )
}

/// A whole turn. When someone flees, the roll decides: below the chance the
/// party gets away and nothing else happens; otherwise every living enemy
/// moves and the turn ends there. Without fleeing, the actors move in order
/// of action, then buffs run down and poison bites.
pub open spec fn turn_spec(m: BattleModel, cmds: Seq<BattleAction>, dmg: Seq<u32>, flee: u32, sr: Seq<u32>) -> (BattleModel, Seq<TurnResult>) {
    if has_flee(cmds) {
        if flee < FLEE_CHANCE {
            (m, seq![TurnResult::Fled])
        } else {
            let (m1, r1) = flee_fold(m, alive_list(m.enemy_stats), dmg, sr);
            (m1, seq![TurnResult::FleeFailed] + r1)
        }
    } else {
        let (m1, r1) = actors_fold(m, cmds, action_order_spec(m, cmds.len() as int), dmg, sr);
        let (m2, r2) = tick_buffs_spec(m1);
        let (m3, r3) = tick_poison_spec(m2);
        (m3, r1 + r2 + r3)
    }
}

/// A party member about to move, alive and awake and with a command, has
/// a command naming existing actors; enemies need nothing.
pub open spec fn move_ok(m: BattleModel, cmds: Seq<BattleAction>, a: ActorId, np: int, ne: int) -> bool {
    match a {
        ActorId::Party(pi) => pi < np && pi < cmds.len() && m.party_stats[pi as int].hp > 0 && !m.party_ailments[pi as int].sleep
            ==> command_ok(cmds[pi as int], np, ne),
        ActorId::Enemy(_) => true,
    }
}

/// Every command that the turn carries out names existing actors: when no
/// one flees, each party member that gets to move, at the moment it moves,
/// has a well-aimed command. Commands of members that never move are not
/// looked at.
pub open spec fn turn_commands_ok(m: BattleModel, cmds: Seq<BattleAction>, dmg: Seq<u32>, sr: Seq<u32>) -> bool {
    let order = action_order_spec(m, cmds.len() as int);
    !has_flee(cmds) ==> forall|k: int| 0 <= k < order.len() ==> #[trigger] move_ok_at(m, cmds, order, dmg, sr, k)
}

/// The `k`-th actor of `order` moves well aimed, in the battle as the
/// actors before it left it.
pub open spec fn move_ok_at(m: BattleModel, cmds: Seq<BattleAction>, order: Seq<ActorId>, dmg: Seq<u32>, sr: Seq<u32>, k: int) -> bool {
    move_ok(actors_fold(m, cmds, order.take(k), dmg, sr).0, cmds, order[k], m.party_stats.len() as int, m.enemy_stats.len() as int)
}

/// Commands that all name existing actors are fine for any turn.
pub proof fn lemma_aimed_commands_suffice(m: BattleModel, cmds: Seq<BattleAction>, dmg: Seq<u32>, sr: Seq<u32>)
    requires
        commands_ok(cmds, m.party_stats.len() as int, m.enemy_stats.len() as int),
    ensures
        turn_commands_ok(m, cmds, dmg, sr),
{
}

/// When someone flees and the roll is below the chance, the party gets
/// away: nothing changes and the escape is all the turn reports.
pub proof fn lemma_flee_success(m: BattleModel, cmds: Seq<BattleAction>, dmg: Seq<u32>, flee: u32, sr: Seq<u32>)
    requires
        has_flee(cmds),
        flee < FLEE_CHANCE,
    ensures
        turn_spec(m, cmds, dmg, flee, sr) == (m, seq![TurnResult::Fled]),
{
}

/// After a failed escape no party member moves and no buff or poison
/// ticks: the report starts with the failure and the rest are the enemies'
/// moves.
pub proof fn lemma_flee_failure(m: BattleModel, cmds: Seq<BattleAction>, dmg: Seq<u32>, flee: u32, sr: Seq<u32>)
    requires
        has_flee(cmds),
        flee >= FLEE_CHANCE,
    ensures
        turn_spec(m, cmds, dmg, flee, sr).1[0] == TurnResult::FleeFailed,
        turn_spec(m, cmds, dmg, flee, sr) == ({
            let (m1, r1) = flee_fold(m, alive_list(m.enemy_stats), dmg, sr);
            (m1, seq![TurnResult::FleeFailed] + r1)
        }),
{
}

/// The fallen do nothing on their move, and sleepers only report that they
/// sleep.
pub proof fn lemma_fallen_and_sleepers(m: BattleModel, cmds: Seq<BattleAction>, a: ActorId, random: u32, sr: Seq<u32>)
    ensures
        (match a {
            ActorId::Party(i) => m.party_stats[i as int].hp <= 0,
            ActorId::Enemy(i) => m.enemy_stats[i as int].hp <= 0,
        }) ==> actor_step(m, cmds, a, random, sr) == (m, Seq::<TurnResult>::empty()),
        (match a {
            ActorId::Party(i) => m.party_stats[i as int].hp > 0 && m.party_ailments[i as int].sleep,
            ActorId::Enemy(i) => m.enemy_stats[i as int].hp > 0 && m.enemy_ailments[i as int].sleep,
        }) ==> actor_step(m, cmds, a, random, sr) == (m, seq![TurnResult::Sleeping { actor: a }]),
{
}

/// A buff after `n` ticks.
pub open spec fn buff_after_ticks(b: Option<BuffState>, n: nat) -> Option<BuffState>
    decreases n,
{
    if n == 0 {
        b
    } else {
        buff_after_tick(buff_after_ticks(b, (n - 1) as nat))
    }
}

/// A buff runs out at the tick of its last turn: with `r` turns left it is
/// still there, `k` turns fewer, after `k < r` ticks, and gone after `r`.
pub proof fn lemma_buff_duration(b: BuffState, k: nat)
    requires
        b.remaining_turns >= 1,
    ensures
        k < b.remaining_turns ==> buff_after_ticks(Some(b), k) == Some(BuffState { remaining_turns: (b.remaining_turns - k) as u32, ..b }),
        buff_after_ticks(Some(b), b.remaining_turns as nat) is None,
    decreases k,
{
    if k > 0 {
        lemma_buff_duration(b, (k - 1) as nat);
    }
    lemma_buff_runs_out(b, b.remaining_turns as nat);
}

proof fn lemma_buff_runs_out(b: BuffState, k: nat)
    requires
        b.remaining_turns >= 1,
        k <= b.remaining_turns,
    ensures
        k < b.remaining_turns ==> buff_after_ticks(Some(b), k) == Some(BuffState { remaining_turns: (b.remaining_turns - k) as u32, ..b }),
        k == b.remaining_turns ==> buff_after_ticks(Some(b), k) is None,
    decreases k,
{
    if k > 0 {
        lemma_buff_runs_out(b, (k - 1) as nat);
    }
}

/// Experience for the defeated among the enemies.
pub open spec fn defeated_exp(es: Seq<Enemy>) -> int
    decreases es.len(),
{
    if es.len() == 0 {
        0
    } else {
        let e = es.last();
        defeated_exp(es.drop_last()) + if e.stats.hp <= 0 { tier_exp(base_exp_spec(e.kind), e.tier) } else { 0 }
    }
}

proof fn lemma_defeated_exp_prefix(es: Seq<Enemy>, i: int)
    requires
        0 <= i <= es.len(),
    ensures
        0 <= defeated_exp(es.take(i)) <= defeated_exp(es),
    decreases es.len(),
{
    if i == es.len() {
        assert(es.take(i) =~= es);
        if es.len() > 0 {
            lemma_defeated_exp_prefix(es.drop_last(), i - 1);
        }
    } else {
        lemma_defeated_exp_prefix(es.drop_last(), i);
        assert(es.drop_last().take(i) =~= es.take(i));
        assert(es.drop_last().take(es.len() - 1) =~= es.drop_last());
        lemma_defeated_exp_prefix(es.drop_last(), es.len() - 1);
    }
}

/// The damage factor at a position, or one when there is none.
pub fn random_or_default(v: &Vec<u32>, i: usize) -> (r: u32)
    ensures
        r == random_at(v@, i as int),
{
    if i < v.len() {
        v[i]
    } else {
        RANDOM_SCALE
    }
}

impl BattleState {
    /// Whether `a` acts before `b`.
    fn acts_before_exec(&self, a: ActorId, b: ActorId) -> (r: bool)
        requires
            actor_ok(a, self.party@.len() as int, self.enemies@.len() as int),
            actor_ok(b, self.party@.len() as int, self.enemies@.len() as int),
        ensures
            r == acts_before(self.model(), a, b),
    {
        let sa = match a {
            ActorId::Party(i) => self.party[i].stats.speed,
            ActorId::Enemy(i) => self.enemies[i].stats.speed,
        };
        let sb = match b {
            ActorId::Party(i) => self.party[i].stats.speed,
            ActorId::Enemy(i) => self.enemies[i].stats.speed,
        };
        if sa != sb {
            return sa > sb;
        }
        match (a, b) {
            (ActorId::Party(i), ActorId::Party(j)) => i < j,
            (ActorId::Enemy(i), ActorId::Enemy(j)) => i < j,
            (ActorId::Party(_), ActorId::Enemy(_)) => true,
            (ActorId::Enemy(_), ActorId::Party(_)) => false,
        }
    }

    /// Puts an actor into an ordered list at its slot.
    fn insert_by_speed(&self, order: &mut Vec<ActorId>, x: ActorId)
        requires
            actor_ok(x, self.party@.len() as int, self.enemies@.len() as int),
            forall|k: int| 0 <= k < old(order)@.len() ==> actor_ok(#[trigger] old(order)@[k], self.party@.len() as int, self.enemies@.len() as int),
        ensures
            final(order)@ == old(order)@.insert(slot_for(self.model(), old(order)@, x), x),
            forall|k: int| 0 <= k < final(order)@.len() ==> actor_ok(#[trigger] final(order)@[k], self.party@.len() as int, self.enemies@.len() as int),
    {
        let ghost m = self.model();
        let ghost o = order@;
        let mut k: usize = 0;
        proof { assert(o.skip(0) =~= o); }
        while k < order.len()
            invariant
                order@ == o,
                k <= o.len(),
                slot_for(m, o, x) == k + slot_for(m, o.skip(k as int), x),
                m == self.model(),
                actor_ok(x, self.party@.len() as int, self.enemies@.len() as int),
                forall|j: int| 0 <= j < o.len() ==> actor_ok(#[trigger] o[j], self.party@.len() as int, self.enemies@.len() as int),
            ensures
                k <= o.len(),
                slot_for(m, o, x) == k + slot_for(m, o.skip(k as int), x),
                k < o.len() ==> acts_before(m, x, o[k as int]),
            decreases o.len() - k,
        {
            proof {
                assert(o.skip(k as int)[0] == o[k as int]);
                assert(o.skip(k as int).drop_first() =~= o.skip(k + 1));
            }
            if self.acts_before_exec(x, order[k]) {
                break;
            }
            k = k + 1;
        }
        proof {
            if k == o.len() {
                assert(o.skip(k as int).len() == 0);
            } else {
                assert(o.skip(k as int)[0] == o[k as int]);
            }
            assert(slot_for(m, o, x) == k);
        }
        order.insert(k, x);
        proof {
            assert forall|j: int| 0 <= j < order@.len() implies actor_ok(#[trigger] order@[j], self.party@.len() as int, self.enemies@.len() as int) by {
                if j < k {
                    assert(order@[j] == o[j]);
                } else if j > k {
                    assert(order@[j] == o[j - 1]);
                }
            }
        }
    }

    /// The order of action: living party members with a command and living
    /// enemies, fastest first, the party first at equal speed.
    pub fn build_action_order(&self, party_commands: &[BattleAction]) -> (r: Vec<ActorId>)
        ensures
            r@ == action_order_spec(self.model(), party_commands@.len() as int),
            forall|k: int| 0 <= k < r@.len() ==> actor_ok(#[trigger] r@[k], self.party@.len() as int, self.enemies@.len() as int),
    {
        let ghost m = self.model();
        let n_cmds = party_commands.len();
        let mut order: Vec<ActorId> = Vec::new();
        let mut i: usize = 0;
        while i < self.party.len()
            invariant
                i <= self.party@.len(),
                m == self.model(),
                n_cmds == party_commands@.len(),
                order@ == order_by_speed(m, party_candidates(m, n_cmds as int, i as nat)),
                forall|k: int| 0 <= k < order@.len() ==> actor_ok(#[trigger] order@[k], self.party@.len() as int, self.enemies@.len() as int),
            decreases self.party@.len() - i,
        {
            let ghost c = party_candidates(m, n_cmds as int, i as nat);
            proof { assert(m.party_stats[i as int] == self.party@[i as int].stats); }
            if self.party[i].stats.hp > 0 && i < n_cmds {
                proof {
                    assert(c.push(ActorId::Party(i)).drop_last() =~= c);
                }
                self.insert_by_speed(&mut order, ActorId::Party(i));
            }
            i = i + 1;
        }
        let ghost pc = party_candidates(m, n_cmds as int, self.party@.len() as nat);
        proof { assert(pc + enemy_candidates(m, 0) =~= pc); }
        let mut j: usize = 0;
        while j < self.enemies.len()
            invariant
                j <= self.enemies@.len(),
                m == self.model(),
                n_cmds == party_commands@.len(),
                pc == party_candidates(m, n_cmds as int, self.party@.len() as nat),
                order@ == order_by_speed(m, pc + enemy_candidates(m, j as nat)),
                forall|k: int| 0 <= k < order@.len() ==> actor_ok(#[trigger] order@[k], self.party@.len() as int, self.enemies@.len() as int),
            decreases self.enemies@.len() - j,
        {
            let ghost c = pc + enemy_candidates(m, j as nat);
            proof { assert(m.enemy_stats[j as int] == self.enemies@[j as int].stats); }
            if self.enemies[j].stats.hp > 0 {
                proof {
                    assert(pc + enemy_candidates(m, (j + 1) as nat) =~= c.push(ActorId::Enemy(j)));
                    assert(c.push(ActorId::Enemy(j)).drop_last() =~= c);
                }
                self.insert_by_speed(&mut order, ActorId::Enemy(j));
            } else {
                proof { assert(pc + enemy_candidates(m, (j + 1) as nat) =~= c); }
            }
            j = j + 1;
        }
        proof {
            assert(m.party_stats.len() == self.party@.len());
            assert(m.enemy_stats.len() == self.enemies@.len());
        }
        order
    }

    /// Buffs run down by one turn; those that run out are removed.
    fn tick_buffs(&mut self) -> (r: Vec<TurnResult>)
        requires
            old(self).well_formed(),
        ensures
            (final(self).model(), r@) == tick_buffs_spec(old(self).model()),
            final(self).well_formed(),
            final(self).same_cast(*old(self)),
            final(self).turn_log@ == old(self).turn_log@,
            final(self).party_buffs@.len() == old(self).party_buffs@.len(),
            forall|i: int| 0 <= i < old(self).party_buffs@.len() ==>
                #[trigger] final(self).party_buffs@[i] == buffs_after_tick(old(self).party_buffs@[i]),
            r@ == tick_events(old(self).party_buffs@),
            final(self).party@ == old(self).party@,
            final(self).enemies@ == old(self).enemies@,
            final(self).party_ailments@ == old(self).party_ailments@,
            final(self).enemy_ailments@ == old(self).enemy_ailments@,
    {
        let ghost m = self.model();
        let ghost bs = m.party_buffs;
        let mut out: Vec<TurnResult> = Vec::new();
        let mut i: usize = 0;
        proof {
            assert(ticked_prefix(bs, 0) =~= bs);
            assert(bs.take(0) =~= Seq::<ActorBuffs>::empty());
        }
        while i < self.party_buffs.len()
            invariant
                i <= bs.len(),
                bs.len() == self.party_buffs@.len(),
                self.model() == (BattleModel { party_buffs: ticked_prefix(bs, i as int), ..m }),
                out@ == tick_events(bs.take(i as int)),
                model_ok(m),
                self.same_cast(*old(self)),
                self.turn_log@ == old(self).turn_log@,
                self.party@ == old(self).party@,
                self.enemies@ == old(self).enemies@,
                self.party_ailments@ == old(self).party_ailments@,
                self.enemy_ailments@ == old(self).enemy_ailments@,
                bs == old(self).party_buffs@,
                self.party_buffs@ == ticked_prefix(bs, i as int),
            decreases bs.len() - i,
        {
            let b = self.party_buffs[i];
            proof { assert(b == bs[i as int]); }
            let mut nb = b;
            let mut ev: Vec<TurnResult> = Vec::new();
            match b.attack_up {
                Some(x) => {
                    if x.remaining_turns <= 1 {
                        nb.attack_up = None;
                        ev.push(TurnResult::BuffExpired { target: TargetId::Party(i), stat: BuffStat::Attack });
                    } else {
                        nb.attack_up = Some(BuffState { remaining_turns: x.remaining_turns - 1, ..x });
                    }
                },
                None => {},
            }
            match b.defense_up {
                Some(x) => {
                    if x.remaining_turns <= 1 {
                        nb.defense_up = None;
                        ev.push(TurnResult::BuffExpired { target: TargetId::Party(i), stat: BuffStat::Defense });
                    } else {
                        nb.defense_up = Some(BuffState { remaining_turns: x.remaining_turns - 1, ..x });
                    }
                },
                None => {},
            }
            self.set_party_buffs(i, nb);
            out.append(&mut ev);
            proof {
                assert(nb == buffs_after_tick(bs[i as int]));
                assert(ticked_prefix(bs, i as int).update(i as int, nb) =~= ticked_prefix(bs, i + 1));
                assert(bs.take(i + 1).drop_last() =~= bs.take(i as int));
                assert(bs.take(i + 1).last() == bs[i as int]);
                assert(out@ =~= tick_events(bs.take(i + 1)));
            }
            i = i + 1;
        }
        proof {
            assert(bs.take(bs.len() as int) =~= bs);
            let m2 = self.model();
            assert forall|j: int| 0 <= j < m2.party_buffs.len() implies buff_ok((#[trigger] m2.party_buffs[j]).attack_up)
                && buff_ok(m2.party_buffs[j].defense_up) by {
                assert(buff_ok(bs[j].attack_up) && buff_ok(bs[j].defense_up));
            }
        }
        out
    }

    /// Poison bites the living poisoned: the party first, then the enemies.
    fn tick_poison(&mut self) -> (r: Vec<TurnResult>)
        requires
            old(self).well_formed(),
        ensures
            (final(self).model(), r@) == tick_poison_spec(old(self).model()),
            final(self).well_formed(),
            final(self).same_cast(*old(self)),
            final(self).turn_log@ == old(self).turn_log@,
    {
        let ghost m = self.model();
        let ghost ps = m.party_stats;
        let ghost es = m.enemy_stats;
        let mut out: Vec<TurnResult> = Vec::new();
        let mut i: usize = 0;
        proof {
            assert(poisoned_prefix(ps, m.party_ailments, 0) =~= ps);
            assert(ps.take(0) =~= Seq::<CombatStats>::empty());
        }
        while i < self.party.len()
            invariant
                i <= ps.len(),
                ps.len() == self.party@.len(),
                self.model() == (BattleModel { party_stats: poisoned_prefix(ps, m.party_ailments, i as int), ..m }),
                out@ == poison_events(ps.take(i as int), m.party_ailments, true),
                model_ok(self.model()),
                self.same_cast(*old(self)),
                self.turn_log@ == old(self).turn_log@,
            decreases ps.len() - i,
        {
            let ghost before = self.model();
            proof {
                assert(self.model().party_stats[i as int] == self.party@[i as int].stats);
                assert(poisoned_prefix(ps, m.party_ailments, i as int)[i as int] == ps[i as int]);
                assert(self.party@[i as int].stats == ps[i as int]);
                assert(self.party_ailments@[i as int] == m.party_ailments[i as int]);
                assert(stats_ok(ps[i as int])) by {
                    assert(stats_ok(before.party_stats[i as int]));
                }
            }
            let mut ev: Vec<TurnResult> = Vec::new();
            if self.party[i].stats.hp > 0 && self.party_ailments[i].poison {
                let mut st = self.party[i].stats;
                st.take_damage(POISON_DAMAGE);
                proof { lemma_damaged_ok(ps[i as int], POISON_DAMAGE as int); }
                self.set_party_stats(i, st);
                proof { lemma_party_stats_ok(before, i as int, st); }
                ev.push(TurnResult::PoisonDamage { target: TargetId::Party(i), damage: POISON_DAMAGE });
                if st.hp <= 0 {
                    ev.push(TurnResult::Defeated { target: TargetId::Party(i) });
                }
            }
            out.append(&mut ev);
            proof {
                assert(poisoned_prefix(ps, m.party_ailments, i as int).update(i as int, poisoned(ps[i as int], m.party_ailments[i as int]))
                    =~= poisoned_prefix(ps, m.party_ailments, i + 1));
                assert(poisoned_prefix(ps, m.party_ailments, i as int)[i as int] == ps[i as int]);
                assert(poisoned_prefix(ps, m.party_ailments, i as int) =~= poisoned_prefix(ps, m.party_ailments, i + 1)
                    || poisoned(ps[i as int], m.party_ailments[i as int]) != ps[i as int]);
                assert(ps.take(i + 1).drop_last() =~= ps.take(i as int));
                assert(ps.take(i + 1).last() == ps[i as int]);
                assert(out@ =~= poison_events(ps.take(i + 1), m.party_ailments, true));
            }
            i = i + 1;
        }
        let ghost mp = self.model();
        proof {
            assert(ps.take(ps.len() as int) =~= ps);
            assert(poisoned_prefix(es, m.enemy_ailments, 0) =~= es);
            assert(es.take(0) =~= Seq::<CombatStats>::empty());
        }
        let ghost out_party = out@;
        let mut j: usize = 0;
        while j < self.enemies.len()
            invariant
                j <= es.len(),
                es.len() == self.enemies@.len(),
                mp == (BattleModel { party_stats: poisoned_prefix(ps, m.party_ailments, ps.len() as int), ..m }),
                self.model() == (BattleModel { enemy_stats: poisoned_prefix(es, m.enemy_ailments, j as int), ..mp }),
                out@ == out_party + poison_events(es.take(j as int), m.enemy_ailments, false),
                model_ok(self.model()),
                self.same_cast(*old(self)),
                self.turn_log@ == old(self).turn_log@,
            decreases es.len() - j,
        {
            let ghost before = self.model();
            proof {
                assert(self.model().enemy_stats[j as int] == self.enemies@[j as int].stats);
                assert(poisoned_prefix(es, m.enemy_ailments, j as int)[j as int] == es[j as int]);
                assert(self.enemies@[j as int].stats == es[j as int]);
                assert(self.enemy_ailments@[j as int] == m.enemy_ailments[j as int]);
                assert(stats_ok(es[j as int])) by {
                    assert(stats_ok(before.enemy_stats[j as int]));
                }
            }
            let mut ev: Vec<TurnResult> = Vec::new();
            if self.enemies[j].stats.hp > 0 && self.enemy_ailments[j].poison {
                let mut st = self.enemies[j].stats;
                st.take_damage(POISON_DAMAGE);
                proof { lemma_damaged_ok(es[j as int], POISON_DAMAGE as int); }
                self.set_enemy_stats(j, st);
                proof { lemma_enemy_stats_ok(before, j as int, st); }
                ev.push(TurnResult::PoisonDamage { target: TargetId::Enemy(j), damage: POISON_DAMAGE });
                if st.hp <= 0 {
                    ev.push(TurnResult::Defeated { target: TargetId::Enemy(j) });
                }
            }
            let ghost evs = ev@;
            out.append(&mut ev);
            proof {
                assert(poisoned_prefix(es, m.enemy_ailments, j as int).update(j as int, poisoned(es[j as int], m.enemy_ailments[j as int]))
                    =~= poisoned_prefix(es, m.enemy_ailments, j + 1));
                assert(poisoned_prefix(es, m.enemy_ailments, j as int)[j as int] == es[j as int]);
                assert(poisoned_prefix(es, m.enemy_ailments, j as int) =~= poisoned_prefix(es, m.enemy_ailments, j + 1)
                    || poisoned(es[j as int], m.enemy_ailments[j as int]) != es[j as int]);
                assert(es.take(j + 1).drop_last() =~= es.take(j as int));
                assert(es.take(j + 1).last() == es[j as int]);
                assert(evs =~= poison_event(es[j as int], m.enemy_ailments[j as int], TargetId::Enemy(j)));
                assert(poison_events(es.take(j + 1), m.enemy_ailments, false)
                    =~= poison_events(es.take(j as int), m.enemy_ailments, false) + evs);
                assert(out@ =~= out_party + poison_events(es.take(j + 1), m.enemy_ailments, false));
            }
            j = j + 1;
        }
        proof {
            assert(es.take(es.len() as int) =~= es);
        }
        out
    }

    /// Appends a turn's events to the battle log.
    fn log_results(&mut self, results: &Vec<TurnResult>)
        ensures
            final(self).turn_log@ == old(self).turn_log@ + results@,
            final(self).party@ == old(self).party@,
            final(self).enemies@ == old(self).enemies@,
            final(self).party_buffs@ == old(self).party_buffs@,
            final(self).party_ailments@ == old(self).party_ailments@,
            final(self).enemy_ailments@ == old(self).enemy_ailments@,
    {
        let mut i: usize = 0;
        while i < results.len()
            invariant
                i <= results@.len(),
                self.turn_log@ == old(self).turn_log@ + results@.take(i as int),
                self.party@ == old(self).party@,
                self.enemies@ == old(self).enemies@,
                self.party_buffs@ == old(self).party_buffs@,
                self.party_ailments@ == old(self).party_ailments@,
                self.enemy_ailments@ == old(self).enemy_ailments@,
            decreases results@.len() - i,
        {
            self.turn_log.push(results[i]);
            proof { assert(results@.take(i + 1) =~= results@.take(i as int).push(results@[i as int])); }
            i = i + 1;
        }
        proof { assert(results@.take(results@.len() as int) =~= results@); }
    }

    /// Experience for the defeated enemies, with the tier bonus.
    pub fn total_exp_reward(&self) -> (r: u32)
        requires
            defeated_exp(self.enemies@) <= u32::MAX,
        ensures
            r == defeated_exp(self.enemies@),
    {
        let ghost es = self.enemies@;
        let mut total: u32 = 0;
        let mut i: usize = 0;
        proof { assert(es.take(0) =~= Seq::<Enemy>::empty()); }
        while i < self.enemies.len()
            invariant
                i <= es.len(),
                es == self.enemies@,
                total == defeated_exp(es.take(i as int)),
                defeated_exp(es) <= u32::MAX,
            decreases es.len() - i,
        {
            proof {
                assert(es.take(i + 1).drop_last() =~= es.take(i as int));
                assert(es.take(i + 1).last() == es[i as int]);
                lemma_defeated_exp_prefix(es, i + 1);
            }
            if self.enemies[i].stats.hp <= 0 {
                total = total + self.enemies[i].exp_reward();
            }
            i = i + 1;
        }
        proof { assert(es.take(es.len() as int) =~= es); }
        total
    }

    /// Experience for the defeated enemies, or nothing when it does not fit
    /// in `u32`.
    pub fn checked_exp_reward(&self) -> (r: Option<u32>)
        ensures
            r == if defeated_exp(self.enemies@) <= u32::MAX { Some(defeated_exp(self.enemies@) as u32) } else { None::<u32> },
    {
        let ghost es = self.enemies@;
        let mut total: u64 = 0;
        let mut i: usize = 0;
        proof { assert(es.take(0) =~= Seq::<Enemy>::empty()); }
        while i < self.enemies.len()
            invariant
                i <= es.len(),
                es == self.enemies@,
                total == defeated_exp(es.take(i as int)),
                total <= u32::MAX,
            decreases es.len() - i,
        {
            proof {
                assert(es.take(i + 1).drop_last() =~= es.take(i as int));
                assert(es.take(i + 1).last() == es[i as int]);
            }
            if self.enemies[i].stats.hp <= 0 {
                total = total + self.enemies[i].exp_reward() as u64;
            }
            i = i + 1;
            if total > 0xffff_ffff {
                proof { lemma_defeated_exp_prefix(es, i as int); }
                return None;
            }
        }
        proof { assert(es.take(es.len() as int) =~= es); }
        Some(total as u32)
    }
}


impl BattleState {
    /// Whether any command is to flee.
    fn any_flee(cmds: &[BattleAction]) -> (r: bool)
        ensures
            r == has_flee(cmds@),
    {
        let mut i: usize = 0;
        while i < cmds.len()
            invariant
                i <= cmds@.len(),
                forall|j: int| 0 <= j < i ==> !(#[trigger] cmds@[j] is Flee),
            decreases cmds@.len() - i,
        {
            match cmds[i] {
                BattleAction::Flee => {
                    proof { assert(cmds@[i as int] is Flee); }
                    return true;
                },
                _ => {},
            }
            i = i + 1;
        }
        false
    }

    /// One actor's move within a turn.
    fn actor_move(&mut self, cmds: &[BattleAction], actor: ActorId, random: u32, spell_randoms: &Vec<u32>) -> (r: Vec<TurnResult>)
        requires
            old(self).well_formed(),
            random <= RANDOM_LIMIT,
            actor_ok(actor, old(self).party@.len() as int, old(self).enemies@.len() as int),
            move_ok(old(self).model(), cmds@, actor, old(self).party@.len() as int, old(self).enemies@.len() as int),
        ensures
            (final(self).model(), r@) == actor_step(old(self).model(), cmds@, actor, random, spell_randoms@),
            final(self).well_formed(),
            final(self).same_cast(*old(self)),
            final(self).turn_log@ == old(self).turn_log@,
    {
        let ghost m = self.model();
        match actor {
            ActorId::Party(pi) => {
                proof {
                    assert(m.party_stats[pi as int] == self.party@[pi as int].stats);
                    assert(m.party_ailments[pi as int] == self.party_ailments@[pi as int]);
                }
                if self.party[pi].stats.hp <= 0 {
                    return Vec::new();
                }
                if self.party_ailments[pi].sleep {
                    let mut v: Vec<TurnResult> = Vec::new();
                    v.push(TurnResult::Sleeping { actor });
                    proof { assert(v@ =~= seq![TurnResult::Sleeping { actor }]); }
                    return v;
                }
                if pi < cmds.len() {
                    proof { assert(command_ok(cmds@[pi as int], self.party@.len() as int, self.enemies@.len() as int)); }
                    match cmds[pi] {
                        BattleAction::Attack { target } => {
                            let n_enemies = self.enemies.len();
                            proof {
                                assert(m.enemy_stats.len() == n_enemies);
                                lemma_alive_list(m.enemy_stats);
                            }
                            match self.retarget_enemy(target) {
                                Some(TargetId::Enemy(ei)) => self.execute_party_attack(pi, ei, random),
                                _ => Vec::new(),
                            }
                        },
                        BattleAction::Spell { spell, target } => self.execute_spell(pi, spell, target, random),
                        BattleAction::UseItem { item, target } => self.execute_item(pi, item, target, random),
                        BattleAction::Flee => Vec::new(),
                    }
                } else {
                    Vec::new()
                }
            },
            ActorId::Enemy(ei) => {
                proof {
                    assert(m.enemy_stats[ei as int] == self.enemies@[ei as int].stats);
                    assert(m.enemy_ailments[ei as int] == self.enemy_ailments@[ei as int]);
                }
                if self.enemies[ei].stats.hp <= 0 {
                    return Vec::new();
                }
                if self.enemy_ailments[ei].sleep {
                    let mut v: Vec<TurnResult> = Vec::new();
                    v.push(TurnResult::Sleeping { actor });
                    proof { assert(v@ =~= seq![TurnResult::Sleeping { actor }]); }
                    return v;
                }
                let spell_random = random_or_default(spell_randoms, ei);
                self.execute_enemy_action(ei, random, spell_random)
            },
        }
    }

    /// After a failed escape the living enemies move in turn.
    fn run_enemies_after_escape(&mut self, dmg: &Vec<u32>, sr: &Vec<u32>) -> (r: Vec<TurnResult>)
        requires
            old(self).well_formed(),
            randoms_ok(dmg@),
        ensures
            (final(self).model(), r@) == flee_fold(old(self).model(), alive_list(old(self).model().enemy_stats), dmg@, sr@),
            final(self).well_formed(),
            final(self).same_cast(*old(self)),
            final(self).turn_log@ == old(self).turn_log@,
    {
        let ghost m = self.model();
        let mut results: Vec<TurnResult> = Vec::new();
        let alive = self.alive_enemy_indices();
        let n_enemies = self.enemies.len();
        proof {
            assert(m.enemy_stats.len() == n_enemies);
            lemma_alive_list(m.enemy_stats);
            assert(alive@.take(0) =~= Seq::<usize>::empty());
        }
        let mut k: usize = 0;
        while k < alive.len()
            invariant
                k <= alive@.len(),
                alive@ == alive_list(m.enemy_stats),
                forall|q: int| 0 <= q < alive@.len() ==> #[trigger] alive@[q] < self.enemies@.len(),
                randoms_ok(dmg@),
                self.well_formed(),
                self.same_cast(*old(self)),
                self.turn_log@ == old(self).turn_log@,
                self.model() == flee_fold(m, alive@.take(k as int), dmg@, sr@).0,
                results@ == flee_fold(m, alive@.take(k as int), dmg@, sr@).1,
            decreases alive@.len() - k,
        {
            proof {
                assert(alive@.take(k + 1).drop_last() =~= alive@.take(k as int));
                assert(alive@.take(k + 1).last() == alive@[k as int]);
            }
            let ei = alive[k];
            let random = random_or_default(dmg, k);
            let spell_random = random_or_default(sr, ei);
            let mut step = self.execute_enemy_action(ei, random, spell_random);
            results.append(&mut step);
            k = k + 1;
        }
        proof { assert(alive@.take(alive@.len() as int) =~= alive@); }
        results
    }

    /// The actors move in the given order, the k-th with the k-th damage
    /// factor.
    fn run_actors(&mut self, party_commands: &[BattleAction], order: &Vec<ActorId>, dmg: &Vec<u32>, sr: &Vec<u32>) -> (r: Vec<TurnResult>)
        requires
            old(self).well_formed(),
            order@ == action_order_spec(old(self).model(), party_commands@.len() as int),
            forall|q: int| 0 <= q < order@.len() ==> actor_ok(#[trigger] order@[q], old(self).party@.len() as int, old(self).enemies@.len() as int),
            turn_commands_ok(old(self).model(), party_commands@, dmg@, sr@),
            !has_flee(party_commands@),
            randoms_ok(dmg@),
        ensures
            (final(self).model(), r@) == actors_fold(old(self).model(), party_commands@, order@, dmg@, sr@),
            final(self).well_formed(),
            final(self).same_cast(*old(self)),
            final(self).turn_log@ == old(self).turn_log@,
    {
        let ghost m = self.model();
        let mut results: Vec<TurnResult> = Vec::new();
        let mut i: usize = 0;
        proof { assert(order@.take(0) =~= Seq::<ActorId>::empty()); }
        while i < order.len()
            invariant
                i <= order@.len(),
                order@ == action_order_spec(m, party_commands@.len() as int),
                forall|q: int| 0 <= q < order@.len() ==> actor_ok(#[trigger] order@[q], self.party@.len() as int, self.enemies@.len() as int),
                turn_commands_ok(m, party_commands@, dmg@, sr@),
                !has_flee(party_commands@),
                m.party_stats.len() == self.party@.len(),
                m.enemy_stats.len() == self.enemies@.len(),
                randoms_ok(dmg@),
                self.well_formed(),
                self.same_cast(*old(self)),
                self.turn_log@ == old(self).turn_log@,
                (self.model(), results@) == actors_fold(m, party_commands@, order@.take(i as int), dmg@, sr@),
            decreases order@.len() - i,
        {
            proof {
                assert(order@.take(i + 1).drop_last() =~= order@.take(i as int));
                assert(order@.take(i + 1).last() == order@[i as int]);
                assert(order@.take(i + 1).len() - 1 == i);
                assert(move_ok_at(m, party_commands@, order@, dmg@, sr@, i as int));
            }
            let random = random_or_default(dmg, i);
            let mut step = self.actor_move(party_commands, order[i], random, sr);
            results.append(&mut step);
            i = i + 1;
        }
        proof { assert(order@.take(order@.len() as int) =~= order@); }
        results
    }

    /// Runs a turn with one command per party member (by index) and the
    /// turn's random factors, and appends what happened to the log.
    pub fn execute_turn(&mut self, party_commands: &[BattleAction], random_factors: &TurnRandomFactors) -> (r: Vec<TurnResult>)
        requires
            old(self).well_formed(),
            turn_commands_ok(old(self).model(), party_commands@, random_factors.damage_randoms@, random_factors.spell_randoms@),
            randoms_ok(random_factors.damage_randoms@),
        ensures
            (final(self).model(), r@) == turn_spec(
                old(self).model(),
                party_commands@,
                random_factors.damage_randoms@,
                random_factors.flee_random,
                random_factors.spell_randoms@,
            ),
            final(self).turn_log@ == old(self).turn_log@ + r@,
            final(self).well_formed(),
            final(self).same_cast(*old(self)),
    {
        let ghost m = self.model();
        let dmg = &random_factors.damage_randoms;
        let sr = &random_factors.spell_randoms;
        if Self::any_flee(party_commands) {
            let mut results: Vec<TurnResult> = Vec::new();
            if random_factors.flee_random < FLEE_CHANCE {
                results.push(TurnResult::Fled);
                proof { assert(results@ =~= seq![TurnResult::Fled]); }
                self.log_results(&results);
                return results;
            }
            results.push(TurnResult::FleeFailed);
            let mut moves = self.run_enemies_after_escape(dmg, sr);
            results.append(&mut moves);
            proof {
                assert(results@ =~= seq![TurnResult::FleeFailed] + flee_fold(m, alive_list(m.enemy_stats), dmg@, sr@).1);
            }
            self.log_results(&results);
            return results;
        }
        let order = self.build_action_order(party_commands);
        let mut results = self.run_actors(party_commands, &order, dmg, sr);
        let mut ticked = self.tick_buffs();
        results.append(&mut ticked);
        let mut bitten = self.tick_poison();
        results.append(&mut bitten);
        self.log_results(&results);
        results
    }
}

} // verus!
