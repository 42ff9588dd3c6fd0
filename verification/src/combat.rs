//! Damage resolution: which enemies one attack strikes, what is left of them
//! and of the attack's penetration budget.
//!
//! Whether a ray meets an enemy is geometry and is decided outside the core.
//! The rules here take the outcome as a list of flags, one per enemy, in the
//! order of the enemy list. An enemy without a flag counts as missed.

use vstd::prelude::*;
use crate::api_types::{Enemy, EnemyStatus, Health};

verus! {

/// Whether an enemy can still be hit.
pub open spec fn alive(e: Enemy) -> bool {
    e.status == EnemyStatus::Alive
}

/// Every living enemy has health above zero.
pub open spec fn enemies_wf(enemies: Seq<Enemy>) -> bool {
    forall|i: int| 0 <= i < enemies.len() ==> (alive(#[trigger] enemies[i]) ==> enemies[i].health > 0)
}

/// The flag of enemy `i`; an enemy past the end of the list is missed.
pub open spec fn hit_at(hits: Seq<bool>, i: int) -> bool {
    0 <= i < hits.len() && hits[i]
}

/// An enemy after it has taken `damage`: its health drops by that much, and
/// it is dead once its health is zero or less.
pub open spec fn damaged(e: Enemy, damage: int) -> Enemy {
    Enemy {
        enemy_id: e.enemy_id,
        position: e.position,
        health: (e.health - damage) as isize,
        status: if e.health - damage <= 0 {
            EnemyStatus::Dead
        } else {
            e.status
        },
    }
}

/// Whether the attack would strike enemy `i` if its budget allowed: the
/// enemy is alive and the ray meets it.
pub open spec fn in_path(enemies: Seq<Enemy>, hits: Seq<bool>, i: int) -> bool {
    0 <= i < enemies.len() && alive(enemies[i]) && hit_at(hits, i)
}

/// Number of enemies among the first `n` that are in the attack's path.
pub open spec fn in_path_before(enemies: Seq<Enemy>, hits: Seq<bool>, n: int) -> nat
    decreases n,
{
    if n <= 0 {
        0
    } else {
        in_path_before(enemies, hits, n - 1) + if in_path(enemies, hits, n - 1) {
            1nat
        } else {
            0nat
        }
    }
}

/// Whether a budget that has already been drawn on `used` times allows one
/// more strike. No budget means no limit.
pub open spec fn budget_allows(budget: Option<isize>, used: nat) -> bool {
    match budget {
        None => true,
        Some(b) => used < b,
    }
}

/// The budget after `wanted` enemies stood in the path: each strike takes
/// one, down to zero. A budget of zero or less stays what it is.
pub open spec fn budget_left(budget: Option<isize>, wanted: nat) -> Option<isize> {
    match budget {
        None => None,
        Some(b) => if b <= 0 {
            Some(b)
        } else if wanted >= b {
            Some(0isize)
        } else {
            Some((b - wanted) as isize)
        },
    }
}

/// Whether a budget is used up.
pub open spec fn exhausted(budget: Option<isize>) -> bool {
    budget matches Some(b) && b <= 0
}

/// Whether the attack strikes enemy `i`: the enemy is in the path and the
/// budget has not been used up by the enemies before it.
pub open spec fn struck(enemies: Seq<Enemy>, hits: Seq<bool>, budget: Option<isize>, i: int) -> bool {
    in_path(enemies, hits, i) && budget_allows(budget, in_path_before(enemies, hits, i))
}

/// The enemy list after one attack has gone through it in list order.
pub open spec fn strike_all(
    enemies: Seq<Enemy>,
    hits: Seq<bool>,
    damage: int,
    budget: Option<isize>,
) -> Seq<Enemy> {
    Seq::new(
        enemies.len(),
        |i: int|
            if struck(enemies, hits, budget, i) {
                damaged(enemies[i], damage)
            } else {
                enemies[i]
            },
    )
}

/// Number of enemies among the first `n` that the attack strikes.
pub open spec fn strikes_before(
    enemies: Seq<Enemy>,
    hits: Seq<bool>,
    budget: Option<isize>,
    n: int,
) -> nat
    decreases n,
{
    if n <= 0 {
        0
    } else {
        strikes_before(enemies, hits, budget, n - 1) + if struck(enemies, hits, budget, n - 1) {
            1nat
        } else {
            0nat
        }
    }
}

/// The count of enemies in the path never shrinks as the list is walked and
/// grows by at most one per enemy.
pub proof fn lemma_in_path_before_monotone(enemies: Seq<Enemy>, hits: Seq<bool>, i: int, j: int)
    requires
        0 <= i <= j,
    ensures
        in_path_before(enemies, hits, i) <= in_path_before(enemies, hits, j),
        in_path_before(enemies, hits, j) <= in_path_before(enemies, hits, i) + (j - i),
    decreases j - i,
{
    if i < j {
        lemma_in_path_before_monotone(enemies, hits, i, j - 1);
    }
}

/// An attack leaves a valid enemy list valid, whatever it strikes.
pub proof fn lemma_strike_all_keeps_wf(
    enemies: Seq<Enemy>,
    hits: Seq<bool>,
    damage: int,
    budget: Option<isize>,
)
    requires
        enemies_wf(enemies),
        0 <= damage <= isize::MAX,
    ensures
        enemies_wf(strike_all(enemies, hits, damage, budget)),
{
    let after = strike_all(enemies, hits, damage, budget);
    assert forall|i: int| 0 <= i < after.len() && alive(#[trigger] after[i]) implies after[i].health
        > 0 by {
        assert(alive(enemies[i]) ==> enemies[i].health > 0);
    }
}

/// Enemies only decline. After an attack the list is as long as before; no
/// enemy has gained health; an enemy that was not alive is untouched; an
/// enemy is alive afterwards only if it was alive before; and a struck enemy
/// has lost exactly the damage, and is dead if and only if that left it with
/// health zero or less.
pub proof fn law_enemies_only_decline(
    enemies: Seq<Enemy>,
    hits: Seq<bool>,
    damage: int,
    budget: Option<isize>,
    i: int,
)
    requires
        enemies_wf(enemies),
        0 <= damage <= isize::MAX,
        0 <= i < enemies.len(),
    ensures
        strike_all(enemies, hits, damage, budget).len() == enemies.len(),
        strike_all(enemies, hits, damage, budget)[i].health <= enemies[i].health,
        strike_all(enemies, hits, damage, budget)[i].enemy_id == enemies[i].enemy_id,
        strike_all(enemies, hits, damage, budget)[i].position == enemies[i].position,
        !alive(enemies[i]) ==> strike_all(enemies, hits, damage, budget)[i] == enemies[i],
        alive(strike_all(enemies, hits, damage, budget)[i]) ==> alive(enemies[i]),
        struck(enemies, hits, budget, i) ==> {
            &&& strike_all(enemies, hits, damage, budget)[i].health == enemies[i].health - damage
            &&& (strike_all(enemies, hits, damage, budget)[i].status == EnemyStatus::Dead
                <==> enemies[i].health - damage <= 0)
        },
        !struck(enemies, hits, budget, i) ==> strike_all(enemies, hits, damage, budget)[i]
            == enemies[i],
{
    assert(alive(enemies[i]) ==> enemies[i].health > 0);
}

/// The budget pays for the strikes. Without a budget every enemy in the path
/// is struck. With a budget of `b` the attack strikes the first `b` enemies
/// in its path and no more, and none at all if `b` is zero or less.
pub proof fn law_budget_bounds_strikes(
    enemies: Seq<Enemy>,
    hits: Seq<bool>,
    budget: Option<isize>,
    n: int,
)
    requires
        0 <= n <= enemies.len(),
    ensures
        match budget {
            None => strikes_before(enemies, hits, budget, n) == in_path_before(enemies, hits, n),
            Some(b) => if b <= 0 {
                strikes_before(enemies, hits, budget, n) == 0
            } else if in_path_before(enemies, hits, n) >= b {
                strikes_before(enemies, hits, budget, n) == b
            } else {
                strikes_before(enemies, hits, budget, n) == in_path_before(enemies, hits, n)
            },
        },
    decreases n,
{
    if n > 0 {
        law_budget_bounds_strikes(enemies, hits, budget, n - 1);
    }
}

/// What is left of a positive budget is the budget less the strikes made. A
/// budget that was used up strikes nothing and stays as it is.
pub proof fn law_budget_left_after_strikes(
    enemies: Seq<Enemy>,
    hits: Seq<bool>,
    damage: int,
    b: isize,
)
    ensures
        b > 0 ==> budget_left(Some(b), in_path_before(enemies, hits, enemies.len() as int))
            == Some((b - strikes_before(enemies, hits, Some(b), enemies.len() as int)) as isize),
        b <= 0 ==> budget_left(Some(b), in_path_before(enemies, hits, enemies.len() as int))
            == Some(b),
        b <= 0 ==> strike_all(enemies, hits, damage, Some(b)) == enemies,
{
    law_budget_bounds_strikes(enemies, hits, Some(b), enemies.len() as int);
    if b <= 0 {
        assert(strike_all(enemies, hits, damage, Some(b)) =~= enemies);
    }
}

/// A budget of one strikes at most one enemy: two struck enemies are the
/// same enemy.
pub proof fn law_single_penetration(enemies: Seq<Enemy>, hits: Seq<bool>, i: int, j: int)
    requires
        struck(enemies, hits, Some(1), i),
        struck(enemies, hits, Some(1), j),
    ensures
        i == j,
{
    if i < j {
        lemma_in_path_before_monotone(enemies, hits, i + 1, j);
    } else if j < i {
        lemma_in_path_before_monotone(enemies, hits, j + 1, i);
    }
}

/// Applies one attack to the enemies in list order. Every living enemy whose
/// flag is set takes `damage` while the budget lasts, and dies once its
/// health is zero or less. Returns what is left of the budget.
pub fn strike_enemies(
    enemies: &mut Vec<Enemy>,
    hits: &Vec<bool>,
    damage: Health,
    budget: Option<isize>,
) -> (left: Option<isize>)
    requires
        enemies_wf(old(enemies)@),
        damage >= 0,
    ensures
        final(enemies)@ == strike_all(old(enemies)@, hits@, damage as int, budget),
        left == budget_left(budget, in_path_before(old(enemies)@, hits@, old(enemies)@.len() as int)),
        enemies_wf(final(enemies)@),
{
    let ghost before = enemies@;
    let n = enemies.len();
    let mut left = budget;
    let mut i: usize = 0;
    while i < n
        invariant
            0 <= i <= n,
            n == before.len(),
            enemies@.len() == n,
            damage >= 0,
            enemies_wf(before),
            left == budget_left(budget, in_path_before(before, hits@, i as int)),
            forall|j: int|
                0 <= j < i ==> #[trigger] enemies@[j] == strike_all(
                    before,
                    hits@,
                    damage as int,
                    budget,
                )[j],
            forall|j: int| i <= j < n ==> #[trigger] enemies@[j] == before[j],
        decreases n - i,
    {
        let e = enemies[i];
        let flagged = i < hits.len() && hits[i];
        let is_alive = match e.status {
            EnemyStatus::Alive => true,
            _ => false,
        };
        let allowed = match left {
            None => true,
            Some(b) => b > 0,
        };
        proof {
            assert(before[i as int] == e);
            assert(flagged == hit_at(hits@, i as int));
            assert((is_alive && flagged) == in_path(before, hits@, i as int));
            assert(allowed == budget_allows(budget, in_path_before(before, hits@, i as int)));
        }
        if is_alive && flagged && allowed {
            let health: Health = e.health - damage;
            let status = if health <= 0 {
                EnemyStatus::Dead
            } else {
                e.status
            };
            enemies.set(
                i,
                Enemy { enemy_id: e.enemy_id, position: e.position, health: health, status: status },
            );
            left =
            match left {
                None => None,
                Some(b) => Some(b - 1),
            };
        }
        i = i + 1;
    }
    assert(enemies@ =~= strike_all(before, hits@, damage as int, budget));
    proof {
        lemma_strike_all_keeps_wf(before, hits@, damage as int, budget);
    }
    left
}

} // verus!
