//! The world and the rules that change it, as mathematics: what the world is
//! after a connect, a disconnect, a position update, an attack and a tick,
//! and the laws that follow.

use vstd::prelude::*;
use crate::api_types::{
    AuthorizationStatus, ClientUpdate, ConnectionStatus, Enemy, EnemyStatus, GameStateView, Health,
    PlayerProjectileView, PlayerView, PositionStamped, ProjectileSnaphot, ProjectileTable, Vec2,
};
use crate::combat::{
    alive, budget_left, damaged, enemies_wf, exhausted, hit_at, in_path_before,
    law_enemies_only_decline, lemma_in_path_before_monotone, lemma_strike_all_keeps_wf, strike_all,
    struck,
};
use crate::game_control::{IdentityRetention, ProjectileStep, ProjectileStepView};

verus! {

/// No two players share an id.
pub open spec fn unique_ids(players: Seq<PlayerView>) -> bool {
    forall|i: int, j: int|
        0 <= i < j < players.len() ==> (#[trigger] players[i]).id != (#[trigger] players[j]).id
}

/// Whether a player with this id is on record.
pub open spec fn known(players: Seq<PlayerView>, id: Seq<char>) -> bool {
    exists|i: int| 0 <= i < players.len() && (#[trigger] players[i]).id == id
}

/// Where the record of a known player stands in the list.
pub open spec fn index_of(players: Seq<PlayerView>, id: Seq<char>) -> int {
    choose|i: int| 0 <= i < players.len() && (#[trigger] players[i]).id == id
}

/// No two enemies share an id.
pub open spec fn unique_enemy_ids(enemies: Seq<Enemy>) -> bool {
    forall|i: int, j: int|
        0 <= i < j < enemies.len() ==> (#[trigger] enemies[i]).enemy_id != (
        #[trigger] enemies[j]).enemy_id
}

/// Whether an enemy with this id is in the world, alive or dead.
pub open spec fn enemy_known(enemies: Seq<Enemy>, enemy_id: isize) -> bool {
    exists|i: int| 0 <= i < enemies.len() && (#[trigger] enemies[i]).enemy_id == enemy_id
}

/// The state of the world is valid: no two players and no two enemies share
/// an id, and no living enemy has run out of health.
pub open spec fn world_wf(w: GameStateView) -> bool {
    unique_ids(w.players) && unique_enemy_ids(w.enemies) && enemies_wf(w.enemies)
}

/// The record of a player who connects for the first time: at the origin,
/// connected and in good standing.
pub open spec fn fresh_player(id: Seq<char>) -> PlayerView {
    PlayerView {
        id: id,
        position: PositionStamped { xy: Vec2 { x_bits: 0, y_bits: 0 }, time_ms: 0 },
        connection_status: ConnectionStatus::Connected,
        authr_status: AuthorizationStatus::GoodStanding,
    }
}

/// A record with another connection status.
pub open spec fn with_status(p: PlayerView, status: ConnectionStatus) -> PlayerView {
    PlayerView {
        id: p.id,
        position: p.position,
        connection_status: status,
        authr_status: p.authr_status,
    }
}

/// A record with another position.
pub open spec fn with_position(p: PlayerView, position: PositionStamped) -> PlayerView {
    PlayerView {
        id: p.id,
        position: position,
        connection_status: p.connection_status,
        authr_status: p.authr_status,
    }
}

/// A world with another list of players.
pub open spec fn with_players(w: GameStateView, players: Seq<PlayerView>) -> GameStateView {
    GameStateView { players: players, enemies: w.enemies, projectiles: w.projectiles }
}

/// Whether a connect with this id is refused: the player is on record and
/// not marked disconnected.
pub open spec fn connect_rejected(w: GameStateView, id: Seq<char>) -> bool {
    known(w.players, id) && w.players[index_of(w.players, id)].connection_status
        != ConnectionStatus::Disconnected
}

/// The world after a connect with this id. An unknown id gets a fresh record
/// at the end of the list, a disconnected player is connected again in
/// place, and a refused connect changes nothing.
pub open spec fn after_connect(w: GameStateView, id: Seq<char>) -> GameStateView {
    if !known(w.players, id) {
        with_players(w, w.players.push(fresh_player(id)))
    } else if connect_rejected(w, id) {
        w
    } else {
        let i = index_of(w.players, id);
        with_players(w, w.players.update(i, with_status(w.players[i], ConnectionStatus::Connected)))
    }
}

/// The world after a disconnect with this id. The record of a known player
/// is removed or marked disconnected, as the retention policy says; an
/// unknown id changes nothing.
pub open spec fn after_disconnect(
    w: GameStateView,
    retention: IdentityRetention,
    id: Seq<char>,
) -> GameStateView {
    if !known(w.players, id) {
        w
    } else {
        let i = index_of(w.players, id);
        match retention {
            IdentityRetention::Discard => with_players(w, w.players.remove(i)),
            IdentityRetention::Keep => with_players(
                w,
                w.players.update(i, with_status(w.players[i], ConnectionStatus::Disconnected)),
            ),
        }
    }
}

/// The world after a position update from this id: the position of a known
/// player is overwritten; an unknown id changes nothing.
pub open spec fn after_position_update(
    w: GameStateView,
    id: Seq<char>,
    position: PositionStamped,
) -> GameStateView {
    if !known(w.players, id) {
        w
    } else {
        let i = index_of(w.players, id);
        with_players(w, w.players.update(i, with_position(w.players[i], position)))
    }
}

/// The text of the error for a refused connect.
pub open spec fn duplicate_connect_message(id: Seq<char>) -> Seq<char> {
    "cannot have duplicate client addresses, got ["@ + id + "]"@
}

/// The text of the error for an intent from a player who is not on record.
pub open spec fn unknown_player_message(id: Seq<char>) -> Seq<char> {
    "no player with id ["@ + id + "]"@
}

/// The steps of a tick as a mathematical sequence.
pub open spec fn steps_view(steps: Seq<ProjectileStep>) -> Seq<ProjectileStepView> {
    steps.map_values(|s: ProjectileStep| s@)
}

/// The flags of projectile `k`; a projectile without a step hits nothing.
pub open spec fn step_hits(steps: Seq<ProjectileStepView>, k: int) -> Seq<bool> {
    if 0 <= k < steps.len() {
        steps[k].hits
    } else {
        Seq::empty()
    }
}

/// Where projectile `k` stands after the tick; a projectile without a step
/// stays at `current`.
pub open spec fn step_position(steps: Seq<ProjectileStepView>, k: int, current: Vec2) -> Vec2 {
    if 0 <= k < steps.len() {
        steps[k].moved_to
    } else {
        current
    }
}

/// The damage a projectile does, by the table row of its type.
pub open spec fn damage_of(table: ProjectileTable, p: PlayerProjectileView) -> int {
    table.info(p.projectile.projectile_type).damage as int
}

/// The enemies after the first `k` projectiles have gone through them, one
/// projectile after the other in list order.
pub open spec fn enemies_after(
    table: ProjectileTable,
    enemies: Seq<Enemy>,
    projectiles: Seq<PlayerProjectileView>,
    steps: Seq<ProjectileStepView>,
    k: int,
) -> Seq<Enemy>
    decreases k,
{
    if k <= 0 {
        enemies
    } else {
        strike_all(
            enemies_after(table, enemies, projectiles, steps, k - 1),
            step_hits(steps, k - 1),
            damage_of(table, projectiles[k - 1]),
            projectiles[k - 1].remaining_penetrations,
        )
    }
}

/// Projectile `k` after the tick: moved, stamped with the tick's time, and
/// with what is left of its budget after the enemies it met.
pub open spec fn projectile_after(
    table: ProjectileTable,
    enemies: Seq<Enemy>,
    projectiles: Seq<PlayerProjectileView>,
    steps: Seq<ProjectileStepView>,
    now_ms: u64,
    k: int,
) -> PlayerProjectileView {
    let p = projectiles[k];
    let met = enemies_after(table, enemies, projectiles, steps, k);
    PlayerProjectileView {
        player_id: p.player_id,
        projectile: ProjectileSnaphot {
            projectile_type: p.projectile.projectile_type,
            origin: PositionStamped {
                xy: step_position(steps, k, p.projectile.origin.xy),
                time_ms: now_ms,
            },
            vel: p.projectile.vel,
        },
        remaining_penetrations: budget_left(
            p.remaining_penetrations,
            in_path_before(met, step_hits(steps, k), met.len() as int),
        ),
    }
}

/// All projectiles after the tick, before the spent ones are taken out.
pub open spec fn projectiles_advanced(
    table: ProjectileTable,
    enemies: Seq<Enemy>,
    projectiles: Seq<PlayerProjectileView>,
    steps: Seq<ProjectileStepView>,
    now_ms: u64,
) -> Seq<PlayerProjectileView> {
    Seq::new(
        projectiles.len(),
        |k: int| projectile_after(table, enemies, projectiles, steps, now_ms, k),
    )
}

/// Whether a projectile stays in flight: its budget is not used up.
pub open spec fn in_flight(p: PlayerProjectileView) -> bool {
    !exhausted(p.remaining_penetrations)
}

/// The world after one tick at `now_ms`. Each projectile in turn strikes the
/// living enemies in its path while its budget lasts, and moves on; at the
/// end the projectiles whose budget is used up are taken out.
pub open spec fn after_tick(
    w: GameStateView,
    table: ProjectileTable,
    now_ms: u64,
    steps: Seq<ProjectileStepView>,
) -> GameStateView {
    GameStateView {
        players: w.players,
        enemies: enemies_after(table, w.enemies, w.projectiles, steps, w.projectiles.len() as int),
        projectiles: projectiles_advanced(table, w.enemies, w.projectiles, steps, now_ms).filter(
            |p: PlayerProjectileView| in_flight(p),
        ),
    }
}

/// The world after an attack is made. A hitscan attack strikes every living
/// enemy whose flag is set, at once and however many there are; any other
/// attack becomes a projectile in flight with the launch velocity and the
/// full budget of its type.
pub open spec fn after_attack(
    w: GameStateView,
    table: ProjectileTable,
    id: Seq<char>,
    projectile: ProjectileSnaphot,
    launch_velocity: Vec2,
    hits: Seq<bool>,
) -> GameStateView {
    let info = table.info(projectile.projectile_type);
    match info.speed_bits {
        Some(_) => GameStateView {
            players: w.players,
            enemies: w.enemies,
            projectiles: w.projectiles.push(
                PlayerProjectileView {
                    player_id: id,
                    projectile: ProjectileSnaphot {
                        projectile_type: projectile.projectile_type,
                        origin: projectile.origin,
                        vel: launch_velocity,
                    },
                    remaining_penetrations: info.num_penetrations,
                },
            ),
        },
        None => GameStateView {
            players: w.players,
            enemies: strike_all(w.enemies, hits, info.damage as int, None),
            projectiles: w.projectiles,
        },
    }
}

/// The status a new enemy starts with.
pub open spec fn spawn_status(health: Health) -> EnemyStatus {
    if health > 0 {
        EnemyStatus::Alive
    } else {
        EnemyStatus::Dead
    }
}

/// The world after an enemy is spawned: the new enemy stands at the end of
/// the enemy list, alive if it has health above zero and dead otherwise. An
/// id that an enemy in the world already has changes nothing.
pub open spec fn after_spawn(
    w: GameStateView,
    enemy_id: isize,
    position: PositionStamped,
    health: Health,
) -> GameStateView {
    if enemy_known(w.enemies, enemy_id) {
        w
    } else {
        GameStateView {
            players: w.players,
            enemies: w.enemies.push(
                Enemy {
                    enemy_id: enemy_id,
                    position: position,
                    health: health,
                    status: spawn_status(health),
                },
            ),
            projectiles: w.projectiles,
        }
    }
}

/// The text of the error for an enemy id that is taken.
pub open spec fn duplicate_enemy_message() -> Seq<char> {
    "enemy id is already in use"@
}

/// Whether an intent is refused: a connect of a player who is on record and
/// not disconnected, or a disconnect or position update from a player who is
/// not on record.
pub open spec fn update_rejected(w: GameStateView, id: Seq<char>, update: ClientUpdate) -> bool {
    match update {
        ClientUpdate::PlayerConnected(_) => connect_rejected(w, id),
        ClientUpdate::PlayerDisconnected(_) => !known(w.players, id),
        ClientUpdate::PositionUpdate(_) => !known(w.players, id),
        ClientUpdate::ProjectileCreated(_) => false,
    }
}

/// The world after an intent has been handled.
pub open spec fn after_update(
    w: GameStateView,
    table: ProjectileTable,
    retention: IdentityRetention,
    id: Seq<char>,
    update: ClientUpdate,
    launch_velocity: Vec2,
    hits: Seq<bool>,
) -> GameStateView {
    match update {
        ClientUpdate::PlayerConnected(_) => after_connect(w, id),
        ClientUpdate::PlayerDisconnected(_) => after_disconnect(w, retention, id),
        ClientUpdate::PositionUpdate(position) => after_position_update(w, id, position),
        ClientUpdate::ProjectileCreated(projectile) => after_attack(
            w,
            table,
            id,
            projectile,
            launch_velocity,
            hits,
        ),
    }
}

/// The text of the error for a refused intent.
pub open spec fn rejection_message(id: Seq<char>, update: ClientUpdate) -> Seq<char> {
    match update {
        ClientUpdate::PlayerConnected(_) => duplicate_connect_message(id),
        _ => unknown_player_message(id),
    }
}

/// In a list of unique ids, the record found at any index with the wanted id
/// is the record `index_of` names.
pub proof fn lemma_index_of_unique(players: Seq<PlayerView>, id: Seq<char>, i: int)
    requires
        unique_ids(players),
        0 <= i < players.len(),
        players[i].id == id,
    ensures
        known(players, id),
        index_of(players, id) == i,
{
    let c = index_of(players, id);
    assert(0 <= c < players.len() && players[c].id == id);
    if c < i {
        assert(players[c].id != players[i].id);
    } else if i < c {
        assert(players[i].id != players[c].id);
    }
}

/// A connect leaves a valid world valid and the player on record. If it was
/// accepted the player is connected afterwards and the list has grown by one
/// exactly if the player was new; if it was refused the world is unchanged.
pub proof fn lemma_connect(w: GameStateView, id: Seq<char>)
    requires
        world_wf(w),
    ensures
        world_wf(after_connect(w, id)),
        known(after_connect(w, id).players, id),
        after_connect(w, id).enemies == w.enemies,
        after_connect(w, id).projectiles == w.projectiles,
        connect_rejected(w, id) ==> after_connect(w, id) == w,
        !connect_rejected(w, id) ==> after_connect(w, id).players[index_of(
            after_connect(w, id).players,
            id,
        )].connection_status == ConnectionStatus::Connected,
        after_connect(w, id).players.len() == if known(w.players, id) {
            w.players.len()
        } else {
            w.players.len() + 1
        },
        known(w.players, id) ==> index_of(after_connect(w, id).players, id) == index_of(
            w.players,
            id,
        ),
        known(w.players, id) ==> after_connect(w, id).players[index_of(w.players, id)].position
            == w.players[index_of(w.players, id)].position,
{
    let after = after_connect(w, id).players;
    if !known(w.players, id) {
        let last = w.players.len() as int;
        assert forall|i: int, j: int| 0 <= i < j < after.len() implies (#[trigger] after[i]).id
            != (#[trigger] after[j]).id by {
            if j == last {
                assert(w.players[i].id != id);
            } else {
                assert(w.players[i].id != w.players[j].id);
            }
        }
        assert(after[last].id == id);
        lemma_index_of_unique(after, id, last);
    } else {
        let i = index_of(w.players, id);
        if !connect_rejected(w, id) {
            assert forall|a: int, b: int| 0 <= a < b < after.len() implies (#[trigger] after[a]).id
                != (#[trigger] after[b]).id by {
                assert(w.players[a].id != w.players[b].id);
            }
            assert(after[i].id == id);
            lemma_index_of_unique(after, id, i);
        }
    }
}

/// A disconnect leaves a valid world valid. Under the discarding policy the
/// player is off the record afterwards; under the keeping policy a player who
/// was on record still is, at the same place and with the same position, and
/// is marked disconnected.
pub proof fn lemma_disconnect(w: GameStateView, retention: IdentityRetention, id: Seq<char>)
    requires
        world_wf(w),
    ensures
        world_wf(after_disconnect(w, retention, id)),
        after_disconnect(w, retention, id).enemies == w.enemies,
        after_disconnect(w, retention, id).projectiles == w.projectiles,
        !known(w.players, id) ==> after_disconnect(w, retention, id) == w,
        retention == IdentityRetention::Discard ==> !known(
            after_disconnect(w, retention, id).players,
            id,
        ),
        retention == IdentityRetention::Discard && known(w.players, id) ==> after_disconnect(
            w,
            retention,
            id,
        ).players.len() == w.players.len() - 1,
        retention == IdentityRetention::Keep && known(w.players, id) ==> {
            let after = after_disconnect(w, retention, id).players;
            &&& known(after, id)
            &&& after.len() == w.players.len()
            &&& index_of(after, id) == index_of(w.players, id)
            &&& after[index_of(after, id)].connection_status == ConnectionStatus::Disconnected
            &&& after[index_of(after, id)].position == w.players[index_of(w.players, id)].position
        },
{
    let after = after_disconnect(w, retention, id).players;
    if known(w.players, id) {
        let i = index_of(w.players, id);
        match retention {
            IdentityRetention::Discard => {
                assert forall|a: int, b: int| 0 <= a < b < after.len() implies (
                #[trigger] after[a]).id != (#[trigger] after[b]).id by {
                    let a0 = if a < i {
                        a
                    } else {
                        a + 1
                    };
                    let b0 = if b < i {
                        b
                    } else {
                        b + 1
                    };
                    assert(w.players[a0].id != w.players[b0].id);
                }
                assert forall|a: int| 0 <= a < after.len() implies (#[trigger] after[a]).id
                    != id by {
                    let a0 = if a < i {
                        a
                    } else {
                        a + 1
                    };
                    if a0 < i {
                        assert(w.players[a0].id != w.players[i].id);
                    } else {
                        assert(w.players[i].id != w.players[a0].id);
                    }
                }
            },
            IdentityRetention::Keep => {
                assert forall|a: int, b: int| 0 <= a < b < after.len() implies (
                #[trigger] after[a]).id != (#[trigger] after[b]).id by {
                    assert(w.players[a].id != w.players[b].id);
                }
                assert(after[i].id == id);
                lemma_index_of_unique(after, id, i);
            },
        }
    }
}

/// Connect, disconnect, connect. Whatever the world and the retention policy,
/// a player who connects, disconnects and connects again ends up on record
/// exactly once, under the same id, and connected; the second connect is
/// accepted, and the record list is as long as it was after the first.
pub proof fn law_reconnect(w: GameStateView, retention: IdentityRetention, id: Seq<char>)
    requires
        world_wf(w),
    ensures
        ({
            let w1 = after_connect(w, id);
            let w2 = after_disconnect(w1, retention, id);
            let w3 = after_connect(w2, id);
            &&& world_wf(w3)
            &&& !connect_rejected(w2, id)
            &&& known(w3.players, id)
            &&& w3.players[index_of(w3.players, id)].id == id
            &&& w3.players[index_of(w3.players, id)].connection_status
                == ConnectionStatus::Connected
            &&& forall|i: int|
                0 <= i < w3.players.len() && (#[trigger] w3.players[i]).id == id ==> i == index_of(
                    w3.players,
                    id,
                )
            &&& w3.players.len() == w1.players.len()
            &&& w3.enemies == w.enemies
            &&& w3.projectiles == w.projectiles
        }),
{
    let w1 = after_connect(w, id);
    let w2 = after_disconnect(w1, retention, id);
    let w3 = after_connect(w2, id);
    lemma_connect(w, id);
    lemma_disconnect(w1, retention, id);
    lemma_connect(w2, id);
    assert forall|i: int| 0 <= i < w3.players.len() && (#[trigger] w3.players[i]).id
        == id implies i == index_of(w3.players, id) by {
        lemma_index_of_unique(w3.players, id, i);
    }
}

/// A connect on top of a connection is refused. Once a connect has been
/// accepted, a second connect with the same id is refused and leaves the
/// world, and with it the player's position and status, as it was.
pub proof fn law_duplicate_connect_rejected(w: GameStateView, id: Seq<char>)
    requires
        world_wf(w),
        !connect_rejected(w, id),
    ensures
        connect_rejected(after_connect(w, id), id),
        after_connect(after_connect(w, id), id) == after_connect(w, id),
{
    lemma_connect(w, id);
}

/// An attack leaves a valid world valid and touches no player. A hitscan
/// attack puts nothing in flight and every enemy only declines: each living
/// enemy whose flag is set loses exactly the damage of the attack's type and
/// is dead afterwards if and only if that leaves it with health zero or less,
/// and every other enemy is untouched. Any other attack touches no enemy and
/// adds one projectile, owned by the attacker, to the end of the list.
pub proof fn law_attack(
    w: GameStateView,
    table: ProjectileTable,
    id: Seq<char>,
    projectile: ProjectileSnaphot,
    launch_velocity: Vec2,
    hits: Seq<bool>,
)
    requires
        world_wf(w),
        table.wf(),
    ensures
        world_wf(after_attack(w, table, id, projectile, launch_velocity, hits)),
        after_attack(w, table, id, projectile, launch_velocity, hits).players == w.players,
        after_attack(w, table, id, projectile, launch_velocity, hits).enemies.len()
            == w.enemies.len(),
        table.info(projectile.projectile_type).speed_bits is None ==> {
            let after = after_attack(w, table, id, projectile, launch_velocity, hits);
            let damage = table.info(projectile.projectile_type).damage;
            &&& after.projectiles == w.projectiles
            &&& forall|i: int|
                0 <= i < w.enemies.len() ==> #[trigger] after.enemies[i] == if alive(w.enemies[i])
                    && hit_at(hits, i) {
                    damaged(w.enemies[i], damage as int)
                } else {
                    w.enemies[i]
                }
        },
        table.info(projectile.projectile_type).speed_bits is Some ==> {
            let after = after_attack(w, table, id, projectile, launch_velocity, hits);
            &&& after.enemies == w.enemies
            &&& after.projectiles.len() == w.projectiles.len() + 1
            &&& after.projectiles.last().player_id == id
            &&& after.projectiles.last().projectile.origin == projectile.origin
            &&& after.projectiles.last().projectile.vel == launch_velocity
            &&& after.projectiles.last().remaining_penetrations == table.info(
                projectile.projectile_type,
            ).num_penetrations
        },
{
    let info = table.info(projectile.projectile_type);
    if info.speed_bits is None {
        lemma_strike_all_keeps_wf(w.enemies, hits, info.damage as int, None);
        lemma_strike_all_keeps_ids(w.enemies, hits, info.damage as int, None);
    }
}

/// An attack changes no enemy's id, so unique ids stay unique.
pub proof fn lemma_strike_all_keeps_ids(
    enemies: Seq<Enemy>,
    hits: Seq<bool>,
    damage: int,
    budget: Option<isize>,
)
    requires
        unique_enemy_ids(enemies),
    ensures
        unique_enemy_ids(strike_all(enemies, hits, damage, budget)),
{
    let after = strike_all(enemies, hits, damage, budget);
    assert forall|i: int, j: int| 0 <= i < j < after.len() implies (#[trigger] after[i]).enemy_id
        != (#[trigger] after[j]).enemy_id by {
        assert(enemies[i].enemy_id != enemies[j].enemy_id);
    }
}

/// The enemies stay valid under any number of projectiles, and each enemy
/// only declines: the list keeps its length, no enemy gains health or moves,
/// an enemy that was not alive is untouched and none comes back to life.
pub proof fn lemma_enemies_after(
    table: ProjectileTable,
    enemies: Seq<Enemy>,
    projectiles: Seq<PlayerProjectileView>,
    steps: Seq<ProjectileStepView>,
    k: int,
)
    requires
        table.wf(),
        enemies_wf(enemies),
        k <= projectiles.len(),
    ensures
        enemies_wf(enemies_after(table, enemies, projectiles, steps, k)),
        enemies_after(table, enemies, projectiles, steps, k).len() == enemies.len(),
        forall|i: int|
            0 <= i < enemies.len() ==> {
                let after = #[trigger] enemies_after(table, enemies, projectiles, steps, k)[i];
                &&& after.health <= enemies[i].health
                &&& after.enemy_id == enemies[i].enemy_id
                &&& after.position == enemies[i].position
                &&& (!alive(enemies[i]) ==> after == enemies[i])
                &&& (alive(after) ==> alive(enemies[i]))
            },
    decreases k,
{
    if k > 0 {
        lemma_enemies_after(table, enemies, projectiles, steps, k - 1);
        let met = enemies_after(table, enemies, projectiles, steps, k - 1);
        let hits = step_hits(steps, k - 1);
        let damage = damage_of(table, projectiles[k - 1]);
        let budget = projectiles[k - 1].remaining_penetrations;
        lemma_strike_all_keeps_wf(met, hits, damage, budget);
        assert forall|i: int| 0 <= i < enemies.len() implies {
            let after = #[trigger] enemies_after(table, enemies, projectiles, steps, k)[i];
            &&& after.health <= enemies[i].health
            &&& after.enemy_id == enemies[i].enemy_id
            &&& after.position == enemies[i].position
            &&& (!alive(enemies[i]) ==> after == enemies[i])
            &&& (alive(after) ==> alive(enemies[i]))
        } by {
            law_enemies_only_decline(met, hits, damage, budget, i);
            assert(met[i].health <= enemies[i].health);
        }
    }
}

/// A tick leaves a valid world valid. It touches no player, every enemy only
/// declines, and no projectile whose budget is used up is left in flight.
pub proof fn law_tick(
    w: GameStateView,
    table: ProjectileTable,
    now_ms: u64,
    steps: Seq<ProjectileStepView>,
)
    requires
        world_wf(w),
        table.wf(),
    ensures
        world_wf(after_tick(w, table, now_ms, steps)),
        after_tick(w, table, now_ms, steps).players == w.players,
        after_tick(w, table, now_ms, steps).enemies.len() == w.enemies.len(),
        after_tick(w, table, now_ms, steps).projectiles.len() <= w.projectiles.len(),
        forall|i: int|
            0 <= i < w.enemies.len() ==> {
                let after = #[trigger] after_tick(w, table, now_ms, steps).enemies[i];
                &&& after.health <= w.enemies[i].health
                &&& after.enemy_id == w.enemies[i].enemy_id
                &&& after.position == w.enemies[i].position
                &&& (!alive(w.enemies[i]) ==> after == w.enemies[i])
                &&& (alive(after) ==> alive(w.enemies[i]))
            },
        forall|j: int|
            0 <= j < after_tick(w, table, now_ms, steps).projectiles.len() ==> {
                let p = #[trigger] after_tick(w, table, now_ms, steps).projectiles[j];
                &&& in_flight(p)
                &&& p.projectile.origin.time_ms == now_ms
            },
{
    lemma_enemies_after(table, w.enemies, w.projectiles, steps, w.projectiles.len() as int);
    let after = after_tick(w, table, now_ms, steps).enemies;
    assert forall|i: int, j: int| 0 <= i < j < after.len() implies (#[trigger] after[i]).enemy_id
        != (#[trigger] after[j]).enemy_id by {
        assert(w.enemies[i].enemy_id != w.enemies[j].enemy_id);
    }
    let advanced = projectiles_advanced(table, w.enemies, w.projectiles, steps, now_ms);
    let keep = |p: PlayerProjectileView| in_flight(p);
    advanced.lemma_filter_len(keep);
    assert forall|j: int| 0 <= j < advanced.filter(keep).len() implies {
        let p = #[trigger] advanced.filter(keep)[j];
        &&& in_flight(p)
        &&& p.projectile.origin.time_ms == now_ms
    } by {
        advanced.lemma_filter_pred(keep, j);
        let p = advanced.filter(keep)[j];
        assert(advanced.filter(keep).contains(p));
        advanced.lemma_filter_contains_rev(keep, p);
        let k = choose|k: int| 0 <= k < advanced.len() && advanced[k] == p;
        assert(advanced[k].projectile.origin.time_ms == now_ms);
    }
}

/// Whether projectile `k` has nothing to do in a tick at `now_ms`: it is not
/// spent, no living enemy is flagged in its step, it stays where it is and it
/// already carries the time of the tick.
pub open spec fn idle_projectile(
    w: GameStateView,
    now_ms: u64,
    steps: Seq<ProjectileStepView>,
    k: int,
) -> bool {
    let p = w.projectiles[k];
    &&& in_flight(p)
    &&& p.projectile.origin.time_ms == now_ms
    &&& step_position(steps, k, p.projectile.origin.xy) == p.projectile.origin.xy
    &&& in_path_before(w.enemies, step_hits(steps, k), w.enemies.len() as int) == 0
}

/// A tick in which nothing happens changes nothing. If every projectile is
/// idle, the world after the tick is the world before it, and so is any
/// snapshot taken of it.
pub proof fn law_idle_tick(
    w: GameStateView,
    table: ProjectileTable,
    now_ms: u64,
    steps: Seq<ProjectileStepView>,
)
    requires
        forall|k: int| 0 <= k < w.projectiles.len() ==> #[trigger] idle_projectile(w, now_ms, steps, k),
    ensures
        after_tick(w, table, now_ms, steps) == w,
{
    let advanced = projectiles_advanced(table, w.enemies, w.projectiles, steps, now_ms);
    let keep = |p: PlayerProjectileView| in_flight(p);
    lemma_idle_enemies(w, table, now_ms, steps, w.projectiles.len() as int);
    assert forall|k: int| 0 <= k < w.projectiles.len() implies #[trigger] advanced[k]
        == w.projectiles[k] by {
        lemma_idle_enemies(w, table, now_ms, steps, k);
        assert(idle_projectile(w, now_ms, steps, k));
    }
    assert(advanced =~= w.projectiles);
    assert forall|k: int| 0 <= k < w.projectiles.len() implies keep(#[trigger] w.projectiles[k]) by {
        assert(idle_projectile(w, now_ms, steps, k));
    }
    lemma_filter_keeps_all(w.projectiles, keep);
    assert(after_tick(w, table, now_ms, steps).projectiles == w.projectiles);
}

/// While every projectile is idle, the enemies stay as they are.
proof fn lemma_idle_enemies(
    w: GameStateView,
    table: ProjectileTable,
    now_ms: u64,
    steps: Seq<ProjectileStepView>,
    k: int,
)
    requires
        k <= w.projectiles.len(),
        forall|j: int| 0 <= j < w.projectiles.len() ==> #[trigger] idle_projectile(w, now_ms, steps, j),
    ensures
        enemies_after(table, w.enemies, w.projectiles, steps, k) == w.enemies,
    decreases k,
{
    if k > 0 {
        lemma_idle_enemies(w, table, now_ms, steps, k - 1);
        let hits = step_hits(steps, k - 1);
        let budget = w.projectiles[k - 1].remaining_penetrations;
        let damage = damage_of(table, w.projectiles[k - 1]);
        assert(idle_projectile(w, now_ms, steps, k - 1));
        assert forall|i: int| 0 <= i < w.enemies.len() implies !struck(
            w.enemies,
            hits,
            budget,
            i,
        ) by {
            lemma_in_path_before_monotone(w.enemies, hits, i + 1, w.enemies.len() as int);
        }
        assert(strike_all(w.enemies, hits, damage, budget) =~= w.enemies);
    }
}

/// A filter that every element passes keeps the sequence as it is.
proof fn lemma_filter_keeps_all<A>(s: Seq<A>, keep: spec_fn(A) -> bool)
    requires
        forall|i: int| 0 <= i < s.len() ==> keep(#[trigger] s[i]),
    ensures
        s.filter(keep) == s,
    decreases s.len(),
{
    reveal(Seq::filter);
    if s.len() > 0 {
        lemma_filter_keeps_all(s.drop_last(), keep);
        assert(s.drop_last().push(s.last()) =~= s);
    }
}

} // verus!
