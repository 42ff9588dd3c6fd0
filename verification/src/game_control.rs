//! The game controller: sole owner of the world state. Every change to the
//! world goes through one of its methods, and each method does to the world
//! what the rules of the world say.

use vstd::prelude::*;
use vstd::string::*;
use crate::api_types::{
    standard_table, AuthorizationStatus, ClientUpdate, ConnectionStatus, Enemy, EnemyStatus,
    GameState, GameStateView, Health, Player, PlayerId, PlayerProjectile, PlayerProjectileView,
    PositionStamped, ProjectileSnaphot, ProjectileTable, Vec2,
};
use crate::combat::{enemies_wf, strike_enemies};
use crate::geography::GameMap;
use crate::world::{
    after_attack, after_connect, after_disconnect, after_position_update, after_tick, after_update,
    connect_rejected, duplicate_connect_message, enemies_after, fresh_player, in_flight, index_of,
    known, lemma_index_of_unique, projectile_after, projectiles_advanced, rejection_message,
    spawn_status, step_hits, step_position, steps_view, unknown_player_message, update_rejected,
    with_position, with_status, world_wf, after_spawn, duplicate_enemy_message, enemy_known, law_tick,
    lemma_strike_all_keeps_ids,
};

verus! {

/// What becomes of a player's record when the player disconnects.
#[derive(Clone, Copy, Debug, PartialEq, Eq, Structural)]
pub enum IdentityRetention {
    /// Ids are handed out per connection and never seen again: the record is
    /// removed.
    Discard,
    /// Ids outlive connections: the record stays, marked disconnected, and a
    /// later connect with the same id takes it up again.
    Keep,
}

/// What the geometry layer worked out for one attack before it is handled:
/// the velocity a projectile would leave with, and for a hitscan attack one
/// flag per enemy, set where the ray meets the enemy within reach.
#[derive(Clone, Debug, PartialEq, Eq)]
pub struct AttackGeometry {
    /// The attack's direction, normalised and scaled to the speed of its type.
    pub launch_velocity: Vec2,
    pub hits: Vec<bool>,
}

/// What the geometry layer worked out for one projectile in flight before a
/// tick: where the projectile stands once it has moved, and one flag per
/// enemy, set where the projectile's ray meets the enemy.
#[derive(Clone, Debug, PartialEq, Eq)]
pub struct ProjectileStep {
    pub moved_to: Vec2,
    pub hits: Vec<bool>,
}

/// A step with its flags as a mathematical sequence.
pub struct ProjectileStepView {
    pub moved_to: Vec2,
    pub hits: Seq<bool>,
}

impl View for ProjectileStep {
    type V = ProjectileStepView;

    open spec fn view(&self) -> ProjectileStepView {
        ProjectileStepView { moved_to: self.moved_to, hits: self.hits@ }
    }
}

/// Finds the record with the given id.
fn find_player_index(players: &Vec<Player>, id: &PlayerId) -> (r: Option<usize>)
    ensures
        match r {
            Some(i) => i < players.len() && players@[i as int].id@ == id@,
            None => forall|j: int| 0 <= j < players.len() ==> (#[trigger] players@[j]).id@ != id@,
        },
{
    let mut i: usize = 0;
    while i < players.len()
        invariant
            0 <= i <= players.len(),
            forall|j: int| 0 <= j < i ==> (#[trigger] players@[j]).id@ != id@,
        decreases players.len() - i,
    {
        if players[i].id == *id {
            return Some(i);
        }
        i = i + 1;
    }
    None
}

/// The error for an intent from a player who is not on record.
fn unknown_player_error(id: &PlayerId) -> (msg: String)
    ensures
        msg@ == unknown_player_message(id@),
{
    let mut msg = String::from_str("no player with id [");
    msg.append(id.as_str());
    msg.append("]");
    msg
}

/// The simulation core. It owns the world state; nothing else reads or
/// writes it but through the methods here. Every constructor returns a valid
/// controller and every method keeps it valid, so whoever holds a controller
/// from outside this crate holds a valid one.
#[derive(Debug)]
pub struct GameController {
    state: GameState,
    map: GameMap,
    retention: IdentityRetention,
    table: ProjectileTable,
}

impl GameController {
    /// The world as the controller holds it.
    pub closed spec fn world(&self) -> GameStateView {
        self.state@
    }

    /// The retention policy the controller was made with.
    pub closed spec fn retention(&self) -> IdentityRetention {
        self.retention
    }

    /// The map the controller was made with.
    pub closed spec fn map(&self) -> GameMap {
        self.map
    }

    /// The content table the controller looks attacks up in.
    pub closed spec fn table(&self) -> ProjectileTable {
        self.table
    }

    /// The controller's world is valid and no attack in its table heals.
    pub open spec fn wf(&self) -> bool {
        world_wf(self.world()) && self.table().wf()
    }

    /// The controller is set up as `before` was: same map, same retention
    /// policy, same content table.
    pub open spec fn keeps_setup(&self, before: &GameController) -> bool {
        self.map() == before.map() && self.retention() == before.retention() && self.table()
            == before.table()
    }

    /// A controller over an empty world, with the standard content table.
    pub fn new(map: GameMap, retention: IdentityRetention) -> (c: GameController)
        ensures
            c.wf(),
            c.world().players.len() == 0,
            c.world().enemies.len() == 0,
            c.world().projectiles.len() == 0,
            c.map() == map,
            c.retention() == retention,
            c.table() == standard_table(),
    {
        GameController {
            state: GameState { players: Vec::new(), enemies: Vec::new(), projectiles: Vec::new() },
            map: map,
            retention: retention,
            table: ProjectileTable::standard(),
        }
    }

    /// A controller over an empty world, with a content table of the
    /// caller's. A table in which an attack heals is refused.
    pub fn with_table(map: GameMap, retention: IdentityRetention, table: ProjectileTable) -> (r:
        Option<GameController>)
        ensures
            r is Some <==> table.wf(),
            r matches Some(c) ==> {
                &&& c.wf()
                &&& c.world().players.len() == 0
                &&& c.world().enemies.len() == 0
                &&& c.world().projectiles.len() == 0
                &&& c.map() == map
                &&& c.retention() == retention
                &&& c.table() == table
            },
    {
        if table.is_valid() {
            Some(
                GameController {
                    state: GameState {
                        players: Vec::new(),
                        enemies: Vec::new(),
                        projectiles: Vec::new(),
                    },
                    map: map,
                    retention: retention,
                    table: table,
                },
            )
        } else {
            None
        }
    }

    /// Handles a connect. A player never seen before gets a fresh record; a
    /// disconnected player is connected again under the same record; a player
    /// who is already connected is refused, and nothing changes.
    pub fn try_connect_player(&mut self, id: PlayerId) -> (r: Result<(), String>)
        requires
            old(self).wf(),
        ensures
            final(self).wf(),
            final(self).keeps_setup(old(self)),
            final(self).world() == after_connect(old(self).world(), id@),
            r is Err <==> connect_rejected(old(self).world(), id@),
            r matches Err(msg) ==> msg@ == duplicate_connect_message(id@),
    {
        let ghost w = self.world();
        match find_player_index(&self.state.players, &id) {
            Some(i) => {
                proof {
                    lemma_index_of_unique(w.players, id@, i as int);
                }
                match self.state.players[i].connection_status {
                    ConnectionStatus::Disconnected => {
                        let p = &self.state.players[i];
                        let reconnected = Player {
                            id: p.id.clone(),
                            position: p.position,
                            connection_status: ConnectionStatus::Connected,
                            authr_status: p.authr_status,
                        };
                        self.state.players.set(i, reconnected);
                        proof {
                            assert(self.world().players =~= w.players.update(
                                i as int,
                                with_status(w.players[i as int], ConnectionStatus::Connected),
                            ));
                        }
                        Ok(())
                    },
                    _ => {
                        let mut msg = String::from_str("cannot have duplicate client addresses, got [");
                        msg.append(id.as_str());
                        msg.append("]");
                        Err(msg)
                    },
                }
            },
            None => {
                proof {
                    assert(!known(w.players, id@));
                }
                self.state.players.push(
                    Player {
                        id: id,
                        position: PositionStamped { xy: Vec2 { x_bits: 0, y_bits: 0 }, time_ms: 0 },
                        connection_status: ConnectionStatus::Connected,
                        authr_status: AuthorizationStatus::GoodStanding,
                    },
                );
                proof {
                    assert(self.world().players =~= w.players.push(fresh_player(id@)));
                }
                Ok(())
            },
        }
    }

    /// Handles a disconnect. The record of the player is removed or marked
    /// disconnected, as the retention policy says. A player who is not on
    /// record is refused, and nothing changes.
    pub fn disconnect_player(&mut self, id: PlayerId) -> (r: Result<(), String>)
        requires
            old(self).wf(),
        ensures
            final(self).wf(),
            final(self).keeps_setup(old(self)),
            final(self).world() == after_disconnect(old(self).world(), old(self).retention(), id@),
            r is Err <==> !known(old(self).world().players, id@),
            r matches Err(msg) ==> msg@ == unknown_player_message(id@),
    {
        let ghost w = self.world();
        match find_player_index(&self.state.players, &id) {
            Some(i) => {
                proof {
                    lemma_index_of_unique(w.players, id@, i as int);
                }
                match self.retention {
                    IdentityRetention::Discard => {
                        self.state.players.remove(i);
                        proof {
                            assert(self.world().players =~= w.players.remove(i as int));
                        }
                    },
                    IdentityRetention::Keep => {
                        let p = &self.state.players[i];
                        let parted = Player {
                            id: p.id.clone(),
                            position: p.position,
                            connection_status: ConnectionStatus::Disconnected,
                            authr_status: p.authr_status,
                        };
                        self.state.players.set(i, parted);
                        proof {
                            assert(self.world().players =~= w.players.update(
                                i as int,
                                with_status(w.players[i as int], ConnectionStatus::Disconnected),
                            ));
                        }
                    },
                }
                Ok(())
            },
            None => {
                proof {
                    assert(!known(w.players, id@));
                }
                Err(unknown_player_error(&id))
            },
        }
    }

    /// Overwrites the position of a player, whatever the new position is. A
    /// player who is not on record is refused, and nothing changes.
    pub fn update_position(&mut self, id: PlayerId, position: PositionStamped) -> (r: Result<
        (),
        String,
    >)
        requires
            old(self).wf(),
        ensures
            final(self).wf(),
            final(self).keeps_setup(old(self)),
            final(self).world() == after_position_update(old(self).world(), id@, position),
            r is Err <==> !known(old(self).world().players, id@),
            r matches Err(msg) ==> msg@ == unknown_player_message(id@),
    {
        let ghost w = self.world();
        match find_player_index(&self.state.players, &id) {
            Some(i) => {
                proof {
                    lemma_index_of_unique(w.players, id@, i as int);
                }
                let p = &self.state.players[i];
                let moved = Player {
                    id: p.id.clone(),
                    position: position,
                    connection_status: p.connection_status,
                    authr_status: p.authr_status,
                };
                self.state.players.set(i, moved);
                proof {
                    assert(self.world().players =~= w.players.update(
                        i as int,
                        with_position(w.players[i as int], position),
                    ));
                }
                Ok(())
            },
            None => {
                proof {
                    assert(!known(w.players, id@));
                }
                Err(unknown_player_error(&id))
            },
        }
    }

    /// The record of a player, if the player is on record.
    pub fn get_player(&self, id: &PlayerId) -> (r: Option<&Player>)
        requires
            self.wf(),
        ensures
            r is Some <==> known(self.world().players, id@),
            r matches Some(p) ==> p@ == self.world().players[index_of(self.world().players, id@)],
    {
        match find_player_index(&self.state.players, id) {
            Some(i) => {
                proof {
                    lemma_index_of_unique(self.world().players, id@, i as int);
                }
                Some(&self.state.players[i])
            },
            None => {
                proof {
                    assert(!known(self.world().players, id@));
                }
                None
            },
        }
    }

    /// Puts a new enemy at the end of the enemy list. It is alive if it has
    /// health above zero and dead otherwise. An id that an enemy in the
    /// world already has is refused, and nothing changes.
    pub fn spawn_enemy(&mut self, enemy_id: isize, position: PositionStamped, health: Health) -> (r:
        Result<(), String>)
        requires
            old(self).wf(),
        ensures
            final(self).wf(),
            final(self).keeps_setup(old(self)),
            final(self).world() == after_spawn(old(self).world(), enemy_id, position, health),
            r is Err <==> enemy_known(old(self).world().enemies, enemy_id),
            r matches Err(msg) ==> msg@ == duplicate_enemy_message(),
    {
        let mut i: usize = 0;
        while i < self.state.enemies.len()
            invariant
                0 <= i <= self.state.enemies.len(),
                *self == *old(self),
                self.wf(),
                forall|j: int| 0 <= j < i ==> (#[trigger] self.state.enemies@[j]).enemy_id != enemy_id,
            decreases self.state.enemies.len() - i,
        {
            if self.state.enemies[i].enemy_id == enemy_id {
                return Err(String::from_str("enemy id is already in use"));
            }
            i = i + 1;
        }
        let status = if health > 0 {
            EnemyStatus::Alive
        } else {
            EnemyStatus::Dead
        };
        self.state.enemies.push(
            Enemy { enemy_id: enemy_id, position: position, health: health, status: status },
        );
        Ok(())
    }

    /// Handles a new attack. A hitscan attack is resolved at once: every
    /// living enemy whose flag in `geometry.hits` is set takes the damage of
    /// the attack's type and dies once its health is zero or less. Any other
    /// attack is put in flight with `geometry.launch_velocity` and the
    /// penetration budget of its type.
    pub fn handle_projectile_created(
        &mut self,
        id: PlayerId,
        projectile: ProjectileSnaphot,
        geometry: &AttackGeometry,
    )
        requires
            old(self).wf(),
        ensures
            final(self).wf(),
            final(self).keeps_setup(old(self)),
            final(self).world() == after_attack(
                old(self).world(),
                old(self).table(),
                id@,
                projectile,
                geometry.launch_velocity,
                geometry.hits@,
            ),
    {
        let ghost w = self.world();
        let info = self.table.lookup(projectile.projectile_type);
        match info.speed_bits {
            Some(_) => {
                self.state.projectiles.push(
                    PlayerProjectile {
                        player_id: id,
                        projectile: ProjectileSnaphot {
                            projectile_type: projectile.projectile_type,
                            origin: projectile.origin,
                            vel: geometry.launch_velocity,
                        },
                        remaining_penetrations: info.num_penetrations,
                    },
                );
                proof {
                    assert(self.world().projectiles =~= after_attack(
                        w,
                        self.table,
                        id@,
                        projectile,
                        geometry.launch_velocity,
                        geometry.hits@,
                    ).projectiles);
                }
            },
            None => {
                strike_enemies(&mut self.state.enemies, &geometry.hits, info.damage, None);
                proof {
                    lemma_strike_all_keeps_ids(w.enemies, geometry.hits@, info.damage as int, None);
                }
            },
        }
    }

    /// Applies one intent to the world. Connects, disconnects and position
    /// updates follow the rules of their own methods, and an attack those of
    /// `handle_projectile_created`, for which alone `geometry` is read.
    pub fn handle_player_update(
        &mut self,
        id: PlayerId,
        update: ClientUpdate,
        geometry: &AttackGeometry,
    ) -> (r: Result<(), String>)
        requires
            old(self).wf(),
        ensures
            final(self).wf(),
            final(self).keeps_setup(old(self)),
            final(self).world() == after_update(
                old(self).world(),
                old(self).table(),
                old(self).retention(),
                id@,
                update,
                geometry.launch_velocity,
                geometry.hits@,
            ),
            r is Err <==> update_rejected(old(self).world(), id@, update),
            r matches Err(msg) ==> msg@ == rejection_message(id@, update),
    {
        match update {
            ClientUpdate::PlayerConnected(_) => self.try_connect_player(id),
            ClientUpdate::PlayerDisconnected(_) => self.disconnect_player(id),
            ClientUpdate::PositionUpdate(position) => self.update_position(id, position),
            ClientUpdate::ProjectileCreated(projectile) => {
                self.handle_projectile_created(id, projectile, geometry);
                Ok(())
            },
        }
    }

    /// Runs the projectile step of one tick at time `now_ms`. Each projectile
    /// in list order strikes the living enemies flagged in its step while its
    /// penetration budget lasts, then stands at the step's position with the
    /// time `now_ms`. A struck enemy loses the damage of the projectile's type
    /// and dies once its health is zero or less. At the end the projectiles
    /// whose budget is used up leave the world. A projectile for which
    /// `steps` holds no step hits nothing and stays where it is.
    pub fn progress_projectiles(&mut self, now_ms: u64, steps: &Vec<ProjectileStep>) -> (r: Result<
        (),
        String,
    >)
        requires
            old(self).wf(),
        ensures
            r is Ok,
            final(self).wf(),
            final(self).keeps_setup(old(self)),
            final(self).world() == after_tick(
                old(self).world(),
                old(self).table(),
                now_ms,
                steps_view(steps@),
            ),
    {
        let ghost w = self.world();
        let ghost sv = steps_view(steps@);
        let ghost keep = |p: PlayerProjectileView| in_flight(p);
        let ghost table = self.table;
        let ghost advanced = projectiles_advanced(table, w.enemies, w.projectiles, sv, now_ms);
        let no_hits: Vec<bool> = Vec::new();
        let mut kept: Vec<PlayerProjectile> = Vec::new();
        let count = self.state.projectiles.len();
        let mut k: usize = 0;
        proof {
            reveal(Seq::filter);
            assert(advanced.take(0).filter(keep) =~= Seq::<PlayerProjectileView>::empty());
        }
        while k < count
            invariant
                0 <= k <= count,
                count == w.projectiles.len(),
                sv == steps_view(steps@),
                no_hits@.len() == 0,
                keep == (|p: PlayerProjectileView| in_flight(p)),
                advanced == projectiles_advanced(table, w.enemies, w.projectiles, sv, now_ms),
                table == self.table,
                table == old(self).table,
                table.wf(),
                self.map == old(self).map,
                self.retention == old(self).retention,
                self.state.players == old(self).state.players,
                self.state.projectiles == old(self).state.projectiles,
                w == old(self).world(),
                self.state.enemies@ == enemies_after(table, w.enemies, w.projectiles, sv, k as int),
                enemies_wf(self.state.enemies@),
                kept@.map_values(|p: PlayerProjectile| p@) == advanced.take(k as int).filter(keep),
            decreases count - k,
        {
            let ghost met = self.state.enemies@;
            let p = &self.state.projectiles[k];
            let info = self.table.lookup(p.projectile.projectile_type);
            let hits = if k < steps.len() {
                &steps[k].hits
            } else {
                &no_hits
            };
            let moved_to = if k < steps.len() {
                steps[k].moved_to
            } else {
                p.projectile.origin.xy
            };
            let budget = p.remaining_penetrations;
            let owner = p.player_id.clone();
            let kind = p.projectile.projectile_type;
            let vel = p.projectile.vel;
            proof {
                assert(w.projectiles[k as int] == self.state.projectiles@[k as int]@);
                assert(hits@ =~= step_hits(sv, k as int));
                assert(moved_to == step_position(sv, k as int, w.projectiles[k as int].projectile.origin.xy));
            }
            let left = strike_enemies(&mut self.state.enemies, hits, info.damage, budget);
            let spent = match left {
                Some(b) => b <= 0,
                None => false,
            };
            let after = PlayerProjectile {
                player_id: owner,
                projectile: ProjectileSnaphot {
                    projectile_type: kind,
                    origin: PositionStamped { xy: moved_to, time_ms: now_ms },
                    vel: vel,
                },
                remaining_penetrations: left,
            };
            proof {
                assert(after@ == projectile_after(
                    table,
                    w.enemies,
                    w.projectiles,
                    sv,
                    now_ms,
                    k as int,
                ));
                assert(after@ == advanced[k as int]);
                assert(spent == !keep(after@));
                reveal(Seq::filter);
                assert(advanced.take(k as int + 1).drop_last() =~= advanced.take(k as int));
                assert(advanced.take(k as int + 1).last() == advanced[k as int]);
            }
            if !spent {
                kept.push(after);
                proof {
                    assert(kept@.map_values(|p: PlayerProjectile| p@) =~= advanced.take(
                        k as int,
                    ).filter(keep).push(advanced[k as int]));
                }
            }
            k = k + 1;
        }
        proof {
            assert(advanced.take(count as int) =~= advanced);
            law_tick(w, table, now_ms, sv);
        }
        self.state.projectiles = kept;
        Ok(())
    }

    /// The world, for a snapshot. Reading it changes nothing, so two
    /// snapshots with nothing in between show the same world.
    pub fn state(&self) -> (s: &GameState)
        ensures
            s@ == self.world(),
    {
        &self.state
    }

    /// The map the controller was made with.
    pub fn game_map(&self) -> (m: GameMap)
        ensures
            m == self.map(),
    {
        self.map
    }

    /// The content table the controller looks attacks up in.
    pub fn projectile_table(&self) -> (t: ProjectileTable)
        ensures
            t == self.table(),
    {
        self.table
    }

    /// The retention policy the controller was made with.
    pub fn identity_retention(&self) -> (r: IdentityRetention)
        ensures
            r == self.retention(),
    {
        self.retention
    }

}

} // verus!
