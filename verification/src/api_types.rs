//! The data the simulation core holds and exchanges: positions, players,
//! enemies, projectiles, client intents and server notices.
//!
//! World coordinates are single-precision numbers. The core never computes
//! with them; it stores and hands on their IEEE-754 bit patterns, and the
//! embedding program does the geometry.

use vstd::prelude::*;

verus! {

/// Identifier of a player, already resolved by the connection layer.
pub type PlayerId = String;

/// Hit points of an enemy.
pub type Health = isize;

/// A pair of single-precision numbers, each held by its bit pattern.
#[derive(Clone, Copy, Debug, PartialEq, Eq, Structural, Hash)]
pub struct Vec2 {
    pub x_bits: u32,
    pub y_bits: u32,
}

/// A position and the instant, in milliseconds, at which it was valid.
#[derive(Clone, Copy, Debug, PartialEq, Eq, Structural, Hash)]
pub struct PositionStamped {
    pub xy: Vec2,
    pub time_ms: u64,
}

/// The kinds of attack a client can make.
#[derive(Clone, Copy, Debug, PartialEq, Eq, Structural, Hash)]
pub enum ProjectileType {
    HitScan0,
    Projectile0,
}

/// An attack as the client reports it: where it starts and where it points.
#[derive(Clone, Copy, Debug, PartialEq, Eq, Structural, Hash)]
pub struct ProjectileSnaphot {
    pub projectile_type: ProjectileType,
    /// Where the attack starts, at the end of the gun barrel.
    pub origin: PositionStamped,
    /// Direction of the attack; for a projectile in flight, its velocity.
    pub vel: Vec2,
}

/// What is fixed for every attack of one type.
#[derive(Clone, Copy, Debug, PartialEq, Eq, Structural, Hash)]
pub struct ProjectileInfo {
    /// Bit pattern of the speed; `None` marks a hitscan attack, which is
    /// resolved the moment it is made.
    pub speed_bits: Option<u32>,
    pub damage: Health,
    /// Number of enemies one projectile may damage; `None` means any number.
    pub num_penetrations: Option<isize>,
}

/// What is fixed for the attacks of every type: the content table that the
/// controller looks attacks up in. It is read and never changed.
#[derive(Clone, Copy, Debug, PartialEq, Eq, Structural, Hash)]
pub struct ProjectileTable {
    pub hit_scan0: ProjectileInfo,
    pub projectile0: ProjectileInfo,
}

impl ProjectileTable {
    /// The row of `projectile_type`.
    pub open spec fn info(self, projectile_type: ProjectileType) -> ProjectileInfo {
        match projectile_type {
            ProjectileType::HitScan0 => self.hit_scan0,
            ProjectileType::Projectile0 => self.projectile0,
        }
    }

    /// No attack heals: every damage is zero or more.
    pub open spec fn wf(self) -> bool {
        self.hit_scan0.damage >= 0 && self.projectile0.damage >= 0
    }

    /// Whether no attack heals.
    pub fn is_valid(&self) -> (b: bool)
        ensures
            b == self.wf(),
    {
        self.hit_scan0.damage >= 0 && self.projectile0.damage >= 0
    }

    /// The standard table: a hitscan attack of damage 1, and a projectile of
    /// speed 2 and damage 10; each may damage one enemy.
    pub fn standard() -> (t: ProjectileTable)
        ensures
            t == standard_table(),
            t.wf(),
    {
        ProjectileTable {
            hit_scan0: ProjectileInfo { speed_bits: None, damage: 1, num_penetrations: Some(1) },
            projectile0: ProjectileInfo {
                speed_bits: Some(0x4000_0000),
                damage: 10,
                num_penetrations: Some(1),
            },
        }
    }

    /// Looks up the row of `projectile_type`.
    pub fn lookup(&self, projectile_type: ProjectileType) -> (info: ProjectileInfo)
        ensures
            info == self.info(projectile_type),
    {
        match projectile_type {
            ProjectileType::HitScan0 => self.hit_scan0,
            ProjectileType::Projectile0 => self.projectile0,
        }
    }
}

/// The standard table.
pub open spec fn standard_table() -> ProjectileTable {
    ProjectileTable {
        hit_scan0: ProjectileInfo { speed_bits: None, damage: 1, num_penetrations: Some(1) },
        projectile0: ProjectileInfo {
            speed_bits: Some(0x4000_0000),
            damage: 10,
            num_penetrations: Some(1),
        },
    }
}

/// Looks up the row of `projectile_type` in the standard table.
pub fn lookup_projectile_info(projectile_type: ProjectileType) -> (info: ProjectileInfo)
    ensures
        info == standard_table().info(projectile_type),
{
    ProjectileTable::standard().lookup(projectile_type)
}

impl PositionStamped {
    /// Milliseconds from this stamp to `now_ms`; zero for a stamp that lies
    /// after `now_ms`.
    pub open spec fn spec_elapsed_ms(self, now_ms: u64) -> u64 {
        if now_ms >= self.time_ms {
            (now_ms - self.time_ms) as u64
        } else {
            0
        }
    }

    /// The time that has passed since this stamp at `now_ms`, in
    /// milliseconds. A stamp from the future counts as no time passed, so
    /// that nothing ever moves backwards.
    pub fn elapsed_ms(&self, now_ms: u64) -> (ms: u64)
        ensures
            ms == self.spec_elapsed_ms(now_ms),
    {
        if now_ms >= self.time_ms {
            now_ms - self.time_ms
        } else {
            0
        }
    }
}

/// Whether a player's connection is open.
#[derive(Clone, Copy, Debug, PartialEq, Eq, Structural, Hash)]
pub enum ConnectionStatus {
    Unspecified,
    Connected,
    Disconnected,
}

/// Standing of a player with the server.
#[derive(Clone, Copy, Debug, PartialEq, Eq, Structural, Hash)]
pub enum AuthorizationStatus {
    Unspecified,
    GoodStanding,
    FoulPlayDetected,
}

/// Whether an enemy can still be hit.
#[derive(Clone, Copy, Debug, PartialEq, Eq, Structural, Hash)]
pub enum EnemyStatus {
    Unspecified,
    Alive,
    Dead,
}

/// A player known to the server.
#[derive(Clone, Debug, PartialEq, Eq)]
pub struct Player {
    pub id: PlayerId,
    pub position: PositionStamped,
    pub connection_status: ConnectionStatus,
    pub authr_status: AuthorizationStatus,
}

/// A player with its identifier as a sequence of characters.
pub struct PlayerView {
    pub id: Seq<char>,
    pub position: PositionStamped,
    pub connection_status: ConnectionStatus,
    pub authr_status: AuthorizationStatus,
}

impl View for Player {
    type V = PlayerView;

    open spec fn view(&self) -> PlayerView {
        PlayerView {
            id: self.id@,
            position: self.position,
            connection_status: self.connection_status,
            authr_status: self.authr_status,
        }
    }
}

/// An enemy in the world.
#[derive(Clone, Copy, Debug, PartialEq, Eq, Structural, Hash)]
pub struct Enemy {
    pub enemy_id: isize,
    pub position: PositionStamped,
    pub health: Health,
    pub status: EnemyStatus,
}

/// A projectile in flight, with the player who fired it and the number of
/// enemies it may still damage (`None`: any number).
#[derive(Clone, Debug, PartialEq, Eq)]
pub struct PlayerProjectile {
    pub player_id: PlayerId,
    pub projectile: ProjectileSnaphot,
    pub remaining_penetrations: Option<isize>,
}

/// A projectile in flight with its owner as a sequence of characters.
pub struct PlayerProjectileView {
    pub player_id: Seq<char>,
    pub projectile: ProjectileSnaphot,
    pub remaining_penetrations: Option<isize>,
}

impl View for PlayerProjectile {
    type V = PlayerProjectileView;

    open spec fn view(&self) -> PlayerProjectileView {
        PlayerProjectileView {
            player_id: self.player_id@,
            projectile: self.projectile,
            remaining_penetrations: self.remaining_penetrations,
        }
    }
}

/// The whole world: players in the order they first connected, enemies and
/// projectiles in flight.
#[derive(Clone, Debug, PartialEq, Eq)]
pub struct GameState {
    pub players: Vec<Player>,
    pub enemies: Vec<Enemy>,
    pub projectiles: Vec<PlayerProjectile>,
}

/// The world as mathematical sequences.
pub struct GameStateView {
    pub players: Seq<PlayerView>,
    pub enemies: Seq<Enemy>,
    pub projectiles: Seq<PlayerProjectileView>,
}

impl View for GameState {
    type V = GameStateView;

    open spec fn view(&self) -> GameStateView {
        GameStateView {
            players: self.players@.map_values(|p: Player| p@),
            enemies: self.enemies@,
            projectiles: self.projectiles@.map_values(|p: PlayerProjectile| p@),
        }
    }
}

/// An intent placed on the controller's queue. The two connection variants
/// are made by the connection layer and never sent by a client.
#[derive(Clone, Copy, Debug, PartialEq, Eq, Hash)]
pub enum ClientUpdate {
    PositionUpdate(PositionStamped),
    ProjectileCreated(ProjectileSnaphot),
    PlayerConnected(()),
    PlayerDisconnected(()),
}

/// Payload of the notices about one player.
#[derive(Clone, Debug, PartialEq, Eq)]
pub struct PlayerIdMessage {
    pub player_id: PlayerId,
}

/// A notice the server sends outside the snapshot broadcast.
#[derive(Clone, Debug, PartialEq, Eq)]
pub enum ServerUpdate {
    YourPlayerId(PlayerIdMessage),
    PlayerDisconnected(PlayerIdMessage),
}

} // verus!
