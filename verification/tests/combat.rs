use game_server::api_types::{
    ClientUpdate, Enemy, EnemyStatus, PositionStamped, ProjectileInfo, ProjectileSnaphot,
    ProjectileTable, ProjectileType, Vec2,
};
use game_server::combat::strike_enemies;
use game_server::game_control::{AttackGeometry, GameController, IdentityRetention, ProjectileStep};
use game_server::geography::GameMap;
use nalgebra::{Isometry2, Point2, Vector2};
use ncollide2d::bounding_volume::AABB;
use ncollide2d::query::{Ray, RayCast};

fn bits(v: Vector2<f32>) -> Vec2 {
    Vec2 { x_bits: v.x.to_bits(), y_bits: v.y.to_bits() }
}

fn vector(v: Vec2) -> Vector2<f32> {
    Vector2::new(f32::from_bits(v.x_bits), f32::from_bits(v.y_bits))
}

fn at(x: f32, y: f32, time_ms: u64) -> PositionStamped {
    PositionStamped { xy: bits(Vector2::new(x, y)), time_ms }
}

fn ray_meets(origin: Vec2, direction: Vec2, target: Vec2, reach: f32) -> bool {
    let boundary = AABB::from_half_extents(Point2::from(vector(target)), Vector2::new(0.5, 0.5));
    let ray = Ray::new(Point2::from(vector(origin)), vector(direction).normalize());
    boundary.intersects_ray(&Isometry2::identity(), &ray, reach)
}

fn scan(c: &GameController, shot: &ProjectileSnaphot) -> AttackGeometry {
    let reach = c.game_map().max_dimension as f32;
    let speed = c.projectile_table().lookup(shot.projectile_type).speed_bits;
    let launch_velocity = match speed {
        Some(s) => bits(vector(shot.vel).normalize().scale(f32::from_bits(s))),
        None => shot.vel,
    };
    let hits = c
        .state()
        .enemies
        .iter()
        .map(|e| ray_meets(shot.origin.xy, shot.vel, e.position.xy, reach))
        .collect();
    AttackGeometry { launch_velocity, hits }
}

fn steps(c: &GameController, now_ms: u64) -> Vec<ProjectileStep> {
    c.state()
        .projectiles
        .iter()
        .map(|p| {
            let secs = p.projectile.origin.elapsed_ms(now_ms) as f32 / 1000.0;
            let movement = vector(p.projectile.vel) * secs;
            let hits = c
                .state()
                .enemies
                .iter()
                .map(|e| {
                    movement.norm() > 0.0
                        && ray_meets(
                            p.projectile.origin.xy,
                            p.projectile.vel,
                            e.position.xy,
                            movement.norm(),
                        )
                })
                .collect();
            ProjectileStep { moved_to: bits(vector(p.projectile.origin.xy) + movement), hits }
        })
        .collect()
}

fn enemy(id: isize, x: f32, y: f32, health: isize) -> Enemy {
    Enemy { enemy_id: id, position: at(x, y, 0), health, status: EnemyStatus::Alive }
}

fn heavy_hitscan_table() -> ProjectileTable {
    ProjectileTable {
        hit_scan0: ProjectileInfo { speed_bits: None, damage: 10, num_penetrations: Some(1) },
        projectile0: ProjectileTable::standard().projectile0,
    }
}

#[test]
fn hitscan_kills_in_the_same_dispatch() {
    let map = GameMap { max_dimension: 100 };
    let mut c =
        GameController::with_table(map, IdentityRetention::Discard, heavy_hitscan_table()).unwrap();
    assert_eq!(c.spawn_enemy(1, at(0.0, 0.0, 0), 10), Ok(()));
    let shot = ProjectileSnaphot {
        projectile_type: ProjectileType::HitScan0,
        origin: at(-10.0, 0.0, 0),
        vel: bits(Vector2::new(1.0, 0.0)),
    };
    let geometry = scan(&c, &shot);
    assert_eq!(geometry.hits, vec![true]);
    let r = c.handle_player_update("p".to_string(), ClientUpdate::ProjectileCreated(shot), &geometry);
    assert_eq!(r, Ok(()));
    assert_eq!(c.state().enemies[0].health, 0);
    assert_eq!(c.state().enemies[0].status, EnemyStatus::Dead);
    assert!(c.state().projectiles.is_empty());
}

#[test]
fn standard_hitscan_takes_one_point() {
    let mut c = GameController::new(GameMap { max_dimension: 100 }, IdentityRetention::Discard);
    assert_eq!(c.spawn_enemy(1, at(0.0, 0.0, 0), 10), Ok(()));
    assert_eq!(c.spawn_enemy(2, at(0.0, 5.0, 0), 1), Ok(()));
    assert_eq!(c.spawn_enemy(3, at(4.0, 0.2, 0), 1), Ok(()));
    let shot = ProjectileSnaphot {
        projectile_type: ProjectileType::HitScan0,
        origin: at(-10.0, 0.0, 0),
        vel: bits(Vector2::new(3.0, 0.0)),
    };
    let geometry = scan(&c, &shot);
    assert_eq!(geometry.hits, vec![true, false, true]);
    c.handle_projectile_created("p".to_string(), shot, &geometry);
    let e = &c.state().enemies;
    assert_eq!((e[0].health, e[0].status), (9, EnemyStatus::Alive));
    assert_eq!((e[1].health, e[1].status), (1, EnemyStatus::Alive));
    assert_eq!((e[2].health, e[2].status), (0, EnemyStatus::Dead));
}

#[test]
fn hitscan_stops_at_the_edge_of_the_map() {
    let mut c = GameController::new(GameMap { max_dimension: 5 }, IdentityRetention::Discard);
    assert_eq!(c.spawn_enemy(1, at(0.0, 0.0, 0), 3), Ok(()));
    let shot = ProjectileSnaphot {
        projectile_type: ProjectileType::HitScan0,
        origin: at(-10.0, 0.0, 0),
        vel: bits(Vector2::new(1.0, 0.0)),
    };
    let geometry = scan(&c, &shot);
    assert_eq!(geometry.hits, vec![false]);
    c.handle_projectile_created("p".to_string(), shot, &geometry);
    assert_eq!(c.state().enemies[0].health, 3);
}

#[test]
fn tangent_ray_counts_as_a_hit() {
    assert!(ray_meets(
        bits(Vector2::new(-10.0, 0.5)),
        bits(Vector2::new(1.0, 0.0)),
        bits(Vector2::new(0.0, 0.0)),
        100.0
    ));
    assert!(!ray_meets(
        bits(Vector2::new(-10.0, 0.75)),
        bits(Vector2::new(1.0, 0.0)),
        bits(Vector2::new(0.0, 0.0)),
        100.0
    ));
}

#[test]
fn dead_enemies_are_not_hit_again() {
    let mut c = GameController::new(GameMap { max_dimension: 100 }, IdentityRetention::Discard);
    assert_eq!(c.spawn_enemy(1, at(0.0, 0.0, 0), 1), Ok(()));
    let shot = ProjectileSnaphot {
        projectile_type: ProjectileType::HitScan0,
        origin: at(-10.0, 0.0, 0),
        vel: bits(Vector2::new(1.0, 0.0)),
    };
    for _ in 0..3 {
        let geometry = scan(&c, &shot);
        c.handle_projectile_created("p".to_string(), shot, &geometry);
    }
    assert_eq!(c.state().enemies[0].health, 0);
    assert_eq!(c.state().enemies[0].status, EnemyStatus::Dead);
}

#[test]
fn spawned_enemy_without_health_is_dead() {
    let mut c = GameController::new(GameMap { max_dimension: 100 }, IdentityRetention::Discard);
    assert_eq!(c.spawn_enemy(7, at(1.0, 1.0, 0), 0), Ok(()));
    assert_eq!(c.spawn_enemy(8, at(1.0, 1.0, 0), -3), Ok(()));
    assert_eq!(c.spawn_enemy(9, at(1.0, 1.0, 0), 1), Ok(()));
    let e = &c.state().enemies;
    assert_eq!(e[0], Enemy { enemy_id: 7, position: at(1.0, 1.0, 0), health: 0, status: EnemyStatus::Dead });
    assert_eq!(e[1].status, EnemyStatus::Dead);
    assert_eq!(e[2].status, EnemyStatus::Alive);
}

#[test]
fn enemy_id_cannot_be_taken_twice() {
    let mut c = GameController::new(GameMap { max_dimension: 100 }, IdentityRetention::Discard);
    assert_eq!(c.spawn_enemy(7, at(1.0, 1.0, 0), 5), Ok(()));
    assert_eq!(c.spawn_enemy(8, at(1.0, 1.0, 0), 0), Ok(()));
    let before = c.state().clone();
    assert_eq!(c.spawn_enemy(7, at(2.0, 2.0, 0), 9), Err("enemy id is already in use".to_string()));
    assert_eq!(c.spawn_enemy(8, at(2.0, 2.0, 0), 9), Err("enemy id is already in use".to_string()));
    assert_eq!(c.state(), &before);
}

#[test]
fn projectile_is_launched_at_the_speed_of_its_type() {
    let mut c = GameController::new(GameMap { max_dimension: 100 }, IdentityRetention::Discard);
    assert_eq!(c.spawn_enemy(1, at(2.0, 0.0, 0), 25), Ok(()));
    let shot = ProjectileSnaphot {
        projectile_type: ProjectileType::Projectile0,
        origin: at(0.0, 0.0, 0),
        vel: bits(Vector2::new(5.0, 0.0)),
    };
    let geometry = scan(&c, &shot);
    c.handle_projectile_created("gunner".to_string(), shot, &geometry);
    assert_eq!(c.state().enemies[0].health, 25);
    assert_eq!(c.state().projectiles.len(), 1);
    let p = &c.state().projectiles[0];
    assert_eq!(p.player_id, "gunner");
    assert_eq!(p.projectile.projectile_type, ProjectileType::Projectile0);
    assert_eq!(p.projectile.origin, at(0.0, 0.0, 0));
    assert_eq!(vector(p.projectile.vel), Vector2::new(2.0, 0.0));
    assert_eq!(p.remaining_penetrations, Some(1));
}

#[test]
fn projectile_damages_once_and_is_retired() {
    let mut c = GameController::new(GameMap { max_dimension: 100 }, IdentityRetention::Discard);
    assert_eq!(c.spawn_enemy(1, at(2.0, 0.0, 0), 25), Ok(()));
    let shot = ProjectileSnaphot {
        projectile_type: ProjectileType::Projectile0,
        origin: at(0.0, 0.0, 0),
        vel: bits(Vector2::new(1.0, 0.0)),
    };
    let geometry = scan(&c, &shot);
    c.handle_projectile_created("gunner".to_string(), shot, &geometry);

    let mut health_seen = vec![];
    for now_ms in [250u64, 500, 750, 1000, 1250, 1500, 3000] {
        let plan = steps(&c, now_ms);
        assert_eq!(c.progress_projectiles(now_ms, &plan), Ok(()));
        health_seen.push(c.state().enemies[0].health);
        for p in &c.state().projectiles {
            assert_eq!(p.projectile.origin.time_ms, now_ms);
        }
    }
    assert_eq!(health_seen, vec![25, 25, 15, 15, 15, 15, 15]);
    assert_eq!(c.state().enemies[0].status, EnemyStatus::Alive);
    assert!(c.state().projectiles.is_empty());
}

#[test]
fn projectile_moves_by_velocity_times_elapsed_time() {
    let mut c = GameController::new(GameMap { max_dimension: 100 }, IdentityRetention::Discard);
    let shot = ProjectileSnaphot {
        projectile_type: ProjectileType::Projectile0,
        origin: at(1.0, 1.0, 1_000),
        vel: bits(Vector2::new(0.0, -3.0)),
    };
    let geometry = scan(&c, &shot);
    c.handle_projectile_created("gunner".to_string(), shot, &geometry);
    let plan = steps(&c, 1_500);
    assert_eq!(c.progress_projectiles(1_500, &plan), Ok(()));
    let p = &c.state().projectiles[0];
    assert_eq!(vector(p.projectile.origin.xy), Vector2::new(1.0, 0.0));
    assert_eq!(p.projectile.origin.time_ms, 1_500);
    assert_eq!(vector(p.projectile.vel), Vector2::new(0.0, -2.0));
    assert_eq!(p.remaining_penetrations, Some(1));
    let plan = steps(&c, 2_000);
    assert_eq!(c.progress_projectiles(2_000, &plan), Ok(()));
    assert_eq!(vector(c.state().projectiles[0].projectile.origin.xy), Vector2::new(1.0, -1.0));
}

#[test]
fn idle_tick_leaves_the_snapshot_as_it_was() {
    let mut c = GameController::new(GameMap { max_dimension: 100 }, IdentityRetention::Keep);
    assert_eq!(c.try_connect_player("alice".to_string()), Ok(()));
    assert_eq!(c.spawn_enemy(1, at(2.0, 0.0, 0), 25), Ok(()));
    let shot = ProjectileSnaphot {
        projectile_type: ProjectileType::Projectile0,
        origin: at(0.0, 0.0, 400),
        vel: bits(Vector2::new(1.0, 0.0)),
    };
    let geometry = scan(&c, &shot);
    c.handle_projectile_created("alice".to_string(), shot, &geometry);
    let first = c.state().clone();
    let second = c.state().clone();
    assert_eq!(first, second);
    let plan = steps(&c, 400);
    assert_eq!(c.progress_projectiles(400, &plan), Ok(()));
    assert_eq!(c.state(), &first);
}

#[test]
fn projectile_without_a_step_hits_nothing_and_stays() {
    let mut c = GameController::new(GameMap { max_dimension: 100 }, IdentityRetention::Keep);
    assert_eq!(c.spawn_enemy(1, at(2.0, 0.0, 0), 25), Ok(()));
    let shot = ProjectileSnaphot {
        projectile_type: ProjectileType::Projectile0,
        origin: at(0.0, 0.0, 0),
        vel: bits(Vector2::new(1.0, 0.0)),
    };
    let geometry = scan(&c, &shot);
    c.handle_projectile_created("alice".to_string(), shot, &geometry);
    assert_eq!(c.progress_projectiles(900, &vec![]), Ok(()));
    assert_eq!(c.state().enemies[0].health, 25);
    assert_eq!(c.state().projectiles.len(), 1);
    assert_eq!(c.state().projectiles[0].projectile.origin, at(0.0, 0.0, 900));
}

#[test]
fn projectiles_strike_in_list_order() {
    let mut c = GameController::new(GameMap { max_dimension: 100 }, IdentityRetention::Keep);
    assert_eq!(c.spawn_enemy(1, at(2.0, 0.0, 0), 15), Ok(()));
    assert_eq!(c.spawn_enemy(2, at(4.0, 0.0, 0), 15), Ok(()));
    for owner in ["a", "b", "c"] {
        let shot = ProjectileSnaphot {
            projectile_type: ProjectileType::Projectile0,
            origin: at(0.0, 0.0, 0),
            vel: bits(Vector2::new(1.0, 0.0)),
        };
        let geometry = scan(&c, &shot);
        c.handle_projectile_created(owner.to_string(), shot, &geometry);
    }
    let plan = vec![
        ProjectileStep { moved_to: bits(Vector2::new(5.0, 0.0)), hits: vec![true, true] },
        ProjectileStep { moved_to: bits(Vector2::new(5.0, 0.0)), hits: vec![true, true] },
        ProjectileStep { moved_to: bits(Vector2::new(5.0, 0.0)), hits: vec![true, false] },
    ];
    assert_eq!(c.progress_projectiles(10, &plan), Ok(()));
    let e = &c.state().enemies;
    assert_eq!((e[0].health, e[0].status), (-5, EnemyStatus::Dead));
    assert_eq!((e[1].health, e[1].status), (15, EnemyStatus::Alive));
    assert_eq!(c.state().projectiles.len(), 1);
    assert_eq!(c.state().projectiles[0].player_id, "c");
    assert_eq!(c.state().projectiles[0].remaining_penetrations, Some(1));
}

#[test]
fn budget_limits_the_strikes_of_one_attack() {
    let mut enemies = vec![
        enemy(1, 0.0, 0.0, 5),
        Enemy { enemy_id: 2, position: at(0.0, 0.0, 0), health: 0, status: EnemyStatus::Dead },
        enemy(3, 0.0, 0.0, 3),
        enemy(4, 0.0, 0.0, 9),
        enemy(5, 0.0, 0.0, 9),
    ];
    let hits = vec![true, true, false, true, true];
    let left = strike_enemies(&mut enemies, &hits, 4, Some(2));
    assert_eq!(left, Some(0));
    let seen: Vec<(isize, EnemyStatus)> = enemies.iter().map(|e| (e.health, e.status)).collect();
    assert_eq!(
        seen,
        vec![
            (1, EnemyStatus::Alive),
            (0, EnemyStatus::Dead),
            (3, EnemyStatus::Alive),
            (5, EnemyStatus::Alive),
            (9, EnemyStatus::Alive),
        ]
    );
}

#[test]
fn no_budget_means_no_limit() {
    let mut enemies = vec![enemy(1, 0.0, 0.0, 10), enemy(2, 0.0, 0.0, 10), enemy(3, 0.0, 0.0, 11)];
    let left = strike_enemies(&mut enemies, &vec![true, true, true, true], 10, None);
    assert_eq!(left, None);
    let seen: Vec<(isize, EnemyStatus)> = enemies.iter().map(|e| (e.health, e.status)).collect();
    assert_eq!(
        seen,
        vec![(0, EnemyStatus::Dead), (0, EnemyStatus::Dead), (1, EnemyStatus::Alive)]
    );
}

#[test]
fn used_up_budget_strikes_nothing() {
    let mut enemies = vec![enemy(1, 0.0, 0.0, 10)];
    assert_eq!(strike_enemies(&mut enemies, &vec![true], 10, Some(0)), Some(0));
    assert_eq!(strike_enemies(&mut enemies, &vec![true], 10, Some(-2)), Some(-2));
    assert_eq!(enemies, vec![enemy(1, 0.0, 0.0, 10)]);
    assert_eq!(strike_enemies(&mut enemies, &vec![], 10, Some(3)), Some(3));
    assert_eq!(enemies, vec![enemy(1, 0.0, 0.0, 10)]);
    assert_eq!(strike_enemies(&mut enemies, &vec![true], 10, Some(3)), Some(2));
    assert_eq!(enemies[0].status, EnemyStatus::Dead);
}

#[test]
fn table_with_a_healing_attack_is_refused() {
    let mut table = ProjectileTable::standard();
    assert!(table.is_valid());
    table.projectile0.damage = -1;
    assert!(!table.is_valid());
    let map = GameMap { max_dimension: 1 };
    assert!(GameController::with_table(map, IdentityRetention::Keep, table).is_none());
    table.projectile0.damage = 0;
    let c = GameController::with_table(map, IdentityRetention::Keep, table).unwrap();
    assert_eq!(c.projectile_table(), table);
}
