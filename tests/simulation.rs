use factory_tank_miner::building::{Building, BuildingType, ProductionType};
use factory_tank_miner::enemy::{
    size_from_roll, Enemy, EnemySize, SpawnRoll, SPAWN_DISTANCE_MIN, SPAWN_INTERVAL_MAX,
    SPAWN_INTERVAL_MIN, SPAWN_REACH,
};
use factory_tank_miner::game::{spawn_point_for, BuildMode, GameApp, FIRST_SPAWN_DELAY};
use factory_tank_miner::geometry::{isqrt, step_toward, Pos, Rect, UNIT};
use factory_tank_miner::resource::{OrePatch, ResourceType};
use factory_tank_miner::truck::{Truck, TruckState, BULLET_CAPACITY, CARGO_CAPACITY};

fn at(x: i64, y: i64) -> Pos {
    Pos::new(x * UNIT, y * UNIT)
}

fn quiet_roll() -> SpawnRoll {
    SpawnRoll { offset: at(1200, 0), size: EnemySize::Small, next_interval: 9000 }
}

fn factory_with(guns: u32, boxes: u32) -> Building {
    let mut b = Building::new(at(300, 300), BuildingType::Factory);
    b.stored_guns = guns;
    b.stored_bullet_boxes = boxes;
    b
}

#[test]
fn garage_builds_truck_in_five_seconds() {
    let mut g = GameApp::new();
    g.buildings.push(Building::new(at(300, 0), BuildingType::Garage));
    g.iron = 50;
    g.coal = 30;
    assert!(g.buildings[1].production_queue.is_empty());
    assert!(g.enqueue_production(1, ProductionType::Truck));
    assert_eq!((g.iron, g.coal), (30, 20));
    assert_eq!(g.buildings[1].production_queue, vec![ProductionType::Truck]);
    let before = g.trucks.len();
    g.update_with(5000, &quiet_roll());
    assert!(g.buildings[1].production_queue.is_empty());
    assert_eq!(g.buildings[1].production_progress, 0);
    assert_eq!(g.trucks.len(), before + 1);
    let t = g.trucks[before];
    assert_eq!(t.id, 3);
    assert_eq!(g.next_truck_id, 4);
    assert!((t.position.x - 300 * UNIT).abs() <= 30 * UNIT);
    assert_eq!(t.position.y, 60 * UNIT);
}

#[test]
fn garage_not_done_before_five_seconds() {
    let mut g = GameApp::new();
    g.buildings.push(Building::new(at(300, 0), BuildingType::Garage));
    g.iron = 50;
    g.coal = 30;
    assert!(g.enqueue_production(1, ProductionType::Truck));
    g.update_with(4999, &quiet_roll());
    assert_eq!(g.buildings[1].production_queue.len(), 1);
    assert_eq!(g.buildings[1].production_progress, 4999);
    assert_eq!(g.trucks.len(), 3);
}

#[test]
fn full_truck_turns_for_beacon() {
    let patch_spot = at(-150, 100);
    let mut t = Truck::new(0, patch_spot);
    t.start_mining(ResourceType::Iron);
    t.cargo_amount = 63;
    t.update(1000);
    assert_eq!(t.cargo_amount, 64);
    assert_eq!(t.state, TruckState::ReturningToBase);
    assert_eq!(t.target, Some(Pos::new(0, 0)));
}

#[test]
fn mining_adds_one_unit_per_second() {
    let mut t = Truck::new(0, at(-150, 100));
    t.start_mining(ResourceType::Coal);
    t.update(600);
    assert_eq!(t.cargo_amount, 0);
    assert_eq!(t.mining_progress, 600);
    t.update(400);
    assert_eq!(t.cargo_amount, 1);
    assert_eq!(t.mining_progress, 0);
    for _ in 0..10 {
        t.update(1000);
    }
    assert_eq!(t.cargo_amount, 11);
    assert_eq!(t.state, TruckState::Mining);
}

#[test]
fn cargo_never_exceeds_capacity() {
    let mut g = GameApp::new();
    g.trucks[0].position = at(-150, 100);
    g.trucks[0].start_mining(ResourceType::Iron);
    for _ in 0..200 {
        g.update_with(1000, &quiet_roll());
        for t in &g.trucks {
            assert!(t.cargo_amount <= CARGO_CAPACITY);
        }
    }
}

#[test]
fn armed_truck_tops_up_to_cap() {
    let mut t = Truck::new(0, at(300, 300));
    t.has_gun = true;
    t.bullets = 350;
    let mut f = factory_with(0, 3);
    t.resupply_from(&mut f);
    assert_eq!(t.bullets, 400);
    assert_eq!(f.stored_bullet_boxes, 2);
}

#[test]
fn empty_gun_store_leaves_truck_unarmed() {
    let mut t = Truck::new(0, at(300, 300));
    let mut f = factory_with(0, 5);
    t.resupply_from(&mut f);
    assert!(!t.has_gun);
    assert_eq!(t.bullets, 0);
    assert_eq!(t.state, TruckState::Idle);
    assert_eq!(f.stored_guns, 0);
    assert_eq!(f.stored_bullet_boxes, 5);
}

#[test]
fn unarmed_truck_takes_gun_and_boxes() {
    let mut t = Truck::new(0, at(300, 300));
    let mut f = factory_with(2, 3);
    t.resupply_from(&mut f);
    assert!(t.has_gun);
    assert_eq!(t.bullets, 300);
    assert_eq!(f.stored_guns, 1);
    assert_eq!(f.stored_bullet_boxes, 0);
    assert!(t.bullets <= BULLET_CAPACITY);
}

#[test]
fn factory_out_of_range_is_ignored() {
    let mut t = Truck::new(0, at(370, 300));
    let mut f = factory_with(2, 3);
    t.resupply_from(&mut f);
    assert!(!t.has_gun);
    assert_eq!(f.stored_guns, 2);
}

#[test]
fn repeated_move_command_is_stable() {
    let mut t = Truck::new(0, at(0, 0));
    t.start_moving(at(100, 0));
    t.update(100);
    let once = t;
    t.start_moving(at(100, 0));
    assert_eq!(t.target, once.target);
    assert_eq!(t.state, once.state);
    assert_eq!(t.position, once.position);
    assert_eq!(t.mining_progress, once.mining_progress);

    let mut g = GameApp::new();
    g.trucks[1].selected = true;
    g.move_selected(at(400, 400));
    let first = g.trucks[1];
    g.move_selected(at(400, 400));
    assert_eq!(g.trucks[1].target, first.target);
    assert_eq!(g.trucks[1].state, TruckState::Moving);
    assert_eq!(g.trucks[0].state, TruckState::Idle);
}

#[test]
fn returning_truck_ignores_commands() {
    let mut t = Truck::new(0, at(-150, 100));
    t.start_mining(ResourceType::Iron);
    t.cargo_amount = 63;
    t.update(1000);
    t.start_moving(at(500, 500));
    assert_eq!(t.state, TruckState::ReturningToBase);
    assert_eq!(t.target, Some(Pos::new(0, 0)));
    t.start_mining(ResourceType::Coal);
    assert_eq!(t.state, TruckState::ReturningToBase);
    assert_eq!(t.cargo, Some(ResourceType::Iron));
}

#[test]
fn returning_truck_unloads_at_beacon() {
    let mut g = GameApp::new();
    g.ore_patches.clear();
    let mut t = Truck::new(7, at(40, 0));
    t.cargo = Some(ResourceType::Coal);
    t.last_mining_position = Some(at(150, 100));
    t.cargo_amount = 64;
    t.state = TruckState::ReturningToBase;
    t.target = Some(Pos::new(0, 0));
    g.trucks = vec![t];
    g.update_with(100, &quiet_roll());
    let t = g.trucks[0];
    assert_eq!(t.position, at(30, 0));
    assert_eq!(t.cargo_amount, 0);
    assert_eq!(t.cargo, None);
    assert_eq!(t.state, TruckState::Moving);
    assert_eq!(t.target, Some(at(150, 100)));
    assert_eq!(g.coal, 64);
    assert_eq!(g.iron, 0);
}

#[test]
fn empty_truck_at_beacon_redeploys() {
    let mut g = GameApp::new();
    let mut t = Truck::new(0, at(0, 0));
    t.last_mining_position = Some(at(-150, 100));
    g.trucks = vec![t];
    g.update_with(10, &quiet_roll());
    assert_eq!(g.trucks[0].state, TruckState::Moving);
    assert_eq!(g.trucks[0].target, Some(at(-150, 100)));
}

#[test]
fn idle_truck_on_patch_starts_mining() {
    let mut g = GameApp::new();
    g.trucks[0].position = at(150, 100);
    g.update_with(10, &quiet_roll());
    assert_eq!(g.trucks[0].state, TruckState::Mining);
    assert_eq!(g.trucks[0].cargo, Some(ResourceType::Coal));
    assert_eq!(g.trucks[0].last_mining_position, Some(at(150, 100)));
    assert_eq!(g.mining_count(), 1);
}

#[test]
fn enqueue_rejected_without_funds() {
    let mut g = GameApp::new();
    g.buildings.push(Building::new(at(300, 0), BuildingType::Garage));
    g.iron = 19;
    g.coal = 100;
    assert!(!g.enqueue_production(1, ProductionType::Truck));
    assert_eq!((g.iron, g.coal), (19, 100));
    assert!(g.buildings[1].production_queue.is_empty());
    g.iron = 100;
    g.coal = 9;
    assert!(!g.enqueue_production(1, ProductionType::Truck));
    assert_eq!((g.iron, g.coal), (100, 9));
}

#[test]
fn enqueue_rejected_for_wrong_building() {
    let mut g = GameApp::new();
    g.iron = 1000;
    g.coal = 1000;
    assert!(!g.enqueue_production(0, ProductionType::Truck));
    g.buildings.push(Building::new(at(300, 0), BuildingType::Garage));
    assert!(!g.enqueue_production(1, ProductionType::Gun));
    assert!(!g.enqueue_production(9, ProductionType::Truck));
    assert_eq!((g.iron, g.coal), (1000, 1000));
}

#[test]
fn factory_makes_gun_and_bullets() {
    let mut g = GameApp::new();
    g.buildings.push(Building::new(at(300, 0), BuildingType::Factory));
    g.iron = 35;
    g.coal = 15;
    assert!(g.enqueue_production(1, ProductionType::Gun));
    assert!(g.enqueue_production(1, ProductionType::Bullets));
    assert_eq!((g.iron, g.coal), (0, 0));
    g.update_with(8000, &quiet_roll());
    assert_eq!(g.buildings[1].stored_guns, 1);
    assert_eq!(g.buildings[1].production_queue, vec![ProductionType::Bullets]);
    assert_eq!(g.buildings[1].production_progress, 0);
    g.update_with(3000, &quiet_roll());
    assert_eq!(g.buildings[1].stored_bullet_boxes, 1);
    assert_eq!(g.total_guns(), 1);
    assert_eq!(g.total_bullet_boxes(), 1);
}

#[test]
fn building_purchase_and_rejections() {
    let mut g = GameApp::new();
    g.iron = 60;
    g.coal = 40;
    assert!(!g.place_building(BuildingType::Factory, at(200, 200)));
    assert!(!g.place_building(BuildingType::Beacon, at(200, 200)));
    assert!(!g.place_building(BuildingType::Garage, Pos::new(i64::MAX, 0)));
    assert_eq!(g.buildings.len(), 1);
    assert!(g.place_building(BuildingType::Garage, at(200, 200)));
    assert_eq!((g.iron, g.coal), (10, 10));
    assert_eq!(g.buildings.len(), 2);
    assert_eq!(g.buildings[1].building_type, BuildingType::Garage);
    assert_eq!(g.buildings[1].size, 40 * UNIT);
}

#[test]
fn placement_mode_and_right_click() {
    let mut g = GameApp::new();
    assert!(!g.begin_placement(BuildMode::PlacingGarage));
    g.iron = 100;
    g.coal = 50;
    assert!(!g.begin_placement(BuildMode::Inactive));
    assert!(g.begin_placement(BuildMode::PlacingFactory));
    assert!(!g.begin_placement(BuildMode::PlacingGarage));
    g.right_click(at(-300, -300));
    assert_eq!(g.build_mode, BuildMode::Inactive);
    assert_eq!(g.buildings.len(), 2);
    assert_eq!(g.buildings[1].building_type, BuildingType::Factory);
    assert_eq!((g.iron, g.coal), (0, 0));
    g.trucks[2].selected = true;
    g.right_click(at(10, 10));
    assert_eq!(g.trucks[2].target, Some(at(10, 10)));
    g.iron = 100;
    g.coal = 50;
    assert!(g.begin_placement(BuildMode::PlacingGarage));
    g.cancel_placement();
    assert_eq!(g.build_mode, BuildMode::Inactive);
}

#[test]
fn click_selects_building_then_truck() {
    let mut g = GameApp::new();
    g.click(at(5, 5), false);
    assert_eq!(g.selected_building, Some(0));
    g.click(at(52, 48), false);
    assert_eq!(g.selected_building, None);
    assert!(g.trucks[0].selected);
    assert_eq!(g.selected_count(), 1);
    g.click(at(100, 50), true);
    assert!(g.trucks[0].selected && g.trucks[1].selected);
    g.click(at(100, 50), true);
    assert!(!g.trucks[1].selected);
    g.click(at(100, 50), false);
    assert!(!g.trucks[0].selected && g.trucks[1].selected);
    g.click(at(500, 500), true);
    assert_eq!(g.selected_count(), 1);
    g.click(at(500, 500), false);
    assert_eq!(g.selected_count(), 0);
}

#[test]
fn box_selection_takes_trucks_inside() {
    let mut g = GameApp::new();
    g.box_select(at(120, 40), at(40, 60));
    assert!(g.trucks[0].selected);
    assert!(g.trucks[1].selected);
    assert!(!g.trucks[2].selected);
    g.box_select(at(0, 0), at(1, 1));
    assert_eq!(g.selected_count(), 0);
}

#[test]
fn enemy_moves_toward_beacon_by_size() {
    let mut e = Enemy::new(0, at(1000, 0), EnemySize::Small);
    e.update(1000, Pos::new(0, 0));
    assert_eq!(e.position, at(980, 0));
    assert_eq!(e.target, Some(Pos::new(0, 0)));
    let mut big = Enemy::new(1, at(0, -1000), EnemySize::Large);
    big.update(1000, Pos::new(0, 0));
    assert_eq!(big.position, at(0, -990));
    let mut near = Enemy::new(2, Pos::new(1500, 0), EnemySize::Medium);
    near.update(1000, Pos::new(0, 0));
    assert_eq!(near.position, Pos::new(1500, 0));
    assert_eq!(EnemySize::Medium.health(), 40);
    assert_eq!(EnemySize::Large.radius(), 50 * UNIT);
    assert_eq!(big.radius(), 50 * UNIT);
    assert_eq!(big.health, 100);
}

#[test]
fn spawn_timer_fires_and_restarts() {
    let mut g = GameApp::new();
    assert_eq!(g.enemy_spawn_timer, FIRST_SPAWN_DELAY);
    let roll = SpawnRoll { offset: at(0, -1200), size: EnemySize::Medium, next_interval: 12000 };
    g.update_with(9000, &roll);
    assert!(g.enemies.is_empty());
    assert_eq!(g.enemy_spawn_timer, 1000);
    g.update_with(1000, &roll);
    assert_eq!(g.enemies.len(), 1);
    assert_eq!(g.enemies[0].size, EnemySize::Medium);
    assert_eq!(g.enemies[0].id, 0);
    assert_eq!(g.next_enemy_id, 1);
    assert_eq!(g.enemy_spawn_timer, 12000);
    assert_eq!(g.enemies[0].position, at(0, -1185));
}

#[test]
fn size_rolls_follow_weights() {
    let sizes: Vec<EnemySize> = (0..10).map(size_from_roll).collect();
    assert_eq!(sizes.iter().filter(|s| **s == EnemySize::Small).count(), 7);
    assert_eq!(sizes.iter().filter(|s| **s == EnemySize::Medium).count(), 2);
    assert_eq!(sizes[9], EnemySize::Large);
}

#[test]
fn drawn_spawns_vary_and_stay_in_range() {
    let mut waits = Vec::new();
    for _ in 0..200 {
        let r = SpawnRoll::draw();
        assert!(r.next_interval >= SPAWN_INTERVAL_MIN && r.next_interval < SPAWN_INTERVAL_MAX);
        let d2 = (r.offset.x as i128).pow(2) + (r.offset.y as i128).pow(2);
        assert!(d2 >= ((SPAWN_DISTANCE_MIN - 2) as i128).pow(2));
        assert!(d2 <= (SPAWN_REACH as i128).pow(2));
        waits.push(r.next_interval);
    }
    assert!(waits.iter().any(|w| *w != waits[0]));
    assert!(waits.iter().any(|w| *w != SPAWN_INTERVAL_MIN));
}

#[test]
fn world_update_keeps_running() {
    let mut g = GameApp::default();
    for _ in 0..50 {
        g.update(400);
    }
    assert!(!g.enemies.is_empty());
    assert!(g.enemy_spawn_timer < SPAWN_INTERVAL_MAX);
    assert_eq!(g.trucks.len(), 3);
}

#[test]
fn geometry_exact_values() {
    assert_eq!(isqrt(0), 0);
    assert_eq!(isqrt(15), 3);
    assert_eq!(isqrt(16), 4);
    assert_eq!(isqrt(u64::MAX), 4_294_967_295);
    assert_eq!(step_toward(Pos::new(0, 0), Pos::new(3000, 4000), 1000), Pos::new(600, 800));
    assert_eq!(step_toward(Pos::new(0, 0), Pos::new(-3000, -4000), 1000), Pos::new(-600, -800));
    assert_eq!(step_toward(Pos::new(0, 0), Pos::new(3000, 4000), 5000), Pos::new(3000, 4000));
    let r = Rect::from_center_size(at(10, 10), 20 * UNIT);
    assert_eq!(r.min, at(0, 0));
    assert_eq!(r.max, at(20, 20));
    assert!(r.contains(at(20, 0)));
    assert!(!r.contains(at(21, 0)));
    assert_eq!(spawn_point_for(at(0, 0), 3), at(-30, 60));
    assert_eq!(spawn_point_for(at(0, 0), 4), at(0, 60));
    assert_eq!(spawn_point_for(at(0, 0), 5), at(30, 60));
}

#[test]
fn costs_times_and_names() {
    assert_eq!(ProductionType::Truck.cost(), (20, 10));
    assert_eq!(ProductionType::Gun.cost(), (30, 5));
    assert_eq!(ProductionType::Bullets.cost(), (5, 10));
    assert_eq!(ProductionType::Truck.time(), 5000);
    assert_eq!(ProductionType::Gun.time(), 8000);
    assert_eq!(ProductionType::Bullets.time(), 3000);
    assert_eq!(ProductionType::Bullets.name(), "Bullets");
    assert_eq!(ProductionType::Gun.name(), "Gun");
    let f = Building::new(at(0, 0), BuildingType::Factory);
    assert_eq!(f.cost(), (100, 50));
    assert_eq!(Building::new(at(0, 0), BuildingType::Beacon).cost(), (0, 0));
    assert!(f.can_produce(ProductionType::Gun));
    assert!(!f.can_produce(ProductionType::Truck));
    assert!(f.contains_point(at(49, -49)));
    assert!(!f.contains_point(at(50, 0)));
}

#[test]
fn ore_patch_containment() {
    let p = OrePatch::new(at(-150, 100), ResourceType::Iron);
    assert!(p.contains_point(at(-150, 139)));
    assert!(!p.contains_point(at(-150, 140)));
    assert_eq!(p.amount, 999_999);
    let t = Truck::new(0, at(0, 0));
    assert!(t.contains_point(at(10, -10)));
    assert!(!t.contains_point(at(11, 0)));
}

#[test]
fn long_mining_tick_yields_every_full_second() {
    let mut t = Truck::new(0, at(-150, 100));
    t.start_mining(ResourceType::Iron);
    t.update(2000);
    assert_eq!(t.cargo_amount, 2);
    assert_eq!(t.mining_progress, 0);
    let mut u = Truck::new(1, at(-150, 100));
    u.start_mining(ResourceType::Iron);
    for _ in 0..4 {
        u.update(900);
    }
    assert_eq!(u.cargo_amount, 3);
    assert_eq!(u.mining_progress, 600);
    let mut v = Truck::new(2, at(-150, 100));
    v.start_mining(ResourceType::Coal);
    v.cargo_amount = 60;
    v.update(10_500);
    assert_eq!(v.cargo_amount, 64);
    assert_eq!(v.state, TruckState::ReturningToBase);
    assert_eq!(v.target, Some(Pos::new(0, 0)));
}

#[test]
fn spawn_from_draws_exact_offsets() {
    let r = SpawnRoll::from_draws(600, 800, 1000 * UNIT, 8, 9000);
    assert_eq!(r.offset, at(600, 800));
    assert_eq!(r.size, EnemySize::Medium);
    assert_eq!(r.next_interval, 9000);
    let s = SpawnRoll::from_draws(-300, -400, 1000 * UNIT, 0, 8000);
    assert_eq!(s.offset, at(-600, -800));
    assert_eq!(s.size, EnemySize::Small);
    let q = SpawnRoll::from_draws(0, 500, 1200 * UNIT, 9, 14999);
    assert_eq!(q.offset, at(0, 1200));
    assert_eq!(q.size, EnemySize::Large);
}

#[test]
fn default_is_starting_world() {
    let g = GameApp::default();
    assert_eq!(g.trucks.len(), 3);
    assert_eq!(g.trucks[0].position, at(50, 50));
    assert_eq!(g.trucks[1].position, at(100, 50));
    assert_eq!(g.trucks[2].position, at(75, 100));
    assert!(g.trucks.iter().enumerate().all(|(i, t)| t.id == i && t.cargo_amount == 0 && !t.has_gun));
    assert_eq!(g.next_truck_id, 3);
    assert_eq!(g.ore_patches.len(), 2);
    assert_eq!(g.ore_patches[0].resource_type, ResourceType::Iron);
    assert_eq!(g.ore_patches[1].position, at(150, 100));
    assert_eq!(g.buildings.len(), 1);
    assert_eq!(g.buildings[0].building_type, BuildingType::Beacon);
    assert_eq!(g.buildings[0].position, Pos::new(0, 0));
    assert_eq!((g.iron, g.coal), (0, 0));
    assert_eq!(g.enemy_spawn_timer, FIRST_SPAWN_DELAY);
}
