use galactic_gravity::frame::{Input, LoopControl, CLUSTER_SIZE, PARTICLE_MASS, STEPS_PER_SECOND};
use galactic_gravity::galaxy::{Galaxy, Particle, WorldError, SEED_COUNT, SEED_MARGIN, SEED_SPEED};
use galactic_gravity::physics::{calc_gravitational_force, clamp_accel, Point2D, SCALE};
use galactic_gravity::scene::Tickable;

fn still(x: i64, y: i64) -> Particle {
    Particle { position: Point2D { x: x * SCALE, y: y * SCALE }, velocity: Point2D { x: 0, y: 0 } }
}

fn world(width: u32, height: u32, particles: Vec<Particle>) -> Galaxy {
    match Galaxy::with_particles(width, height, particles) {
        Ok(g) => g,
        Err(e) => panic!("world refused: {:?}", e),
    }
}

#[test]
fn new_world_is_seeded_inside_the_margin() {
    let g = match Galaxy::new(800, 600) {
        Ok(g) => g,
        Err(e) => panic!("world refused: {:?}", e),
    };
    assert_eq!(g.len(), SEED_COUNT);
    assert_eq!(g.width(), 800);
    assert_eq!(g.height(), 600);
    let margin = SEED_MARGIN as i64 * SCALE;
    for p in g.particles() {
        assert_eq!(p.position.x % SCALE, 0);
        assert_eq!(p.position.y % SCALE, 0);
        assert!(margin <= p.position.x && p.position.x < 700 * SCALE);
        assert!(margin <= p.position.y && p.position.y < 500 * SCALE);
        assert!(-SEED_SPEED <= p.velocity.x && p.velocity.x < SEED_SPEED);
        assert!(-SEED_SPEED <= p.velocity.y && p.velocity.y < SEED_SPEED);
    }
}

#[test]
fn new_worlds_are_drawn_at_random() {
    let mut all_at_margin = true;
    for _ in 0..4 {
        let g = Galaxy::new(800, 600).unwrap();
        for p in g.particles() {
            if p.position.x != SEED_MARGIN as i64 * SCALE {
                all_at_margin = false;
            }
        }
    }
    assert!(!all_at_margin);
}

#[test]
fn new_world_needs_room_for_the_margin() {
    assert_eq!(Galaxy::new(200, 600).err(), Some(WorldError::TooSmall));
    assert_eq!(Galaxy::new(800, 200).err(), Some(WorldError::TooSmall));
    assert_eq!(Galaxy::new(0, 0).err(), Some(WorldError::TooSmall));
    assert!(Galaxy::new(201, 201).is_ok());
}

#[test]
fn with_particles_checks_its_input() {
    assert_eq!(Galaxy::with_particles(0, 600, vec![]).err(), Some(WorldError::Empty));
    assert_eq!(Galaxy::with_particles(800, 0, vec![still(1, 1)]).err(), Some(WorldError::Empty));
    let fast = Particle { position: Point2D { x: 0, y: 0 }, velocity: Point2D { x: i64::MIN, y: 0 } };
    assert_eq!(
        Galaxy::with_particles(800, 600, vec![still(1, 1), fast]).err(),
        Some(WorldError::ParticleOutOfRange)
    );
    let far = Particle { position: Point2D { x: i64::MAX, y: 0 }, velocity: Point2D { x: 0, y: 0 } };
    assert_eq!(Galaxy::with_particles(800, 600, vec![far]).err(), Some(WorldError::ParticleOutOfRange));
    let g = world(800, 600, vec![still(1, 2), still(3, 4)]);
    assert_eq!(g.particles(), &vec![still(1, 2), still(3, 4)]);
}

#[test]
fn leaving_the_world_reverses_the_velocity() {
    let p = Particle {
        position: Point2D { x: 5 * SCALE, y: 300 * SCALE },
        velocity: Point2D { x: -50 * SCALE, y: 0 },
    };
    let mut g = world(800, 600, vec![p]);
    g.push_forward(1, PARTICLE_MASS);
    let q = g.particles()[0];
    assert_eq!(q.velocity.x, 50 * SCALE);
    assert_eq!(q.position.x, 5 * SCALE);
    assert_eq!(q.position.y, 300 * SCALE);
    assert_eq!(q.velocity.y, 0);
}

#[test]
fn axes_reflect_independently() {
    let p = Particle {
        position: Point2D { x: 790 * SCALE, y: 300 * SCALE },
        velocity: Point2D { x: 20 * SCALE, y: 10 * SCALE },
    };
    let mut g = world(800, 600, vec![p]);
    g.push_forward(1, PARTICLE_MASS);
    let q = g.particles()[0];
    assert_eq!(q.position, Point2D { x: 790 * SCALE, y: 310 * SCALE });
    assert_eq!(q.velocity, Point2D { x: -20 * SCALE, y: 10 * SCALE });
}

#[test]
fn landing_on_the_edge_stays_inside() {
    let p = Particle {
        position: Point2D { x: 10 * SCALE, y: 590 * SCALE },
        velocity: Point2D { x: -10 * SCALE, y: 10 * SCALE },
    };
    let mut g = world(800, 600, vec![p]);
    g.push_forward(1, PARTICLE_MASS);
    let q = g.particles()[0];
    assert_eq!(q.position, Point2D { x: 0, y: 600 * SCALE });
    assert_eq!(q.velocity, Point2D { x: -10 * SCALE, y: 10 * SCALE });
}

#[test]
fn pulls_come_from_positions_before_the_step() {
    let first = Particle {
        position: Point2D { x: 100 * SCALE, y: 300 * SCALE },
        velocity: Point2D { x: 300 * SCALE, y: 0 },
    };
    let second = still(700, 300);
    let mut g = world(800, 600, vec![first, second]);
    g.push_forward(1, PARTICLE_MASS);
    let moved = g.particles()[0].position;
    assert_eq!(moved.x, 100 * SCALE + 300 * SCALE + 185_397);
    let from_before = clamp_accel(calc_gravitational_force(second.position, first.position, PARTICLE_MASS).0);
    let from_after = clamp_accel(calc_gravitational_force(second.position, moved, PARTICLE_MASS).0);
    assert_eq!(from_before, -185_397);
    assert_eq!(from_after, -742_506);
    let v = g.particles()[1].velocity;
    assert_eq!(v.x, from_before);
    assert_ne!(v.x, from_after);
    assert_eq!(v.y, 0);
}

#[test]
fn spawning_appends_a_cluster_at_rest() {
    let mut g = world(800, 600, vec![still(10, 10)]);
    g.spawn_cluster(400, 300, 4);
    assert_eq!(g.len(), 5);
    let ps = g.particles();
    assert_eq!(ps[0], still(10, 10));
    assert_eq!(ps[1], still(398, 298));
    assert_eq!(ps[2], still(399, 299));
    assert_eq!(ps[3], still(400, 300));
    assert_eq!(ps[4], still(401, 301));
    for p in &ps[1..] {
        assert_eq!(p.velocity, Point2D { x: 0, y: 0 });
        assert!((p.position.x - 400 * SCALE).abs() <= 2 * SCALE);
        assert!((p.position.y - 300 * SCALE).abs() <= 2 * SCALE);
    }
}

#[test]
fn spawning_at_the_corner_may_leave_the_world() {
    let mut g = world(800, 600, vec![]);
    g.spawn_cluster(0, 0, 4);
    assert_eq!(g.particles()[0], still(-2, -2));
    g.spawn_cluster(5, 5, 0);
    assert_eq!(g.len(), 4);
}

#[test]
fn two_particles_attract_after_one_step() {
    let mut g = world(800, 600, vec![still(100, 300), still(700, 300)]);
    g.push_forward(STEPS_PER_SECOND, PARTICLE_MASS);
    let a = g.particles()[0];
    let b = g.particles()[1];
    assert_eq!(a.velocity, Point2D { x: 3_089, y: 0 });
    assert_eq!(b.velocity, Point2D { x: -3_089, y: 0 });
    assert_eq!(a.position, Point2D { x: 100 * SCALE + 51, y: 300 * SCALE });
    assert_eq!(b.position, Point2D { x: 700 * SCALE - 51, y: 300 * SCALE });
    for p in g.particles() {
        assert!(0 <= p.position.x && p.position.x <= 800 * SCALE);
        assert!(0 <= p.position.y && p.position.y <= 600 * SCALE);
    }
}

#[test]
fn snapshot_and_pixels() {
    let p = Particle {
        position: Point2D { x: 5_500_000, y: 999_999 },
        velocity: Point2D { x: 0, y: 0 },
    };
    let q = Particle { position: Point2D { x: -1_500_000, y: 0 }, velocity: Point2D { x: 1, y: 1 } };
    let g = world(800, 600, vec![p, q]);
    assert_eq!(g.snapshot(), vec![p.position, q.position]);
    assert_eq!(g.pixel_positions(), vec![(5, 0), (-1, 0)]);
}

#[test]
fn frame_spawns_then_steps() {
    let mut g = world(800, 600, vec![still(100, 300)]);
    let inputs = vec![Input::PointerPress { x: 400, y: 300 }, Input::Other];
    assert_eq!(g.run_frame(&inputs, STEPS_PER_SECOND, PARTICLE_MASS), LoopControl::Continue);
    assert_eq!(g.len(), 1 + CLUSTER_SIZE as usize);
    let mut h = world(800, 600, vec![still(100, 300)]);
    h.spawn_cluster(400, 300, CLUSTER_SIZE);
    h.push_forward(STEPS_PER_SECOND, PARTICLE_MASS);
    assert_eq!(g.particles(), h.particles());
    assert_ne!(g.particles()[0], still(100, 300));
}

#[test]
fn frame_stops_at_quit_without_stepping() {
    let mut g = world(800, 600, vec![still(100, 300), still(700, 300)]);
    let inputs = vec![
        Input::PointerPress { x: 10, y: 20 },
        Input::Quit,
        Input::PointerPress { x: 30, y: 40 },
    ];
    assert_eq!(g.run_frame(&inputs, STEPS_PER_SECOND, PARTICLE_MASS), LoopControl::Terminate);
    assert_eq!(g.len(), 6);
    assert_eq!(g.particles()[0], still(100, 300));
    assert_eq!(g.particles()[2], still(8, 18));
}

#[test]
fn frame_without_inputs_only_steps() {
    let mut g = world(800, 600, vec![still(100, 300), still(700, 300)]);
    assert_eq!(g.run_frame(&vec![], STEPS_PER_SECOND, PARTICLE_MASS), LoopControl::Continue);
    assert_eq!(g.len(), 2);
    assert_eq!(g.particles()[0].velocity.x, 3_089);
}

#[test]
fn close_particles_get_clamped_acceleration() {
    let mut g = world(800, 600, vec![still(400, 300), still(401, 300)]);
    g.push_forward(1, PARTICLE_MASS);
    let a = g.particles()[0];
    let b = g.particles()[1];
    assert_eq!(a.velocity, Point2D { x: 200 * SCALE, y: 0 });
    assert_eq!(b.velocity, Point2D { x: -200 * SCALE, y: 0 });
    assert_eq!(a.position, Point2D { x: 600 * SCALE, y: 300 * SCALE });
    assert_eq!(b.position, Point2D { x: 201 * SCALE, y: 300 * SCALE });
}
