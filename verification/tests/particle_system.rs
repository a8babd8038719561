use brumous::error::BrumousError;
use brumous::living::sort_living;
use brumous::living::Living;
use brumous::particle::instance_bytes;
use brumous::particle::Particle;
use brumous::particle::ParticleInstance;
use brumous::particle_system::Frame;
use brumous::particle_system::ParticleSystem;
use brumous::particle_system::ParticleSystemSet;
use brumous::particle_system::MAX_PARTICLES;
use brumous::random::Randf32;
use brumous::ParticleSystemBounds;
use brumous::ParticleSystemDescriptor;
use brumous::UNIT;
use std::time::Duration;

fn descriptor(max: usize, rate: usize) -> ParticleSystemDescriptor<'static> {
    ParticleSystemDescriptor { max, rate, ..Default::default() }
}

fn lives(sys: &ParticleSystem) -> Vec<i64> {
    sys.particles().iter().map(|p| p.life).collect()
}

fn queue(sys: &ParticleSystem) -> Vec<usize> {
    sys.spawnqueue().iter().copied().collect()
}

fn live_count(sys: &ParticleSystem) -> usize {
    sys.particles().iter().filter(|p| p.life > 0).count()
}

/// What holds of a system between any two calls.
fn assert_well_formed(sys: &ParticleSystem) {
    let max = sys.particles().len();
    let queue = queue(sys);
    for (k, slot) in queue.iter().enumerate() {
        assert!(*slot < max);
        assert!(!queue[..k].contains(slot), "the slot {} is queued twice", slot);
    }
    for (slot, p) in sys.particles().iter().enumerate() {
        assert_eq!(p.queued, queue.contains(&slot));
        assert_eq!(p.queued, p.life <= 0);
    }
}

#[test]
fn the_default_descriptor() {
    let desc = ParticleSystemDescriptor::default();
    assert_eq!(desc.max, 500);
    assert_eq!(desc.rate, 1);
    assert_eq!(desc.pos, [0, 0, 0]);
    assert_eq!(desc.name, "Particle System");
    assert_eq!(desc.life, 1000 * UNIT);
    assert_eq!(UNIT, 1_000_000);
}

#[test]
fn the_default_bounds() {
    let bounds = ParticleSystemBounds::default();
    assert_eq!(bounds.area, [(0, 0); 3]);
    assert_eq!(bounds.velocity, [(0, 200_000), (700_000, 200_000), (0, 200_000)]);
    assert_eq!(bounds.rotation, [(0, 0); 4]);
    assert_eq!(bounds.color, [(500_000, 500_000); 4]);
    assert_eq!(bounds.life, (5 * UNIT, 2 * UNIT));
    assert_eq!(bounds.mass, (UNIT, 100_000));
    assert_eq!(bounds.scale, (7_000, 2_000));
}

#[test]
fn a_new_system_is_all_unused_slots() {
    let sys = ParticleSystem::new(&ParticleSystemDescriptor {
        max: 4,
        rate: 2,
        pos: [1, 2, 3],
        name: "smoke",
        life: 77,
        bounds: ParticleSystemBounds::default(),
    })
    .unwrap();
    assert_eq!(sys.particles().len(), 4);
    for p in sys.particles() {
        assert_eq!(*p, Particle::default());
    }
    assert_eq!(queue(&sys), vec![0, 1, 2, 3]);
    assert_eq!(sys.rate(), 2);
    assert_eq!(sys.position(), [1, 2, 3]);
    assert_eq!(sys.name(), "smoke");
    assert_eq!(sys.life(), 77);
    assert_eq!(sys.bounds().life, (5 * UNIT, 2 * UNIT));
    assert_eq!(sys.particle_count(), 4);
    assert_well_formed(&sys);
}

#[test]
fn a_system_of_no_slots() {
    let mut sys = ParticleSystem::new(&descriptor(0, 3)).unwrap();
    assert_eq!(sys.particle_count(), 0);
    assert_eq!(sys.particle_buf_size(), None);
    let frame = sys.update(Duration::from_secs(1));
    assert!(frame.spawned.is_empty());
    assert!(frame.living.is_empty());
    assert!(sys.instances(&Vec::new()).is_empty());
    assert_well_formed(&sys);
}

#[test]
fn three_of_ten_are_alive_after_one_update() {
    let mut desc = descriptor(10, 3);
    desc.life = 1000 * UNIT;
    desc.bounds.life = (7_500_000, 2_500_000);
    let mut sys = ParticleSystem::new(&desc).unwrap();
    let frame = sys.update(Duration::from_secs(1));
    assert_eq!(live_count(&sys), 3);
    assert_eq!(frame.spawned, vec![0, 1, 2]);
    assert_eq!(frame.living, vec![0, 1, 2]);
    for slot in 0..3 {
        let life = sys.particles()[slot].life;
        assert!(4 * UNIT <= life && life <= 9 * UNIT);
    }
    assert_eq!(queue(&sys), vec![3, 4, 5, 6, 7, 8, 9]);
    assert_eq!(sys.life(), 999 * UNIT);
    assert_well_formed(&sys);
}

#[test]
fn a_particle_of_half_a_second_is_gone_after_a_second() {
    let mut desc = descriptor(1, 1);
    desc.bounds.life = (UNIT / 2, 0);
    let mut sys = ParticleSystem::new(&desc).unwrap();
    let frame = sys.update(Duration::from_secs(1));
    assert_eq!(frame.spawned, vec![0]);
    assert_eq!(sys.particles()[0].life, -UNIT / 2);
    assert!(sys.particles()[0].queued);
    assert!(frame.living.is_empty());
    assert_eq!(queue(&sys), vec![0]);
    let records = sys.instances(&Vec::new());
    assert_eq!(records, vec![ParticleInstance::empty()]);
    assert_eq!(instance_bytes(&records), vec![0u8; 116]);
    assert_well_formed(&sys);
}

#[test]
fn the_buffer_of_five_hundred_particles() {
    let sys = ParticleSystem::new(&descriptor(500, 1)).unwrap();
    assert_eq!(sys.particle_buf_size(), Some(500 * 116));
    assert_eq!(sys.particle_buf_size(), Some(58_000));
    assert_eq!(sys.particle_buf_size(), Some(500 * ParticleInstance::size()));
    assert_eq!(sys.particle_count(), 500);
    let records = sys.instances(&Vec::new());
    assert_eq!(instance_bytes(&records).len(), 58_000);
}

#[test]
fn the_largest_pool_is_counted_in_32_bits() {
    assert_eq!(MAX_PARTICLES, u32::MAX as usize);
}

#[test]
fn eight_updates_of_the_default_system() {
    let mut sys = ParticleSystem::new(&descriptor(10, 3)).unwrap();
    let second = Duration::from_secs(1);
    let expected: [(&[usize], &[usize], &[usize]); 8] = [
        (&[0, 1, 2], &[0, 1, 2], &[3, 4, 5, 6, 7, 8, 9]),
        (&[3, 4, 5], &[0, 1, 2, 3, 4, 5], &[6, 7, 8, 9]),
        (&[6, 7, 8], &[0, 1, 2, 3, 4, 5, 6, 7, 8], &[9]),
        (&[9], &[1, 2, 3, 4, 5, 6, 7, 8, 9], &[0]),
        (&[0], &[0, 1, 2, 3, 4, 5, 6, 7, 8, 9], &[]),
        (&[], &[0, 2, 3, 4, 5, 6, 7, 8, 9], &[1]),
        (&[1], &[0, 1, 4, 7, 8], &[2, 3, 5, 6, 9]),
        (&[2, 3, 5], &[1, 2, 3, 5, 7, 8], &[6, 9, 0, 4]),
    ];
    for (spawned, living, free) in expected {
        let frame = sys.update(second);
        assert_eq!(frame.spawned, spawned);
        assert_eq!(frame.living, living);
        assert_eq!(queue(&sys), free);
        assert_well_formed(&sys);
    }
    assert_eq!(
        lives(&sys),
        vec![-573510, 3175226, 5779836, 3114975, -310473, 3742012, -1208317, 701554, 509229, -1842563]
    );
    assert_eq!(sys.life(), 992 * UNIT);
}

#[test]
fn a_pool_is_resized_between_updates() {
    let mut sys = ParticleSystem::new(&descriptor(10, 3)).unwrap();
    let second = Duration::from_secs(1);
    for _ in 0..8 {
        sys.update(second);
    }
    sys.set_max_particles(4).unwrap();
    assert_eq!(sys.particle_count(), 4);
    assert_eq!(queue(&sys), vec![0]);
    assert_eq!(lives(&sys), vec![-573510, 3175226, 5779836, 3114975]);
    assert_well_formed(&sys);
    let frame = sys.update(second);
    assert_eq!(frame.spawned, vec![0]);
    assert_eq!(frame.living, vec![0, 1, 2, 3]);
    assert_eq!(lives(&sys), vec![5345039, 2175226, 4779836, 2114975]);
    sys.set_max_particles(7).unwrap();
    assert_eq!(queue(&sys), vec![4, 5, 6]);
    assert_eq!(lives(&sys), vec![5345039, 2175226, 4779836, 2114975, 0, 0, 0]);
    assert_well_formed(&sys);
    let frame = sys.update(Duration::from_millis(500));
    assert_eq!(frame.spawned, vec![4, 5, 6]);
    assert_eq!(frame.living, vec![0, 1, 2, 3, 4, 5, 6]);
    assert_eq!(lives(&sys), vec![4845039, 1675226, 4279836, 1614975, 5604790, 4660018, 3793211]);
    assert!(queue(&sys).is_empty());
    assert_well_formed(&sys);
}

#[test]
fn a_pool_that_grows_gets_as_many_free_slots() {
    let mut sys = ParticleSystem::new(&descriptor(3, 2)).unwrap();
    sys.update(Duration::from_secs(1));
    assert_eq!(queue(&sys), vec![2]);
    let before = sys.particles().clone();
    sys.set_max_particles(8).unwrap();
    assert_eq!(sys.spawnqueue().len(), 1 + (8 - 3));
    assert_eq!(queue(&sys), vec![2, 3, 4, 5, 6, 7]);
    assert_eq!(&sys.particles()[..3], &before[..]);
    for slot in 3..8 {
        assert_eq!(sys.particles()[slot], Particle::default());
    }
    assert_eq!(sys.particle_buf_size(), Some(8 * 116));
    assert_well_formed(&sys);
}

#[test]
fn a_pool_that_shrinks_forgets_the_slots_that_are_gone() {
    let mut sys = ParticleSystem::new(&descriptor(8, 3)).unwrap();
    sys.update(Duration::from_secs(1));
    assert_eq!(queue(&sys), vec![3, 4, 5, 6, 7]);
    let before = sys.particles().clone();
    sys.set_max_particles(5).unwrap();
    assert_eq!(sys.particles().len(), 5);
    assert_eq!(queue(&sys), vec![3, 4]);
    assert!(sys.spawnqueue().iter().all(|slot| *slot < 5));
    assert_eq!(&sys.particles()[..], &before[..5]);
    assert_well_formed(&sys);
    let frame = sys.update(Duration::from_secs(1));
    assert_eq!(frame.spawned, vec![3, 4]);
    assert!(frame.living.iter().all(|slot| *slot < 5));
    sys.set_max_particles(0).unwrap();
    assert_eq!(sys.particle_count(), 0);
    assert!(sys.spawnqueue().is_empty());
    assert_eq!(sys.particle_buf_size(), None);
    assert_well_formed(&sys);
}

#[test]
fn a_pool_resized_to_its_size_is_left_alone() {
    let mut sys = ParticleSystem::new(&descriptor(6, 4)).unwrap();
    sys.update(Duration::from_secs(2));
    let particles = sys.particles().clone();
    let free = queue(&sys);
    sys.set_max_particles(6).unwrap();
    assert_eq!(sys.particles(), &particles);
    assert_eq!(queue(&sys), free);
}

#[test]
fn no_more_particles_are_alive_than_there_are_slots() {
    let mut desc = descriptor(16, 5);
    desc.bounds.life = (3 * UNIT, 3 * UNIT);
    let mut sys = ParticleSystem::new(&desc).unwrap();
    for step in 0..400u64 {
        let frame = sys.update(Duration::from_millis(50 + 37 * (step % 11)));
        assert!(live_count(&sys) <= 16);
        assert_eq!(frame.living.len(), live_count(&sys));
        assert_eq!(sys.particle_count(), 16);
        assert_well_formed(&sys);
    }
}

#[test]
fn an_update_brings_no_more_to_life_than_the_rate() {
    let mut desc = descriptor(40, 4);
    desc.bounds.life = (UNIT, UNIT);
    let mut sys = ParticleSystem::new(&desc).unwrap();
    for step in 0..300u64 {
        let before: Vec<bool> = sys.particles().iter().map(|p| p.life > 0).collect();
        let frame = sys.update(Duration::from_millis(20 * (step % 7)));
        let revived: Vec<usize> =
            (0..40).filter(|slot| !before[*slot] && sys.particles()[*slot].life > 0).collect();
        assert!(revived.len() <= 4);
        assert!(frame.spawned.len() <= 4);
        for slot in &revived {
            assert!(frame.spawned.contains(slot));
        }
        for (k, slot) in frame.spawned.iter().enumerate() {
            assert!(!before[*slot], "a particle was spawned over a live one");
            assert!(!frame.spawned[..k].contains(slot));
        }
    }
}

#[test]
fn a_system_past_its_lifetime_spawns_no_more() {
    let mut desc = descriptor(10, 2);
    desc.life = 0;
    let mut sys = ParticleSystem::new(&desc).unwrap();
    let frame = sys.update(Duration::from_secs(1));
    assert_eq!(frame.spawned, vec![0, 1]);
    assert_eq!(sys.life(), -UNIT);
    for _ in 0..20 {
        let frame = sys.update(Duration::from_secs(1));
        assert!(frame.spawned.is_empty());
        assert_well_formed(&sys);
    }
    assert_eq!(live_count(&sys), 0);
    assert_eq!(sys.spawnqueue().len(), 10);
    assert_eq!(sys.life(), -21 * UNIT);
}

#[test]
fn a_full_pool_spawns_nothing() {
    let mut desc = descriptor(3, 5);
    desc.bounds.life = (100 * UNIT, 0);
    let mut sys = ParticleSystem::new(&desc).unwrap();
    let frame = sys.update(Duration::from_secs(1));
    assert_eq!(frame.spawned, vec![0, 1, 2]);
    assert_eq!(frame.skipped, 2);
    let particles = sys.particles().clone();
    let frame = sys.update(Duration::ZERO);
    assert!(frame.spawned.is_empty());
    assert_eq!(frame.skipped, 5);
    assert_eq!(frame.living, vec![0, 1, 2]);
    assert_eq!(sys.particles(), &particles);
}

#[test]
fn nothing_is_skipped_while_slots_are_free() {
    let mut sys = ParticleSystem::new(&descriptor(10, 3)).unwrap();
    for _ in 0..3 {
        assert_eq!(sys.update(Duration::from_secs(1)).skipped, 0);
    }
    assert_eq!(sys.update(Duration::from_secs(1)).skipped, 2);
    let mut over = descriptor(4, 2);
    over.life = -1;
    let mut sys = ParticleSystem::new(&over).unwrap();
    let frame = sys.update(Duration::from_secs(1));
    assert!(frame.spawned.is_empty());
    assert_eq!(frame.skipped, 0);
}

#[test]
fn a_system_runs_on_the_generator_that_it_is_given() {
    let desc = descriptor(8, 2);
    let mut plain = ParticleSystem::new(&desc).unwrap();
    let mut same = ParticleSystem::with_rand(&desc, Randf32::new()).unwrap();
    let mut other = ParticleSystem::with_rand(&desc, Randf32::with_seed(1)).unwrap();
    plain.update(Duration::from_secs(1));
    same.update(Duration::from_secs(1));
    other.update(Duration::from_secs(1));
    assert_eq!(plain.particles(), same.particles());
    assert_ne!(plain.particles(), other.particles());
    let mut rand = Randf32::with_seed(1);
    let first = Particle::new(&mut rand, &desc.bounds, &desc.pos);
    assert_eq!(other.particles()[0].velocity, first.velocity);
    assert_eq!(other.particles()[0].life, first.life - UNIT);
    assert_well_formed(&other);
}

#[test]
fn only_whole_milliseconds_count() {
    let mut desc = descriptor(1, 1);
    desc.bounds.life = (10 * UNIT, 0);
    let mut sys = ParticleSystem::new(&desc).unwrap();
    sys.update(Duration::from_micros(1_999));
    assert_eq!(sys.particles()[0].life, 10 * UNIT - 1_000);
    sys.update(Duration::from_millis(1_500));
    assert_eq!(sys.particles()[0].life, 10 * UNIT - 1_000 - 1_500_000);
    sys.update(Duration::from_nanos(999_999));
    assert_eq!(sys.particles()[0].life, 10 * UNIT - 1_000 - 1_500_000);
    sys.update_millis(250);
    assert_eq!(sys.particles()[0].life, 10 * UNIT - 1_000 - 1_500_000 - 250_000);
}

#[test]
fn an_update_by_a_span_is_the_update_by_its_milliseconds() {
    let mut a = ParticleSystem::new(&descriptor(12, 3)).unwrap();
    let mut b = ParticleSystem::new(&descriptor(12, 3)).unwrap();
    for step in 0..50u64 {
        let span = Duration::from_micros(400_000 + 123_457 * step);
        let fa = a.update(span);
        let fb = b.update_millis(span.as_millis());
        assert_eq!(fa.spawned, fb.spawned);
        assert_eq!(fa.living, fb.living);
        assert_eq!(a.particles(), b.particles());
        assert_eq!(a.spawnqueue(), b.spawnqueue());
        assert_eq!(a.life(), b.life());
    }
}

#[test]
fn the_longest_time_is_held_to_64_bits() {
    let mut desc = descriptor(2, 1);
    desc.bounds.life = (i64::MAX, 0);
    desc.life = i64::MAX;
    let mut sys = ParticleSystem::new(&desc).unwrap();
    sys.update(Duration::ZERO);
    assert_eq!(sys.particles()[0].life, i64::MAX);
    let frame = sys.update(Duration::MAX);
    assert_eq!(frame.spawned, vec![1]);
    assert!(frame.living.is_empty());
    assert_eq!(sys.particles()[0].life, i64::MIN);
    assert_eq!(sys.particles()[1].life, i64::MIN);
    assert_eq!(sys.particles()[0].life as i128, i64::MAX as i128 - u64::MAX as i128);
    assert_eq!(sys.life(), i64::MIN);
    sys.update_millis(u128::MAX);
    assert_eq!(sys.particles()[0].life, i64::MIN);
    assert_well_formed(&sys);
    let mut other = ParticleSystem::new(&desc).unwrap();
    other.update(Duration::ZERO);
    other.update_millis(18_446_744_073_709_551);
    assert_eq!(other.particles()[0].life as i128, i64::MAX as i128 - 18_446_744_073_709_551_000);
    other.update_millis(18_446_744_073_709_552);
    assert_eq!(other.particles()[0].life, i64::MIN);
}

#[test]
fn setters_take_effect_with_the_next_spawn() {
    let mut sys = ParticleSystem::new(&descriptor(10, 1)).unwrap();
    sys.update(Duration::ZERO);
    let first = sys.particles()[0];
    sys.set_position([5 * UNIT, 0, -UNIT]);
    sys.set_rate(2);
    sys.set_name(String::from("sparks"));
    sys.set_mass_variance((3, 0));
    sys.set_initial_velocity_variance([(1, 0), (2, 0), (3, 0)]);
    sys.set_spawn_variance([(10, 0), (20, 0), (30, 0)]);
    sys.set_life_variance((9 * UNIT, 0));
    sys.set_color_variance([(4, 0), (5, 0), (6, 0), (7, 0)]);
    sys.set_scale_variance((11, 0));
    assert_eq!(sys.particles()[0], first);
    assert_eq!(sys.position(), [5 * UNIT, 0, -UNIT]);
    assert_eq!(sys.rate(), 2);
    assert_eq!(sys.name(), "sparks");
    assert_eq!(sys.bounds().mass, (3, 0));
    assert_eq!(sys.bounds().rotation, [(0, 0); 4]);
    let frame = sys.update(Duration::ZERO);
    assert_eq!(frame.spawned, vec![1, 2]);
    assert_eq!(sys.particles()[0], first);
    let expected = Particle {
        position: [5 * UNIT + 10, 20, -UNIT + 30],
        velocity: [1, 2, 3],
        rotation: [0, 0, 0, 0],
        scale: 11,
        life: 9 * UNIT,
        mass: 3,
        color: [4, 5, 6, 7],
        queued: false,
    };
    assert_eq!(sys.particles()[1], expected);
    assert_eq!(sys.particles()[2], expected);
}

#[test]
fn two_systems_of_one_descriptor_run_alike() {
    let desc = descriptor(20, 3);
    let mut a = ParticleSystem::new(&desc).unwrap();
    let mut b = ParticleSystem::new(&desc).unwrap();
    for step in 0..100u64 {
        let span = Duration::from_millis(100 + 7 * step);
        let fa = a.update(span);
        let fb = b.update(span);
        assert_eq!(fa.spawned, fb.spawned);
        assert_eq!(fa.living, fb.living);
        assert_eq!(a.particles(), b.particles());
        assert_eq!(a.spawnqueue(), b.spawnqueue());
    }
}

#[test]
fn the_records_of_a_frame_end_in_zeros() {
    let sys = ParticleSystem::new(&descriptor(4, 1)).unwrap();
    let mut one = ParticleInstance::empty();
    one.color = [1, 2, 3, 4];
    let mut two = ParticleInstance::empty();
    two.model[3] = [9, 9, 9, 9];
    let records = sys.instances(&vec![one, two]);
    assert_eq!(records, vec![one, two, ParticleInstance::empty(), ParticleInstance::empty()]);
    let full = sys.instances(&vec![one, two, one, two]);
    assert_eq!(full, vec![one, two, one, two]);
    let over = sys.instances(&vec![one, two, one, two, one, one]);
    assert_eq!(over, vec![one, two, one, two]);
    assert_eq!(instance_bytes(&records).len(), 4 * 116);
    assert!(instance_bytes(&records)[2 * 116..].iter().all(|b| *b == 0));
}

#[test]
fn a_frame_is_drawn_from_the_back() {
    let mut desc = descriptor(6, 4);
    desc.bounds.life = (10 * UNIT, 0);
    let mut sys = ParticleSystem::new(&desc).unwrap();
    let frame: Frame = sys.update(Duration::from_secs(1));
    assert_eq!(frame.living, vec![0, 1, 2, 3]);
    let distance = [2.0f32, 8.5, 2.0, 5.25];
    let mut living: Vec<Living> = frame
        .living
        .iter()
        .map(|slot| Living { slot: *slot, cam_dist: distance[*slot].to_bits() })
        .collect();
    sort_living(&mut living);
    let order: Vec<usize> = living.iter().map(|l| l.slot).collect();
    assert_eq!(order, vec![1, 3, 0, 2]);
    let drawn: Vec<ParticleInstance> = order
        .iter()
        .map(|slot| {
            let mut record = ParticleInstance::empty();
            record.color[0] = 100 + *slot as u32;
            record
        })
        .collect();
    let records = sys.instances(&drawn);
    assert_eq!(records.len(), 6);
    let first: Vec<u32> = records.iter().map(|r| r.color[0]).collect();
    assert_eq!(first, vec![101, 103, 100, 102, 0, 0]);
}

#[test]
fn a_set_updates_each_of_its_systems() {
    let mut alone = ParticleSystem::new(&descriptor(5, 2)).unwrap();
    let mut set = ParticleSystemSet::new(vec![
        ParticleSystem::new(&descriptor(5, 2)).unwrap(),
        ParticleSystem::new(&descriptor(3, 1)).unwrap(),
        ParticleSystem::new(&descriptor(0, 9)).unwrap(),
    ]);
    assert_eq!(set.systems().len(), 3);
    assert_eq!(set.systems()[1].particle_count(), 3);
    for step in 0..10u64 {
        let span = Duration::from_millis(900 + step);
        let frames = set.update(span);
        let frame = alone.update(span);
        assert_eq!(frames.len(), 3);
        assert_eq!(frames[0].spawned, frame.spawned);
        assert_eq!(frames[0].living, frame.living);
        assert_eq!(set.systems()[0].particles(), alone.particles());
        assert!(frames[1].spawned.len() <= 1);
        assert!(frames[2].spawned.is_empty());
        assert_well_formed(&set.0[1]);
    }
    let frames = set.update_millis(1);
    assert_eq!(frames.len(), 3);
    let mut none = ParticleSystemSet::new(Vec::new());
    assert!(none.update(Duration::from_secs(1)).is_empty());
    assert!(none.systems().is_empty());
}

#[test]
fn a_pool_larger_than_a_draw_can_count_is_refused() {
    if usize::MAX == MAX_PARTICLES {
        return;
    }
    let too_many = MAX_PARTICLES + 1;
    match ParticleSystem::new(&descriptor(too_many, 1)) {
        Err(BrumousError::TooManyParticles(max)) => assert_eq!(max, too_many),
        _ => panic!("a pool too large is due"),
    }
    assert!(matches!(
        ParticleSystem::with_rand(&descriptor(usize::MAX, 1), Randf32::new()),
        Err(BrumousError::TooManyParticles(usize::MAX))
    ));
    let mut sys = ParticleSystem::new(&descriptor(3, 2)).unwrap();
    sys.update(Duration::from_secs(1));
    let particles = sys.particles().clone();
    let free = queue(&sys);
    match sys.set_max_particles(too_many) {
        Err(BrumousError::TooManyParticles(max)) => assert_eq!(max, too_many),
        _ => panic!("a pool too large is due"),
    }
    assert_eq!(sys.particles(), &particles);
    assert_eq!(queue(&sys), free);
    assert_eq!(
        BrumousError::TooManyParticles(too_many).message(),
        format!("\n                    \rToo many particles: {}", too_many)
    );
}

#[test]
fn the_records_of_a_frame_stand_in_drawing_order() {
    let mut desc = descriptor(5, 3);
    desc.bounds.life = (10 * UNIT, 0);
    let mut sys = ParticleSystem::new(&desc).unwrap();
    let frame = sys.update(Duration::from_secs(1));
    assert_eq!(frame.living, vec![0, 1, 2]);
    let record = |mark: u32| {
        let mut record = ParticleInstance::empty();
        record.color[3] = mark;
        record
    };
    let records = vec![record(10), record(11), record(12), record(13), record(14)];
    let living = vec![
        Living { slot: 0, cam_dist: 2.0f32.to_bits() },
        Living { slot: 1, cam_dist: 9.0f32.to_bits() },
        Living { slot: 2, cam_dist: 2.0f32.to_bits() },
    ];
    let out = sys.frame_instances(&living, &records);
    assert_eq!(out, vec![record(11), record(10), record(12), record(0), record(0)]);
    let shuffled = vec![living[2], living[0], living[1]];
    assert_eq!(sys.frame_instances(&shuffled, &records), out);
    assert_eq!(sys.frame_instances(&Vec::new(), &records), vec![record(0); 5]);
    let beyond = vec![Living { slot: 7, cam_dist: 1 }, Living { slot: 4, cam_dist: 0 }];
    assert_eq!(
        sys.frame_instances(&beyond, &records),
        vec![record(0), record(14), record(0), record(0), record(0)]
    );
    let few = vec![record(10)];
    assert_eq!(
        sys.frame_instances(&living, &few),
        vec![record(0), record(10), record(0), record(0), record(0)]
    );
}

#[test]
fn spawning_uses_free_slots_once_and_touches_no_live_particle() {
    let mut desc = descriptor(6, 2);
    desc.bounds.life = (3 * UNIT, 2 * UNIT);
    let mut sys = ParticleSystem::new(&desc).unwrap();
    for step in 0..200usize {
        sys.update(Duration::from_millis(700));
        let before = sys.particles().clone();
        let free = queue(&sys);
        let rate = step % 9;
        let spawned = sys.respawn_particles(rate);
        assert_eq!(spawned.len(), rate.min(free.len()));
        assert_eq!(spawned, free[..spawned.len()].to_vec());
        assert_eq!(queue(&sys), free[spawned.len()..].to_vec());
        for (k, slot) in spawned.iter().enumerate() {
            assert!(!spawned[..k].contains(slot));
            assert!(before[*slot].life <= 0);
            assert!(!sys.particles()[*slot].queued);
        }
        for (slot, particle) in before.iter().enumerate() {
            if particle.life > 0 {
                assert_eq!(sys.particles()[slot], *particle);
            }
            if !spawned.contains(&slot) {
                assert_eq!(sys.particles()[slot], *particle);
            }
        }
    }
}

#[test]
fn a_particle_spawned_dead_is_queued_by_the_next_update() {
    let mut desc = descriptor(2, 1);
    desc.bounds.life = (0, 0);
    let mut sys = ParticleSystem::new(&desc).unwrap();
    assert_eq!(sys.respawn_particles(5), vec![0, 1]);
    assert_eq!(sys.particles()[0].life, 0);
    assert!(!sys.particles()[0].queued);
    assert!(queue(&sys).is_empty());
    let frame = sys.update(Duration::ZERO);
    assert!(frame.spawned.is_empty());
    assert!(frame.living.is_empty());
    assert_eq!(queue(&sys), vec![0, 1]);
    assert_well_formed(&sys);
}
