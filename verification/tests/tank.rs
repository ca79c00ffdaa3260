use diffusion::molecule::{Molecule, MoleculeConfig};
use diffusion::tank::{Tank, COLLISION_COOLDOWN, MAX_POPULATION};
use diffusion::SimError;

fn empty_tank(height: i64, width: i64, wall: i64) -> Tank {
    Tank {
        height,
        width,
        wall,
        l_mol: vec![],
        r_mol: vec![],
        l_collisions: vec![],
        r_collisions: vec![],
    }
}

#[test]
fn new_tank_populations_and_tables() {
    let l = MoleculeConfig::default();
    let r = MoleculeConfig::default();
    let t = Tank::new(400, 600, 300, 3, 4, &l, &r).unwrap();
    assert_eq!((t.height, t.width, t.wall), (400, 600, 300));
    assert_eq!(t.l_mol.len(), 3);
    assert_eq!(t.r_mol.len(), 4);
    assert_eq!(t.l_collisions, vec![0u8; 3]);
    assert_eq!(t.r_collisions, vec![0u8; 6]);
    for m in &t.l_mol {
        assert!(m.radius <= m.x && m.x < 300 - m.radius);
    }
    for m in &t.r_mol {
        assert!(300 + m.radius <= m.x && m.x < 600 - m.radius);
    }
}

#[test]
fn new_tank_rejects_oversized_population() {
    let c = MoleculeConfig::default();
    let r = Tank::new(400, 600, 300, MAX_POPULATION + 1, 4, &c, &c);
    assert_eq!(r.unwrap_err(), SimError::InvalidCount);
}

#[test]
fn new_tank_rejects_narrow_left_band() {
    let c = MoleculeConfig::default();
    let r = Tank::new(400, 600, 15, 1, 1, &c, &c);
    assert_eq!(r.unwrap_err(), SimError::InvalidRegion);
}

#[test]
fn single_particle_moves_freely() {
    // one left particle well inside its band: one step neither reflects
    // nor collides, it only advances by its velocity
    let mut t = empty_tank(400, 600, 300);
    t.l_mol = vec![Molecule::new(290, 200, 5, 0, 8)];
    t.update();
    let m = t.l_mol[0];
    assert_eq!((m.x, m.y, m.dx, m.dy), (295, 200, 5, 0));
}

#[test]
fn tangent_pair_triggers_once_and_holds_cooldown() {
    // squared distance 256 equals the squared radius sum exactly: contact
    let mut t = empty_tank(400, 600, 300);
    t.l_mol = vec![
        Molecule::new(100, 200, 0, 0, 8),
        Molecule::new(116, 200, 0, 0, 8),
    ];
    t.l_collisions = vec![0];

    t.update();
    assert_eq!(t.l_collisions, vec![COLLISION_COOLDOWN]);
    assert_eq!((t.l_mol[0].dx, t.l_mol[0].dy), (0, 0));
    assert_eq!((t.l_mol[1].dx, t.l_mol[1].dy), (0, 0));

    // still in contact: the armed cooldown suppresses a second exchange
    // and is not decremented while contact holds
    t.update();
    assert_eq!(t.l_collisions, vec![COLLISION_COOLDOWN]);
    assert_eq!((t.l_mol[0].dx, t.l_mol[0].dy), (0, 0));
    assert_eq!((t.l_mol[1].dx, t.l_mol[1].dy), (0, 0));
}

#[test]
fn tangent_pair_exchanges_head_on_velocities() {
    let mut t = empty_tank(400, 600, 300);
    t.l_mol = vec![
        Molecule::new(100, 200, 4, 0, 8),
        Molecule::new(116, 200, -4, 0, 8),
    ];
    t.l_collisions = vec![0];
    t.update();
    // the exchange swaps the head-on velocities, then the step integrates
    assert_eq!((t.l_mol[0].x, t.l_mol[0].dx), (96, -4));
    assert_eq!((t.l_mol[1].x, t.l_mol[1].dx), (120, 4));
    assert_eq!(t.l_collisions, vec![COLLISION_COOLDOWN]);
}

#[test]
fn cooldown_decays_once_contact_ends() {
    let mut t = empty_tank(400, 600, 300);
    t.l_mol = vec![
        Molecule::new(50, 200, 0, 0, 8),
        Molecule::new(250, 200, 0, 0, 8),
    ];
    t.l_collisions = vec![3];
    t.update();
    assert_eq!(t.l_collisions, vec![2]);
    t.update();
    assert_eq!(t.l_collisions, vec![1]);
    t.update();
    assert_eq!(t.l_collisions, vec![0]);
    t.update();
    assert_eq!(t.l_collisions, vec![0]);
}

#[test]
fn no_collision_across_the_wall() {
    // a left and a right particle at identical coordinates overlap
    // geometrically, but the pass never pairs them
    let mut t = empty_tank(400, 600, 300);
    t.l_mol = vec![Molecule::new(290, 200, 0, 0, 8)];
    t.r_mol = vec![Molecule::new(290, 200, 0, 0, 8)];
    t.update();
    assert_eq!((t.l_mol[0].dx, t.l_mol[0].dy), (0, 0));
    assert_eq!((t.r_mol[0].dx, t.r_mol[0].dy), (0, 0));
}

#[test]
fn update_on_empty_tank() {
    let mut t = empty_tank(400, 600, 300);
    t.update();
    assert!(t.l_mol.is_empty());
    assert!(t.r_mol.is_empty());
}

#[test]
fn resize_to_same_count_changes_nothing() {
    let c = MoleculeConfig::default();
    let mut t = Tank::new(400, 600, 300, 3, 4, &c, &c).unwrap();
    t.l_collisions[0] = 2;
    let l_before = t.l_mol.clone();
    let r_before = t.r_mol.clone();
    let lc_before = t.l_collisions.clone();
    let rc_before = t.r_collisions.clone();
    t.update_mol_number(3, 4, &c, &c).unwrap();
    assert_eq!(t.l_mol, l_before);
    assert_eq!(t.r_mol, r_before);
    assert_eq!(t.l_collisions, lc_before);
    assert_eq!(t.r_collisions, rc_before);
}

#[test]
fn resize_shrink_keeps_prefix() {
    let c = MoleculeConfig::default();
    let mut t = Tank::new(400, 600, 300, 5, 4, &c, &c).unwrap();
    let l_before = t.l_mol.clone();
    t.update_mol_number(2, 4, &c, &c).unwrap();
    assert_eq!(t.l_mol.len(), 2);
    assert_eq!(&t.l_mol[..], &l_before[..2]);
    assert_eq!(t.l_collisions, vec![0u8; 1]);
}

#[test]
fn resize_grow_keeps_prefix_and_rebuilds_table() {
    let c = MoleculeConfig::default();
    let mut t = Tank::new(400, 600, 300, 2, 4, &c, &c).unwrap();
    t.l_collisions[0] = 4;
    let l_before = t.l_mol.clone();
    t.update_mol_number(4, 4, &c, &c).unwrap();
    assert_eq!(t.l_mol.len(), 4);
    assert_eq!(&t.l_mol[..2], &l_before[..]);
    for m in &t.l_mol[2..] {
        assert!(m.radius <= m.x && m.x < 300 - m.radius);
    }
    assert_eq!(t.l_collisions, vec![0u8; 6]);
}

#[test]
fn resize_grow_then_shrink_restores_particles() {
    let c = MoleculeConfig::default();
    let mut t = Tank::new(400, 600, 300, 3, 3, &c, &c).unwrap();
    let l_before = t.l_mol.clone();
    t.update_mol_number(6, 3, &c, &c).unwrap();
    t.update_mol_number(3, 3, &c, &c).unwrap();
    assert_eq!(t.l_mol, l_before);
}

#[test]
fn resize_rejects_oversized_population() {
    let c = MoleculeConfig::default();
    let mut t = Tank::new(400, 600, 300, 3, 3, &c, &c).unwrap();
    let r = t.update_mol_number(MAX_POPULATION + 1, 3, &c, &c);
    assert_eq!(r.unwrap_err(), SimError::InvalidCount);
    assert_eq!(t.l_mol.len(), 3);
}

#[test]
fn resize_rejects_growth_into_narrow_band() {
    let c = MoleculeConfig::default();
    let mut t = empty_tank(400, 600, 15);
    let r = t.update_mol_number(1, 0, &c, &c);
    assert_eq!(r.unwrap_err(), SimError::InvalidRegion);
    assert!(t.l_mol.is_empty());
}

#[test]
fn resize_shrink_ignores_band_width() {
    // shrinking samples nothing, so a narrow band does not matter
    let mut t = empty_tank(400, 600, 15);
    t.l_mol = vec![
        Molecule::new(8, 100, 0, 0, 4),
        Molecule::new(8, 300, 0, 0, 4),
    ];
    t.l_collisions = vec![0];
    let c = MoleculeConfig::default();
    t.update_mol_number(1, 0, &c, &c).unwrap();
    assert_eq!(t.l_mol.len(), 1);
}

#[test]
fn wall_tracks_target_one_tenth_per_call() {
    let mut t = empty_tank(400, 600, 300);
    t.track_wall_target(200);
    assert_eq!(t.wall, 290);
    t.track_wall_target(200);
    assert_eq!(t.wall, 281);
}

#[test]
fn reflection_keeps_population_in_bounds() {
    let c = MoleculeConfig::new(8, 8, 5, 10);
    let mut t = Tank::new(400, 600, 300, 40, 40, &c, &c).unwrap();
    for _ in 0..100 {
        t.update();
    }
    t.inverse_dir_mol();
    for m in &t.l_mol {
        assert!(m.x >= m.radius && m.x <= 300 - m.radius);
        assert!(m.y >= m.radius && m.y <= 400 - m.radius);
    }
    for m in &t.r_mol {
        assert!(m.x >= 300 + m.radius && m.x <= 600 - m.radius);
        assert!(m.y >= m.radius && m.y <= 400 - m.radius);
    }
}
