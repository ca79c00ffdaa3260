use diffusion::molecule::{Molecule, MoleculeConfig};
use diffusion::SimError;

#[test]
fn config_new_builds_symmetric_ranges() {
    let c = MoleculeConfig::new(4, 3, 5, 10);
    assert_eq!(c.dx_min, -4);
    assert_eq!(c.dx_max, 4);
    assert_eq!(c.dy_min, -3);
    assert_eq!(c.dy_max, 3);
    assert_eq!(c.radius_min, 5);
    assert_eq!(c.radius_max, 10);
}

#[test]
fn config_default_values() {
    let c = MoleculeConfig::default();
    assert_eq!(c.dx_min, -4);
    assert_eq!(c.dx_max, 4);
    assert_eq!(c.dy_min, -4);
    assert_eq!(c.dy_max, 4);
    assert_eq!(c.radius_min, 5);
    assert_eq!(c.radius_max, 10);
}

#[test]
fn touching_at_exact_tangency() {
    // centers 10 apart, radii summing to 10: squared distance equals the
    // squared radius sum exactly
    let a = Molecule::new(0, 0, 0, 0, 5);
    let b = Molecule::new(6, 8, 0, 0, 5);
    assert!(a.is_mols_touching(&b));
}

#[test]
fn touching_inside_slack() {
    // squared distance 104 against squared reach 100 + 5
    let a = Molecule::new(1, 0, 0, 0, 5);
    let b = Molecule::new(11, 2, 0, 0, 5);
    assert!(a.is_mols_touching(&b));
}

#[test]
fn not_touching_past_slack() {
    // squared distance 106 against squared reach 100 + 5
    let a = Molecule::new(0, 0, 0, 0, 5);
    let b = Molecule::new(5, 9, 0, 0, 5);
    assert!(!a.is_mols_touching(&b));
}

#[test]
fn move_mol_adds_velocity() {
    let mut m = Molecule::new(100, 200, 5, -3, 8);
    m.move_mol();
    assert_eq!((m.x, m.y, m.dx, m.dy, m.radius), (105, 197, 5, -3, 8));
}

#[test]
fn inverse_dir_left_crossing_clamps_and_negates() {
    let mut m = Molecule::new(3, 100, -2, 1, 8);
    m.inverse_dir(0, 300, 400);
    assert_eq!((m.x, m.dx), (8, 2));
    assert_eq!((m.y, m.dy), (100, 1));
}

#[test]
fn inverse_dir_right_crossing_clamps_and_negates() {
    let mut m = Molecule::new(295, 100, 4, 0, 8);
    m.inverse_dir(0, 300, 400);
    assert_eq!((m.x, m.dx), (292, -4));
}

#[test]
fn inverse_dir_vertical_crossings() {
    let mut top = Molecule::new(100, 396, 0, 3, 8);
    top.inverse_dir(0, 300, 400);
    assert_eq!((top.y, top.dy), (392, -3));

    let mut bottom = Molecule::new(100, 5, 0, -3, 8);
    bottom.inverse_dir(0, 300, 400);
    assert_eq!((bottom.y, bottom.dy), (8, 3));
}

#[test]
fn inverse_dir_both_axes_in_one_pass() {
    let mut m = Molecule::new(2, 2, -1, -1, 8);
    m.inverse_dir(0, 300, 400);
    assert_eq!((m.x, m.y, m.dx, m.dy), (8, 8, 1, 1));
}

#[test]
fn inverse_dir_interior_is_untouched() {
    let mut m = Molecule::new(150, 200, 3, -2, 8);
    m.inverse_dir(0, 300, 400);
    assert_eq!((m.x, m.y, m.dx, m.dy), (150, 200, 3, -2));
}

#[test]
fn adjust_exact_values_with_truncation() {
    // centers 3 apart in x and 4 in y: denominator 25; the horizontal
    // numerator -90 and vertical numerator -120 truncate toward zero to
    // -3 and -4
    let mut a = Molecule::new(0, 0, 10, 0, 5);
    let mut b = Molecule::new(3, 4, 0, 0, 5);
    a.adjust_dir_after_collision(&mut b);
    assert_eq!((a.dx, a.dy), (7, -4));
    assert_eq!((b.dx, b.dy), (3, 4));
    assert_eq!((a.x, a.y, b.x, b.y), (0, 0, 3, 4));
}

#[test]
fn adjust_exact_values_divisible() {
    let mut a = Molecule::new(0, 0, 100, 0, 5);
    let mut b = Molecule::new(3, 4, 0, 0, 5);
    a.adjust_dir_after_collision(&mut b);
    assert_eq!((a.dx, a.dy), (64, -48));
    assert_eq!((b.dx, b.dy), (36, 48));
}

#[test]
fn adjust_vertical_pair_exchanges_center_distance() {
    // equal x coordinates: the vertical branch adds the center distance
    let mut a = Molecule::new(100, 100, 2, 1, 8);
    let mut b = Molecule::new(100, 112, -1, 3, 8);
    a.adjust_dir_after_collision(&mut b);
    assert_eq!((a.dx, a.dy), (2, 13));
    assert_eq!((b.dx, b.dy), (-1, -9));
}

#[test]
fn adjust_is_symmetric_in_argument_order() {
    let a0 = Molecule::new(100, 100, 2, 3, 8);
    let b0 = Molecule::new(116, 108, -1, 1, 8);

    let mut a1 = a0;
    let mut b1 = b0;
    a1.adjust_dir_after_collision(&mut b1);

    let mut a2 = a0;
    let mut b2 = b0;
    b2.adjust_dir_after_collision(&mut a2);

    assert_eq!(a1, a2);
    assert_eq!(b1, b2);
}

#[test]
fn adjust_is_symmetric_for_vertical_pair() {
    let a0 = Molecule::new(100, 100, 0, 0, 8);
    let b0 = Molecule::new(100, 116, 0, 0, 8);

    let mut a1 = a0;
    let mut b1 = b0;
    a1.adjust_dir_after_collision(&mut b1);

    let mut a2 = a0;
    let mut b2 = b0;
    b2.adjust_dir_after_collision(&mut a2);

    assert_eq!(a1, a2);
    assert_eq!(b1, b2);
    assert_eq!((a1.dy, b1.dy), (16, -16));
}

#[test]
fn factory_counts_and_ranges() {
    let conf = MoleculeConfig::default();
    let mols = Molecule::create_vec_mol(400, 0, 300, 50, &conf).unwrap();
    assert_eq!(mols.len(), 50);
    for m in &mols {
        assert!(conf.radius_min <= m.radius && m.radius < conf.radius_max);
        assert!(m.radius <= m.x && m.x < 300 - m.radius);
        assert!(m.radius <= m.y && m.y < 400 - m.radius);
        assert!(conf.dx_min <= m.dx && m.dx < conf.dx_max);
        assert!(conf.dy_min <= m.dy && m.dy < conf.dy_max);
    }
}

#[test]
fn factory_zero_count() {
    let conf = MoleculeConfig::default();
    let mols = Molecule::create_vec_mol(400, 0, 300, 0, &conf).unwrap();
    assert!(mols.is_empty());
}

#[test]
fn factory_rejects_empty_velocity_range() {
    let conf = MoleculeConfig::new(0, 4, 5, 10);
    let r = Molecule::create_vec_mol(400, 0, 300, 1, &conf);
    assert_eq!(r.unwrap_err(), SimError::InvalidConfig);
}

#[test]
fn factory_rejects_inverted_radius_range() {
    let conf = MoleculeConfig::new(4, 4, 10, 5);
    let r = Molecule::create_vec_mol(400, 0, 300, 1, &conf);
    assert_eq!(r.unwrap_err(), SimError::InvalidConfig);
}

#[test]
fn factory_rejects_narrow_band() {
    let conf = MoleculeConfig::default();
    let r = Molecule::create_vec_mol(400, 0, 20, 1, &conf);
    assert_eq!(r.unwrap_err(), SimError::InvalidRegion);
}

#[test]
fn factory_rejects_narrow_height() {
    let conf = MoleculeConfig::default();
    let r = Molecule::create_vec_mol(20, 0, 300, 1, &conf);
    assert_eq!(r.unwrap_err(), SimError::InvalidRegion);
}
