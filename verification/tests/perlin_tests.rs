use raytracer::perlin::{Perlin, POINT_COUNT};
use raytracer::rt_weekend::random_int_in_range;
use raytracer::scalar::Scalar;
use raytracer::vec3::Vec3;

fn gradients() -> Vec<Vec3> {
    let mut v = Vec::new();
    for i in 0..POINT_COUNT {
        v.push(Vec3::new(
            Scalar::from_key(i as i64),
            Scalar::from_key(2 * i as i64),
            Scalar::from_key(-(i as i64)),
        ));
    }
    v
}

fn is_arrangement(p: &[i32]) -> bool {
    let mut sorted = p.to_vec();
    sorted.sort();
    sorted.len() == POINT_COUNT && sorted.iter().enumerate().all(|(i, v)| *v == i as i32)
}

#[test]
fn random_int_stays_in_range() {
    for _ in 0..2000 {
        let r = random_int_in_range(0, 2);
        assert!((0..=2).contains(&r));
        let r = random_int_in_range(-3, 3);
        assert!((-3..=3).contains(&r));
        assert_eq!(random_int_in_range(7, 7), 7);
    }
}

#[test]
fn random_int_reaches_both_ends() {
    let mut seen = [false; 3];
    for _ in 0..2000 {
        seen[random_int_in_range(0, 2) as usize] = true;
    }
    assert_eq!(seen, [true, true, true]);
}

#[test]
fn generated_table_is_an_arrangement() {
    for _ in 0..20 {
        let p = Perlin::perlin_generate_perm();
        assert!(is_arrangement(&p));
    }
}

#[test]
fn generated_tables_are_shuffled() {
    let identity: Vec<i32> = (0..POINT_COUNT as i32).collect();
    let mut moved = false;
    for _ in 0..5 {
        if Perlin::perlin_generate_perm() != identity {
            moved = true;
        }
    }
    assert!(moved);
}

#[test]
fn permute_rearranges_only_the_front() {
    let mut p: Vec<i32> = vec![10, 20, 30, 40, 50, 60, 70];
    Perlin::permute(&mut p, 4);
    assert_eq!(&p[4..], &[50, 60, 70]);
    let mut front = p[..4].to_vec();
    front.sort();
    assert_eq!(front, vec![10, 20, 30, 40]);
    let mut q: Vec<i32> = vec![5, 6];
    Perlin::permute(&mut q, 0);
    assert_eq!(q, vec![5, 6]);
    Perlin::permute(&mut q, 1);
    assert_eq!(q, vec![5, 6]);
}

#[test]
fn lattice_is_well_formed() {
    let g = gradients();
    let p = Perlin::new(g.clone());
    assert_eq!(p.ran_vec, g);
    assert!(is_arrangement(&p.perm_x));
    assert!(is_arrangement(&p.perm_y));
    assert!(is_arrangement(&p.perm_z));
}

#[test]
fn gradient_hashes_the_low_bytes() {
    let p = Perlin::new(gradients());
    let points = [(0, 0, 0), (1, 2, 3), (255, 256, 257), (-1, -256, -257), (i32::MAX, i32::MIN, 1000)];
    for (i, j, k) in points.iter() {
        let cell = p.perm_x[(*i & 255) as usize]
            ^ p.perm_y[(*j & 255) as usize]
            ^ p.perm_z[(*k & 255) as usize];
        assert_eq!(p.gradient(*i, *j, *k), p.ran_vec[cell as usize]);
    }
    assert_eq!(p.gradient(256, 512, -256), p.gradient(0, 0, 0));
}

#[test]
fn corners_are_the_eight_gradients_of_the_cell() {
    let p = Perlin::new(gradients());
    let cells = [(0, 0, 0), (254, 255, 256), (-1, -1, -1), (-300, 12, 70000)];
    for (i, j, k) in cells.iter() {
        let c = p.corners(*i, *j, *k);
        assert_eq!(c.len(), 8);
        for di in 0..2 {
            for dj in 0..2 {
                for dk in 0..2 {
                    assert_eq!(
                        c[(4 * di + 2 * dj + dk) as usize],
                        p.gradient(i + di, j + dj, k + dk)
                    );
                }
            }
        }
    }
}
