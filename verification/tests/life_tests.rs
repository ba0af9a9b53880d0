use bevy_mod_scripting_lua_rs::life::{cell_alive, count_alive, history_evolves, reseed};

fn reference_reseed(len: usize) -> Vec<u8> {
    let mut cells = vec![0u8; len];
    let mut seed: u64 = 0x9e37_79b9_7f4a_7c15;
    for _ in 0..1000 {
        seed = seed
            .wrapping_mul(6364136223846793005)
            .wrapping_add(1442695040888963407);
        cells[(seed >> 33) as usize % len] = 255;
    }
    cells
}

#[test]
fn reseed_matches_generator_and_forgets_old_cells() {
    let mut a = vec![7u8; 48 * 48];
    let mut b = vec![0u8; 48 * 48];
    reseed(&mut a);
    reseed(&mut b);
    assert_eq!(a, b);
    assert_eq!(a, reference_reseed(48 * 48));
    assert!(a.iter().all(|&c| c == 0 || c == 255));
    assert!(count_alive(&a) > 0);
}

#[test]
fn reseed_single_cell() {
    let mut a = vec![3u8];
    reseed(&mut a);
    assert_eq!(a, vec![255]);
}

#[test]
fn count_alive_counts_nonzero() {
    assert_eq!(count_alive(&[]), 0);
    assert_eq!(count_alive(&[0, 1, 255, 0, 2]), 3);
}

#[test]
fn history_evolution() {
    assert!(!history_evolves(&vec![]));
    assert!(!history_evolves(&vec![5, 5, 5]));
    assert!(!history_evolves(&vec![0, 0]));
    assert!(history_evolves(&vec![0, 4]));
    assert!(history_evolves(&vec![10, 12, 10]));
}

#[test]
fn cell_alive_cases() {
    let cells = [0u8, 255, 1];
    assert!(!cell_alive(&cells, 0));
    assert!(cell_alive(&cells, 1));
    assert!(cell_alive(&cells, 2));
    assert!(!cell_alive(&cells, 3));
}
