use rapidhash::{rapidrng_fast, rapidrng_time, RapidRng};

#[test]
fn test_rapidrng() {
    let mut rng = RapidRng::new(0);
    let x = rng.next();
    let y = rng.next();
    assert_ne!(x, 0);
    assert_ne!(x, y);
}

#[test]
fn bit_flip_trial() {
    let cycles = 100_000;
    let mut seen = std::collections::HashSet::with_capacity(cycles);
    let mut flips = Vec::with_capacity(cycles);
    let mut rng = RapidRng::new(0);

    let mut prev = 0;
    for _ in 0..cycles {
        let next = rng.next_u64();

        let xor = prev ^ next;
        let flipped = xor.count_ones() as u64;
        assert!(xor.count_ones() >= 12, "Flipping bit changed only {} bits", flipped);
        flips.push(flipped);

        assert!(!seen.contains(&next), "RapidRngFast produced a duplicate value");
        seen.insert(next);

        prev = next;
    }

    let average = flips.iter().sum::<u64>() as f64 / flips.len() as f64;
    assert!(
        average > 31.95 && average < 32.05,
        "Did not flip an average of half the bits. average: {}, expected: 32.0",
        average
    );
}

#[test]
fn bit_flip_trial_fast() {
    let cycles = 100_000;
    let mut seen = std::collections::HashSet::with_capacity(cycles);
    let mut flips = Vec::with_capacity(cycles);

    let mut prev = 0;
    for _ in 0..cycles {
        let next = rapidrng_fast(&mut prev);

        let xor = prev ^ next;
        let flipped = xor.count_ones() as u64;
        assert!(xor.count_ones() >= 12, "Flipping bit changed only {} bits", flipped);
        flips.push(flipped);

        assert!(!seen.contains(&next), "rapidrng_fast produced a duplicate value");
        seen.insert(next);

        prev = next;
    }

    let average = flips.iter().sum::<u64>() as f64 / flips.len() as f64;
    assert!(
        average > 31.95 && average < 32.05,
        "Did not flip an average of half the bits. average: {}, expected: 32.0",
        average
    );
}

#[test]
fn bit_flip_trial_time() {
    let cycles = 100_000;
    let mut seen = std::collections::HashSet::with_capacity(cycles);
    let mut flips = Vec::with_capacity(cycles);

    let mut prev = 0;
    for _ in 0..cycles {
        let next = rapidrng_time(&mut prev);

        let xor = prev ^ next;
        let flipped = xor.count_ones() as u64;
        assert!(xor.count_ones() >= 12, "Flipping bit changed only {} bits", flipped);
        flips.push(flipped);

        assert!(!seen.contains(&next), "rapidrng_fast produced a duplicate value");
        seen.insert(next);

        prev = next;
    }

    let average = flips.iter().sum::<u64>() as f64 / flips.len() as f64;
    assert!(
        average > 31.95 && average < 32.05,
        "Did not flip an average of half the bits. average: {}, expected: 32.0",
        average
    );
}

#[test]
fn test_construction() {
    let mut rng = RapidRng::default();
    assert_ne!(rng.next(), 0);
}
