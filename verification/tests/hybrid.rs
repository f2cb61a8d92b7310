use rand::Rng;
use rapidhash::fxrapidhash;

/// Flipping one bit of the input changes the hash. The short fold is weak:
/// one flipped bit often changes a single bit of the output. Not
/// deterministic; fails with a low probability.
#[test]
fn rapid_hybrid_flip_bit_trial() {
    let mut flips = vec![];

    for len in 1..=256 {
        let mut data = vec![0; len];
        rand::thread_rng().fill(&mut data[..]);

        let hash = fxrapidhash(&data, 0);
        for byte in 0..len {
            for bit in 0..8 {
                let mut data = data.clone();
                data[byte] ^= 1 << bit;
                let new_hash = fxrapidhash(&data, 0);
                assert_ne!(hash, new_hash, "Flipping bit {} did not change hash", byte);
                let xor = hash ^ new_hash;
                let flipped = xor.count_ones() as u64;
                assert!(
                    xor.count_ones() >= 1,
                    "Flipping bit {byte}:{bit} changed only {flipped} bits"
                );

                flips.push(flipped);
            }
        }
    }

    let average = flips.iter().sum::<u64>() as f64 / flips.len() as f64;
    assert!(
        average > 31.95 && average < 32.05,
        "Did not flip an average of half the bits. average: {average}, expected: 32.0"
    );
}
