use cloudflare_showcase::energy::{calculate_audio_energy, isqrt, sum_of_squares};

fn pcm(samples: &[i16]) -> Vec<u8> {
    samples.iter().flat_map(|s| s.to_le_bytes()).collect()
}

#[test]
fn energy_is_the_root_mean_square_in_thousandths() {
    assert_eq!(calculate_audio_energy(&pcm(&[1000, -1000, 1000, -1000])), 1_000_000);
    assert_eq!(calculate_audio_energy(&pcm(&[3, 4])), 3535);
    assert_eq!(calculate_audio_energy(&pcm(&[1, 2, 3, 4, 5])), 3316);
    assert_eq!(calculate_audio_energy(&pcm(&[i16::MIN])), 32_768_000);
}

#[test]
fn silence_has_no_energy() {
    assert_eq!(calculate_audio_energy(&[0u8; 640]), 0);
    assert_eq!(calculate_audio_energy(&[0u8; 1]), 0);
}

#[test]
fn buffer_without_a_whole_sample_has_no_energy() {
    assert_eq!(calculate_audio_energy(&[]), 0);
    assert_eq!(calculate_audio_energy(&[0xFF]), 0);
}

#[test]
fn trailing_odd_byte_is_ignored() {
    let mut bytes = pcm(&[3, 4]);
    bytes.push(0x7F);
    assert_eq!(calculate_audio_energy(&bytes), 3535);
}

#[test]
fn one_step_among_many_zeros_is_at_the_floor() {
    let mut samples = vec![0i16; 10_000];
    samples[0] = 1;
    assert_eq!(calculate_audio_energy(&pcm(&samples)), 10);
    samples.push(0);
    assert_eq!(calculate_audio_energy(&pcm(&samples)), 9);
}

#[test]
fn samples_are_little_endian_twos_complement() {
    assert_eq!(sum_of_squares(&[0x00, 0x01]), 256 * 256);
    assert_eq!(sum_of_squares(&[0xFF, 0xFF]), 1);
    assert_eq!(sum_of_squares(&[0x00, 0x80]), 32768 * 32768);
    assert_eq!(sum_of_squares(&[0xFF, 0x7F]), 32767 * 32767);
    assert_eq!(sum_of_squares(&pcm(&[-3, 4])), 25);
}

#[test]
fn integer_square_root_rounds_down() {
    assert_eq!(isqrt(0), 0);
    assert_eq!(isqrt(1), 1);
    assert_eq!(isqrt(3), 1);
    assert_eq!(isqrt(4), 2);
    assert_eq!(isqrt(99), 9);
    assert_eq!(isqrt(100), 10);
    assert_eq!(isqrt(1_000_000_000_000), 1_000_000);
    assert_eq!(isqrt(999_999_999_999), 999_999);
    assert_eq!(isqrt(u128::MAX), u64::MAX as u128);
    assert_eq!(isqrt((u64::MAX as u128) * (u64::MAX as u128) - 1), u64::MAX as u128 - 1);
}
