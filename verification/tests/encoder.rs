use sine_wave::byte_order::{ByteOrder, PROBE};
use sine_wave::encoder::{convert_to_u8, required_len, try_convert_to_u8, EncodeError};
use sine_wave::generator::{SineWaveGenerator, WaveGenerator};

fn bits_of(samples: &[f32]) -> Vec<u32> {
    samples.iter().map(|s| s.to_bits()).collect()
}

fn sine_block() -> Vec<f32> {
    let mut generator = SineWaveGenerator::new(440, 44100);
    let mut phases = vec![0u32; 441];
    generator.update(&mut phases);
    let multiplier = std::f32::consts::PI * 2.0 / 44100_f32;
    phases.iter().map(|p| f32::sin(*p as f32 * multiplier)).collect()
}

#[test]
fn bytes_of_little_and_big() {
    assert_eq!(ByteOrder::Little.bytes_of(0x0102_0304), [4, 3, 2, 1]);
    assert_eq!(ByteOrder::Big.bytes_of(0x0102_0304), [1, 2, 3, 4]);
    assert_eq!(ByteOrder::Little.bytes_of(0), [0, 0, 0, 0]);
    assert_eq!(ByteOrder::Big.bytes_of(u32::MAX), [255, 255, 255, 255]);
    assert_eq!(ByteOrder::Little.bytes_of(0xff00_0080), [0x80, 0, 0, 0xff]);
}

#[test]
fn probe_image_tells_the_order() {
    assert_eq!(PROBE, 0x0102_0304);
    assert_eq!(ByteOrder::from_probe([4, 3, 2, 1]), Some(ByteOrder::Little));
    assert_eq!(ByteOrder::from_probe([1, 2, 3, 4]), Some(ByteOrder::Big));
    assert_eq!(ByteOrder::from_probe(PROBE.to_le_bytes()), Some(ByteOrder::Little));
    assert_eq!(ByteOrder::from_probe(PROBE.to_be_bytes()), Some(ByteOrder::Big));
    assert_eq!(ByteOrder::from_probe([4, 3, 2, 2]), None);
    assert_eq!(ByteOrder::from_probe([3, 4, 1, 2]), None);
    assert_eq!(ByteOrder::from_probe([0, 0, 0, 0]), None);
}

#[test]
fn native_order_matches_the_machine() {
    let order = ByteOrder::native();
    assert_eq!(order.bytes_of(0x0a0b_0c0d), 0x0a0b_0c0d_u32.to_ne_bytes());
    let little = 1u32.to_ne_bytes()[0] == 1;
    assert_eq!(order == ByteOrder::Little, little);
    assert_eq!(order == ByteOrder::Big, !little);
    assert_eq!(ByteOrder::native(), order);
}

#[test]
fn one_in_little_endian() {
    let src = bits_of(&[1.0]);
    let mut dest = [0xaa_u8; 4];
    let out = convert_to_u8(&src, &mut dest, ByteOrder::Little);
    assert_eq!(out, &[0x00, 0x00, 0x80, 0x3f]);
    assert_eq!(dest, [0x00, 0x00, 0x80, 0x3f]);
}

#[test]
fn one_in_big_endian() {
    let src = bits_of(&[1.0]);
    let mut dest = [0xaa_u8; 4];
    let out = convert_to_u8(&src, &mut dest, ByteOrder::Big);
    assert_eq!(out, &[0x3f, 0x80, 0x00, 0x00]);
}

#[test]
fn samples_keep_their_order() {
    let src = [0x0102_0304_u32, 0x0506_0708, 0x090a_0b0c];
    let mut dest = [0u8; 12];
    convert_to_u8(&src, &mut dest, ByteOrder::Big);
    assert_eq!(dest, [1, 2, 3, 4, 5, 6, 7, 8, 9, 10, 11, 12]);
    convert_to_u8(&src, &mut dest, ByteOrder::Little);
    assert_eq!(dest, [4, 3, 2, 1, 8, 7, 6, 5, 12, 11, 10, 9]);
}

#[test]
fn bytes_past_the_samples_are_untouched() {
    let src = [0x0102_0304_u32];
    let mut dest = [0xee_u8; 7];
    let out = convert_to_u8(&src, &mut dest, ByteOrder::Big).to_vec();
    assert_eq!(out, vec![1, 2, 3, 4]);
    assert_eq!(dest, [1, 2, 3, 4, 0xee, 0xee, 0xee]);
}

#[test]
fn no_samples_write_nothing() {
    let src: [u32; 0] = [];
    let mut dest = [5u8; 3];
    assert_eq!(convert_to_u8(&src, &mut dest, ByteOrder::Little).len(), 0);
    assert_eq!(dest, [5, 5, 5]);
    let mut none: [u8; 0] = [];
    assert!(try_convert_to_u8(&src, &mut none, ByteOrder::Little).unwrap().is_empty());
}

#[test]
fn native_encoding_is_the_memory_image() {
    let samples = sine_block();
    let src = bits_of(&samples);
    let mut dest = vec![0u8; 4 * src.len()];
    convert_to_u8(&src, &mut dest, ByteOrder::native());
    let mut expected = Vec::new();
    for sample in &samples {
        expected.extend_from_slice(&sample.to_ne_bytes());
    }
    assert_eq!(dest, expected);
}

#[test]
fn encoding_twice_gives_the_same_bytes() {
    let src = bits_of(&sine_block());
    for order in [ByteOrder::Little, ByteOrder::Big] {
        let mut first = vec![0u8; 4 * src.len()];
        let mut second = vec![0xff_u8; 4 * src.len()];
        let a = convert_to_u8(&src, &mut first, order).to_vec();
        let b = convert_to_u8(&src, &mut second, order).to_vec();
        assert_eq!(a, b);
        assert_eq!(first, second);
    }
}

#[test]
fn encoded_block_reads_back_bit_for_bit() {
    let mut samples = vec![-1.0_f32, 0.0, 1.0, -0.0, f32::MIN_POSITIVE, 0.70710677, f32::MAX];
    samples.extend(sine_block());
    let src = bits_of(&samples);
    let mut dest = vec![0u8; 4 * src.len()];
    let out = convert_to_u8(&src, &mut dest, ByteOrder::native());
    assert_eq!(out.len(), 4 * samples.len());
    for (i, chunk) in out.chunks(4).enumerate() {
        let back = f32::from_ne_bytes([chunk[0], chunk[1], chunk[2], chunk[3]]);
        assert_eq!(back.to_bits(), samples[i].to_bits());
    }
}

#[test]
fn each_order_reads_back_in_the_same_order() {
    let src = [0u32, 1, 0x8000_0000, 0xbf80_0000, 0x3f80_0000, u32::MAX, 0x1234_5678];
    let mut dest = [0u8; 28];
    convert_to_u8(&src, &mut dest, ByteOrder::Little);
    for (i, chunk) in dest.chunks(4).enumerate() {
        assert_eq!(u32::from_le_bytes([chunk[0], chunk[1], chunk[2], chunk[3]]), src[i]);
    }
    convert_to_u8(&src, &mut dest, ByteOrder::Big);
    for (i, chunk) in dest.chunks(4).enumerate() {
        assert_eq!(u32::from_be_bytes([chunk[0], chunk[1], chunk[2], chunk[3]]), src[i]);
    }
}

#[test]
fn destination_of_exact_size_succeeds() {
    let src = [0x0102_0304_u32, 0x0506_0708];
    let mut dest = [0u8; 8];
    let out = try_convert_to_u8(&src, &mut dest, ByteOrder::Big).unwrap();
    assert_eq!(out, &[1, 2, 3, 4, 5, 6, 7, 8]);
}

#[test]
fn destination_one_byte_short_fails() {
    let src = [0x0102_0304_u32, 0x0506_0708];
    let mut dest = [0x11_u8; 7];
    assert_eq!(
        try_convert_to_u8(&src, &mut dest, ByteOrder::Big),
        Err(EncodeError::DestinationTooSmall)
    );
    assert_eq!(dest, [0x11; 7]);
    let mut empty: [u8; 0] = [];
    assert_eq!(
        try_convert_to_u8(&src[..1], &mut empty, ByteOrder::Little),
        Err(EncodeError::DestinationTooSmall)
    );
}

#[test]
fn larger_destination_succeeds() {
    let src = [0x0102_0304_u32];
    let mut dest = [0x11_u8; 6];
    let out = try_convert_to_u8(&src, &mut dest, ByteOrder::Little).unwrap().to_vec();
    assert_eq!(out, vec![4, 3, 2, 1]);
    assert_eq!(dest, [4, 3, 2, 1, 0x11, 0x11]);
}

#[test]
fn required_len_is_four_bytes_a_sample() {
    assert_eq!(required_len(0), Some(0));
    assert_eq!(required_len(1), Some(4));
    assert_eq!(required_len(441), Some(1764));
    assert_eq!(required_len(usize::MAX / 4), Some(usize::MAX / 4 * 4));
    assert_eq!(required_len(usize::MAX / 4 + 1), None);
    assert_eq!(required_len(usize::MAX), None);
}
