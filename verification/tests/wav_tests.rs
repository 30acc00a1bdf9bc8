use cloudflare_showcase::pipeline::wrap_pcm;
use cloudflare_showcase::wav::{u16_le, u32_le, WavHeader, HEADER_LEN, MAX_DATA_SIZE};

const HEADER_OF_1000: [u8; 44] = [
    82, 73, 70, 70, 12, 4, 0, 0, 87, 65, 86, 69, 102, 109, 116, 32, 16, 0, 0, 0, 1, 0, 1, 0, 128,
    62, 0, 0, 0, 125, 0, 0, 2, 0, 16, 0, 100, 97, 116, 97, 232, 3, 0, 0,
];

#[test]
fn header_has_the_canonical_bytes() {
    let bytes = WavHeader::new(1000).to_bytes();
    assert_eq!(bytes.len(), HEADER_LEN);
    assert_eq!(bytes, HEADER_OF_1000.to_vec());
}

#[test]
fn header_fields_are_in_wire_form() {
    let header = WavHeader::new(1000);
    assert_eq!(&header.chunk_id, b"RIFF");
    assert_eq!(header.chunk_size, 1036u32.to_le_bytes());
    assert_eq!(&header.format, b"WAVE");
    assert_eq!(&header.subchunk1_id, b"fmt ");
    assert_eq!(header.subchunk1_size, 16u32.to_le_bytes());
    assert_eq!(header.audio_format, 1u16.to_le_bytes());
    assert_eq!(header.num_channels, 1u16.to_le_bytes());
    assert_eq!(header.sample_rate, 16000u32.to_le_bytes());
    assert_eq!(header.byte_rate, 32000u32.to_le_bytes());
    assert_eq!(header.block_align, 2u16.to_le_bytes());
    assert_eq!(header.bits_per_sample, 16u16.to_le_bytes());
    assert_eq!(&header.subchunk2_id, b"data");
    assert_eq!(header.subchunk2_size, 1000u32.to_le_bytes());
}

#[test]
fn header_of_the_largest_payload_does_not_wrap() {
    let header = WavHeader::new(MAX_DATA_SIZE);
    assert_eq!(header.chunk_size, u32::MAX.to_le_bytes());
    assert_eq!(header.subchunk2_size, (u32::MAX - 36).to_le_bytes());
}

#[test]
fn header_of_an_empty_payload() {
    let header = WavHeader::new(0);
    assert_eq!(header.chunk_size, 36u32.to_le_bytes());
    assert_eq!(header.subchunk2_size, 0u32.to_le_bytes());
}

#[test]
fn little_endian_encoding_matches_the_standard_library() {
    for value in [0u32, 1, 255, 256, 65_535, 65_536, 16_777_215, 16_777_216, 0xDEAD_BEEF, u32::MAX] {
        assert_eq!(u32_le(value), value.to_le_bytes());
    }
    for value in [0u16, 1, 255, 256, 0xBEEF, u16::MAX] {
        assert_eq!(u16_le(value), value.to_le_bytes());
    }
}

#[test]
fn wrapping_puts_the_header_in_front_of_the_samples() {
    let samples: Vec<u8> = (0..1000u32).map(|i| (i % 251) as u8).collect();
    let wav = wrap_pcm(&samples);
    assert_eq!(wav.len(), 1044);
    assert_eq!(&wav[..44], &HEADER_OF_1000[..]);
    assert_eq!(&wav[44..], &samples[..]);
}
