//! The canonical 44-byte RIFF/WAVE container header for mono 16-bit PCM
//! sampled at 16 kHz.

use vstd::prelude::*;

verus! {

/// Samples per second of the audio stream.
pub const SAMPLE_RATE: u32 = 16000;

/// Number of channels (mono).
pub const NUM_CHANNELS: u16 = 1;

/// Bits in one sample.
pub const BITS_PER_SAMPLE: u16 = 16;

/// Bytes per second: sample rate times channels times bytes per sample.
pub const BYTE_RATE: u32 = 32000;

/// Bytes in one sample frame: channels times bytes per sample.
pub const BLOCK_ALIGN: u16 = 2;

/// Length of the header in bytes.
pub const HEADER_LEN: usize = 44;

/// Largest payload whose RIFF chunk size still fits in 32 bits.
pub const MAX_DATA_SIZE: u32 = 0xFFFF_FFDB;

/// The four bytes of `x`, least significant first.
pub open spec fn le_bytes_u32(x: u32) -> Seq<u8> {
    seq![
        (x % 256) as u8,
        (x / 0x100 % 256) as u8,
        (x / 0x1_0000 % 256) as u8,
        (x / 0x100_0000) as u8,
    ]
}

/// The two bytes of `x`, least significant first.
pub open spec fn le_bytes_u16(x: u16) -> Seq<u8> {
    seq![(x % 256) as u8, (x / 0x100) as u8]
}

/// ASCII "RIFF".
pub open spec fn tag_riff() -> Seq<u8> {
    seq![0x52u8, 0x49u8, 0x46u8, 0x46u8]
}

/// ASCII "WAVE".
pub open spec fn tag_wave() -> Seq<u8> {
    seq![0x57u8, 0x41u8, 0x56u8, 0x45u8]
}

/// ASCII "fmt " (with the trailing space).
pub open spec fn tag_fmt() -> Seq<u8> {
    seq![0x66u8, 0x6Du8, 0x74u8, 0x20u8]
}

/// ASCII "data".
pub open spec fn tag_data() -> Seq<u8> {
    seq![0x64u8, 0x61u8, 0x74u8, 0x61u8]
}

/// The header that announces `data_size` bytes of PCM payload.
pub open spec fn header_bytes(data_size: u32) -> Seq<u8>
    recommends
        data_size <= MAX_DATA_SIZE,
{
    tag_riff() + le_bytes_u32((data_size + 36) as u32) + tag_wave() + tag_fmt() + le_bytes_u32(16)
        + le_bytes_u16(1) + le_bytes_u16(NUM_CHANNELS) + le_bytes_u32(SAMPLE_RATE) + le_bytes_u32(
        BYTE_RATE,
    ) + le_bytes_u16(BLOCK_ALIGN) + le_bytes_u16(BITS_PER_SAMPLE) + tag_data() + le_bytes_u32(
        data_size,
    )
}

/// Little-endian encoding of a 32-bit value.
pub fn u32_le(x: u32) -> (b: [u8; 4])
    ensures
        b@ == le_bytes_u32(x),
{
    let b: [u8; 4] = [
        (x % 256) as u8,
        (x / 0x100 % 256) as u8,
        (x / 0x1_0000 % 256) as u8,
        (x / 0x100_0000) as u8,
    ];
    assert(b@ =~= le_bytes_u32(x));
    b
}

/// Little-endian encoding of a 16-bit value.
pub fn u16_le(x: u16) -> (b: [u8; 2])
    ensures
        b@ == le_bytes_u16(x),
{
    let b: [u8; 2] = [(x % 256) as u8, (x / 0x100) as u8];
    assert(b@ =~= le_bytes_u16(x));
    b
}

/// The fields of a RIFF/WAVE header, each already in its on-the-wire form.
#[derive(Debug)]
pub struct WavHeader {
    pub chunk_id: [u8; 4],
    pub chunk_size: [u8; 4],
    pub format: [u8; 4],
    pub subchunk1_id: [u8; 4],
    pub subchunk1_size: [u8; 4],
    pub audio_format: [u8; 2],
    pub num_channels: [u8; 2],
    pub sample_rate: [u8; 4],
    pub byte_rate: [u8; 4],
    pub block_align: [u8; 2],
    pub bits_per_sample: [u8; 2],
    pub subchunk2_id: [u8; 4],
    pub subchunk2_size: [u8; 4],
}

impl WavHeader {
    /// The fields laid end to end in file order.
    pub open spec fn spec_bytes(&self) -> Seq<u8> {
        self.chunk_id@ + self.chunk_size@ + self.format@ + self.subchunk1_id@
            + self.subchunk1_size@ + self.audio_format@ + self.num_channels@ + self.sample_rate@
            + self.byte_rate@ + self.block_align@ + self.bits_per_sample@ + self.subchunk2_id@
            + self.subchunk2_size@
    }

    /// Header for a payload of `data_size` bytes.
    pub fn new(data_size: u32) -> (h: WavHeader)
        requires
            data_size <= MAX_DATA_SIZE,
        ensures
            h.spec_bytes() == header_bytes(data_size),
            h.chunk_size@ == le_bytes_u32((data_size + 36) as u32),
            h.subchunk2_size@ == le_bytes_u32(data_size),
    {
        let h = WavHeader {
            chunk_id: [0x52, 0x49, 0x46, 0x46],
            chunk_size: u32_le(data_size + 36),
            format: [0x57, 0x41, 0x56, 0x45],
            subchunk1_id: [0x66, 0x6D, 0x74, 0x20],
            subchunk1_size: u32_le(16),
            audio_format: u16_le(1),
            num_channels: u16_le(NUM_CHANNELS),
            sample_rate: u32_le(SAMPLE_RATE),
            byte_rate: u32_le(BYTE_RATE),
            block_align: u16_le(BLOCK_ALIGN),
            bits_per_sample: u16_le(BITS_PER_SAMPLE),
            subchunk2_id: [0x64, 0x61, 0x74, 0x61],
            subchunk2_size: u32_le(data_size),
        };
        assert(h.chunk_id@ =~= tag_riff());
        assert(h.format@ =~= tag_wave());
        assert(h.subchunk1_id@ =~= tag_fmt());
        assert(h.subchunk2_id@ =~= tag_data());
        h
    }

    /// Serialises the header: the thirteen fields in file order.
    pub fn to_bytes(&self) -> (bytes: Vec<u8>)
        ensures
            bytes@ == self.spec_bytes(),
            bytes@.len() == HEADER_LEN,
    {
        let mut bytes: Vec<u8> = Vec::with_capacity(44);
        bytes.extend_from_slice(self.chunk_id.as_slice());
        bytes.extend_from_slice(self.chunk_size.as_slice());
        bytes.extend_from_slice(self.format.as_slice());
        bytes.extend_from_slice(self.subchunk1_id.as_slice());
        bytes.extend_from_slice(self.subchunk1_size.as_slice());
        bytes.extend_from_slice(self.audio_format.as_slice());
        bytes.extend_from_slice(self.num_channels.as_slice());
        bytes.extend_from_slice(self.sample_rate.as_slice());
        bytes.extend_from_slice(self.byte_rate.as_slice());
        bytes.extend_from_slice(self.block_align.as_slice());
        bytes.extend_from_slice(self.bits_per_sample.as_slice());
        bytes.extend_from_slice(self.subchunk2_id.as_slice());
        bytes.extend_from_slice(self.subchunk2_size.as_slice());
        bytes
    }
}

} // verus!
