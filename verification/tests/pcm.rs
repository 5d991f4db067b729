use ptnoise::error::Error;
use ptnoise::helper::Point;
use ptnoise::pulse::oscillator::{Oscillator, Span};
use ptnoise::pulse::pcm::{Pcm, PcmWaveFormat, Sample};

fn pcm(ch: u16, sps: u32, bps: u16, smp: Vec<u8>) -> Pcm {
    Pcm { fmt: PcmWaveFormat { ch, sps, bps }, smp }
}

#[test]
fn unsigned_8_bit_samples() {
    assert_eq!(<u8 as Sample>::from_u8(0), 0);
    assert_eq!(<u8 as Sample>::from_u8(200), 200);
    assert_eq!(<u8 as Sample>::from_i16(0), 0x80);
    assert_eq!(<u8 as Sample>::from_i16(-1), 0x7f);
    assert_eq!(<u8 as Sample>::from_i16(255), 0x80);
    assert_eq!(<u8 as Sample>::from_i16(256), 0x81);
    assert_eq!(<u8 as Sample>::from_i16(i16::MAX), 0xff);
    assert_eq!(<u8 as Sample>::from_i16(i16::MIN), 0x00);
    for bits in i16::MIN..=i16::MAX {
        assert_eq!(<u8 as Sample>::from_i16(bits), ((bits >> 8) as i8) as u8 ^ 0x80);
    }
}

#[test]
fn signed_8_bit_samples() {
    assert_eq!(<i8 as Sample>::from_u8(0), -128);
    assert_eq!(<i8 as Sample>::from_u8(128), 0);
    assert_eq!(<i8 as Sample>::from_u8(255), 127);
    assert_eq!(<i8 as Sample>::from_i16(0), 0);
    assert_eq!(<i8 as Sample>::from_i16(-1), -1);
    assert_eq!(<i8 as Sample>::from_i16(-256), -1);
    assert_eq!(<i8 as Sample>::from_i16(-257), -2);
    assert_eq!(<i8 as Sample>::from_i16(i16::MAX), 127);
    assert_eq!(<i8 as Sample>::from_i16(i16::MIN), -128);
    for bits in 0..=u8::MAX {
        assert_eq!(<i8 as Sample>::from_u8(bits), (bits ^ 0x80) as i8);
    }
    for bits in i16::MIN..=i16::MAX {
        assert_eq!(<i8 as Sample>::from_i16(bits), (bits >> 8) as i8);
    }
}

#[test]
fn unsigned_16_bit_samples() {
    assert_eq!(<u16 as Sample>::from_u8(0), 0);
    assert_eq!(<u16 as Sample>::from_u8(1), 0x100);
    assert_eq!(<u16 as Sample>::from_u8(255), 0xff00);
    assert_eq!(<u16 as Sample>::from_i16(0), 0x8000);
    assert_eq!(<u16 as Sample>::from_i16(-1), 0x7fff);
    assert_eq!(<u16 as Sample>::from_i16(i16::MAX), 0xffff);
    assert_eq!(<u16 as Sample>::from_i16(i16::MIN), 0);
    for bits in 0..=u8::MAX {
        assert_eq!(<u16 as Sample>::from_u8(bits), u16::from(bits) << 8);
    }
    for bits in i16::MIN..=i16::MAX {
        assert_eq!(<u16 as Sample>::from_i16(bits), (bits as u16) ^ 0x8000);
    }
}

#[test]
fn signed_16_bit_samples() {
    assert_eq!(<i16 as Sample>::from_u8(0), -32768);
    assert_eq!(<i16 as Sample>::from_u8(128), 0);
    assert_eq!(<i16 as Sample>::from_u8(129), 256);
    assert_eq!(<i16 as Sample>::from_u8(255), 0x7f00);
    assert_eq!(<i16 as Sample>::from_i16(-12345), -12345);
    for bits in 0..=u8::MAX {
        assert_eq!(<i16 as Sample>::from_u8(bits), i16::from((bits ^ 0x80) as i8) << 8);
    }
}

#[test]
fn wave_file_of_an_empty_buffer() {
    let bytes = pcm(2, 44100, 16, Vec::new()).into_bytes();
    let mut expected = Vec::new();
    expected.extend_from_slice(b"RIFF");
    expected.extend_from_slice(&36u32.to_le_bytes());
    expected.extend_from_slice(b"WAVEfmt ");
    expected.extend_from_slice(&16u32.to_le_bytes());
    expected.extend_from_slice(&1u16.to_le_bytes());
    expected.extend_from_slice(&2u16.to_le_bytes());
    expected.extend_from_slice(&44100u32.to_le_bytes());
    expected.extend_from_slice(&176400u32.to_le_bytes());
    expected.extend_from_slice(&4u16.to_le_bytes());
    expected.extend_from_slice(&16u16.to_le_bytes());
    expected.extend_from_slice(b"data");
    expected.extend_from_slice(&0u32.to_le_bytes());
    assert_eq!(bytes, expected);
    assert_eq!(bytes.len(), 44);
}

#[test]
fn wave_file_with_samples() {
    let smp: Vec<u8> = (0..=255u8).cycle().take(70000).collect();
    let bytes = pcm(1, 11025, 8, smp.clone()).into_bytes();
    assert_eq!(bytes.len(), 44 + 70000);
    assert_eq!(&bytes[0..4], b"RIFF");
    assert_eq!(&bytes[4..8], &70036u32.to_le_bytes());
    assert_eq!(&bytes[8..16], b"WAVEfmt ");
    assert_eq!(&bytes[16..20], &[16, 0, 0, 0]);
    assert_eq!(&bytes[20..22], &[1, 0]);
    assert_eq!(&bytes[22..24], &[1, 0]);
    assert_eq!(&bytes[24..28], &11025u32.to_le_bytes());
    assert_eq!(&bytes[28..32], &11025u32.to_le_bytes());
    assert_eq!(&bytes[32..34], &[1, 0]);
    assert_eq!(&bytes[34..36], &[8, 0]);
    assert_eq!(&bytes[36..40], b"data");
    assert_eq!(&bytes[40..44], &70000u32.to_le_bytes());
    assert_eq!(&bytes[44..], &smp[..]);
}

#[test]
fn format_chunk_alone() {
    let mut out = vec![9u8];
    PcmWaveFormat { ch: 2, sps: 48000, bps: 8 }.write_chunk(&mut out);
    assert_eq!(
        out,
        vec![9, 1, 0, 2, 0, 0x80, 0xbb, 0, 0, 0x00, 0x77, 0x01, 0x00, 2, 0, 8, 0]
    );
}

#[test]
fn channels_of_8_bit_stereo() {
    let buffer = pcm(2, 44100, 8, vec![0, 255, 128, 127, 1, 2]);
    assert!(buffer.is_valid());
    let channels: Vec<Vec<u8>> = buffer.to_channels();
    assert_eq!(channels, vec![vec![0, 128, 1], vec![255, 127, 2]]);
    let channels: Vec<Vec<i16>> = buffer.to_channels();
    assert_eq!(channels, vec![vec![-32768, 0, -127 * 256], vec![127 * 256, -256, -126 * 256]]);
}

#[test]
fn channels_of_16_bit_stereo() {
    let buffer = pcm(2, 44100, 16, vec![0x34, 0x12, 0xff, 0xff, 0x00, 0x80, 0xff, 0x7f]);
    let channels: Vec<Vec<i16>> = buffer.to_channels();
    assert_eq!(channels, vec![vec![0x1234, -32768], vec![-1, 32767]]);
    let channels: Vec<Vec<u16>> = buffer.to_channels();
    assert_eq!(channels, vec![vec![0x9234, 0], vec![0x7fff, 0xffff]]);
    let channels: Vec<Vec<u8>> = buffer.to_channels();
    assert_eq!(channels, vec![vec![0x92, 0x00], vec![0x7f, 0xff]]);
    let channels: Vec<Vec<i8>> = buffer.to_channels();
    assert_eq!(channels, vec![vec![0x12, -128], vec![-1, 127]]);
}

#[test]
fn channels_of_mono() {
    let buffer = pcm(1, 22050, 16, vec![1, 0, 2, 0, 3, 0]);
    let channels: Vec<Vec<i16>> = buffer.to_channels();
    assert_eq!(channels, vec![vec![1, 2, 3]]);
    let buffer = pcm(1, 22050, 8, Vec::new());
    let channels: Vec<Vec<i8>> = buffer.to_channels();
    assert_eq!(channels, vec![Vec::<i8>::new()]);
}

#[test]
fn validity_of_buffers() {
    assert!(pcm(1, 44100, 8, vec![0; 3]).is_valid());
    assert!(pcm(2, 44100, 8, vec![0; 4]).is_valid());
    assert!(!pcm(2, 44100, 8, vec![0; 3]).is_valid());
    assert!(!pcm(2, 44100, 16, vec![0; 6]).is_valid());
    assert!(pcm(2, 44100, 16, vec![0; 8]).is_valid());
    assert!(!pcm(0, 44100, 16, Vec::new()).is_valid());
    assert!(!pcm(3, 44100, 16, Vec::new()).is_valid());
    assert!(!pcm(2, 44100, 24, Vec::new()).is_valid());
    assert!(pcm(2, 134217727, 16, Vec::new()).is_valid());
    assert!(!pcm(2, 134217728, 16, Vec::new()).is_valid());
    assert!(pcm(1, u32::MAX / 8, 8, Vec::new()).is_valid());
    assert!(!pcm(1, u32::MAX / 8 + 1, 8, Vec::new()).is_valid());
}

fn triangle() -> Oscillator {
    Oscillator {
        points: vec![
            Point { x: 0, y: 0 },
            Point { x: 64, y: 128 },
            Point { x: 192, y: -128 },
            Point { x: 256, y: 0 },
        ],
        point_reso: 256,
        volu: 128,
        smp_num: 441,
    }
}

#[test]
fn triangle_breakpoints() {
    let wave = Oscillator::triangle();
    assert_eq!(
        wave.points,
        vec![
            Point { x: 0, y: 0 },
            Point { x: 110, y: 128 },
            Point { x: 330, y: -128 },
            Point { x: 441, y: 0 }
        ]
    );
    assert_eq!(wave.point_reso, 441);
    assert_eq!(wave.volu, 128);
    assert_eq!(wave.smp_num, 441);
    assert_eq!(wave.get_coodinate(0), Span { at: 0, x1: 0, y1: 0, x2: 110, y2: 128 });
    assert_eq!(wave.get_coodinate(110), Span { at: 110, x1: 110, y1: 128, x2: 330, y2: -128 });
    assert_eq!(wave.get_coodinate(440), Span { at: 440, x1: 330, y1: -128, x2: 441, y2: 0 });
}

#[test]
fn samples_lie_between_their_breakpoints() {
    let wave = triangle();
    assert_eq!(wave.get_coodinate(0), Span { at: 0, x1: 0, y1: 0, x2: 64, y2: 128 });
    assert_eq!(wave.get_coodinate(110), Span { at: 63, x1: 0, y1: 0, x2: 64, y2: 128 });
    assert_eq!(wave.get_coodinate(111), Span { at: 64, x1: 64, y1: 128, x2: 192, y2: -128 });
    assert_eq!(wave.get_coodinate(330), Span { at: 191, x1: 64, y1: 128, x2: 192, y2: -128 });
    assert_eq!(wave.get_coodinate(331), Span { at: 192, x1: 192, y1: -128, x2: 256, y2: 0 });
    assert_eq!(wave.get_coodinate(440), Span { at: 255, x1: 192, y1: -128, x2: 256, y2: 0 });
    for index in 0..441 {
        let span = wave.get_coodinate(index);
        assert_eq!(span.at, i64::from(256 * index / 441));
        assert!(span.x1 <= span.at && span.at < span.x2);
    }
}

#[test]
fn the_domain_is_a_circle() {
    let wave = Oscillator {
        points: vec![Point { x: 10, y: 5 }, Point { x: 20, y: -5 }],
        point_reso: 100,
        volu: 128,
        smp_num: 100,
    };
    // Before the first breakpoint: from the last one, a turn earlier.
    assert_eq!(wave.get_coodinate(0), Span { at: 0, x1: -80, y1: -5, x2: 10, y2: 5 });
    assert_eq!(wave.get_coodinate(9), Span { at: 9, x1: -80, y1: -5, x2: 10, y2: 5 });
    assert_eq!(wave.get_coodinate(10), Span { at: 10, x1: 10, y1: 5, x2: 20, y2: -5 });
    // Behind the last breakpoint: on to the first one, a turn later.
    assert_eq!(wave.get_coodinate(20), Span { at: 20, x1: 20, y1: -5, x2: 110, y2: 5 });
    assert_eq!(wave.get_coodinate(99), Span { at: 99, x1: 20, y1: -5, x2: 110, y2: 5 });
    assert_eq!(wave.get_coodinate(-3), Span { at: -3, x1: -80, y1: -5, x2: 10, y2: 5 });
}

#[test]
fn positions_are_rounded_towards_zero() {
    let wave = Oscillator {
        points: vec![Point { x: 0, y: 1 }],
        point_reso: 7,
        volu: 128,
        smp_num: 3,
    };
    assert_eq!(wave.get_coodinate(1).at, 2);
    assert_eq!(wave.get_coodinate(2).at, 4);
    assert_eq!(wave.get_coodinate(-1).at, -2);
    assert_eq!(wave.get_coodinate(-2).at, -4);
    assert_eq!(wave.get_coodinate(1), Span { at: 2, x1: 0, y1: 1, x2: 7, y2: 1 });
    assert_eq!(wave.get_coodinate(-1), Span { at: -2, x1: -7, y1: 1, x2: 0, y2: 1 });
    let wide = Oscillator {
        points: vec![Point { x: i32::MAX, y: i32::MIN }],
        point_reso: i32::MAX,
        volu: 0,
        smp_num: 1,
    };
    let span = wide.get_coodinate(i32::MAX);
    assert_eq!(span.at, i64::from(i32::MAX) * i64::from(i32::MAX));
    assert_eq!(span.x1, i64::from(i32::MAX));
    assert_eq!(span.x2, 2 * i64::from(i32::MAX));
}

fn wave_header(id: u16, ch: u16, sps: u32, rate: u32, block: u16, bps: u16) -> Vec<u8> {
    let mut bytes = b"RIFF".to_vec();
    bytes.extend_from_slice(&[0; 4]);
    bytes.extend_from_slice(b"WAVEfmt ");
    bytes.extend_from_slice(&16u32.to_le_bytes());
    bytes.extend_from_slice(&id.to_le_bytes());
    bytes.extend_from_slice(&ch.to_le_bytes());
    bytes.extend_from_slice(&sps.to_le_bytes());
    bytes.extend_from_slice(&rate.to_le_bytes());
    bytes.extend_from_slice(&block.to_le_bytes());
    bytes.extend_from_slice(&bps.to_le_bytes());
    bytes
}

fn with_data(mut bytes: Vec<u8>, smp: &[u8]) -> Vec<u8> {
    bytes.extend_from_slice(b"data");
    bytes.extend_from_slice(&(smp.len() as u32).to_le_bytes());
    bytes.extend_from_slice(smp);
    bytes
}

#[test]
fn reading_undoes_writing() {
    for (ch, sps, bps, len) in [
        (1u16, 11025u32, 8u16, 0usize),
        (2, 44100, 16, 4),
        (2, 48000, 8, 1000),
        (1, 22050, 16, 70000),
        (2, 1, 16, 3),
    ] {
        let smp: Vec<u8> = (0..len).map(|k| (k * 7 % 256) as u8).collect();
        let buffer = pcm(ch, sps, bps, smp);
        let bytes = buffer.clone().into_bytes();
        assert_eq!(Pcm::new(&bytes), Ok(buffer));
    }
}

#[test]
fn other_chunks_are_stepped_over() {
    let mut bytes = wave_header(1, 2, 44100, 176400, 4, 16);
    bytes.extend_from_slice(b"LIST");
    bytes.extend_from_slice(&3u32.to_le_bytes());
    bytes.extend_from_slice(b"abc");
    bytes.extend_from_slice(b"fact");
    bytes.extend_from_slice(&0u32.to_le_bytes());
    let bytes = with_data(bytes, &[1, 2, 3, 4]);
    assert_eq!(Pcm::new(&bytes), Ok(pcm(2, 44100, 16, vec![1, 2, 3, 4])));
}

#[test]
fn longer_format_chunk_is_stepped_over() {
    let mut bytes = wave_header(1, 1, 8000, 8000, 1, 8);
    bytes[16..20].copy_from_slice(&18u32.to_le_bytes());
    bytes.extend_from_slice(&[0xee, 0xee]);
    let bytes = with_data(bytes, &[9, 8, 7]);
    assert_eq!(Pcm::new(&bytes), Ok(pcm(1, 8000, 8, vec![9, 8, 7])));
}

#[test]
fn data_chunk_shorter_than_it_states() {
    let mut bytes = wave_header(1, 1, 8000, 8000, 1, 8);
    bytes.extend_from_slice(b"data");
    bytes.extend_from_slice(&100u32.to_le_bytes());
    bytes.extend_from_slice(&[5, 6]);
    assert_eq!(Pcm::new(&bytes), Ok(pcm(1, 8000, 8, vec![5, 6])));
    let mut bytes = wave_header(1, 1, 8000, 8000, 1, 8);
    bytes.extend_from_slice(b"data");
    bytes.extend_from_slice(&2u32.to_le_bytes());
    bytes.extend_from_slice(&[5, 6, 7, 8]);
    assert_eq!(Pcm::new(&bytes), Ok(pcm(1, 8000, 8, vec![5, 6])));
}

#[test]
fn files_that_are_no_wave_files() {
    assert_eq!(Pcm::new(b""), Err(Error::TruncatedInput));
    assert_eq!(Pcm::new(b"RIF"), Err(Error::TruncatedInput));
    assert_eq!(Pcm::new(b"RIFX\0\0\0\0WAVEfmt "), Err(Error::BadSignature));
    assert_eq!(Pcm::new(b"RIFF\0\0\0\0WAVEfmt"), Err(Error::TruncatedInput));
    assert_eq!(Pcm::new(b"RIFF\0\0\0\0WAVEdata"), Err(Error::BadSignature));
    assert_eq!(Pcm::new(b"RIFF\0\0\0\0WAVEfmt \x10\0\0"), Err(Error::TruncatedInput));
    let whole = with_data(wave_header(1, 2, 44100, 176400, 4, 16), &[]);
    assert!(Pcm::new(&whole).is_ok());
    for cut in 0..whole.len() {
        assert_eq!(Pcm::new(&whole[..cut]), Err(Error::TruncatedInput));
    }
    // A chunk that reaches beyond the end leaves no data chunk to find.
    let mut bytes = wave_header(1, 2, 44100, 176400, 4, 16);
    bytes.extend_from_slice(b"LIST");
    bytes.extend_from_slice(&u32::MAX.to_le_bytes());
    bytes.extend_from_slice(b"data");
    assert_eq!(Pcm::new(&bytes), Err(Error::TruncatedInput));
}

#[test]
fn format_chunks_that_are_not_read() {
    let cases = [
        wave_header(2, 2, 44100, 176400, 4, 16),
        wave_header(1, 0, 44100, 0, 0, 16),
        wave_header(1, 3, 44100, 264600, 6, 16),
        wave_header(1, 2, 44100, 264600, 6, 24),
        wave_header(1, 2, 44100, 176401, 4, 16),
        wave_header(1, 2, 44100, 176400, 2, 16),
        wave_header(1, 2, u32::MAX, 0xffff_fffc, 4, 16),
    ];
    for header in cases {
        assert_eq!(Pcm::new(&with_data(header, &[0; 8])), Err(Error::UnsupportedTarget));
    }
    let mut short = wave_header(1, 2, 44100, 176400, 4, 16);
    short[16..20].copy_from_slice(&15u32.to_le_bytes());
    assert_eq!(Pcm::new(&with_data(short, &[0; 8])), Err(Error::UnsupportedTarget));
}

#[test]
fn format_chunk_reader() {
    let bytes = wave_header(1, 2, 48000, 192000, 4, 16);
    let mut reader = ptnoise::descriptor::ByteReader::new(&bytes);
    reader.seek(20);
    assert_eq!(
        PcmWaveFormat::read_chunk(&mut reader, 16),
        Ok(PcmWaveFormat { ch: 2, sps: 48000, bps: 16 })
    );
    assert_eq!(reader.offset(), 36);
    reader.seek(20);
    assert_eq!(PcmWaveFormat::read_chunk(&mut reader, 15), Err(Error::UnsupportedTarget));
    reader.seek(22);
    assert_eq!(PcmWaveFormat::read_chunk(&mut reader, 16), Err(Error::TruncatedInput));
}
