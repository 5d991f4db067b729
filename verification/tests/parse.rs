use ptnoise::descriptor::{write_var_32, ByteReader};
use ptnoise::error::Error;
use ptnoise::helper::Point;
use ptnoise::noise::PxtoneNoise;
use ptnoise::pulse::{
    Noise, NoiseOscillator, NoiseUnit, NoiseWave, LIMIT_FREQ, LIMIT_OFFSET, LIMIT_VOLU,
};

fn header(version: u32, duration: u32, units: u8) -> Vec<u8> {
    let mut bytes = b"PTNOISE-".to_vec();
    bytes.extend_from_slice(&version.to_le_bytes());
    bytes.extend_from_slice(&write_var_32(duration));
    bytes.push(units);
    bytes
}

fn flex(value: u32) -> Vec<u8> {
    write_var_32(value)
}

fn flex_signed(value: i32) -> Vec<u8> {
    write_var_32(value as u32)
}

fn flex_float(value: f32) -> Vec<u8> {
    write_var_32(value.to_bits())
}

fn oscillator(wave: i32, rev: u32, freq: f32, volu: f32, offset: f32) -> Vec<u8> {
    let mut bytes = flex_signed(wave);
    bytes.extend_from_slice(&flex(rev));
    bytes.extend_from_slice(&flex_float(freq));
    bytes.extend_from_slice(&flex_float(volu));
    bytes.extend_from_slice(&flex_float(offset));
    bytes
}

#[test]
fn limits_are_the_patterns_of_the_ranges() {
    assert_eq!(LIMIT_FREQ, 441000.0f32.to_bits());
    assert_eq!(LIMIT_VOLU, 2000.0f32.to_bits());
    assert_eq!(LIMIT_OFFSET, 1000.0f32.to_bits());
    assert_eq!(f32::from_bits(LIMIT_FREQ) / 10.0, 44100.0);
    assert_eq!(f32::from_bits(LIMIT_VOLU) / 10.0, 200.0);
    assert_eq!(f32::from_bits(LIMIT_OFFSET) / 10.0, 100.0);
}

#[test]
fn empty_instrument_at_the_version_boundary() {
    let bytes = header(20120418, 44100, 0);
    let noise = Noise::new(&bytes).unwrap();
    assert_eq!(noise.smp_num_44k, 44100);
    assert!(noise.units.is_empty());

    let mut builder = noise.build(2, 44100, 16).unwrap();
    assert_eq!(builder.remaining(), 44100);
    let mut frames = 0;
    while builder.remaining() > 0 {
        assert!(builder.write_frame(&[0, 0]));
        frames += 1;
    }
    assert_eq!(frames, 44100);
    assert!(!builder.write_frame(&[0, 0]));
    let pcm = builder.finish().unwrap();
    assert_eq!(pcm.fmt.ch, 2);
    assert_eq!(pcm.fmt.sps, 44100);
    assert_eq!(pcm.fmt.bps, 16);
    assert_eq!(pcm.smp.len(), 176400);
    assert!(pcm.smp.iter().all(|byte| *byte == 0));
}

#[test]
fn older_version_is_read() {
    let bytes = header(20120417, 10, 0);
    assert_eq!(Noise::new(&bytes).unwrap().smp_num_44k, 10);
    let bytes = header(0, 10, 0);
    assert!(Noise::new(&bytes).is_ok());
}

#[test]
fn newer_version_is_refused() {
    let bytes = header(20120419, 44100, 0);
    assert_eq!(Noise::new(&bytes), Err(Error::UnsupportedVersion));
    let bytes = header(u32::MAX, 44100, 0);
    assert_eq!(Noise::new(&bytes), Err(Error::UnsupportedVersion));
}

#[test]
fn wrong_signature_is_refused() {
    let mut bytes = header(20120418, 44100, 0);
    bytes[2] = b'V';
    assert_eq!(Noise::new(&bytes), Err(Error::BadSignature));
    assert_eq!(Noise::new(b"PTVOICE-\x00\x00\x00\x00\x00\x00"), Err(Error::BadSignature));
}

#[test]
fn short_buffers_are_truncated() {
    assert_eq!(Noise::new(b""), Err(Error::TruncatedInput));
    assert_eq!(Noise::new(b"PTNOIS"), Err(Error::TruncatedInput));
    assert_eq!(Noise::new(b"PTNOISE-"), Err(Error::TruncatedInput));
    assert_eq!(Noise::new(b"PTNOISE-\x00\x00\x00"), Err(Error::TruncatedInput));
    let whole = header(20120418, 44100, 0);
    for cut in 0..whole.len() {
        assert_eq!(Noise::new(&whole[..cut]), Err(Error::TruncatedInput));
    }
}

#[test]
fn duration_is_cut_to_ten_seconds() {
    let bytes = header(20120418, 480000, 0);
    assert_eq!(Noise::new(&bytes).unwrap().smp_num_44k, 480000);
    let bytes = header(20120418, 480001, 0);
    assert_eq!(Noise::new(&bytes).unwrap().smp_num_44k, 480000);
    let bytes = header(20120418, u32::MAX, 0);
    assert_eq!(Noise::new(&bytes).unwrap().smp_num_44k, 480000);
}

#[test]
fn malformed_duration() {
    let mut bytes = b"PTNOISE-".to_vec();
    bytes.extend_from_slice(&20120418u32.to_le_bytes());
    bytes.extend_from_slice(&[0x80, 0x80, 0x80, 0x80, 0x80, 0x00]);
    assert_eq!(Noise::new(&bytes), Err(Error::MalformedVarint));
}

#[test]
fn five_units_are_too_many() {
    // No unit follows: the count is refused before a unit is looked for.
    let bytes = header(20120418, 44100, 5);
    assert_eq!(Noise::new(&bytes), Err(Error::TooManyUnits));
    let bytes = header(20120418, 44100, 255);
    assert_eq!(Noise::new(&bytes), Err(Error::TooManyUnits));
    let mut bytes = header(20120418, 44100, 5);
    bytes.extend_from_slice(&[0xff; 16]);
    assert_eq!(Noise::new(&bytes), Err(Error::TooManyUnits));
}

#[test]
fn four_units_are_read() {
    let mut bytes = header(20120418, 44100, 4);
    for _ in 0..4 {
        bytes.extend_from_slice(&flex(0));
    }
    let noise = Noise::new(&bytes).unwrap();
    assert_eq!(noise.units.len(), 4);
    for unit in &noise.units {
        assert!(unit.enable);
        assert!(unit.enves.is_empty());
        assert_eq!(unit.pan, 0);
        assert_eq!(unit.main, None);
        assert_eq!(unit.freq, None);
        assert_eq!(unit.volu, None);
    }
}

#[test]
fn missing_unit_is_truncated() {
    let mut bytes = header(20120418, 44100, 2);
    bytes.extend_from_slice(&flex(0));
    assert_eq!(Noise::new(&bytes), Err(Error::TruncatedInput));
}

#[test]
fn unknown_flags_are_refused() {
    for flags in [0x01u32, 0x02, 0x80, 0x100, 0x8000_0000, 0x85] {
        let mut bytes = header(20120418, 44100, 1);
        bytes.extend_from_slice(&flex(flags));
        assert_eq!(Noise::new(&bytes), Err(Error::UnknownFeatureFlag));
    }
}

#[test]
fn envelope_points_are_read_and_cut() {
    let mut bytes = header(20120418, 44100, 1);
    bytes.extend_from_slice(&flex(0x04));
    bytes.extend_from_slice(&flex(3));
    bytes.extend_from_slice(&flex_signed(0));
    bytes.extend_from_slice(&flex_signed(100));
    bytes.extend_from_slice(&flex_signed(10001));
    bytes.extend_from_slice(&flex_signed(101));
    bytes.extend_from_slice(&flex_signed(-1));
    bytes.extend_from_slice(&flex_signed(-5));
    let noise = Noise::new(&bytes).unwrap();
    assert_eq!(
        noise.units[0].enves,
        vec![Point { x: 0, y: 100 }, Point { x: 10000, y: 100 }, Point { x: 0, y: 0 }]
    );
}

#[test]
fn four_envelope_points_are_too_many() {
    let mut bytes = header(20120418, 44100, 1);
    bytes.extend_from_slice(&flex(0x04));
    bytes.extend_from_slice(&flex(4));
    assert_eq!(Noise::new(&bytes), Err(Error::TooManyEnvelopePoints));
}

#[test]
fn truncated_envelope_point() {
    // The last point has its x and lacks its y.
    let mut bytes = header(20120418, 44100, 1);
    bytes.extend_from_slice(&flex(0x04));
    bytes.extend_from_slice(&flex(2));
    bytes.extend_from_slice(&flex_signed(10));
    bytes.extend_from_slice(&flex_signed(50));
    bytes.extend_from_slice(&flex_signed(20));
    assert_eq!(Noise::new(&bytes), Err(Error::TruncatedInput));
}

#[test]
fn pan_is_read_and_cut() {
    let cases = [
        (0u8, 0i8),
        (100, 100),
        (101, 100),
        (127, 100),
        (0x80, -100),
        (0x9c, -100),
        (0x9d, -99),
        (0xff, -1),
    ];
    for (stored, expected) in cases {
        let mut bytes = header(20120418, 44100, 1);
        bytes.extend_from_slice(&flex(0x08));
        bytes.push(stored);
        let noise = Noise::new(&bytes).unwrap();
        assert_eq!(noise.units[0].pan, expected);
    }
    let mut bytes = header(20120418, 44100, 1);
    bytes.extend_from_slice(&flex(0x08));
    assert_eq!(Noise::new(&bytes), Err(Error::TruncatedInput));
}

#[test]
fn oscillators_are_read_in_order() {
    let mut bytes = header(20120418, 44100, 1);
    bytes.extend_from_slice(&flex(0x70));
    bytes.extend_from_slice(&oscillator(1, 0, 4400.0, 1000.0, 0.0));
    bytes.extend_from_slice(&oscillator(7, 1, 100.0, 500.0, 250.0));
    bytes.extend_from_slice(&oscillator(4, 2, 10.0, 2000.0, 1000.0));
    let noise = Noise::new(&bytes).unwrap();
    let unit = &noise.units[0];
    assert_eq!(
        unit.main,
        Some(NoiseOscillator {
            wave: NoiseWave::Sine,
            rev: false,
            freq: 4400.0f32.to_bits(),
            volu: 1000.0f32.to_bits(),
            offset: 0,
        })
    );
    assert_eq!(
        unit.freq,
        Some(NoiseOscillator {
            wave: NoiseWave::Tri,
            rev: true,
            freq: 100.0f32.to_bits(),
            volu: 500.0f32.to_bits(),
            offset: 250.0f32.to_bits(),
        })
    );
    assert_eq!(
        unit.volu,
        Some(NoiseOscillator {
            wave: NoiseWave::Random,
            rev: true,
            freq: 10.0f32.to_bits(),
            volu: 2000.0f32.to_bits(),
            offset: 1000.0f32.to_bits(),
        })
    );
}

#[test]
fn only_the_announced_oscillators_are_read() {
    let mut bytes = header(20120418, 44100, 1);
    bytes.extend_from_slice(&flex(0x20));
    bytes.extend_from_slice(&oscillator(2, 0, 1.0, 1.0, 1.0));
    let noise = Noise::new(&bytes).unwrap();
    assert_eq!(noise.units[0].main, None);
    assert_eq!(noise.units[0].freq.unwrap().wave, NoiseWave::Saw);
    assert_eq!(noise.units[0].volu, None);
}

#[test]
fn oscillator_numbers_are_cut_to_their_ranges() {
    let cases: [(f32, f32, f32, f32, f32, f32); 6] = [
        (441000.0, 2000.0, 1000.0, 441000.0, 2000.0, 1000.0),
        (441000.1, 2000.1, 1000.1, 441000.0, 2000.0, 1000.0),
        (f32::INFINITY, f32::MAX, 1e9, 441000.0, 2000.0, 1000.0),
        (-1.0, -0.0, f32::NEG_INFINITY, 0.0, 0.0, 0.0),
        (f32::NAN, -f32::NAN, f32::MIN, 0.0, 0.0, 0.0),
        (440999.97, 1999.9999, 999.99994, 440999.97, 1999.9999, 999.99994),
    ];
    for (freq, volu, offset, cut_freq, cut_volu, cut_offset) in cases {
        let mut bytes = header(20120418, 44100, 1);
        bytes.extend_from_slice(&flex(0x10));
        bytes.extend_from_slice(&oscillator(3, 0, freq, volu, offset));
        let noise = Noise::new(&bytes).unwrap();
        let main = noise.units[0].main.unwrap();
        assert_eq!(main.freq, cut_freq.to_bits());
        assert_eq!(main.volu, cut_volu.to_bits());
        assert_eq!(main.offset, cut_offset.to_bits());
    }
}

#[test]
fn cutting_the_tenths_is_cutting_the_number() {
    // What the document keeps, divided by ten, is the stored number divided
    // by ten and then cut to its range.
    let mut bits: u32 = 0;
    loop {
        let stored = f32::from_bits(bits);
        let mut bytes = header(20120418, 44100, 1);
        bytes.extend_from_slice(&flex(0x10));
        bytes.extend_from_slice(&oscillator(1, 0, stored, stored, stored));
        let main = Noise::new(&bytes).unwrap().units[0].main.unwrap();
        assert_eq!(f32::from_bits(main.freq) / 10.0, (stored / 10.0).max(0.0).min(44100.0));
        assert_eq!(f32::from_bits(main.volu) / 10.0, (stored / 10.0).max(0.0).min(200.0));
        assert_eq!(f32::from_bits(main.offset) / 10.0, (stored / 10.0).max(0.0).min(100.0));
        match bits.checked_add(0x0003_1415) {
            Some(next) => bits = next,
            None => break,
        }
    }
}

#[test]
fn every_waveform_index() {
    let waves = [
        NoiseWave::Silent,
        NoiseWave::Sine,
        NoiseWave::Saw,
        NoiseWave::Rect,
        NoiseWave::Random,
        NoiseWave::Saw2,
        NoiseWave::Rect2,
        NoiseWave::Tri,
        NoiseWave::Random2,
        NoiseWave::Rect3,
        NoiseWave::Rect4,
        NoiseWave::Rect8,
        NoiseWave::Rect16,
        NoiseWave::Saw3,
        NoiseWave::Saw4,
        NoiseWave::Saw6,
        NoiseWave::Saw8,
    ];
    for (index, wave) in waves.iter().enumerate() {
        assert_eq!(NoiseWave::from_i32(index as i32), Some(*wave));
    }
    assert_eq!(NoiseWave::from_i32(17), None);
    assert_eq!(NoiseWave::from_i32(-1), None);
    assert_eq!(NoiseWave::from_i32(i32::MAX), None);
    assert_eq!(NoiseWave::from_i32(i32::MIN), None);
}

#[test]
fn unknown_waveform_is_refused() {
    for wave in [17, -1, 1000] {
        let mut bytes = header(20120418, 44100, 1);
        bytes.extend_from_slice(&flex(0x10));
        bytes.extend_from_slice(&oscillator(wave, 0, 1.0, 1.0, 1.0));
        assert_eq!(Noise::new(&bytes), Err(Error::UnknownWaveform));
    }
    // The index is refused before the rest of the oscillator is looked for.
    let mut bytes = header(20120418, 44100, 1);
    bytes.extend_from_slice(&flex(0x10));
    bytes.extend_from_slice(&flex_signed(17));
    assert_eq!(Noise::new(&bytes), Err(Error::UnknownWaveform));
}

#[test]
fn truncated_oscillator() {
    let mut whole = header(20120418, 44100, 1);
    let start = whole.len();
    whole.extend_from_slice(&flex(0x10));
    whole.extend_from_slice(&oscillator(1, 0, 4400.0, 1000.0, 0.5));
    assert!(Noise::new(&whole).is_ok());
    for cut in start..whole.len() {
        assert_eq!(Noise::new(&whole[..cut]), Err(Error::TruncatedInput));
    }
}

#[test]
fn whole_unit() {
    let mut bytes = header(20120418, 22050, 2);
    bytes.extend_from_slice(&flex(0x7c));
    bytes.extend_from_slice(&flex(1));
    bytes.extend_from_slice(&flex_signed(500));
    bytes.extend_from_slice(&flex_signed(75));
    bytes.push(0xce);
    bytes.extend_from_slice(&oscillator(16, 0, 4400.0, 1000.0, 0.0));
    bytes.extend_from_slice(&oscillator(0, 0, 0.0, 0.0, 0.0));
    bytes.extend_from_slice(&oscillator(8, 1, 30.0, 40.0, 50.0));
    bytes.extend_from_slice(&flex(0));
    bytes.extend_from_slice(b"what follows is not looked at");
    let noise = Noise::new(&bytes).unwrap();
    assert_eq!(noise.smp_num_44k, 22050);
    assert_eq!(noise.units.len(), 2);
    assert_eq!(
        noise.units[0],
        NoiseUnit {
            enable: true,
            enves: vec![Point { x: 500, y: 75 }],
            pan: -50,
            main: Some(NoiseOscillator {
                wave: NoiseWave::Saw8,
                rev: false,
                freq: 4400.0f32.to_bits(),
                volu: 1000.0f32.to_bits(),
                offset: 0,
            }),
            freq: Some(NoiseOscillator {
                wave: NoiseWave::Silent,
                rev: false,
                freq: 0,
                volu: 0,
                offset: 0
            }),
            volu: Some(NoiseOscillator {
                wave: NoiseWave::Random2,
                rev: true,
                freq: 30.0f32.to_bits(),
                volu: 40.0f32.to_bits(),
                offset: 50.0f32.to_bits(),
            }),
        }
    );
}

#[test]
fn unit_reader_stays_on_error() {
    let mut bytes = flex(0x04);
    bytes.extend_from_slice(&flex(1));
    bytes.extend_from_slice(&flex_signed(10));
    let mut reader = ByteReader::new(&bytes);
    assert_eq!(NoiseUnit::new(&mut reader), Err(Error::TruncatedInput));
    assert_eq!(reader.offset(), 0);

    let bytes = oscillator(1, 0, 1.0, 2.0, 3.0);
    let mut reader = ByteReader::new(&bytes[..bytes.len() - 1]);
    assert_eq!(NoiseOscillator::new(&mut reader), Err(Error::TruncatedInput));
    assert_eq!(reader.offset(), 0);
    let mut reader = ByteReader::new(&bytes);
    assert!(NoiseOscillator::new(&mut reader).is_ok());
    assert_eq!(reader.offset(), bytes.len());
}

#[test]
fn generate_tells_what_parsing_tells() {
    let target = PxtoneNoise { channel: 2, sample_rate: 44100, bits_per_sample: 16 };
    assert_eq!(target.generate(header(20120418, 44100, 0)), Ok(()));
    assert_eq!(target.generate(header(20120418, 44100, 5)), Err(Error::TooManyUnits));
    assert_eq!(target.generate(header(20120419, 44100, 0)), Err(Error::UnsupportedVersion));
    assert_eq!(target.generate(Vec::new()), Err(Error::TruncatedInput));
    assert_eq!(target.generate(b"RIFFWAVEfmt xxxx".to_vec()), Err(Error::BadSignature));
}
