use mpc_emulator::wav::{encodable, encode_wav};

fn header(n_samples: u32, sample_rate: u32, channels: u16) -> Vec<u8> {
    let data = n_samples * 2;
    let mut h = Vec::new();
    h.extend_from_slice(b"RIFF");
    h.extend_from_slice(&(36 + data).to_le_bytes());
    h.extend_from_slice(b"WAVE");
    h.extend_from_slice(b"fmt ");
    h.extend_from_slice(&16u32.to_le_bytes());
    h.extend_from_slice(&1u16.to_le_bytes());
    h.extend_from_slice(&channels.to_le_bytes());
    h.extend_from_slice(&sample_rate.to_le_bytes());
    h.extend_from_slice(&(sample_rate * channels as u32 * 2).to_le_bytes());
    h.extend_from_slice(&(channels * 2).to_le_bytes());
    h.extend_from_slice(&16u16.to_le_bytes());
    h.extend_from_slice(b"data");
    h.extend_from_slice(&data.to_le_bytes());
    h
}

#[test]
fn empty_recording_is_a_bare_header() {
    let w = encode_wav(&[], 44100, 1);
    assert_eq!(
        w,
        vec![
            b'R', b'I', b'F', b'F', 36, 0, 0, 0, b'W', b'A', b'V', b'E', b'f', b'm', b't', b' ', 16,
            0, 0, 0, 1, 0, 1, 0, 0x44, 0xac, 0, 0, 0x88, 0x58, 0x01, 0, 2, 0, 16, 0, b'd', b'a',
            b't', b'a', 0, 0, 0, 0
        ]
    );
}

#[test]
fn samples_follow_the_header_little_endian() {
    let pcm: [i16; 5] = [1, -1, 32767, -32768, 0x1234];
    let w = encode_wav(&pcm, 8000, 1);
    assert_eq!(w.len(), 44 + 10);
    assert_eq!(&w[..44], header(5, 8000, 1).as_slice());
    assert_eq!(&w[44..], &[1, 0, 0xff, 0xff, 0xff, 0x7f, 0x00, 0x80, 0x34, 0x12]);
}

#[test]
fn stereo_header_fields() {
    let pcm: Vec<i16> = (0..6).map(|i| i * 100 - 250).collect();
    let w = encode_wav(&pcm, 48000, 2);
    assert_eq!(&w[..44], header(6, 48000, 2).as_slice());
    assert_eq!(u32::from_le_bytes([w[4], w[5], w[6], w[7]]) as usize, w.len() - 8);
    assert_eq!(u32::from_le_bytes([w[28], w[29], w[30], w[31]]), 48000 * 2 * 2);
    assert_eq!(u16::from_le_bytes([w[32], w[33]]), 4);
    for (i, s) in pcm.iter().enumerate() {
        assert_eq!(i16::from_le_bytes([w[44 + 2 * i], w[45 + 2 * i]]), *s);
    }
}

#[test]
fn encodable_limits() {
    assert!(encodable(0, 44100, 1));
    assert!(encodable(1_000_000, 192_000, 8));
    assert!(!encodable(0, 44100, 32768));
    assert!(encodable(0, 44100, 32767));
    assert!(!encodable(0, u32::MAX, 2));
    assert!(encodable(0, u32::MAX / 2, 1));
    assert!(!encodable(0, u32::MAX / 2 + 1, 1));
    assert!(encodable(((u32::MAX - 36) / 2) as usize, 8000, 1));
    assert!(!encodable(((u32::MAX - 36) / 2 + 1) as usize, 8000, 1));
    assert!(!encodable(usize::MAX, 8000, 1));
}
