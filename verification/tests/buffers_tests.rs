use tilegame::buffers::{
    stub_audio_render, AudioBuffer, AudioBufferRaw, GraphicsBuffer, GraphicsBufferRaw,
};

fn frame(bytes: usize) -> GraphicsBuffer {
    GraphicsBuffer {
        pixels: (0..bytes).map(|i| (i % 256) as u8).collect(),
        width_pixels: 3,
        height_pixels: 2,
        pitch_bytes: 16,
        pitch_pixels: 4,
        bytes_per_pixel: 4,
    }
}

#[test]
fn graphics_round_trip() {
    let b = frame(32);
    let pixels = b.pixels.clone();
    let raw = b.to_raw();
    assert_eq!(raw.pixels, pixels);
    assert_eq!(raw.pitch_bytes, 16);
    let back = GraphicsBuffer::from_raw(raw);
    assert_eq!(back.pixels, pixels);
    assert_eq!(back.width_pixels, 3);
    assert_eq!(back.height_pixels, 2);
    assert_eq!(back.pitch_pixels, 4);
    assert_eq!(back.bytes_per_pixel, 4);
}

#[test]
fn graphics_from_raw_takes_covered_bytes() {
    let raw = GraphicsBufferRaw {
        pixels: (0..40u8).collect(),
        width_pixels: 3,
        height_pixels: 2,
        pitch_bytes: 16,
        bytes_per_pixel: 4,
        pitch_pixels: 4,
    };
    let b = GraphicsBuffer::from_raw(raw);
    assert_eq!(b.pixels, (0..32u8).collect::<Vec<u8>>());
    let again = b.to_raw();
    assert_eq!(again.pixels.len(), 32);
}

#[test]
fn audio_round_trip() {
    let a = AudioBuffer { samples_buf: vec![1, -2, 3, -4, 5, -6], sample_rate: 48_000 };
    let raw = a.to_raw();
    assert_eq!(raw.frame_count, 3);
    assert_eq!(raw.sample_rate, 48_000);
    let back = AudioBuffer::from_raw(raw);
    assert_eq!(back.samples_buf, vec![1, -2, 3, -4, 5, -6]);
    assert_eq!(back.sample_rate, 48_000);
}

#[test]
fn audio_odd_sample_is_dropped() {
    let a = AudioBuffer { samples_buf: vec![9, 8, 7], sample_rate: 44_100 };
    let raw = a.to_raw();
    assert_eq!(raw.frame_count, 1);
    let back = AudioBuffer::from_raw(raw);
    assert_eq!(back.samples_buf, vec![9, 8]);
}

#[test]
fn audio_raw_round_trip() {
    let raw = AudioBufferRaw { samples_buf: vec![4, 4, 5, 5], sample_rate: 8000, frame_count: 2 };
    let back = AudioBuffer::from_raw(raw).to_raw();
    assert_eq!(back.samples_buf, vec![4, 4, 5, 5]);
    assert_eq!(back.frame_count, 2);
    assert_eq!(back.sample_rate, 8000);
}

#[test]
fn stub_audio_silences_its_frames() {
    let mut raw =
        AudioBufferRaw { samples_buf: vec![3, 3, 3, 3, 3], sample_rate: 48_000, frame_count: 2 };
    assert!(!stub_audio_render(&mut raw));
    assert_eq!(raw.samples_buf, vec![0, 0, 0, 0, 3]);
    assert_eq!(raw.frame_count, 2);
}

#[test]
fn raw_round_trips_keep_covered_part() {
    let raw = GraphicsBufferRaw {
        pixels: (0..40u8).collect(),
        width_pixels: 3,
        height_pixels: 2,
        pitch_bytes: 16,
        bytes_per_pixel: 4,
        pitch_pixels: 4,
    };
    let back = GraphicsBuffer::from_raw(raw).to_raw();
    assert_eq!(back.pixels, (0..32u8).collect::<Vec<u8>>());
    assert_eq!((back.width_pixels, back.height_pixels, back.pitch_bytes), (3, 2, 16));
    let audio = AudioBufferRaw { samples_buf: vec![1, 2, 3, 4, 5], sample_rate: 100, frame_count: 2 };
    let back = AudioBuffer::from_raw(audio).to_raw();
    assert_eq!(back.samples_buf, vec![1, 2, 3, 4]);
    assert_eq!(back.frame_count, 2);
}
