use vstd::prelude::*;

verus! {

/// The frame the game draws into: rows of `pitch_bytes` bytes, the first
/// `width_pixels` pixels of each row shown.
pub struct GraphicsBuffer {
    pub pixels: Vec<u8>,
    pub width_pixels: usize,
    pub height_pixels: usize,
    pub pitch_bytes: usize,
    pub pitch_pixels: usize,
    pub bytes_per_pixel: usize,
}

/// A frame in the form handed between platform and game: the same bytes
/// and sizes; readers take `pitch_bytes * height_pixels` bytes of it.
pub struct GraphicsBufferRaw {
    pub pixels: Vec<u8>,
    pub width_pixels: usize,
    pub height_pixels: usize,
    pub pitch_bytes: usize,
    pub bytes_per_pixel: usize,
    pub pitch_pixels: usize,
}

/// Bytes a frame of these sizes covers.
pub open spec fn frame_len(pitch_bytes: usize, height_pixels: usize) -> int {
    pitch_bytes * height_pixels
}

/// `raw` carries the bytes and sizes of `b`.
pub open spec fn graphics_raw_of(b: GraphicsBuffer, raw: GraphicsBufferRaw) -> bool {
    &&& raw.pixels@ == b.pixels@
    &&& raw.width_pixels == b.width_pixels
    &&& raw.height_pixels == b.height_pixels
    &&& raw.pitch_bytes == b.pitch_bytes
    &&& raw.bytes_per_pixel == b.bytes_per_pixel
    &&& raw.pitch_pixels == b.pitch_pixels
}

/// `b` is the frame that `raw` describes: its first
/// `pitch_bytes * height_pixels` bytes, and its sizes.
pub open spec fn graphics_from_raw_of(raw: GraphicsBufferRaw, b: GraphicsBuffer) -> bool {
    &&& b.pixels@ == raw.pixels@.take(frame_len(raw.pitch_bytes, raw.height_pixels))
    &&& b.width_pixels == raw.width_pixels
    &&& b.height_pixels == raw.height_pixels
    &&& b.pitch_bytes == raw.pitch_bytes
    &&& b.bytes_per_pixel == raw.bytes_per_pixel
    &&& b.pitch_pixels == raw.pitch_pixels
}

/// The raw form holds at least the bytes its sizes cover.
pub open spec fn graphics_raw_valid(raw: GraphicsBufferRaw) -> bool {
    &&& frame_len(raw.pitch_bytes, raw.height_pixels) <= usize::MAX
    &&& frame_len(raw.pitch_bytes, raw.height_pixels) <= raw.pixels.len()
}

impl GraphicsBuffer {
    /// Takes the frame of `raw`: the `pitch_bytes * height_pixels` bytes
    /// its sizes cover, and the sizes.
    pub fn from_raw(raw: GraphicsBufferRaw) -> (b: GraphicsBuffer)
        requires
            graphics_raw_valid(raw),
        ensures
            graphics_from_raw_of(raw, b),
    {
        let len: usize = raw.pitch_bytes * raw.height_pixels;
        let mut pixels: Vec<u8> = raw.pixels;
        pixels.truncate(len);
        GraphicsBuffer {
            pixels,
            width_pixels: raw.width_pixels,
            height_pixels: raw.height_pixels,
            pitch_bytes: raw.pitch_bytes,
            bytes_per_pixel: raw.bytes_per_pixel,
            pitch_pixels: raw.pitch_pixels,
        }
    }

    /// Hands the frame over in raw form.
    pub fn to_raw(self) -> (raw: GraphicsBufferRaw)
        ensures
            graphics_raw_of(self, raw),
    {
        GraphicsBufferRaw {
            pixels: self.pixels,
            width_pixels: self.width_pixels,
            height_pixels: self.height_pixels,
            pitch_bytes: self.pitch_bytes,
            bytes_per_pixel: self.bytes_per_pixel,
            pitch_pixels: self.pitch_pixels,
        }
    }
}

/// Audio samples the game writes: interleaved stereo, two samples a frame.
pub struct AudioBuffer {
    pub samples_buf: Vec<i16>,
    pub sample_rate: u32,
}

/// Audio samples in the form handed between platform and game; readers take
/// `frame_count * 2` samples of it.
pub struct AudioBufferRaw {
    pub samples_buf: Vec<i16>,
    pub sample_rate: u32,
    pub frame_count: usize,
}

/// `raw` carries the samples of `a`, and counts its whole frames.
pub open spec fn audio_raw_of(a: AudioBuffer, raw: AudioBufferRaw) -> bool {
    &&& raw.samples_buf@ == a.samples_buf@
    &&& raw.sample_rate == a.sample_rate
    &&& raw.frame_count == a.samples_buf.len() / 2
}

/// `a` holds the `frame_count * 2` samples that `raw` describes.
pub open spec fn audio_from_raw_of(raw: AudioBufferRaw, a: AudioBuffer) -> bool {
    &&& a.samples_buf@ == raw.samples_buf@.take(raw.frame_count * 2)
    &&& a.sample_rate == raw.sample_rate
}

/// The raw form holds at least the samples its frame count covers.
pub open spec fn audio_raw_valid(raw: AudioBufferRaw) -> bool {
    &&& raw.frame_count * 2 <= usize::MAX
    &&& raw.frame_count * 2 <= raw.samples_buf.len()
}

impl AudioBuffer {
    /// Takes the `frame_count * 2` samples of `raw`.
    pub fn from_raw(raw: AudioBufferRaw) -> (a: AudioBuffer)
        requires
            audio_raw_valid(raw),
        ensures
            audio_from_raw_of(raw, a),
    {
        let len: usize = raw.frame_count * 2;
        let mut samples_buf: Vec<i16> = raw.samples_buf;
        samples_buf.truncate(len);
        AudioBuffer { samples_buf, sample_rate: raw.sample_rate }
    }

    /// Hands the samples over in raw form, counting whole frames.
    pub fn to_raw(self) -> (raw: AudioBufferRaw)
        ensures
            audio_raw_of(self, raw),
    {
        let frame_count: usize = self.samples_buf.len() / 2;
        AudioBufferRaw { samples_buf: self.samples_buf, sample_rate: self.sample_rate, frame_count }
    }
}

/// Stands in for a game without an audio entry point: silences the
/// `frame_count * 2` samples of the buffer and reports that nothing was
/// rendered.
pub fn stub_audio_render(audio_buffer: &mut AudioBufferRaw) -> (rendered: bool)
    requires
        audio_raw_valid(*old(audio_buffer)),
    ensures
        !rendered,
        final(audio_buffer).sample_rate == old(audio_buffer).sample_rate,
        final(audio_buffer).frame_count == old(audio_buffer).frame_count,
        final(audio_buffer).samples_buf@.len() == old(audio_buffer).samples_buf@.len(),
        forall|i: int|
            0 <= i < old(audio_buffer).samples_buf@.len() ==> #[trigger] final(audio_buffer).samples_buf@[i] == if i < old(audio_buffer).frame_count * 2 {
                0i16
            } else {
                old(audio_buffer).samples_buf@[i]
            },
{
    let len: usize = audio_buffer.frame_count * 2;
    let mut i: usize = 0;
    while i < len
        invariant
            len == old(audio_buffer).frame_count * 2,
            len <= old(audio_buffer).samples_buf@.len(),
            i <= len,
            audio_buffer.sample_rate == old(audio_buffer).sample_rate,
            audio_buffer.frame_count == old(audio_buffer).frame_count,
            audio_buffer.samples_buf@.len() == old(audio_buffer).samples_buf@.len(),
            forall|j: int|
                0 <= j < old(audio_buffer).samples_buf@.len() ==> #[trigger] audio_buffer.samples_buf@[j]
                    == if j < i {
                    0i16
                } else {
                    old(audio_buffer).samples_buf@[j]
                },
        decreases len - i,
    {
        audio_buffer.samples_buf[i] = 0;
        i = i + 1;
    }
    false
}

/// A frame whose bytes are exactly what its sizes cover comes back
/// unchanged from the raw form.
pub proof fn lemma_graphics_round_trip(b: GraphicsBuffer, raw: GraphicsBufferRaw, back: GraphicsBuffer)
    requires
        b.pixels.len() == frame_len(b.pitch_bytes, b.height_pixels),
        graphics_raw_of(b, raw),
        graphics_from_raw_of(raw, back),
    ensures
        graphics_raw_valid(raw),
        back.pixels@ == b.pixels@,
        back.width_pixels == b.width_pixels,
        back.height_pixels == b.height_pixels,
        back.pitch_bytes == b.pitch_bytes,
        back.pitch_pixels == b.pitch_pixels,
        back.bytes_per_pixel == b.bytes_per_pixel,
{
    assert(back.pixels@ =~= b.pixels@);
}

/// A raw frame comes back through the frame it describes with the same
/// sizes and the same covered bytes, the `pitch_bytes * height_pixels`
/// bytes its readers take; exactly as it was when it holds no more.
pub proof fn lemma_graphics_raw_round_trip(raw: GraphicsBufferRaw, b: GraphicsBuffer, back: GraphicsBufferRaw)
    requires
        graphics_raw_valid(raw),
        graphics_from_raw_of(raw, b),
        graphics_raw_of(b, back),
    ensures
        graphics_raw_valid(back),
        back.pixels@.take(frame_len(back.pitch_bytes, back.height_pixels)) == raw.pixels@.take(
            frame_len(raw.pitch_bytes, raw.height_pixels),
        ),
        back.width_pixels == raw.width_pixels,
        back.height_pixels == raw.height_pixels,
        back.pitch_bytes == raw.pitch_bytes,
        back.pitch_pixels == raw.pitch_pixels,
        back.bytes_per_pixel == raw.bytes_per_pixel,
        raw.pixels.len() == frame_len(raw.pitch_bytes, raw.height_pixels) ==> back.pixels@
            == raw.pixels@,
{
    let n = frame_len(raw.pitch_bytes, raw.height_pixels);
    assert(back.pixels@.take(n) =~= raw.pixels@.take(n));
    if raw.pixels.len() == n {
        assert(back.pixels@ =~= raw.pixels@);
    }
}

/// Audio of whole frames comes back unchanged from the raw form.
pub proof fn lemma_audio_round_trip(a: AudioBuffer, raw: AudioBufferRaw, back: AudioBuffer)
    requires
        a.samples_buf.len() % 2 == 0,
        audio_raw_of(a, raw),
        audio_from_raw_of(raw, back),
    ensures
        audio_raw_valid(raw),
        back.samples_buf@ == a.samples_buf@,
        back.sample_rate == a.sample_rate,
{
    assert(back.samples_buf@ =~= a.samples_buf@);
}

/// Raw audio comes back through the samples it describes with the same
/// rate, frame count and covered samples, the `frame_count * 2` its
/// readers take; exactly as it was when it holds no more.
pub proof fn lemma_audio_raw_round_trip(raw: AudioBufferRaw, a: AudioBuffer, back: AudioBufferRaw)
    requires
        audio_raw_valid(raw),
        audio_from_raw_of(raw, a),
        audio_raw_of(a, back),
    ensures
        audio_raw_valid(back),
        back.samples_buf@.take(back.frame_count * 2) == raw.samples_buf@.take(raw.frame_count * 2),
        back.sample_rate == raw.sample_rate,
        back.frame_count == raw.frame_count,
        raw.samples_buf.len() == raw.frame_count * 2 ==> back.samples_buf@ == raw.samples_buf@,
{
    let n = raw.frame_count * 2;
    assert(back.samples_buf@.take(n) =~= raw.samples_buf@.take(n));
    if raw.samples_buf.len() == n {
        assert(back.samples_buf@ =~= raw.samples_buf@);
    }
}

} // verus!
