use vstd::prelude::*;
use crate::byte_order::{u32_from_le, u32_from_be};
use crate::input::{
    GameInput, update_keyboard_input, keys_from_bytes, set_held_keys, key_event_fits,
    key_event_applied, decodes_key_codes, keyboard_mapping_seq, held, NUM_BUTTONS,
    NUM_POINTER_BUTTONS,
};

verus! {

pub const KILOBYTE: usize = 1024;
pub const MEGABYTE: usize = 1024 * KILOBYTE;
pub const GIGABYTE: usize = 1024 * MEGABYTE;
pub const DEFAULT_WINDOW_WIDTH: usize = 1920;
pub const DEFAULT_WINDOW_HEIGHT: usize = 1080;

/// Width of the shared pixel pool, in pixels.
pub const POOL_WIDTH_PIXELS: usize = 3840;

/// Height of the shared pixel pool: two regions, one above the other.
pub const POOL_HEIGHT_PIXELS: usize = 2160 * 2;
pub const BYTES_PER_PIXEL: usize = 4;

/// Bytes in one row of the pool.
pub const POOL_STRIDE_BYTES: usize = POOL_WIDTH_PIXELS * BYTES_PER_PIXEL;

/// Pixels in one row of the pool.
pub const POOL_STRIDE_PIXELS: usize = POOL_STRIDE_BYTES / 4;

/// Key code that asks for the game code to be reloaded.
pub const HOT_RELOAD_KEYCODE: u32 = 27 - 8;

pub const ALSA_CHANNELS: u32 = 2;
pub const ALSA_SAMPLE_RATE: u32 = 48_000;

/// Audio frames the platform aims to keep queued.
pub const LATENCY_TARGET_FRAMES: u32 = ALSA_SAMPLE_RATE / 10;

/// Entries in the audio history.
pub const AUDIO_WINDOW: usize = 32;

/// The services the platform offers the game code; none yet.
pub struct PlatformApi;

/// Whether a pool region is on screen or free to draw into.
#[derive(Debug, Clone, Copy, PartialEq, Eq, Structural)]
pub enum RegionState {
    Busy,
    Free,
}

/// The two regions of the pixel pool.
#[derive(Debug, Clone, Copy, PartialEq, Eq, Structural)]
pub enum RegionIndex {
    A,
    B,
}

/// Position of region `i` among the regions.
pub open spec fn region_slot(i: RegionIndex) -> nat {
    match i {
        RegionIndex::A => 0,
        RegionIndex::B => 1,
    }
}

impl RegionIndex {
    /// Position of the region among the regions.
    pub fn slot(self) -> (r: usize)
        ensures
            r == region_slot(self),
    {
        match self {
            RegionIndex::A => 0,
            RegionIndex::B => 1,
        }
    }
}

/// What the compositor is told about a buffer in the pool: where it
/// starts, its size and row stride, in the compositor's 32-bit integers.
#[derive(Debug, Clone, Copy, PartialEq, Eq, Structural)]
pub struct BufferParams {
    pub offset: i32,
    pub width: i32,
    pub height: i32,
    pub stride: i32,
    pub index: RegionIndex,
}

/// One region of the pixel pool, and the size of the buffer made on it.
#[derive(Debug, Clone, Copy)]
pub struct PoolRegion {
    pub offset: usize,
    pub state: RegionState,
    pub index: RegionIndex,
    pub current_buffer_width: usize,
    pub current_buffer_height: usize,
}

impl PoolRegion {
    /// The buffer of `width` by `height` pixels whose top-left pixel is
    /// (`x`, `y`) in the region; each value cut to 32 bits.
    pub open spec fn params_for(self, x: usize, y: usize, width: usize, height: usize) -> BufferParams {
        BufferParams {
            offset: (self.offset + y * POOL_STRIDE_BYTES + x * BYTES_PER_PIXEL) as i32,
            width: width as i32,
            height: height as i32,
            stride: POOL_STRIDE_BYTES as i32,
            index: self.index,
        }
    }

    /// The parameters of the buffer of `width` by `height` pixels at pixel
    /// (`x`, `y`) of the region.
    pub fn buffer_params(&self, x: usize, y: usize, width: usize, height: usize) -> (p: BufferParams)
        requires
            self.offset + y * POOL_STRIDE_BYTES + x * BYTES_PER_PIXEL <= usize::MAX,
        ensures
            p == self.params_for(x, y, width, height),
    {
        let offset: usize = self.offset + y * POOL_STRIDE_BYTES + x * BYTES_PER_PIXEL;
        BufferParams {
            offset: offset as i32,
            width: width as i32,
            height: height as i32,
            stride: POOL_STRIDE_BYTES as i32,
            index: self.index,
        }
    }

    /// Sizes the region's buffer to `width` by `height` pixels from the
    /// region's start: returns the parameters of the new buffer, and
    /// records its size as the compositor will see it.
    pub fn ensure_size(&mut self, width: usize, height: usize) -> (p: BufferParams)
        ensures
            p == old(self).params_for(0, 0, width, height),
            final(self).current_buffer_width == p.width as usize,
            final(self).current_buffer_height == p.height as usize,
            final(self).offset == old(self).offset,
            final(self).state == old(self).state,
            final(self).index == old(self).index,
    {
        let p: BufferParams = self.buffer_params(0, 0, width, height);
        self.current_buffer_width = p.width as usize;
        self.current_buffer_height = p.height as usize;
        p
    }
}

/// What arrived from the compositor for the platform loop to act on.
pub struct Inbox {
    pub configure_width: usize,
    pub configure_height: usize,
    pub configure_serial: Option<u32>,
    pub frame_done: bool,
    pub close: bool,
    pub reload_requested: bool,
}

/// The platform's state that events and the loop decide on.
pub struct PlatformState {
    pub inbox: Inbox,
    pub window_width_pixels: usize,
    pub window_height_pixels: usize,
    pub monitor_refresh_hz: i32,
    pub controller: GameInput,
    pub regions: [PoolRegion; 2],
    /// The machine stores numbers least significant byte first: learned
    /// once, at start-up, from how the key-code reader reads a probe, and
    /// used to read every held-keys array after.
    pub little_endian: bool,
}

/// An event from the compositor, in plain values.
pub enum PlatformEvent {
    /// The output's mode, its refresh rate in millihertz.
    OutputMode { refresh: i32 },
    /// The window manager checks that the client is alive.
    Ping { serial: u32 },
    /// The surface is configured and must be acknowledged.
    SurfaceConfigure { serial: u32 },
    /// The compositor is done with a region's buffer.
    BufferRelease { index: RegionIndex },
    /// The window's suggested size; 0 leaves a side to the client.
    ToplevelConfigure { width: i32, height: i32 },
    /// The window is asked to close.
    ToplevelClose,
    /// The compositor is ready for a new frame.
    FrameDone,
    /// A key went down or up.
    Key { key: u32, pressed: bool },
    /// The keyboard gained focus with these keys held, packed four bytes a
    /// key code in the machine's byte order.
    KeyboardEnter { keys: Vec<u8> },
    /// Anything the platform does not act on.
    Other,
}

/// What the platform must send back for an event.
#[derive(Debug, Clone, Copy, PartialEq, Eq, Structural)]
pub enum PlatformAction {
    Nothing,
    Pong { serial: u32 },
}

/// The refresh rate in hertz of `refresh` millihertz, rounded toward 0.
pub open spec fn refresh_hz(refresh: i32) -> int {
    if refresh >= 0 {
        refresh / 1000
    } else {
        -((-refresh) / 1000)
    }
}

/// A window side the compositor suggests, kept within what the pool holds.
pub open spec fn fit_side(suggested: i32, pool_side: usize) -> usize {
    if pool_side < suggested as usize {
        pool_side
    } else {
        suggested as usize
    }
}

impl PlatformState {
    /// The state at start-up: default window size, a frame due, nothing
    /// pressed, both regions free.
    pub fn new() -> (s: PlatformState)
        ensures
            s.window_width_pixels == DEFAULT_WINDOW_WIDTH,
            s.window_height_pixels == DEFAULT_WINDOW_HEIGHT,
            s.monitor_refresh_hz == 60,
            s.inbox.frame_done,
            !s.inbox.close,
            !s.inbox.reload_requested,
            s.inbox.configure_serial is None,
            s.regions@[0].state == RegionState::Free,
            s.regions@[1].state == RegionState::Free,
            s.regions@[0].index == RegionIndex::A,
            s.regions@[1].index == RegionIndex::B,
            s.regions@[0].offset == 0,
            s.regions@[1].offset == POOL_STRIDE_BYTES * POOL_HEIGHT_PIXELS / 2,
            forall|i: int|
                0 <= i < 2 ==> (#[trigger] s.regions@[i]).current_buffer_width
                    == DEFAULT_WINDOW_WIDTH && s.regions@[i].current_buffer_height
                    == DEFAULT_WINDOW_HEIGHT,
            s.inbox.configure_width == 0,
            s.inbox.configure_height == 0,
            forall|i: int|
                0 <= i < NUM_BUTTONS ==> (#[trigger] s.controller.buttons@[i]).half_transition_count
                    == 0 && !s.controller.buttons@[i].ended_down,
            forall|i: int|
                0 <= i < NUM_POINTER_BUTTONS ==> (
                #[trigger] s.controller.pointer.buttons@[i]).half_transition_count == 0
                    && !s.controller.pointer.buttons@[i].ended_down
                    && s.controller.pointer.buttons@[i].serial == 0
                    && s.controller.pointer.buttons@[i].button == 0,
    {
        proof {
            lemma_pool_dims();
        }
        let region_a: PoolRegion = PoolRegion {
            offset: 0,
            index: RegionIndex::A,
            state: RegionState::Free,
            current_buffer_width: DEFAULT_WINDOW_WIDTH,
            current_buffer_height: DEFAULT_WINDOW_HEIGHT,
        };
        let region_b: PoolRegion = PoolRegion {
            offset: POOL_STRIDE_BYTES * POOL_HEIGHT_PIXELS / 2,
            index: RegionIndex::B,
            state: RegionState::Free,
            current_buffer_width: DEFAULT_WINDOW_WIDTH,
            current_buffer_height: DEFAULT_WINDOW_HEIGHT,
        };
        let probe: [u8; 4] = [1, 0, 0, 0];
        let probe_codes: Vec<u32> = keys_from_bytes(&probe);
        proof {
            assert(probe@.len() == 4);
            assert(probe@.subrange(0, 4) =~= probe@);
        }
        let little_endian: bool = probe_codes[0] == 1;
        PlatformState {
            little_endian,
            inbox: Inbox {
                configure_width: 0,
                configure_height: 0,
                configure_serial: None,
                frame_done: true,
                close: false,
                reload_requested: false,
            },
            window_width_pixels: DEFAULT_WINDOW_WIDTH,
            window_height_pixels: DEFAULT_WINDOW_HEIGHT,
            monitor_refresh_hz: 60,
            controller: GameInput::default(),
            regions: [region_a, region_b],
        }
    }
}

/// The event can be applied: a key event that reaches the buttons finds
/// room in the counter it changes.
pub open spec fn event_fits(state: PlatformState, event: PlatformEvent) -> bool {
    match event {
        PlatformEvent::Key { key, pressed } => (key == HOT_RELOAD_KEYCODE && pressed)
            || key_event_fits(state.controller, key, pressed),
        _ => true,
    }
}

/// The buttons after the keyboard gains focus with the key codes `codes`
/// held.
pub open spec fn holds_keys(before: GameInput, after: GameInput, codes: Seq<u32>) -> bool {
    &&& after.pointer == before.pointer
    &&& forall|i: int|
        0 <= i < NUM_BUTTONS ==> #[trigger] after.buttons@[i] == held(
            before.buttons@[i],
            codes.contains(keyboard_mapping_seq()[i]),
        )
}

/// `after` is `before` with the inbox replaced by `inbox`.
pub open spec fn only_inbox(before: PlatformState, after: PlatformState, inbox: Inbox) -> bool {
    &&& after.inbox == inbox
    &&& after.window_width_pixels == before.window_width_pixels
    &&& after.window_height_pixels == before.window_height_pixels
    &&& after.monitor_refresh_hz == before.monitor_refresh_hz
    &&& after.controller == before.controller
    &&& after.regions == before.regions
    &&& after.little_endian == before.little_endian
}

/// `after` is `before` except, at most, for the controller.
pub open spec fn only_controller(before: PlatformState, after: PlatformState) -> bool {
    &&& after.inbox == before.inbox
    &&& after.window_width_pixels == before.window_width_pixels
    &&& after.window_height_pixels == before.window_height_pixels
    &&& after.monitor_refresh_hz == before.monitor_refresh_hz
    &&& after.regions == before.regions
    &&& after.little_endian == before.little_endian
}

/// The key codes packed in `bytes`, four bytes each, read least
/// significant byte first when `little`, else most significant first;
/// trailing bytes that make no full code are left.
pub open spec fn key_codes_in_order(bytes: Seq<u8>, little: bool) -> Seq<u32> {
    Seq::new(
        bytes.len() / 4,
        |i: int|
            if little {
                u32_from_le(bytes.subrange(4 * i, 4 * i + 4))
            } else {
                u32_from_be(bytes.subrange(4 * i, 4 * i + 4))
            },
    )
}

/// The state and reply after the platform handles `event`.
pub open spec fn event_applied(
    before: PlatformState,
    after: PlatformState,
    event: PlatformEvent,
    action: PlatformAction,
) -> bool {
    match event {
        PlatformEvent::OutputMode { refresh } => {
            &&& action == PlatformAction::Nothing
            &&& after.monitor_refresh_hz == refresh_hz(refresh)
            &&& after.inbox == before.inbox
            &&& after.window_width_pixels == before.window_width_pixels
            &&& after.window_height_pixels == before.window_height_pixels
            &&& after.controller == before.controller
            &&& after.regions == before.regions
            &&& after.little_endian == before.little_endian
        },
        PlatformEvent::Ping { serial } => {
            &&& action == PlatformAction::Pong { serial }
            &&& after == before
        },
        PlatformEvent::SurfaceConfigure { serial } => {
            &&& action == PlatformAction::Nothing
            &&& only_inbox(before, after, Inbox { configure_serial: Some(serial), ..before.inbox })
        },
        PlatformEvent::BufferRelease { index } => {
            let slot = region_slot(index) as int;
            &&& action == PlatformAction::Nothing
            &&& after.inbox == before.inbox
            &&& after.window_width_pixels == before.window_width_pixels
            &&& after.window_height_pixels == before.window_height_pixels
            &&& after.monitor_refresh_hz == before.monitor_refresh_hz
            &&& after.controller == before.controller
            &&& after.little_endian == before.little_endian
            &&& after.regions@[slot] == PoolRegion {
                state: RegionState::Free,
                ..before.regions@[slot]
            }
            &&& after.regions@[1 - slot] == before.regions@[1 - slot]
        },
        PlatformEvent::ToplevelConfigure { width, height } => {
            &&& action == PlatformAction::Nothing
            &&& after.window_width_pixels == if width != 0 {
                fit_side(width, POOL_WIDTH_PIXELS)
            } else {
                before.window_width_pixels
            }
            &&& after.window_height_pixels == if height != 0 {
                fit_side(height, POOL_HEIGHT_PIXELS / 2)
            } else {
                before.window_height_pixels
            }
            &&& after.inbox == before.inbox
            &&& after.monitor_refresh_hz == before.monitor_refresh_hz
            &&& after.controller == before.controller
            &&& after.regions == before.regions
            &&& after.little_endian == before.little_endian
        },
        PlatformEvent::ToplevelClose => {
            &&& action == PlatformAction::Nothing
            &&& only_inbox(before, after, Inbox { close: true, ..before.inbox })
        },
        PlatformEvent::FrameDone => {
            &&& action == PlatformAction::Nothing
            &&& only_inbox(before, after, Inbox { frame_done: true, ..before.inbox })
        },
        PlatformEvent::Key { key, pressed } => {
            &&& action == PlatformAction::Nothing
            &&& if key == HOT_RELOAD_KEYCODE && pressed {
                only_inbox(before, after, Inbox { reload_requested: true, ..before.inbox })
            } else {
                &&& only_controller(before, after)
                &&& key_event_applied(before.controller, after.controller, key, pressed)
            }
        },
        PlatformEvent::KeyboardEnter { keys } => {
            &&& action == PlatformAction::Nothing
            &&& only_controller(before, after)
            &&& exists|codes: Seq<u32>|
                decodes_key_codes(keys@, codes) && #[trigger] holds_keys(
                    before.controller,
                    after.controller,
                    codes,
                )
            &&& holds_keys(
                before.controller,
                after.controller,
                key_codes_in_order(keys@, before.little_endian),
            )
        },
        PlatformEvent::Other => {
            &&& action == PlatformAction::Nothing
            &&& after == before
        },
    }
}

/// The smaller of two window sides.
fn min_side(pool_side: usize, suggested: usize) -> (r: usize)
    ensures
        r == if pool_side < suggested {
            pool_side
        } else {
            suggested
        },
{
    if pool_side < suggested {
        pool_side
    } else {
        suggested
    }
}

/// Reading in either fixed byte order is a reading the key-code reader
/// may give.
pub proof fn lemma_codes_in_order_decode(bytes: Seq<u8>, little: bool)
    ensures
        decodes_key_codes(bytes, key_codes_in_order(bytes, little)),
{
}

/// The key code in the `j`-th group of four bytes of `bytes`, read least
/// significant byte first when `little`, else most significant first.
pub open spec fn code_at(bytes: Seq<u8>, j: int, little: bool) -> u32 {
    if little {
        u32_from_le(bytes.subrange(4 * j, 4 * j + 4))
    } else {
        u32_from_be(bytes.subrange(4 * j, 4 * j + 4))
    }
}

/// After the keyboard gains focus, button `i` is down exactly when some
/// whole group of four bytes of the held-keys array, read in the state's
/// byte order, is button `i`'s key code; the transition counts and the
/// pointer stay.
pub proof fn lemma_enter_sets_held_keys(before: GameInput, after: GameInput, keys: Seq<u8>, little: bool)
    requires
        holds_keys(before, after, key_codes_in_order(keys, little)),
    ensures
        after.pointer == before.pointer,
        forall|i: int|
            0 <= i < NUM_BUTTONS ==> (#[trigger] after.buttons@[i]).half_transition_count
                == before.buttons@[i].half_transition_count,
        forall|i: int|
            0 <= i < NUM_BUTTONS ==> ((#[trigger] after.buttons@[i]).ended_down <==> exists|j: int|
                0 <= j < keys.len() / 4 && #[trigger] code_at(keys, j, little)
                    == keyboard_mapping_seq()[i]),
{
    let codes = key_codes_in_order(keys, little);
    assert forall|i: int| 0 <= i < NUM_BUTTONS implies ((#[trigger] after.buttons@[i]).ended_down
        <==> exists|j: int|
        0 <= j < keys.len() / 4 && #[trigger] code_at(keys, j, little)
                    == keyboard_mapping_seq()[i]) by {
        assert(after.buttons@[i] == held(
            before.buttons@[i],
            codes.contains(keyboard_mapping_seq()[i]),
        ));
        if codes.contains(keyboard_mapping_seq()[i]) {
            let j = choose|j: int| 0 <= j < codes.len() && codes[j] == keyboard_mapping_seq()[i];
            assert(codes[j] == code_at(keys, j, little));
        }
        if exists|j: int|
            0 <= j < keys.len() / 4 && #[trigger] code_at(keys, j, little)
                    == keyboard_mapping_seq()[i] {
            let j = choose|j: int|
                0 <= j < keys.len() / 4 && #[trigger] code_at(keys, j, little)
                    == keyboard_mapping_seq()[i];
            assert(codes[j] == keyboard_mapping_seq()[i]);
        }
    }
}

/// The key codes packed in `keys`, four bytes each, read least significant
/// byte first when `little`, else most significant first.
pub fn decode_key_codes(keys: &[u8], little: bool) -> (codes: Vec<u32>)
    ensures
        codes@ == key_codes_in_order(keys@, little),
{
    let len: usize = keys.len();
    let n: usize = len / 4;
    let mut codes: Vec<u32> = Vec::new();
    let mut i: usize = 0;
    while i < n
        invariant
            len == keys@.len(),
            n == len / 4,
            i <= n,
            codes@ =~= key_codes_in_order(keys@, little).take(i as int),
        decreases n - i,
    {
        assert(4 * i + 4 <= len) by (nonlinear_arith)
            requires
                i < n,
                n == len / 4,
        ;
        let b0: u32 = keys[4 * i] as u32;
        let b1: u32 = keys[4 * i + 1] as u32;
        let b2: u32 = keys[4 * i + 2] as u32;
        let b3: u32 = keys[4 * i + 3] as u32;
        let code: u32 = if little {
            b0 + 0x100 * b1 + 0x1_0000 * b2 + 0x100_0000 * b3
        } else {
            b3 + 0x100 * b2 + 0x1_0000 * b1 + 0x100_0000 * b0
        };
        proof {
            let b = keys@.subrange(4 * i as int, 4 * i as int + 4);
            assert(b[0] == b0 && b[1] == b1 && b[2] == b2 && b[3] == b3);
            assert(code == key_codes_in_order(keys@, little)[i as int]);
        }
        codes.push(code);
        i = i + 1;
    }
    codes
}

impl PlatformState {
    /// Applies one compositor event: records what the loop must act on,
    /// updates the window size, the regions and the controller, and says
    /// what to send back.
    pub fn handle_event(&mut self, event: PlatformEvent) -> (action: PlatformAction)
        requires
            event_fits(*old(self), event),
        ensures
            event_applied(*old(self), *final(self), event, action),
    {
        match event {
            PlatformEvent::OutputMode { refresh } => {
                if let Some(hz) = refresh.checked_div(1000) {
                    self.monitor_refresh_hz = hz;
                }
                PlatformAction::Nothing
            },
            PlatformEvent::Ping { serial } => PlatformAction::Pong { serial },
            PlatformEvent::SurfaceConfigure { serial } => {
                self.inbox.configure_serial = Some(serial);
                PlatformAction::Nothing
            },
            PlatformEvent::BufferRelease { index } => {
                let slot: usize = index.slot();
                let mut region: PoolRegion = self.regions[slot];
                region.state = RegionState::Free;
                self.regions[slot] = region;
                PlatformAction::Nothing
            },
            PlatformEvent::ToplevelConfigure { width, height } => {
                if width != 0 {
                    self.window_width_pixels = min_side(POOL_WIDTH_PIXELS, width as usize);
                }
                if height != 0 {
                    self.window_height_pixels = min_side(POOL_HEIGHT_PIXELS / 2, height as usize);
                }
                PlatformAction::Nothing
            },
            PlatformEvent::ToplevelClose => {
                self.inbox.close = true;
                PlatformAction::Nothing
            },
            PlatformEvent::FrameDone => {
                self.inbox.frame_done = true;
                PlatformAction::Nothing
            },
            PlatformEvent::Key { key, pressed } => {
                if key == HOT_RELOAD_KEYCODE && pressed {
                    self.inbox.reload_requested = true;
                } else {
                    update_keyboard_input(&mut self.controller, key, pressed);
                }
                PlatformAction::Nothing
            },
            PlatformEvent::KeyboardEnter { keys } => {
                let codes: Vec<u32> = decode_key_codes(keys.as_slice(), self.little_endian);
                set_held_keys(&mut self.controller, codes.as_slice());
                assert(holds_keys(old(self).controller, self.controller, codes@));
                proof {
                    lemma_codes_in_order_decode(keys@, self.little_endian);
                }
                PlatformAction::Nothing
            },
            PlatformEvent::Other => PlatformAction::Nothing,
        }
    }
}

/// A frame the loop is about to draw: the buffer to make first, if the
/// region's buffer has the wrong size, and the bytes of the pool the frame
/// covers.
#[derive(Debug, Clone, Copy, PartialEq, Eq, Structural)]
pub struct FramePlan {
    pub resize: Option<BufferParams>,
    pub pixels_start: usize,
    pub pixels_end: usize,
    pub width_pixels: usize,
    pub height_pixels: usize,
}

impl PlatformState {
    /// The first region free to draw into.
    pub fn free_region(&self) -> (r: Option<usize>)
        ensures
            r matches Some(i) ==> i < 2 && self.regions@[i as int].state == RegionState::Free && (
            i == 1 ==> self.regions@[0].state != RegionState::Free),
            r is None ==> self.regions@[0].state != RegionState::Free && self.regions@[1].state
                != RegionState::Free,
    {
        if self.regions[0].state == RegionState::Free {
            Some(0)
        } else if self.regions[1].state == RegionState::Free {
            Some(1)
        } else {
            None
        }
    }

    /// Starts a frame in region `slot`: resizes its buffer to the window
    /// when the sizes differ, and marks the region busy.
    pub fn begin_frame(&mut self, slot: usize) -> (plan: FramePlan)
        requires
            slot < 2,
            old(self).regions@[slot as int].offset + old(self).window_height_pixels
                * POOL_STRIDE_BYTES <= usize::MAX,
        ensures
            ({
                let r = old(self).regions@[slot as int];
                let resize = r.current_buffer_width != old(self).window_width_pixels
                    || r.current_buffer_height != old(self).window_height_pixels;
                &&& plan.resize == if resize {
                    Some(r.params_for(0, 0, old(self).window_width_pixels, old(self).window_height_pixels))
                } else {
                    None::<BufferParams>
                }
                &&& final(self).regions@[slot as int].state == RegionState::Busy
                &&& final(self).regions@[slot as int].offset == r.offset
                &&& final(self).regions@[slot as int].index == r.index
                &&& final(self).regions@[slot as int].current_buffer_width == if resize {
                    old(self).window_width_pixels as i32 as usize
                } else {
                    r.current_buffer_width
                }
                &&& final(self).regions@[slot as int].current_buffer_height == if resize {
                    old(self).window_height_pixels as i32 as usize
                } else {
                    r.current_buffer_height
                }
                &&& final(self).regions@[1 - slot] == old(self).regions@[1 - slot]
                &&& plan.pixels_start == r.offset
                &&& plan.pixels_end == r.offset + old(self).window_height_pixels * POOL_STRIDE_BYTES
                &&& plan.width_pixels == old(self).window_width_pixels
                &&& plan.height_pixels == old(self).window_height_pixels
            }),
            final(self).inbox == old(self).inbox,
            final(self).window_width_pixels == old(self).window_width_pixels,
            final(self).window_height_pixels == old(self).window_height_pixels,
            final(self).monitor_refresh_hz == old(self).monitor_refresh_hz,
            final(self).controller == old(self).controller,
            final(self).little_endian == old(self).little_endian,
    {
        let mut region: PoolRegion = self.regions[slot];
        let width: usize = self.window_width_pixels;
        let height: usize = self.window_height_pixels;
        let mut resize: Option<BufferParams> = None;
        if region.current_buffer_width != width || region.current_buffer_height != height {
            resize = Some(region.ensure_size(width, height));
        }
        region.state = RegionState::Busy;
        self.regions[slot] = region;
        FramePlan {
            resize,
            pixels_start: region.offset,
            pixels_end: region.offset + height * POOL_STRIDE_BYTES,
            width_pixels: width,
            height_pixels: height,
        }
    }

    /// Ends a frame: the transitions counted for it are forgotten and the
    /// next frame waits for the compositor.
    pub fn end_frame(&mut self)
        ensures
            final(self).inbox == (Inbox { frame_done: false, ..old(self).inbox }),
            final(self).regions == old(self).regions,
            final(self).window_width_pixels == old(self).window_width_pixels,
            final(self).window_height_pixels == old(self).window_height_pixels,
            final(self).monitor_refresh_hz == old(self).monitor_refresh_hz,
            final(self).little_endian == old(self).little_endian,
            forall|i: int|
                0 <= i < NUM_BUTTONS ==> #[trigger] final(self).controller.buttons@[i] == old(
                    self,
                ).controller.buttons@[i].cleared(),
            forall|i: int|
                0 <= i < NUM_POINTER_BUTTONS ==> #[trigger] final(self).controller.pointer.buttons@[i]
                    == old(self).controller.pointer.buttons@[i].cleared(),
    {
        self.controller.clear_half_transition_count();
        self.inbox.frame_done = false;
    }

    /// The configure serial waiting to be acknowledged, if any; it is
    /// acknowledged once.
    pub fn take_configure_serial(&mut self) -> (serial: Option<u32>)
        ensures
            serial == old(self).inbox.configure_serial,
            final(self).inbox == (Inbox { configure_serial: None, ..old(self).inbox }),
            final(self).little_endian == old(self).little_endian,
            final(self).regions == old(self).regions,
            final(self).controller == old(self).controller,
            final(self).window_width_pixels == old(self).window_width_pixels,
            final(self).window_height_pixels == old(self).window_height_pixels,
            final(self).monitor_refresh_hz == old(self).monitor_refresh_hz,
    {
        let serial: Option<u32> = self.inbox.configure_serial;
        self.inbox.configure_serial = None;
        serial
    }
}

/// Frames queued in the audio device: its capacity less what it has room
/// for.
pub open spec fn queued_frames(capacity: int, available: int) -> int {
    capacity - available
}

/// Frames to write now: enough to bring the queue up to the latency
/// target, no more than there is room for, and none when the queue is
/// already past the target.
pub open spec fn desired_frames(capacity: int, available: int) -> int {
    let want = LATENCY_TARGET_FRAMES - queued_frames(capacity, available);
    let bounded = if want < available {
        want
    } else {
        available
    };
    if bounded < 0 {
        0
    } else {
        bounded
    }
}

/// The frames to write bring the queue exactly up to the latency target
/// when the device has room for that, fill all the room when it has less,
/// and are none when the queue is already at or past the target.
pub proof fn lemma_desired_frames(capacity: int, available: int)
    ensures
        0 <= desired_frames(capacity, available),
        available >= 0 ==> desired_frames(capacity, available) <= available,
        LATENCY_TARGET_FRAMES - queued_frames(capacity, available) <= 0 ==> desired_frames(
            capacity,
            available,
        ) == 0,
        available < 0 ==> desired_frames(capacity, available) == 0,
        0 <= LATENCY_TARGET_FRAMES - queued_frames(capacity, available) <= available ==> queued_frames(
            capacity,
            available,
        ) + desired_frames(capacity, available) == LATENCY_TARGET_FRAMES,
        0 <= available < LATENCY_TARGET_FRAMES - queued_frames(capacity, available)
            ==> desired_frames(capacity, available) == available,
{
}

/// How many frames the audio device holds and how many to write, from its
/// capacity and the room it reports.
pub fn audio_frames(alsa_capacity_frames: i64, available_frames: i64) -> (r: (i64, usize))
    requires
        i64::MIN <= alsa_capacity_frames - available_frames <= i64::MAX,
        i64::MIN <= LATENCY_TARGET_FRAMES - (alsa_capacity_frames - available_frames) <= i64::MAX,
    ensures
        r.0 == queued_frames(alsa_capacity_frames as int, available_frames as int),
        r.1 == desired_frames(alsa_capacity_frames as int, available_frames as int) as usize,
        r.0 == alsa_capacity_frames - available_frames,
        LATENCY_TARGET_FRAMES - r.0 <= 0 ==> r.1 == 0,
        available_frames < 0 ==> r.1 == 0,
        0 <= LATENCY_TARGET_FRAMES - r.0 <= available_frames ==> r.1 == (LATENCY_TARGET_FRAMES
            - r.0) as usize,
        0 <= available_frames < LATENCY_TARGET_FRAMES - r.0 ==> r.1 == available_frames as usize,
{
    proof {
        lemma_pool_dims();
        lemma_desired_frames(alsa_capacity_frames as int, available_frames as int);
    }
    let queued: i64 = alsa_capacity_frames - available_frames;
    let want: i64 = LATENCY_TARGET_FRAMES as i64 - queued;
    let bounded: i64 = if want < available_frames {
        want
    } else {
        available_frames
    };
    let desired: i64 = if bounded < 0 {
        0
    } else {
        bounded
    };
    (queued, desired as usize)
}

/// The last `AUDIO_WINDOW` audio writes: frames written and frames queued,
/// and the entry the next write goes to.
pub struct AudioHistory {
    pub written_window: [usize; AUDIO_WINDOW],
    pub queued_window: [usize; AUDIO_WINDOW],
    pub idx: usize,
}

impl AudioHistory {
    /// The history points at one of its entries.
    pub open spec fn wf(&self) -> bool {
        self.idx < AUDIO_WINDOW
    }

    /// An empty history.
    pub fn new() -> (h: AudioHistory)
        ensures
            h.wf(),
            h.idx == 0,
            forall|i: int| 0 <= i < AUDIO_WINDOW ==> #[trigger] h.written_window@[i] == 0,
            forall|i: int| 0 <= i < AUDIO_WINDOW ==> #[trigger] h.queued_window@[i] == 0,
    {
        AudioHistory {
            written_window: [0usize; AUDIO_WINDOW],
            queued_window: [0usize; AUDIO_WINDOW],
            idx: 0,
        }
    }

    /// Records one write at the current entry, the queue length cut to
    /// `usize`, and moves to the next entry, wrapping after the last.
    pub fn record(&mut self, desired_frames: usize, queued_frames: i64)
        requires
            old(self).wf(),
        ensures
            final(self).wf(),
            final(self).written_window@ == old(self).written_window@.update(
                old(self).idx as int,
                desired_frames,
            ),
            final(self).queued_window@ == old(self).queued_window@.update(
                old(self).idx as int,
                queued_frames as usize,
            ),
            final(self).idx == (old(self).idx + 1) % (AUDIO_WINDOW as int),
    {
        self.written_window[self.idx] = desired_frames;
        self.queued_window[self.idx] = queued_frames as usize;
        self.idx = self.idx + 1;
        if self.idx == AUDIO_WINDOW {
            self.idx = 0;
        }
    }
}

/// How long, in nanoseconds, the game library must stay unmodified before
/// it is reloaded.
pub const RELOAD_QUIET_NANOS: u128 = 10_000_000;

/// The hot-reload decisions: whether the game library changed since it was
/// last loaded, and which generation of it is loaded.
pub struct ReloadState {
    pub need_reload: bool,
    pub generation_id: u64,
}

impl ReloadState {
    /// Nothing to reload; generation 0 is loaded.
    pub fn new() -> (r: ReloadState)
        ensures
            !r.need_reload,
            r.generation_id == 0,
    {
        ReloadState { need_reload: false, generation_id: 0 }
    }

    /// Notes whether the library's modification time moved: a move asks for
    /// a reload.
    pub fn note_mtime(&mut self, changed: bool)
        ensures
            final(self).need_reload == (old(self).need_reload || changed),
            final(self).generation_id == old(self).generation_id,
    {
        if changed {
            self.need_reload = true;
        }
    }

    /// When a reload is asked for and the library has been unmodified for
    /// longer than `RELOAD_QUIET_NANOS` (`quiet_nanos`), starts the next
    /// generation and returns it; otherwise nothing changes.
    pub fn take_reload(&mut self, quiet_nanos: u128) -> (generation: Option<u64>)
        requires
            old(self).need_reload && quiet_nanos > RELOAD_QUIET_NANOS ==> old(self).generation_id
                < u64::MAX,
        ensures
            old(self).need_reload && quiet_nanos > RELOAD_QUIET_NANOS ==> {
                &&& generation == Some((old(self).generation_id + 1) as u64)
                &&& !final(self).need_reload
                &&& final(self).generation_id == old(self).generation_id + 1
            },
            !(old(self).need_reload && quiet_nanos > RELOAD_QUIET_NANOS) ==> {
                &&& generation is None
                &&& final(self).need_reload == old(self).need_reload
                &&& final(self).generation_id == old(self).generation_id
            },
    {
        if self.need_reload && quiet_nanos > RELOAD_QUIET_NANOS {
            self.need_reload = false;
            self.generation_id = self.generation_id + 1;
            Some(self.generation_id)
        } else {
            None
        }
    }
}

/// The generation of the game library to delete after loading
/// `generation_id`: the previous one, once a load found every entry point
/// and there is a previous one.
pub fn generation_to_delete(complete_load: bool, generation_id: u64) -> (r: Option<u64>)
    ensures
        r == if complete_load && generation_id > 0 {
            Some((generation_id - 1) as u64)
        } else {
            None::<u64>
        },
{
    if complete_load && generation_id > 0 {
        Some(generation_id - 1)
    } else {
        None
    }
}

/// What one read of a file returned.
#[derive(Debug, Clone, Copy, PartialEq, Eq, Structural)]
pub enum ReadOutcome {
    /// This many bytes arrived.
    Read(usize),
    /// The read was interrupted before any byte arrived.
    Interrupted,
    /// The read failed.
    Failed,
}

/// What to do after one read of a file of known size.
#[derive(Debug, Clone, Copy, PartialEq, Eq, Structural)]
pub enum ReadDecision {
    /// Read again; this many bytes are in.
    ReadMore { bytes_read: usize },
    /// The whole file is in.
    Finished { bytes_read: usize },
    /// The file ended before its size was reached.
    UnexpectedEof,
    /// Give up with the read's error.
    Fail,
}

/// The step of reading a whole file: an interrupted read is retried, a
/// read of no bytes means the file ended early, a failure ends the read,
/// and bytes that arrive count toward `size`, which ends the read once
/// reached.
pub fn read_step(bytes_read: usize, size: usize, got: ReadOutcome) -> (r: ReadDecision)
    requires
        bytes_read < size,
        got matches ReadOutcome::Read(b) ==> bytes_read + b <= usize::MAX,
    ensures
        r == match got {
            ReadOutcome::Read(b) => if b == 0 {
                ReadDecision::UnexpectedEof
            } else if bytes_read + b < size {
                ReadDecision::ReadMore { bytes_read: (bytes_read + b) as usize }
            } else {
                ReadDecision::Finished { bytes_read: (bytes_read + b) as usize }
            },
            ReadOutcome::Interrupted => ReadDecision::ReadMore { bytes_read },
            ReadOutcome::Failed => ReadDecision::Fail,
        },
{
    match got {
        ReadOutcome::Read(b) => {
            if b == 0 {
                ReadDecision::UnexpectedEof
            } else {
                let total: usize = bytes_read + b;
                if total < size {
                    ReadDecision::ReadMore { bytes_read: total }
                } else {
                    ReadDecision::Finished { bytes_read: total }
                }
            }
        },
        ReadOutcome::Interrupted => ReadDecision::ReadMore { bytes_read },
        ReadOutcome::Failed => ReadDecision::Fail,
    }
}

/// The pool sizes above, worked out.
pub proof fn lemma_pool_dims()
    ensures
        POOL_STRIDE_BYTES == 15360,
        POOL_STRIDE_PIXELS == 3840,
        LATENCY_TARGET_FRAMES == 4800,
        POOL_HEIGHT_PIXELS == 4320,
{
    assert(POOL_WIDTH_PIXELS * BYTES_PER_PIXEL == 15360) by (nonlinear_arith);
    assert(15360usize / 4 == 3840) by (nonlinear_arith);
    assert(ALSA_SAMPLE_RATE / 10 == 4800) by (nonlinear_arith);
}

} // verus!
