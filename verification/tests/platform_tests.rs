use tilegame::input::{GameInput, W_KEY_CODE};
use tilegame::platform::{
    generation_to_delete, read_step, ReadDecision, ReadOutcome, ReloadState, RELOAD_QUIET_NANOS,
};
use tilegame::platform::{
    audio_frames, AudioHistory, PlatformAction, PlatformEvent, PlatformState, PoolRegion,
    RegionIndex, RegionState, AUDIO_WINDOW, HOT_RELOAD_KEYCODE, POOL_STRIDE_BYTES,
};

fn region(offset: usize) -> PoolRegion {
    PoolRegion {
        offset,
        state: RegionState::Free,
        index: RegionIndex::B,
        current_buffer_width: 10,
        current_buffer_height: 10,
    }
}

#[test]
fn buffer_params_locate_the_pixel() {
    let r = region(1000);
    let p = r.buffer_params(2, 1, 100, 50);
    assert_eq!(p.offset, 1000 + 15360 + 8);
    assert_eq!(p.width, 100);
    assert_eq!(p.height, 50);
    assert_eq!(p.stride, POOL_STRIDE_BYTES as i32);
    assert_eq!(p.index, RegionIndex::B);
}

#[test]
fn buffer_params_cut_to_32_bits() {
    let r = region(0);
    let p = r.buffer_params(0, 0, 1usize << 32 | 7, 3);
    assert_eq!(p.width, 7);
}

#[test]
fn ensure_size_records_new_size() {
    let mut r = region(64);
    let p = r.ensure_size(1920, 1080);
    assert_eq!(p.offset, 64);
    assert_eq!(p.width, 1920);
    assert_eq!(r.current_buffer_width, 1920);
    assert_eq!(r.current_buffer_height, 1080);
    assert_eq!(r.state, RegionState::Free);
}

#[test]
fn start_up_state() {
    let s = PlatformState::new();
    assert_eq!(s.window_width_pixels, 1920);
    assert_eq!(s.window_height_pixels, 1080);
    assert!(s.inbox.frame_done);
    assert_eq!(s.regions[1].offset, 15360 * 2160);
    assert_eq!(s.free_region(), Some(0));
}

#[test]
fn events_update_the_state() {
    let mut s = PlatformState::new();
    assert_eq!(s.handle_event(PlatformEvent::OutputMode { refresh: 59_950 }), PlatformAction::Nothing);
    assert_eq!(s.monitor_refresh_hz, 59);
    s.handle_event(PlatformEvent::OutputMode { refresh: -1_500 });
    assert_eq!(s.monitor_refresh_hz, -1);
    assert_eq!(s.handle_event(PlatformEvent::Ping { serial: 42 }), PlatformAction::Pong { serial: 42 });
    s.handle_event(PlatformEvent::SurfaceConfigure { serial: 7 });
    assert_eq!(s.inbox.configure_serial, Some(7));
    s.handle_event(PlatformEvent::ToplevelConfigure { width: 5000, height: 600 });
    assert_eq!(s.window_width_pixels, 3840);
    assert_eq!(s.window_height_pixels, 600);
    s.handle_event(PlatformEvent::ToplevelConfigure { width: 0, height: -1 });
    assert_eq!(s.window_width_pixels, 3840);
    assert_eq!(s.window_height_pixels, 2160);
    s.handle_event(PlatformEvent::Key { key: W_KEY_CODE, pressed: true });
    assert!(s.controller.buttons[0].ended_down);
    s.handle_event(PlatformEvent::Key { key: HOT_RELOAD_KEYCODE, pressed: true });
    assert!(s.inbox.reload_requested);
    let mut keys = Vec::new();
    keys.extend_from_slice(&30u32.to_ne_bytes());
    s.handle_event(PlatformEvent::KeyboardEnter { keys });
    assert!(!s.controller.buttons[0].ended_down);
    assert!(s.controller.buttons[2].ended_down);
    s.handle_event(PlatformEvent::ToplevelClose);
    assert!(s.inbox.close);
    s.handle_event(PlatformEvent::Other);
    assert!(s.inbox.close);
}

#[test]
fn frames_use_free_regions() {
    let mut s = PlatformState::new();
    s.handle_event(PlatformEvent::ToplevelConfigure { width: 800, height: 600 });
    let plan = s.begin_frame(0);
    let resize = plan.resize.unwrap();
    assert_eq!((resize.width, resize.height, resize.offset), (800, 600, 0));
    assert_eq!(plan.pixels_start, 0);
    assert_eq!(plan.pixels_end, 600 * 15360);
    assert_eq!(s.regions[0].state, RegionState::Busy);
    assert_eq!(s.free_region(), Some(1));
    s.end_frame();
    assert!(!s.inbox.frame_done);
    let plan = s.begin_frame(1);
    assert_eq!(plan.pixels_start, 15360 * 2160);
    assert_eq!(s.free_region(), None);
    s.handle_event(PlatformEvent::BufferRelease { index: RegionIndex::A });
    assert_eq!(s.free_region(), Some(0));
    let again = s.begin_frame(0);
    assert!(again.resize.is_none());
    s.handle_event(PlatformEvent::FrameDone);
    assert!(s.inbox.frame_done);
}

#[test]
fn configure_serial_is_taken_once() {
    let mut s = PlatformState::new();
    s.handle_event(PlatformEvent::SurfaceConfigure { serial: 3 });
    assert_eq!(s.take_configure_serial(), Some(3));
    assert_eq!(s.take_configure_serial(), None);
}

#[test]
fn end_frame_forgets_transitions() {
    let mut s = PlatformState::new();
    s.handle_event(PlatformEvent::Key { key: W_KEY_CODE, pressed: true });
    s.end_frame();
    assert_eq!(s.controller.buttons[0].half_transition_count, 0);
    assert!(s.controller.buttons[0].ended_down);
    let fresh = GameInput::default();
    assert_eq!(fresh.buttons[1].half_transition_count, 0);
}

#[test]
fn audio_frames_fill_to_the_target() {
    assert_eq!(audio_frames(9600, 9000), (600, 4200));
    assert_eq!(audio_frames(9600, 100), (9500, 0));
    assert_eq!(audio_frames(2000, 1000), (1000, 1000));
    assert_eq!(audio_frames(4800, 0), (4800, 0));
}

#[test]
fn audio_history_wraps() {
    let mut h = AudioHistory::new();
    for i in 0..AUDIO_WINDOW {
        h.record(i, (i as i64) * 2);
    }
    assert_eq!(h.idx, 0);
    assert_eq!(h.written_window[5], 5);
    assert_eq!(h.queued_window[5], 10);
    h.record(99, -1);
    assert_eq!(h.idx, 1);
    assert_eq!(h.written_window[0], 99);
    assert_eq!(h.queued_window[0], usize::MAX);
}

#[test]
fn frame_bookkeeping_keeps_other_state() {
    let mut s = PlatformState::new();
    s.handle_event(PlatformEvent::OutputMode { refresh: 144_000 });
    s.handle_event(PlatformEvent::SurfaceConfigure { serial: 9 });
    s.end_frame();
    assert_eq!(s.monitor_refresh_hz, 144);
    assert_eq!(s.inbox.configure_serial, Some(9));
    assert_eq!((s.inbox.configure_width, s.inbox.configure_height), (0, 0));
    assert_eq!(s.take_configure_serial(), Some(9));
    assert_eq!(s.monitor_refresh_hz, 144);
    assert_eq!((s.window_width_pixels, s.window_height_pixels), (1920, 1080));
    assert!(!s.inbox.frame_done);
}

#[test]
fn reload_waits_for_a_quiet_library() {
    let mut r = ReloadState::new();
    assert_eq!(r.take_reload(u128::MAX), None);
    r.note_mtime(true);
    r.note_mtime(false);
    assert!(r.need_reload);
    assert_eq!(r.take_reload(RELOAD_QUIET_NANOS), None);
    assert_eq!(r.take_reload(RELOAD_QUIET_NANOS + 1), Some(1));
    assert!(!r.need_reload);
    assert_eq!(r.take_reload(RELOAD_QUIET_NANOS + 1), None);
    assert_eq!(generation_to_delete(true, 1), Some(0));
    assert_eq!(generation_to_delete(true, 0), None);
    assert_eq!(generation_to_delete(false, 5), None);
}

#[test]
fn file_read_steps() {
    assert_eq!(read_step(0, 10, ReadOutcome::Read(4)), ReadDecision::ReadMore { bytes_read: 4 });
    assert_eq!(read_step(4, 10, ReadOutcome::Read(6)), ReadDecision::Finished { bytes_read: 10 });
    assert_eq!(read_step(4, 10, ReadOutcome::Read(0)), ReadDecision::UnexpectedEof);
    assert_eq!(read_step(4, 10, ReadOutcome::Interrupted), ReadDecision::ReadMore { bytes_read: 4 });
    assert_eq!(read_step(4, 10, ReadOutcome::Failed), ReadDecision::Fail);
}

#[test]
fn start_up_pointer_is_blank() {
    let s = PlatformState::new();
    for b in s.controller.pointer.buttons {
        assert_eq!((b.serial, b.button, b.half_transition_count, b.ended_down), (0, 0, 0, false));
    }
}
