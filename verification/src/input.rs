use vstd::prelude::*;
use crate::byte_order::{u32_from_le, u32_from_be};

verus! {

/// Number of game buttons.
pub const NUM_BUTTONS: usize = 12;

/// Number of pointer buttons.
pub const NUM_POINTER_BUTTONS: usize = 2;

/// The game buttons, in the order that arrays of buttons use.
#[derive(Debug, Clone, Copy, PartialEq, Eq, Structural)]
pub enum GameButtonId {
    Up,
    Down,
    Left,
    Right,
    LeftShoulder,
    RightShoulder,
    // Actions
    ActionUp,
    ActionDown,
    ActionLeft,
    ActionRight,
    // Menu
    Back,
    Start,
}

/// Position of the button `b` in arrays of buttons.
pub open spec fn button_slot(b: GameButtonId) -> nat {
    match b {
        GameButtonId::Up => 0,
        GameButtonId::Down => 1,
        GameButtonId::Left => 2,
        GameButtonId::Right => 3,
        GameButtonId::LeftShoulder => 4,
        GameButtonId::RightShoulder => 5,
        GameButtonId::ActionUp => 6,
        GameButtonId::ActionDown => 7,
        GameButtonId::ActionLeft => 8,
        GameButtonId::ActionRight => 9,
        GameButtonId::Back => 10,
        GameButtonId::Start => 11,
    }
}

impl From<GameButtonId> for usize {
    fn from(b_idx: GameButtonId) -> (r: usize) {
        match b_idx {
            GameButtonId::Up => 0,
            GameButtonId::Down => 1,
            GameButtonId::Left => 2,
            GameButtonId::Right => 3,
            GameButtonId::LeftShoulder => 4,
            GameButtonId::RightShoulder => 5,
            GameButtonId::ActionUp => 6,
            GameButtonId::ActionDown => 7,
            GameButtonId::ActionLeft => 8,
            GameButtonId::ActionRight => 9,
            GameButtonId::Back => 10,
            GameButtonId::Start => 11,
        }
    }
}

impl vstd::std_specs::convert::FromSpecImpl<GameButtonId> for usize {
    open spec fn obeys_from_spec() -> bool {
        true
    }

    open spec fn from_spec(v: GameButtonId) -> usize {
        button_slot(v) as usize
    }
}

impl From<GameButtonId> for u32 {
    fn from(b_idx: GameButtonId) -> (r: u32) {
        match b_idx {
            GameButtonId::Up => 0,
            GameButtonId::Down => 1,
            GameButtonId::Left => 2,
            GameButtonId::Right => 3,
            GameButtonId::LeftShoulder => 4,
            GameButtonId::RightShoulder => 5,
            GameButtonId::ActionUp => 6,
            GameButtonId::ActionDown => 7,
            GameButtonId::ActionLeft => 8,
            GameButtonId::ActionRight => 9,
            GameButtonId::Back => 10,
            GameButtonId::Start => 11,
        }
    }
}

impl vstd::std_specs::convert::FromSpecImpl<GameButtonId> for u32 {
    open spec fn obeys_from_spec() -> bool {
        true
    }

    open spec fn from_spec(v: GameButtonId) -> u32 {
        button_slot(v) as u32
    }
}

/// State of one game button over a frame: how often it changed between up
/// and down, and whether it ended the frame down.
#[derive(Debug, Clone, Copy)]
pub struct GameButtonState {
    pub half_transition_count: usize,
    pub ended_down: bool,
}

impl GameButtonState {
    /// The same state with no transitions counted.
    pub open spec fn cleared(self) -> GameButtonState {
        GameButtonState { half_transition_count: 0, ended_down: self.ended_down }
    }
}

impl Default for GameButtonState {
    fn default() -> (r: Self)
        ensures
            r.half_transition_count == 0,
            !r.ended_down,
    {
        GameButtonState { half_transition_count: 0, ended_down: false }
    }
}

/// State of one pointer button over a frame.
#[derive(Debug, Clone, Copy)]
pub struct PointerButtonState {
    pub serial: u32,
    pub button: u32,
    pub ended_down: bool,
    pub half_transition_count: usize,
}

impl PointerButtonState {
    /// The same state with no transitions counted.
    pub open spec fn cleared(self) -> PointerButtonState {
        PointerButtonState { half_transition_count: 0, ..self }
    }
}

impl Default for PointerButtonState {
    fn default() -> (r: Self)
        ensures
            r.half_transition_count == 0,
            !r.ended_down,
            r.serial == 0,
            r.button == 0,
    {
        PointerButtonState { serial: 0, button: 0, ended_down: false, half_transition_count: 0 }
    }
}

/// The pointer's buttons.
#[derive(Debug, Clone, Copy)]
pub struct Pointer {
    pub buttons: [PointerButtonState; NUM_POINTER_BUTTONS],
}

impl Default for Pointer {
    fn default() -> (r: Self)
        ensures
            forall|i: int|
                0 <= i < NUM_POINTER_BUTTONS ==> (#[trigger] r.buttons@[i]).half_transition_count
                    == 0 && !r.buttons@[i].ended_down && r.buttons@[i].serial == 0
                    && r.buttons@[i].button == 0,
    {
        let b: PointerButtonState = PointerButtonState::default();
        Pointer { buttons: [b, b] }
    }
}

/// The input the game reads each frame.
#[derive(Debug, Clone, Copy)]
pub struct GameInput {
    pub buttons: [GameButtonState; NUM_BUTTONS],
    pub pointer: Pointer,
}

impl Default for GameInput {
    fn default() -> (r: Self)
        ensures
            forall|i: int|
                0 <= i < NUM_BUTTONS ==> (#[trigger] r.buttons@[i]).half_transition_count == 0
                    && !r.buttons@[i].ended_down,
            forall|i: int|
                0 <= i < NUM_POINTER_BUTTONS ==> (#[trigger] r.pointer.buttons@[i]).half_transition_count
                    == 0 && !r.pointer.buttons@[i].ended_down && r.pointer.buttons@[i].serial == 0
                    && r.pointer.buttons@[i].button == 0,
    {
        let b: GameButtonState = GameButtonState::default();
        GameInput { buttons: [b, b, b, b, b, b, b, b, b, b, b, b], pointer: Pointer::default() }
    }
}

impl GameInput {
    /// The state of button `b`.
    pub open spec fn button(self, b: GameButtonId) -> GameButtonState {
        self.buttons@[button_slot(b) as int]
    }

    /// Forgets the transitions counted on every button and pointer button;
    /// whether each is down stays.
    pub fn clear_half_transition_count(&mut self)
        ensures
            forall|i: int|
                0 <= i < NUM_BUTTONS ==> #[trigger] final(self).buttons@[i] == old(
                    self,
                ).buttons@[i].cleared(),
            forall|i: int|
                0 <= i < NUM_POINTER_BUTTONS ==> #[trigger] final(self).pointer.buttons@[i] == old(
                    self,
                ).pointer.buttons@[i].cleared(),
    {
        let mut i: usize = 0;
        while i < NUM_BUTTONS
            invariant
                i <= NUM_BUTTONS,
                self.pointer == old(self).pointer,
                forall|j: int|
                    0 <= j < i ==> #[trigger] self.buttons@[j] == old(self).buttons@[j].cleared(),
                forall|j: int| i <= j < NUM_BUTTONS ==> #[trigger] self.buttons@[j] == old(
                    self,
                ).buttons@[j],
            decreases NUM_BUTTONS - i,
        {
            let mut key: GameButtonState = self.buttons[i];
            key.half_transition_count = 0;
            self.buttons[i] = key;
            i = i + 1;
        }
        let mut i: usize = 0;
        while i < NUM_POINTER_BUTTONS
            invariant
                i <= NUM_POINTER_BUTTONS,
                forall|j: int|
                    0 <= j < NUM_BUTTONS ==> #[trigger] self.buttons@[j] == old(
                        self,
                    ).buttons@[j].cleared(),
                forall|j: int|
                    0 <= j < i ==> #[trigger] self.pointer.buttons@[j] == old(
                        self,
                    ).pointer.buttons@[j].cleared(),
                forall|j: int|
                    i <= j < NUM_POINTER_BUTTONS ==> #[trigger] self.pointer.buttons@[j] == old(
                        self,
                    ).pointer.buttons@[j],
            decreases NUM_POINTER_BUTTONS - i,
        {
            let mut button: PointerButtonState = self.pointer.buttons[i];
            button.half_transition_count = 0;
            self.pointer.buttons[i] = button;
            i = i + 1;
        }
    }

    /// The direction the player is pushed in along each axis: -1, 0 or 1.
    /// Down wins over up, and right over left.
    pub fn movement_direction(&self) -> (r: (i64, i64))
        ensures
            r.0 == if self.button(GameButtonId::Right).ended_down {
                1
            } else if self.button(GameButtonId::Left).ended_down {
                -1
            } else {
                0
            },
            r.1 == if self.button(GameButtonId::Down).ended_down {
                1
            } else if self.button(GameButtonId::Up).ended_down {
                -1
            } else {
                0
            },
    {
        let mut dx: i64 = 0;
        let mut dy: i64 = 0;
        if self.buttons[usize::from(GameButtonId::Up)].ended_down {
            dy = -1;
        }
        if self.buttons[usize::from(GameButtonId::Down)].ended_down {
            dy = 1;
        }
        if self.buttons[usize::from(GameButtonId::Left)].ended_down {
            dx = -1;
        }
        if self.buttons[usize::from(GameButtonId::Right)].ended_down {
            dx = 1;
        }
        (dx, dy)
    }
}

pub const W_KEY_CODE: u32 = 17;
pub const A_KEY_CODE: u32 = 30;
pub const S_KEY_CODE: u32 = 31;
pub const D_KEY_CODE: u32 = 32;
pub const Q_KEY_CODE: u32 = 16;
pub const E_KEY_CODE: u32 = 18;
pub const I_KEY_CODE: u32 = 23;
pub const J_KEY_CODE: u32 = 36;
pub const K_KEY_CODE: u32 = 37;
pub const L_KEY_CODE: u32 = 38;
pub const SPACE_KEY_CODE: u32 = 57;
pub const ESC_KEY_CODE: u32 = 1;

/// The key code of each game button, by the button's position.
pub open spec fn keyboard_mapping_seq() -> Seq<u32> {
    seq![
        W_KEY_CODE,
        S_KEY_CODE,
        A_KEY_CODE,
        D_KEY_CODE,
        Q_KEY_CODE,
        E_KEY_CODE,
        I_KEY_CODE,
        K_KEY_CODE,
        J_KEY_CODE,
        L_KEY_CODE,
        SPACE_KEY_CODE,
        ESC_KEY_CODE,
    ]
}

/// The key code of each game button, by the button's position.
pub fn keyboard_mapping() -> (m: [u32; NUM_BUTTONS])
    ensures
        m@ == keyboard_mapping_seq(),
{
    let m: [u32; NUM_BUTTONS] = [
        W_KEY_CODE,
        S_KEY_CODE,
        A_KEY_CODE,
        D_KEY_CODE,
        Q_KEY_CODE,
        E_KEY_CODE,
        I_KEY_CODE,
        K_KEY_CODE,
        J_KEY_CODE,
        L_KEY_CODE,
        SPACE_KEY_CODE,
        ESC_KEY_CODE,
    ];
    assert(m@ =~= keyboard_mapping_seq());
    m
}

/// No two buttons share a key code.
pub proof fn lemma_mapping_distinct()
    ensures
        keyboard_mapping_seq().len() == NUM_BUTTONS,
        forall|i: int, j: int|
            0 <= i < NUM_BUTTONS && 0 <= j < NUM_BUTTONS && i != j ==> keyboard_mapping_seq()[i]
                != keyboard_mapping_seq()[j],
{
}

/// Each button has its own place in arrays of buttons, and the keyboard
/// mapping follows that order: W moves up, S down, A left, D right, Q and
/// E are the shoulders, I, K, J and L the actions, space is back and
/// escape is start.
pub proof fn lemma_mapping_matches_buttons()
    ensures
        forall|a: GameButtonId, b: GameButtonId| a != b ==> button_slot(a) != button_slot(b),
        forall|a: GameButtonId| button_slot(a) < NUM_BUTTONS,
        keyboard_mapping_seq()[button_slot(GameButtonId::Up) as int] == W_KEY_CODE,
        keyboard_mapping_seq()[button_slot(GameButtonId::Down) as int] == S_KEY_CODE,
        keyboard_mapping_seq()[button_slot(GameButtonId::Left) as int] == A_KEY_CODE,
        keyboard_mapping_seq()[button_slot(GameButtonId::Right) as int] == D_KEY_CODE,
        keyboard_mapping_seq()[button_slot(GameButtonId::LeftShoulder) as int] == Q_KEY_CODE,
        keyboard_mapping_seq()[button_slot(GameButtonId::RightShoulder) as int] == E_KEY_CODE,
        keyboard_mapping_seq()[button_slot(GameButtonId::ActionUp) as int] == I_KEY_CODE,
        keyboard_mapping_seq()[button_slot(GameButtonId::ActionDown) as int] == K_KEY_CODE,
        keyboard_mapping_seq()[button_slot(GameButtonId::ActionLeft) as int] == J_KEY_CODE,
        keyboard_mapping_seq()[button_slot(GameButtonId::ActionRight) as int] == L_KEY_CODE,
        keyboard_mapping_seq()[button_slot(GameButtonId::Back) as int] == SPACE_KEY_CODE,
        keyboard_mapping_seq()[button_slot(GameButtonId::Start) as int] == ESC_KEY_CODE,
{
}

/// A button after a key event: one more transition when it changes between
/// up and down, and down exactly when the key is.
pub open spec fn pressed(b: GameButtonState, is_down: bool) -> GameButtonState {
    GameButtonState {
        half_transition_count: if b.ended_down != is_down {
            (b.half_transition_count + 1) as usize
        } else {
            b.half_transition_count
        },
        ended_down: is_down,
    }
}

/// Applies one key event to the buttons: the button mapped to `key_code`,
/// if any, becomes `pressed`; every other button and the pointer stay.
pub open spec fn key_event_applied(before: GameInput, after: GameInput, key_code: u32, is_down: bool) -> bool {
    &&& after.pointer == before.pointer
    &&& forall|i: int|
        0 <= i < NUM_BUTTONS ==> #[trigger] after.buttons@[i] == if keyboard_mapping_seq()[i]
            == key_code {
            pressed(before.buttons@[i], is_down)
        } else {
            before.buttons@[i]
        }
}

/// Repeating a key event changes nothing: the second finds every button
/// already in the state the event asks for, and counts no transition.
pub proof fn lemma_key_event_repeat(
    a: GameInput,
    b: GameInput,
    c: GameInput,
    key_code: u32,
    is_down: bool,
)
    requires
        key_event_applied(a, b, key_code, is_down),
        key_event_applied(b, c, key_code, is_down),
    ensures
        key_event_fits(b, key_code, is_down),
        c.buttons@ == b.buttons@,
        c.pointer == b.pointer,
{
    assert(c.buttons@ =~= b.buttons@);
}

/// The counter of the button a key event would change has room left.
pub open spec fn key_event_fits(input: GameInput, key_code: u32, is_down: bool) -> bool {
    forall|i: int|
        0 <= i < NUM_BUTTONS && keyboard_mapping_seq()[i] == key_code
            && input.buttons@[i].ended_down != is_down ==> input.buttons@[i].half_transition_count
            < usize::MAX
}

/// The position of the button mapped to `key_code`, if any.
pub fn button_for_key(key_code: u32) -> (r: Option<usize>)
    ensures
        r matches Some(i) ==> i < NUM_BUTTONS && keyboard_mapping_seq()[i as int] == key_code,
        r is None ==> forall|i: int| 0 <= i < NUM_BUTTONS ==> keyboard_mapping_seq()[i] != key_code,
{
    let mapping: [u32; NUM_BUTTONS] = keyboard_mapping();
    let mut i: usize = 0;
    while i < NUM_BUTTONS
        invariant
            i <= NUM_BUTTONS,
            mapping@ == keyboard_mapping_seq(),
            forall|j: int| 0 <= j < i ==> keyboard_mapping_seq()[j] != key_code,
        decreases NUM_BUTTONS - i,
    {
        if mapping[i] == key_code {
            return Some(i);
        }
        i = i + 1;
    }
    None
}

/// Records a key going down or up: the mapped button counts a transition
/// when its state changes and takes the new state.
pub fn update_keyboard_input(keyboard_controller: &mut GameInput, incoming_key_code: u32, is_down: bool)
    requires
        key_event_fits(*old(keyboard_controller), incoming_key_code, is_down),
    ensures
        key_event_applied(
            *old(keyboard_controller),
            *final(keyboard_controller),
            incoming_key_code,
            is_down,
        ),
{
    proof {
        lemma_mapping_distinct();
    }
    if let Some(button_idx) = button_for_key(incoming_key_code) {
        let mut button: GameButtonState = keyboard_controller.buttons[button_idx];
        if button.ended_down != is_down {
            button.half_transition_count = button.half_transition_count + 1;
        }
        button.ended_down = is_down;
        keyboard_controller.buttons[button_idx] = button;
    }
}

/// `codes` are the first `codes.len()` groups of four bytes of `bytes`,
/// each read least significant byte first.
pub open spec fn all_le_codes(bytes: Seq<u8>, codes: Seq<u32>) -> bool {
    forall|i: int|
        0 <= i < codes.len() ==> #[trigger] codes[i] == u32_from_le(bytes.subrange(4 * i, 4 * i + 4))
}

/// `codes` are the first `codes.len()` groups of four bytes of `bytes`,
/// each read most significant byte first.
pub open spec fn all_be_codes(bytes: Seq<u8>, codes: Seq<u32>) -> bool {
    forall|i: int|
        0 <= i < codes.len() ==> #[trigger] codes[i] == u32_from_be(bytes.subrange(4 * i, 4 * i + 4))
}

/// Calls `bytemuck::pod_collect_to_vec::<u8, u32>`, which copies the bytes
/// into `u32`s as the machine stores them. Claimed: for whole groups of
/// four bytes, one `u32` per group, all read in the same one of the two
/// byte orders; which one is left open.
#[verifier::external_body]
fn collect_u32s(bytes: &[u8]) -> (codes: Vec<u32>)
    requires
        bytes@.len() % 4 == 0,
    ensures
        codes@.len() == bytes@.len() / 4,
        all_le_codes(bytes@, codes@) || all_be_codes(bytes@, codes@),
{
    bytemuck::pod_collect_to_vec::<u8, u32>(bytes)
}

/// `codes` are the key codes packed in `bytes`, four bytes each, all in the
/// machine's byte order; trailing bytes that make no full code are left.
pub open spec fn decodes_key_codes(bytes: Seq<u8>, codes: Seq<u32>) -> bool {
    &&& codes.len() == bytes.len() / 4
    &&& all_le_codes(bytes, codes) || all_be_codes(bytes, codes)
}

/// Unpacks the key codes of a keyboard's held-keys array.
pub fn keys_from_bytes(keys: &[u8]) -> (codes: Vec<u32>)
    ensures
        decodes_key_codes(keys@, codes@),
{
    let len: usize = keys.len();
    let n: usize = len / 4;
    assert(4 * n <= len && (4 * n) % 4 == 0 && (4 * n) / 4 == n) by (nonlinear_arith)
        requires
            n == len / 4,
    ;
    let whole: &[u8] = &keys[0..4 * n];
    let codes: Vec<u32> = collect_u32s(whole);
    proof {
        assert forall|i: int| 0 <= i < n implies #[trigger] whole@.subrange(4 * i, 4 * i + 4)
            == keys@.subrange(4 * i, 4 * i + 4) by {
            assert(whole@.subrange(4 * i, 4 * i + 4) =~= keys@.subrange(4 * i, 4 * i + 4));
        }
        if all_le_codes(whole@, codes@) {
            assert forall|i: int| 0 <= i < codes@.len() implies #[trigger] codes@[i] == u32_from_le(
                keys@.subrange(4 * i, 4 * i + 4),
            ) by {
                assert(whole@.subrange(4 * i, 4 * i + 4) == keys@.subrange(4 * i, 4 * i + 4));
            }
        } else {
            assert forall|i: int| 0 <= i < codes@.len() implies #[trigger] codes@[i] == u32_from_be(
                keys@.subrange(4 * i, 4 * i + 4),
            ) by {
                assert(whole@.subrange(4 * i, 4 * i + 4) == keys@.subrange(4 * i, 4 * i + 4));
            }
        }
    }
    codes
}

/// The button with its down state set to `down`, transitions kept.
pub open spec fn held(b: GameButtonState, down: bool) -> GameButtonState {
    GameButtonState { half_transition_count: b.half_transition_count, ended_down: down }
}

/// Whether `keys` holds `code`.
fn contains_code(keys: &[u32], code: u32) -> (r: bool)
    ensures
        r == keys@.contains(code),
{
    let mut i: usize = 0;
    while i < keys.len()
        invariant
            i <= keys@.len(),
            forall|j: int| 0 <= j < i ==> keys@[j] != code,
        decreases keys.len() - i,
    {
        if keys[i] == code {
            return true;
        }
        i = i + 1;
    }
    false
}

/// Sets every button down exactly when its key is among `keys`, the keys
/// held as the keyboard gains focus; transition counts and the pointer stay.
pub fn set_held_keys(keyboard_controller: &mut GameInput, keys: &[u32])
    ensures
        final(keyboard_controller).pointer == old(keyboard_controller).pointer,
        forall|i: int|
            0 <= i < NUM_BUTTONS ==> #[trigger] final(keyboard_controller).buttons@[i] == held(
                old(keyboard_controller).buttons@[i],
                keys@.contains(keyboard_mapping_seq()[i]),
            ),
{
    let mapping: [u32; NUM_BUTTONS] = keyboard_mapping();
    let mut i: usize = 0;
    while i < NUM_BUTTONS
        invariant
            i <= NUM_BUTTONS,
            mapping@ == keyboard_mapping_seq(),
            keyboard_controller.pointer == old(keyboard_controller).pointer,
            forall|j: int|
                0 <= j < i ==> #[trigger] keyboard_controller.buttons@[j] == held(
                    old(keyboard_controller).buttons@[j],
                    keys@.contains(keyboard_mapping_seq()[j]),
                ),
            forall|j: int|
                i <= j < NUM_BUTTONS ==> #[trigger] keyboard_controller.buttons@[j] == old(
                    keyboard_controller,
                ).buttons@[j],
        decreases NUM_BUTTONS - i,
    {
        let mut button: GameButtonState = keyboard_controller.buttons[i];
        button.ended_down = contains_code(keys, mapping[i]);
        keyboard_controller.buttons[i] = button;
        i = i + 1;
    }
}

} // verus!
