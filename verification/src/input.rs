//! Keyboard and mouse button state tracking, driven by window events.

use vstd::prelude::*;
use std::collections::HashMap;
use vstd::std_specs::iter::IteratorSpec;

verus! {

broadcast use vstd::std_specs::hash::group_hash_axioms;

/// Whether a button went down or up.
#[derive(Clone, Copy, Debug, PartialEq, Eq, Structural)]
pub enum ElementState {
    Pressed,
    Released,
}

/// The state of a mouse button or keyboard key: pressed at a time, held
/// down from a time until a time, or released after being down from a time
/// until a time. Times are in nanoseconds.
#[derive(Clone, Copy, Debug, PartialEq, Eq, Structural)]
pub enum InputState {
    Pressed(u128),
    Down(u128, u128),
    Released(u128, u128),
}

/// The state that `InputState::update` moves `s` to on the event `e` at time
/// `now`.
pub open spec fn next_input_state(s: InputState, e: ElementState, now: u128) -> InputState {
    match e {
        ElementState::Pressed => match s {
            InputState::Pressed(start) => InputState::Down(start, now),
            InputState::Down(start, _) => InputState::Down(start, now),
            InputState::Released(_, _) => InputState::Pressed(now),
        },
        ElementState::Released => match s {
            InputState::Pressed(start) => InputState::Released(start, now),
            InputState::Down(start, _) => InputState::Released(start, now),
            InputState::Released(start, end) => InputState::Released(start, end),
        },
    }
}

/// An update may be applied: a released button cannot be released again.
pub open spec fn update_allowed(s: InputState, e: ElementState) -> bool {
    !(s is Released && e == ElementState::Released)
}

/// The time at which the button of state `s` went down.
pub open spec fn press_time(s: InputState) -> u128 {
    match s {
        InputState::Pressed(start) => start,
        InputState::Down(start, _) => start,
        InputState::Released(start, _) => start,
    }
}

impl InputState {
    /// Updates the state on the event `state` at time `time_now`: a press
    /// turns a pressed or held button into one held down since it was first
    /// pressed, and a released one into a newly pressed one; a release turns a
    /// pressed or held button into a released one. A released button cannot
    /// be released again.
    pub fn update(&mut self, state: &ElementState, time_now: u128)
        requires
            update_allowed(*old(self), *state),
        ensures
            *final(self) == next_input_state(*old(self), *state, time_now),
    {
        match state {
            ElementState::Pressed => {
                match *self {
                    InputState::Pressed(start_time) => {
                        *self = InputState::Down(start_time, time_now)
                    },
                    InputState::Down(start_time, _) => {
                        *self = InputState::Down(start_time, time_now)
                    },
                    InputState::Released(_, _) => { *self = InputState::Pressed(time_now) },
                }
            },
            ElementState::Released => {
                match *self {
                    InputState::Pressed(start_time) => {
                        *self = InputState::Released(start_time, time_now)
                    },
                    InputState::Down(start_time, _) => {
                        *self = InputState::Released(start_time, time_now)
                    },
                    InputState::Released(_, _) => {},
                }
            },
        }
    }
}

/// A press keeps a held button's press time and starts a released one anew
/// at the time of the event; a release keeps the press time and leaves the
/// button released.
pub proof fn lemma_update_press_time(s: InputState, e: ElementState, now: u128)
    requires
        update_allowed(s, e),
    ensures
        press_time(next_input_state(s, e, now)) == if s is Released {
            now
        } else {
            press_time(s)
        },
        e == ElementState::Released ==> next_input_state(s, e, now) is Released,
        e == ElementState::Pressed ==> !(next_input_state(s, e, now) is Released),
{
}

/// A mouse button.
#[derive(Clone, Copy, Debug, PartialEq, Eq, Structural)]
pub enum MouseButtonKind {
    Left,
    Right,
    Middle,
    Other(u16),
}

/// The tracked state of one mouse button.
#[derive(Clone, Copy)]
pub struct MouseButton {
    state: Option<InputState>,
    tag: MouseButtonKind,
}

/// The tracked state of the left, middle and right mouse buttons.
#[derive(Clone, Copy)]
pub struct MouseButtons {
    left: MouseButton,
    middle: MouseButton,
    right: MouseButton,
}

/// The tracked state that `MouseButtons::update` gives a button in state `s`
/// on the event `e` at time `now`: an untracked button becomes pressed,
/// whatever the event.
pub open spec fn next_button_state(s: Option<InputState>, e: ElementState, now: u128) -> Option<
    InputState,
> {
    match s {
        Some(st) => Some(next_input_state(st, e, now)),
        None => Some(InputState::Pressed(now)),
    }
}

/// An update of a tracked button state may be applied.
pub open spec fn button_update_allowed(s: Option<InputState>, e: ElementState) -> bool {
    match s {
        Some(st) => update_allowed(st, e),
        None => true,
    }
}

/// A released button is forgotten; others are kept.
pub open spec fn forget_released(s: Option<InputState>) -> Option<InputState> {
    match s {
        Some(InputState::Released(_, _)) => None,
        _ => s,
    }
}

impl View for MouseButtons {
    /// The states of the left, middle and right buttons.
    type V = (Option<InputState>, Option<InputState>, Option<InputState>);

    closed spec fn view(&self) -> Self::V {
        (self.left.state, self.middle.state, self.right.state)
    }
}

impl MouseButtons {
    /// No button tracked.
    pub fn init() -> (r: Self)
        ensures
            r@ == (None::<InputState>, None::<InputState>, None::<InputState>),
    {
        Self {
            left: MouseButton { state: None, tag: MouseButtonKind::Left },
            middle: MouseButton { state: None, tag: MouseButtonKind::Middle },
            right: MouseButton { state: None, tag: MouseButtonKind::Right },
        }
    }

    /// The tracked state of `button` (none for other buttons).
    pub open spec fn state_of(self, button: MouseButtonKind) -> Option<InputState> {
        match button {
            MouseButtonKind::Left => self@.0,
            MouseButtonKind::Middle => self@.1,
            MouseButtonKind::Right => self@.2,
            MouseButtonKind::Other(_) => None,
        }
    }

    /// Updates the state of `button` on the event `state` at time `time_now`;
    /// other buttons than left, middle and right are ignored.
    pub fn update(&mut self, button: &MouseButtonKind, state: &ElementState, time_now: u128)
        requires
            button_update_allowed(old(self).state_of(*button), *state),
        ensures
            final(self)@ == match *button {
                MouseButtonKind::Left => (
                    next_button_state(old(self)@.0, *state, time_now),
                    old(self)@.1,
                    old(self)@.2,
                ),
                MouseButtonKind::Middle => (
                    old(self)@.0,
                    next_button_state(old(self)@.1, *state, time_now),
                    old(self)@.2,
                ),
                MouseButtonKind::Right => (
                    old(self)@.0,
                    old(self)@.1,
                    next_button_state(old(self)@.2, *state, time_now),
                ),
                MouseButtonKind::Other(_) => old(self)@,
            },
    {
        match button {
            MouseButtonKind::Left => {
                match &mut self.left.state {
                    Some(s) => { s.update(state, time_now) },
                    None => { self.left.state = Some(InputState::Pressed(time_now)) },
                }
            },
            MouseButtonKind::Middle => {
                match &mut self.middle.state {
                    Some(s) => { s.update(state, time_now) },
                    None => { self.middle.state = Some(InputState::Pressed(time_now)) },
                }
            },
            MouseButtonKind::Right => {
                match &mut self.right.state {
                    Some(s) => { s.update(state, time_now) },
                    None => { self.right.state = Some(InputState::Pressed(time_now)) },
                }
            },
            _ => {},
        }
    }

    /// Forgets the buttons that were released.
    pub fn forced_update(&mut self)
        ensures
            final(self)@ == (
                forget_released(old(self)@.0),
                forget_released(old(self)@.1),
                forget_released(old(self)@.2),
            ),
    {
        if let Some(InputState::Released(_, _)) = self.left.state {
            self.left.state = None
        }
        if let Some(InputState::Released(_, _)) = self.middle.state {
            self.middle.state = None
        }
        if let Some(InputState::Released(_, _)) = self.right.state {
            self.right.state = None
        }
    }

    /// The state of the left button.
    pub fn get_left(self) -> (r: Option<InputState>)
        ensures
            r == self@.0,
    {
        self.left.state
    }

    /// The state of the middle button.
    pub fn get_middle(self) -> (r: Option<InputState>)
        ensures
            r == self@.1,
    {
        self.middle.state
    }

    /// The state of the right button.
    pub fn get_right(self) -> (r: Option<InputState>)
        ensures
            r == self@.2,
    {
        self.right.state
    }
}


/// A keyboard key, by its key code.
pub type Key = u32;

/// A keyboard event: the key (when it has a code) and whether it went down
/// or up.
#[derive(Clone, Copy, Debug, PartialEq, Eq, Structural)]
pub struct KeyboardInput {
    pub virtual_keycode: Option<Key>,
    pub state: ElementState,
}

/// The window events that change the tracked key and button states.
#[derive(Clone, Copy, Debug, PartialEq, Eq, Structural)]
pub enum InputEvent {
    KeyboardInput(KeyboardInput),
    MouseInput { button: MouseButtonKind, state: ElementState },
    Other,
}

/// The key and mouse button states and the frame clock of a window.
#[derive(Clone)]
pub struct InputCache {
    pub keyboard: HashMap<Key, InputState>,
    pub mouse_buttons: MouseButtons,
    pub time_now: u128,
    pub time_delta: u128,
}

/// The key states without the released keys.
pub open spec fn without_released(m: Map<Key, InputState>) -> Map<Key, InputState> {
    m.restrict(Set::new(|k: Key| m.contains_key(k) && !(m[k] is Released)))
}

/// The key states after the keyboard event `evt` at time `now`: a key that
/// is not tracked becomes pressed, whatever the event; a tracked one is
/// updated; an event without key code changes nothing.
pub open spec fn next_keyboard(m: Map<Key, InputState>, evt: KeyboardInput, now: u128) -> Map<
    Key,
    InputState,
> {
    match evt.virtual_keycode {
        None => m,
        Some(k) => if m.contains_key(k) {
            m.insert(k, next_input_state(m[k], evt.state, now))
        } else {
            m.insert(k, InputState::Pressed(now))
        },
    }
}

/// The keyboard event may be applied: a released key is not released again.
pub open spec fn keyboard_update_allowed(m: Map<Key, InputState>, evt: KeyboardInput) -> bool {
    match evt.virtual_keycode {
        None => true,
        Some(k) => m.contains_key(k) ==> update_allowed(m[k], evt.state),
    }
}

/// The event may be applied to the tracked states.
pub open spec fn event_allowed(
    m: Map<Key, InputState>,
    buttons: MouseButtons,
    event: InputEvent,
) -> bool {
    match event {
        InputEvent::KeyboardInput(evt) => keyboard_update_allowed(m, evt),
        InputEvent::MouseInput { button, state } => button_update_allowed(
            buttons.state_of(button),
            state,
        ),
        InputEvent::Other => true,
    }
}

/// The keys whose state in `keyboard` is released.
fn released_keys(keyboard: &HashMap<Key, InputState>) -> (r: Vec<Key>)
    ensures
        forall|k: Key| r@.contains(k) ==> keyboard@.contains_key(k) && keyboard@[k] is Released,
        forall|k: Key|
            keyboard@.contains_key(k) && keyboard@[k] is Released ==> #[trigger] r@.contains(k),
{
    let mut released: Vec<Key> = Vec::new();
    let ghost dom_keys = IteratorSpec::remaining(&keyboard.keys());
    let ghost mut done: int = 0;
    for key in it: keyboard.keys()
        invariant
            it.seq() == dom_keys,
            done == it.index(),
            dom_keys.unref().to_set() == keyboard@.dom(),
            forall|k: Key|
                released@.contains(k) ==> keyboard@.contains_key(k) && keyboard@[k] is Released,
            forall|i: int|
                0 <= i < done && keyboard@[*dom_keys[i]] is Released ==> released@.contains(
                    *#[trigger] dom_keys[i],
                ),
    {
        proof {
            broadcast use vstd::seq_lib::lemma_seq_contains_after_push;

        }
        match keyboard.get(key) {
            Some(InputState::Released(_, _)) => {
                released.push(*key);
            },
            _ => {},
        }
        proof {
            broadcast use vstd::seq_lib::lemma_seq_contains_after_push;

            done = done + 1;
        }
    }
    proof {
        assert forall|k: Key|
            keyboard@.contains_key(k) && keyboard@[k] is Released implies #[trigger] released@.contains(
                k,
            ) by {
            assert(dom_keys.unref().to_set().contains(k));
            let i = choose|i: int| 0 <= i < dom_keys.len() && dom_keys.unref()[i] == k;
            assert(*dom_keys[i] == k);
        }
    }
    released
}

impl InputCache {
    /// No key or button tracked, the clock at 0.
    pub fn init() -> (r: Self)
        ensures
            r.keyboard@ == Map::<Key, InputState>::empty(),
            r.mouse_buttons@ == (None::<InputState>, None::<InputState>, None::<InputState>),
            r.time_now == 0,
            r.time_delta == 0,
    {
        let keyboard = HashMap::<Key, InputState>::with_capacity(128);
        let mouse_buttons = MouseButtons::init();
        Self { keyboard: keyboard, mouse_buttons: mouse_buttons, time_now: 0, time_delta: 0 }
    }

    /// Prepares a frame whose clock reads `now`: forgets the released mouse
    /// buttons and keys and advances the clock.
    pub fn pre_update(&mut self, now: u128)
        requires
            old(self).time_now <= now,
        ensures
            final(self).mouse_buttons@ == (
                forget_released(old(self).mouse_buttons@.0),
                forget_released(old(self).mouse_buttons@.1),
                forget_released(old(self).mouse_buttons@.2),
            ),
            final(self).keyboard@ == without_released(old(self).keyboard@),
            final(self).time_delta == now - old(self).time_now,
            final(self).time_now == now,
    {
        self.mouse_buttons.forced_update();
        let released = released_keys(&self.keyboard);
        let ghost start = self.keyboard@;
        let ghost buttons = self.mouse_buttons;
        let ghost clock = self.time_now;
        let mut i: usize = 0;
        while i < released.len()
            invariant
                i <= released@.len(),
                forall|k: Key|
                    released@.contains(k) ==> start.contains_key(k) && start[k] is Released,
                forall|k: Key|
                    start.contains_key(k) && start[k] is Released ==> #[trigger] released@.contains(k),
                self.keyboard@ == start.remove_keys(released@.take(i as int).to_set()),
                self.mouse_buttons == buttons,
                self.time_now == clock,
            decreases released@.len() - i,
        {
            self.keyboard.remove(&released[i]);
            proof {
                assert(released@.take(i + 1) =~= released@.take(i as int).push(released@[i as int]));
                released@.take(i as int).lemma_push_to_set_commute(released@[i as int]);
                assert(self.keyboard@ =~= start.remove_keys(released@.take(i + 1).to_set()));
            }
            i = i + 1;
        }
        proof {
            assert(released@.take(released@.len() as int) =~= released@);
            assert(self.keyboard@ =~= without_released(start));
        }
        self.time_delta = now - self.time_now;
        self.time_now = now;
    }

    /// Applies a window event to the key and button states.
    pub fn update(&mut self, event: &InputEvent)
        requires
            event_allowed(old(self).keyboard@, old(self).mouse_buttons, *event),
        ensures
            final(self).time_now == old(self).time_now,
            final(self).time_delta == old(self).time_delta,
            match *event {
                InputEvent::KeyboardInput(evt) => {
                    &&& final(self).keyboard@ == next_keyboard(
                        old(self).keyboard@,
                        evt,
                        old(self).time_now,
                    )
                    &&& final(self).mouse_buttons@ == old(self).mouse_buttons@
                },
                InputEvent::MouseInput { button, state } => {
                    &&& final(self).keyboard@ == old(self).keyboard@
                    &&& !(button is Other) ==> final(self).mouse_buttons.state_of(button)
                        == next_button_state(
                        old(self).mouse_buttons.state_of(button),
                        state,
                        old(self).time_now,
                    )
                    &&& forall|b: MouseButtonKind|
                        b != button ==> #[trigger] final(self).mouse_buttons.state_of(b) == old(
                            self,
                        ).mouse_buttons.state_of(b)
                },
                InputEvent::Other => {
                    &&& final(self).keyboard@ == old(self).keyboard@
                    &&& final(self).mouse_buttons@ == old(self).mouse_buttons@
                },
            },
    {
        match event {
            InputEvent::KeyboardInput(input) => self.track_keyboard(*input),
            InputEvent::MouseInput { button, state } => self.track_mouse_button(*button, *state),
            InputEvent::Other => {},
        }
    }

    /// The state of keyboard key `key`, if it is tracked.
    pub fn key_state(self, key: &Key) -> (r: Option<InputState>)
        ensures
            r == (if self.keyboard@.contains_key(*key) {
                Some(self.keyboard@[*key])
            } else {
                None
            }),
    {
        if let Some(val) = self.keyboard.get(key) {
            Some(*val)
        } else {
            None
        }
    }

    /// The state of mouse button `button`, if it is tracked.
    pub fn mouse_button_state(self, button: &MouseButtonKind) -> (r: Option<InputState>)
        ensures
            r == self.mouse_buttons.state_of(*button),
    {
        match button {
            MouseButtonKind::Left => self.mouse_buttons.get_left(),
            MouseButtonKind::Middle => self.mouse_buttons.get_middle(),
            MouseButtonKind::Right => self.mouse_buttons.get_right(),
            _ => None,
        }
    }

    /// Applies a keyboard event to the key states.
    fn track_keyboard(&mut self, evt: KeyboardInput)
        requires
            keyboard_update_allowed(old(self).keyboard@, evt),
        ensures
            final(self).keyboard@ == next_keyboard(old(self).keyboard@, evt, old(self).time_now),
            final(self).mouse_buttons == old(self).mouse_buttons,
            final(self).time_now == old(self).time_now,
            final(self).time_delta == old(self).time_delta,
    {
        if let Some(key) = evt.virtual_keycode {
            match self.keyboard.get(&key) {
                Some(state) => {
                    let mut s = *state;
                    s.update(&evt.state, self.time_now);
                    self.keyboard.insert(key, s);
                },
                None => {
                    self.keyboard.insert(key, InputState::Pressed(self.time_now));
                },
            }
        }
    }

    /// Applies a mouse button event to the button states.
    fn track_mouse_button(&mut self, button: MouseButtonKind, state: ElementState)
        requires
            button_update_allowed(old(self).mouse_buttons.state_of(button), state),
        ensures
            final(self).keyboard == old(self).keyboard,
            final(self).time_now == old(self).time_now,
            final(self).time_delta == old(self).time_delta,
            !(button is Other) ==> final(self).mouse_buttons.state_of(button) == next_button_state(
                old(self).mouse_buttons.state_of(button),
                state,
                old(self).time_now,
            ),
            forall|b: MouseButtonKind|
                b != button ==> #[trigger] final(self).mouse_buttons.state_of(b) == old(
                    self,
                ).mouse_buttons.state_of(b),
    {
        self.mouse_buttons.update(&button, &state, self.time_now);
    }
}


/// A keyboard event moves its key by the button state machine and leaves the
/// other keys alone: a key seen for the first time becomes pressed at `now`;
/// a press of a pressed or held key keeps it held since it was first
/// pressed, last seen at `now`; a press of a released key presses it anew;
/// a release of a pressed or held key releases it, keeping its press time.
pub proof fn lemma_keyboard_event(m: Map<Key, InputState>, evt: KeyboardInput, now: u128, k: Key)
    requires
        evt.virtual_keycode == Some(k),
        keyboard_update_allowed(m, evt),
    ensures
        ({
            let r = next_keyboard(m, evt, now);
            &&& r.contains_key(k)
            &&& forall|o: Key|
                o != k ==> (#[trigger] r.contains_key(o) == m.contains_key(o)) && (m.contains_key(o)
                    ==> r[o] == m[o])
            &&& !m.contains_key(k) ==> r[k] == InputState::Pressed(now)
            &&& m.contains_key(k) ==> r[k] == next_input_state(m[k], evt.state, now)
            &&& m.contains_key(k) && evt.state == ElementState::Pressed && !(m[k] is Released)
                ==> r[k] == InputState::Down(press_time(m[k]), now)
            &&& m.contains_key(k) && evt.state == ElementState::Pressed && m[k] is Released ==> r[k]
                == InputState::Pressed(now)
            &&& m.contains_key(k) && evt.state == ElementState::Released ==> r[k]
                == InputState::Released(press_time(m[k]), if m[k] is Released {
                m[k]->Released_1
            } else {
                now
            })
        }),
{
}

/// Starting a frame forgets exactly the released keys: every key that is
/// pressed or held is kept with its state, and no released key is kept.
pub proof fn lemma_frame_start_keeps_held_keys(m: Map<Key, InputState>, k: Key)
    ensures
        m.contains_key(k) && !(m[k] is Released) ==> without_released(m).contains_key(k)
            && without_released(m)[k] == m[k],
        m.contains_key(k) && m[k] is Released ==> !without_released(m).contains_key(k),
        !m.contains_key(k) ==> !without_released(m).contains_key(k),
{
}

} // verus!
