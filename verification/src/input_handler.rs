//! Keyboard handling: the compositor's own shortcuts, which keys reach the clients, and what
//! a shortcut does.

use vstd::prelude::*;

use crate::framework::backend::BackendRequest;

verus! {

/// The keysym of the `q` key.
pub const KEY_Q_LOWER: u32 = 0x0071;
/// The keysym of the `1` key.
pub const KEY_1: u32 = 0x0031;
/// The keysym of the `9` key.
pub const KEY_9: u32 = 0x0039;
/// The keysym of the key that switches to the first virtual terminal.
pub const KEY_XF86_SWITCH_VT_1: u32 = 0x1008_FE01;
/// The keysym of the key that switches to the twelfth virtual terminal.
pub const KEY_XF86_SWITCH_VT_12: u32 = 0x1008_FE0C;

/// The state of the keyboard modifiers.
#[derive(Clone, Copy, Debug, PartialEq, Eq, Structural)]
pub struct ModifiersState {
    pub ctrl: bool,
    pub alt: bool,
    pub shift: bool,
    pub caps_lock: bool,
    pub logo: bool,
    pub num_lock: bool,
}

/// What a key event does.
#[derive(Clone, Copy, Debug, PartialEq, Eq, Structural)]
pub enum KeyAction {
    /// Quit the compositor
    Quit,
    /// Trigger a vt-switch
    VtSwitch(i32),
    /// Switch the current screen
    Workspace(usize),
    MoveToWorkspace(usize),
    /// Do nothing more
    NoAction,
    /// The key was taken by the compositor
    Filtred,
}

/// The compositor's own shortcut for `keysym`, if any.
pub open spec fn shortcut(modifiers: ModifiersState, keysym: u32) -> Option<KeyAction> {
    if modifiers.logo && keysym == KEY_Q_LOWER {
        Some(KeyAction::Quit)
    } else if KEY_XF86_SWITCH_VT_1 <= keysym <= KEY_XF86_SWITCH_VT_12 {
        Some(KeyAction::VtSwitch((keysym - KEY_XF86_SWITCH_VT_1 + 1) as i32))
    } else if modifiers.logo && KEY_1 <= keysym <= KEY_9 {
        Some(KeyAction::Workspace((keysym - KEY_1 + 1) as usize))
    } else if modifiers.logo && modifiers.shift && KEY_1 <= keysym <= KEY_9 {
        Some(KeyAction::MoveToWorkspace((keysym - KEY_1) as usize))
    } else {
        None
    }
}

/// The compositor's own shortcuts: logo+q quits, the virtual terminal keys switch terminals,
/// logo and a digit switch workspaces.
pub fn process_keyboard_shortcut(modifiers: ModifiersState, keysym: u32) -> (r: Option<KeyAction>)
    ensures
        r == shortcut(modifiers, keysym),
{
    if modifiers.logo && keysym == KEY_Q_LOWER {
        Some(KeyAction::Quit)
    } else if KEY_XF86_SWITCH_VT_1 <= keysym && keysym <= KEY_XF86_SWITCH_VT_12 {
        Some(KeyAction::VtSwitch((keysym - KEY_XF86_SWITCH_VT_1 + 1) as i32))
    } else if modifiers.logo && keysym >= KEY_1 && keysym <= KEY_9 {
        Some(KeyAction::Workspace((keysym - KEY_1) as usize + 1))
    } else if modifiers.logo && modifiers.shift && keysym >= KEY_1 && keysym <= KEY_9 {
        Some(KeyAction::MoveToWorkspace((keysym - KEY_1) as usize))
    } else {
        None
    }
}

/// The next step of a key event.
#[derive(Clone, Copy, Debug, PartialEq, Eq, Structural)]
pub enum KeyStep {
    /// The event is decided.
    Done(KeyAction),
    /// A press without a shortcut of its own: the configuration decides whether it takes the
    /// key (see `InputState::config_key_action`).
    AskConfig,
}

/// `s` without any occurrence of `k`.
pub open spec fn without(s: Seq<u32>, k: u32) -> Seq<u32>
    decreases s.len(),
{
    if s.len() == 0 {
        s
    } else if s.last() == k {
        without(s.drop_last(), k)
    } else {
        without(s.drop_last(), k).push(s.last())
    }
}

/// `without` keeps the other keys and drops `k`.
pub proof fn lemma_without_contains(s: Seq<u32>, k: u32, x: u32)
    ensures
        without(s, k).contains(x) == (s.contains(x) && x != k),
    decreases s.len(),
{
    if s.len() > 0 {
        let d = s.drop_last();
        lemma_without_contains(d, k, x);
        assert(s =~= d.push(s.last()));
        vstd::seq_lib::lemma_seq_contains_after_push(d, s.last(), x);
        vstd::seq_lib::lemma_seq_contains_after_push(without(d, k), s.last(), x);
    }
}

/// What a key event gives and which keys are held back afterwards, from the keys held back
/// before: a press that is a shortcut gives its action and holds its key back; another press
/// goes to the configuration; the release of a held-back key is taken and frees the key; any
/// other release does nothing more.
pub open spec fn key_outcome(
    suppressed: Seq<u32>,
    keysym: u32,
    pressed: bool,
    modifiers: ModifiersState,
) -> (KeyStep, Seq<u32>) {
    if pressed {
        match shortcut(modifiers, keysym) {
            Some(a) => (KeyStep::Done(a), suppressed.push(keysym)),
            None => (KeyStep::AskConfig, suppressed),
        }
    } else if suppressed.contains(keysym) {
        (KeyStep::Done(KeyAction::Filtred), without(suppressed, keysym))
    } else {
        (KeyStep::Done(KeyAction::NoAction), suppressed)
    }
}

/// A key whose press the compositor took as a shortcut has its release taken as well, and
/// after that release the key is not held back any more.
pub proof fn law_shortcut_release_is_taken(
    suppressed: Seq<u32>,
    keysym: u32,
    press_modifiers: ModifiersState,
    release_modifiers: ModifiersState,
)
    requires
        shortcut(press_modifiers, keysym) is Some,
    ensures
        ({
            let after_press = key_outcome(suppressed, keysym, true, press_modifiers).1;
            let release = key_outcome(after_press, keysym, false, release_modifiers);
            &&& release.0 == KeyStep::Done(KeyAction::Filtred)
            &&& !release.1.contains(keysym)
        }),
{
    let after_press = suppressed.push(keysym);
    assert(after_press[after_press.len() - 1] == keysym);
    lemma_without_contains(after_press, keysym, keysym);
}

/// A key that was not held back and that the configuration let through reaches the client on
/// release too.
pub proof fn law_passed_release_is_not_taken(
    suppressed: Seq<u32>,
    keysym: u32,
    press_modifiers: ModifiersState,
    release_modifiers: ModifiersState,
)
    requires
        shortcut(press_modifiers, keysym) is None,
        !suppressed.contains(keysym),
    ensures
        ({
            let after_press = key_outcome(suppressed, keysym, true, press_modifiers);
            &&& after_press.0 == KeyStep::AskConfig
            &&& key_outcome(after_press.1, keysym, false, release_modifiers).0 == KeyStep::Done(
                KeyAction::NoAction,
            )
        }),
{
}

/// The keyboard state the compositor keeps.
#[derive(Debug)]
pub struct InputState {
    /// The keys held down.
    pub pressed_keys: Vec<u32>,
    /// The keys whose press the compositor took; their release is taken too.
    pub suppressed_keys: Vec<u32>,
    pub modifiers_state: ModifiersState,
}

/// The keys held down.
pub open spec fn pressed_set(s: Seq<u32>) -> Set<u32> {
    Set::new(|k: u32| s.contains(k))
}

impl InputState {
    pub fn new() -> (s: InputState)
        ensures
            s.pressed_keys@ == Seq::<u32>::empty(),
            s.suppressed_keys@ == Seq::<u32>::empty(),
            s.modifiers_state == (ModifiersState {
                ctrl: false,
                alt: false,
                shift: false,
                caps_lock: false,
                logo: false,
                num_lock: false,
            }),
    {
        InputState {
            pressed_keys: Vec::new(),
            suppressed_keys: Vec::new(),
            modifiers_state: ModifiersState {
                ctrl: false,
                alt: false,
                shift: false,
                caps_lock: false,
                logo: false,
                num_lock: false,
            },
        }
    }

    fn keys_contain(keys: &Vec<u32>, k: u32) -> (b: bool)
        ensures
            b == keys@.contains(k),
    {
        let n = keys.len();
        for i in 0..n
            invariant
                n == keys.len(),
                forall|j: int| 0 <= j < i ==> keys@[j] != k,
        {
            if keys[i] == k {
                return true;
            }
        }
        false
    }

    fn keys_without(keys: &Vec<u32>, k: u32) -> (r: Vec<u32>)
        ensures
            r@ == without(keys@, k),
    {
        let mut r: Vec<u32> = Vec::new();
        let n = keys.len();
        for i in 0..n
            invariant
                n == keys.len(),
                r@ == without(keys@.take(i as int), k),
        {
            assert(keys@.take(i + 1).drop_last() =~= keys@.take(i as int));
            if keys[i] != k {
                r.push(keys[i]);
            }
        }
        assert(keys@.take(n as int) =~= keys@);
        r
    }

    /// A key event for `keysym` with the modifiers `modifiers`: the held keys and the modifiers
    /// are recorded. A press that is a shortcut is taken by the compositor and its action is
    /// the result; any other press goes to the configuration. A release of a key whose press
    /// was taken is taken too.
    pub fn keyboard_key_to_action(&mut self, keysym: u32, pressed: bool, modifiers: ModifiersState) -> (step: KeyStep)
        ensures
            pressed_set(final(self).pressed_keys@) == (if pressed {
                pressed_set(old(self).pressed_keys@).insert(keysym)
            } else {
                pressed_set(old(self).pressed_keys@).remove(keysym)
            }),
            final(self).modifiers_state == modifiers,
            (step, final(self).suppressed_keys@) == key_outcome(
                old(self).suppressed_keys@,
                keysym,
                pressed,
                modifiers,
            ),
    {
        if pressed {
            if !Self::keys_contain(&self.pressed_keys, keysym) {
                self.pressed_keys.push(keysym);
            }
            proof {
                assert forall|x: u32| #[trigger]
                    pressed_set(self.pressed_keys@).contains(x) == pressed_set(
                        old(self).pressed_keys@,
                    ).insert(keysym).contains(x) by {
                    vstd::seq_lib::lemma_seq_contains_after_push(old(self).pressed_keys@, keysym, x);
                }
            }
            assert(pressed_set(self.pressed_keys@) =~= pressed_set(old(self).pressed_keys@).insert(
                keysym,
            ));
        } else {
            let kept = Self::keys_without(&self.pressed_keys, keysym);
            proof {
                assert forall|x: u32| #[trigger]
                    pressed_set(kept@).contains(x) == pressed_set(
                        old(self).pressed_keys@,
                    ).remove(keysym).contains(x) by {
                    lemma_without_contains(old(self).pressed_keys@, keysym, x);
                }
            }
            self.pressed_keys = kept;
            assert(pressed_set(self.pressed_keys@) =~= pressed_set(old(self).pressed_keys@).remove(
                keysym,
            ));
        }
        self.modifiers_state = modifiers;
        if pressed {
            match process_keyboard_shortcut(modifiers, keysym) {
                Some(action) => {
                    self.suppressed_keys.push(keysym);
                    KeyStep::Done(action)
                },
                None => KeyStep::AskConfig,
            }
        } else {
            if Self::keys_contain(&self.suppressed_keys, keysym) {
                self.suppressed_keys = Self::keys_without(&self.suppressed_keys, keysym);
                KeyStep::Done(KeyAction::Filtred)
            } else {
                KeyStep::Done(KeyAction::NoAction)
            }
        }
    }

    /// The configuration's answer for a press without a shortcut: a key it takes is taken by
    /// the compositor (and so is its release); any other goes to the client.
    pub fn config_key_action(&mut self, keysym: u32, intercepted: bool) -> (action: KeyAction)
        ensures
            final(self).pressed_keys@ == old(self).pressed_keys@,
            final(self).modifiers_state == old(self).modifiers_state,
            intercepted ==> action == KeyAction::Filtred && final(self).suppressed_keys@ == old(
                self,
            ).suppressed_keys@.push(keysym),
            !intercepted ==> action == KeyAction::NoAction && final(self).suppressed_keys@ == old(
                self,
            ).suppressed_keys@,
    {
        if intercepted {
            self.suppressed_keys.push(keysym);
            KeyAction::Filtred
        } else {
            KeyAction::NoAction
        }
    }
}

/// What handling a shortcut requires of the compositor.
#[derive(Clone, Copy, Debug, PartialEq, Eq, Structural)]
pub enum ShortcutEffect {
    /// Nothing to do.
    Nothing,
    /// Stop running.
    Quit,
    /// Send this request to the backend.
    Backend(BackendRequest),
    /// The action is not supported; report it.
    Unsupported(KeyAction),
}

/// What a shortcut's action does: quitting stops the compositor, a terminal switch is asked of
/// the backend, the other actions are not supported.
pub fn shortcut_handler(action: KeyAction) -> (e: ShortcutEffect)
    ensures
        e == (match action {
            KeyAction::NoAction | KeyAction::Filtred => ShortcutEffect::Nothing,
            KeyAction::Quit => ShortcutEffect::Quit,
            KeyAction::VtSwitch(vt) => ShortcutEffect::Backend(BackendRequest::ChangeVT(vt)),
            _ => ShortcutEffect::Unsupported(action),
        }),
{
    match action {
        KeyAction::NoAction | KeyAction::Filtred => ShortcutEffect::Nothing,
        KeyAction::Quit => ShortcutEffect::Quit,
        KeyAction::VtSwitch(vt) => ShortcutEffect::Backend(BackendRequest::ChangeVT(vt)),
        _ => ShortcutEffect::Unsupported(action),
    }
}

/// How a keyboard event ends: whether its action is to be handled as a shortcut, and whether
/// the event counts as the compositor's own (it then goes to the compositor's interface too).
/// A taken key and a key without action are the compositor's; after a shortcut, the event is
/// the compositor's only while the keyboard has a focus.
pub fn keyboard_event_outcome(action: KeyAction, keyboard_focused: bool) -> (r: (bool, bool))
    ensures
        r == (match action {
            KeyAction::Filtred | KeyAction::NoAction => (false, true),
            _ => (true, keyboard_focused),
        }),
{
    match action {
        KeyAction::Filtred => (false, true),
        KeyAction::NoAction => (false, true),
        _ => (true, keyboard_focused),
    }
}

} // verus!
