//! How the shortcut dialog turns a key press into a new keyboard shortcut.
use vstd::prelude::*;
use crate::text::chars_of;

verus! {

/// The Shift modifier bit of a GDK modifier state.
pub const SHIFT_MASK: u32 = 1;
/// The Control modifier bit of a GDK modifier state.
pub const CONTROL_MASK: u32 = 4;
/// The Alt modifier bit of a GDK modifier state.
pub const ALT_MASK: u32 = 8;

/// The GDK key value of BackSpace.
pub const KEY_BACKSPACE: u32 = 0xff08;
/// The GDK key value of Escape.
pub const KEY_ESCAPE: u32 = 0xff1b;
/// The GDK key value of F1.
pub const KEY_F1: u32 = 0xffbe;
/// The GDK key value of F35.
pub const KEY_F35: u32 = 0xffe0;

/// What a key press does to the shortcut dialog.
#[derive(Debug, Clone, Copy, PartialEq, Eq, Structural)]
pub enum KeyPressOutcome {
    /// Escape without modifiers: the dialog answers "cancel" and the key
    /// press is not consumed.
    Cancel,
    /// BackSpace without modifiers: the shortcut is cleared, the dialog
    /// answers "apply" and the key press is consumed.
    ClearAndApply,
    /// Anything else: the key press is taken as the candidate shortcut and
    /// consumed.
    Capture,
}

/// What a key press does to the shortcut dialog.
pub fn key_press_outcome(modifier_state: u32, keyval: u32) -> (r: KeyPressOutcome)
    ensures
        modifier_state == 0 && keyval == KEY_ESCAPE ==> r == KeyPressOutcome::Cancel,
        modifier_state == 0 && keyval == KEY_BACKSPACE ==> r == KeyPressOutcome::ClearAndApply,
        !(modifier_state == 0 && (keyval == KEY_ESCAPE || keyval == KEY_BACKSPACE)) ==> r == KeyPressOutcome::Capture,
{
    if modifier_state == 0 {
        if keyval == KEY_ESCAPE {
            return KeyPressOutcome::Cancel;
        }
        if keyval == KEY_BACKSPACE {
            return KeyPressOutcome::ClearAndApply;
        }
    }
    KeyPressOutcome::Capture
}

/// The modifiers of a key press that a shortcut can hold: Control, Shift and
/// Alt.
pub fn trigger_modifiers(modifier_state: u32) -> (r: u32)
    ensures
        r == modifier_state & (CONTROL_MASK | SHIFT_MASK | ALT_MASK),
{
    modifier_state & (CONTROL_MASK | SHIFT_MASK | ALT_MASK)
}

/// Whether `s` ends with `suffix`.
pub open spec fn ends_with(s: Seq<char>, suffix: Seq<char>) -> bool {
    s.len() >= suffix.len() && s.subrange(s.len() - suffix.len(), s.len() as int) == suffix
}

/// Whether the name of a key ends in `_` and then `side`, as the names of the
/// left and right modifier keys do.
fn name_ends_with_side(name: &str, side: char) -> (r: bool)
    ensures
        r == ends_with(name@, seq!['_', side]),
{
    let v = chars_of(name);
    let n: usize = v.len();
    if n >= 2 && v[n - 2] == '_' && v[n - 1] == side {
        proof { assert(v@.subrange(n - 2, n as int) =~= seq!['_', side]); }
        true
    } else {
        proof {
            if n >= 2 {
                let t = v@.subrange(n - 2, n as int);
                assert(t[0] == v@[n - 2]);
                assert(t[1] == v@[n - 1]);
            }
        }
        false
    }
}

/// Whether a captured key press makes an acceptable shortcut: its
/// accelerator text parsed, the key is not a left or right modifier key, and
/// it is a function key or holds a modifier that the key itself did not
/// consume.
pub open spec fn accelerator_valid(keyval: u32, keyval_name: Option<Seq<char>>, parsed_modifiers: Option<u32>, consumed: u32) -> bool {
    &&& parsed_modifiers is Some
    &&& !(keyval_name matches Some(n) && ends_with(n, seq!['_', 'L']))
    &&& !(keyval_name matches Some(n) && ends_with(n, seq!['_', 'R']))
    &&& ((KEY_F1 <= keyval <= KEY_F35) || (parsed_modifiers->Some_0 & !consumed) != 0)
}

/// Whether a captured key press makes an acceptable shortcut. `parsed_modifiers`
/// is what parsing the key press's accelerator text gave, `None` when it did
/// not parse; `consumed` are the modifiers the key itself used up.
pub fn accelerator_is_valid(keyval: u32, keyval_name: Option<&str>, parsed_modifiers: Option<u32>, consumed: u32) -> (r: bool)
    ensures
        r == accelerator_valid(keyval, keyval_name.deep_view(), parsed_modifiers, consumed),
        (parsed_modifiers matches Some(m) && (m & !consumed) != 0 && !(keyval_name.deep_view() matches Some(n) && (
        ends_with(n, seq!['_', 'L']) || ends_with(n, seq!['_', 'R'])))) ==> r,
{
    let mods = match parsed_modifiers {
        Some(m) => m,
        None => return false,
    };
    let (left, right) = match keyval_name {
        Some(name) => (name_ends_with_side(name, 'L'), name_ends_with_side(name, 'R')),
        None => (false, false),
    };
    !left && !right && ((keyval >= KEY_F1 && keyval <= KEY_F35) || (mods & !consumed) != 0)
}

/// The shortcut that the dialog offers to apply after a captured key press:
/// the accelerator when it is acceptable and no other action uses it,
/// nothing otherwise.
pub fn captured_accelerator(accel: String, is_valid: bool, in_use: bool) -> (r: Option<String>)
    ensures
        (is_valid && !in_use) ==> (r matches Some(a) && a@ == accel@),
        !(is_valid && !in_use) ==> r is None,
{
    if is_valid && !in_use {
        Some(accel)
    } else {
        None
    }
}

/// Whether the dialog's "apply" button can be pressed.
pub fn can_apply(accel: &Option<String>) -> (r: bool)
    ensures
        r == accel is Some,
{
    accel.is_some()
}

/// The shortcut to add after the dialog answered: only an "apply" answer
/// with a shortcut adds one.
pub fn accelerator_to_add(applied: bool, accel: Option<String>) -> (r: Option<String>)
    ensures
        applied && accel is Some ==> r == accel,
        !(applied && accel is Some) ==> r is None,
{
    if applied {
        accel
    } else {
        None
    }
}


/// A key press that parsed, is no left or right modifier key, and keeps a
/// modifier once those the key itself consumed are removed, is an acceptable
/// shortcut, whatever the key; so is a function key on its own, and nothing
/// else is. A press that did not parse, or a left or right modifier key, is
/// never acceptable.
pub proof fn lemma_leftover_modifier_makes_valid(keyval: u32, keyval_name: Option<Seq<char>>, m: u32, consumed: u32)
    ensures
        !(keyval_name matches Some(n) && (ends_with(n, seq!['_', 'L']) || ends_with(n, seq!['_', 'R']))) && (m
            & !consumed) != 0 ==> accelerator_valid(keyval, keyval_name, Some(m), consumed),
        !(keyval_name matches Some(n) && (ends_with(n, seq!['_', 'L']) || ends_with(n, seq!['_', 'R']))) && KEY_F1
            <= keyval <= KEY_F35 ==> accelerator_valid(keyval, keyval_name, Some(m), consumed),
        accelerator_valid(keyval, keyval_name, Some(m), consumed) ==> (KEY_F1 <= keyval <= KEY_F35 || (m & !consumed)
            != 0),
        !accelerator_valid(keyval, keyval_name, None, consumed),
        !accelerator_valid(keyval, Some(seq!['S', 'h', 'i', 'f', 't', '_', 'L']), Some(m), consumed),
        !accelerator_valid(keyval, Some(seq!['C', 'o', 'n', 't', 'r', 'o', 'l', '_', 'R']), Some(m), consumed),
{
    assert(seq!['S', 'h', 'i', 'f', 't', '_', 'L'].subrange(5, 7) =~= seq!['_', 'L']);
    assert(seq!['C', 'o', 'n', 't', 'r', 'o', 'l', '_', 'R'].subrange(7, 9) =~= seq!['_', 'R']);
}

/// Ctrl+Shift+T, where the key consumed Shift, keeps Control and is
/// accepted, as is any press that keeps Control after its consumed modifiers
/// are removed.
pub proof fn lemma_control_survives_consumed_shift(keyval: u32, keyval_name: Option<Seq<char>>, m: u32)
    requires
        m & CONTROL_MASK != 0,
        !(keyval_name matches Some(n) && (ends_with(n, seq!['_', 'L']) || ends_with(n, seq!['_', 'R']))),
    ensures
        accelerator_valid(keyval, keyval_name, Some(m), SHIFT_MASK),
{
    assert((m & 4u32) != 0 ==> (m & !1u32) != 0) by (bit_vector);
}

} // verus!
