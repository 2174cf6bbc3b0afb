use vstd::prelude::*;

verus! {

/// Scan code the keyboard driver receives for a key the robot may tap.
pub open spec fn spec_scan_code(ch: char) -> Option<u16> {
    if ch == 'W' {
        Some(17u16)
    } else if ch == 'A' {
        Some(30u16)
    } else if ch == 'S' {
        Some(31u16)
    } else if ch == 'D' {
        Some(32u16)
    } else if ch == '\n' {
        Some(28u16)
    } else {
        None
    }
}

/// The keys the robot knows how to tap: W, A, S, D and Enter.
pub open spec fn is_tap_key(ch: char) -> bool {
    spec_scan_code(ch) is Some
}

/// Returns whether `ch` is one of the keys that can be tapped.
pub fn tap_key(ch: char) -> (b: bool)
    ensures
        b == is_tap_key(ch),
{
    ch == 'W' || ch == 'A' || ch == 'S' || ch == 'D' || ch == '\n'
}

/// The scan code sent for a tappable key.
pub fn scan_code(ch: char) -> (code: u16)
    requires
        is_tap_key(ch),
    ensures
        spec_scan_code(ch) == Some(code),
{
    if ch == 'W' {
        17
    } else if ch == 'A' {
        30
    } else if ch == 'S' {
        31
    } else if ch == 'D' {
        32
    } else {
        28
    }
}

/// One keyboard event handed to the driver: a key going down or coming up.
#[derive(Clone, Copy, Debug, PartialEq, Eq, Structural)]
pub struct KeyStroke {
    pub scan_code: u16,
    pub key_up: bool,
}

/// A step of a single tap: send an event to the driver, or hold for some
/// milliseconds.
#[derive(Clone, Copy, Debug, PartialEq, Eq, Structural)]
pub enum TapStep {
    Send(KeyStroke),
    Wait(u64),
}

/// How long a tapped key is held down, in milliseconds.
pub const TAP_HOLD_MS: u64 = 50;

/// A tap is the key going down, a short hold, and the same key coming up.
pub open spec fn spec_tap_steps(code: u16) -> Seq<TapStep> {
    seq![
        TapStep::Send(KeyStroke { scan_code: code, key_up: false }),
        TapStep::Wait(TAP_HOLD_MS),
        TapStep::Send(KeyStroke { scan_code: code, key_up: true }),
    ]
}

/// The events that tap `ch` once.
pub fn tap_steps(ch: char) -> (steps: Vec<TapStep>)
    requires
        is_tap_key(ch),
    ensures
        spec_tap_steps(spec_scan_code(ch)->0) == steps@,
{
    let code = scan_code(ch);
    let mut steps: Vec<TapStep> = Vec::new();
    steps.push(TapStep::Send(KeyStroke { scan_code: code, key_up: false }));
    steps.push(TapStep::Wait(TAP_HOLD_MS));
    steps.push(TapStep::Send(KeyStroke { scan_code: code, key_up: true }));
    steps
}

/// Tapping a key sends exactly two events, with a 50 ms hold between them:
/// first the key's scan code going down, then the same scan code coming up.
pub proof fn lemma_tap_is_down_then_up(ch: char)
    requires
        is_tap_key(ch),
    ensures
        spec_tap_steps(spec_scan_code(ch)->0).len() == 3,
        spec_tap_steps(spec_scan_code(ch)->0)[0] == TapStep::Send(
            KeyStroke { scan_code: spec_scan_code(ch)->0, key_up: false },
        ),
        spec_tap_steps(spec_scan_code(ch)->0)[1] == TapStep::Wait(50),
        spec_tap_steps(spec_scan_code(ch)->0)[2] == TapStep::Send(
            KeyStroke { scan_code: spec_scan_code(ch)->0, key_up: true },
        ),
{
}

/// Each tappable key has its own scan code: W 17, A 30, S 31, D 32, Enter 28.
pub proof fn lemma_scan_codes()
    ensures
        spec_scan_code('W') == Some(17u16),
        spec_scan_code('A') == Some(30u16),
        spec_scan_code('S') == Some(31u16),
        spec_scan_code('D') == Some(32u16),
        spec_scan_code('\n') == Some(28u16),
        forall|a: char, b: char|
            is_tap_key(a) && is_tap_key(b) && a != b ==> spec_scan_code(a) != spec_scan_code(b),
{
}

} // verus!
