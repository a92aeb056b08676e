use vstd::prelude::*;
use crate::keys::{KeyInjection, ModifierKey, Platform, injection_of, resolve_main_key};
use crate::parser::{KeyParseError, ParseFailure, parse_expr, parse_key_string};

verus! {

/// The shortest time, in milliseconds, that a main key is held down.
pub const MIN_HOLD_MS: u64 = 50;

/// One step of a keystroke, in the order the injection facility performs them.
#[derive(Clone, Copy, Debug, PartialEq, Eq, Structural)]
pub enum KeyAction {
    PressModifier(ModifierKey),
    PressMain(KeyInjection),
    /// Keep the main key down for this many milliseconds.
    Hold(u64),
    ReleaseMain(KeyInjection),
    ReleaseModifier(ModifierKey),
}

/// Why a keystroke cannot be performed.
#[derive(Debug)]
pub enum KeystrokeError {
    /// The key expression is malformed.
    Parse(KeyParseError),
    /// The main key has no position-based key code.
    UnsupportedCharacter(char),
}

/// The hold time for a requested duration, raised to the minimum.
pub open spec fn hold_ms(duration_ms: i64) -> u64 {
    if duration_ms < MIN_HOLD_MS as i64 {
        MIN_HOLD_MS
    } else {
        duration_ms as u64
    }
}

/// Press the modifiers in written order, press, hold and release the main
/// key, then release the modifiers in reverse order.
pub open spec fn press_plan(mods: Seq<ModifierKey>, main: KeyInjection, hold: u64) -> Seq<KeyAction> {
    Seq::new(mods.len(), |i: int| KeyAction::PressModifier(mods[i])) + seq![
        KeyAction::PressMain(main),
        KeyAction::Hold(hold),
        KeyAction::ReleaseMain(main),
    ] + Seq::new(mods.len(), |i: int| KeyAction::ReleaseModifier(mods[mods.len() - 1 - i]))
}

/// What a key expression held for `duration_ms` turns into on `platform`.
pub open spec fn keystroke_outcome(key: Seq<char>, duration_ms: i64, platform: Platform) -> Result<
    Seq<KeyAction>,
    Option<ParseFailure>,
> {
    match parse_expr(key, platform) {
        Err(f) => Err(Some(f)),
        Ok((mods, c)) => match injection_of(c, platform) {
            None => Err(None),
            Some(k) => Ok(press_plan(mods, k, hold_ms(duration_ms))),
        },
    }
}

pub fn hold_millis(duration_ms: i64) -> (r: u64)
    ensures
        r == hold_ms(duration_ms),
        r >= MIN_HOLD_MS,
        r >= duration_ms,
{
    if duration_ms < MIN_HOLD_MS as i64 {
        MIN_HOLD_MS
    } else {
        duration_ms as u64
    }
}

/// The actions that perform the key expression `key`, held for
/// `duration_ms` milliseconds. A malformed expression or, on macOS, a main
/// key without a key code yields an error and no action at all.
pub fn keystroke_plan(key: &str, duration_ms: i64, platform: Platform) -> (r: Result<
    Vec<KeyAction>,
    KeystrokeError,
>)
    ensures
        match parse_expr(key@, platform) {
            Err(f) => r matches Err(KeystrokeError::Parse(e)) && e@ == f,
            Ok((mods, c)) => match injection_of(c, platform) {
                None => r matches Err(KeystrokeError::UnsupportedCharacter(u)) && u == c,
                Some(k) => r matches Ok(v) && v@ == press_plan(mods, k, hold_ms(duration_ms)),
            },
        },
{
    let parsed = match parse_key_string(key, platform) {
        Ok(p) => p,
        Err(e) => return Err(KeystrokeError::Parse(e)),
    };
    let ch = match parsed.main_key {
        Some(c) => c,
        None => return Ok(Vec::new()),
    };
    let main = match resolve_main_key(ch, platform) {
        Ok(k) => k,
        Err(c) => return Err(KeystrokeError::UnsupportedCharacter(c)),
    };
    let mods = &parsed.modifiers;
    let n = mods.len();
    let mut plan: Vec<KeyAction> = Vec::new();
    let mut i: usize = 0;
    while i < n
        invariant
            n == mods@.len(),
            i <= n,
            plan@ == Seq::new(i as nat, |j: int| KeyAction::PressModifier(mods@[j])),
        decreases n - i,
    {
        plan.push(KeyAction::PressModifier(mods[i]));
        proof {
            assert(plan@ =~= Seq::new((i + 1) as nat, |j: int| KeyAction::PressModifier(mods@[j])));
        }
        i = i + 1;
    }
    let ghost presses = plan@;
    plan.push(KeyAction::PressMain(main));
    plan.push(KeyAction::Hold(hold_millis(duration_ms)));
    plan.push(KeyAction::ReleaseMain(main));
    let ghost middle = plan@;
    let mut j: usize = 0;
    while j < n
        invariant
            n == mods@.len(),
            j <= n,
            plan@ == middle + Seq::new(
                j as nat,
                |q: int| KeyAction::ReleaseModifier(mods@[mods@.len() - 1 - q]),
            ),
        decreases n - j,
    {
        plan.push(KeyAction::ReleaseModifier(mods[n - 1 - j]));
        proof {
            assert(plan@ =~= middle + Seq::new(
                (j + 1) as nat,
                |q: int| KeyAction::ReleaseModifier(mods@[mods@.len() - 1 - q]),
            ));
        }
        j = j + 1;
    }
    proof {
        assert(middle =~= presses + seq![
            KeyAction::PressMain(main),
            KeyAction::Hold(hold_ms(duration_ms)),
            KeyAction::ReleaseMain(main),
        ]);
        assert(plan@ =~= press_plan(mods@, main, hold_ms(duration_ms)));
    }
    Ok(plan)
}

/// A keystroke that does not fail holds its main key for at least the
/// minimum, and for at least the requested duration.
pub proof fn lemma_hold_floor(key: Seq<char>, duration_ms: i64, platform: Platform)
    requires
        keystroke_outcome(key, duration_ms, platform) is Ok,
    ensures
        exists|i: int|
            0 <= i < keystroke_outcome(key, duration_ms, platform)->Ok_0.len() && #[trigger] keystroke_outcome(
                key,
                duration_ms,
                platform,
            )->Ok_0[i] == KeyAction::Hold(hold_ms(duration_ms)),
        hold_ms(duration_ms) >= MIN_HOLD_MS,
        hold_ms(duration_ms) >= duration_ms,
{
    let (mods, c) = parse_expr(key, platform)->Ok_0;
    let plan = keystroke_outcome(key, duration_ms, platform)->Ok_0;
    assert(plan[mods.len() as int + 1] == KeyAction::Hold(hold_ms(duration_ms)));
}

} // verus!
