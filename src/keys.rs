use vstd::prelude::*;

verus! {

/// The platform family, which decides how keys are injected.
#[derive(Clone, Copy, Debug, PartialEq, Eq, Structural)]
pub enum Platform {
    /// Position-based key codes are injected; `ctrl` means Command.
    MacOs,
    /// Characters are injected as Unicode code points.
    Other,
}

/// A modifier key held while the main key is pressed.
#[derive(Clone, Copy, Debug, PartialEq, Eq, Structural)]
pub enum ModifierKey {
    Shift,
    Control,
    Alt,
    Meta,
}

/// How the main key of an expression reaches the input-injection facility.
#[derive(Clone, Copy, Debug, PartialEq, Eq, Structural)]
pub enum KeyInjection {
    /// A physical key code, independent of the keyboard layout.
    RawCode(u16),
    /// A Unicode character.
    Unicode(char),
}

/// ASCII lower-casing of one character; every other character is kept.
pub open spec fn ascii_lower(c: char) -> char {
    if 'A' <= c && c <= 'Z' {
        ((c as u8) + 32u8) as char
    } else {
        c
    }
}

pub open spec fn is_ascii_alnum(c: char) -> bool {
    ('a' <= c && c <= 'z') || ('A' <= c && c <= 'Z') || ('0' <= c && c <= '9')
}

/// The position-based key code of a lower-case ASCII letter or a digit.
pub open spec fn macos_keycode(c: char) -> Option<u16> {
    match c {
        'a' => Some(0x00u16),
        'b' => Some(0x0Bu16),
        'c' => Some(0x08u16),
        'd' => Some(0x02u16),
        'e' => Some(0x0Eu16),
        'f' => Some(0x03u16),
        'g' => Some(0x05u16),
        'h' => Some(0x04u16),
        'i' => Some(0x22u16),
        'j' => Some(0x26u16),
        'k' => Some(0x28u16),
        'l' => Some(0x25u16),
        'm' => Some(0x2Eu16),
        'n' => Some(0x2Du16),
        'o' => Some(0x1Fu16),
        'p' => Some(0x23u16),
        'q' => Some(0x0Cu16),
        'r' => Some(0x0Fu16),
        's' => Some(0x01u16),
        't' => Some(0x11u16),
        'u' => Some(0x20u16),
        'v' => Some(0x09u16),
        'w' => Some(0x0Du16),
        'x' => Some(0x07u16),
        'y' => Some(0x10u16),
        'z' => Some(0x06u16),
        '0' => Some(0x1Du16),
        '1' => Some(0x12u16),
        '2' => Some(0x13u16),
        '3' => Some(0x14u16),
        '4' => Some(0x15u16),
        '5' => Some(0x17u16),
        '6' => Some(0x16u16),
        '7' => Some(0x1Au16),
        '8' => Some(0x1Cu16),
        '9' => Some(0x19u16),
        _ => None,
    }
}

pub fn to_ascii_lower(c: char) -> (r: char)
    ensures
        r == ascii_lower(c),
{
    if 'A' <= c && c <= 'Z' {
        ((c as u8) + 32u8) as char
    } else {
        c
    }
}

/// The position-based key code of an ASCII letter (either case) or digit.
pub fn char_to_macos_keycode(ch: char) -> (r: Option<u16>)
    ensures
        r == macos_keycode(ascii_lower(ch)),
{
    match to_ascii_lower(ch) {
        'a' => Some(0x00),
        'b' => Some(0x0B),
        'c' => Some(0x08),
        'd' => Some(0x02),
        'e' => Some(0x0E),
        'f' => Some(0x03),
        'g' => Some(0x05),
        'h' => Some(0x04),
        'i' => Some(0x22),
        'j' => Some(0x26),
        'k' => Some(0x28),
        'l' => Some(0x25),
        'm' => Some(0x2E),
        'n' => Some(0x2D),
        'o' => Some(0x1F),
        'p' => Some(0x23),
        'q' => Some(0x0C),
        'r' => Some(0x0F),
        's' => Some(0x01),
        't' => Some(0x11),
        'u' => Some(0x20),
        'v' => Some(0x09),
        'w' => Some(0x0D),
        'x' => Some(0x07),
        'y' => Some(0x10),
        'z' => Some(0x06),
        '0' => Some(0x1D),
        '1' => Some(0x12),
        '2' => Some(0x13),
        '3' => Some(0x14),
        '4' => Some(0x15),
        '5' => Some(0x17),
        '6' => Some(0x16),
        '7' => Some(0x1A),
        '8' => Some(0x1C),
        '9' => Some(0x19),
        _ => None,
    }
}

/// How `ch` is injected on `platform`, or `None` where it cannot be.
pub open spec fn injection_of(ch: char, platform: Platform) -> Option<KeyInjection> {
    match platform {
        Platform::MacOs => match macos_keycode(ascii_lower(ch)) {
            Some(code) => Some(KeyInjection::RawCode(code)),
            None => None,
        },
        Platform::Other => Some(KeyInjection::Unicode(ch)),
    }
}

/// Resolves the main key of an expression for `platform`; on macOS a
/// character without a position-based code is returned as the error.
pub fn resolve_main_key(ch: char, platform: Platform) -> (r: Result<KeyInjection, char>)
    ensures
        r matches Ok(k) ==> injection_of(ch, platform) == Some(k),
        r matches Err(c) ==> c == ch && injection_of(ch, platform) is None,
{
    match platform {
        Platform::MacOs => match char_to_macos_keycode(ch) {
            Some(code) => Ok(KeyInjection::RawCode(code)),
            None => Err(ch),
        },
        Platform::Other => Ok(KeyInjection::Unicode(ch)),
    }
}

/// On macOS exactly the ASCII letters and digits have a key code, and a
/// letter gets the same code in either case.
pub proof fn lemma_macos_resolves_letters_and_digits(ch: char)
    ensures
        (injection_of(ch, Platform::MacOs) is Some) <==> is_ascii_alnum(ch),
        injection_of(ch, Platform::MacOs) == injection_of(ascii_lower(ch), Platform::MacOs),
        injection_of(ch, Platform::Other) == Some(KeyInjection::Unicode(ch)),
{
}

/// Different letters or digits never share a key code; the two cases of a
/// letter do.
pub proof fn lemma_macos_keycodes_distinct(a: char, b: char)
    requires
        is_ascii_alnum(a),
        is_ascii_alnum(b),
        ascii_lower(a) != ascii_lower(b),
    ensures
        macos_keycode(ascii_lower(a)) != macos_keycode(ascii_lower(b)),
{
}

} // verus!
