//! What the service commands are used for.
use vstd::prelude::*;
use crate::netmd::base::{spec_plain, Link, NetMDError};
use crate::netmd::factory::factory_interface::{
    display_text,
    spec_factory_command,
    spec_get_device_code,
    DisplayMode,
    NetMDFactoryInterface,
    DISPLAY_MODE_REQUEST,
    DISPLAY_STRING_REQUEST,
};
use crate::netmd::interface::{text_in, InterfaceError};
use crate::netmd::query_utils::Value;
use crate::netmd::titles::{decimal, spec_decimal};
use crate::netmd::utils::{chars_of, text_of};

verus! {

/// The base address of the peripherals that patches are written through.
#[derive(Clone, Copy, Debug, PartialEq, Eq, Structural)]
pub enum PatchPeripheralBase {
    NetMD,
    HiMD,
}

impl PatchPeripheralBase {
    /// The address.
    pub open spec fn spec_address(self) -> u32 {
        match self {
            PatchPeripheralBase::NetMD => 0x03802000,
            PatchPeripheralBase::HiMD => 0x03804000,
        }
    }

    /// The address.
    pub fn address(self) -> (a: u32)
        ensures
            a == self.spec_address(),
    {
        match self {
            PatchPeripheralBase::NetMD => 0x03802000,
            PatchPeripheralBase::HiMD => 0x03804000,
        }
    }
}

/// The letter of a chip in the code of a device, for the chips that have
/// one.
pub open spec fn spec_chip_letter(chip_type: u8) -> Option<&'static str> {
    match chip_type {
        0x20 => Some("R"),
        0x21 => Some("S"),
        0x23 => Some("Hp"),
        0x22 => Some("Hn"),
        0x24 => Some("Hr"),
        0x25 => Some("Hx"),
        _ => None,
    }
}

/// The letter of a chip in the code of a device.
pub fn chip_letter(chip_type: u8) -> (letter: Option<&'static str>)
    ensures
        letter == spec_chip_letter(chip_type),
{
    match chip_type {
        0x20 => Some("R"),
        0x21 => Some("S"),
        0x23 => Some("Hp"),
        0x22 => Some("Hn"),
        0x24 => Some("Hr"),
        0x25 => Some("Hx"),
        _ => None,
    }
}

/// The showing of a text on the display: the display is switched to the
/// text of its user, then the text is set.
pub open spec fn spec_display_string(link: Link, text: Seq<char>, blink: bool) -> (
    Link,
    Result<(), InterfaceError>,
) {
    let (switched, r) = spec_factory_command(
        link,
        DISPLAY_MODE_REQUEST@,
        seq![Value::Number(DisplayMode::Override.spec_code() as i64)],
    );
    match r {
        Err(e) => (switched, Err(e)),
        Ok(_) => match display_text(text) {
            Err(e) => (switched, Err(e)),
            Ok(bytes) => spec_factory_command(
                switched,
                DISPLAY_STRING_REQUEST@,
                seq![
                    Value::Number(0),
                    Value::Number(
                        if blink {
                            1
                        } else {
                            0
                        },
                    ),
                    Value::Array(bytes),
                ],
            ),
        },
    }
}

/// Shows a text on the display.
pub fn display_string(interface: &mut NetMDFactoryInterface<'_>, text: String, blink: bool) -> (r:
    Result<(), InterfaceError>)
    requires
        old(interface).device.wf(),
    ensures
        final(interface).device.wf(),
        final(interface).device.spec_model() == old(interface).device.spec_model(),
        (final(interface).device@, r) == spec_display_string(old(interface).device@, text@, blink),
{
    match interface.set_display_mode(DisplayMode::Override) {
        Err(e) => {
            return Err(e);
        },
        Ok(_) => {},
    }
    interface.set_display_override_string(text, blink)
}

/// The digit of a number below sixteen, in upper case.
pub open spec fn spec_hex_upper(d: u8) -> char {
    if d < 10 {
        (d + 0x30) as char
    } else {
        (d + 0x37) as char
    }
}

/// The digit of a number below sixteen, in upper case.
pub fn hex_upper(d: u8) -> (c: char)
    requires
        d < 16,
    ensures
        c == spec_hex_upper(d),
{
    match d {
        0 => '0',
        1 => '1',
        2 => '2',
        3 => '3',
        4 => '4',
        5 => '5',
        6 => '6',
        7 => '7',
        8 => '8',
        9 => '9',
        10 => 'A',
        11 => 'B',
        12 => 'C',
        13 => 'D',
        14 => 'E',
        _ => 'F',
    }
}

/// How a chip is written in the code of a device: by its letter, or by its
/// number where it has none.
pub open spec fn spec_chip_text(chip_type: u8) -> Seq<char> {
    match spec_chip_letter(chip_type) {
        Some(letter) => letter@,
        None => spec_decimal(chip_type as nat),
    }
}

/// The code of a device as text: the chip, the first digit of the version,
/// a dot, its second digit, and the revision in two hexadecimal digits. A
/// version of one digit has no such text.
pub open spec fn spec_descriptive_code(code: (u8, u8, u8, u8)) -> Result<Seq<char>, InterfaceError> {
    let (chip_type, hardware, version, revision) = code;
    if version < 10 {
        Err(InterfaceError::CommunicationError(NetMDError::InvalidResult))
    } else {
        Ok(
            spec_chip_text(chip_type) + seq![
                spec_decimal(version as nat)[0],
                '.',
                spec_decimal(version as nat)[1],
                spec_hex_upper(revision / 16),
                spec_hex_upper(revision % 16),
            ],
        )
    }
}

/// The code of a device as text.
pub fn descriptive_code(code: (u8, u8, u8, u8)) -> (r: Result<String, InterfaceError>)
    ensures
        text_in(r) == spec_descriptive_code(code),
{
    let (chip_type, _hardware, version, revision) = code;
    if version < 10 {
        return Err(InterfaceError::CommunicationError(NetMDError::InvalidResult));
    }
    let mut text: Vec<char> = match chip_letter(chip_type) {
        Some(letter) => chars_of(letter),
        None => decimal(chip_type as u32),
    };
    let digits = decimal(version as u32);
    proof {
        reveal_with_fuel(spec_decimal, 3);
    }
    let ghost chip = text@;
    text.push(digits[0]);
    text.push('.');
    text.push(digits[1]);
    text.push(hex_upper(revision / 16));
    text.push(hex_upper(revision % 16));
    assert(text@ == chip + seq![
        spec_decimal(version as nat)[0],
        '.',
        spec_decimal(version as nat)[1],
        spec_hex_upper(revision / 16),
        spec_hex_upper(revision % 16),
    ]);
    Ok(text_of(&text))
}

/// The asking for the code of a device, as text.
pub open spec fn spec_get_descriptive_device_code(link: Link) -> (
    Link,
    Result<Seq<char>, InterfaceError>,
) {
    let (after, code) = spec_get_device_code(link);
    (
        after,
        match code {
            Err(e) => Err(e),
            Ok(code) => spec_descriptive_code(code),
        },
    )
}

/// Asks the device for its code and gives it as text.
pub fn get_descriptive_device_code(interface: &mut NetMDFactoryInterface<'_>) -> (r: Result<
    String,
    InterfaceError,
>)
    requires
        old(interface).device.wf(),
    ensures
        final(interface).device.wf(),
        final(interface).device.spec_model() == old(interface).device.spec_model(),
        (final(interface).device@, text_in(r)) == spec_get_descriptive_device_code(
            old(interface).device@,
        ),
{
    match interface.get_device_code() {
        Err(e) => Err(e),
        Ok(code) => descriptive_code(code),
    }
}

} // verus!
