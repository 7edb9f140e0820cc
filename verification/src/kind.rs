//! The two classifications the server uses: what a group controls and what a
//! device is.

use vstd::prelude::*;
use vstd::std_specs::convert::FromSpecImpl;

use crate::text::{parse_decimal, word_of_text};

verus! {

/// What a group controls. The wire carries it as a small number.
#[derive(Clone, Copy, Debug, PartialEq, Eq, Structural)]
pub enum Type {
    Unknown,
    Light,
    Shadow,
    Heating,
    Audio,
    Video,
    Joker,
    Cooling,
    Ventilation,
    Window,
    AirRecirculation,
    TemperatureControl,
    ApartmentVentilation,
}

/// The type tag that a wire code names, if it names one.
pub open spec fn type_of_code(code: u8) -> Option<Type> {
    if code == 0 {
        Some(Type::Unknown)
    } else if code == 1 {
        Some(Type::Light)
    } else if code == 2 {
        Some(Type::Shadow)
    } else if code == 3 {
        Some(Type::Heating)
    } else if code == 4 {
        Some(Type::Audio)
    } else if code == 5 {
        Some(Type::Video)
    } else if code == 8 {
        Some(Type::Joker)
    } else if code == 9 {
        Some(Type::Cooling)
    } else if code == 10 {
        Some(Type::Ventilation)
    } else if code == 11 {
        Some(Type::Window)
    } else if code == 12 {
        Some(Type::AirRecirculation)
    } else if code == 48 {
        Some(Type::TemperatureControl)
    } else if code == 64 {
        Some(Type::ApartmentVentilation)
    } else {
        None
    }
}

/// The type tag that the decimal text of a code stands for.
pub open spec fn type_of_text(text: Seq<char>) -> Option<Type> {
    match word_of_text(text) {
        Some(n) => if n <= 255 {
            match type_of_code(n as u8) {
                Some(t) => Some(t),
                None => Some(Type::Unknown),
            }
        } else {
            None
        },
        None => None,
    }
}

/// The wire code of a type tag.
pub open spec fn code_of_type(typ: Type) -> u8 {
    match typ {
        Type::Unknown => 0,
        Type::Light => 1,
        Type::Shadow => 2,
        Type::Heating => 3,
        Type::Audio => 4,
        Type::Video => 5,
        Type::Joker => 8,
        Type::Cooling => 9,
        Type::Ventilation => 10,
        Type::Window => 11,
        Type::AirRecirculation => 12,
        Type::TemperatureControl => 48,
        Type::ApartmentVentilation => 64,
    }
}

impl Type {
    /// The number the server uses for this type.
    pub fn code(&self) -> (r: u8)
        ensures
            r == code_of_type(*self),
    {
        match self {
            Type::Unknown => 0,
            Type::Light => 1,
            Type::Shadow => 2,
            Type::Heating => 3,
            Type::Audio => 4,
            Type::Video => 5,
            Type::Joker => 8,
            Type::Cooling => 9,
            Type::Ventilation => 10,
            Type::Window => 11,
            Type::AirRecirculation => 12,
            Type::TemperatureControl => 48,
            Type::ApartmentVentilation => 64,
        }
    }

    /// Strict reading of a wire code: a number that names no type is refused.
    pub fn from_code(code: u8) -> (r: Option<Type>)
        ensures
            r == type_of_code(code),
    {
        match code {
            0 => Some(Type::Unknown),
            1 => Some(Type::Light),
            2 => Some(Type::Shadow),
            3 => Some(Type::Heating),
            4 => Some(Type::Audio),
            5 => Some(Type::Video),
            8 => Some(Type::Joker),
            9 => Some(Type::Cooling),
            10 => Some(Type::Ventilation),
            11 => Some(Type::Window),
            12 => Some(Type::AirRecirculation),
            48 => Some(Type::TemperatureControl),
            64 => Some(Type::ApartmentVentilation),
            _ => None,
        }
    }

    /// Reads a type tag from the decimal text of its code. A code that
    /// names no type stands for `Unknown`; a text that is no number of one
    /// byte is refused.
    pub fn from_str(s: &str) -> (r: Option<Type>)
        ensures
            r == type_of_text(s@),
    {
        match parse_decimal(s) {
            Some(n) => if n <= 255 {
                Some(Type::from(n as u8))
            } else {
                None
            },
            None => None,
        }
    }

    /// The name of the type, as it is shown to a user.
    pub fn name(&self) -> (r: String)
        ensures
            r@ == name_of_type(*self),
    {
        match self {
            Type::Unknown => "Unknown".to_string(),
            Type::Light => "Light".to_string(),
            Type::Shadow => "Shadow".to_string(),
            Type::Heating => "Heating".to_string(),
            Type::Audio => "Audio".to_string(),
            Type::Video => "Video".to_string(),
            Type::Joker => "Joker".to_string(),
            Type::Cooling => "Cooling".to_string(),
            Type::Ventilation => "Ventilation".to_string(),
            Type::Window => "Window".to_string(),
            Type::AirRecirculation => "AirRecirculation".to_string(),
            Type::TemperatureControl => "TemperatureControl".to_string(),
            Type::ApartmentVentilation => "ApartmentVentilation".to_string(),
        }
    }
}

/// The display name of a type tag.
pub open spec fn name_of_type(typ: Type) -> Seq<char> {
    match typ {
        Type::Unknown => "Unknown"@,
        Type::Light => "Light"@,
        Type::Shadow => "Shadow"@,
        Type::Heating => "Heating"@,
        Type::Audio => "Audio"@,
        Type::Video => "Video"@,
        Type::Joker => "Joker"@,
        Type::Cooling => "Cooling"@,
        Type::Ventilation => "Ventilation"@,
        Type::Window => "Window"@,
        Type::AirRecirculation => "AirRecirculation"@,
        Type::TemperatureControl => "TemperatureControl"@,
        Type::ApartmentVentilation => "ApartmentVentilation"@,
    }
}

/// Lenient reading of a wire code: a number that names no type is `Unknown`.
impl From<u8> for Type {
    fn from(u: u8) -> (r: Type) {
        match Type::from_code(u) {
            Some(t) => t,
            None => Type::Unknown,
        }
    }
}

impl FromSpecImpl<u8> for Type {
    open spec fn obeys_from_spec() -> bool {
        true
    }

    open spec fn from_spec(u: u8) -> Type {
        match type_of_code(u) {
            Some(t) => t,
            None => Type::Unknown,
        }
    }
}

/// Every type tag is found again from its own code.
pub proof fn type_code_round_trip(typ: Type)
    ensures
        type_of_code(code_of_type(typ)) == Some(typ),
{
}

/// What kind of hardware a device is, derived from its output mode.
#[derive(Clone, Copy, Debug, PartialEq, Eq, Structural)]
pub enum DeviceType {
    Switch,
    Light,
    Tv,
    Shadow,
    Unknown,
}

/// The classification that an output mode stands for.
pub open spec fn device_type_of_mode(mode: usize) -> DeviceType {
    if mode == 0 {
        DeviceType::Switch
    } else if mode == 16 || mode == 22 || mode == 35 {
        DeviceType::Light
    } else if mode == 33 {
        DeviceType::Shadow
    } else if mode == 39 {
        DeviceType::Tv
    } else {
        DeviceType::Unknown
    }
}

impl From<usize> for DeviceType {
    fn from(num: usize) -> (r: DeviceType) {
        match num {
            0 => DeviceType::Switch,
            16 | 22 | 35 => DeviceType::Light,
            33 => DeviceType::Shadow,
            39 => DeviceType::Tv,
            _ => DeviceType::Unknown,
        }
    }
}

impl FromSpecImpl<usize> for DeviceType {
    open spec fn obeys_from_spec() -> bool {
        true
    }

    open spec fn from_spec(num: usize) -> DeviceType {
        device_type_of_mode(num)
    }
}

impl DeviceType {
    /// True for the two classes of device that take part in groups.
    pub open spec fn groupable(self) -> bool {
        self == DeviceType::Light || self == DeviceType::Shadow
    }

    /// Tells whether a device of this class can be a member of a group.
    pub fn is_groupable(&self) -> (r: bool)
        ensures
            r == self.groupable(),
    {
        match self {
            DeviceType::Light => true,
            DeviceType::Shadow => true,
            _ => false,
        }
    }
}

} // verus!
