use vstd::prelude::*;
use vstd::string::StringExecFns;

verus! {

/// The stable, discriminable error kinds this core reports.
///
/// Input-validation failures (`InvalidMac*`) and lookup failures
/// (`DeviceNotFound`, `NotFound`) are recoverable user errors; the storage and
/// network kinds name environment failures that the surrounding program maps
/// onto this taxonomy.
#[derive(Clone, Copy, Debug, PartialEq, Eq, Structural)]
pub enum WolError {
    /// The MAC text is not exactly 17 characters long.
    InvalidMacFormat,
    /// The MAC text contains neither `:` nor `-`.
    InvalidMacDelimiter,
    /// A group is not a two-digit hexadecimal byte.
    InvalidMacByte,
    /// Splitting on the delimiter does not yield exactly 6 groups.
    InvalidMacLength,
    /// The argument is neither a literal MAC nor a registered name.
    DeviceNotFound,
    /// The name to remove is not in the registry.
    NotFound,
    /// The durable registry could not be read.
    StorageUnreadable,
    /// The durable registry was read but could not be parsed.
    StorageCorrupt,
    /// The registry could not be serialized.
    SerializationFailed,
    /// The serialized registry could not be written back.
    StorageWriteFailed,
    /// The magic packet could not be sent.
    SendFailed,
}

impl WolError {
    /// The user-facing message for this error kind.
    pub open spec fn message_spec(self) -> Seq<char> {
        match self {
            WolError::InvalidMacFormat => "Invalid MAC address"@,
            WolError::InvalidMacDelimiter => "Invalid MAC address delimiter"@,
            WolError::InvalidMacByte => "MAC address must be 6 bytes"@,
            WolError::InvalidMacLength => "MAC address must be 6 bytes"@,
            WolError::DeviceNotFound => "Device not found"@,
            WolError::NotFound => "Device not found"@,
            WolError::StorageUnreadable => "Unable to read config file, should be in the same directory as the executable"@,
            WolError::StorageCorrupt => "Unable to parse config file"@,
            WolError::SerializationFailed => "Unable to serialize config"@,
            WolError::StorageWriteFailed => "Unable to write config file"@,
            WolError::SendFailed => "Unable to send magic packet"@,
        }
    }

    /// Renders the error as text; the front-end owns any further phrasing.
    pub fn message(&self) -> (r: String)
        ensures
            r@ == self.message_spec(),
    {
        match self {
            WolError::InvalidMacFormat => String::from_str("Invalid MAC address"),
            WolError::InvalidMacDelimiter => String::from_str("Invalid MAC address delimiter"),
            WolError::InvalidMacByte => String::from_str("MAC address must be 6 bytes"),
            WolError::InvalidMacLength => String::from_str("MAC address must be 6 bytes"),
            WolError::DeviceNotFound => String::from_str("Device not found"),
            WolError::NotFound => String::from_str("Device not found"),
            WolError::StorageUnreadable => String::from_str("Unable to read config file, should be in the same directory as the executable"),
            WolError::StorageCorrupt => String::from_str("Unable to parse config file"),
            WolError::SerializationFailed => String::from_str("Unable to serialize config"),
            WolError::StorageWriteFailed => String::from_str("Unable to write config file"),
            WolError::SendFailed => String::from_str("Unable to send magic packet"),
        }
    }
}

} // verus!
