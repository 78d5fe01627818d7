use crate::read_into::{decode_spec, read_into, ReadIntoError};
use vstd::prelude::*;

verus! {

/// The kind of a hardware-monitor sensor, from the prefix of its file name.
#[derive(Debug)]
pub enum SensorType {
    Current,
    Fan,
    Temperature,
    Voltage,
    Other(String),
}

/// Whether two texts are the same characters.
fn same_text(a: &str, b: &str) -> (r: bool)
    ensures
        r == (a@ == b@),
{
    a.to_owned() == b.to_owned()
}

impl SensorType {
    /// The kind that a file-name prefix names.
    pub open spec fn of_prefix(s: Seq<char>) -> Option<SensorType> {
        if s == "cur"@ {
            Some(SensorType::Current)
        } else if s == "fan"@ {
            Some(SensorType::Fan)
        } else if s == "temp"@ {
            Some(SensorType::Temperature)
        } else if s == "in"@ {
            Some(SensorType::Voltage)
        } else {
            None
        }
    }

    /// Reads a file-name prefix: `cur`, `fan`, `temp` and `in` name the known
    /// kinds; any other prefix is kept as it is.
    pub fn from_str(s: &str) -> (r: SensorType)
        ensures
            Self::of_prefix(s@) matches Some(k) ==> r == k,
            Self::of_prefix(s@) is None ==> (r matches SensorType::Other(o) && o@ == s@),
    {
        if same_text(s, "cur") {
            SensorType::Current
        } else if same_text(s, "fan") {
            SensorType::Fan
        } else if same_text(s, "temp") {
            SensorType::Temperature
        } else if same_text(s, "in") {
            SensorType::Voltage
        } else {
            SensorType::Other(s.to_owned())
        }
    }

    /// The display unit of the kind.
    pub open spec fn unit_spec(&self) -> Seq<char> {
        match self {
            SensorType::Current => " A"@,
            SensorType::Fan => " RPM"@,
            SensorType::Temperature => "°C"@,
            SensorType::Voltage => "v"@,
            SensorType::Other(_) => ""@,
        }
    }

    pub fn unit(&self) -> (r: &str)
        ensures
            r@ == self.unit_spec(),
    {
        match self {
            SensorType::Current => " A",
            SensorType::Fan => " RPM",
            SensorType::Temperature => "°C",
            SensorType::Voltage => "v",
            SensorType::Other(_) => "",
        }
    }

    /// Whether the kernel reports this kind in whole units (fans, in RPM);
    /// every other kind is reported in thousandths of its unit.
    pub open spec fn whole_units_spec(&self) -> bool {
        self is Fan
    }

    pub fn whole_units(&self) -> (r: bool)
        ensures
            r == self.whole_units_spec(),
    {
        match self {
            SensorType::Fan => true,
            _ => false,
        }
    }
}

/// A raw kernel value as a sample in thousandths of the unit.
pub open spec fn scaled(raw: int, whole_units: bool) -> int {
    if whole_units {
        raw * 1000
    } else {
        raw
    }
}

/// Decodes one read of an endpoint into a sample in thousandths of the unit:
/// the decoded integer as it is, or times 1000 where the endpoint reports
/// whole units. It fails exactly where `read_into` does, with its error.
pub fn decode_sample(read: Result<Vec<u8>, String>, path: &str, whole_units: bool) -> (r: Result<i64, ReadIntoError>)
    ensures
        read is Ok ==> match decode_spec(read->Ok_0@) {
            Some(v) => r == Ok::<i64, ReadIntoError>(scaled(v, whole_units) as i64),
            None => r is Err,
        },
        read is Err ==> r is Err,
        r matches Err(e) ==> e.path@ == path@,
{
    match read_into(read, path) {
        Ok(v) => {
            if whole_units {
                Ok(v as i64 * 1000)
            } else {
                Ok(v as i64)
            }
        },
        Err(e) => Err(e),
    }
}

} // verus!
