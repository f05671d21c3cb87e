//! What a machine says of a device that was added to it.

use vstd::prelude::*;
use crate::error::VmError;

verus! {

/// A device on the machine's PCI bus.
#[derive(Debug, PartialEq, Eq)]
pub struct PciDeviceInfo {
    /// The name of the device.
    pub id: String,
    /// Where it sits: segment, bus, device and function, as they are printed.
    pub bdf: String,
}

/// The JSON text, in bytes, of a structure with two text fields.
pub uninterp spec fn json_of_two_fields(
    key0: Seq<char>,
    value0: Seq<char>,
    key1: Seq<char>,
    value1: Seq<char>,
) -> Seq<u8>;

/// The struct serialisation of `serde_json::Serializer` (`serialize_struct`,
/// two calls of `serialize_field`, `end`) into a byte vector. The bytes are a
/// function of the two keys and the two values: the structure's name does not
/// show in them. It succeeds, since its only errors are those of the writer,
/// and a byte vector takes all that is written to it.
#[verifier::external_body]
fn json_struct(
    name: &'static str,
    key0: &'static str,
    value0: &str,
    key1: &'static str,
    value1: &str,
) -> (r: Result<Vec<u8>, String>)
    ensures
        r is Ok,
        r->Ok_0@ == json_of_two_fields(key0@, value0@, key1@, value1@),
{
    let mut bytes = Vec::new();
    let mut writer = serde_json::Serializer::new(&mut bytes);
    let text = |e: serde_json::Error| e.to_string();
    let mut state = serde::Serializer::serialize_struct(&mut writer, name, 2).map_err(text)?;
    serde::ser::SerializeStruct::serialize_field(&mut state, key0, value0).map_err(text)?;
    serde::ser::SerializeStruct::serialize_field(&mut state, key1, value1).map_err(text)?;
    serde::ser::SerializeStruct::end(state).map_err(text)?;
    Ok(bytes)
}

/// The JSON text, in bytes, of a device: its `id`, and after it its `bdf`.
pub open spec fn json_of_device(info: PciDeviceInfo) -> Seq<u8> {
    json_of_two_fields("id"@, info.id@, "bdf"@, info.bdf@)
}

impl PciDeviceInfo {
    /// The JSON text of this device, in bytes.
    pub fn to_json(&self) -> (r: Result<Vec<u8>, String>)
        ensures
            r matches Ok(bytes) && bytes@ == json_of_device(*self),
    {
        json_struct("PciDeviceInfo", "id", self.id.as_str(), "bdf", self.bdf.as_str())
    }
}

/// What a request that was encoded in JSON answers: the bytes, or the error
/// of the encoding.
pub fn encoded_reply(encoded: Result<Vec<u8>, String>) -> (r: Result<Option<Vec<u8>>, VmError>)
    ensures
        r == (match encoded {
            Ok(bytes) => Ok::<Option<Vec<u8>>, VmError>(Some(bytes)),
            Err(e) => Err(VmError::SerializeJson(e)),
        }),
{
    match encoded {
        Ok(bytes) => Ok(Some(bytes)),
        Err(e) => Err(VmError::SerializeJson(e)),
    }
}

} // verus!
