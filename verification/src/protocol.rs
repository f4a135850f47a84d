//! Constants of the Rynk protocol that both ends agree on.

use vstd::prelude::*;

verus! {

/// Largest single GATT write or notification on the Rynk characteristics.
pub open spec fn ble_chunk_size() -> nat {
    244
}

/// Rynk GATT service.
pub open spec fn service_uuid() -> u128 {
    0x10900067_537f_4f0a_9b55_929e271f61ab
}

/// Characteristic on which the keyboard notifies the host.
pub open spec fn input_char_uuid() -> u128 {
    0x80f9319b_0c74_43a5_9738_c59d6dda3db9
}

/// Characteristic to which the host writes.
pub open spec fn output_char_uuid() -> u128 {
    0x19802524_6f90_4346_93c2_63dbc509ab55
}

/// Marker that the firmware puts into its USB serial number.
pub open spec fn serial_magic() -> Seq<char> {
    "rynk:"@
}

/// Reads `rmk_types::protocol::rynk::RYNK_BLE_CHUNK_SIZE`. Trusted: the
/// constant is 244.
#[verifier::external_body]
pub(crate) fn rynk_ble_chunk_size() -> (size: usize)
    ensures
        size == ble_chunk_size(),
{
    rmk_types::protocol::rynk::RYNK_BLE_CHUNK_SIZE
}

/// Reads `rmk_types::protocol::rynk::RYNK_SERVICE_UUID`. Trusted: the constant
/// is 10900067-537f-4f0a-9b55-929e271f61ab as a 128-bit number.
#[verifier::external_body]
pub(crate) fn rynk_service_uuid() -> (uuid: u128)
    ensures
        uuid == service_uuid(),
{
    rmk_types::protocol::rynk::RYNK_SERVICE_UUID
}

/// Reads `rmk_types::protocol::rynk::RYNK_INPUT_CHAR_UUID`. Trusted: the
/// constant is 80f9319b-0c74-43a5-9738-c59d6dda3db9 as a 128-bit number.
#[verifier::external_body]
pub(crate) fn rynk_input_char_uuid() -> (uuid: u128)
    ensures
        uuid == input_char_uuid(),
{
    rmk_types::protocol::rynk::RYNK_INPUT_CHAR_UUID
}

/// Reads `rmk_types::protocol::rynk::RYNK_OUTPUT_CHAR_UUID`. Trusted: the
/// constant is 19802524-6f90-4346-93c2-63dbc509ab55 as a 128-bit number.
#[verifier::external_body]
pub(crate) fn rynk_output_char_uuid() -> (uuid: u128)
    ensures
        uuid == output_char_uuid(),
{
    rmk_types::protocol::rynk::RYNK_OUTPUT_CHAR_UUID
}

/// Reads `rmk_types::protocol::rynk::RYNK_MAGIC`. Trusted: the constant is the
/// text `rynk:`.
#[verifier::external_body]
pub(crate) fn rynk_serial_magic() -> (magic: &'static str)
    ensures
        magic@ == serial_magic(),
{
    rmk_types::protocol::rynk::RYNK_MAGIC
}

} // verus!
