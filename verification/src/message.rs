//! The decoded form of one sensor report.

use vstd::prelude::*;

verus! {

/// One measurement report of the sensor.
///
/// Every reading travels with a point identifier, the register address under
/// which it is forwarded. The three vibration axes share one identifier, that
/// of the first of three consecutive registers. Neither identifiers nor
/// readings are interpreted or range-checked.
#[derive(Clone, Copy, Debug, PartialEq, Eq, Structural)]
pub struct DeviceMessage {
    /// Point identifier of the battery reading.
    pub batt_pid1: u8,
    /// Battery reading.
    pub batt_value: u8,
    /// Point identifier of the temperature reading.
    pub temp_pid2: u8,
    /// Temperature reading.
    pub temp_value: u8,
    /// Point identifier of the first of the three vibration registers.
    pub vib_pid3: u8,
    /// Vibration along the x axis.
    pub vib_x: u16,
    /// Vibration along the y axis.
    pub vib_y: u16,
    /// Vibration along the z axis.
    pub vib_z: u16,
    /// Point identifier of the message counter.
    pub msg_num_pid5: u8,
    /// Message counter as assigned by the device.
    pub msg_num_value: u16,
    /// Point identifier of the firmware version.
    pub version_pid11: u8,
    /// Firmware version.
    pub version_value: u8,
    /// Point identifier of the signal strength.
    pub rssi_pid6: u8,
    /// Received signal strength.
    pub rssi_value: u8,
}

} // verus!
