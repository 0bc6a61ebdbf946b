//! The 27-byte frame of the sensor: its layout, the header checks and the
//! decoding of the payload.
//!
//! | offset | length | content                                   |
//! |--------|--------|-------------------------------------------|
//! | 0      | 2      | start sequence `19 00`                    |
//! | 2      | 6      | device identifier `D0 CF 5E 82 93 7B`     |
//! | 8      | 1      | payload length, always `12` (18 bytes)    |
//! | 9      | 18     | payload: identifiers and readings         |
//!
//! Sixteen-bit readings are little-endian.

use crate::message::DeviceMessage;
use crate::wire::{le_high, le_low, le_u16, lemma_le_u16_round_trip, read_u16_le};
use vstd::prelude::*;
use vstd::slice::slice_subrange;

verus! {

/// Length of a frame in bytes.
pub const FRAME_LEN: usize = 27;

/// The two bytes every frame starts with.
pub const START_SEQ: [u8; 2] = [0x19, 0x00];

/// Identifier of the one device this bridge listens to.
pub const DEVICE_ID: [u8; 6] = [0xD0, 0xCF, 0x5E, 0x82, 0x93, 0x7B];

/// The payload length that byte 8 must announce.
pub const PAYLOAD_LEN: u8 = 0x12;

/// Why the byte stream itself gave no frame.
#[derive(Clone, Copy, Debug, PartialEq, Eq, Structural)]
pub enum StreamError {
    /// A read returned no bytes: the stream has ended.
    EndOfStream,
    /// The underlying read failed.
    ReadFailed,
}

/// Why no message was decoded.
#[derive(Clone, Copy, Debug, PartialEq, Eq, Structural)]
pub enum DecodeError {
    /// The stream ended or failed before a whole frame had arrived.
    Io(StreamError),
    /// Bytes 0 and 1 are not the start sequence.
    UnrecognisedStartSequence,
    /// Bytes 2 to 7 are not the expected device identifier.
    UnexpectedDeviceId,
    /// Byte 8 is not `0x12`.
    InvalidPayloadLength,
}

/// The text that describes `error`.
pub open spec fn description_of(error: DecodeError) -> Seq<char> {
    match error {
        DecodeError::Io(StreamError::EndOfStream) => "Unexpected end of stream"@,
        DecodeError::Io(StreamError::ReadFailed) => "Read from stream failed"@,
        DecodeError::UnrecognisedStartSequence => "Unrecognised start sequence"@,
        DecodeError::UnexpectedDeviceId => "Unexpected MAC address"@,
        DecodeError::InvalidPayloadLength => "Length of payload must be 0x12 (18 bytes)"@,
    }
}

impl DecodeError {
    /// A short description of the error.
    pub fn description(&self) -> (text: &'static str)
        ensures
            text@ == description_of(*self),
    {
        match self {
            DecodeError::Io(StreamError::EndOfStream) => "Unexpected end of stream",
            DecodeError::Io(StreamError::ReadFailed) => "Read from stream failed",
            DecodeError::UnrecognisedStartSequence => "Unrecognised start sequence",
            DecodeError::UnexpectedDeviceId => "Unexpected MAC address",
            DecodeError::InvalidPayloadLength => "Length of payload must be 0x12 (18 bytes)",
        }
    }
}

/// `frame` begins with the start sequence.
pub open spec fn has_start_sequence(frame: Seq<u8>) -> bool {
    frame.subrange(0, 2) =~= START_SEQ@
}

/// Bytes 2 to 7 of `frame` are the device identifier.
pub open spec fn has_device_id(frame: Seq<u8>) -> bool {
    frame.subrange(2, 8) =~= DEVICE_ID@
}

/// Byte 8 of `frame` announces the expected payload length.
pub open spec fn has_payload_length(frame: Seq<u8>) -> bool {
    frame[8] == PAYLOAD_LEN
}

/// `frame` has the right length and passes all three header checks.
pub open spec fn well_formed(frame: Seq<u8>) -> bool {
    &&& frame.len() == FRAME_LEN
    &&& has_start_sequence(frame)
    &&& has_device_id(frame)
    &&& has_payload_length(frame)
}

/// The message that the payload of `frame`, bytes 9 to 26, stands for.
pub open spec fn payload_message(frame: Seq<u8>) -> DeviceMessage {
    DeviceMessage {
        batt_pid1: frame[9],
        batt_value: frame[10],
        temp_pid2: frame[11],
        temp_value: frame[12],
        vib_pid3: frame[13],
        vib_x: le_u16(frame[14], frame[15]),
        vib_y: le_u16(frame[16], frame[17]),
        vib_z: le_u16(frame[18], frame[19]),
        msg_num_pid5: frame[20],
        msg_num_value: le_u16(frame[21], frame[22]),
        version_pid11: frame[23],
        version_value: frame[24],
        rssi_pid6: frame[25],
        rssi_value: frame[26],
    }
}

/// What decoding makes of a frame of 27 bytes: the header checks in their
/// order, the first failure deciding the error, then the payload.
pub open spec fn parse_frame(frame: Seq<u8>) -> Result<DeviceMessage, DecodeError>
    recommends
        frame.len() == FRAME_LEN,
{
    if !has_start_sequence(frame) {
        Err(DecodeError::UnrecognisedStartSequence)
    } else if !has_device_id(frame) {
        Err(DecodeError::UnexpectedDeviceId)
    } else if !has_payload_length(frame) {
        Err(DecodeError::InvalidPayloadLength)
    } else {
        Ok(payload_message(frame))
    }
}

/// The frame that carries `message`: the fixed header, then the identifiers
/// and readings in their order, 16-bit readings low byte first.
pub open spec fn frame_bytes(message: DeviceMessage) -> Seq<u8> {
    START_SEQ@ + DEVICE_ID@ + seq![
        PAYLOAD_LEN,
        message.batt_pid1,
        message.batt_value,
        message.temp_pid2,
        message.temp_value,
        message.vib_pid3,
        le_low(message.vib_x),
        le_high(message.vib_x),
        le_low(message.vib_y),
        le_high(message.vib_y),
        le_low(message.vib_z),
        le_high(message.vib_z),
        message.msg_num_pid5,
        le_low(message.msg_num_value),
        le_high(message.msg_num_value),
        message.version_pid11,
        message.version_value,
        message.rssi_pid6,
        message.rssi_value,
    ]
}

/// Whether `data` holds `pattern` from `offset` on.
fn matches_at(data: &[u8], offset: usize, pattern: &[u8]) -> (r: bool)
    requires
        offset + pattern@.len() <= data@.len(),
    ensures
        r == (data@.subrange(offset as int, offset + pattern@.len()) =~= pattern@),
{
    let len = pattern.len();
    let end = data.len();
    let mut i: usize = 0;
    while i < len
        invariant
            i <= len,
            len == pattern@.len(),
            end == data@.len(),
            offset + len <= end,
            forall|j: int| 0 <= j < i ==> data@[offset + j] == pattern@[j],
        decreases len - i,
    {
        if data[offset + i] != pattern[i] {
            assert(data@.subrange(offset as int, offset + len)[i as int] != pattern@[i as int]);
            return false;
        }
        i += 1;
    }
    true
}

/// Reads the little-endian 16-bit field that starts at `offset`.
fn field_u16(frame: &[u8; FRAME_LEN], offset: usize) -> (r: Result<u16, DecodeError>)
    requires
        offset + 2 <= FRAME_LEN,
    ensures
        r matches Ok(value) && value == le_u16(frame@[offset as int], frame@[offset + 1]),
{
    let field = slice_subrange(frame.as_slice(), offset, offset + 2);
    match read_u16_le(field) {
        Ok(value) => Ok(value),
        // Not taken: the field has its two bytes.
        Err(_) => Err(DecodeError::Io(StreamError::EndOfStream)),
    }
}

/// Checks the header of `frame` and decodes its payload.
///
/// The checks run in the order start sequence, device identifier, payload
/// length, and the first that fails decides the error. A frame that passes all
/// three always decodes.
pub fn decode_frame(frame: &[u8; FRAME_LEN]) -> (r: Result<DeviceMessage, DecodeError>)
    ensures
        r == parse_frame(frame@),
        (r matches Err(error) && error is UnrecognisedStartSequence) <==> !has_start_sequence(
            frame@,
        ),
        (r matches Err(error) && error is UnexpectedDeviceId) <==> has_start_sequence(frame@)
            && !has_device_id(frame@),
        (r matches Err(error) && error is InvalidPayloadLength) <==> has_start_sequence(frame@)
            && has_device_id(frame@) && !has_payload_length(frame@),
        r is Ok <==> well_formed(frame@),
        r matches Ok(message) ==> message == payload_message(frame@),
{
    if !matches_at(frame, 0, &START_SEQ) {
        return Err(DecodeError::UnrecognisedStartSequence);
    }
    if !matches_at(frame, 2, &DEVICE_ID) {
        return Err(DecodeError::UnexpectedDeviceId);
    }
    if frame[8] != PAYLOAD_LEN {
        return Err(DecodeError::InvalidPayloadLength);
    }
    let message = DeviceMessage {
        batt_pid1: frame[9],
        batt_value: frame[10],
        temp_pid2: frame[11],
        temp_value: frame[12],
        vib_pid3: frame[13],
        vib_x: field_u16(frame, 14)?,
        vib_y: field_u16(frame, 16)?,
        vib_z: field_u16(frame, 18)?,
        msg_num_pid5: frame[20],
        msg_num_value: field_u16(frame, 21)?,
        version_pid11: frame[23],
        version_value: frame[24],
        rssi_pid6: frame[25],
        rssi_value: frame[26],
    };
    Ok(message)
}

/// Builds the frame that carries `message`.
pub fn encode_frame(message: &DeviceMessage) -> (frame: [u8; FRAME_LEN])
    ensures
        frame@ == frame_bytes(*message),
        parse_frame(frame@) matches Ok(decoded) && decoded == *message,
{
    let frame: [u8; FRAME_LEN] = [
        START_SEQ[0],
        START_SEQ[1],
        DEVICE_ID[0],
        DEVICE_ID[1],
        DEVICE_ID[2],
        DEVICE_ID[3],
        DEVICE_ID[4],
        DEVICE_ID[5],
        PAYLOAD_LEN,
        message.batt_pid1,
        message.batt_value,
        message.temp_pid2,
        message.temp_value,
        message.vib_pid3,
        (message.vib_x % 256) as u8,
        (message.vib_x / 256) as u8,
        (message.vib_y % 256) as u8,
        (message.vib_y / 256) as u8,
        (message.vib_z % 256) as u8,
        (message.vib_z / 256) as u8,
        message.msg_num_pid5,
        (message.msg_num_value % 256) as u8,
        (message.msg_num_value / 256) as u8,
        message.version_pid11,
        message.version_value,
        message.rssi_pid6,
        message.rssi_value,
    ];
    proof {
        assert(frame@ =~= frame_bytes(*message));
        lemma_decode_of_encode(*message);
    }
    frame
}

/// Decoding undoes encoding: the frame built for a message is well formed and
/// decodes to that message, whatever the message holds.
pub proof fn lemma_decode_of_encode(message: DeviceMessage)
    ensures
        well_formed(frame_bytes(message)),
        parse_frame(frame_bytes(message)) matches Ok(decoded) && decoded == message,
{
    let frame = frame_bytes(message);
    assert(frame.len() == 27);
    assert(frame.subrange(0, 2) =~= START_SEQ@);
    assert(frame.subrange(2, 8) =~= DEVICE_ID@);
    lemma_le_u16_round_trip(message.vib_x, 0, 0);
    lemma_le_u16_round_trip(message.vib_y, 0, 0);
    lemma_le_u16_round_trip(message.vib_z, 0, 0);
    lemma_le_u16_round_trip(message.msg_num_value, 0, 0);
}

/// Encoding undoes decoding: a frame of 27 bytes that decodes to a message is,
/// byte for byte, the frame built for that message.
pub proof fn lemma_encode_of_decode(frame: Seq<u8>)
    requires
        frame.len() == FRAME_LEN,
        parse_frame(frame) is Ok,
    ensures
        frame_bytes(parse_frame(frame)->Ok_0) == frame,
{
    let message = parse_frame(frame)->Ok_0;
    assert(frame.subrange(0, 2)[0] == frame[0]);
    assert(frame.subrange(0, 2)[1] == frame[1]);
    assert forall|i: int| 2 <= i < 8 implies frame[i] == DEVICE_ID@[i - 2] by {
        assert(frame.subrange(2, 8)[i - 2] == frame[i]);
    }
    lemma_le_u16_round_trip(0, frame[14], frame[15]);
    lemma_le_u16_round_trip(0, frame[16], frame[17]);
    lemma_le_u16_round_trip(0, frame[18], frame[19]);
    lemma_le_u16_round_trip(0, frame[21], frame[22]);
    assert(frame_bytes(message) =~= frame);
}

/// Decoding is injective: two frames of 27 bytes that decode to the same
/// message are the same frame.
pub proof fn lemma_decode_injective(first: Seq<u8>, second: Seq<u8>)
    requires
        first.len() == FRAME_LEN,
        second.len() == FRAME_LEN,
        parse_frame(first) is Ok,
        parse_frame(first) == parse_frame(second),
    ensures
        first == second,
{
    lemma_encode_of_decode(first);
    lemma_encode_of_decode(second);
}

/// A well-formed frame with byte 0 or byte 1 changed is refused for its start
/// sequence.
pub proof fn lemma_corrupt_start_sequence(frame: Seq<u8>, index: int, byte: u8)
    requires
        well_formed(frame),
        0 <= index < 2,
        byte != frame[index],
    ensures
        parse_frame(frame.update(index, byte)) matches Err(error) && error
            is UnrecognisedStartSequence,
{
    let corrupt = frame.update(index, byte);
    assert(frame.subrange(0, 2)[index] == frame[index]);
    assert(corrupt.subrange(0, 2)[index] == byte);
}

/// A well-formed frame with one of the bytes 2 to 7 changed is refused for its
/// device identifier.
pub proof fn lemma_corrupt_device_id(frame: Seq<u8>, index: int, byte: u8)
    requires
        well_formed(frame),
        2 <= index < 8,
        byte != frame[index],
    ensures
        parse_frame(frame.update(index, byte)) matches Err(error) && error is UnexpectedDeviceId,
{
    let corrupt = frame.update(index, byte);
    assert(corrupt.subrange(0, 2) =~= frame.subrange(0, 2));
    assert(frame.subrange(2, 8)[index - 2] == frame[index]);
    assert(corrupt.subrange(2, 8)[index - 2] == byte);
}

/// A well-formed frame whose byte 8 is set to anything but `0x12` is refused
/// for its payload length.
pub proof fn lemma_wrong_payload_length(frame: Seq<u8>, byte: u8)
    requires
        well_formed(frame),
        byte != PAYLOAD_LEN,
    ensures
        parse_frame(frame.update(8, byte)) matches Err(error) && error is InvalidPayloadLength,
{
    let corrupt = frame.update(8, byte);
    assert(corrupt.subrange(0, 2) =~= frame.subrange(0, 2));
    assert(corrupt.subrange(2, 8) =~= frame.subrange(2, 8));
}

} // verus!
