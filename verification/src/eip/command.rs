//! The commands of the encapsulation, its status codes, and the data that each
//! command puts behind the header.

use vstd::prelude::*;
use vstd::slice::slice_subrange;
use crate::cip::types::{CipUdint, CipUint};
use crate::codec::{get_u16_le, get_u32_le, put_u16_le, put_u32_le, CipCodec};
use crate::codec::{le_bytes_u16, le_bytes_u32, le_u16_at, le_u32_at};
use crate::codec::{lemma_u16_le_bytes_round_trip, lemma_u16_le_read_back, lemma_u16_le_round_trip};
use crate::codec::{lemma_u16_le_read_at, lemma_u32_le_read_at};
use crate::codec::{lemma_u32_le_bytes_round_trip, lemma_u32_le_round_trip};
use crate::eip::constants::{PROTOCOL_VERSION, REGISTER_DATA_SIZE, RR_DATA_SIZE, RR_ITEM_COUNT};
use crate::eip::description::{lemma_descriptor_round_trip, provided_length};
use crate::eip::description::{CommonPacketDescriptor, CommonPacketItemId};
use crate::error::{CodecError, Layer};

verus! {

/// The command of an encapsulation frame.
#[derive(Clone, Copy, Debug, PartialEq, Eq, Structural)]
pub enum EnIpCommand {
    NOP,
    ListServices,
    ListIdentity,
    ListInterfaces,
    RegisterSession,
    UnRegisterSession,
    SendRrData,
    SendUnitData,
    IndicateStatus,
    Cancel,
}

impl View for EnIpCommand {
    type V = EnIpCommand;

    open spec fn view(&self) -> EnIpCommand {
        *self
    }
}

impl EnIpCommand {
    /// The number that stands for `self` on the wire.
    pub open spec fn code(self) -> u16 {
        match self {
            EnIpCommand::NOP => 0x0000,
            EnIpCommand::ListServices => 0x0004,
            EnIpCommand::ListIdentity => 0x0063,
            EnIpCommand::ListInterfaces => 0x0064,
            EnIpCommand::RegisterSession => 0x0065,
            EnIpCommand::UnRegisterSession => 0x0066,
            EnIpCommand::SendRrData => 0x006F,
            EnIpCommand::SendUnitData => 0x0070,
            EnIpCommand::IndicateStatus => 0x0072,
            EnIpCommand::Cancel => 0x0073,
        }
    }

    /// The command that `code` stands for, if it stands for one.
    pub open spec fn of_code(code: u16) -> Option<EnIpCommand> {
        if code == 0x0000 {
            Some(EnIpCommand::NOP)
        } else if code == 0x0004 {
            Some(EnIpCommand::ListServices)
        } else if code == 0x0063 {
            Some(EnIpCommand::ListIdentity)
        } else if code == 0x0064 {
            Some(EnIpCommand::ListInterfaces)
        } else if code == 0x0065 {
            Some(EnIpCommand::RegisterSession)
        } else if code == 0x0066 {
            Some(EnIpCommand::UnRegisterSession)
        } else if code == 0x006F {
            Some(EnIpCommand::SendRrData)
        } else if code == 0x0070 {
            Some(EnIpCommand::SendUnitData)
        } else if code == 0x0072 {
            Some(EnIpCommand::IndicateStatus)
        } else if code == 0x0073 {
            Some(EnIpCommand::Cancel)
        } else {
            None
        }
    }

    /// The number that stands for `self` on the wire.
    pub fn to_code(self) -> (code: u16)
        ensures
            code == self.code(),
            Self::of_code(code) == Some(self),
    {
        match self {
            EnIpCommand::NOP => 0x0000,
            EnIpCommand::ListServices => 0x0004,
            EnIpCommand::ListIdentity => 0x0063,
            EnIpCommand::ListInterfaces => 0x0064,
            EnIpCommand::RegisterSession => 0x0065,
            EnIpCommand::UnRegisterSession => 0x0066,
            EnIpCommand::SendRrData => 0x006F,
            EnIpCommand::SendUnitData => 0x0070,
            EnIpCommand::IndicateStatus => 0x0072,
            EnIpCommand::Cancel => 0x0073,
        }
    }

    /// The command that `code` stands for, if it stands for one.
    pub fn from_code(code: u16) -> (command: Option<EnIpCommand>)
        ensures
            command == Self::of_code(code),
            command matches Some(known) ==> known.code() == code,
    {
        match code {
            0x0000 => Some(EnIpCommand::NOP),
            0x0004 => Some(EnIpCommand::ListServices),
            0x0063 => Some(EnIpCommand::ListIdentity),
            0x0064 => Some(EnIpCommand::ListInterfaces),
            0x0065 => Some(EnIpCommand::RegisterSession),
            0x0066 => Some(EnIpCommand::UnRegisterSession),
            0x006F => Some(EnIpCommand::SendRrData),
            0x0070 => Some(EnIpCommand::SendUnitData),
            0x0072 => Some(EnIpCommand::IndicateStatus),
            0x0073 => Some(EnIpCommand::Cancel),
            _ => None,
        }
    }
}

/// A code and the command that it stands for name each other.
pub proof fn lemma_command_codes(command: EnIpCommand, code: u16)
    ensures
        EnIpCommand::of_code(command.code()) == Some(command),
        EnIpCommand::of_code(code) matches Some(known) ==> known.code() == code,
{
}

impl CipCodec for EnIpCommand {
    open spec fn encode(v: EnIpCommand) -> Seq<u8> {
        le_bytes_u16(v.code())
    }

    open spec fn decode(bytes: Seq<u8>) -> Result<(EnIpCommand, nat), CodecError> {
        if bytes.len() < 2 {
            Err(CodecError::short(Layer::Encapsulation))
        } else {
            match EnIpCommand::of_code(le_u16_at(bytes, 0)) {
                Some(command) => Ok((command, 2nat)),
                None => Err(CodecError::violation(Layer::Encapsulation)),
            }
        }
    }

    open spec fn canonical(v: EnIpCommand) -> bool {
        true
    }

    proof fn lemma_decode_sound(bytes: Seq<u8>) {
        if bytes.len() >= 2 {
            lemma_u16_le_bytes_round_trip(bytes[0], bytes[1]);
            assert(seq![bytes[0], bytes[1]] =~= bytes.take(2));
        }
    }

    proof fn lemma_round_trip(v: EnIpCommand) {
        lemma_u16_le_round_trip(v.code());
    }

    fn write(&self, out: &mut Vec<u8>) {
        put_u16_le(out, self.to_code());
    }

    fn read(bytes: &[u8]) -> (r: Result<(EnIpCommand, usize), CodecError>) {
        if bytes.len() < 2 {
            return Err(CodecError::short_read(Layer::Encapsulation));
        }
        match EnIpCommand::from_code(get_u16_le(bytes, 0)) {
            Some(command) => Ok((command, 2)),
            None => Err(CodecError::invariant_violation(Layer::Encapsulation)),
        }
    }
}

/// The status of an encapsulation frame.
#[derive(Clone, Copy, Debug, PartialEq, Eq, Structural)]
pub enum EncapsStatusCode {
    Success,
    UnsupportedCommand,
    InsufficientMemory,
    InvalidFormatOrData,
    InvalidSessionHandle,
    UnsupportedProtocolVersion,
}

impl View for EncapsStatusCode {
    type V = EncapsStatusCode;

    open spec fn view(&self) -> EncapsStatusCode {
        *self
    }
}

impl EncapsStatusCode {
    /// The number that stands for `self` on the wire.
    pub open spec fn code(self) -> u32 {
        match self {
            EncapsStatusCode::Success => 0x0000,
            EncapsStatusCode::UnsupportedCommand => 0x0001,
            EncapsStatusCode::InsufficientMemory => 0x0002,
            EncapsStatusCode::InvalidFormatOrData => 0x0003,
            EncapsStatusCode::InvalidSessionHandle => 0x0064,
            EncapsStatusCode::UnsupportedProtocolVersion => 0x0069,
        }
    }

    /// The status that `code` stands for, if it stands for one.
    pub open spec fn of_code(code: u32) -> Option<EncapsStatusCode> {
        if code == 0x0000 {
            Some(EncapsStatusCode::Success)
        } else if code == 0x0001 {
            Some(EncapsStatusCode::UnsupportedCommand)
        } else if code == 0x0002 {
            Some(EncapsStatusCode::InsufficientMemory)
        } else if code == 0x0003 {
            Some(EncapsStatusCode::InvalidFormatOrData)
        } else if code == 0x0064 {
            Some(EncapsStatusCode::InvalidSessionHandle)
        } else if code == 0x0069 {
            Some(EncapsStatusCode::UnsupportedProtocolVersion)
        } else {
            None
        }
    }

    /// The number that stands for `self` on the wire.
    pub fn to_code(self) -> (code: u32)
        ensures
            code == self.code(),
            Self::of_code(code) == Some(self),
    {
        match self {
            EncapsStatusCode::Success => 0x0000,
            EncapsStatusCode::UnsupportedCommand => 0x0001,
            EncapsStatusCode::InsufficientMemory => 0x0002,
            EncapsStatusCode::InvalidFormatOrData => 0x0003,
            EncapsStatusCode::InvalidSessionHandle => 0x0064,
            EncapsStatusCode::UnsupportedProtocolVersion => 0x0069,
        }
    }

    /// The status that `code` stands for, if it stands for one.
    pub fn from_code(code: u32) -> (status: Option<EncapsStatusCode>)
        ensures
            status == Self::of_code(code),
            status matches Some(known) ==> known.code() == code,
    {
        match code {
            0x0000 => Some(EncapsStatusCode::Success),
            0x0001 => Some(EncapsStatusCode::UnsupportedCommand),
            0x0002 => Some(EncapsStatusCode::InsufficientMemory),
            0x0003 => Some(EncapsStatusCode::InvalidFormatOrData),
            0x0064 => Some(EncapsStatusCode::InvalidSessionHandle),
            0x0069 => Some(EncapsStatusCode::UnsupportedProtocolVersion),
            _ => None,
        }
    }
}

/// A code and the status that it stands for name each other.
pub proof fn lemma_status_codes(status: EncapsStatusCode, code: u32)
    ensures
        EncapsStatusCode::of_code(status.code()) == Some(status),
        EncapsStatusCode::of_code(code) matches Some(known) ==> known.code() == code,
{
}

impl CipCodec for EncapsStatusCode {
    open spec fn encode(v: EncapsStatusCode) -> Seq<u8> {
        le_bytes_u32(v.code())
    }

    open spec fn decode(bytes: Seq<u8>) -> Result<(EncapsStatusCode, nat), CodecError> {
        if bytes.len() < 4 {
            Err(CodecError::short(Layer::Encapsulation))
        } else {
            match EncapsStatusCode::of_code(le_u32_at(bytes, 0)) {
                Some(status) => Ok((status, 4nat)),
                None => Err(CodecError::violation(Layer::Encapsulation)),
            }
        }
    }

    open spec fn canonical(v: EncapsStatusCode) -> bool {
        true
    }

    proof fn lemma_decode_sound(bytes: Seq<u8>) {
        if bytes.len() >= 4 {
            lemma_u32_le_bytes_round_trip(bytes[0], bytes[1], bytes[2], bytes[3]);
            assert(seq![bytes[0], bytes[1], bytes[2], bytes[3]] =~= bytes.take(4));
        }
    }

    proof fn lemma_round_trip(v: EncapsStatusCode) {
        lemma_u32_le_round_trip(v.code());
    }

    fn write(&self, out: &mut Vec<u8>) {
        put_u32_le(out, self.to_code());
    }

    fn read(bytes: &[u8]) -> (r: Result<(EncapsStatusCode, usize), CodecError>) {
        if bytes.len() < 4 {
            return Err(CodecError::short_read(Layer::Encapsulation));
        }
        match EncapsStatusCode::from_code(get_u32_le(bytes, 0)) {
            Some(status) => Ok((status, 4)),
            None => Err(CodecError::invariant_violation(Layer::Encapsulation)),
        }
    }
}

/// The body of a request or reply in front of the message: the interface handle,
/// the timeout, and the descriptors of its two items, the address and the data.
#[derive(Clone, Copy, Debug, PartialEq, Eq, Structural)]
pub struct RRPacketData {
    pub interface_handle: CipUdint,
    pub timeout: CipUint,
    pub empty_data_packet: CommonPacketDescriptor,
    pub unconnected_data_packet: CommonPacketDescriptor,
}

impl RRPacketData {
    /// The body for `interface_handle` and `timeout`: a null address of length 0,
    /// then an unconnected message of length `unconnected_length`, or 0 where
    /// there is none.
    pub open spec fn of(
        interface_handle: CipUdint,
        timeout: CipUint,
        unconnected_length: Option<u16>,
    ) -> RRPacketData {
        RRPacketData {
            interface_handle,
            timeout,
            empty_data_packet: CommonPacketDescriptor {
                type_id: CommonPacketItemId::NullAddr,
                packet_length: 0,
            },
            unconnected_data_packet: CommonPacketDescriptor {
                type_id: CommonPacketItemId::UnconnectedMessage,
                packet_length: provided_length(unconnected_length),
            },
        }
    }

    /// `self` with the lengths that it is written with: 0 for the address and
    /// `provided_packet_length` for the data.
    pub open spec fn with_length(self, provided_packet_length: u16) -> RRPacketData {
        RRPacketData {
            interface_handle: self.interface_handle,
            timeout: self.timeout,
            empty_data_packet: CommonPacketDescriptor {
                type_id: self.empty_data_packet.type_id,
                packet_length: 0,
            },
            unconnected_data_packet: CommonPacketDescriptor {
                type_id: self.unconnected_data_packet.type_id,
                packet_length: provided_packet_length,
            },
        }
    }

    /// The bytes that stand for `self` when the message that follows takes
    /// `provided_packet_length` bytes: the item count is 2, the first descriptor
    /// has length 0 and the second the length provided.
    pub open spec fn wire(self, provided_packet_length: u16) -> Seq<u8> {
        le_bytes_u32(self.interface_handle) + le_bytes_u16(self.timeout) + le_bytes_u16(
            RR_ITEM_COUNT,
        ) + self.empty_data_packet.wire(None) + self.unconnected_data_packet.wire(
            Some(provided_packet_length),
        )
    }

    /// What a reader makes of `bytes`, field by field: the item count must be 2,
    /// and both descriptors must have a known type.
    pub open spec fn decode(bytes: Seq<u8>) -> Result<(RRPacketData, nat), CodecError> {
        if bytes.len() < 8 {
            Err(CodecError::short(Layer::Encapsulation))
        } else if le_u16_at(bytes, 6) != RR_ITEM_COUNT {
            Err(CodecError::violation(Layer::Encapsulation))
        } else {
            match CommonPacketDescriptor::decode(bytes.subrange(8, bytes.len() as int)) {
                Err(e) => Err(e),
                Ok((empty_data_packet, _)) => match CommonPacketDescriptor::decode(
                    bytes.subrange(12, bytes.len() as int),
                ) {
                    Err(e) => Err(e),
                    Ok((unconnected_data_packet, _)) => Ok(
                        (
                            RRPacketData {
                                interface_handle: le_u32_at(bytes, 0),
                                timeout: le_u16_at(bytes, 4),
                                empty_data_packet,
                                unconnected_data_packet,
                            },
                            RR_DATA_SIZE as nat,
                        ),
                    ),
                },
            }
        }
    }

    /// As [`RRPacketData::new_with_size`].
    pub fn test_with_size(
        interface_handle: CipUdint,
        timeout: CipUint,
        unconnected_length: Option<u16>,
    ) -> (data: RRPacketData)
        ensures
            data == RRPacketData::of(interface_handle, timeout, unconnected_length),
    {
        Self::new_with_size(interface_handle, timeout, unconnected_length)
    }

    /// The body for `interface_handle` and `timeout`: a null address of length 0,
    /// then an unconnected message of length `unconnected_length`, or 0 where
    /// there is none.
    pub fn new_with_size(
        interface_handle: CipUdint,
        timeout: CipUint,
        unconnected_length: Option<u16>,
    ) -> (data: RRPacketData)
        ensures
            data == RRPacketData::of(interface_handle, timeout, unconnected_length),
    {
        RRPacketData {
            interface_handle,
            timeout,
            empty_data_packet: CommonPacketDescriptor {
                type_id: CommonPacketItemId::NullAddr,
                packet_length: 0,
            },
            unconnected_data_packet: CommonPacketDescriptor {
                type_id: CommonPacketItemId::UnconnectedMessage,
                packet_length: match unconnected_length {
                    Some(value) => value,
                    None => 0,
                },
            },
        }
    }

    /// The body for `interface_handle` and `timeout`, its length still to come.
    pub fn new(interface_handle: CipUdint, timeout: CipUint) -> (data: RRPacketData)
        ensures
            data == RRPacketData::of(interface_handle, timeout, None),
    {
        Self::new_with_size(interface_handle, timeout, None)
    }

    /// Appends the bytes of `self` to `out`, for a message of
    /// `provided_packet_length` bytes.
    pub fn write(&self, provided_packet_length: u16, out: &mut Vec<u8>)
        ensures
            final(out)@ == old(out)@ + self.wire(provided_packet_length),
            self.wire(provided_packet_length).len() == RR_DATA_SIZE,
    {
        put_u32_le(out, self.interface_handle);
        put_u16_le(out, self.timeout);
        put_u16_le(out, RR_ITEM_COUNT);
        self.empty_data_packet.write(None, out);
        self.unconnected_data_packet.write(Some(provided_packet_length), out);
        assert(out@ =~= old(out)@ + self.wire(provided_packet_length));
    }

    /// Reads the body of a request or reply from the front of `bytes`; with it
    /// comes the number of bytes that it took.
    pub fn read(bytes: &[u8]) -> (r: Result<(RRPacketData, usize), CodecError>)
        ensures
            match r {
                Ok((v, n)) => Self::decode(bytes@) == Ok::<(RRPacketData, nat), CodecError>(
                    (v, n as nat),
                ) && n == RR_DATA_SIZE && n <= bytes.len(),
                Err(e) => Self::decode(bytes@) == Err::<(RRPacketData, nat), CodecError>(e),
            },
    {
        if bytes.len() < 8 {
            return Err(CodecError::short_read(Layer::Encapsulation));
        }
        let interface_handle: u32 = get_u32_le(bytes, 0);
        let timeout: u16 = get_u16_le(bytes, 4);
        let item_count: u16 = get_u16_le(bytes, 6);
        if item_count != RR_ITEM_COUNT {
            return Err(CodecError::invariant_violation(Layer::Encapsulation));
        }
        let empty_data_packet = match CommonPacketDescriptor::read(
            slice_subrange(bytes, 8, bytes.len()),
        ) {
            Ok((descriptor, _)) => descriptor,
            Err(e) => {
                return Err(e);
            },
        };
        let unconnected_data_packet = match CommonPacketDescriptor::read(
            slice_subrange(bytes, 12, bytes.len()),
        ) {
            Ok((descriptor, _)) => descriptor,
            Err(e) => {
                return Err(e);
            },
        };
        Ok(
            (
                RRPacketData {
                    interface_handle,
                    timeout,
                    empty_data_packet,
                    unconnected_data_packet,
                },
                RR_DATA_SIZE,
            ),
        )
    }
}

/// The body of a request or reply, written for a message of some length, is read
/// back with that length in its second descriptor and 0 in its first, whatever
/// follows it.
pub proof fn lemma_rr_data_round_trip(
    data: RRPacketData,
    provided_packet_length: u16,
    after: Seq<u8>,
)
    ensures
        data.wire(provided_packet_length).len() == RR_DATA_SIZE,
        RRPacketData::decode(data.wire(provided_packet_length) + after) == Ok::<
            (RRPacketData, nat),
            CodecError,
        >((data.with_length(provided_packet_length), RR_DATA_SIZE as nat)),
{
    let handle_bytes = le_bytes_u32(data.interface_handle);
    let timeout_bytes = le_bytes_u16(data.timeout);
    let count_bytes = le_bytes_u16(RR_ITEM_COUNT);
    let first = data.empty_data_packet.wire(None);
    let second = data.unconnected_data_packet.wire(Some(provided_packet_length));
    let bytes = data.wire(provided_packet_length) + after;
    let head = handle_bytes + timeout_bytes + count_bytes;
    assert(head.len() == 8);
    assert(first.len() == 4 && second.len() == 4);
    assert(bytes =~= head + first + second + after);
    assert forall|i: int| 0 <= i < 8 implies bytes[i] == head[i] by {}
    assert(head[0] == handle_bytes[0] && head[1] == handle_bytes[1] && head[2] == handle_bytes[2]
        && head[3] == handle_bytes[3]);
    assert(head[4] == timeout_bytes[0] && head[5] == timeout_bytes[1]);
    assert(head[6] == count_bytes[0] && head[7] == count_bytes[1]);
    lemma_u32_le_read_at(bytes, 0, data.interface_handle);
    lemma_u16_le_read_at(bytes, 4, data.timeout);
    lemma_u16_le_read_at(bytes, 6, RR_ITEM_COUNT);
    lemma_descriptor_round_trip(data.empty_data_packet, None, second + after);
    lemma_descriptor_round_trip(data.unconnected_data_packet, Some(provided_packet_length), after);
    assert(bytes.subrange(8, bytes.len() as int) =~= first + (second + after));
    assert(bytes.subrange(12, bytes.len() as int) =~= second + after);
}

/// The body of a session registration.
#[derive(Clone, Copy, Debug, PartialEq, Eq, Structural)]
pub struct RegisterData {
    pub protocol_version: CipUint,
    pub option_flags: CipUint,
}

impl RegisterData {
    /// The bytes that stand for `self`.
    pub open spec fn wire(self) -> Seq<u8> {
        le_bytes_u16(self.protocol_version) + le_bytes_u16(self.option_flags)
    }

    /// What a reader makes of `bytes`.
    pub open spec fn decode(bytes: Seq<u8>) -> Result<(RegisterData, nat), CodecError> {
        if bytes.len() < REGISTER_DATA_SIZE {
            Err(CodecError::short(Layer::Encapsulation))
        } else {
            Ok(
                (
                    RegisterData {
                        protocol_version: le_u16_at(bytes, 0),
                        option_flags: le_u16_at(bytes, 2),
                    },
                    REGISTER_DATA_SIZE as nat,
                ),
            )
        }
    }

    /// Appends the bytes of `self` to `out`.
    pub fn write(&self, out: &mut Vec<u8>)
        ensures
            final(out)@ == old(out)@ + self.wire(),
            self.wire().len() == REGISTER_DATA_SIZE,
    {
        put_u16_le(out, self.protocol_version);
        put_u16_le(out, self.option_flags);
        assert(out@ =~= old(out)@ + self.wire());
    }

    /// Reads the body of a session registration from the front of `bytes`; with
    /// it comes the number of bytes that it took.
    pub fn read(bytes: &[u8]) -> (r: Result<(RegisterData, usize), CodecError>)
        ensures
            match r {
                Ok((v, n)) => Self::decode(bytes@) == Ok::<(RegisterData, nat), CodecError>(
                    (v, n as nat),
                ) && n == REGISTER_DATA_SIZE && n <= bytes.len(),
                Err(e) => Self::decode(bytes@) == Err::<(RegisterData, nat), CodecError>(e),
            },
    {
        if bytes.len() < REGISTER_DATA_SIZE {
            return Err(CodecError::short_read(Layer::Encapsulation));
        }
        Ok(
            (
                RegisterData {
                    protocol_version: get_u16_le(bytes, 0),
                    option_flags: get_u16_le(bytes, 2),
                },
                REGISTER_DATA_SIZE,
            ),
        )
    }
}

/// The body of a session registration, written and read back, is the same,
/// whatever follows it.
pub proof fn lemma_register_data_round_trip(data: RegisterData, after: Seq<u8>)
    ensures
        data.wire().len() == REGISTER_DATA_SIZE,
        RegisterData::decode(data.wire() + after) == Ok::<(RegisterData, nat), CodecError>(
            (data, REGISTER_DATA_SIZE as nat),
        ),
{
    let version_bytes = le_bytes_u16(data.protocol_version);
    let flag_bytes = le_bytes_u16(data.option_flags);
    let bytes = data.wire() + after;
    lemma_u16_le_read_back(Seq::empty(), data.protocol_version, flag_bytes + after);
    lemma_u16_le_read_back(version_bytes, data.option_flags, after);
    assert(Seq::<u8>::empty() + version_bytes + (flag_bytes + after) =~= bytes);
    assert(version_bytes + flag_bytes + after =~= bytes);
}

/// What stands behind the header of a frame: it depends on the command.
#[derive(Clone, Copy, Debug, PartialEq, Eq, Structural)]
pub enum CommandSpecificData {
    /// The end of a session: nothing.
    UnregisterSession,
    /// The registration of a session.
    RegisterSession(RegisterData),
    /// A request or a reply.
    SendRrData(RRPacketData),
}

impl CommandSpecificData {
    /// The command whose data `self` is.
    pub open spec fn command(self) -> EnIpCommand {
        match self {
            CommandSpecificData::UnregisterSession => EnIpCommand::UnRegisterSession,
            CommandSpecificData::RegisterSession(_) => EnIpCommand::RegisterSession,
            CommandSpecificData::SendRrData(_) => EnIpCommand::SendRrData,
        }
    }

    /// The number of bytes that `self` takes on the wire.
    pub open spec fn wire_len(self) -> nat {
        match self {
            CommandSpecificData::UnregisterSession => 0,
            CommandSpecificData::RegisterSession(_) => REGISTER_DATA_SIZE as nat,
            CommandSpecificData::SendRrData(_) => RR_DATA_SIZE as nat,
        }
    }

    /// `self` with the lengths that it is written with.
    pub open spec fn with_length(self, provided_packet_length: u16) -> CommandSpecificData {
        match self {
            CommandSpecificData::SendRrData(data) => CommandSpecificData::SendRrData(
                data.with_length(provided_packet_length),
            ),
            _ => self,
        }
    }

    /// The bytes that stand for `self` when the message that follows takes
    /// `provided_packet_length` bytes.
    pub open spec fn wire(self, provided_packet_length: u16) -> Seq<u8> {
        match self {
            CommandSpecificData::UnregisterSession => Seq::empty(),
            CommandSpecificData::RegisterSession(data) => data.wire(),
            CommandSpecificData::SendRrData(data) => data.wire(provided_packet_length),
        }
    }

    /// What a reader makes of `bytes` behind a header with the command
    /// `command_type`. A command other than the three that have data here is
    /// refused.
    pub open spec fn decode(command_type: EnIpCommand, bytes: Seq<u8>) -> Result<
        (CommandSpecificData, nat),
        CodecError,
    > {
        match command_type {
            EnIpCommand::UnRegisterSession => Ok((CommandSpecificData::UnregisterSession, 0nat)),
            EnIpCommand::RegisterSession => match RegisterData::decode(bytes) {
                Ok((data, n)) => Ok((CommandSpecificData::RegisterSession(data), n)),
                Err(e) => Err(e),
            },
            EnIpCommand::SendRrData => match RRPacketData::decode(bytes) {
                Ok((data, n)) => Ok((CommandSpecificData::SendRrData(data), n)),
                Err(e) => Err(e),
            },
            _ => Err(CodecError::violation(Layer::Encapsulation)),
        }
    }

    /// The data of a session registration: protocol version 1, no options.
    pub fn new_registration() -> (data: CommandSpecificData)
        ensures
            data == CommandSpecificData::RegisterSession(
                RegisterData { protocol_version: PROTOCOL_VERSION, option_flags: 0 },
            ),
    {
        Self::RegisterSession(RegisterData { protocol_version: PROTOCOL_VERSION, option_flags: 0 })
    }

    /// The data of a request, its length still to come.
    pub fn new_request(interface_handle: CipUdint, timeout: CipUint) -> (data: CommandSpecificData)
        ensures
            data == CommandSpecificData::SendRrData(
                RRPacketData::of(interface_handle, timeout, None),
            ),
    {
        Self::SendRrData(RRPacketData::new(interface_handle, timeout))
    }

    /// The number of bytes that `self` takes on the wire.
    pub fn byte_size(&self) -> (n: usize)
        ensures
            n == self.wire_len(),
    {
        match self {
            CommandSpecificData::UnregisterSession => 0,
            CommandSpecificData::RegisterSession(_) => REGISTER_DATA_SIZE,
            CommandSpecificData::SendRrData(_) => RR_DATA_SIZE,
        }
    }

    /// Appends the bytes of `self` to `out`, for a message of
    /// `provided_packet_length` bytes.
    pub fn write(&self, provided_packet_length: u16, out: &mut Vec<u8>)
        ensures
            final(out)@ == old(out)@ + self.wire(provided_packet_length),
            self.wire(provided_packet_length).len() == self.wire_len(),
    {
        match self {
            CommandSpecificData::UnregisterSession => {
                assert(out@ =~= old(out)@ + self.wire(provided_packet_length));
            },
            CommandSpecificData::RegisterSession(data) => {
                data.write(out);
            },
            CommandSpecificData::SendRrData(data) => {
                data.write(provided_packet_length, out);
            },
        }
    }

    /// Reads the data of the command `command_type` from the front of `bytes`;
    /// with it comes the number of bytes that it took.
    pub fn read(command_type: EnIpCommand, bytes: &[u8]) -> (r: Result<
        (CommandSpecificData, usize),
        CodecError,
    >)
        ensures
            match r {
                Ok((v, n)) => Self::decode(command_type, bytes@) == Ok::<
                    (CommandSpecificData, nat),
                    CodecError,
                >((v, n as nat)) && n == v.wire_len() && n <= bytes.len(),
                Err(e) => Self::decode(command_type, bytes@) == Err::<
                    (CommandSpecificData, nat),
                    CodecError,
                >(e),
            },
    {
        match command_type {
            EnIpCommand::UnRegisterSession => Ok((CommandSpecificData::UnregisterSession, 0)),
            EnIpCommand::RegisterSession => match RegisterData::read(bytes) {
                Ok((data, n)) => Ok((CommandSpecificData::RegisterSession(data), n)),
                Err(e) => Err(e),
            },
            EnIpCommand::SendRrData => match RRPacketData::read(bytes) {
                Ok((data, n)) => Ok((CommandSpecificData::SendRrData(data), n)),
                Err(e) => Err(e),
            },
            _ => Err(CodecError::invariant_violation(Layer::Encapsulation)),
        }
    }
}

/// The data of a command, written for a message of some length and read back
/// behind the header of that command, is the same data with that length,
/// whatever follows it.
pub proof fn lemma_command_data_round_trip(
    data: CommandSpecificData,
    provided_packet_length: u16,
    after: Seq<u8>,
)
    ensures
        data.wire(provided_packet_length).len() == data.wire_len(),
        CommandSpecificData::decode(data.command(), data.wire(provided_packet_length) + after)
            == Ok::<(CommandSpecificData, nat), CodecError>(
            (data.with_length(provided_packet_length), data.wire_len()),
        ),
{
    match data {
        CommandSpecificData::UnregisterSession => {},
        CommandSpecificData::RegisterSession(register) => {
            lemma_register_data_round_trip(register, after);
        },
        CommandSpecificData::SendRrData(rr) => {
            lemma_rr_data_round_trip(rr, provided_packet_length, after);
        },
    }
}

} // verus!
