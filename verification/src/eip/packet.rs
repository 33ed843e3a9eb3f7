//! The encapsulation header, and the packet description that joins a header with
//! the data of its command.

use vstd::prelude::*;
use vstd::slice::slice_subrange;
use crate::cip::types::{CipByte, CipUdint, CipUint};
use crate::codec::{get_u16_le, get_u32_le, put_u16_le, put_u32_le};
use crate::codec::{le_bytes_u16, le_bytes_u32, le_u16_at, le_u32_at};
use crate::codec::{lemma_u16_le_read_at, lemma_u32_le_read_at};
use crate::eip::command::lemma_command_data_round_trip;
use crate::eip::command::{CommandSpecificData, EnIpCommand, EncapsStatusCode};
use crate::eip::command::{RRPacketData, RegisterData};
use crate::eip::constants::{HEADER_SIZE, PROTOCOL_VERSION, SENDER_CONTEXT_SIZE};
use crate::error::{CodecError, Layer};

verus! {

/// The 24 bytes that open every frame.
#[derive(Clone, Copy, Debug, PartialEq, Eq)]
pub struct EncapsulationHeader {
    pub command: EnIpCommand,
    /// The number of bytes behind the header, as it was read. When a header is
    /// written the length is handed to the writer; what is stored here is not
    /// looked at.
    pub length: CipUint,
    pub session_handle: CipUdint,
    pub status_code: EncapsStatusCode,
    pub sender_context: [CipByte; 8],
    pub options: CipUdint,
}

/// The sender context that stands at offset `at` of `bytes`.
pub open spec fn sender_context_at(bytes: Seq<u8>, at: int) -> [u8; 8] {
    [
        bytes[at],
        bytes[at + 1],
        bytes[at + 2],
        bytes[at + 3],
        bytes[at + 4],
        bytes[at + 5],
        bytes[at + 6],
        bytes[at + 7],
    ]
}

impl EncapsulationHeader {
    /// The header of a request: success, an empty sender context, no options,
    /// and the length still to come.
    pub open spec fn of(command: EnIpCommand, session_handle: CipUdint) -> EncapsulationHeader {
        EncapsulationHeader {
            command,
            length: 0,
            session_handle,
            status_code: EncapsStatusCode::Success,
            sender_context: [0u8, 0u8, 0u8, 0u8, 0u8, 0u8, 0u8, 0u8],
            options: 0,
        }
    }

    /// `self` with the length that it is written with.
    pub open spec fn with_length(self, packet_length: u16) -> EncapsulationHeader {
        EncapsulationHeader {
            command: self.command,
            length: packet_length,
            session_handle: self.session_handle,
            status_code: self.status_code,
            sender_context: self.sender_context,
            options: self.options,
        }
    }

    /// The bytes that stand for `self` when `packet_length` bytes follow it.
    pub open spec fn wire(self, packet_length: u16) -> Seq<u8> {
        le_bytes_u16(self.command.code()) + le_bytes_u16(packet_length) + le_bytes_u32(
            self.session_handle,
        ) + le_bytes_u32(self.status_code.code()) + self.sender_context@ + le_bytes_u32(
            self.options,
        )
    }

    /// What a reader makes of `bytes`, field by field: the command and the status
    /// must be known ones.
    pub open spec fn decode(bytes: Seq<u8>) -> Result<(EncapsulationHeader, nat), CodecError> {
        if bytes.len() < 2 {
            Err(CodecError::short(Layer::Encapsulation))
        } else {
            match EnIpCommand::of_code(le_u16_at(bytes, 0)) {
                None => Err(CodecError::violation(Layer::Encapsulation)),
                Some(command) => if bytes.len() < 12 {
                    Err(CodecError::short(Layer::Encapsulation))
                } else {
                    match EncapsStatusCode::of_code(le_u32_at(bytes, 8)) {
                        None => Err(CodecError::violation(Layer::Encapsulation)),
                        Some(status_code) => if bytes.len() < HEADER_SIZE {
                            Err(CodecError::short(Layer::Encapsulation))
                        } else {
                            Ok(
                                (
                                    EncapsulationHeader {
                                        command,
                                        length: le_u16_at(bytes, 2),
                                        session_handle: le_u32_at(bytes, 4),
                                        status_code,
                                        sender_context: sender_context_at(bytes, 12),
                                        options: le_u32_at(bytes, 20),
                                    },
                                    HEADER_SIZE as nat,
                                ),
                            )
                        },
                    }
                },
            }
        }
    }

    /// Appends the bytes of `self` to `out`, with `packet_length` as the number
    /// of bytes that follow.
    pub fn write(&self, packet_length: CipUint, out: &mut Vec<u8>)
        ensures
            final(out)@ == old(out)@ + self.wire(packet_length),
            self.wire(packet_length).len() == HEADER_SIZE,
    {
        put_u16_le(out, self.command.to_code());
        put_u16_le(out, packet_length);
        put_u32_le(out, self.session_handle);
        put_u32_le(out, self.status_code.to_code());
        let mut i: usize = 0;
        while i < SENDER_CONTEXT_SIZE
            invariant
                i <= SENDER_CONTEXT_SIZE,
                out@ == old(out)@ + le_bytes_u16(self.command.code()) + le_bytes_u16(packet_length)
                    + le_bytes_u32(self.session_handle) + le_bytes_u32(self.status_code.code())
                    + self.sender_context@.take(i as int),
            decreases SENDER_CONTEXT_SIZE - i,
        {
            out.push(self.sender_context[i]);
            assert(self.sender_context@.take(i + 1) =~= self.sender_context@.take(i as int).push(
                self.sender_context@[i as int],
            ));
            i += 1;
        }
        assert(self.sender_context@.take(8) =~= self.sender_context@);
        put_u32_le(out, self.options);
        assert(out@ =~= old(out)@ + self.wire(packet_length));
    }

    /// Reads a header from the front of `bytes`; with it comes the number of
    /// bytes that it took.
    pub fn read(bytes: &[u8]) -> (r: Result<(EncapsulationHeader, usize), CodecError>)
        ensures
            match r {
                Ok((v, n)) => Self::decode(bytes@) == Ok::<(EncapsulationHeader, nat), CodecError>(
                    (v, n as nat),
                ) && n == HEADER_SIZE && n <= bytes.len(),
                Err(e) => Self::decode(bytes@) == Err::<(EncapsulationHeader, nat), CodecError>(e),
            },
    {
        if bytes.len() < 2 {
            return Err(CodecError::short_read(Layer::Encapsulation));
        }
        let command = match EnIpCommand::from_code(get_u16_le(bytes, 0)) {
            Some(known) => known,
            None => {
                return Err(CodecError::invariant_violation(Layer::Encapsulation));
            },
        };
        if bytes.len() < 12 {
            return Err(CodecError::short_read(Layer::Encapsulation));
        }
        let length: u16 = get_u16_le(bytes, 2);
        let session_handle: u32 = get_u32_le(bytes, 4);
        let status_code = match EncapsStatusCode::from_code(get_u32_le(bytes, 8)) {
            Some(known) => known,
            None => {
                return Err(CodecError::invariant_violation(Layer::Encapsulation));
            },
        };
        if bytes.len() < HEADER_SIZE {
            return Err(CodecError::short_read(Layer::Encapsulation));
        }
        let sender_context: [u8; 8] = [
            bytes[12],
            bytes[13],
            bytes[14],
            bytes[15],
            bytes[16],
            bytes[17],
            bytes[18],
            bytes[19],
        ];
        let options: u32 = get_u32_le(bytes, 20);
        Ok(
            (
                EncapsulationHeader {
                    command,
                    length,
                    session_handle,
                    status_code,
                    sender_context,
                    options,
                },
                HEADER_SIZE,
            ),
        )
    }
}

/// A header written with a length is read back with that length, whatever
/// follows it.
pub proof fn lemma_header_round_trip(
    header: EncapsulationHeader,
    packet_length: u16,
    after: Seq<u8>,
)
    ensures
        header.wire(packet_length).len() == HEADER_SIZE,
        EncapsulationHeader::decode(header.wire(packet_length) + after) == Ok::<
            (EncapsulationHeader, nat),
            CodecError,
        >((header.with_length(packet_length), HEADER_SIZE as nat)),
{
    let command_bytes = le_bytes_u16(header.command.code());
    let length_bytes = le_bytes_u16(packet_length);
    let session_bytes = le_bytes_u32(header.session_handle);
    let status_bytes = le_bytes_u32(header.status_code.code());
    let context_bytes = header.sender_context@;
    let option_bytes = le_bytes_u32(header.options);
    let bytes = header.wire(packet_length) + after;
    assert(context_bytes.len() == 8);
    let head = command_bytes + length_bytes + session_bytes + status_bytes;
    assert(head.len() == 12);
    assert(bytes =~= head + context_bytes + option_bytes + after);
    assert forall|i: int| 0 <= i < 12 implies bytes[i] == head[i] by {}
    assert forall|i: int| 0 <= i < 8 implies bytes[12 + i] == context_bytes[i] by {}
    assert forall|i: int| 0 <= i < 4 implies bytes[20 + i] == option_bytes[i] by {}
    assert(head[0] == command_bytes[0] && head[1] == command_bytes[1]);
    assert(head[2] == length_bytes[0] && head[3] == length_bytes[1]);
    assert(head[4] == session_bytes[0] && head[5] == session_bytes[1] && head[6]
        == session_bytes[2] && head[7] == session_bytes[3]);
    assert(head[8] == status_bytes[0] && head[9] == status_bytes[1] && head[10] == status_bytes[2]
        && head[11] == status_bytes[3]);
    lemma_u16_le_read_at(bytes, 0, header.command.code());
    lemma_u16_le_read_at(bytes, 2, packet_length);
    lemma_u32_le_read_at(bytes, 4, header.session_handle);
    lemma_u32_le_read_at(bytes, 8, header.status_code.code());
    lemma_u32_le_read_at(bytes, 20, header.options);
    assert(sender_context_at(bytes, 12) =~= header.sender_context) by {
        assert forall|i: int| 0 <= i < 8 implies sender_context_at(bytes, 12)[i]
            == header.sender_context[i] by {
            assert(bytes[12 + i] == context_bytes[i]);
        }
    }
}

/// The header of a frame with the data of its command.
#[derive(Clone, Copy, Debug, PartialEq, Eq)]
pub struct EnIpPacketDescription {
    pub header: EncapsulationHeader,
    pub command_specific_data: CommandSpecificData,
}

impl EnIpPacketDescription {
    /// The header names the command whose data follows it.
    pub open spec fn wf(self) -> bool {
        self.header.command == self.command_specific_data.command()
    }

    /// The description of a request: `command_specific_data` behind a header for
    /// `command` and `session_handle`.
    pub open spec fn of(
        command: EnIpCommand,
        session_handle: CipUdint,
        command_specific_data: CommandSpecificData,
    ) -> EnIpPacketDescription {
        EnIpPacketDescription {
            header: EncapsulationHeader::of(command, session_handle),
            command_specific_data,
        }
    }

    /// The description of a session registration.
    pub open spec fn registration() -> EnIpPacketDescription {
        EnIpPacketDescription::of(
            EnIpCommand::RegisterSession,
            0,
            CommandSpecificData::RegisterSession(
                RegisterData { protocol_version: PROTOCOL_VERSION, option_flags: 0 },
            ),
        )
    }

    /// The description of the end of the session `session_handle`.
    pub open spec fn unregistration(session_handle: CipUdint) -> EnIpPacketDescription {
        EnIpPacketDescription::of(
            EnIpCommand::UnRegisterSession,
            session_handle,
            CommandSpecificData::UnregisterSession,
        )
    }

    /// The description of a request in the session `session_handle`.
    pub open spec fn cip(session_handle: CipUdint, timeout: CipUint) -> EnIpPacketDescription {
        EnIpPacketDescription::of(
            EnIpCommand::SendRrData,
            session_handle,
            CommandSpecificData::SendRrData(RRPacketData::of(0, timeout, None)),
        )
    }

    /// The number of bytes behind the header when a message of `cip_length`
    /// bytes follows the data of the command.
    pub open spec fn body_len(self, cip_length: u16) -> nat {
        self.command_specific_data.wire_len() + cip_length as nat
    }

    /// Whether the length field of the header can hold the number of bytes
    /// behind it.
    pub open spec fn fits(self, cip_length: u16) -> bool {
        self.body_len(cip_length) <= u16::MAX
    }

    /// `self` with the lengths that it is written with.
    pub open spec fn with_length(self, cip_length: u16) -> EnIpPacketDescription {
        EnIpPacketDescription {
            header: self.header.with_length(self.body_len(cip_length) as u16),
            command_specific_data: self.command_specific_data.with_length(cip_length),
        }
    }

    /// The bytes that stand for `self` when a message of `cip_length` bytes
    /// follows: the header with the number of bytes behind it, then the data of
    /// the command.
    pub open spec fn wire(self, cip_length: u16) -> Seq<u8> {
        self.header.wire(self.body_len(cip_length) as u16) + self.command_specific_data.wire(
            cip_length,
        )
    }

    /// What a reader makes of `bytes`: a header, then the data of its command.
    pub open spec fn decode(bytes: Seq<u8>) -> Result<(EnIpPacketDescription, nat), CodecError> {
        match EncapsulationHeader::decode(bytes) {
            Err(e) => Err(e),
            Ok((header, _)) => match CommandSpecificData::decode(
                header.command,
                bytes.subrange(HEADER_SIZE as int, bytes.len() as int),
            ) {
                Err(e) => Err(e),
                Ok((command_specific_data, n)) => Ok(
                    (
                        EnIpPacketDescription { header, command_specific_data },
                        HEADER_SIZE as nat + n,
                    ),
                ),
            },
        }
    }

    /// The description of a request: `command_specific_data` behind a header for
    /// `command` and `session_handle`, with status success, an empty sender
    /// context and no options.
    pub fn new(
        command: EnIpCommand,
        session_handle: CipUdint,
        command_specific_data: CommandSpecificData,
    ) -> (description: EnIpPacketDescription)
        ensures
            description == EnIpPacketDescription::of(
                command,
                session_handle,
                command_specific_data,
            ),
    {
        let sender_context: [u8; 8] = [0x00; SENDER_CONTEXT_SIZE];
        assert(sender_context == EncapsulationHeader::of(command, session_handle).sender_context)
            by {
            assert(sender_context =~= EncapsulationHeader::of(
                command,
                session_handle,
            ).sender_context);
        }
        EnIpPacketDescription {
            header: EncapsulationHeader {
                command,
                length: 0,
                session_handle,
                status_code: EncapsStatusCode::Success,
                sender_context,
                options: 0x00,
            },
            command_specific_data,
        }
    }

    /// The description of a session registration: no session yet, protocol
    /// version 1, no options.
    pub fn new_registration_description() -> (description: EnIpPacketDescription)
        ensures
            description == EnIpPacketDescription::registration(),
            description.wf(),
    {
        EnIpPacketDescription::new(
            EnIpCommand::RegisterSession,
            0,
            CommandSpecificData::RegisterSession(
                RegisterData { protocol_version: PROTOCOL_VERSION, option_flags: 0 },
            ),
        )
    }

    /// The description of the end of the session `session_handle`.
    pub fn new_unregistration_description(session_handle: CipUdint) -> (description:
        EnIpPacketDescription)
        ensures
            description == EnIpPacketDescription::unregistration(session_handle),
            description.wf(),
    {
        EnIpPacketDescription::new(
            EnIpCommand::UnRegisterSession,
            session_handle,
            CommandSpecificData::UnregisterSession,
        )
    }

    /// The description of a request in the session `session_handle`, on
    /// interface 0.
    pub fn new_cip_description(session_handle: CipUdint, timeout: CipUint) -> (description:
        EnIpPacketDescription)
        ensures
            description == EnIpPacketDescription::cip(session_handle, timeout),
            description.wf(),
    {
        EnIpPacketDescription::new(
            EnIpCommand::SendRrData,
            session_handle,
            CommandSpecificData::new_request(0, timeout),
        )
    }

    /// Appends the bytes of `self` to `out`, for a message of `cip_length` bytes
    /// that the caller writes behind them. The data of the command is first
    /// written to a scratch buffer, so that the header can tell how many bytes
    /// follow it. Where that number does not fit the length field nothing is
    /// written.
    pub fn write(&self, cip_length: u16, out: &mut Vec<u8>) -> (r: Result<(), CodecError>)
        ensures
            match r {
                Ok(_) => self.fits(cip_length) && final(out)@ == old(out)@ + self.wire(cip_length),
                Err(e) => !self.fits(cip_length) && e == CodecError::overflow(Layer::Encapsulation)
                    && final(out)@ == old(out)@,
            },
            self.wire(cip_length).len() == HEADER_SIZE + self.command_specific_data.wire_len(),
    {
        let mut scratch: Vec<u8> = Vec::new();
        self.command_specific_data.write(cip_length, &mut scratch);
        assert(scratch@ =~= self.command_specific_data.wire(cip_length));
        let data_length: usize = scratch.len();
        proof {
            lemma_header_round_trip(
                self.header,
                self.body_len(cip_length) as u16,
                Seq::empty(),
            );
        }
        if data_length > (u16::MAX - cip_length) as usize {
            return Err(CodecError::serialization_overflow(Layer::Encapsulation));
        }
        let full_length: u16 = data_length as u16 + cip_length;
        self.header.write(full_length, out);
        out.extend_from_slice(scratch.as_slice());
        assert(out@ =~= old(out)@ + self.wire(cip_length));
        Ok(())
    }

    /// Reads a packet description from the front of `bytes`; with it comes the
    /// number of bytes that it took.
    pub fn read(bytes: &[u8]) -> (r: Result<(EnIpPacketDescription, usize), CodecError>)
        ensures
            match r {
                Ok((v, n)) => Self::decode(bytes@) == Ok::<
                    (EnIpPacketDescription, nat),
                    CodecError,
                >((v, n as nat)) && n == HEADER_SIZE + v.command_specific_data.wire_len() && n
                    <= bytes.len() && v.wf(),
                Err(e) => Self::decode(bytes@) == Err::<(EnIpPacketDescription, nat), CodecError>(
                    e,
                ),
            },
    {
        let header = match EncapsulationHeader::read(bytes) {
            Ok((header, _)) => header,
            Err(e) => {
                return Err(e);
            },
        };
        let rest = slice_subrange(bytes, HEADER_SIZE, bytes.len());
        match CommandSpecificData::read(header.command, rest) {
            Ok((command_specific_data, n)) => Ok(
                (EnIpPacketDescription { header, command_specific_data }, HEADER_SIZE + n),
            ),
            Err(e) => Err(e),
        }
    }
}

/// A well-formed packet description, written for a message of some length and
/// read back, is the same description with the lengths that it was written with,
/// whatever follows it.
pub proof fn lemma_packet_description_round_trip(
    description: EnIpPacketDescription,
    cip_length: u16,
    after: Seq<u8>,
)
    requires
        description.wf(),
        description.fits(cip_length),
    ensures
        description.wire(cip_length).len() == HEADER_SIZE
            + description.command_specific_data.wire_len(),
        EnIpPacketDescription::decode(description.wire(cip_length) + after) == Ok::<
            (EnIpPacketDescription, nat),
            CodecError,
        >(
            (
                description.with_length(cip_length),
                HEADER_SIZE as nat + description.command_specific_data.wire_len(),
            ),
        ),
{
    let length = description.body_len(cip_length) as u16;
    let head = description.header.wire(length);
    let body = description.command_specific_data.wire(cip_length);
    let bytes = description.wire(cip_length) + after;
    lemma_header_round_trip(description.header, length, body + after);
    lemma_command_data_round_trip(description.command_specific_data, cip_length, after);
    assert(head + (body + after) =~= bytes);
    assert(bytes.subrange(HEADER_SIZE as int, bytes.len() as int) =~= body + after);
}

/// A header whose first two bytes name no command is refused as a violation of
/// the format, whatever follows them, and so is a packet description that opens
/// with such a header.
pub proof fn lemma_unknown_command_is_refused(bytes: Seq<u8>)
    requires
        bytes.len() >= 2,
        EnIpCommand::of_code(le_u16_at(bytes, 0)) is None,
    ensures
        EncapsulationHeader::decode(bytes) == Err::<(EncapsulationHeader, nat), CodecError>(
            CodecError::violation(Layer::Encapsulation),
        ),
        EnIpPacketDescription::decode(bytes) == Err::<(EnIpPacketDescription, nat), CodecError>(
            CodecError::violation(Layer::Encapsulation),
        ),
{
}

/// A packet description whose header names a command without data here is
/// refused as a violation of the format.
pub proof fn lemma_command_without_data_is_refused(bytes: Seq<u8>)
    requires
        EncapsulationHeader::decode(bytes) matches Ok((header, _)) && header.command
            != EnIpCommand::RegisterSession && header.command != EnIpCommand::UnRegisterSession
            && header.command != EnIpCommand::SendRrData,
    ensures
        EnIpPacketDescription::decode(bytes) == Err::<(EnIpPacketDescription, nat), CodecError>(
            CodecError::violation(Layer::Encapsulation),
        ),
{
}

} // verus!
