//! The operations of a NetMD device: playback, the disc and its tracks,
//! titles, and the secure session of a download.
//!
//! Every operation is an exchange, or a few: a command assembled from a
//! template, a reply read with another. An operation that works on a part of
//! the device's records opens its descriptor before and closes it after.
use vstd::prelude::*;
use crate::netmd::base::{
    backoff,
    bytes_of,
    count_fetches,
    count_polls,
    lemma_read_reply_polls,
    lemma_transfer_asks,
    spec_transfer,
    MAX_POLLS,
    spec_backoff,
    spec_await_reply,
    spec_last_data,
    spec_plain,
    spec_poll,
    spec_read_bulk_from,
    spec_read_reply,
    spec_send_command,
    spec_write_bulk,
    Transfer,
    Link,
    NetMD,
    NetMDError,
    TransferView,
};
use vstd::slice::slice_to_vec;
use crate::netmd::encryption::{
    chunk_size_or_default,
    padded,
    stream_next,
    DataEncryptorInput,
    Encryptor,
    Stream,
};
use crate::netmd::block_cipher::{
    cbc_decrypt,
    cbc_encrypt,
    des_cbc_encrypt,
    des_ecb_encrypt,
    des_decrypt_block,
    des_encrypt_block,
    lemma_cbc_encrypt_len,
    random_block,
    tdes_cbc_encrypt,
    tdes_encrypt_block,
    xor_block,
    zero_block,
};
use crate::netmd::titles::{disc_title_in, parse_groups, spec_disc_title, spec_groups, GroupView};
use crate::netmd::utils::{
    chars_of,
    decode_sjis,
    length_after_encoding_to_sjis,
    lossy_text,
    sanitize_full_width_title,
    sanitize_half_width_title,
    shift_jis_decode,
    shift_jis_encode,
    spec_sanitize_full_width_title,
    spec_sanitize_half_width_title,
    spec_to_sjis,
    text_of,
    to_sjis,
    utf8_lossy,
    RawTime,
    TEXT_LIMIT,
};
use crate::netmd::query_utils::{
    copy_range,
    format_tokens,
    parse_template,
    scan_tokens,
    spec_format_query,
    spec_scan_query,
    unsigned64,
    values_view,
    QueryError,
    QueryValue,
    Value,
};

verus! {

/// The most re-reads after interim replies.
pub const MAX_INTERIM_READ_ATTEMPTS: u32 = 4;

/// The unit of the waits after interim replies, in milliseconds.
pub const INTERIM_RESPONSE_RETRY_INTERVAL: u32 = 100;

/// An action to take on the player
#[derive(Clone, Copy, Debug, PartialEq, Eq, Structural)]
pub enum Action {
    Play,
    Pause,
    FastForward,
    Rewind,
}

impl Action {
    /// The byte of the action on the wire.
    pub open spec fn spec_code(self) -> u8 {
        match self {
            Action::Play => 0x75,
            Action::Pause => 0x7d,
            Action::FastForward => 0x39,
            Action::Rewind => 0x49,
        }
    }

    /// The byte of the action on the wire.
    pub fn code(self) -> (c: u8)
        ensures
            c == self.spec_code(),
    {
        match self {
            Action::Play => 0x75,
            Action::Pause => 0x7d,
            Action::FastForward => 0x39,
            Action::Rewind => 0x49,
        }
    }
}

/// Direction of playback, or restart track
#[derive(Clone, Copy, Debug, PartialEq, Eq, Structural)]
pub enum Direction {
    Previous,
    Next,
    Restart,
}

impl Direction {
    /// The word of the direction on the wire.
    pub open spec fn spec_code(self) -> u16 {
        match self {
            Direction::Previous => 0x0002,
            Direction::Next => 0x8001,
            Direction::Restart => 0x0001,
        }
    }

    /// The word of the direction on the wire.
    pub fn code(self) -> (c: u16)
        ensures
            c == self.spec_code(),
    {
        match self {
            Direction::Previous => 0x0002,
            Direction::Next => 0x8001,
            Direction::Restart => 0x0001,
        }
    }
}

/// The format of the disc
#[derive(Clone, Copy, Debug, PartialEq, Eq, Structural)]
pub enum DiscFormat {
    LP4,
    LP2,
    SPMono,
    SPStereo,
}

impl DiscFormat {
    /// The byte of the format on the wire.
    pub open spec fn spec_code(self) -> u8 {
        match self {
            DiscFormat::LP4 => 0,
            DiscFormat::LP2 => 2,
            DiscFormat::SPMono => 4,
            DiscFormat::SPStereo => 6,
        }
    }

    /// The byte of the format on the wire.
    pub fn code(self) -> (c: u8)
        ensures
            c == self.spec_code(),
    {
        match self {
            DiscFormat::LP4 => 0,
            DiscFormat::LP2 => 2,
            DiscFormat::SPMono => 4,
            DiscFormat::SPStereo => 6,
        }
    }

    /// The format that a codec byte of the device names: bits 1 and 2 of it.
    pub open spec fn spec_from_codec(codec: u8) -> DiscFormat {
        let bits = (codec / 2) % 4;
        if bits == 0 {
            DiscFormat::LP4
        } else if bits == 1 {
            DiscFormat::LP2
        } else if bits == 2 {
            DiscFormat::SPMono
        } else {
            DiscFormat::SPStereo
        }
    }

    /// The format that a codec byte of the device names: bits 1 and 2 of it.
    pub fn from_codec(codec: u8) -> (format: DiscFormat)
        ensures
            format == DiscFormat::spec_from_codec(codec),
            format.spec_code() == codec & 0x06,
    {
        assert((codec / 2) % 4 == 0 ==> codec & 0x06 == 0) by (bit_vector);
        assert((codec / 2) % 4 == 1 ==> codec & 0x06 == 2) by (bit_vector);
        assert((codec / 2) % 4 == 2 ==> codec & 0x06 == 4) by (bit_vector);
        assert((codec / 2) % 4 == 3 ==> codec & 0x06 == 6) by (bit_vector);
        let bits = (codec / 2) % 4;
        if bits == 0 {
            DiscFormat::LP4
        } else if bits == 1 {
            DiscFormat::LP2
        } else if bits == 2 {
            DiscFormat::SPMono
        } else {
            DiscFormat::SPStereo
        }
    }
}

/// The format of the audio
#[derive(Clone, Copy, Debug, PartialEq, Eq, Hash, Structural)]
pub enum WireFormat {
    Pcm,
    L105kbps,
    LP2,
    LP4,
}

impl WireFormat {
    /// The byte of the format on the wire.
    pub open spec fn spec_code(self) -> u8 {
        match self {
            WireFormat::Pcm => 0x00,
            WireFormat::L105kbps => 0x90,
            WireFormat::LP2 => 0x94,
            WireFormat::LP4 => 0xA8,
        }
    }

    /// The byte of the format on the wire.
    pub fn code(self) -> (c: u8)
        ensures
            c == self.spec_code(),
    {
        match self {
            WireFormat::Pcm => 0x00,
            WireFormat::L105kbps => 0x90,
            WireFormat::LP2 => 0x94,
            WireFormat::LP4 => 0xA8,
        }
    }

    /// The size of a frame of the format, in bytes.
    pub open spec fn spec_frame_size(self) -> u16 {
        match self {
            WireFormat::Pcm => 2048,
            WireFormat::LP2 => 192,
            WireFormat::L105kbps => 152,
            WireFormat::LP4 => 96,
        }
    }

    /// The size of a frame of the format, in bytes.
    pub fn frame_size(&self) -> (size: u16)
        ensures
            size == self.spec_frame_size(),
            size > 0,
            size % 8 == 0,
    {
        match self {
            WireFormat::Pcm => 2048,
            WireFormat::LP2 => 192,
            WireFormat::L105kbps => 152,
            WireFormat::LP4 => 96,
        }
    }

    /// The format on the disc of audio that arrives in this format.
    pub open spec fn spec_disc_for_wire(self) -> DiscFormat {
        match self {
            WireFormat::Pcm => DiscFormat::SPStereo,
            WireFormat::L105kbps => DiscFormat::LP2,
            WireFormat::LP2 => DiscFormat::LP2,
            WireFormat::LP4 => DiscFormat::LP4,
        }
    }

    /// The format on the disc of audio that arrives in this format.
    pub fn disc_for_wire(&self) -> (format: DiscFormat)
        ensures
            format == self.spec_disc_for_wire(),
    {
        match self {
            WireFormat::Pcm => DiscFormat::SPStereo,
            WireFormat::L105kbps => DiscFormat::LP2,
            WireFormat::LP2 => DiscFormat::LP2,
            WireFormat::LP4 => DiscFormat::LP4,
        }
    }
}

/// The encoding of the audio
#[derive(Clone, Copy, Debug, PartialEq, Eq, Structural)]
pub enum Encoding {
    SP,
    LP2,
    LP4,
}

impl Encoding {
    /// The encoding that a byte of the device names.
    pub open spec fn spec_from_code(code: u8) -> Option<Encoding> {
        if code == 0x90 {
            Some(Encoding::SP)
        } else if code == 0x92 {
            Some(Encoding::LP2)
        } else if code == 0x93 {
            Some(Encoding::LP4)
        } else {
            None
        }
    }

    /// The encoding that a byte of the device names.
    pub fn from_code(code: u8) -> (e: Option<Encoding>)
        ensures
            e == Encoding::spec_from_code(code),
    {
        if code == 0x90 {
            Some(Encoding::SP)
        } else if code == 0x92 {
            Some(Encoding::LP2)
        } else if code == 0x93 {
            Some(Encoding::LP4)
        } else {
            None
        }
    }

    /// The name of the encoding.
    pub open spec fn spec_name(&self) -> Seq<char> {
        match self {
            Encoding::SP => "sp"@,
            Encoding::LP2 => "lp2"@,
            Encoding::LP4 => "lp4"@,
        }
    }

    /// The name in lower case.
    pub fn name(&self) -> (n: &'static str)
        ensures
            n@ == self.spec_name(),
    {
        match self {
            Encoding::SP => "sp",
            Encoding::LP2 => "lp2",
            Encoding::LP4 => "lp4",
        }
    }
}

/// The number of channels in the audio
#[derive(Clone, Copy, Debug, PartialEq, Eq, Structural)]
pub enum Channels {
    Mono,
    Stereo,
}

impl Channels {
    /// The channels that a byte of the device names.
    pub open spec fn spec_from_code(code: u8) -> Option<Channels> {
        if code == 0x00 {
            Some(Channels::Stereo)
        } else if code == 0x01 {
            Some(Channels::Mono)
        } else {
            None
        }
    }

    /// The channels that a byte of the device names.
    pub fn from_code(code: u8) -> (c: Option<Channels>)
        ensures
            c == Channels::spec_from_code(code),
    {
        if code == 0x00 {
            Some(Channels::Stereo)
        } else if code == 0x01 {
            Some(Channels::Mono)
        } else {
            None
        }
    }

    /// The name of the channel layout.
    pub open spec fn spec_name(&self) -> Seq<char> {
        match self {
            Channels::Mono => "mono"@,
            Channels::Stereo => "stereo"@,
        }
    }

    /// The name in lower case.
    pub fn name(&self) -> (n: &'static str)
        ensures
            n@ == self.spec_name(),
    {
        match self {
            Channels::Mono => "mono",
            Channels::Stereo => "stereo",
        }
    }
}

/// The protected flag on a track
#[derive(Clone, Copy, Debug, PartialEq, Eq, Structural)]
pub enum TrackFlag {
    Protected,
    Unprotected,
}

impl TrackFlag {
    /// The flag that a byte of the device names.
    pub open spec fn spec_from_u8(flags: u8) -> Option<TrackFlag> {
        if flags == 0x03 {
            Some(TrackFlag::Protected)
        } else if flags == 0x00 {
            Some(TrackFlag::Unprotected)
        } else {
            None
        }
    }

    /// The flag that a byte of the device names.
    pub fn from_u8(flags: u8) -> (f: Option<TrackFlag>)
        ensures
            f == TrackFlag::spec_from_u8(flags),
    {
        if flags == 0x03 {
            Some(TrackFlag::Protected)
        } else if flags == 0x00 {
            Some(TrackFlag::Unprotected)
        } else {
            None
        }
    }

    /// The name of the flag.
    pub open spec fn spec_name(&self) -> Seq<char> {
        match self {
            TrackFlag::Protected => "protected"@,
            TrackFlag::Unprotected => "unprotected"@,
        }
    }

    /// The name in lower case.
    pub fn name(&self) -> (n: &'static str)
        ensures
            n@ == self.spec_name(),
    {
        match self {
            TrackFlag::Protected => "protected",
            TrackFlag::Unprotected => "unprotected",
        }
    }
}

/// The write protect flag on a disc
#[derive(Clone, Copy, Debug, PartialEq, Eq, Structural)]
pub enum DiscFlag {
    Writable,
    WriteProtected,
}

impl DiscFlag {
    /// The bit of the flag in the flags of a disc.
    pub open spec fn spec_mask(self) -> u8 {
        match self {
            DiscFlag::Writable => 0x10,
            DiscFlag::WriteProtected => 0x40,
        }
    }

    /// The bit of the flag in the flags of a disc.
    pub fn mask(self) -> (m: u8)
        ensures
            m == self.spec_mask(),
    {
        match self {
            DiscFlag::Writable => 0x10,
            DiscFlag::WriteProtected => 0x40,
        }
    }
}

/// How much of NetMD a device implements.
#[derive(Clone, Copy, Debug, PartialEq, Eq, Structural)]
pub enum NetMDLevel {
    /// Network MD
    Level1,
    /// Program play MD
    Level2,
    /// Editing MD
    Level3,
}

impl NetMDLevel {
    /// The level that an implementation profile names.
    pub open spec fn spec_try_from(item: u8) -> Result<NetMDLevel, InterfaceError> {
        if item == 0x20 {
            Ok(NetMDLevel::Level1)
        } else if item == 0x50 {
            Ok(NetMDLevel::Level2)
        } else if item == 0x70 {
            Ok(NetMDLevel::Level3)
        } else {
            Err(InterfaceError::InvalidLevel(item))
        }
    }

    /// The level that an implementation profile names.
    pub fn try_from(item: u8) -> (level: Result<NetMDLevel, InterfaceError>)
        ensures
            level == NetMDLevel::spec_try_from(item),
    {
        if item == 0x20 {
            Ok(NetMDLevel::Level1)
        } else if item == 0x50 {
            Ok(NetMDLevel::Level2)
        } else if item == 0x70 {
            Ok(NetMDLevel::Level3)
        } else {
            Err(InterfaceError::InvalidLevel(item))
        }
    }
}

/// A part of the device's records that is opened before it is read or
/// written, and closed after.
#[derive(Clone, Copy, Debug, PartialEq, Eq, Structural)]
pub enum Descriptor {
    DiscTitleTD,
    AudioUTOC1TD,
    AudioUTOC4TD,
    Dstid,
    AudioContentsTD,
    RootTD,
    DiscSubunitIdentifier,
    OperatingStatusBlock,
}

impl Descriptor {
    /// The bytes that select the descriptor.
    pub open spec fn spec_array(self) -> Seq<u8> {
        match self {
            Descriptor::DiscTitleTD => seq![0x10u8, 0x18u8, 0x01u8],
            Descriptor::AudioUTOC1TD => seq![0x10u8, 0x18u8, 0x02u8],
            Descriptor::AudioUTOC4TD => seq![0x10u8, 0x18u8, 0x03u8],
            Descriptor::Dstid => seq![0x10u8, 0x18u8, 0x04u8],
            Descriptor::AudioContentsTD => seq![0x10u8, 0x10u8, 0x01u8],
            Descriptor::RootTD => seq![0x10u8, 0x10u8, 0x00u8],
            Descriptor::DiscSubunitIdentifier => seq![0x00u8],
            Descriptor::OperatingStatusBlock => seq![0x80u8, 0x00u8],
        }
    }

    /// The bytes that select the descriptor.
    pub fn get_array(&self) -> (bytes: Vec<u8>)
        ensures
            bytes@ == self.spec_array(),
    {
        let bytes = match self {
            Descriptor::DiscTitleTD => vec![0x10, 0x18, 0x01],
            Descriptor::AudioUTOC1TD => vec![0x10, 0x18, 0x02],
            Descriptor::AudioUTOC4TD => vec![0x10, 0x18, 0x03],
            Descriptor::Dstid => vec![0x10, 0x18, 0x04],
            Descriptor::AudioContentsTD => vec![0x10, 0x10, 0x01],
            Descriptor::RootTD => vec![0x10, 0x10, 0x00],
            Descriptor::DiscSubunitIdentifier => vec![0x00],
            Descriptor::OperatingStatusBlock => vec![0x80, 0x00],
        };
        assert(bytes@ == self.spec_array());
        bytes
    }
}

/// What is done to a descriptor.
#[derive(Clone, Copy, Debug, PartialEq, Eq, Structural)]
pub enum DescriptorAction {
    OpenRead,
    OpenWrite,
    Close,
}

impl DescriptorAction {
    /// The byte of the action on the wire.
    pub open spec fn spec_code(self) -> u8 {
        match self {
            DescriptorAction::OpenRead => 1,
            DescriptorAction::OpenWrite => 3,
            DescriptorAction::Close => 0,
        }
    }

    /// The byte of the action on the wire.
    pub fn code(self) -> (c: u8)
        ensures
            c == self.spec_code(),
    {
        match self {
            DescriptorAction::OpenRead => 1,
            DescriptorAction::OpenWrite => 3,
            DescriptorAction::Close => 0,
        }
    }
}

/// The first byte of a message: what a request asks for, or how a reply
/// answers.
#[derive(Clone, Copy, Debug, PartialEq, Eq, Structural)]
pub enum NetmdStatus {
    Control,
    Status,
    SpecificInquiry,
    Notify,
    GeneralInquiry,
    NotImplemented,
    Accepted,
    Rejected,
    InTransition,
    Implemented,
    Changed,
    Interim,
}

/// A status byte that names no status.
#[derive(Clone, Copy, Debug, PartialEq, Eq, Structural)]
pub struct StatusError(pub u16);

impl NetmdStatus {
    /// The byte of the status on the wire.
    pub open spec fn spec_code(self) -> u8 {
        match self {
            NetmdStatus::Control => 0x00,
            NetmdStatus::Status => 0x01,
            NetmdStatus::SpecificInquiry => 0x02,
            NetmdStatus::Notify => 0x03,
            NetmdStatus::GeneralInquiry => 0x04,
            NetmdStatus::NotImplemented => 0x08,
            NetmdStatus::Accepted => 0x09,
            NetmdStatus::Rejected => 0x0a,
            NetmdStatus::InTransition => 0x0b,
            NetmdStatus::Implemented => 0x0c,
            NetmdStatus::Changed => 0x0d,
            NetmdStatus::Interim => 0x0f,
        }
    }

    /// The byte of the status on the wire.
    pub fn code(self) -> (c: u8)
        ensures
            c == self.spec_code(),
    {
        match self {
            NetmdStatus::Control => 0x00,
            NetmdStatus::Status => 0x01,
            NetmdStatus::SpecificInquiry => 0x02,
            NetmdStatus::Notify => 0x03,
            NetmdStatus::GeneralInquiry => 0x04,
            NetmdStatus::NotImplemented => 0x08,
            NetmdStatus::Accepted => 0x09,
            NetmdStatus::Rejected => 0x0a,
            NetmdStatus::InTransition => 0x0b,
            NetmdStatus::Implemented => 0x0c,
            NetmdStatus::Changed => 0x0d,
            NetmdStatus::Interim => 0x0f,
        }
    }

    /// The status that a byte names.
    pub open spec fn spec_try_from(item: u8) -> Result<NetmdStatus, StatusError> {
        if item == 0x00 {
            Ok(NetmdStatus::Control)
        } else if item == 0x01 {
            Ok(NetmdStatus::Status)
        } else if item == 0x02 {
            Ok(NetmdStatus::SpecificInquiry)
        } else if item == 0x03 {
            Ok(NetmdStatus::Notify)
        } else if item == 0x04 {
            Ok(NetmdStatus::GeneralInquiry)
        } else if item == 0x08 {
            Ok(NetmdStatus::NotImplemented)
        } else if item == 0x09 {
            Ok(NetmdStatus::Accepted)
        } else if item == 0x0a {
            Ok(NetmdStatus::Rejected)
        } else if item == 0x0b {
            Ok(NetmdStatus::InTransition)
        } else if item == 0x0c {
            Ok(NetmdStatus::Implemented)
        } else if item == 0x0d {
            Ok(NetmdStatus::Changed)
        } else if item == 0x0f {
            Ok(NetmdStatus::Interim)
        } else {
            Err(StatusError(item as u16))
        }
    }

    /// The status that a byte names.
    pub fn try_from(item: u8) -> (status: Result<NetmdStatus, StatusError>)
        ensures
            status == NetmdStatus::spec_try_from(item),
    {
        if item == 0x00 {
            Ok(NetmdStatus::Control)
        } else if item == 0x01 {
            Ok(NetmdStatus::Status)
        } else if item == 0x02 {
            Ok(NetmdStatus::SpecificInquiry)
        } else if item == 0x03 {
            Ok(NetmdStatus::Notify)
        } else if item == 0x04 {
            Ok(NetmdStatus::GeneralInquiry)
        } else if item == 0x08 {
            Ok(NetmdStatus::NotImplemented)
        } else if item == 0x09 {
            Ok(NetmdStatus::Accepted)
        } else if item == 0x0a {
            Ok(NetmdStatus::Rejected)
        } else if item == 0x0b {
            Ok(NetmdStatus::InTransition)
        } else if item == 0x0c {
            Ok(NetmdStatus::Implemented)
        } else if item == 0x0d {
            Ok(NetmdStatus::Changed)
        } else if item == 0x0f {
            Ok(NetmdStatus::Interim)
        } else {
            Err(StatusError(item as u16))
        }
    }
}

/// A key or token of the secure session.
#[derive(Clone, Copy, Debug, PartialEq, Eq, Structural)]
pub enum SessionField {
    LeafId,
    HostNonce,
    DeviceNonce,
    ContentId,
    KeyEncryptionKey,
    SessionKey,
    Signature,
}

/// An error when encrypting packets
#[derive(Clone, Copy, Debug, PartialEq, Eq, Structural)]
pub enum EncryptionError {
    /// The depth of a key chain is not within 1 and 63.
    InvalidDepth(i32),
    /// A key or token has the wrong length.
    InvalidLength(SessionField, usize),
}

/// An error for any action in the interface
#[derive(Clone, Copy, Debug, PartialEq, Eq, Structural)]
pub enum InterfaceError {
    /// A template could not be applied.
    QueryError(QueryError),
    /// Communication with the device failed.
    CommunicationError(NetMDError),
    /// The track is in two groups.
    GroupError(u16),
    /// A key or token of the secure session is malformed.
    EncryptionError(EncryptionError),
    /// The device answered with a status byte that names no status.
    InvalidStatus(StatusError),
    /// No supported media types found.
    NoSupportedMedia,
    /// The implementation profile names no level.
    InvalidLevel(u8),
    /// The byte names no encoding.
    InvalidEncoding(u8),
    /// The byte names no disc format or channel layout.
    InvalidDiscFormat(u8),
    /// The device rejected the message.
    Rejected,
    /// The title is the same as the target title.
    TitleError,
    /// The text is longer than its place, or than this machine can encode.
    TitleTooLong,
    /// The device replied that the command was not recognized.
    NotImplemented,
    /// The maximum number of retry attempts was reached.
    MaxRetries,
    /// The device replied with a status that is no answer.
    Unknown,
}

/// A result of the connection as a result of the interface.
pub open spec fn lift<T>(r: Result<T, NetMDError>) -> Result<T, InterfaceError> {
    match r {
        Ok(t) => Ok(t),
        Err(e) => Err(InterfaceError::CommunicationError(e)),
    }
}

/// A result of the codec as a result of the interface.
pub open spec fn lift_query<T>(r: Result<T, QueryError>) -> Result<T, InterfaceError> {
    match r {
        Ok(t) => Ok(t),
        Err(e) => Err(InterfaceError::QueryError(e)),
    }
}

/// What a result with values holds.
pub open spec fn values_of<E>(r: Result<Vec<QueryValue>, E>) -> Result<Seq<Value>, E> {
    match r {
        Ok(v) => Ok(values_view(v@)),
        Err(e) => Err(e),
    }
}

/// What is made of a reply by its status byte: an error, the reply, or, for
/// an interim reply that is not wanted, nothing yet.
pub open spec fn reply_verdict(data: Seq<u8>, accept_interim: bool) -> Option<
    Result<Seq<u8>, InterfaceError>,
> {
    if data.len() == 0 {
        Some(Err(InterfaceError::CommunicationError(NetMDError::InvalidResult)))
    } else {
        match NetmdStatus::spec_try_from(data[0]) {
            Err(e) => Some(Err(InterfaceError::InvalidStatus(e))),
            Ok(NetmdStatus::NotImplemented) => Some(Err(InterfaceError::NotImplemented)),
            Ok(NetmdStatus::Rejected) => Some(Err(InterfaceError::Rejected)),
            Ok(NetmdStatus::Interim) => if accept_interim {
                Some(Ok(data))
            } else {
                None
            },
            Ok(NetmdStatus::Accepted) => Some(Ok(data)),
            Ok(NetmdStatus::Implemented) => Some(Ok(data)),
            Ok(_) => Some(Err(InterfaceError::Unknown)),
        }
    }
}

/// The reading of an answer. A reply is fetched and judged by its status
/// byte. After an interim reply that is not wanted, the reply is fetched
/// again after a pause, up to four times; the pauses grow with
/// [`spec_backoff`]. `attempt` interim replies have been passed over.
pub open spec fn spec_read_answer(link: Link, accept_interim: bool, attempt: nat) -> (
    Link,
    Result<Seq<u8>, InterfaceError>,
)
    decreases MAX_INTERIM_READ_ATTEMPTS + 1 - attempt,
{
    let (read, reply) = spec_read_reply(link, false, None);
    match reply {
        Err(e) => (read, Err(InterfaceError::CommunicationError(e))),
        Ok(data) => match reply_verdict(data, accept_interim) {
            Some(verdict) => (read, verdict),
            None => if attempt >= MAX_INTERIM_READ_ATTEMPTS {
                (read, Err(InterfaceError::MaxRetries))
            } else {
                let (slept, pause) = spec_plain(
                    read,
                    TransferView::Sleep {
                        millis: spec_backoff(INTERIM_RESPONSE_RETRY_INTERVAL, attempt),
                    },
                );
                match pause {
                    Err(e) => (slept, Err(InterfaceError::CommunicationError(e))),
                    Ok(_) => spec_read_answer(slept, accept_interim, attempt + 1),
                }
            },
        },
    }
}

/// Whether an error is one that the status byte of a reply gives.
pub open spec fn is_refusal(e: InterfaceError) -> bool {
    e is Rejected || e is NotImplemented || e is Unknown || e is InvalidStatus
}

/// An answer that is refused by its status byte stays at hand: where the
/// reading of an answer ends on such an error, the bytes that the last
/// transfer gave are those of the reply that was refused.
pub proof fn lemma_refused_reply_is_kept(link: Link, accept_interim: bool, attempt: nat)
    requires
        attempt <= MAX_INTERIM_READ_ATTEMPTS,
    ensures
        match spec_read_answer(link, accept_interim, attempt).1 {
            Err(e) => is_refusal(e) ==> (spec_last_data(
                spec_read_answer(link, accept_interim, attempt).0,
            ) matches Some(data) && reply_verdict(data, accept_interim) == Some(
                Err::<Seq<u8>, InterfaceError>(e),
            )),
            Ok(_) => true,
        },
    decreases MAX_INTERIM_READ_ATTEMPTS + 1 - attempt,
{
    let (read, reply) = spec_read_reply(link, false, None);
    match reply {
        Err(_) => {},
        Ok(data) => {
            let (ready, waited) = spec_await_reply(link, 0);
            assert(waited is Ok);
            assert(spec_last_data(read) == Some(data));
            if reply_verdict(data, accept_interim) is None && attempt < MAX_INTERIM_READ_ATTEMPTS {
                let pause = TransferView::Sleep {
                    millis: spec_backoff(INTERIM_RESPONSE_RETRY_INTERVAL, attempt),
                };
                let (slept, paused) = spec_plain(read, pause);
                if paused is Ok {
                    lemma_refused_reply_is_kept(slept, accept_interim, attempt + 1);
                }
            }
        },
    }
}

/// The reading of an answer fetches no more replies than are left of its
/// five, the first and four more behind interim replies, and makes at most
/// forty polls for each.
pub proof fn lemma_read_answer_bound(link: Link, accept_interim: bool, attempt: nat, from: nat)
    requires
        attempt <= MAX_INTERIM_READ_ATTEMPTS,
        from <= link.asked.len(),
    ensures
        spec_read_answer(link, accept_interim, attempt).0.asked.len() >= link.asked.len(),
        count_fetches(spec_read_answer(link, accept_interim, attempt).0.asked, from)
            <= count_fetches(link.asked, from) + MAX_INTERIM_READ_ATTEMPTS + 1 - attempt,
        count_polls(spec_read_answer(link, accept_interim, attempt).0.asked, from) <= count_polls(
            link.asked,
            from,
        ) + MAX_POLLS * (MAX_INTERIM_READ_ATTEMPTS + 1 - attempt),
    decreases MAX_INTERIM_READ_ATTEMPTS + 1 - attempt,
{
    lemma_read_reply_polls(link, false, None, from);
    let (read, reply) = spec_read_reply(link, false, None);
    match reply {
        Err(_) => {},
        Ok(data) => {
            if reply_verdict(data, accept_interim) is None && attempt < MAX_INTERIM_READ_ATTEMPTS {
                let pause = TransferView::Sleep {
                    millis: spec_backoff(INTERIM_RESPONSE_RETRY_INTERVAL, attempt),
                };
                lemma_transfer_asks(read, pause, from);
                let (slept, paused) = spec_plain(read, pause);
                assert(slept == spec_transfer(read, pause).0);
                if paused is Ok {
                    lemma_read_answer_bound(slept, accept_interim, attempt + 1, from);
                }
            }
        },
    }
}

/// One answer takes at most five fetches of a reply: the first, and four
/// more after interim replies.
pub proof fn lemma_read_answer_retries(link: Link, accept_interim: bool)
    ensures
        count_fetches(spec_read_answer(link, accept_interim, 0).0.asked, link.asked.len()) <= 5,
        count_polls(spec_read_answer(link, accept_interim, 0).0.asked, link.asked.len()) <= 200,
{
    lemma_read_answer_bound(link, accept_interim, 0, link.asked.len());
}

/// The status byte that opens a request.
pub open spec fn request_status(test: bool) -> u8 {
    if test {
        0x04
    } else {
        0x00
    }
}

/// The sending of a request: the status byte of a request, then the query.
pub open spec fn spec_send_request(link: Link, query: Seq<u8>, test: bool) -> (
    Link,
    Result<(), InterfaceError>,
) {
    let (sent, r) = spec_send_command(link, seq![request_status(test)] + query, false);
    (sent, lift(r))
}

/// One exchange: a request, then its answer.
pub open spec fn spec_send_query(link: Link, query: Seq<u8>, test: bool, accept_interim: bool) -> (
    Link,
    Result<Seq<u8>, InterfaceError>,
) {
    let (sent, r) = spec_send_request(link, query, test);
    match r {
        Err(e) => (sent, Err(e)),
        Ok(_) => spec_read_answer(sent, accept_interim, 0),
    }
}

/// The query that opens or closes a descriptor.
pub open spec fn descriptor_query(descriptor: Descriptor, action: DescriptorAction) -> Seq<u8> {
    seq![0x18u8, 0x08u8] + descriptor.spec_array() + seq![action.spec_code(), 0x00u8]
}

/// The opening or closing of a descriptor: one exchange, whose reply is not
/// read further.
pub open spec fn spec_change_descriptor_state(
    link: Link,
    descriptor: Descriptor,
    action: DescriptorAction,
) -> (Link, Result<(), InterfaceError>) {
    let (after, r) = spec_send_query(link, descriptor_query(descriptor, action), false, false);
    (
        after,
        match r {
            Ok(_) => Ok(()),
            Err(e) => Err(e),
        },
    )
}

/// An exchange from templates: the query is assembled from a template and
/// values, and sent.
pub open spec fn spec_request(
    link: Link,
    template: Seq<char>,
    args: Seq<Value>,
    test: bool,
    accept_interim: bool,
) -> (Link, Result<Seq<u8>, InterfaceError>) {
    match spec_format_query(template, args) {
        Err(e) => (link, Err(InterfaceError::QueryError(e))),
        Ok(query) => spec_send_query(link, query, test, accept_interim),
    }
}

/// An exchange from templates whose reply is read with a template.
pub open spec fn spec_exchange(
    link: Link,
    template: Seq<char>,
    args: Seq<Value>,
    accept_interim: bool,
    reply_template: Seq<char>,
) -> (Link, Result<Seq<Value>, InterfaceError>) {
    let (after, reply) = spec_request(link, template, args, false, accept_interim);
    (
        after,
        match reply {
            Err(e) => Err(e),
            Ok(data) => lift_query(spec_scan_query(data, reply_template)),
        },
    )
}

/// An exchange inside a descriptor: the descriptor is opened for reading,
/// the exchange is made and its reply read, and the descriptor is closed. The
/// first failure ends it.
pub open spec fn spec_ask(
    link: Link,
    descriptor: Option<Descriptor>,
    template: Seq<char>,
    args: Seq<Value>,
    reply_template: Seq<char>,
) -> (Link, Result<Seq<Value>, InterfaceError>) {
    match descriptor {
        None => spec_exchange(link, template, args, false, reply_template),
        Some(d) => {
            let (opened, o) = spec_change_descriptor_state(link, d, DescriptorAction::OpenRead);
            match o {
                Err(e) => (opened, Err(e)),
                Ok(_) => {
                    let (asked, values) = spec_exchange(
                        opened,
                        template,
                        args,
                        false,
                        reply_template,
                    );
                    match values {
                        Err(e) => (asked, Err(e)),
                        Ok(v) => {
                            let (closed, c) = spec_change_descriptor_state(
                                asked,
                                d,
                                DescriptorAction::Close,
                            );
                            (
                                closed,
                                match c {
                                    Err(e) => Err(e),
                                    Ok(_) => Ok(v),
                                },
                            )
                        },
                    }
                },
            }
        },
    }
}

/// The number at a place among values read.
pub open spec fn spec_number_at(values: Seq<Value>, i: int) -> Result<i64, InterfaceError> {
    if 0 <= i < values.len() {
        match values[i] {
            Value::Number(n) => Ok(n),
            Value::Array(_) => Err(InterfaceError::QueryError(QueryError::TypeMismatch)),
        }
    } else {
        Err(InterfaceError::QueryError(QueryError::MissingArgument))
    }
}

/// The array at a place among values read.
pub open spec fn spec_array_at(values: Seq<Value>, i: int) -> Result<Seq<u8>, InterfaceError> {
    if 0 <= i < values.len() {
        match values[i] {
            Value::Array(a) => Ok(a),
            Value::Number(_) => Err(InterfaceError::QueryError(QueryError::TypeMismatch)),
        }
    } else {
        Err(InterfaceError::QueryError(QueryError::MissingArgument))
    }
}

/// The number at a place among values read.
pub fn number_at(values: &Vec<QueryValue>, i: usize) -> (r: Result<i64, InterfaceError>)
    ensures
        r == spec_number_at(values_view(values@), i as int),
{
    if i < values.len() {
        match &values[i] {
            QueryValue::Number(n) => Ok(*n),
            QueryValue::Array(_) => Err(InterfaceError::QueryError(QueryError::TypeMismatch)),
        }
    } else {
        Err(InterfaceError::QueryError(QueryError::MissingArgument))
    }
}

/// The array at a place among values read.
pub fn array_at(values: &Vec<QueryValue>, i: usize) -> (r: Result<Vec<u8>, InterfaceError>)
    ensures
        bytes_of(r) == spec_array_at(values_view(values@), i as int),
{
    if i < values.len() {
        match &values[i] {
            QueryValue::Array(a) => Ok(a.clone()),
            QueryValue::Number(_) => Err(InterfaceError::QueryError(QueryError::TypeMismatch)),
        }
    } else {
        Err(InterfaceError::QueryError(QueryError::MissingArgument))
    }
}

/// A time in four numbers of a reply, from the place `at`.
pub fn raw_time_at(values: &Vec<QueryValue>, at: usize) -> (r: Result<RawTime, InterfaceError>)
    requires
        at + 3 <= usize::MAX,
    ensures
        r == raw_time_in(values_view(values@), at as int),
{
    match (
        number_at(values, at),
        number_at(values, at + 1),
        number_at(values, at + 2),
        number_at(values, at + 3),
    ) {
        (Ok(h), Ok(m), Ok(s), Ok(f)) => Ok(
            RawTime {
                hours: to_unsigned(h),
                minutes: to_unsigned(m),
                seconds: to_unsigned(s),
                frames: to_unsigned(f),
            },
        ),
        (Err(e), _, _, _) => Err(e),
        (_, Err(e), _, _) => Err(e),
        (_, _, Err(e), _) => Err(e),
        (_, _, _, Err(e)) => Err(e),
    }
}

/// The 64-bit pattern of a number, read as unsigned.
pub fn to_unsigned(n: i64) -> (u: u64)
    ensures
        u == unsigned64(n),
{
    if n >= 0 {
        n as u64
    } else {
        ((n + 0x7fff_ffff_ffff_ffff) + 1) as u64 + 0x8000_0000_0000_0000
    }
}

/// The lowest byte of a number.
pub open spec fn low8(n: i64) -> u8 {
    (unsigned64(n) % 0x100) as u8
}

/// The lowest two bytes of a number.
pub open spec fn low16(n: i64) -> u16 {
    (unsigned64(n) % 0x1_0000) as u16
}

/// The lowest byte of a number.
pub fn to_low8(n: i64) -> (b: u8)
    ensures
        b == low8(n),
{
    if n >= 0 {
        (n % 0x100) as u8
    } else {
        let up: u64 = ((n + 0x7fff_ffff_ffff_ffff) + 1) as u64 + 0x8000_0000_0000_0000;
        (up % 0x100) as u8
    }
}

/// The lowest two bytes of a number.
pub fn to_low16(n: i64) -> (w: u16)
    ensures
        w == low16(n),
{
    if n >= 0 {
        (n % 0x1_0000) as u16
    } else {
        let up: u64 = ((n + 0x7fff_ffff_ffff_ffff) + 1) as u64 + 0x8000_0000_0000_0000;
        (up % 0x1_0000) as u16
    }
}

/// The request of `playback_control`.
pub const PLAYBACK_CONTROL_REQUEST: &'static str = "18c3 ff %b 000000";

/// The reply of `playback_control`.
pub const PLAYBACK_CONTROL_REPLY: &'static str = "18c3 00 %b 000000";

/// The request of `stop`.
pub const STOP_REQUEST: &'static str = "18c5 ff 00000000";

/// The reply of `stop`.
pub const STOP_REPLY: &'static str = "18c5 00 00000000";

/// The request of `acquire`.
pub const ACQUIRE_REQUEST: &'static str = "ff 010c ffff ffff ffff ffff ffff ffff";

/// The reply of `acquire`.
pub const ACQUIRE_REPLY: &'static str = "ff 010c ffff ffff ffff ffff ffff ffff";

/// The request of `release`.
pub const RELEASE_REQUEST: &'static str = "ff 0100 ffff ffff ffff ffff ffff ffff";

/// The reply of `release`.
pub const RELEASE_REPLY: &'static str = "ff 0100 ffff ffff ffff ffff ffff ffff";

/// The request of `status`.
pub const STATUS_REQUEST: &'static str = "1809 8001 0230 8800 0030 8804 00 ff00 00000000";

/// The reply of `status`.
pub const STATUS_REPLY: &'static str = "1809 8001 0230 8800 0030 8804 00 1000 00090000 %x";

/// The request of `playback_status_query`.
pub const PLAYBACK_STATUS_QUERY_REQUEST: &'static str = "1809 8001 0330 %w 0030 8805 0030 %w 00 ff00 00000000";

/// The reply of `playback_status_query`.
pub const PLAYBACK_STATUS_QUERY_REPLY: &'static str = "1809 8001 0330 %?%? %?%? %?%? %?%? %?%? %? 1000 00%?0000 %x %?";

/// The request of `go_to_track`.
pub const GO_TO_TRACK_REQUEST: &'static str = "1850 ff010000 0000 %w";

/// The reply of `go_to_track`.
pub const GO_TO_TRACK_REPLY: &'static str = "1850 00010000 0000 %w";

/// The request of `go_to_time`.
pub const GO_TO_TIME_REQUEST: &'static str = "1850 ff000000 0000 %w %B%B%B%B";

/// The reply of `go_to_time`.
pub const GO_TO_TIME_REPLY: &'static str = "1850 00000000 %?%? %w %B%B%B%B";

/// The request of `track_change`.
pub const TRACK_CHANGE_REQUEST: &'static str = "1850 ff10 00000000 %w";

/// The reply of `track_change`.
pub const TRACK_CHANGE_REPLY: &'static str = "1850 0010 00000000 %?%?";

/// The request of `erase_disc`.
pub const ERASE_DISC_REQUEST: &'static str = "1840 ff 0000";

/// The reply of `erase_disc`.
pub const ERASE_DISC_REPLY: &'static str = "1840 00 0000";

/// The request of `disc_flags`.
pub const DISC_FLAGS_REQUEST: &'static str = "1806 01101000 ff00 0001000b";

/// The reply of `disc_flags`.
pub const DISC_FLAGS_REPLY: &'static str = "1806 01101000 1000 0001000b %b";

/// The request of `track_count`.
pub const TRACK_COUNT_REQUEST: &'static str = "1806 02101001 3000 1000 ff00 00000000";

/// The reply of `track_count`.
pub const TRACK_COUNT_REPLY: &'static str = "1806 02101001 %?%? %?%? 1000 00%?0000 0006 0010000200%b";

/// The request of `raw_track_info`.
pub const RAW_TRACK_INFO_REQUEST: &'static str = "1806 02201001 %w %w %w ff00 00000000";

/// The reply of `raw_track_info`.
pub const RAW_TRACK_INFO_REPLY: &'static str = "1806 02201001 %?%? %?%? %?%? 1000 00%?0000 %x";

/// The request of `track_flags`.
pub const TRACK_FLAGS_REQUEST: &'static str = "1806 01201001 %w ff00 00010008";

/// The reply of `track_flags`.
pub const TRACK_FLAGS_REPLY: &'static str = "1806 01201001 %?%? 10 00 00010008 %b";

/// The request of `disable_new_track_protection`.
pub const DISABLE_NEW_TRACK_PROTECTION_REQUEST: &'static str = "1800 080046 f0030103 2b ff %w";

/// The reply of `disable_new_track_protection`.
pub const DISABLE_NEW_TRACK_PROTECTION_REPLY: &'static str = "1800 080046 f0030103 2b 00 %?%?";

/// The request of `enter_secure_session`.
pub const ENTER_SECURE_SESSION_REQUEST: &'static str = "1800 080046 f0030103 80 ff";

/// The reply of `enter_secure_session`.
pub const ENTER_SECURE_SESSION_REPLY: &'static str = "1800 080046 f0030103 80 00";

/// The request of `leave_secure_session`.
pub const LEAVE_SECURE_SESSION_REQUEST: &'static str = "1800 080046 f0030103 81 ff";

/// The reply of `leave_secure_session`.
pub const LEAVE_SECURE_SESSION_REPLY: &'static str = "1800 080046 f0030103 81 00";

/// The request of `session_key_forget`.
pub const SESSION_KEY_FORGET_REQUEST: &'static str = "1800 080046 f0030103 21 ff 000000";

/// The reply of `session_key_forget`.
pub const SESSION_KEY_FORGET_REPLY: &'static str = "1800 080046 f0030103 21 00 000000";

/// What `playback_control` does: one exchange, and what is made of its reply.
pub open spec fn spec_playback_control(link: Link, action: Action) -> (Link, Result<(), InterfaceError>) {
    let (after, read) = spec_ask(
        link,
        None,
        PLAYBACK_CONTROL_REQUEST@,
        seq![Value::Number(action.spec_code() as i64)],
        PLAYBACK_CONTROL_REPLY@,
    );
    (
        after,
        match read {
            Err(e) => Err(e),
            Ok(values) => Ok(()),
        },
    )
}

/// What `stop` does: one exchange, and what is made of its reply.
pub open spec fn spec_stop(link: Link) -> (Link, Result<(), InterfaceError>) {
    let (after, read) = spec_ask(
        link,
        None,
        STOP_REQUEST@,
        Seq::empty(),
        STOP_REPLY@,
    );
    (
        after,
        match read {
            Err(e) => Err(e),
            Ok(values) => Ok(()),
        },
    )
}

/// What `acquire` does: one exchange, and what is made of its reply.
pub open spec fn spec_acquire(link: Link) -> (Link, Result<(), InterfaceError>) {
    let (after, read) = spec_ask(
        link,
        None,
        ACQUIRE_REQUEST@,
        Seq::empty(),
        ACQUIRE_REPLY@,
    );
    (
        after,
        match read {
            Err(e) => Err(e),
            Ok(values) => Ok(()),
        },
    )
}

/// What `release` does: one exchange, and what is made of its reply.
pub open spec fn spec_release(link: Link) -> (Link, Result<(), InterfaceError>) {
    let (after, read) = spec_ask(
        link,
        None,
        RELEASE_REQUEST@,
        Seq::empty(),
        RELEASE_REPLY@,
    );
    (
        after,
        match read {
            Err(e) => Err(e),
            Ok(values) => Ok(()),
        },
    )
}

/// What `status` does: one exchange, and what is made of its reply.
pub open spec fn spec_status(link: Link) -> (Link, Result<Seq<u8>, InterfaceError>) {
    let (after, read) = spec_ask(
        link,
        Some(Descriptor::OperatingStatusBlock),
        STATUS_REQUEST@,
        Seq::empty(),
        STATUS_REPLY@,
    );
    (
        after,
        match read {
            Err(e) => Err(e),
            Ok(values) => spec_array_at(values, 0),
        },
    )
}

/// What `playback_status_query` does: one exchange, and what is made of its reply.
pub open spec fn spec_playback_status_query(link: Link, selector: u16, field: u16) -> (Link, Result<Seq<u8>, InterfaceError>) {
    let (after, read) = spec_ask(
        link,
        Some(Descriptor::OperatingStatusBlock),
        PLAYBACK_STATUS_QUERY_REQUEST@,
        seq![Value::Number(selector as i64), Value::Number(field as i64)],
        PLAYBACK_STATUS_QUERY_REPLY@,
    );
    (
        after,
        match read {
            Err(e) => Err(e),
            Ok(values) => spec_array_at(values, 0),
        },
    )
}

/// What `go_to_track` does: one exchange, and what is made of its reply.
pub open spec fn spec_go_to_track(link: Link, track_number: u16) -> (Link, Result<u16, InterfaceError>) {
    let (after, read) = spec_ask(
        link,
        None,
        GO_TO_TRACK_REQUEST@,
        seq![Value::Number(track_number as i64)],
        GO_TO_TRACK_REPLY@,
    );
    (
        after,
        match read {
            Err(e) => Err(e),
            Ok(values) => match spec_number_at(values, 0) { Ok(n) => Ok(low16(n)), Err(e) => Err(e) },
        },
    )
}

/// What `go_to_time` does: one exchange, and what is made of its reply.
pub open spec fn spec_go_to_time(link: Link, track_number: u16, hour: u8, minute: u8, second: u8, frame: u8) -> (Link, Result<u16, InterfaceError>) {
    let (after, read) = spec_ask(
        link,
        None,
        GO_TO_TIME_REQUEST@,
        seq![
            Value::Number(track_number as i64),
            Value::Number(hour as i64),
            Value::Number(minute as i64),
            Value::Number(second as i64),
            Value::Number(frame as i64),
        ],
        GO_TO_TIME_REPLY@,
    );
    (
        after,
        match read {
            Err(e) => Err(e),
            Ok(values) => match spec_number_at(values, 0) { Ok(n) => Ok(low16(n)), Err(e) => Err(e) },
        },
    )
}

/// What `track_change` does: one exchange, and what is made of its reply.
pub open spec fn spec_track_change(link: Link, direction: Direction) -> (Link, Result<(), InterfaceError>) {
    let (after, read) = spec_ask(
        link,
        None,
        TRACK_CHANGE_REQUEST@,
        seq![Value::Number(direction.spec_code() as i64)],
        TRACK_CHANGE_REPLY@,
    );
    (
        after,
        match read {
            Err(e) => Err(e),
            Ok(values) => Ok(()),
        },
    )
}

/// What `erase_disc` does: one exchange, and what is made of its reply.
pub open spec fn spec_erase_disc(link: Link) -> (Link, Result<(), InterfaceError>) {
    let (after, read) = spec_ask(
        link,
        None,
        ERASE_DISC_REQUEST@,
        Seq::empty(),
        ERASE_DISC_REPLY@,
    );
    (
        after,
        match read {
            Err(e) => Err(e),
            Ok(values) => Ok(()),
        },
    )
}

/// What `disc_flags` does: one exchange, and what is made of its reply.
pub open spec fn spec_disc_flags(link: Link) -> (Link, Result<u8, InterfaceError>) {
    let (after, read) = spec_ask(
        link,
        Some(Descriptor::RootTD),
        DISC_FLAGS_REQUEST@,
        Seq::empty(),
        DISC_FLAGS_REPLY@,
    );
    (
        after,
        match read {
            Err(e) => Err(e),
            Ok(values) => match spec_number_at(values, 0) { Ok(n) => Ok(low8(n)), Err(e) => Err(e) },
        },
    )
}

/// What `track_count` does: one exchange, and what is made of its reply.
pub open spec fn spec_track_count(link: Link) -> (Link, Result<u16, InterfaceError>) {
    let (after, read) = spec_ask(
        link,
        Some(Descriptor::AudioContentsTD),
        TRACK_COUNT_REQUEST@,
        Seq::empty(),
        TRACK_COUNT_REPLY@,
    );
    (
        after,
        match read {
            Err(e) => Err(e),
            Ok(values) => match spec_number_at(values, 0) { Ok(n) => Ok(low16(n)), Err(e) => Err(e) },
        },
    )
}

/// What `raw_track_info` does: one exchange, and what is made of its reply.
pub open spec fn spec_raw_track_info(link: Link, track: u16, selector: u16, field: u16) -> (Link, Result<Seq<u8>, InterfaceError>) {
    let (after, read) = spec_ask(
        link,
        Some(Descriptor::AudioContentsTD),
        RAW_TRACK_INFO_REQUEST@,
        seq![
            Value::Number(track as i64),
            Value::Number(selector as i64),
            Value::Number(field as i64),
        ],
        RAW_TRACK_INFO_REPLY@,
    );
    (
        after,
        match read {
            Err(e) => Err(e),
            Ok(values) => spec_array_at(values, 0),
        },
    )
}

/// What `track_flags` does: one exchange, and what is made of its reply.
pub open spec fn spec_track_flags(link: Link, track: u16) -> (Link, Result<u8, InterfaceError>) {
    let (after, read) = spec_ask(
        link,
        Some(Descriptor::AudioContentsTD),
        TRACK_FLAGS_REQUEST@,
        seq![Value::Number(track as i64)],
        TRACK_FLAGS_REPLY@,
    );
    (
        after,
        match read {
            Err(e) => Err(e),
            Ok(values) => match spec_number_at(values, 0) { Ok(n) => Ok(low8(n)), Err(e) => Err(e) },
        },
    )
}

/// What `disable_new_track_protection` does: one exchange, and what is made of its reply.
pub open spec fn spec_disable_new_track_protection(link: Link, val: u16) -> (Link, Result<(), InterfaceError>) {
    let (after, read) = spec_ask(
        link,
        None,
        DISABLE_NEW_TRACK_PROTECTION_REQUEST@,
        seq![Value::Number(val as i64)],
        DISABLE_NEW_TRACK_PROTECTION_REPLY@,
    );
    (
        after,
        match read {
            Err(e) => Err(e),
            Ok(values) => Ok(()),
        },
    )
}

/// What `enter_secure_session` does: one exchange, and what is made of its reply.
pub open spec fn spec_enter_secure_session(link: Link) -> (Link, Result<(), InterfaceError>) {
    let (after, read) = spec_ask(
        link,
        None,
        ENTER_SECURE_SESSION_REQUEST@,
        Seq::empty(),
        ENTER_SECURE_SESSION_REPLY@,
    );
    (
        after,
        match read {
            Err(e) => Err(e),
            Ok(values) => Ok(()),
        },
    )
}

/// What `leave_secure_session` does: one exchange, and what is made of its reply.
pub open spec fn spec_leave_secure_session(link: Link) -> (Link, Result<(), InterfaceError>) {
    let (after, read) = spec_ask(
        link,
        None,
        LEAVE_SECURE_SESSION_REQUEST@,
        Seq::empty(),
        LEAVE_SECURE_SESSION_REPLY@,
    );
    (
        after,
        match read {
            Err(e) => Err(e),
            Ok(values) => Ok(()),
        },
    )
}

/// What `session_key_forget` does: one exchange, and what is made of its reply.
pub open spec fn spec_session_key_forget(link: Link) -> (Link, Result<(), InterfaceError>) {
    let (after, read) = spec_ask(
        link,
        None,
        SESSION_KEY_FORGET_REQUEST@,
        Seq::empty(),
        SESSION_KEY_FORGET_REPLY@,
    );
    (
        after,
        match read {
            Err(e) => Err(e),
            Ok(values) => Ok(()),
        },
    )
}

/// The request of `full_operating_status`.
pub const FULL_OPERATING_STATUS_REQUEST: &'static str =
    "1809 8001 0330 8802 0030 8805 0030 8806 00 ff00 00000000";

/// The reply of `full_operating_status`.
pub const FULL_OPERATING_STATUS_REPLY: &'static str =
    "1809 8001 0330 8802 0030 8805 0030 8806 00 1000 00%?0000 00%b 8806 %x";

/// The request of `position`.
pub const POSITION_REQUEST: &'static str =
    "1809 8001 0430 8802 0030 8805 0030 0003 0030 0002 00 ff00 00000000";

/// The reply of `position`.
pub const POSITION_REPLY: &'static str =
    "1809 8001 0430 %?%? %?%? %?%? %?%? %?%? %?%? %?%? %? %?00 00%?0000 000b 0002 0007 00 %w %B %B %B %B";

/// The request of `eject_disc`.
pub const EJECT_DISC_REQUEST: &'static str = "18c1 ff 6000";

/// The request of `erase_track`.
pub const ERASE_TRACK_REQUEST: &'static str = "1840 ff01 00 201001 %w";

/// The request of `move_track`.
pub const MOVE_TRACK_REQUEST: &'static str = "1843 ff00 00 201001 %w 201001 %w";

/// The request of `disc_capacity`.
pub const DISC_CAPACITY_REQUEST: &'static str = "1806 02101000 3080 0300 ff00 00000000";

/// The reply of `disc_capacity`. The byte before `03` differs between makes.
pub const DISC_CAPACITY_REPLY: &'static str =
    "1806 02101000 3080 0300 1000 001d0000 001b %?03 0017 8000 0005 %W %B %B %B 0005 %W %B %B %B 0005 %W %B %B %B";

/// The request of `recording_parameters`.
pub const RECORDING_PARAMETERS_REQUEST: &'static str =
    "1809 8001 0330 8801 0030 8805 0030 8807 00 ff00 00000000";

/// The reply of `recording_parameters`.
pub const RECORDING_PARAMETERS_REPLY: &'static str =
    "1809 8001 0330 8801 0030 8805 0030 8807 00 1000 000e0000 000c 8805 0008 80e0 0110 %b %b 4000";

/// The template of the length of a track inside its information.
pub const TRACK_LENGTH_CONTENT: &'static str = "01 0006 0000 %B %B %B %B";

/// The template of the encoding of a track inside its information.
pub const TRACK_ENCODING_CONTENT: &'static str = "07 0004 0110 %b %b";

/// The request of `leaf_id`.
pub const LEAF_ID_REQUEST: &'static str = "1800 080046 f0030103 11 ff";

/// The reply of `leaf_id`.
pub const LEAF_ID_REPLY: &'static str = "1800 080046 f0030103 11 00 %*";

/// The request of `session_key_exchange`.
pub const SESSION_KEY_EXCHANGE_REQUEST: &'static str = "1800 080046 f0030103 20 ff 000000 %*";

/// The reply of `session_key_exchange`.
pub const SESSION_KEY_EXCHANGE_REPLY: &'static str = "1800 080046 f0030103 20 %? 000000 %#";

/// The request of `terminate`.
pub const TERMINATE_REQUEST: &'static str = "1800 080046 f0030103 2a ff00";

/// What `disc_present` does: the status block is read; a disc is there where
/// its fifth byte is 0x40.
pub open spec fn spec_disc_present(link: Link) -> (Link, Result<bool, InterfaceError>) {
    let (after, status) = spec_status(link);
    (
        after,
        match status {
            Err(e) => Err(e),
            Ok(block) => Ok(block.len() > 4 && block[4] == 0x40),
        },
    )
}

/// The status mode and the operating status in the values of a reply. The
/// operating status is two bytes, highest first.
pub open spec fn operating_status_in(values: Seq<Value>) -> Result<(u8, u16), InterfaceError> {
    match (spec_number_at(values, 0), spec_array_at(values, 1)) {
        (Err(e), _) => Err(e),
        (_, Err(e)) => Err(e),
        (Ok(mode), Ok(status)) => if status.len() == 0 {
            Err(InterfaceError::InvalidStatus(StatusError(0)))
        } else if status.len() < 2 {
            Err(InterfaceError::InvalidStatus(StatusError(status[0] as u16)))
        } else {
            Ok((low8(mode), (status[0] as int * 256 + status[1] as int) as u16))
        },
    }
}

/// What `full_operating_status` does.
pub open spec fn spec_full_operating_status(link: Link) -> (Link, Result<(u8, u16), InterfaceError>) {
    let (after, read) = spec_ask(
        link,
        Some(Descriptor::OperatingStatusBlock),
        FULL_OPERATING_STATUS_REQUEST@,
        Seq::empty(),
        FULL_OPERATING_STATUS_REPLY@,
    );
    (
        after,
        match read {
            Err(e) => Err(e),
            Ok(values) => operating_status_in(values),
        },
    )
}

/// What `operating_status` does.
pub open spec fn spec_operating_status(link: Link) -> (Link, Result<u16, InterfaceError>) {
    let (after, full) = spec_full_operating_status(link);
    (
        after,
        match full {
            Err(e) => Err(e),
            Ok((_, status)) => Ok(status),
        },
    )
}

/// The five numbers of a position in the values of a reply.
pub open spec fn position_in(values: Seq<Value>) -> Result<Seq<u16>, InterfaceError> {
    match (
        spec_number_at(values, 0),
        spec_number_at(values, 1),
        spec_number_at(values, 2),
        spec_number_at(values, 3),
        spec_number_at(values, 4),
    ) {
        (Ok(a), Ok(b), Ok(c), Ok(d), Ok(e)) => Ok(
            seq![low16(a), low16(b), low16(c), low16(d), low16(e)],
        ),
        (Err(e), _, _, _, _) => Err(e),
        (_, Err(e), _, _, _) => Err(e),
        (_, _, Err(e), _, _) => Err(e),
        (_, _, _, Err(e), _) => Err(e),
        (_, _, _, _, Err(e)) => Err(e),
    }
}

/// What `position` does: the track, hour, minute, second and frame of
/// playback. A device that rejects the request is idle, and the position is
/// all zeros.
pub open spec fn spec_position(link: Link) -> (Link, Result<Seq<u16>, InterfaceError>) {
    let (opened, o) = spec_change_descriptor_state(
        link,
        Descriptor::OperatingStatusBlock,
        DescriptorAction::OpenRead,
    );
    match o {
        Err(e) => (opened, Err(e)),
        Ok(_) => {
            let (asked, read) = spec_exchange(
                opened,
                POSITION_REQUEST@,
                Seq::empty(),
                false,
                POSITION_REPLY@,
            );
            match read {
                Err(InterfaceError::Rejected) => (asked, Ok(seq![0u16, 0u16, 0u16, 0u16, 0u16])),
                Err(e) => (asked, Err(e)),
                Ok(values) => match position_in(values) {
                    Err(e) => (asked, Err(e)),
                    Ok(position) => {
                        let (closed, c) = spec_change_descriptor_state(
                            asked,
                            Descriptor::OperatingStatusBlock,
                            DescriptorAction::Close,
                        );
                        (
                            closed,
                            match c {
                                Err(e) => Err(e),
                                Ok(_) => Ok(position),
                            },
                        )
                    },
                },
            }
        },
    }
}

/// What a request without a reply template does.
pub open spec fn spec_command(link: Link, template: Seq<char>, args: Seq<Value>, test: bool) -> (
    Link,
    Result<(), InterfaceError>,
) {
    let (after, r) = spec_request(link, template, args, test, false);
    (
        after,
        match r {
            Err(e) => Err(e),
            Ok(_) => Ok(()),
        },
    )
}

/// A time in four numbers of a reply, from the place `at`.
pub open spec fn raw_time_in(values: Seq<Value>, at: int) -> Result<
    RawTime,
    InterfaceError,
> {
    match (
        spec_number_at(values, at),
        spec_number_at(values, at + 1),
        spec_number_at(values, at + 2),
        spec_number_at(values, at + 3),
    ) {
        (Ok(h), Ok(m), Ok(s), Ok(f)) => Ok(
            RawTime {
                hours: unsigned64(h) as u64,
                minutes: unsigned64(m) as u64,
                seconds: unsigned64(s) as u64,
                frames: unsigned64(f) as u64,
            },
        ),
        (Err(e), _, _, _) => Err(e),
        (_, Err(e), _, _) => Err(e),
        (_, _, Err(e), _) => Err(e),
        (_, _, _, Err(e)) => Err(e),
    }
}

/// The three times of a capacity reply: used, total and left.
pub open spec fn capacity_in(values: Seq<Value>) -> Result<
    Seq<RawTime>,
    InterfaceError,
> {
    match (raw_time_in(values, 0), raw_time_in(values, 4), raw_time_in(values, 8)) {
        (Ok(used), Ok(total), Ok(left)) => Ok(seq![used, total, left]),
        (Err(e), _, _) => Err(e),
        (_, Err(e), _) => Err(e),
        (_, _, Err(e)) => Err(e),
    }
}

/// What `disc_capacity` does.
pub open spec fn spec_disc_capacity(link: Link) -> (
    Link,
    Result<Seq<RawTime>, InterfaceError>,
) {
    let (after, read) = spec_ask(
        link,
        Some(Descriptor::RootTD),
        DISC_CAPACITY_REQUEST@,
        Seq::empty(),
        DISC_CAPACITY_REPLY@,
    );
    (
        after,
        match read {
            Err(e) => Err(e),
            Ok(values) => capacity_in(values),
        },
    )
}

/// The two parameters of a recording in the values of a reply.
pub open spec fn parameters_in(values: Seq<Value>) -> Result<Seq<u8>, InterfaceError> {
    match (spec_number_at(values, 0), spec_number_at(values, 1)) {
        (Ok(a), Ok(b)) => Ok(seq![low8(a), low8(b)]),
        (Err(e), _) => Err(e),
        (_, Err(e)) => Err(e),
    }
}

/// What `recording_parameters` does.
pub open spec fn spec_recording_parameters(link: Link) -> (Link, Result<Seq<u8>, InterfaceError>) {
    let (after, read) = spec_ask(
        link,
        Some(Descriptor::OperatingStatusBlock),
        RECORDING_PARAMETERS_REQUEST@,
        Seq::empty(),
        RECORDING_PARAMETERS_REPLY@,
    );
    (
        after,
        match read {
            Err(e) => Err(e),
            Ok(values) => parameters_in(values),
        },
    )
}

/// The encoding and the channels in two numbers of a reply.
pub open spec fn encoding_in(values: Seq<Value>) -> Result<(Encoding, Channels), InterfaceError> {
    match (spec_number_at(values, 0), spec_number_at(values, 1)) {
        (Err(e), _) => Err(e),
        (_, Err(e)) => Err(e),
        (Ok(e), Ok(c)) => match Encoding::spec_from_code(low8(e)) {
            None => Err(InterfaceError::InvalidEncoding(low8(e))),
            Some(encoding) => match Channels::spec_from_code(low8(c)) {
                None => Err(InterfaceError::InvalidDiscFormat(low8(c))),
                Some(channels) => Ok((encoding, channels)),
            },
        },
    }
}

/// What `track_encoding` does: the information of the track is fetched and
/// read with the template of an encoding.
pub open spec fn spec_track_encoding(link: Link, track_number: u16) -> (
    Link,
    Result<(Encoding, Channels), InterfaceError>,
) {
    let (after, info) = spec_raw_track_info(link, track_number, 0x3080, 0x0700);
    (
        after,
        match info {
            Err(e) => Err(e),
            Ok(raw) => match spec_scan_query(raw, TRACK_ENCODING_CONTENT@) {
                Err(e) => Err(InterfaceError::QueryError(e)),
                Ok(values) => encoding_in(values),
            },
        },
    )
}

/// What `track_length` does: the information of the track is fetched and
/// read with the template of a length.
pub open spec fn spec_track_length(link: Link, track: u16) -> (
    Link,
    Result<RawTime, InterfaceError>,
) {
    let (after, info) = spec_raw_track_info(link, track, 0x3000, 0x0100);
    (
        after,
        match info {
            Err(e) => Err(e),
            Ok(raw) => match spec_scan_query(raw, TRACK_LENGTH_CONTENT@) {
                Err(e) => Err(InterfaceError::QueryError(e)),
                Ok(values) => raw_time_in(values, 0),
            },
        },
    )
}

/// What `track_lengths` does from the track at `from` on: the length of each
/// track in turn. `lengths` are those of the tracks before.
pub open spec fn spec_track_lengths_from(
    link: Link,
    tracks: Seq<u16>,
    from: nat,
    lengths: Seq<RawTime>,
) -> (Link, Result<Seq<RawTime>, InterfaceError>)
    decreases tracks.len() - from,
{
    if from >= tracks.len() {
        (link, Ok(lengths))
    } else {
        let (after, length) = spec_track_length(link, tracks[from as int]);
        match length {
            Err(e) => (after, Err(e)),
            Ok(l) => spec_track_lengths_from(after, tracks, from + 1, lengths.push(l)),
        }
    }
}

/// What `leaf_id` does: the eight bytes that name the keys of the device.
pub open spec fn spec_leaf_id(link: Link) -> (Link, Result<Seq<u8>, InterfaceError>) {
    let (after, read) = spec_ask(link, None, LEAF_ID_REQUEST@, Seq::empty(), LEAF_ID_REPLY@);
    (
        after,
        match read {
            Err(e) => Err(e),
            Ok(values) => match spec_array_at(values, 0) {
                Err(e) => Err(e),
                Ok(id) => if id.len() == 8 {
                    Ok(id)
                } else {
                    Err(
                        InterfaceError::EncryptionError(
                            EncryptionError::InvalidLength(SessionField::LeafId, id.len() as usize),
                        ),
                    )
                },
            },
        },
    )
}

/// What `session_key_exchange` does: the host's nonce of eight bytes goes
/// out, the device's comes back.
pub open spec fn spec_session_key_exchange(link: Link, hostnonce: Seq<u8>) -> (
    Link,
    Result<Seq<u8>, InterfaceError>,
) {
    if hostnonce.len() != 8 {
        (
            link,
            Err(
                InterfaceError::EncryptionError(
                    EncryptionError::InvalidLength(
                        SessionField::HostNonce,
                        hostnonce.len() as usize,
                    ),
                ),
            ),
        )
    } else {
        let (after, read) = spec_ask(
            link,
            None,
            SESSION_KEY_EXCHANGE_REQUEST@,
            seq![Value::Array(hostnonce)],
            SESSION_KEY_EXCHANGE_REPLY@,
        );
        (
            after,
            match read {
                Err(e) => Err(e),
                Ok(values) => spec_array_at(values, 0),
            },
        )
    }
}

/// The request of `send_key_data`.
pub const SEND_KEY_DATA_REQUEST: &'static str =
    "1800 080046 f0030103 12 ff %w 0000 %w %d %d %d 00000000 %* %*";

/// The reply of `send_key_data`.
pub const SEND_KEY_DATA_REPLY: &'static str = "1800 080046 f0030103 12 01 %?%? %?%?%?%?";

/// The request of `setup_download`.
pub const SETUP_DOWNLOAD_REQUEST: &'static str = "1800 080046 f0030103 22 ff 0000 %*";

/// The reply of `setup_download`.
pub const SETUP_DOWNLOAD_REPLY: &'static str = "1800 080046 f0030103 22 00 0000";

/// The request of `commit_track`.
pub const COMMIT_TRACK_REQUEST: &'static str = "1800 080046 f0030103 48 ff 00 1001 %w %*";

/// The reply of `commit_track`.
pub const COMMIT_TRACK_REPLY: &'static str = "1800 080046 f0030103 48 00 00 1001 %?%?";

/// The number of key chains in a key block.
pub const KEY_CHAINS: usize = 2;

/// The session key that both sides derive from the root key and the two
/// nonces: the first half of `value` is encrypted with DES under the first
/// half of `key`, chained from `iv`; the result is the chaining value under
/// which the second half of `value` is encrypted with triple DES, with the
/// first half of `key` as the third key.
pub open spec fn spec_retailmac(key: Seq<u8>, value: Seq<u8>, iv: Seq<u8>) -> Seq<u8> {
    let subkey_a = key.subrange(0, 8);
    let iv2 = cbc_encrypt(subkey_a, iv, value.subrange(0, 8));
    tdes_encrypt_block(key + subkey_a, xor_block(value.subrange(8, 16), iv2))
}

/// Derives a session key with the RetailMAC construction.
pub fn retailmac(key: &[u8], value: &[u8], iv: &[u8; 8]) -> (mac: Vec<u8>)
    requires
        key@.len() == 16,
        value@.len() == 16,
    ensures
        mac@ == spec_retailmac(key@, value@, iv@),
        mac@.len() == 8,
{
    let key = slice_to_vec(key);
    let value = slice_to_vec(value);
    let mut iv_bytes: Vec<u8> = Vec::new();
    let mut i: usize = 0;
    while i < 8
        invariant
            i <= 8,
            iv_bytes@ == iv@.subrange(0, i as int),
        decreases 8 - i,
    {
        iv_bytes.push(iv[i]);
        i = i + 1;
    }
    assert(iv_bytes@ == iv@);
    let subkey_a = copy_range(&key, 0, 8);
    let beginning = copy_range(&value, 0, 8);
    let end = copy_range(&value, 8, 16);
    let iv2 = des_cbc_encrypt(&subkey_a, &iv_bytes, beginning);
    proof {
        lemma_cbc_encrypt_len(subkey_a@, iv_bytes@, value@.subrange(0, 8));
    }
    let mut wonky_key = key.clone();
    let mut third = copy_range(&key, 0, 8);
    wonky_key.append(&mut third);
    tdes_cbc_encrypt(&wonky_key, &iv2, &end)
}

/// The session key is a function of the root key and the nonces: the same
/// key and value give the same key, whenever and wherever it is derived.
pub proof fn lemma_retailmac_stable(
    key: Seq<u8>,
    value: Seq<u8>,
    iv: Seq<u8>,
    other_key: Seq<u8>,
    other_value: Seq<u8>,
    other_iv: Seq<u8>,
)
    requires
        key == other_key,
        value == other_value,
        iv == other_iv,
    ensures
        spec_retailmac(key, value, iv) == spec_retailmac(other_key, other_value, other_iv),
{
}

/// The key chains, depth and signature of a key block.
pub struct EKBData {
    pub chains: [[u8; 16]; 2],
    pub depth: i32,
    pub signature: [u8; 24],
}

/// The key block of the open-source key set.
pub struct EKBOpenSource;

/// The root key of the open-source key block.
#[verifier::opaque]
pub open spec fn spec_root_key() -> Seq<u8> {
    seq![
        0x12u8, 0x34u8, 0x56u8, 0x78u8, 0x9au8, 0xbcu8, 0xdeu8, 0xf0u8, 0x0fu8, 0xedu8, 0xcbu8,
        0xa9u8, 0x87u8, 0x65u8, 0x43u8, 0x21u8,
    ]
}

/// The ID of the open-source key block.
pub const EKB_ID: i32 = 0x26422642;

/// The depth of the key chains of the open-source key block.
pub const EKB_DEPTH: i32 = 9;

/// The key chains of the open-source key block.
#[verifier::opaque]
pub open spec fn spec_ekb_chains() -> Seq<Seq<u8>> {
    seq![
        seq![
            0x25u8, 0x45u8, 0x06u8, 0x4du8, 0xeau8, 0xcau8, 0x14u8, 0xf9u8, 0x96u8, 0xbdu8,
            0xc8u8, 0xa4u8, 0x06u8, 0xc2u8, 0x2bu8, 0x81u8,
        ],
        seq![
            0xfbu8, 0x60u8, 0xbdu8, 0xddu8, 0x0du8, 0xbcu8, 0xabu8, 0x84u8, 0x8au8, 0x00u8,
            0x5eu8, 0x03u8, 0x19u8, 0x4du8, 0x3eu8, 0xdau8,
        ],
    ]
}

/// The signature of the open-source key block.
#[verifier::opaque]
pub open spec fn spec_ekb_signature() -> Seq<u8> {
    seq![
        0x8fu8, 0x2bu8, 0xc3u8, 0x52u8, 0xe8u8, 0x6cu8, 0x5eu8, 0xd3u8, 0x06u8, 0xdcu8, 0xaeu8,
        0x18u8, 0xd2u8, 0xf3u8, 0x8cu8, 0x7fu8, 0x89u8, 0xb5u8, 0xe1u8, 0x85u8, 0x55u8, 0xa1u8,
        0x05u8, 0xeau8,
    ]
}

impl EKBOpenSource {
    /// The root key of the key block.
    pub fn root_key(&self) -> (key: [u8; 16])
        ensures
            key@ == spec_root_key(),
    {
        let key: [u8; 16] = [
            0x12, 0x34, 0x56, 0x78, 0x9a, 0xbc, 0xde, 0xf0, 0x0f, 0xed, 0xcb, 0xa9, 0x87, 0x65,
            0x43, 0x21,
        ];
        assert(key@ == spec_root_key()) by {
            reveal(spec_root_key);
        }
        key
    }

    /// The ID of the key block.
    pub fn ekb_id(&self) -> (id: i32)
        ensures
            id == EKB_ID,
    {
        EKB_ID
    }

    /// The key chains, depth and signature for any leaf: the open-source key
    /// block has the same for all.
    pub fn ekb_data_for_leaf_id(&self) -> (data: EKBData)
        ensures
            data.depth == EKB_DEPTH,
            seq![data.chains@[0]@, data.chains@[1]@] == spec_ekb_chains(),
            data.signature@ == spec_ekb_signature(),
    {
        let first: [u8; 16] = [
            0x25, 0x45, 0x06, 0x4d, 0xea, 0xca, 0x14, 0xf9, 0x96, 0xbd, 0xc8, 0xa4, 0x06, 0xc2,
            0x2b, 0x81,
        ];
        let second: [u8; 16] = [
            0xfb, 0x60, 0xbd, 0xdd, 0x0d, 0xbc, 0xab, 0x84, 0x8a, 0x00, 0x5e, 0x03, 0x19, 0x4d,
            0x3e, 0xda,
        ];
        let signature: [u8; 24] = [
            0x8f, 0x2b, 0xc3, 0x52, 0xe8, 0x6c, 0x5e, 0xd3, 0x06, 0xdc, 0xae, 0x18, 0xd2, 0xf3,
            0x8c, 0x7f, 0x89, 0xb5, 0xe1, 0x85, 0x55, 0xa1, 0x05, 0xea,
        ];
        let chains: [[u8; 16]; 2] = [first, second];
        assert(chains@[0] == first && chains@[1] == second);
        assert(seq![first@, second@] == spec_ekb_chains()) by {
            reveal(spec_ekb_chains);
            assert(first@ == spec_ekb_chains()[0]);
            assert(second@ == spec_ekb_chains()[1]);
        }
        assert(signature@ == spec_ekb_signature()) by {
            reveal(spec_ekb_signature);
        }
        EKBData { chains, depth: EKB_DEPTH, signature }
    }
}

/// The values of the key data request: the count of the key bytes twice, the
/// number of chains, the depth, the ID, the chains and the signature.
pub open spec fn key_data_values(
    ekbid: i32,
    keychain: Seq<Seq<u8>>,
    depth: i32,
    ekbsignature: Seq<u8>,
) -> Seq<Value> {
    seq![
        Value::Number(72),
        Value::Number(72),
        Value::Number(2),
        Value::Number(depth as i64),
        Value::Number(ekbid as i64),
        Value::Array(keychain[0] + keychain[1]),
        Value::Array(ekbsignature),
    ]
}

/// What `send_key_data` does: a depth outside 1 to 63 is refused, else the
/// key data goes out in one exchange.
pub open spec fn spec_send_key_data(
    link: Link,
    ekbid: i32,
    keychain: Seq<Seq<u8>>,
    depth: i32,
    ekbsignature: Seq<u8>,
) -> (Link, Result<(), InterfaceError>) {
    if !(1 <= depth <= 63) {
        (link, Err(InterfaceError::EncryptionError(EncryptionError::InvalidDepth(depth))))
    } else {
        let (after, read) = spec_ask(
            link,
            None,
            SEND_KEY_DATA_REQUEST@,
            key_data_values(ekbid, keychain, depth, ekbsignature),
            SEND_KEY_DATA_REPLY@,
        );
        (
            after,
            match read {
                Err(e) => Err(e),
                Ok(_) => Ok(()),
            },
        )
    }
}

/// The message that sets a download up: four bytes of 1, the content ID and
/// the key encryption key, encrypted under the session key with DES in CBC
/// mode from a zero block.
pub open spec fn setup_message(contentid: Seq<u8>, keyenckey: Seq<u8>, session_key: Seq<u8>) -> Seq<
    u8,
> {
    cbc_encrypt(session_key, zero_block(), seq![1u8, 1u8, 1u8, 1u8] + contentid + keyenckey)
}

/// What `setup_download` does: a content ID that is not of 20 bytes, a key
/// encryption key or a session key that is not of 8, is refused, in this
/// order; else the message goes out in one exchange.
pub open spec fn spec_setup_download(
    link: Link,
    contentid: Seq<u8>,
    keyenckey: Seq<u8>,
    session_key: Seq<u8>,
) -> (Link, Result<(), InterfaceError>) {
    if contentid.len() != 20 {
        (
            link,
            Err(
                InterfaceError::EncryptionError(
                    EncryptionError::InvalidLength(
                        SessionField::ContentId,
                        contentid.len() as usize,
                    ),
                ),
            ),
        )
    } else if keyenckey.len() != 8 {
        (
            link,
            Err(
                InterfaceError::EncryptionError(
                    EncryptionError::InvalidLength(
                        SessionField::KeyEncryptionKey,
                        keyenckey.len() as usize,
                    ),
                ),
            ),
        )
    } else if session_key.len() != 8 {
        (
            link,
            Err(
                InterfaceError::EncryptionError(
                    EncryptionError::InvalidLength(
                        SessionField::SessionKey,
                        session_key.len() as usize,
                    ),
                ),
            ),
        )
    } else {
        let (after, read) = spec_ask(
            link,
            None,
            SETUP_DOWNLOAD_REQUEST@,
            seq![Value::Array(setup_message(contentid, keyenckey, session_key))],
            SETUP_DOWNLOAD_REPLY@,
        );
        (
            after,
            match read {
                Err(e) => Err(e),
                Ok(_) => Ok(()),
            },
        )
    }
}

/// What `commit_track` does: a session key that is not of 8 bytes is
/// refused; else the track is committed with the authenticator, a zero block
/// encrypted under the session key.
pub open spec fn spec_commit_track(link: Link, track_number: u16, session_key: Seq<u8>) -> (
    Link,
    Result<(), InterfaceError>,
) {
    if session_key.len() != 8 {
        (
            link,
            Err(
                InterfaceError::EncryptionError(
                    EncryptionError::InvalidLength(
                        SessionField::SessionKey,
                        session_key.len() as usize,
                    ),
                ),
            ),
        )
    } else {
        let (after, read) = spec_ask(
            link,
            None,
            COMMIT_TRACK_REQUEST@,
            seq![
                Value::Number(track_number as i64),
                Value::Array(des_encrypt_block(session_key, zero_block())),
            ],
            COMMIT_TRACK_REPLY@,
        );
        (
            after,
            match read {
                Err(e) => Err(e),
                Ok(_) => Ok(()),
            },
        )
    }
}

/// Eight zero bytes.
pub fn zeros() -> (block: Vec<u8>)
    ensures
        block@ == zero_block(),
{
    let mut block: Vec<u8> = Vec::new();
    let mut i: usize = 0;
    while i < 8
        invariant
            i <= 8,
            block@ == Seq::new(i as nat, |j: int| 0u8),
        decreases 8 - i,
    {
        block.push(0);
        i = i + 1;
    }
    block
}

/// The request of a chunk of the raw disc title.
pub const RAW_DISC_TITLE_REQUEST: &'static str = "1806 02201801 00%b 3000 0a00 ff00 %w%w";

/// The reply with the first chunk of the raw disc title.
pub const RAW_DISC_TITLE_FIRST_REPLY: &'static str =
    "1806 02201801 00%? 3000 0a00 1000 %w0000 %?%?000a %w %*";

/// The reply with a later chunk of the raw disc title.
pub const RAW_DISC_TITLE_NEXT_REPLY: &'static str = "1806 02201801 00%? 3000 0a00 1000 %w%?%? %*";

/// The request of the title of a track.
pub const TRACK_TITLE_REQUEST: &'static str = "1806 022018%b %w 3000 0a00 ff00 00000000";

/// The reply with the title of a track.
pub const TRACK_TITLE_REPLY: &'static str =
    "1806 022018%? %?%? %?%? %?%? 1000 00%?0000 00%?000a %x";

/// The command that writes the title of the disc.
pub const SET_DISC_TITLE_REQUEST: &'static str = "1807 02201801 00%b 3000 0a00 5000 %w 0000 %w %*";

/// The command that writes the title of a track.
pub const SET_TRACK_TITLE_REQUEST: &'static str = "1807 022018%b %w 3000 0a00 5000 %w 0000 %w %*";

/// The request of `track_uuid`.
pub const TRACK_UUID_REQUEST: &'static str = "1800 080046 f0030103 23 ff 1001 %w";

/// The reply of `track_uuid`.
pub const TRACK_UUID_REPLY: &'static str = "1800 080046 f0030103 23 00 1001 %?%? %*";

/// The bytes in the header of the first chunk of a title.
pub const TITLE_HEADER: i64 = 6;

/// The vendor whose devices keep the disc title with the track titles.
pub const SHARP_VENDOR_ID: u16 = 0x04dd;

/// What a result with text holds.
pub open spec fn text_in<E>(r: Result<String, E>) -> Result<Seq<char>, E> {
    match r {
        Ok(t) => Ok(t@),
        Err(e) => Err(e),
    }
}

/// The number that selects the half-width or the full-width title of the
/// disc.
pub open spec fn wchar_value(wchar: bool) -> i64 {
    if wchar {
        1
    } else {
        0
    }
}

/// The number that selects the half-width or the full-width titles of the
/// tracks.
pub open spec fn track_wchar_value(wchar: bool) -> i64 {
    if wchar {
        3
    } else {
        2
    }
}

/// The descriptor of the half-width or the full-width titles of the tracks.
pub open spec fn track_title_descriptor(wchar: bool) -> Descriptor {
    if wchar {
        Descriptor::AudioUTOC4TD
    } else {
        Descriptor::AudioUTOC1TD
    }
}

/// Whether a number fits sixteen bits with a sign.
pub open spec fn is_word(n: i64) -> bool {
    -0x8000 <= n <= 0x7fff
}

/// What a chunk of a title holds: the count of bytes that it stands for,
/// the count of all bytes of the title where the chunk is the first, and its
/// text. The header of the first chunk does not count.
pub open spec fn title_chunk_in(values: Seq<Value>, first: bool) -> Result<
    (i64, i64, Seq<char>),
    InterfaceError,
> {
    let size = spec_number_at(values, 0);
    let total = if first {
        spec_number_at(values, 1)
    } else {
        Ok(0i64)
    };
    let bytes = spec_array_at(
        values,
        if first {
            2
        } else {
            1
        },
    );
    match (size, total, bytes) {
        (Err(e), _, _) => Err(e),
        (_, Err(e), _) => Err(e),
        (_, _, Err(e)) => Err(e),
        (Ok(s), Ok(t), Ok(b)) => if !is_word(s) || !is_word(t) || b.len() > 4 * TEXT_LIMIT {
            Err(InterfaceError::CommunicationError(NetMDError::InvalidResult))
        } else {
            Ok(
                (
                    if first {
                        (s - TITLE_HEADER) as i64
                    } else {
                        s
                    },
                    t,
                    shift_jis_decode(b).0,
                ),
            )
        },
    }
}

/// The exchange for one chunk of the raw disc title.
pub open spec fn spec_title_chunk(link: Link, wchar: bool, first: bool, remaining: i64, done: i64) -> (
    Link,
    Result<(i64, i64, Seq<char>), InterfaceError>,
) {
    let (after, read) = spec_exchange(
        link,
        RAW_DISC_TITLE_REQUEST@,
        seq![Value::Number(wchar_value(wchar)), Value::Number(remaining), Value::Number(done)],
        false,
        if first {
            RAW_DISC_TITLE_FIRST_REPLY@
        } else {
            RAW_DISC_TITLE_NEXT_REPLY@
        },
    );
    (
        after,
        match read {
            Err(e) => Err(e),
            Ok(values) => title_chunk_in(values, first),
        },
    )
}

/// The chunks of the raw disc title after the first: `done` of `total`
/// bytes have been read and gave `text`. A chunk that stands for no bytes is
/// an error.
pub open spec fn spec_title_chunks(link: Link, wchar: bool, done: i64, total: i64, text: Seq<char>) -> (
    Link,
    Result<Seq<char>, InterfaceError>,
)
    decreases
        if done < total {
            total - done
        } else {
            0
        },
{
    if done >= total {
        (link, Ok(text))
    } else {
        let (after, chunk) = spec_title_chunk(link, wchar, false, (total - done) as i64, done);
        match chunk {
            Err(e) => (after, Err(e)),
            Ok((size, _, more)) => if size <= 0 || done + size > 0x7fff {
                (after, Err(InterfaceError::CommunicationError(NetMDError::InvalidResult)))
            } else {
                spec_title_chunks(after, wchar, (done + size) as i64, total, text + more)
            },
        }
    }
}

/// What `raw_disc_title` does: inside the descriptors of the audio contents
/// and of the disc title, the title is read in chunks until all its bytes
/// have been read.
pub open spec fn spec_raw_disc_title(link: Link, wchar: bool) -> (
    Link,
    Result<Seq<char>, InterfaceError>,
) {
    let (l1, outer) = spec_change_descriptor_state(
        link,
        Descriptor::AudioContentsTD,
        DescriptorAction::OpenRead,
    );
    match outer {
        Err(e) => (l1, Err(e)),
        Ok(_) => {
            let (l2, inner) = spec_change_descriptor_state(
                l1,
                Descriptor::DiscTitleTD,
                DescriptorAction::OpenRead,
            );
            match inner {
                Err(e) => (l2, Err(e)),
                Ok(_) => {
                    let (l3, first) = spec_title_chunk(l2, wchar, true, 0, 0);
                    match first {
                        Err(e) => (l3, Err(e)),
                        Ok((done, total, text)) => spec_close_title(
                            spec_title_chunks(l3, wchar, done, total, text),
                        ),
                    }
                },
            }
        },
    }
}

/// The end of the reading of a raw title: the two descriptors are closed.
pub open spec fn spec_close_title(read: (Link, Result<Seq<char>, InterfaceError>)) -> (
    Link,
    Result<Seq<char>, InterfaceError>,
) {
    match read.1 {
        Err(e) => (read.0, Err(e)),
        Ok(title) => {
            let (l5, c1) = spec_change_descriptor_state(
                read.0,
                Descriptor::DiscTitleTD,
                DescriptorAction::Close,
            );
            match c1 {
                Err(e) => (l5, Err(e)),
                Ok(_) => {
                    let (l6, c2) = spec_change_descriptor_state(
                        l5,
                        Descriptor::AudioContentsTD,
                        DescriptorAction::Close,
                    );
                    (
                        l6,
                        match c2 {
                            Err(e) => Err(e),
                            Ok(_) => Ok(title),
                        },
                    )
                },
            }
        },
    }
}

/// What `disc_title` does: the raw title is read, and the title of the disc
/// taken from it.
pub open spec fn spec_read_disc_title(link: Link, wchar: bool) -> (
    Link,
    Result<Seq<char>, InterfaceError>,
) {
    let (after, raw) = spec_raw_disc_title(link, wchar);
    (
        after,
        match raw {
            Err(e) => Err(e),
            Ok(text) => Ok(spec_disc_title(text, wchar)),
        },
    )
}

/// What `track_group_list` does: the half-width raw title, the number of
/// tracks and the full-width raw title are read, and the groups taken from
/// them.
pub open spec fn spec_track_group_list(link: Link) -> (Link, Result<Seq<GroupView>, InterfaceError>) {
    let (l1, raw) = spec_raw_disc_title(link, false);
    match raw {
        Err(e) => (l1, Err(e)),
        Ok(half) => {
            let (l2, count) = spec_track_count(l1);
            match count {
                Err(e) => (l2, Err(e)),
                Ok(track_count) => {
                    let (l3, wide_raw) = spec_raw_disc_title(l2, true);
                    match wide_raw {
                        Err(e) => (l3, Err(e)),
                        Ok(wide) => (l3, spec_groups(half, wide, track_count)),
                    }
                },
            }
        },
    }
}

/// The title in the values of a reply.
pub open spec fn title_in(values: Seq<Value>) -> Result<Seq<char>, InterfaceError> {
    match spec_array_at(values, 0) {
        Err(e) => Err(e),
        Ok(bytes) => if bytes.len() > 4 * TEXT_LIMIT {
            Err(InterfaceError::CommunicationError(NetMDError::InvalidResult))
        } else {
            Ok(shift_jis_decode(bytes).0)
        },
    }
}

/// The exchanges for the titles of the tracks from the place `from` on;
/// `titles` are those of the tracks before.
pub open spec fn spec_track_titles_from(
    link: Link,
    tracks: Seq<u16>,
    wchar: bool,
    from: nat,
    titles: Seq<Seq<char>>,
) -> (Link, Result<Seq<Seq<char>>, InterfaceError>)
    decreases tracks.len() - from,
{
    if from >= tracks.len() {
        (link, Ok(titles))
    } else {
        let (after, read) = spec_exchange(
            link,
            TRACK_TITLE_REQUEST@,
            seq![
                Value::Number(track_wchar_value(wchar)),
                Value::Number(tracks[from as int] as i64),
            ],
            false,
            TRACK_TITLE_REPLY@,
        );
        match read {
            Err(e) => (after, Err(e)),
            Ok(values) => match title_in(values) {
                Err(e) => (after, Err(e)),
                Ok(title) => spec_track_titles_from(
                    after,
                    tracks,
                    wchar,
                    from + 1,
                    titles.push(title),
                ),
            },
        }
    }
}

/// What `track_titles` does: inside the descriptor of the titles, the title
/// of each track is read in turn.
pub open spec fn spec_track_titles(link: Link, tracks: Seq<u16>, wchar: bool) -> (
    Link,
    Result<Seq<Seq<char>>, InterfaceError>,
) {
    let (opened, o) = spec_change_descriptor_state(
        link,
        track_title_descriptor(wchar),
        DescriptorAction::OpenRead,
    );
    match o {
        Err(e) => (opened, Err(e)),
        Ok(_) => {
            let (read, titles) = spec_track_titles_from(opened, tracks, wchar, 0, Seq::empty());
            match titles {
                Err(e) => (read, Err(e)),
                Ok(t) => {
                    let (closed, c) = spec_change_descriptor_state(
                        read,
                        track_title_descriptor(wchar),
                        DescriptorAction::Close,
                    );
                    (
                        closed,
                        match c {
                            Err(e) => Err(e),
                            Ok(_) => Ok(t),
                        },
                    )
                },
            }
        },
    }
}

/// What `track_title` does: the title of the track is read; a track whose
/// title the device will not give has an empty title.
pub open spec fn spec_track_title(link: Link, track: u16, wchar: bool) -> (
    Link,
    Result<Seq<char>, InterfaceError>,
) {
    let (after, titles) = spec_track_titles(link, seq![track], wchar);
    (
        after,
        match titles {
            Ok(t) => if t.len() > 0 {
                Ok(t[0])
            } else {
                Ok(Seq::empty())
            },
            Err(InterfaceError::Rejected) => Ok(Seq::empty()),
            Err(e) => Err(e),
        },
    )
}

/// A title made fit for its kind of title.
pub open spec fn spec_sanitized(title: Seq<char>, wchar: bool) -> Seq<char> {
    if wchar {
        spec_sanitize_full_width_title(title)
    } else {
        spec_sanitize_half_width_title(title)
    }
}

/// What `track_uuid` does.
pub open spec fn spec_track_uuid(link: Link, track: u16) -> (Link, Result<Seq<char>, InterfaceError>) {
    let (after, read) = spec_ask(
        link,
        None,
        TRACK_UUID_REQUEST@,
        seq![Value::Number(track as i64)],
        TRACK_UUID_REPLY@,
    );
    (
        after,
        match read {
            Err(e) => Err(e),
            Ok(values) => match spec_array_at(values, 0) {
                Err(e) => Err(e),
                Ok(bytes) => Ok(utf8_lossy(bytes)),
            },
        },
    )
}

/// Descriptor changes one after the other, from the place `from` on, up to
/// the first that fails.
pub open spec fn spec_change_descriptors(
    link: Link,
    steps: Seq<(Descriptor, DescriptorAction)>,
    from: nat,
) -> (Link, Result<(), InterfaceError>)
    decreases steps.len() - from,
{
    if from >= steps.len() {
        (link, Ok(()))
    } else {
        let (after, r) = spec_change_descriptor_state(
            link,
            steps[from as int].0,
            steps[from as int].1,
        );
        match r {
            Err(e) => (after, Err(e)),
            Ok(_) => spec_change_descriptors(after, steps, from + 1),
        }
    }
}

/// The descriptor changes before the title of the disc is written. Devices
/// of Sharp keep it with the titles of the tracks.
pub open spec fn title_write_opening(vendor_id: u16) -> Seq<(Descriptor, DescriptorAction)> {
    if vendor_id == SHARP_VENDOR_ID {
        seq![(Descriptor::AudioUTOC1TD, DescriptorAction::OpenWrite)]
    } else {
        seq![
            (Descriptor::DiscTitleTD, DescriptorAction::Close),
            (Descriptor::DiscTitleTD, DescriptorAction::OpenWrite),
        ]
    }
}

/// The descriptor changes after the title of the disc is written. Other
/// devices than those of Sharp read the title anew only when its descriptor
/// is closed, opened and closed again.
pub open spec fn title_write_closing(vendor_id: u16) -> Seq<(Descriptor, DescriptorAction)> {
    if vendor_id == SHARP_VENDOR_ID {
        seq![(Descriptor::AudioUTOC1TD, DescriptorAction::Close)]
    } else {
        seq![
            (Descriptor::DiscTitleTD, DescriptorAction::Close),
            (Descriptor::DiscTitleTD, DescriptorAction::OpenRead),
            (Descriptor::DiscTitleTD, DescriptorAction::Close),
        ]
    }
}

/// The values of a command that writes a title: the bytes of the new title
/// replace those of the old from the start.
pub open spec fn title_write_values(
    selector: Seq<Value>,
    new_title: Seq<u8>,
    old_len: nat,
) -> Seq<Value> {
    selector + seq![
        Value::Number(new_title.len() as i64),
        Value::Number(old_len as i64),
        Value::Array(new_title),
    ]
}

/// A title made fit and encoded for the device, or refused where, once it is
/// made fit, it is longer than this machine can encode.
pub open spec fn spec_prepared_title(title: Seq<char>, wchar: bool) -> Result<
    Seq<u8>,
    InterfaceError,
> {
    if spec_sanitized(title, wchar).len() > TEXT_LIMIT {
        Err(InterfaceError::TitleTooLong)
    } else {
        Ok(spec_to_sjis(spec_sanitized(title, wchar)))
    }
}

/// The length of a title that the device holds, as the device counts it, or
/// an error where the title is longer than this machine can encode.
pub open spec fn spec_held_length(current: Seq<char>) -> Result<nat, InterfaceError> {
    if current.len() > TEXT_LIMIT {
        Err(InterfaceError::CommunicationError(NetMDError::InvalidResult))
    } else {
        Ok(shift_jis_encode(current).0.len())
    }
}

/// The writing of a title: the descriptor changes before, the command, the
/// descriptor changes after.
pub open spec fn spec_write_title(
    link: Link,
    opening: Seq<(Descriptor, DescriptorAction)>,
    request: Seq<char>,
    values: Seq<Value>,
    closing: Seq<(Descriptor, DescriptorAction)>,
) -> (Link, Result<(), InterfaceError>) {
    let (l2, opened) = spec_change_descriptors(link, opening, 0);
    match opened {
        Err(e) => (l2, Err(e)),
        Ok(_) => {
            let (l3, written) = spec_command(l2, request, values, false);
            match written {
                Err(e) => (l3, Err(e)),
                Ok(_) => spec_change_descriptors(l3, closing, 0),
            }
        },
    }
}

/// What `set_disc_title` does. The raw title is read. A title that is there
/// already is refused with `TitleError`, and no other is. Else the title is
/// made fit and encoded, and written over the old one inside the descriptors
/// that the make of the device asks for.
pub open spec fn spec_set_disc_title(link: Link, vendor_id: u16, title: Seq<char>, wchar: bool) -> (
    Link,
    Result<(), InterfaceError>,
) {
    let (l1, raw) = spec_raw_disc_title(link, wchar);
    match raw {
        Err(e) => (l1, Err(e)),
        Ok(current) => if current == title {
            (l1, Err(InterfaceError::TitleError))
        } else {
            match (spec_prepared_title(title, wchar), spec_held_length(current)) {
                (Err(e), _) => (l1, Err(e)),
                (_, Err(e)) => (l1, Err(e)),
                (Ok(new_title), Ok(old_len)) => spec_write_title(
                    l1,
                    title_write_opening(vendor_id),
                    SET_DISC_TITLE_REQUEST@,
                    title_write_values(
                        seq![Value::Number(wchar_value(wchar))],
                        new_title,
                        old_len,
                    ),
                    title_write_closing(vendor_id),
                ),
            }
        },
    }
}

/// The reading of an answer never ends on `TitleError`.
pub proof fn lemma_answer_is_no_title_error(link: Link, accept_interim: bool, attempt: nat)
    requires
        attempt <= MAX_INTERIM_READ_ATTEMPTS,
    ensures
        spec_read_answer(link, accept_interim, attempt).1 != Err::<Seq<u8>, InterfaceError>(
            InterfaceError::TitleError,
        ),
    decreases MAX_INTERIM_READ_ATTEMPTS + 1 - attempt,
{
    let (read, reply) = spec_read_reply(link, false, None);
    match reply {
        Err(_) => {},
        Ok(data) => {
            if reply_verdict(data, accept_interim) is None && attempt < MAX_INTERIM_READ_ATTEMPTS {
                let pause = TransferView::Sleep {
                    millis: spec_backoff(INTERIM_RESPONSE_RETRY_INTERVAL, attempt),
                };
                let (slept, paused) = spec_plain(read, pause);
                if paused is Ok {
                    lemma_answer_is_no_title_error(slept, accept_interim, attempt + 1);
                }
            }
        },
    }
}

/// No exchange ends on `TitleError`.
pub proof fn lemma_request_is_no_title_error(
    link: Link,
    template: Seq<char>,
    args: Seq<Value>,
    test: bool,
    accept_interim: bool,
)
    ensures
        spec_request(link, template, args, test, accept_interim).1 != Err::<
            Seq<u8>,
            InterfaceError,
        >(InterfaceError::TitleError),
{
    match spec_format_query(template, args) {
        Err(_) => {},
        Ok(query) => {
            let (sent, r) = spec_send_request(link, query, test);
            if r is Ok {
                lemma_answer_is_no_title_error(sent, accept_interim, 0);
            }
        },
    }
}

/// No change of descriptors ends on `TitleError`.
pub proof fn lemma_descriptors_are_no_title_error(
    link: Link,
    steps: Seq<(Descriptor, DescriptorAction)>,
    from: nat,
)
    ensures
        spec_change_descriptors(link, steps, from).1 != Err::<(), InterfaceError>(
            InterfaceError::TitleError,
        ),
    decreases steps.len() - from,
{
    if from < steps.len() {
        let query = descriptor_query(steps[from as int].0, steps[from as int].1);
        let (sent, r) = spec_send_request(link, query, false);
        if r is Ok {
            lemma_answer_is_no_title_error(sent, false, 0);
        }
        let (after, changed) = spec_change_descriptor_state(
            link,
            steps[from as int].0,
            steps[from as int].1,
        );
        if changed is Ok {
            lemma_descriptors_are_no_title_error(after, steps, from + 1);
        }
    }
}

/// `TitleError` is for the title that is there, and for no other: where the
/// raw title of the disc is read as `current`, `set_disc_title` ends on
/// `TitleError` if and only if the new title is `current`. Nothing is
/// written then: the connection is left where the reading of the raw title
/// left it.
pub proof fn lemma_title_error_is_for_the_same_title(
    link: Link,
    vendor_id: u16,
    title: Seq<char>,
    wchar: bool,
)
    requires
        spec_raw_disc_title(link, wchar).1 is Ok,
    ensures
        spec_set_disc_title(link, vendor_id, title, wchar).1 == Err::<(), InterfaceError>(
            InterfaceError::TitleError,
        ) <==> spec_raw_disc_title(link, wchar).1 == Ok::<Seq<char>, InterfaceError>(title),
        spec_raw_disc_title(link, wchar).1 == Ok::<Seq<char>, InterfaceError>(title)
            ==> spec_set_disc_title(link, vendor_id, title, wchar).0 == spec_raw_disc_title(
            link,
            wchar,
        ).0,
{
    let (l1, raw) = spec_raw_disc_title(link, wchar);
    let current = raw->Ok_0;
    if current != title {
        match (spec_prepared_title(title, wchar), spec_held_length(current)) {
            (Ok(new_title), Ok(old_len)) => {
                let opening = title_write_opening(vendor_id);
                let closing = title_write_closing(vendor_id);
                let values = title_write_values(
                    seq![Value::Number(wchar_value(wchar))],
                    new_title,
                    old_len,
                );
                lemma_descriptors_are_no_title_error(l1, opening, 0);
                let (l2, opened) = spec_change_descriptors(l1, opening, 0);
                if opened is Ok {
                    lemma_request_is_no_title_error(l2, SET_DISC_TITLE_REQUEST@, values, false, false);
                    let (l3, written) = spec_command(l2, SET_DISC_TITLE_REQUEST@, values, false);
                    if written is Ok {
                        lemma_descriptors_are_no_title_error(l3, closing, 0);
                    }
                }
            },
            _ => {},
        }
    }
}

/// The title that a track has, for the writing of a new one: none where the
/// device will not give it.
pub open spec fn spec_old_track_title(link: Link, track: u16, wchar: bool) -> (
    Link,
    Result<Option<Seq<char>>, InterfaceError>,
) {
    let (after, read) = spec_track_titles(link, seq![track], wchar);
    (
        after,
        match read {
            Ok(t) => if t.len() > 0 {
                Ok(Some(t[0]))
            } else {
                Ok(Some(Seq::empty()))
            },
            Err(InterfaceError::Rejected) => Ok(None),
            Err(e) => Err(e),
        },
    )
}

/// What `set_track_title` does. A title that, once it is made fit, is longer
/// than this machine can encode is refused. The title of the track is read; a title that is there already
/// needs no writing. Else the title is made fit and encoded, and written
/// over the old one inside the descriptor of the titles.
pub open spec fn spec_set_track_title(link: Link, track: u16, title: Seq<char>, wchar: bool) -> (
    Link,
    Result<(), InterfaceError>,
) {
    match spec_prepared_title(title, wchar) {
        Err(e) => (link, Err(e)),
        Ok(new_title) => {
            let (l1, old) = spec_old_track_title(link, track, wchar);
            match old {
                Err(e) => (l1, Err(e)),
                Ok(current) => if current == Some(title) {
                    (l1, Ok(()))
                } else {
                    match (
                        match current {
                            Some(c) => spec_held_length(c),
                            None => Ok(0nat),
                        }
                    ) {
                        Err(e) => (l1, Err(e)),
                        Ok(old_len) => spec_write_title(
                            l1,
                            seq![(track_title_descriptor(wchar), DescriptorAction::OpenWrite)],
                            SET_TRACK_TITLE_REQUEST@,
                            title_write_values(
                                seq![
                                    Value::Number(track_wchar_value(wchar)),
                                    Value::Number(track as i64),
                                ],
                                new_title,
                                old_len,
                            ),
                            seq![(track_title_descriptor(wchar), DescriptorAction::Close)],
                        ),
                    }
                },
            }
        },
    }
}

/// What each of a list of texts holds.
pub open spec fn texts_view(titles: Seq<String>) -> Seq<Seq<char>> {
    Seq::new(titles.len(), |i: int| titles[i]@)
}

/// The request of `save_track_to_array`.
pub const SAVE_TRACK_REQUEST: &'static str = "1800 080046 f003010330 ff00 1001 %w";

/// The reply of `save_track_to_array` before the audio.
pub const SAVE_TRACK_REPLY: &'static str = "1800 080046 f0030103 300000 1001 %w %b %d";

/// The reply of `save_track_to_array` behind the audio.
pub const SAVE_TRACK_END_REPLY: &'static str = "1800 080046 f003010330 0000 1001 %?%? %?%?";

/// The request of `send_track`.
pub const SEND_TRACK_REQUEST: &'static str =
    "1800 080046 f0030103 28 ff 000100 1001 ffff 00 %b %b %d %d";

/// The reply of `send_track` before the audio.
pub const SEND_TRACK_REPLY: &'static str = "1800 080046 f0030103 28 00 000100 1001 %?%? 00 %*";

/// The reply of `send_track` behind the audio.
pub const SEND_TRACK_END_REPLY: &'static str =
    "1800 080046 f0030103 28 00 000100 1001 %w 00 %?%? %?%?%?%? %?%?%?%? %*";

/// The request of `disc_subunit_identifier`.
pub const SUBUNIT_REQUEST: &'static str = "1809 00 ff00 0000 0000";

/// The reply of `disc_subunit_identifier`.
pub const SUBUNIT_REPLY: &'static str = "1809 00 1000 %?%? %?%? %w %b %b %b %b %w %*";

/// The size of a bulk read of audio.
pub const UPLOAD_CHUNK: usize = 0x10000;

/// The pause around the start of a download, in milliseconds; slow devices
/// need it.
pub const DOWNLOAD_PAUSE: u64 = 200;

/// The pause behind an upload, in milliseconds.
pub const UPLOAD_PAUSE: u64 = 500;

/// The media type of NetMD.
pub const NETMD_MEDIA_TYPE: u16 = 0x301;

/// The lowest four bytes of a number.
pub open spec fn low32(n: i64) -> u32 {
    (unsigned64(n) % 0x1_0000_0000) as u32
}

/// The lowest four bytes of a number.
pub fn to_low32(n: i64) -> (d: u32)
    ensures
        d == low32(n),
{
    (to_unsigned(n) % 0x1_0000_0000) as u32
}

/// The frames, the codec and the length of the audio in the values of a
/// reply.
pub open spec fn upload_header_in(values: Seq<Value>) -> Result<(u16, u8, usize), InterfaceError> {
    match (spec_number_at(values, 0), spec_number_at(values, 1), spec_number_at(values, 2)) {
        (Ok(frames), Ok(codec), Ok(length)) => Ok(
            (low16(frames), low8(codec), low32(length) as usize),
        ),
        (Err(e), _, _) => Err(e),
        (_, Err(e), _) => Err(e),
        (_, _, Err(e)) => Err(e),
    }
}

/// What `save_track_to_array` does: the track is asked for, and the reply,
/// which may be interim, gives its frames, its codec and the length of the
/// audio. The audio is read from the bulk endpoint. The closing reply is
/// read, and a pause follows.
pub open spec fn spec_save_track_to_array(link: Link, track: u16, progress: bool) -> (
    Link,
    Result<(DiscFormat, u16, Seq<u8>), InterfaceError>,
) {
    let (l1, read) = spec_exchange(
        link,
        SAVE_TRACK_REQUEST@,
        seq![Value::Number((track + 1) as i64)],
        true,
        SAVE_TRACK_REPLY@,
    );
    match read {
        Err(e) => (l1, Err(e)),
        Ok(values) => match upload_header_in(values) {
            Err(e) => (l1, Err(e)),
            Ok((frames, codec, length)) => {
                let (l2, audio) = spec_read_bulk_from(
                    l1,
                    length,
                    UPLOAD_CHUNK,
                    progress,
                    0,
                    Seq::empty(),
                );
                match audio {
                    Err(e) => (l2, Err(InterfaceError::CommunicationError(e))),
                    Ok(bytes) => {
                        let (l3, end) = spec_read_answer(l2, false, 0);
                        match end {
                            Err(e) => (l3, Err(e)),
                            Ok(reply) => match spec_scan_query(reply, SAVE_TRACK_END_REPLY@) {
                                Err(e) => (l3, Err(InterfaceError::QueryError(e))),
                                Ok(_) => {
                                    let (l4, pause) = spec_plain(
                                        l3,
                                        TransferView::Sleep { millis: UPLOAD_PAUSE },
                                    );
                                    (
                                        l4,
                                        match pause {
                                            Err(e) => Err(InterfaceError::CommunicationError(e)),
                                            Ok(_) => Ok(
                                                (DiscFormat::spec_from_codec(codec), frames, bytes),
                                            ),
                                        },
                                    )
                                },
                            },
                        }
                    },
                }
            },
        },
    }
}

/// The start of `send_track`: a pause, the announcement of the track with
/// its formats, its frames and the count of the bytes to come, a poll, a
/// pause.
pub open spec fn spec_begin_track(
    link: Link,
    wireformat: u8,
    discformat: u8,
    frames: u32,
    pkt_size: u32,
) -> (Link, Result<(), InterfaceError>) {
    let (l1, paused) = spec_plain(link, TransferView::Sleep { millis: DOWNLOAD_PAUSE });
    match paused {
        Err(e) => (l1, Err(InterfaceError::CommunicationError(e))),
        Ok(_) => {
            let (l2, read) = spec_exchange(
                l1,
                SEND_TRACK_REQUEST@,
                seq![
                    Value::Number(wireformat as i64),
                    Value::Number(discformat as i64),
                    Value::Number(frames as i64),
                    Value::Number((pkt_size + 24) as i64),
                ],
                true,
                SEND_TRACK_REPLY@,
            );
            match read {
                Err(e) => (l2, Err(e)),
                Ok(_) => {
                    let (l3, polled) = spec_poll(l2);
                    match polled {
                        Err(e) => (l3, Err(InterfaceError::CommunicationError(e))),
                        Ok(_) => {
                            let (l4, settled) = spec_plain(
                                l3,
                                TransferView::Sleep { millis: DOWNLOAD_PAUSE },
                            );
                            (l4, lift(settled))
                        },
                    }
                },
            }
        },
    }
}

/// What goes to the bulk endpoint for a packet: the first packet has a
/// header before its ciphertext, of four zero bytes, the size of the audio,
/// the wrapped content key and the initialisation vector.
pub open spec fn packet_bytes(packet: (Seq<u8>, Seq<u8>, Seq<u8>), first: bool, pkt_size: u32) -> Seq<
    u8,
> {
    if first {
        seq![0u8, 0u8, 0u8, 0u8] + crate::netmd::query_utils::be_bytes(pkt_size as int, 4)
            + packet.0 + packet.1 + packet.2
    } else {
        packet.2
    }
}

/// The packets of `send_track`: each packet of the stream goes to the bulk
/// endpoint, with a notice of progress behind it where one is wanted, until
/// the stream ends or all the bytes that were announced have gone.
pub open spec fn spec_send_packets(
    link: Link,
    stream: Stream,
    pkt_size: u32,
    written: nat,
    progress: bool,
) -> (Link, Result<(), InterfaceError>)
    decreases stream.payload.len() - stream.consumed,
{
    match stream_next(stream) {
        None => (link, Ok(())),
        Some((packet, behind)) => if behind.consumed <= stream.consumed {
            (link, Ok(()))
        } else {
            let bytes = packet_bytes(packet, stream.packets == 0, pkt_size);
            let (l1, w) = spec_write_bulk(link, bytes);
            match w {
                Err(e) => (l1, Err(InterfaceError::CommunicationError(e))),
                Ok(_) => {
                    let done = written + bytes.len();
                    let (l2, told) = if progress {
                        spec_plain(
                            l1,
                            TransferView::Progress {
                                total: (pkt_size + 24) as u64,
                                done: done as u64,
                            },
                        )
                    } else {
                        (l1, Ok(()))
                    };
                    match told {
                        Err(e) => (l2, Err(InterfaceError::CommunicationError(e))),
                        Ok(_) => if done == pkt_size + 24 {
                            (l2, Ok(()))
                        } else {
                            spec_send_packets(l2, behind, pkt_size, done, progress)
                        },
                    }
                },
            }
        },
    }
}

/// The track, and the two identifiers of the device for it, in the values of
/// the closing reply: the identifiers come encrypted under the session key
/// with DES in CBC mode from a zero block, the first in bytes 0 to 8, the
/// second in bytes 12 to 32.
pub open spec fn sent_track_in(values: Seq<Value>, session_key: Seq<u8>) -> Result<
    (u16, Seq<u8>, Seq<u8>),
    InterfaceError,
> {
    match (spec_number_at(values, 0), spec_array_at(values, 1)) {
        (Err(e), _) => Err(e),
        (_, Err(e)) => Err(e),
        (Ok(track), Ok(encrypted)) => if encrypted.len() < 32 || encrypted.len() % 8 != 0 {
            Err(InterfaceError::CommunicationError(NetMDError::InvalidResult))
        } else {
            let plain = cbc_decrypt(session_key, zero_block(), encrypted);
            Ok((low16(track), plain.subrange(0, 8), plain.subrange(12, 32)))
        },
    }
}

/// The end of `send_track`: the closing reply is read, a poll follows, and
/// the reply gives the track.
pub open spec fn spec_end_track(link: Link, session_key: Seq<u8>) -> (
    Link,
    Result<(u16, Seq<u8>, Seq<u8>), InterfaceError>,
) {
    let (l1, reply) = spec_read_answer(link, false, 0);
    match reply {
        Err(e) => (l1, Err(e)),
        Ok(data) => {
            let (l2, polled) = spec_poll(l1);
            match polled {
                Err(e) => (l2, Err(InterfaceError::CommunicationError(e))),
                Ok(_) => match spec_scan_query(data, SEND_TRACK_END_REPLY@) {
                    Err(e) => (l2, Err(InterfaceError::QueryError(e))),
                    Ok(values) => (l2, sent_track_in(values, session_key)),
                },
            }
        },
    }
}

/// What `send_track` does: a session key that is not of 8 bytes is refused;
/// else the track is announced, its packets are sent, and the closing reply
/// gives its place on the disc and the identifiers of the device for it.
pub open spec fn spec_send_track(
    link: Link,
    wireformat: u8,
    discformat: u8,
    frames: u32,
    pkt_size: u32,
    stream: Stream,
    session_key: Seq<u8>,
    progress: bool,
) -> (Link, Result<(u16, Seq<u8>, Seq<u8>), InterfaceError>) {
    if session_key.len() != 8 {
        (
            link,
            Err(
                InterfaceError::EncryptionError(
                    EncryptionError::InvalidLength(
                        SessionField::SessionKey,
                        session_key.len() as usize,
                    ),
                ),
            ),
        )
    } else {
        let (l1, begun) = spec_begin_track(link, wireformat, discformat, frames, pkt_size);
        match begun {
            Err(e) => (l1, Err(e)),
            Ok(_) => {
                let (l2, sent) = spec_send_packets(l1, stream, pkt_size, 0, progress);
                match sent {
                    Err(e) => (l2, Err(e)),
                    Ok(_) => spec_end_track(l2, session_key),
                }
            },
        }
    }
}

/// The level of the first medium of the NetMD type among `count` media from
/// the place `at`, each in eight bytes: its type in two, then its
/// implementation profile.
pub open spec fn spec_first_netmd(buffer: Seq<u8>, at: int, count: nat, i: nat) -> Result<
    NetMDLevel,
    InterfaceError,
>
    decreases count - i,
{
    if i >= count {
        Err(InterfaceError::NoSupportedMedia)
    } else if buffer[at + 8 * i] as int * 256 + buffer[at + 8 * i + 1] as int
        == NETMD_MEDIA_TYPE {
        NetMDLevel::spec_try_from(buffer[at + 8 * i + 2])
    } else {
        spec_first_netmd(buffer, at, count, i + 1)
    }
}

/// The level of a device in the identifier of its disc subunit. The
/// identifier holds the root object lists, six bytes of lengths and versions,
/// the count of the supported media, the media, and the data of the
/// manufacturer behind its length. An identifier that is shorter than it
/// says is an error.
pub open spec fn spec_media_level(buffer: Seq<u8>, size_of_list_id: nat, root_lists: nat) -> Result<
    NetMDLevel,
    InterfaceError,
> {
    let at = root_lists * size_of_list_id + 6;
    if buffer.len() <= at {
        Err(InterfaceError::QueryError(QueryError::UnexpectedEnd))
    } else {
        let count = buffer[at as int] as nat;
        let end = at + 1 + 8 * count;
        if buffer.len() < end + 2 {
            Err(InterfaceError::QueryError(QueryError::UnexpectedEnd))
        } else if buffer.len() < end + 2 + buffer[end as int] as int * 256 + buffer[end as int
            + 1] as int {
            Err(InterfaceError::QueryError(QueryError::UnexpectedEnd))
        } else {
            spec_first_netmd(buffer, at as int + 1, count, 0)
        }
    }
}

/// The level of a device in the values of the reply with the identifier of
/// its disc subunit.
pub open spec fn subunit_level_in(values: Seq<Value>) -> Result<NetMDLevel, InterfaceError> {
    match (spec_number_at(values, 2), spec_number_at(values, 5), spec_array_at(values, 6)) {
        (Err(e), _, _) => Err(e),
        (_, Err(e), _) => Err(e),
        (_, _, Err(e)) => Err(e),
        (Ok(size), Ok(lists), Ok(buffer)) => spec_media_level(
            buffer,
            low8(size) as nat,
            if lists < 0 {
                0
            } else if lists > 0xffff {
                0xffff
            } else {
                lists as nat
            },
        ),
    }
}

/// What `disc_subunit_identifier` does.
pub open spec fn spec_disc_subunit_identifier(link: Link) -> (
    Link,
    Result<NetMDLevel, InterfaceError>,
) {
    let (after, read) = spec_ask(
        link,
        Some(Descriptor::DiscSubunitIdentifier),
        SUBUNIT_REQUEST@,
        Seq::empty(),
        SUBUNIT_REPLY@,
    );
    (
        after,
        match read {
            Err(e) => Err(e),
            Ok(values) => subunit_level_in(values),
        },
    )
}

/// The level of a device in the identifier of its disc subunit.
pub fn media_level(buffer: &Vec<u8>, size_of_list_id: u8, root_lists: u16) -> (r: Result<
    NetMDLevel,
    InterfaceError,
>)
    ensures
        r == spec_media_level(buffer@, size_of_list_id as nat, root_lists as nat),
{
    assert(root_lists as nat * size_of_list_id as nat <= 0xffff * 0xff) by (nonlinear_arith)
        requires
            root_lists <= 0xffff,
            size_of_list_id <= 0xff,
    ;
    let at: u64 = root_lists as u64 * size_of_list_id as u64 + 6;
    if buffer.len() as u64 <= at {
        return Err(InterfaceError::QueryError(QueryError::UnexpectedEnd));
    }
    let at: usize = at as usize;
    let count: usize = buffer[at] as usize;
    let end: usize = at + 1 + 8 * count;
    if buffer.len() < end + 2 {
        return Err(InterfaceError::QueryError(QueryError::UnexpectedEnd));
    }
    let manufacturer: usize = buffer[end] as usize * 256 + buffer[end + 1] as usize;
    if buffer.len() < end + 2 + manufacturer {
        return Err(InterfaceError::QueryError(QueryError::UnexpectedEnd));
    }
    let first = at + 1;
    let mut i: usize = 0;
    assert(spec_media_level(buffer@, size_of_list_id as nat, root_lists as nat)
        == spec_first_netmd(buffer@, first as int, count as nat, 0));
    while i < count
        invariant
            i <= count,
            first + 8 * count + 2 <= buffer.len(),
            spec_media_level(buffer@, size_of_list_id as nat, root_lists as nat)
                == spec_first_netmd(buffer@, first as int, count as nat, i as nat),
        decreases count - i,
    {
        let supported_media_type: u16 = buffer[first + 8 * i] as u16 * 256 + buffer[first + 8 * i
            + 1] as u16;
        if supported_media_type == NETMD_MEDIA_TYPE {
            return NetMDLevel::try_from(buffer[first + 8 * i + 2]);
        }
        i = i + 1;
    }
    Err(InterfaceError::NoSupportedMedia)
}

/// An interface for interacting with a NetMD device
pub struct NetMDInterface {
    pub device: NetMD,
}

impl NetMDInterface {
    /// Get a new interface to a NetMD device
    pub fn new(device: NetMD) -> (interface: NetMDInterface)
        ensures
            interface.device == device,
    {
        NetMDInterface { device }
    }

    /// Sends a request: the status byte of a request, then the query.
    pub fn send_command(&mut self, query: &Vec<u8>, test: bool) -> (r: Result<(), InterfaceError>)
        requires
            old(self).device.wf(),
        ensures
            final(self).device.wf(),
            final(self).device.spec_model() == old(self).device.spec_model(),
            (final(self).device@, r) == spec_send_request(old(self).device@, query@, test),
    {
        let status_byte = if test {
            NetmdStatus::GeneralInquiry
        } else {
            NetmdStatus::Control
        };
        let mut new_query: Vec<u8> = Vec::new();
        new_query.push(status_byte.code());
        let mut body = query.clone();
        new_query.append(&mut body);
        match self.device.send_command(new_query) {
            Ok(_) => Ok(()),
            Err(e) => Err(InterfaceError::CommunicationError(e)),
        }
    }

    /// Reads the answer to a request, passing over interim replies unless
    /// they are wanted.
    pub fn read_reply(&mut self, accept_interim: bool) -> (r: Result<Vec<u8>, InterfaceError>)
        requires
            old(self).device.wf(),
        ensures
            final(self).device.wf(),
            final(self).device.spec_model() == old(self).device.spec_model(),
            (final(self).device@, bytes_of(r)) == spec_read_answer(
                old(self).device@,
                accept_interim,
                0,
            ),
    {
        let mut current_attempt: u32 = 0;
        let ghost start = self.device@;
        loop
            invariant
                self.device.wf(),
                self.device.spec_model() == old(self).device.spec_model(),
                start == old(self).device@,
                current_attempt <= MAX_INTERIM_READ_ATTEMPTS,
                spec_read_answer(start, accept_interim, 0) == spec_read_answer(
                    self.device@,
                    accept_interim,
                    current_attempt as nat,
                ),
            decreases MAX_INTERIM_READ_ATTEMPTS - current_attempt,
        {
            let data = match self.device.read_reply(None) {
                Ok(data) => data,
                Err(e) => {
                    return Err(InterfaceError::CommunicationError(e));
                },
            };
            if data.len() == 0 {
                return Err(InterfaceError::CommunicationError(NetMDError::InvalidResult));
            }
            let status = match NetmdStatus::try_from(data[0]) {
                Ok(status) => status,
                Err(e) => {
                    return Err(InterfaceError::InvalidStatus(e));
                },
            };
            match status {
                NetmdStatus::NotImplemented => {
                    return Err(InterfaceError::NotImplemented);
                },
                NetmdStatus::Rejected => {
                    return Err(InterfaceError::Rejected);
                },
                NetmdStatus::Interim => {
                    if accept_interim {
                        return Ok(data);
                    }
                    if current_attempt >= MAX_INTERIM_READ_ATTEMPTS {
                        return Err(InterfaceError::MaxRetries);
                    }
                    let sleep_time = backoff(INTERIM_RESPONSE_RETRY_INTERVAL, current_attempt);
                    match self.device.sleep(sleep_time) {
                        Ok(_) => {},
                        Err(e) => {
                            return Err(InterfaceError::CommunicationError(e));
                        },
                    }
                    current_attempt = current_attempt + 1;
                },
                NetmdStatus::Accepted => {
                    return Ok(data);
                },
                NetmdStatus::Implemented => {
                    return Ok(data);
                },
                _ => {
                    return Err(InterfaceError::Unknown);
                },
            }
        }
    }

    /// Send a query to the NetMD player
    pub fn send_query(&mut self, query: &Vec<u8>, test: bool, accept_interim: bool) -> (r: Result<
        Vec<u8>,
        InterfaceError,
    >)
        requires
            old(self).device.wf(),
        ensures
            final(self).device.wf(),
            final(self).device.spec_model() == old(self).device.spec_model(),
            (final(self).device@, bytes_of(r)) == spec_send_query(
                old(self).device@,
                query@,
                test,
                accept_interim,
            ),
    {
        match self.send_command(query, test) {
            Err(e) => Err(e),
            Ok(_) => self.read_reply(accept_interim),
        }
    }

    /// Opens or closes a descriptor.
    pub fn change_descriptor_state(&mut self, descriptor: Descriptor, action: DescriptorAction) -> (r:
        Result<(), InterfaceError>)
        requires
            old(self).device.wf(),
        ensures
            final(self).device.wf(),
            final(self).device.spec_model() == old(self).device.spec_model(),
            (final(self).device@, r) == spec_change_descriptor_state(
                old(self).device@,
                descriptor,
                action,
            ),
    {
        let mut query: Vec<u8> = Vec::new();
        query.push(0x18);
        query.push(0x08);
        let mut selector = descriptor.get_array();
        query.append(&mut selector);
        query.push(action.code());
        query.push(0x00);
        assert(query@ == descriptor_query(descriptor, action));
        match self.send_query(&query, false, false) {
            Ok(_) => Ok(()),
            Err(err) => Err(err),
        }
    }

    /// Assembles a query from a template and values, and sends it.
    pub fn request(
        &mut self,
        template: &str,
        args: &Vec<QueryValue>,
        test: bool,
        accept_interim: bool,
    ) -> (r: Result<Vec<u8>, InterfaceError>)
        requires
            old(self).device.wf(),
        ensures
            final(self).device.wf(),
            final(self).device.spec_model() == old(self).device.spec_model(),
            (final(self).device@, bytes_of(r)) == spec_request(
                old(self).device@,
                template@,
                values_view(args@),
                test,
                accept_interim,
            ),
    {
        let query = match parse_template(template) {
            Err(e) => {
                return Err(InterfaceError::QueryError(e));
            },
            Ok(tokens) => match format_tokens(&tokens, args) {
                Err(e) => {
                    return Err(InterfaceError::QueryError(e));
                },
                Ok(query) => query,
            },
        };
        self.send_query(&query, test, accept_interim)
    }

    /// Makes an exchange from templates and reads its reply with a template.
    pub fn exchange(
        &mut self,
        template: &str,
        args: &Vec<QueryValue>,
        accept_interim: bool,
        reply_template: &str,
    ) -> (r: Result<Vec<QueryValue>, InterfaceError>)
        requires
            old(self).device.wf(),
        ensures
            final(self).device.wf(),
            final(self).device.spec_model() == old(self).device.spec_model(),
            (final(self).device@, values_of(r)) == spec_exchange(
                old(self).device@,
                template@,
                values_view(args@),
                accept_interim,
                reply_template@,
            ),
    {
        let reply = match self.request(template, args, false, accept_interim) {
            Err(e) => {
                return Err(e);
            },
            Ok(reply) => reply,
        };
        match parse_template(reply_template) {
            Err(e) => Err(InterfaceError::QueryError(e)),
            Ok(tokens) => match scan_tokens(&tokens, &reply) {
                Err(e) => Err(InterfaceError::QueryError(e)),
                Ok(values) => Ok(values),
            },
        }
    }

    /// Makes an exchange inside a descriptor, or outside any.
    pub fn ask(
        &mut self,
        descriptor: Option<Descriptor>,
        template: &str,
        args: &Vec<QueryValue>,
        reply_template: &str,
    ) -> (r: Result<Vec<QueryValue>, InterfaceError>)
        requires
            old(self).device.wf(),
        ensures
            final(self).device.wf(),
            final(self).device.spec_model() == old(self).device.spec_model(),
            (final(self).device@, values_of(r)) == spec_ask(
                old(self).device@,
                descriptor,
                template@,
                values_view(args@),
                reply_template@,
            ),
    {
        match descriptor {
            None => self.exchange(template, args, false, reply_template),
            Some(d) => {
                match self.change_descriptor_state(d, DescriptorAction::OpenRead) {
                    Err(e) => {
                        return Err(e);
                    },
                    Ok(_) => {},
                }
                let values = match self.exchange(template, args, false, reply_template) {
                    Err(e) => {
                        return Err(e);
                    },
                    Ok(values) => values,
                };
                match self.change_descriptor_state(d, DescriptorAction::Close) {
                    Err(e) => Err(e),
                    Ok(_) => Ok(values),
                }
            },
        }
    }

    /// Starts, pauses or winds playback.
    pub fn playback_control(&mut self, action: Action) -> (r: Result<(), InterfaceError>)
        requires
            old(self).device.wf(),
        ensures
            final(self).device.wf(),
            final(self).device.spec_model() == old(self).device.spec_model(),
            (final(self).device@, r) == spec_playback_control(old(self).device@, action),
    {
        let mut args: Vec<QueryValue> = Vec::new();
        args.push(QueryValue::Number(action.code() as i64));
        assert(values_view(args@) == seq![Value::Number(action.spec_code() as i64)]);
        match self.ask(None, PLAYBACK_CONTROL_REQUEST, &args, PLAYBACK_CONTROL_REPLY) {
            Err(e) => Err(e),
            Ok(values) => Ok(()),
        }
    }

    /// Stop playback
    pub fn stop(&mut self) -> (r: Result<(), InterfaceError>)
        requires
            old(self).device.wf(),
        ensures
            final(self).device.wf(),
            final(self).device.spec_model() == old(self).device.spec_model(),
            (final(self).device@, r) == spec_stop(old(self).device@),
    {
        let mut args: Vec<QueryValue> = Vec::new();
        assert(values_view(args@) == Seq::<Value>::empty());
        match self.ask(None, STOP_REQUEST, &args, STOP_REPLY) {
            Err(e) => Err(e),
            Ok(values) => Ok(()),
        }
    }

    /// Takes the device for this host. A download needs it.
    pub fn acquire(&mut self) -> (r: Result<(), InterfaceError>)
        requires
            old(self).device.wf(),
        ensures
            final(self).device.wf(),
            final(self).device.spec_model() == old(self).device.spec_model(),
            (final(self).device@, r) == spec_acquire(old(self).device@),
    {
        let mut args: Vec<QueryValue> = Vec::new();
        assert(values_view(args@) == Seq::<Value>::empty());
        match self.ask(None, ACQUIRE_REQUEST, &args, ACQUIRE_REPLY) {
            Err(e) => Err(e),
            Ok(values) => Ok(()),
        }
    }

    /// Gives the device up again.
    pub fn release(&mut self) -> (r: Result<(), InterfaceError>)
        requires
            old(self).device.wf(),
        ensures
            final(self).device.wf(),
            final(self).device.spec_model() == old(self).device.spec_model(),
            (final(self).device@, r) == spec_release(old(self).device@),
    {
        let mut args: Vec<QueryValue> = Vec::new();
        assert(values_view(args@) == Seq::<Value>::empty());
        match self.ask(None, RELEASE_REQUEST, &args, RELEASE_REPLY) {
            Err(e) => Err(e),
            Ok(values) => Ok(()),
        }
    }

    /// The status block of the device.
    pub fn status(&mut self) -> (r: Result<Vec<u8>, InterfaceError>)
        requires
            old(self).device.wf(),
        ensures
            final(self).device.wf(),
            final(self).device.spec_model() == old(self).device.spec_model(),
            (final(self).device@, bytes_of(r)) == spec_status(old(self).device@),
    {
        let mut args: Vec<QueryValue> = Vec::new();
        assert(values_view(args@) == Seq::<Value>::empty());
        match self.ask(Some(Descriptor::OperatingStatusBlock), STATUS_REQUEST, &args, STATUS_REPLY) {
            Err(e) => Err(e),
            Ok(values) => array_at(&values, 0),
        }
    }

    /// A playback status block of the device.
    pub fn playback_status_query(&mut self, selector: u16, field: u16) -> (r: Result<Vec<u8>, InterfaceError>)
        requires
            old(self).device.wf(),
        ensures
            final(self).device.wf(),
            final(self).device.spec_model() == old(self).device.spec_model(),
            (final(self).device@, bytes_of(r)) == spec_playback_status_query(old(self).device@, selector, field),
    {
        let mut args: Vec<QueryValue> = Vec::new();
        args.push(QueryValue::Number(selector as i64));
        args.push(QueryValue::Number(field as i64));
        assert(values_view(args@) == seq![Value::Number(selector as i64), Value::Number(field as i64)]);
        match self.ask(Some(Descriptor::OperatingStatusBlock), PLAYBACK_STATUS_QUERY_REQUEST, &args, PLAYBACK_STATUS_QUERY_REPLY) {
            Err(e) => Err(e),
            Ok(values) => array_at(&values, 0),
        }
    }

    /// Move the playback to a specific track
    pub fn go_to_track(&mut self, track_number: u16) -> (r: Result<u16, InterfaceError>)
        requires
            old(self).device.wf(),
        ensures
            final(self).device.wf(),
            final(self).device.spec_model() == old(self).device.spec_model(),
            (final(self).device@, r) == spec_go_to_track(old(self).device@, track_number),
    {
        let mut args: Vec<QueryValue> = Vec::new();
        args.push(QueryValue::Number(track_number as i64));
        assert(values_view(args@) == seq![Value::Number(track_number as i64)]);
        match self.ask(None, GO_TO_TRACK_REQUEST, &args, GO_TO_TRACK_REPLY) {
            Err(e) => Err(e),
            Ok(values) => match number_at(&values, 0) { Ok(n) => Ok(to_low16(n)), Err(e) => Err(e) },
        }
    }

    /// Move the playback to a specific time
    pub fn go_to_time(&mut self, track_number: u16, hour: u8, minute: u8, second: u8, frame: u8) -> (r: Result<u16, InterfaceError>)
        requires
            old(self).device.wf(),
        ensures
            final(self).device.wf(),
            final(self).device.spec_model() == old(self).device.spec_model(),
            (final(self).device@, r) == spec_go_to_time(old(self).device@, track_number, hour, minute, second, frame),
    {
        let mut args: Vec<QueryValue> = Vec::new();
        args.push(QueryValue::Number(track_number as i64));
        args.push(QueryValue::Number(hour as i64));
        args.push(QueryValue::Number(minute as i64));
        args.push(QueryValue::Number(second as i64));
        args.push(QueryValue::Number(frame as i64));
        assert(values_view(args@) == seq![
                Value::Number(track_number as i64),
                Value::Number(hour as i64),
                Value::Number(minute as i64),
                Value::Number(second as i64),
                Value::Number(frame as i64),
            ]);
        match self.ask(None, GO_TO_TIME_REQUEST, &args, GO_TO_TIME_REPLY) {
            Err(e) => Err(e),
            Ok(values) => match number_at(&values, 0) { Ok(n) => Ok(to_low16(n)), Err(e) => Err(e) },
        }
    }

    /// Change track in a [`Direction`]
    pub fn track_change(&mut self, direction: Direction) -> (r: Result<(), InterfaceError>)
        requires
            old(self).device.wf(),
        ensures
            final(self).device.wf(),
            final(self).device.spec_model() == old(self).device.spec_model(),
            (final(self).device@, r) == spec_track_change(old(self).device@, direction),
    {
        let mut args: Vec<QueryValue> = Vec::new();
        args.push(QueryValue::Number(direction.code() as i64));
        assert(values_view(args@) == seq![Value::Number(direction.spec_code() as i64)]);
        match self.ask(None, TRACK_CHANGE_REQUEST, &args, TRACK_CHANGE_REPLY) {
            Err(e) => Err(e),
            Ok(values) => Ok(()),
        }
    }

    /// Erase the disc entirely
    pub fn erase_disc(&mut self) -> (r: Result<(), InterfaceError>)
        requires
            old(self).device.wf(),
        ensures
            final(self).device.wf(),
            final(self).device.spec_model() == old(self).device.spec_model(),
            (final(self).device@, r) == spec_erase_disc(old(self).device@),
    {
        let mut args: Vec<QueryValue> = Vec::new();
        assert(values_view(args@) == Seq::<Value>::empty());
        match self.ask(None, ERASE_DISC_REQUEST, &args, ERASE_DISC_REPLY) {
            Err(e) => Err(e),
            Ok(values) => Ok(()),
        }
    }

    /// Get the flags from a disc
    pub fn disc_flags(&mut self) -> (r: Result<u8, InterfaceError>)
        requires
            old(self).device.wf(),
        ensures
            final(self).device.wf(),
            final(self).device.spec_model() == old(self).device.spec_model(),
            (final(self).device@, r) == spec_disc_flags(old(self).device@),
    {
        let mut args: Vec<QueryValue> = Vec::new();
        assert(values_view(args@) == Seq::<Value>::empty());
        match self.ask(Some(Descriptor::RootTD), DISC_FLAGS_REQUEST, &args, DISC_FLAGS_REPLY) {
            Err(e) => Err(e),
            Ok(values) => match number_at(&values, 0) { Ok(n) => Ok(to_low8(n)), Err(e) => Err(e) },
        }
    }

    /// Get the number of tracks on  the disc
    pub fn track_count(&mut self) -> (r: Result<u16, InterfaceError>)
        requires
            old(self).device.wf(),
        ensures
            final(self).device.wf(),
            final(self).device.spec_model() == old(self).device.spec_model(),
            (final(self).device@, r) == spec_track_count(old(self).device@),
    {
        let mut args: Vec<QueryValue> = Vec::new();
        assert(values_view(args@) == Seq::<Value>::empty());
        match self.ask(Some(Descriptor::AudioContentsTD), TRACK_COUNT_REQUEST, &args, TRACK_COUNT_REPLY) {
            Err(e) => Err(e),
            Ok(values) => match number_at(&values, 0) { Ok(n) => Ok(to_low16(n)), Err(e) => Err(e) },
        }
    }

    /// Raw information about a track
    pub fn raw_track_info(&mut self, track: u16, selector: u16, field: u16) -> (r: Result<Vec<u8>, InterfaceError>)
        requires
            old(self).device.wf(),
        ensures
            final(self).device.wf(),
            final(self).device.spec_model() == old(self).device.spec_model(),
            (final(self).device@, bytes_of(r)) == spec_raw_track_info(old(self).device@, track, selector, field),
    {
        let mut args: Vec<QueryValue> = Vec::new();
        args.push(QueryValue::Number(track as i64));
        args.push(QueryValue::Number(selector as i64));
        args.push(QueryValue::Number(field as i64));
        assert(values_view(args@) == seq![
                Value::Number(track as i64),
                Value::Number(selector as i64),
                Value::Number(field as i64),
            ]);
        match self.ask(Some(Descriptor::AudioContentsTD), RAW_TRACK_INFO_REQUEST, &args, RAW_TRACK_INFO_REPLY) {
            Err(e) => Err(e),
            Ok(values) => array_at(&values, 0),
        }
    }

    /// Gets a track's flags
    pub fn track_flags(&mut self, track: u16) -> (r: Result<u8, InterfaceError>)
        requires
            old(self).device.wf(),
        ensures
            final(self).device.wf(),
            final(self).device.spec_model() == old(self).device.spec_model(),
            (final(self).device@, r) == spec_track_flags(old(self).device@, track),
    {
        let mut args: Vec<QueryValue> = Vec::new();
        args.push(QueryValue::Number(track as i64));
        assert(values_view(args@) == seq![Value::Number(track as i64)]);
        match self.ask(Some(Descriptor::AudioContentsTD), TRACK_FLAGS_REQUEST, &args, TRACK_FLAGS_REPLY) {
            Err(e) => Err(e),
            Ok(values) => match number_at(&values, 0) { Ok(n) => Ok(to_low8(n)), Err(e) => Err(e) },
        }
    }

    /// Switches the protection of new tracks.
    pub fn disable_new_track_protection(&mut self, val: u16) -> (r: Result<(), InterfaceError>)
        requires
            old(self).device.wf(),
        ensures
            final(self).device.wf(),
            final(self).device.spec_model() == old(self).device.spec_model(),
            (final(self).device@, r) == spec_disable_new_track_protection(old(self).device@, val),
    {
        let mut args: Vec<QueryValue> = Vec::new();
        args.push(QueryValue::Number(val as i64));
        assert(values_view(args@) == seq![Value::Number(val as i64)]);
        match self.ask(None, DISABLE_NEW_TRACK_PROTECTION_REQUEST, &args, DISABLE_NEW_TRACK_PROTECTION_REPLY) {
            Err(e) => Err(e),
            Ok(values) => Ok(()),
        }
    }

    /// Enters the secure session.
    pub fn enter_secure_session(&mut self) -> (r: Result<(), InterfaceError>)
        requires
            old(self).device.wf(),
        ensures
            final(self).device.wf(),
            final(self).device.spec_model() == old(self).device.spec_model(),
            (final(self).device@, r) == spec_enter_secure_session(old(self).device@),
    {
        let mut args: Vec<QueryValue> = Vec::new();
        assert(values_view(args@) == Seq::<Value>::empty());
        match self.ask(None, ENTER_SECURE_SESSION_REQUEST, &args, ENTER_SECURE_SESSION_REPLY) {
            Err(e) => Err(e),
            Ok(values) => Ok(()),
        }
    }

    /// Leaves the secure session.
    pub fn leave_secure_session(&mut self) -> (r: Result<(), InterfaceError>)
        requires
            old(self).device.wf(),
        ensures
            final(self).device.wf(),
            final(self).device.spec_model() == old(self).device.spec_model(),
            (final(self).device@, r) == spec_leave_secure_session(old(self).device@),
    {
        let mut args: Vec<QueryValue> = Vec::new();
        assert(values_view(args@) == Seq::<Value>::empty());
        match self.ask(None, LEAVE_SECURE_SESSION_REQUEST, &args, LEAVE_SECURE_SESSION_REPLY) {
            Err(e) => Err(e),
            Ok(values) => Ok(()),
        }
    }

    /// Makes the device forget the session key.
    pub fn session_key_forget(&mut self) -> (r: Result<(), InterfaceError>)
        requires
            old(self).device.wf(),
        ensures
            final(self).device.wf(),
            final(self).device.spec_model() == old(self).device.spec_model(),
            (final(self).device@, r) == spec_session_key_forget(old(self).device@),
    {
        let mut args: Vec<QueryValue> = Vec::new();
        assert(values_view(args@) == Seq::<Value>::empty());
        match self.ask(None, SESSION_KEY_FORGET_REQUEST, &args, SESSION_KEY_FORGET_REPLY) {
            Err(e) => Err(e),
            Ok(values) => Ok(()),
        }
    }

    /// Begin playback or resume after paused
    pub fn play(&mut self) -> (r: Result<(), InterfaceError>)
        requires
            old(self).device.wf(),
        ensures
            final(self).device.wf(),
            final(self).device.spec_model() == old(self).device.spec_model(),
            (final(self).device@, r) == spec_playback_control(old(self).device@, Action::Play),
    {
        self.playback_control(Action::Play)
    }

    /// Fast foward through the disc
    pub fn fast_forward(&mut self) -> (r: Result<(), InterfaceError>)
        requires
            old(self).device.wf(),
        ensures
            final(self).device.wf(),
            final(self).device.spec_model() == old(self).device.spec_model(),
            (final(self).device@, r) == spec_playback_control(
                old(self).device@,
                Action::FastForward,
            ),
    {
        self.playback_control(Action::FastForward)
    }

    /// Rewind through the disc
    pub fn rewind(&mut self) -> (r: Result<(), InterfaceError>)
        requires
            old(self).device.wf(),
        ensures
            final(self).device.wf(),
            final(self).device.spec_model() == old(self).device.spec_model(),
            (final(self).device@, r) == spec_playback_control(old(self).device@, Action::Rewind),
    {
        self.playback_control(Action::Rewind)
    }

    /// Pause playback
    pub fn pause(&mut self) -> (r: Result<(), InterfaceError>)
        requires
            old(self).device.wf(),
        ensures
            final(self).device.wf(),
            final(self).device.spec_model() == old(self).device.spec_model(),
            (final(self).device@, r) == spec_playback_control(old(self).device@, Action::Pause),
    {
        self.playback_control(Action::Pause)
    }

    /// Check if a disc is loaded in the player
    pub fn disc_present(&mut self) -> (r: Result<bool, InterfaceError>)
        requires
            old(self).device.wf(),
        ensures
            final(self).device.wf(),
            final(self).device.spec_model() == old(self).device.spec_model(),
            (final(self).device@, r) == spec_disc_present(old(self).device@),
    {
        match self.status() {
            Err(e) => Err(e),
            Ok(status) => Ok(status.len() > 4 && status[4] == 0x40),
        }
    }

    /// The status mode and the operating status of the device.
    pub fn full_operating_status(&mut self) -> (r: Result<(u8, u16), InterfaceError>)
        requires
            old(self).device.wf(),
        ensures
            final(self).device.wf(),
            final(self).device.spec_model() == old(self).device.spec_model(),
            (final(self).device@, r) == spec_full_operating_status(old(self).device@),
    {
        let args: Vec<QueryValue> = Vec::new();
        assert(values_view(args@) == Seq::<Value>::empty());
        let values = match self.ask(
            Some(Descriptor::OperatingStatusBlock),
            FULL_OPERATING_STATUS_REQUEST,
            &args,
            FULL_OPERATING_STATUS_REPLY,
        ) {
            Err(e) => {
                return Err(e);
            },
            Ok(values) => values,
        };
        let status_mode = match number_at(&values, 0) {
            Err(e) => {
                return Err(e);
            },
            Ok(n) => to_low8(n),
        };
        let operating_status = match array_at(&values, 1) {
            Err(e) => {
                return Err(e);
            },
            Ok(a) => a,
        };
        if operating_status.len() == 0 {
            return Err(InterfaceError::InvalidStatus(StatusError(0)));
        }
        if operating_status.len() < 2 {
            return Err(InterfaceError::InvalidStatus(StatusError(operating_status[0] as u16)));
        }
        let operating_status_number = operating_status[0] as u16 * 256 + operating_status[1] as u16;
        Ok((status_mode, operating_status_number))
    }

    /// The operating status of the device.
    pub fn operating_status(&mut self) -> (r: Result<u16, InterfaceError>)
        requires
            old(self).device.wf(),
        ensures
            final(self).device.wf(),
            final(self).device.spec_model() == old(self).device.spec_model(),
            (final(self).device@, r) == spec_operating_status(old(self).device@),
    {
        match self.full_operating_status() {
            Err(e) => Err(e),
            Ok((_, status)) => Ok(status),
        }
    }

    /// The first playback status block.
    pub fn playback_status1(&mut self) -> (r: Result<Vec<u8>, InterfaceError>)
        requires
            old(self).device.wf(),
        ensures
            final(self).device.wf(),
            final(self).device.spec_model() == old(self).device.spec_model(),
            (final(self).device@, bytes_of(r)) == spec_playback_status_query(
                old(self).device@,
                0x8801,
                0x8807,
            ),
    {
        self.playback_status_query(0x8801, 0x8807)
    }

    /// The second playback status block.
    pub fn playback_status2(&mut self) -> (r: Result<Vec<u8>, InterfaceError>)
        requires
            old(self).device.wf(),
        ensures
            final(self).device.wf(),
            final(self).device.spec_model() == old(self).device.spec_model(),
            (final(self).device@, bytes_of(r)) == spec_playback_status_query(
                old(self).device@,
                0x8802,
                0x8806,
            ),
    {
        self.playback_status_query(0x8802, 0x8806)
    }

    /// Get the current playback position
    pub fn position(&mut self) -> (r: Result<[u16; 5], InterfaceError>)
        requires
            old(self).device.wf(),
        ensures
            final(self).device.wf(),
            final(self).device.spec_model() == old(self).device.spec_model(),
            final(self).device@ == spec_position(old(self).device@).0,
            match spec_position(old(self).device@).1 {
                Ok(position) => r matches Ok(p) && p@ == position,
                Err(e) => r matches Err(x) && x == e,
            },
    {
        match self.change_descriptor_state(
            Descriptor::OperatingStatusBlock,
            DescriptorAction::OpenRead,
        ) {
            Err(e) => {
                return Err(e);
            },
            Ok(_) => {},
        }
        let args: Vec<QueryValue> = Vec::new();
        assert(values_view(args@) == Seq::<Value>::empty());
        let values = match self.exchange(POSITION_REQUEST, &args, false, POSITION_REPLY) {
            Err(InterfaceError::Rejected) => {
                let idle: [u16; 5] = [0, 0, 0, 0, 0];
                assert(idle@ == seq![0u16, 0u16, 0u16, 0u16, 0u16]);
                return Ok(idle);
            },
            Err(e) => {
                return Err(e);
            },
            Ok(values) => values,
        };
        let final_result: [u16; 5] = match (
            number_at(&values, 0),
            number_at(&values, 1),
            number_at(&values, 2),
            number_at(&values, 3),
            number_at(&values, 4),
        ) {
            (Ok(a), Ok(b), Ok(c), Ok(d), Ok(e)) => [
                to_low16(a),
                to_low16(b),
                to_low16(c),
                to_low16(d),
                to_low16(e),
            ],
            (Err(e), _, _, _, _) => {
                return Err(e);
            },
            (_, Err(e), _, _, _) => {
                return Err(e);
            },
            (_, _, Err(e), _, _) => {
                return Err(e);
            },
            (_, _, _, Err(e), _) => {
                return Err(e);
            },
            (_, _, _, _, Err(e)) => {
                return Err(e);
            },
        };
        assert(final_result@ == position_in(values_view(values@))->Ok_0);
        match self.change_descriptor_state(
            Descriptor::OperatingStatusBlock,
            DescriptorAction::Close,
        ) {
            Err(e) => Err(e),
            Ok(_) => Ok(final_result),
        }
    }

    /// Sends a request whose reply is not read further.
    pub fn command(&mut self, template: &str, args: &Vec<QueryValue>, test: bool) -> (r: Result<
        (),
        InterfaceError,
    >)
        requires
            old(self).device.wf(),
        ensures
            final(self).device.wf(),
            final(self).device.spec_model() == old(self).device.spec_model(),
            (final(self).device@, r) == spec_command(
                old(self).device@,
                template@,
                values_view(args@),
                test,
            ),
    {
        match self.request(template, args, test, false) {
            Err(e) => Err(e),
            Ok(_) => Ok(()),
        }
    }

    /// Eject the disc from the player if supported
    pub fn eject_disc(&mut self) -> (r: Result<(), InterfaceError>)
        requires
            old(self).device.wf(),
        ensures
            final(self).device.wf(),
            final(self).device.spec_model() == old(self).device.spec_model(),
            (final(self).device@, r) == spec_command(
                old(self).device@,
                EJECT_DISC_REQUEST@,
                Seq::empty(),
                false,
            ),
    {
        let args: Vec<QueryValue> = Vec::new();
        assert(values_view(args@) == Seq::<Value>::empty());
        self.command(EJECT_DISC_REQUEST, &args, false)
    }

    /// Check if the machine has the capability to eject a disc: the request
    /// to eject goes out as an inquiry, and an answer that is no error says
    /// yes.
    pub fn can_eject_disc(&mut self) -> (r: Result<bool, InterfaceError>)
        requires
            old(self).device.wf(),
        ensures
            final(self).device.wf(),
            final(self).device.spec_model() == old(self).device.spec_model(),
            final(self).device@ == spec_command(
                old(self).device@,
                EJECT_DISC_REQUEST@,
                Seq::empty(),
                true,
            ).0,
            r == match spec_command(old(self).device@, EJECT_DISC_REQUEST@, Seq::empty(), true).1 {
                Ok(_) => Ok::<bool, InterfaceError>(true),
                Err(e) => Err(e),
            },
    {
        let args: Vec<QueryValue> = Vec::new();
        assert(values_view(args@) == Seq::<Value>::empty());
        match self.command(EJECT_DISC_REQUEST, &args, true) {
            Ok(_) => Ok(true),
            Err(error) => Err(error),
        }
    }

    /// Erases a track from the disc's UTOC
    pub fn erase_track(&mut self, track: u16) -> (r: Result<(), InterfaceError>)
        requires
            old(self).device.wf(),
        ensures
            final(self).device.wf(),
            final(self).device.spec_model() == old(self).device.spec_model(),
            (final(self).device@, r) == spec_command(
                old(self).device@,
                ERASE_TRACK_REQUEST@,
                seq![Value::Number(track as i64)],
                false,
            ),
    {
        let mut args: Vec<QueryValue> = Vec::new();
        args.push(QueryValue::Number(track as i64));
        assert(values_view(args@) == seq![Value::Number(track as i64)]);
        self.command(ERASE_TRACK_REQUEST, &args, false)
    }

    /// Moves a track to another index on the disc
    pub fn move_track(&mut self, source: u16, dest: u16) -> (r: Result<(), InterfaceError>)
        requires
            old(self).device.wf(),
        ensures
            final(self).device.wf(),
            final(self).device.spec_model() == old(self).device.spec_model(),
            (final(self).device@, r) == spec_command(
                old(self).device@,
                MOVE_TRACK_REQUEST@,
                seq![Value::Number(source as i64), Value::Number(dest as i64)],
                false,
            ),
    {
        let mut args: Vec<QueryValue> = Vec::new();
        args.push(QueryValue::Number(source as i64));
        args.push(QueryValue::Number(dest as i64));
        assert(values_view(args@) == seq![
            Value::Number(source as i64),
            Value::Number(dest as i64),
        ]);
        self.command(MOVE_TRACK_REQUEST, &args, false)
    }

    /// Terminates what the device is doing.
    pub fn terminate(&mut self) -> (r: Result<(), InterfaceError>)
        requires
            old(self).device.wf(),
        ensures
            final(self).device.wf(),
            final(self).device.spec_model() == old(self).device.spec_model(),
            (final(self).device@, r) == spec_command(
                old(self).device@,
                TERMINATE_REQUEST@,
                Seq::empty(),
                false,
            ),
    {
        let args: Vec<QueryValue> = Vec::new();
        assert(values_view(args@) == Seq::<Value>::empty());
        self.command(TERMINATE_REQUEST, &args, false)
    }

    /// Gets the disc capacity as three times: used, total and left.
    pub fn disc_capacity(&mut self) -> (r: Result<[RawTime; 3], InterfaceError>)
        requires
            old(self).device.wf(),
        ensures
            final(self).device.wf(),
            final(self).device.spec_model() == old(self).device.spec_model(),
            final(self).device@ == spec_disc_capacity(old(self).device@).0,
            match spec_disc_capacity(old(self).device@).1 {
                Ok(times) => r matches Ok(t) && t@ == times,
                Err(e) => r matches Err(x) && x == e,
            },
    {
        let args: Vec<QueryValue> = Vec::new();
        assert(values_view(args@) == Seq::<Value>::empty());
        let values = match self.ask(
            Some(Descriptor::RootTD),
            DISC_CAPACITY_REQUEST,
            &args,
            DISC_CAPACITY_REPLY,
        ) {
            Err(e) => {
                return Err(e);
            },
            Ok(values) => values,
        };
        match (raw_time_at(&values, 0), raw_time_at(&values, 4), raw_time_at(&values, 8)) {
            (Ok(used), Ok(total), Ok(left)) => {
                let times: [RawTime; 3] = [used, total, left];
                assert(times@ == seq![used, total, left]);
                Ok(times)
            },
            (Err(e), _, _) => Err(e),
            (_, Err(e), _) => Err(e),
            (_, _, Err(e)) => Err(e),
        }
    }

    /// The parameters of the recording.
    pub fn recording_parameters(&mut self) -> (r: Result<Vec<u8>, InterfaceError>)
        requires
            old(self).device.wf(),
        ensures
            final(self).device.wf(),
            final(self).device.spec_model() == old(self).device.spec_model(),
            (final(self).device@, bytes_of(r)) == spec_recording_parameters(old(self).device@),
    {
        let args: Vec<QueryValue> = Vec::new();
        assert(values_view(args@) == Seq::<Value>::empty());
        let values = match self.ask(
            Some(Descriptor::OperatingStatusBlock),
            RECORDING_PARAMETERS_REQUEST,
            &args,
            RECORDING_PARAMETERS_REPLY,
        ) {
            Err(e) => {
                return Err(e);
            },
            Ok(values) => values,
        };
        match (number_at(&values, 0), number_at(&values, 1)) {
            (Ok(a), Ok(b)) => {
                let mut parameters: Vec<u8> = Vec::new();
                parameters.push(to_low8(a));
                parameters.push(to_low8(b));
                assert(parameters@ == seq![low8(a), low8(b)]);
                Ok(parameters)
            },
            (Err(e), _) => Err(e),
            (_, Err(e)) => Err(e),
        }
    }

    /// Gets the encoding of a track (SP, LP2, LP4)
    pub fn track_encoding(&mut self, track_number: u16) -> (r: Result<
        (Encoding, Channels),
        InterfaceError,
    >)
        requires
            old(self).device.wf(),
        ensures
            final(self).device.wf(),
            final(self).device.spec_model() == old(self).device.spec_model(),
            (final(self).device@, r) == spec_track_encoding(old(self).device@, track_number),
    {
        let raw_value = match self.raw_track_info(track_number, 0x3080, 0x0700) {
            Err(e) => {
                return Err(e);
            },
            Ok(raw) => raw,
        };
        let values = match parse_template(TRACK_ENCODING_CONTENT) {
            Err(e) => {
                return Err(InterfaceError::QueryError(e));
            },
            Ok(tokens) => match scan_tokens(&tokens, &raw_value) {
                Err(e) => {
                    return Err(InterfaceError::QueryError(e));
                },
                Ok(values) => values,
            },
        };
        match (number_at(&values, 0), number_at(&values, 1)) {
            (Err(e), _) => Err(e),
            (_, Err(e)) => Err(e),
            (Ok(e), Ok(c)) => match Encoding::from_code(to_low8(e)) {
                None => Err(InterfaceError::InvalidEncoding(to_low8(e))),
                Some(encoding) => match Channels::from_code(to_low8(c)) {
                    None => Err(InterfaceError::InvalidDiscFormat(to_low8(c))),
                    Some(channels) => Ok((encoding, channels)),
                },
            },
        }
    }

    /// Gets the length of a track as a raw duration
    pub fn track_length(&mut self, track: u16) -> (r: Result<RawTime, InterfaceError>)
        requires
            old(self).device.wf(),
        ensures
            final(self).device.wf(),
            final(self).device.spec_model() == old(self).device.spec_model(),
            (final(self).device@, r) == spec_track_length(old(self).device@, track),
    {
        let raw_value = match self.raw_track_info(track, 0x3000, 0x0100) {
            Err(e) => {
                return Err(e);
            },
            Ok(raw) => raw,
        };
        let values = match parse_template(TRACK_LENGTH_CONTENT) {
            Err(e) => {
                return Err(InterfaceError::QueryError(e));
            },
            Ok(tokens) => match scan_tokens(&tokens, &raw_value) {
                Err(e) => {
                    return Err(InterfaceError::QueryError(e));
                },
                Ok(values) => values,
            },
        };
        raw_time_at(&values, 0)
    }

    /// Gets the length of tracks as a raw duration from a set
    pub fn track_lengths(&mut self, tracks: Vec<u16>) -> (r: Result<Vec<RawTime>, InterfaceError>)
        requires
            old(self).device.wf(),
        ensures
            final(self).device.wf(),
            final(self).device.spec_model() == old(self).device.spec_model(),
            final(self).device@ == spec_track_lengths_from(
                old(self).device@,
                tracks@,
                0,
                Seq::empty(),
            ).0,
            match spec_track_lengths_from(old(self).device@, tracks@, 0, Seq::empty()).1 {
                Ok(lengths) => r matches Ok(l) && l@ == lengths,
                Err(e) => r matches Err(x) && x == e,
            },
    {
        let mut times: Vec<RawTime> = Vec::new();
        let mut i: usize = 0;
        let ghost start = self.device@;
        while i < tracks.len()
            invariant
                self.device.wf(),
                self.device.spec_model() == old(self).device.spec_model(),
                start == old(self).device@,
                i <= tracks.len(),
                spec_track_lengths_from(start, tracks@, 0, Seq::empty())
                    == spec_track_lengths_from(self.device@, tracks@, i as nat, times@),
            decreases tracks.len() - i,
        {
            match self.track_length(tracks[i]) {
                Err(e) => {
                    return Err(e);
                },
                Ok(time) => {
                    times.push(time);
                },
            }
            i = i + 1;
        }
        Ok(times)
    }

    /// Read the leaf ID of the present NetMD device. The leaf ID tells
    /// which keys the device posesses, which is needed to find out which
    /// parts of the EKB needs to be sent to the device for it to decrypt
    /// the root key.
    ///
    /// The leaf ID is a 8-byte constant
    pub fn leaf_id(&mut self) -> (r: Result<Vec<u8>, InterfaceError>)
        requires
            old(self).device.wf(),
        ensures
            final(self).device.wf(),
            final(self).device.spec_model() == old(self).device.spec_model(),
            (final(self).device@, bytes_of(r)) == spec_leaf_id(old(self).device@),
    {
        let args: Vec<QueryValue> = Vec::new();
        assert(values_view(args@) == Seq::<Value>::empty());
        let values = match self.ask(None, LEAF_ID_REQUEST, &args, LEAF_ID_REPLY) {
            Err(e) => {
                return Err(e);
            },
            Ok(values) => values,
        };
        match array_at(&values, 0) {
            Err(e) => Err(e),
            Ok(id) => if id.len() == 8 {
                Ok(id)
            } else {
                Err(
                    InterfaceError::EncryptionError(
                        EncryptionError::InvalidLength(SessionField::LeafId, id.len()),
                    ),
                )
            },
        }
    }

    /// Exchanges nonces with the device: the host's goes out, the device's
    /// comes back.
    pub fn session_key_exchange(&mut self, hostnonce: Vec<u8>) -> (r: Result<
        Vec<u8>,
        InterfaceError,
    >)
        requires
            old(self).device.wf(),
        ensures
            final(self).device.wf(),
            final(self).device.spec_model() == old(self).device.spec_model(),
            (final(self).device@, bytes_of(r)) == spec_session_key_exchange(
                old(self).device@,
                hostnonce@,
            ),
    {
        if hostnonce.len() != 8 {
            return Err(
                InterfaceError::EncryptionError(
                    EncryptionError::InvalidLength(SessionField::HostNonce, hostnonce.len()),
                ),
            );
        }
        let mut args: Vec<QueryValue> = Vec::new();
        let ghost nonce = hostnonce@;
        args.push(QueryValue::Array(hostnonce));
        assert(values_view(args@) == seq![Value::Array(nonce)]);
        match self.ask(None, SESSION_KEY_EXCHANGE_REQUEST, &args, SESSION_KEY_EXCHANGE_REPLY) {
            Err(e) => Err(e),
            Ok(values) => array_at(&values, 0),
        }
    }

    /// Sends the key data of a key block to the device.
    pub fn send_key_data(
        &mut self,
        ekbid: i32,
        keychain: [[u8; 16]; 2],
        depth: i32,
        ekbsignature: [u8; 24],
    ) -> (r: Result<(), InterfaceError>)
        requires
            old(self).device.wf(),
        ensures
            final(self).device.wf(),
            final(self).device.spec_model() == old(self).device.spec_model(),
            (final(self).device@, r) == spec_send_key_data(
                old(self).device@,
                ekbid,
                seq![keychain@[0]@, keychain@[1]@],
                depth,
                ekbsignature@,
            ),
    {
        let chainlen: usize = KEY_CHAINS;
        let databytes: usize = 16 + 16 * chainlen + 24;
        if !(1 <= depth && depth <= 63) {
            return Err(InterfaceError::EncryptionError(EncryptionError::InvalidDepth(depth)));
        }
        let mut keychains: Vec<u8> = Vec::new();
        let mut c: usize = 0;
        while c < 2
            invariant
                c <= 2,
                keychains@ == if c == 0 {
                    Seq::<u8>::empty()
                } else if c == 1 {
                    keychain@[0]@
                } else {
                    keychain@[0]@ + keychain@[1]@
                },
            decreases 2 - c,
        {
            let ghost before = keychains@;
            let mut i: usize = 0;
            while i < 16
                invariant
                    i <= 16,
                    c < 2,
                    keychains@ == before + keychain@[c as int]@.subrange(0, i as int),
                decreases 16 - i,
            {
                keychains.push(keychain[c][i]);
                i = i + 1;
            }
            assert(keychain@[c as int]@.subrange(0, 16) == keychain@[c as int]@);
            c = c + 1;
        }
        let mut signature: Vec<u8> = Vec::new();
        let mut s: usize = 0;
        while s < 24
            invariant
                s <= 24,
                signature@ == ekbsignature@.subrange(0, s as int),
            decreases 24 - s,
        {
            signature.push(ekbsignature[s]);
            s = s + 1;
        }
        assert(signature@ == ekbsignature@);
        let mut args: Vec<QueryValue> = Vec::new();
        args.push(QueryValue::Number(databytes as i64));
        args.push(QueryValue::Number(databytes as i64));
        args.push(QueryValue::Number(chainlen as i64));
        args.push(QueryValue::Number(depth as i64));
        args.push(QueryValue::Number(ekbid as i64));
        args.push(QueryValue::Array(keychains));
        args.push(QueryValue::Array(signature));
        assert(values_view(args@) == key_data_values(
            ekbid,
            seq![keychain@[0]@, keychain@[1]@],
            depth,
            ekbsignature@,
        ));
        match self.ask(None, SEND_KEY_DATA_REQUEST, &args, SEND_KEY_DATA_REPLY) {
            Err(e) => Err(e),
            Ok(_) => Ok(()),
        }
    }

    /// Sets a download up: tells the device the content ID and the key
    /// encryption key, under the session key.
    pub fn setup_download(&mut self, contentid: &[u8], keyenckey: &[u8], hex_session_key: &[u8]) -> (r:
        Result<(), InterfaceError>)
        requires
            old(self).device.wf(),
        ensures
            final(self).device.wf(),
            final(self).device.spec_model() == old(self).device.spec_model(),
            (final(self).device@, r) == spec_setup_download(
                old(self).device@,
                contentid@,
                keyenckey@,
                hex_session_key@,
            ),
    {
        if contentid.len() != 20 {
            return Err(
                InterfaceError::EncryptionError(
                    EncryptionError::InvalidLength(SessionField::ContentId, contentid.len()),
                ),
            );
        }
        if keyenckey.len() != 8 {
            return Err(
                InterfaceError::EncryptionError(
                    EncryptionError::InvalidLength(SessionField::KeyEncryptionKey, keyenckey.len()),
                ),
            );
        }
        if hex_session_key.len() != 8 {
            return Err(
                InterfaceError::EncryptionError(
                    EncryptionError::InvalidLength(SessionField::SessionKey, hex_session_key.len()),
                ),
            );
        }
        let mut message: Vec<u8> = Vec::new();
        message.push(1);
        message.push(1);
        message.push(1);
        message.push(1);
        let mut id = slice_to_vec(contentid);
        message.append(&mut id);
        let mut kek = slice_to_vec(keyenckey);
        message.append(&mut kek);
        assert(message@ == seq![1u8, 1u8, 1u8, 1u8] + contentid@ + keyenckey@);
        let key = slice_to_vec(hex_session_key);
        let encrypted = des_cbc_encrypt(&key, &zeros(), message);
        let mut args: Vec<QueryValue> = Vec::new();
        let ghost sent = encrypted@;
        args.push(QueryValue::Array(encrypted));
        assert(values_view(args@) == seq![Value::Array(sent)]);
        match self.ask(None, SETUP_DOWNLOAD_REQUEST, &args, SETUP_DOWNLOAD_REPLY) {
            Err(e) => Err(e),
            Ok(_) => Ok(()),
        }
    }

    /// Commits a track that was sent, with the authenticator of the session.
    pub fn commit_track(&mut self, track_number: u16, hex_session_key: &[u8]) -> (r: Result<
        (),
        InterfaceError,
    >)
        requires
            old(self).device.wf(),
        ensures
            final(self).device.wf(),
            final(self).device.spec_model() == old(self).device.spec_model(),
            (final(self).device@, r) == spec_commit_track(
                old(self).device@,
                track_number,
                hex_session_key@,
            ),
    {
        if hex_session_key.len() != 8 {
            return Err(
                InterfaceError::EncryptionError(
                    EncryptionError::InvalidLength(SessionField::SessionKey, hex_session_key.len()),
                ),
            );
        }
        let key = slice_to_vec(hex_session_key);
        let message = des_ecb_encrypt(&key, &zeros());
        let mut args: Vec<QueryValue> = Vec::new();
        let ghost sent = message@;
        args.push(QueryValue::Number(track_number as i64));
        args.push(QueryValue::Array(message));
        assert(values_view(args@) == seq![Value::Number(track_number as i64), Value::Array(sent)]);
        match self.ask(None, COMMIT_TRACK_REQUEST, &args, COMMIT_TRACK_REPLY) {
            Err(e) => Err(e),
            Ok(_) => Ok(()),
        }
    }

    /// Reads one chunk of the raw disc title.
    pub fn title_chunk(&mut self, wchar: bool, first: bool, remaining: i64, done: i64) -> (r: Result<
        (i64, i64, String),
        InterfaceError,
    >)
        requires
            old(self).device.wf(),
        ensures
            final(self).device.wf(),
            final(self).device.spec_model() == old(self).device.spec_model(),
            final(self).device@ == spec_title_chunk(
                old(self).device@,
                wchar,
                first,
                remaining,
                done,
            ).0,
            match spec_title_chunk(old(self).device@, wchar, first, remaining, done).1 {
                Ok((size, total, text)) => r matches Ok((s, t, x)) && s == size && t == total
                    && x@ == text && is_word(total) && -0x8006 <= size <= 0x7fff,
                Err(e) => r matches Err(x) && x == e,
            },
    {
        let wchar_value: i64 = if wchar {
            1
        } else {
            0
        };
        let mut args: Vec<QueryValue> = Vec::new();
        args.push(QueryValue::Number(wchar_value));
        args.push(QueryValue::Number(remaining));
        args.push(QueryValue::Number(done));
        assert(values_view(args@) == seq![
            Value::Number(wchar_value),
            Value::Number(remaining),
            Value::Number(done),
        ]);
        let values = match self.exchange(
            RAW_DISC_TITLE_REQUEST,
            &args,
            false,
            if first {
                RAW_DISC_TITLE_FIRST_REPLY
            } else {
                RAW_DISC_TITLE_NEXT_REPLY
            },
        ) {
            Err(e) => {
                return Err(e);
            },
            Ok(values) => values,
        };
        let size = number_at(&values, 0);
        let total = if first {
            number_at(&values, 1)
        } else {
            Ok(0)
        };
        let bytes = array_at(
            &values,
            if first {
                2
            } else {
                1
            },
        );
        match (size, total, bytes) {
            (Err(e), _, _) => Err(e),
            (_, Err(e), _) => Err(e),
            (_, _, Err(e)) => Err(e),
            (Ok(s), Ok(t), Ok(b)) => {
                if s < -0x8000 || s > 0x7fff || t < -0x8000 || t > 0x7fff || b.len() > 4
                    * TEXT_LIMIT {
                    return Err(InterfaceError::CommunicationError(NetMDError::InvalidResult));
                }
                let text = decode_sjis(&b).0;
                Ok(
                    (
                        if first {
                            s - TITLE_HEADER
                        } else {
                            s
                        },
                        t,
                        text,
                    ),
                )
            },
        }
    }

    /// Gets the disc title as it is stored
    pub fn raw_disc_title(&mut self, wchar: bool) -> (r: Result<String, InterfaceError>)
        requires
            old(self).device.wf(),
        ensures
            final(self).device.wf(),
            final(self).device.spec_model() == old(self).device.spec_model(),
            (final(self).device@, text_in(r)) == spec_raw_disc_title(old(self).device@, wchar),
    {
        match self.change_descriptor_state(Descriptor::AudioContentsTD, DescriptorAction::OpenRead) {
            Err(e) => {
                return Err(e);
            },
            Ok(_) => {},
        }
        match self.change_descriptor_state(Descriptor::DiscTitleTD, DescriptorAction::OpenRead) {
            Err(e) => {
                return Err(e);
            },
            Ok(_) => {},
        }
        let (mut done, total, mut result) = match self.title_chunk(wchar, true, 0, 0) {
            Err(e) => {
                return Err(e);
            },
            Ok(chunk) => chunk,
        };
        let ghost start = self.device@;
        let ghost first_done = done;
        let ghost first_text = result@;
        while done < total
            invariant
                self.device.wf(),
                self.device.spec_model() == old(self).device.spec_model(),
                is_word(total),
                -0x8006 <= done <= 0x7fff,
                spec_raw_disc_title(old(self).device@, wchar) == spec_close_title(
                    spec_title_chunks(start, wchar, first_done, total, first_text),
                ),
                spec_title_chunks(start, wchar, first_done, total, first_text)
                    == spec_title_chunks(self.device@, wchar, done, total, result@),
            decreases
                if done < total {
                    total - done
                } else {
                    0
                },
        {
            match self.title_chunk(wchar, false, total - done, done) {
                Err(e) => {
                    return Err(e);
                },
                Ok((size, _, chunk)) => {
                    if size <= 0 || done + size > 0x7fff {
                        return Err(InterfaceError::CommunicationError(NetMDError::InvalidResult));
                    }
                    result.append(chunk.as_str());
                    done = done + size;
                },
            }
        }
        match self.change_descriptor_state(Descriptor::DiscTitleTD, DescriptorAction::Close) {
            Err(e) => {
                return Err(e);
            },
            Ok(_) => {},
        }
        match self.change_descriptor_state(Descriptor::AudioContentsTD, DescriptorAction::Close) {
            Err(e) => Err(e),
            Ok(_) => Ok(result),
        }
    }

    /// Gets the disc title without group information
    pub fn disc_title(&mut self, wchar: bool) -> (r: Result<String, InterfaceError>)
        requires
            old(self).device.wf(),
        ensures
            final(self).device.wf(),
            final(self).device.spec_model() == old(self).device.spec_model(),
            (final(self).device@, text_in(r)) == spec_read_disc_title(old(self).device@, wchar),
    {
        match self.raw_disc_title(wchar) {
            Err(e) => Err(e),
            Ok(raw) => Ok(text_of(&disc_title_in(&chars_of(raw.as_str()), wchar))),
        }
    }

    /// Gets all groups on the disc
    pub fn track_group_list(&mut self) -> (r: Result<
        Vec<(Option<String>, Option<String>, Vec<u16>)>,
        InterfaceError,
    >)
        requires
            old(self).device.wf(),
        ensures
            final(self).device.wf(),
            final(self).device.spec_model() == old(self).device.spec_model(),
            final(self).device@ == spec_track_group_list(old(self).device@).0,
            match spec_track_group_list(old(self).device@).1 {
                Ok(groups) => r matches Ok(g) && crate::netmd::titles::groups_view(g@) == groups,
                Err(e) => r matches Err(x) && x == e,
            },
    {
        let raw_title = match self.raw_disc_title(false) {
            Err(e) => {
                return Err(e);
            },
            Ok(raw) => raw,
        };
        let track_count = match self.track_count() {
            Err(e) => {
                return Err(e);
            },
            Ok(count) => count,
        };
        let raw_full_title = match self.raw_disc_title(true) {
            Err(e) => {
                return Err(e);
            },
            Ok(raw) => raw,
        };
        parse_groups(raw_title.as_str(), raw_full_title.as_str(), track_count)
    }

    /// Gets a list of track titles from a set
    pub fn track_titles(&mut self, tracks: Vec<u16>, wchar: bool) -> (r: Result<
        Vec<String>,
        InterfaceError,
    >)
        requires
            old(self).device.wf(),
        ensures
            final(self).device.wf(),
            final(self).device.spec_model() == old(self).device.spec_model(),
            final(self).device@ == spec_track_titles(old(self).device@, tracks@, wchar).0,
            match spec_track_titles(old(self).device@, tracks@, wchar).1 {
                Ok(titles) => r matches Ok(t) && texts_view(t@) == titles,
                Err(e) => r matches Err(x) && x == e,
            },
    {
        let wchar_value: i64 = if wchar {
            3
        } else {
            2
        };
        let descriptor_type = if wchar {
            Descriptor::AudioUTOC4TD
        } else {
            Descriptor::AudioUTOC1TD
        };
        match self.change_descriptor_state(descriptor_type, DescriptorAction::OpenRead) {
            Err(e) => {
                return Err(e);
            },
            Ok(_) => {},
        }
        let mut track_titles: Vec<String> = Vec::new();
        let ghost start = self.device@;
        let mut i: usize = 0;
        assert(texts_view(track_titles@) == Seq::<Seq<char>>::empty());
        while i < tracks.len()
            invariant
                self.device.wf(),
                self.device.spec_model() == old(self).device.spec_model(),
                i <= tracks.len(),
                wchar_value == track_wchar_value(wchar),
                spec_track_titles_from(start, tracks@, wchar, 0, Seq::empty())
                    == spec_track_titles_from(
                    self.device@,
                    tracks@,
                    wchar,
                    i as nat,
                    texts_view(track_titles@),
                ),
                spec_track_titles(old(self).device@, tracks@, wchar).0
                    == spec_track_titles_from(start, tracks@, wchar, 0, Seq::empty()).0
                    || spec_track_titles_from(start, tracks@, wchar, 0, Seq::empty()).1 is Ok,
                spec_track_titles_from(start, tracks@, wchar, 0, Seq::empty()).1 matches Err(e)
                    ==> spec_track_titles(old(self).device@, tracks@, wchar).1 == Err::<
                    Seq<Seq<char>>,
                    InterfaceError,
                >(e),
            decreases tracks.len() - i,
        {
            let mut args: Vec<QueryValue> = Vec::new();
            args.push(QueryValue::Number(wchar_value));
            args.push(QueryValue::Number(tracks[i] as i64));
            assert(values_view(args@) == seq![
                Value::Number(wchar_value),
                Value::Number(tracks@[i as int] as i64),
            ]);
            let values = match self.exchange(TRACK_TITLE_REQUEST, &args, false, TRACK_TITLE_REPLY) {
                Err(e) => {
                    return Err(e);
                },
                Ok(values) => values,
            };
            let bytes = match array_at(&values, 0) {
                Err(e) => {
                    return Err(e);
                },
                Ok(bytes) => bytes,
            };
            if bytes.len() > 4 * TEXT_LIMIT {
                return Err(InterfaceError::CommunicationError(NetMDError::InvalidResult));
            }
            let ghost seen = track_titles@;
            track_titles.push(decode_sjis(&bytes).0);
            assert(texts_view(track_titles@) == texts_view(seen).push(track_titles@.last()@));
            i = i + 1;
        }
        match self.change_descriptor_state(descriptor_type, DescriptorAction::Close) {
            Err(e) => Err(e),
            Ok(_) => Ok(track_titles),
        }
    }

    /// Gets the title of a single track at an index
    pub fn track_title(&mut self, track: u16, wchar: bool) -> (r: Result<String, InterfaceError>)
        requires
            old(self).device.wf(),
        ensures
            final(self).device.wf(),
            final(self).device.spec_model() == old(self).device.spec_model(),
            (final(self).device@, text_in(r)) == spec_track_title(old(self).device@, track, wchar),
    {
        let mut tracks: Vec<u16> = Vec::new();
        tracks.push(track);
        assert(tracks@ == seq![track]);
        match self.track_titles(tracks, wchar) {
            Ok(titles) => {
                if titles.len() > 0 {
                    assert(texts_view(titles@)[0] == titles@[0]@);
                    Ok(titles[0].clone())
                } else {
                    Ok(text_of(&Vec::new()))
                }
            },
            Err(InterfaceError::Rejected) => Ok(text_of(&Vec::new())),
            Err(error) => Err(error),
        }
    }

    /// Makes descriptor changes one after the other.
    pub fn change_descriptors(&mut self, steps: &Vec<(Descriptor, DescriptorAction)>) -> (r: Result<
        (),
        InterfaceError,
    >)
        requires
            old(self).device.wf(),
        ensures
            final(self).device.wf(),
            final(self).device.spec_model() == old(self).device.spec_model(),
            (final(self).device@, r) == spec_change_descriptors(old(self).device@, steps@, 0),
    {
        let mut i: usize = 0;
        let ghost start = self.device@;
        while i < steps.len()
            invariant
                self.device.wf(),
                self.device.spec_model() == old(self).device.spec_model(),
                start == old(self).device@,
                i <= steps.len(),
                spec_change_descriptors(start, steps@, 0) == spec_change_descriptors(
                    self.device@,
                    steps@,
                    i as nat,
                ),
            decreases steps.len() - i,
        {
            match self.change_descriptor_state(steps[i].0, steps[i].1) {
                Err(e) => {
                    return Err(e);
                },
                Ok(_) => {},
            }
            i = i + 1;
        }
        Ok(())
    }

    /// Makes a title fit and encodes it for the device.
    pub fn prepared_title(title: &str, wchar: bool) -> (r: Result<Vec<u8>, InterfaceError>)
        ensures
            bytes_of(r) == spec_prepared_title(title@, wchar),
    {
        let clean = if wchar {
            sanitize_full_width_title(title)
        } else {
            sanitize_half_width_title(title)
        };
        if clean.as_str().unicode_len() > TEXT_LIMIT {
            return Err(InterfaceError::TitleTooLong);
        }
        Ok(to_sjis(clean.as_str()))
    }

    /// The length of a title that the device holds, as the device counts it.
    pub fn held_length(current: &str) -> (r: Result<usize, InterfaceError>)
        ensures
            match spec_held_length(current@) {
                Ok(len) => r == Ok::<usize, InterfaceError>(len as usize) && len <= usize::MAX,
                Err(e) => r == Err::<usize, InterfaceError>(e),
            },
    {
        if current.unicode_len() > TEXT_LIMIT {
            return Err(InterfaceError::CommunicationError(NetMDError::InvalidResult));
        }
        Ok(length_after_encoding_to_sjis(current))
    }

    /// Writes a title: the descriptor changes before, the command, the
    /// descriptor changes after.
    pub fn write_title(
        &mut self,
        opening: &Vec<(Descriptor, DescriptorAction)>,
        request: &str,
        selector: Vec<QueryValue>,
        new_title: Vec<u8>,
        old_len: usize,
        closing: &Vec<(Descriptor, DescriptorAction)>,
    ) -> (r: Result<(), InterfaceError>)
        requires
            old(self).device.wf(),
        ensures
            final(self).device.wf(),
            final(self).device.spec_model() == old(self).device.spec_model(),
            (final(self).device@, r) == spec_write_title(
                old(self).device@,
                opening@,
                request@,
                title_write_values(values_view(selector@), new_title@, old_len as nat),
                closing@,
            ),
    {
        match self.change_descriptors(opening) {
            Err(e) => {
                return Err(e);
            },
            Ok(_) => {},
        }
        let mut args = selector;
        let ghost chosen = values_view(args@);
        let ghost written = new_title@;
        args.push(QueryValue::Number(new_title.len() as i64));
        args.push(QueryValue::Number(old_len as i64));
        args.push(QueryValue::Array(new_title));
        assert(values_view(args@) == title_write_values(chosen, written, old_len as nat));
        match self.command(request, &args, false) {
            Err(e) => {
                return Err(e);
            },
            Ok(_) => {},
        }
        self.change_descriptors(closing)
    }

    /// Sets the title of the disc
    ///
    /// Caution: This does not respect groups. Use the functions available in
    /// NetMDContext to properly rename a disc.
    #[verifier::rlimit(40)]
    pub fn set_disc_title(&mut self, title: &str, wchar: bool) -> (r: Result<(), InterfaceError>)
        requires
            old(self).device.wf(),
        ensures
            final(self).device.wf(),
            final(self).device.spec_model() == old(self).device.spec_model(),
            (final(self).device@, r) == spec_set_disc_title(
                old(self).device@,
                old(self).device.spec_vendor_id(),
                title@,
                wchar,
            ),
    {
        let current_title = match self.raw_disc_title(wchar) {
            Err(e) => {
                return Err(e);
            },
            Ok(raw) => raw,
        };
        if current_title == String::from_str(title) {
            return Err(InterfaceError::TitleError);
        }
        let (new_title, old_len) = match (
            NetMDInterface::prepared_title(title, wchar),
            NetMDInterface::held_length(current_title.as_str()),
        ) {
            (Err(e), _) => {
                return Err(e);
            },
            (_, Err(e)) => {
                return Err(e);
            },
            (Ok(new_title), Ok(old_len)) => (new_title, old_len),
        };
        let wchar_value: i64 = if wchar {
            1
        } else {
            0
        };
        let sharp = self.device.vendor_id() == SHARP_VENDOR_ID;
        let mut opening: Vec<(Descriptor, DescriptorAction)> = Vec::new();
        let mut closing: Vec<(Descriptor, DescriptorAction)> = Vec::new();
        if sharp {
            opening.push((Descriptor::AudioUTOC1TD, DescriptorAction::OpenWrite));
            closing.push((Descriptor::AudioUTOC1TD, DescriptorAction::Close));
        } else {
            opening.push((Descriptor::DiscTitleTD, DescriptorAction::Close));
            opening.push((Descriptor::DiscTitleTD, DescriptorAction::OpenWrite));
            closing.push((Descriptor::DiscTitleTD, DescriptorAction::Close));
            closing.push((Descriptor::DiscTitleTD, DescriptorAction::OpenRead));
            closing.push((Descriptor::DiscTitleTD, DescriptorAction::Close));
        }
        assert(opening@ == title_write_opening(self.device.spec_vendor_id()));
        assert(closing@ == title_write_closing(self.device.spec_vendor_id()));
        let mut selector: Vec<QueryValue> = Vec::new();
        selector.push(QueryValue::Number(wchar_value));
        assert(values_view(selector@) == seq![Value::Number(wchar_value)]);
        self.write_title(&opening, SET_DISC_TITLE_REQUEST, selector, new_title, old_len, &closing)
    }

    /// The title that a track has, for the writing of a new one.
    pub fn old_track_title(&mut self, track: u16, wchar: bool) -> (r: Result<
        Option<String>,
        InterfaceError,
    >)
        requires
            old(self).device.wf(),
        ensures
            final(self).device.wf(),
            final(self).device.spec_model() == old(self).device.spec_model(),
            final(self).device@ == spec_old_track_title(old(self).device@, track, wchar).0,
            match spec_old_track_title(old(self).device@, track, wchar).1 {
                Ok(Some(title)) => r matches Ok(Some(t)) && t@ == title,
                Ok(None) => r matches Ok(None),
                Err(e) => r matches Err(x) && x == e,
            },
    {
        let mut tracks: Vec<u16> = Vec::new();
        tracks.push(track);
        assert(tracks@ == seq![track]);
        match self.track_titles(tracks, wchar) {
            Ok(titles) => {
                if titles.len() > 0 {
                    assert(texts_view(titles@)[0] == titles@[0]@);
                    Ok(Some(titles[0].clone()))
                } else {
                    Ok(Some(text_of(&Vec::new())))
                }
            },
            Err(InterfaceError::Rejected) => Ok(None),
            Err(error) => Err(error),
        }
    }

    /// Sets the title of a track
    #[verifier::rlimit(40)]
    pub fn set_track_title(&mut self, track: u16, title: &str, wchar: bool) -> (r: Result<
        (),
        InterfaceError,
    >)
        requires
            old(self).device.wf(),
        ensures
            final(self).device.wf(),
            final(self).device.spec_model() == old(self).device.spec_model(),
            (final(self).device@, r) == spec_set_track_title(
                old(self).device@,
                track,
                title@,
                wchar,
            ),
    {
        let new_title = match NetMDInterface::prepared_title(title, wchar) {
            Err(e) => {
                return Err(e);
            },
            Ok(new_title) => new_title,
        };
        let (wchar_value, descriptor): (i64, Descriptor) = if wchar {
            (3, Descriptor::AudioUTOC4TD)
        } else {
            (2, Descriptor::AudioUTOC1TD)
        };
        let old_len: usize = match self.old_track_title(track, wchar) {
            Err(e) => {
                return Err(e);
            },
            Ok(Some(current_title)) => {
                if current_title == String::from_str(title) {
                    return Ok(());
                }
                match NetMDInterface::held_length(current_title.as_str()) {
                    Err(e) => {
                        return Err(e);
                    },
                    Ok(len) => len,
                }
            },
            Ok(None) => 0,
        };
        let mut opening: Vec<(Descriptor, DescriptorAction)> = Vec::new();
        opening.push((descriptor, DescriptorAction::OpenWrite));
        let mut closing: Vec<(Descriptor, DescriptorAction)> = Vec::new();
        closing.push((descriptor, DescriptorAction::Close));
        assert(opening@ == seq![(track_title_descriptor(wchar), DescriptorAction::OpenWrite)]);
        assert(closing@ == seq![(track_title_descriptor(wchar), DescriptorAction::Close)]);
        let mut selector: Vec<QueryValue> = Vec::new();
        selector.push(QueryValue::Number(wchar_value));
        selector.push(QueryValue::Number(track as i64));
        assert(values_view(selector@) == seq![
            Value::Number(wchar_value),
            Value::Number(track as i64),
        ]);
        self.write_title(&opening, SET_TRACK_TITLE_REQUEST, selector, new_title, old_len, &closing)
    }

    /// The identifier of a track, as text.
    pub fn track_uuid(&mut self, track: u16) -> (r: Result<String, InterfaceError>)
        requires
            old(self).device.wf(),
        ensures
            final(self).device.wf(),
            final(self).device.spec_model() == old(self).device.spec_model(),
            (final(self).device@, text_in(r)) == spec_track_uuid(old(self).device@, track),
    {
        let mut args: Vec<QueryValue> = Vec::new();
        args.push(QueryValue::Number(track as i64));
        assert(values_view(args@) == seq![Value::Number(track as i64)]);
        match self.ask(None, TRACK_UUID_REQUEST, &args, TRACK_UUID_REPLY) {
            Err(e) => Err(e),
            Ok(values) => match array_at(&values, 0) {
                Err(e) => Err(e),
                Ok(bytes) => Ok(lossy_text(&bytes)),
            },
        }
    }

    /// Gets the bytes of a track
    ///
    /// This can only be executed on an MZ-RH1 / M200
    pub fn save_track_to_array(&mut self, track: u16, progress: bool) -> (r: Result<
        (DiscFormat, u16, Vec<u8>),
        InterfaceError,
    >)
        requires
            old(self).device.wf(),
        ensures
            final(self).device.wf(),
            final(self).device.spec_model() == old(self).device.spec_model(),
            final(self).device@ == spec_save_track_to_array(old(self).device@, track, progress).0,
            match spec_save_track_to_array(old(self).device@, track, progress).1 {
                Ok((format, frames, audio)) => r matches Ok((f, n, a)) && f == format && n
                    == frames && a@ == audio,
                Err(e) => r matches Err(x) && x == e,
            },
    {
        let mut args: Vec<QueryValue> = Vec::new();
        args.push(QueryValue::Number(track as i64 + 1));
        assert(values_view(args@) == seq![Value::Number((track + 1) as i64)]);
        let values = match self.exchange(SAVE_TRACK_REQUEST, &args, true, SAVE_TRACK_REPLY) {
            Err(e) => {
                return Err(e);
            },
            Ok(values) => values,
        };
        let (frames, codec, length) = match (
            number_at(&values, 0),
            number_at(&values, 1),
            number_at(&values, 2),
        ) {
            (Ok(frames), Ok(codec), Ok(length)) => (
                to_low16(frames),
                to_low8(codec),
                to_low32(length) as usize,
            ),
            (Err(e), _, _) => {
                return Err(e);
            },
            (_, Err(e), _) => {
                return Err(e);
            },
            (_, _, Err(e)) => {
                return Err(e);
            },
        };
        let result = match self.device.read_bulk(length, UPLOAD_CHUNK, progress) {
            Err(e) => {
                return Err(InterfaceError::CommunicationError(e));
            },
            Ok(result) => result,
        };
        let end = match self.read_reply(false) {
            Err(e) => {
                return Err(e);
            },
            Ok(end) => end,
        };
        match parse_template(SAVE_TRACK_END_REPLY) {
            Err(e) => {
                return Err(InterfaceError::QueryError(e));
            },
            Ok(tokens) => match scan_tokens(&tokens, &end) {
                Err(e) => {
                    return Err(InterfaceError::QueryError(e));
                },
                Ok(_) => {},
            },
        }
        match self.device.sleep(UPLOAD_PAUSE) {
            Err(e) => Err(InterfaceError::CommunicationError(e)),
            Ok(_) => Ok((DiscFormat::from_codec(codec), frames, result)),
        }
    }

    /// Announces a track that is to be sent.
    pub fn begin_track(&mut self, wireformat: u8, discformat: u8, frames: u32, pkt_size: u32) -> (r:
        Result<(), InterfaceError>)
        requires
            old(self).device.wf(),
        ensures
            final(self).device.wf(),
            final(self).device.spec_model() == old(self).device.spec_model(),
            (final(self).device@, r) == spec_begin_track(
                old(self).device@,
                wireformat,
                discformat,
                frames,
                pkt_size,
            ),
    {
        // Sharps are slow
        match self.device.sleep(DOWNLOAD_PAUSE) {
            Err(e) => {
                return Err(InterfaceError::CommunicationError(e));
            },
            Ok(_) => {},
        }
        let total_bytes: i64 = pkt_size as i64 + 24;
        let mut args: Vec<QueryValue> = Vec::new();
        args.push(QueryValue::Number(wireformat as i64));
        args.push(QueryValue::Number(discformat as i64));
        args.push(QueryValue::Number(frames as i64));
        args.push(QueryValue::Number(total_bytes));
        assert(values_view(args@) == seq![
            Value::Number(wireformat as i64),
            Value::Number(discformat as i64),
            Value::Number(frames as i64),
            Value::Number((pkt_size + 24) as i64),
        ]);
        match self.exchange(SEND_TRACK_REQUEST, &args, true, SEND_TRACK_REPLY) {
            Err(e) => {
                return Err(e);
            },
            Ok(_) => {},
        }
        match self.device.poll() {
            Err(e) => {
                return Err(InterfaceError::CommunicationError(e));
            },
            Ok(_) => {},
        }
        // Sharps are slow
        match self.device.sleep(DOWNLOAD_PAUSE) {
            Err(e) => Err(InterfaceError::CommunicationError(e)),
            Ok(_) => Ok(()),
        }
    }

    /// Sends the packets of a track.
    pub fn send_packets(&mut self, pkt_size: u32, packets: Encryptor, progress: bool) -> (r: Result<
        (),
        InterfaceError,
    >)
        requires
            old(self).device.wf(),
            packets.wf(),
            packets@.packets == 0,
        ensures
            final(self).device.wf(),
            final(self).device.spec_model() == old(self).device.spec_model(),
            (final(self).device@, r) == spec_send_packets(
                old(self).device@,
                packets@,
                pkt_size,
                0,
                progress,
            ),
    {
        let mut stream = packets;
        let total_bytes: u64 = pkt_size as u64 + 24;
        let mut written_bytes: usize = 0;
        let ghost start = self.device@;
        let ghost first = stream@;
        loop
            invariant
                self.device.wf(),
                self.device.spec_model() == old(self).device.spec_model(),
                stream.wf(),
                start == old(self).device@,
                first == packets@,
                total_bytes == pkt_size + 24,
                written_bytes == if stream@.packets == 0 {
                    0
                } else {
                    stream@.consumed + 24
                },
                spec_send_packets(start, first, pkt_size, 0, progress) == spec_send_packets(
                    self.device@,
                    stream@,
                    pkt_size,
                    written_bytes as nat,
                    progress,
                ),
            decreases stream@.payload.len() - stream@.consumed,
        {
            proof {
                stream.lemma_wf();
            }
            let ghost before = stream@;
            let is_first = written_bytes == 0;
            let (key, iv, data) = match stream.next() {
                None => {
                    assert(stream_next(before) is None);
                    return Ok(());
                },
                Some(packet) => packet,
            };
            assert(stream_next(before) is Some);
            proof {
                stream.lemma_wf();
                lemma_cbc_encrypt_len(before.content_key, zero_block(), before.payload);
                assert(data@.len() == stream@.consumed - before.consumed);
                assert(key@.len() == 8);
            }
            if data.len() == 0 {
                return Ok(());
            }
            assert(is_first == (before.packets == 0));
            let binpack = if is_first {
                let mut header: Vec<u8> = Vec::new();
                header.push(0);
                header.push(0);
                header.push(0);
                header.push(0);
                let mut packed_length = crate::netmd::query_utils::be_encode(pkt_size as u64, 4);
                header.append(&mut packed_length);
                let mut key = key;
                header.append(&mut key);
                let mut iv = iv;
                header.append(&mut iv);
                let mut data = data;
                header.append(&mut data);
                header
            } else {
                data
            };
            proof {
                crate::netmd::query_utils::lemma_bytes_len(pkt_size as int, 4);
                assert(iv@.len() == 8) by {
                    if before.consumed >= 8 {
                    }
                }
            }
            let sent = binpack.len();
            let ghost next = stream_next(before)->Some_0;
            assert(binpack@ == packet_bytes(next.0, before.packets == 0, pkt_size));
            match self.device.write_bulk(binpack) {
                Err(e) => {
                    return Err(InterfaceError::CommunicationError(e));
                },
                Ok(_) => {},
            }
            written_bytes = written_bytes + sent;
            if progress {
                match self.device.transfer_done(
                    Transfer::Progress { total: total_bytes, done: written_bytes as u64 },
                ) {
                    Err(e) => {
                        return Err(InterfaceError::CommunicationError(e));
                    },
                    Ok(_) => {},
                }
            }
            if total_bytes == written_bytes as u64 {
                stream.close();
                return Ok(());
            }
        }
    }

    /// Reads the closing reply of a track that was sent.
    pub fn end_track(&mut self, hex_session_key: &Vec<u8>) -> (r: Result<
        (u16, Vec<u8>, Vec<u8>),
        InterfaceError,
    >)
        requires
            old(self).device.wf(),
            hex_session_key@.len() == 8,
        ensures
            final(self).device.wf(),
            final(self).device.spec_model() == old(self).device.spec_model(),
            final(self).device@ == spec_end_track(old(self).device@, hex_session_key@).0,
            match spec_end_track(old(self).device@, hex_session_key@).1 {
                Ok((track, uuid, ccid)) => r matches Ok((t, u, c)) && t == track && u@ == uuid
                    && c@ == ccid,
                Err(e) => r matches Err(x) && x == e,
            },
    {
        let reply = match self.read_reply(false) {
            Err(e) => {
                return Err(e);
            },
            Ok(reply) => reply,
        };
        match self.device.poll() {
            Err(e) => {
                return Err(InterfaceError::CommunicationError(e));
            },
            Ok(_) => {},
        }
        let values = match parse_template(SEND_TRACK_END_REPLY) {
            Err(e) => {
                return Err(InterfaceError::QueryError(e));
            },
            Ok(tokens) => match scan_tokens(&tokens, &reply) {
                Err(e) => {
                    return Err(InterfaceError::QueryError(e));
                },
                Ok(values) => values,
            },
        };
        match (number_at(&values, 0), array_at(&values, 1)) {
            (Err(e), _) => Err(e),
            (_, Err(e)) => Err(e),
            (Ok(track), Ok(encrypted_data)) => {
                if encrypted_data.len() < 32 || encrypted_data.len() % 8 != 0 {
                    return Err(InterfaceError::CommunicationError(NetMDError::InvalidResult));
                }
                proof {
                    crate::netmd::block_cipher::lemma_cbc_decrypt_len(
                        hex_session_key@,
                        zero_block(),
                        encrypted_data@,
                    );
                }
                let plain = crate::netmd::block_cipher::des_cbc_decrypt(
                    hex_session_key,
                    &zeros(),
                    encrypted_data,
                );
                let part1 = copy_range(&plain, 0, 8);
                let part2 = copy_range(&plain, 12, 32);
                Ok((to_low16(track), part1, part2))
            },
        }
    }

    /// Sends a track to the device: announces it, sends its packets, and
    /// reads where the device has put it.
    pub fn send_track(
        &mut self,
        wireformat: u8,
        discformat: u8,
        frames: u32,
        pkt_size: u32,
        packets: Encryptor,
        hex_session_key: &[u8],
        progress: bool,
    ) -> (r: Result<(u16, Vec<u8>, Vec<u8>), InterfaceError>)
        requires
            old(self).device.wf(),
            packets.wf(),
            packets@.packets == 0,
        ensures
            final(self).device.wf(),
            final(self).device.spec_model() == old(self).device.spec_model(),
            final(self).device@ == spec_send_track(
                old(self).device@,
                wireformat,
                discformat,
                frames,
                pkt_size,
                packets@,
                hex_session_key@,
                progress,
            ).0,
            match spec_send_track(
                old(self).device@,
                wireformat,
                discformat,
                frames,
                pkt_size,
                packets@,
                hex_session_key@,
                progress,
            ).1 {
                Ok((track, uuid, ccid)) => r matches Ok((t, u, c)) && t == track && u@ == uuid
                    && c@ == ccid,
                Err(e) => r matches Err(x) && x == e,
            },
    {
        if hex_session_key.len() != 8 {
            return Err(
                InterfaceError::EncryptionError(
                    EncryptionError::InvalidLength(SessionField::SessionKey, hex_session_key.len()),
                ),
            );
        }
        match self.begin_track(wireformat, discformat, frames, pkt_size) {
            Err(e) => {
                return Err(e);
            },
            Ok(_) => {},
        }
        match self.send_packets(pkt_size, packets, progress) {
            Err(e) => {
                return Err(e);
            },
            Ok(_) => {},
        }
        let key = slice_to_vec(hex_session_key);
        self.end_track(&key)
    }

    /// Reads the identifier of the disc subunit and finds the level of the
    /// device in it.
    pub fn disc_subunit_identifier(&mut self) -> (r: Result<NetMDLevel, InterfaceError>)
        requires
            old(self).device.wf(),
        ensures
            final(self).device.wf(),
            final(self).device.spec_model() == old(self).device.spec_model(),
            (final(self).device@, r) == spec_disc_subunit_identifier(old(self).device@),
    {
        let args: Vec<QueryValue> = Vec::new();
        assert(values_view(args@) == Seq::<Value>::empty());
        let res = match self.ask(
            Some(Descriptor::DiscSubunitIdentifier),
            SUBUNIT_REQUEST,
            &args,
            SUBUNIT_REPLY,
        ) {
            Err(e) => {
                return Err(e);
            },
            Ok(res) => res,
        };
        match (number_at(&res, 2), number_at(&res, 5), array_at(&res, 6)) {
            (Err(e), _, _) => Err(e),
            (_, Err(e), _) => Err(e),
            (_, _, Err(e)) => Err(e),
            (Ok(size_of_list_id), Ok(amt_of_root_object_lists), Ok(buffer)) => media_level(
                &buffer,
                to_low8(size_of_list_id),
                if amt_of_root_object_lists < 0 {
                    0
                } else if amt_of_root_object_lists > 0xffff {
                    0xffff
                } else {
                    amt_of_root_object_lists as u16
                },
            ),
        }
    }

    /// How much of NetMD the device implements.
    pub fn net_md_level(&mut self) -> (r: Result<NetMDLevel, InterfaceError>)
        requires
            old(self).device.wf(),
        ensures
            final(self).device.wf(),
            final(self).device.spec_model() == old(self).device.spec_model(),
            (final(self).device@, r) == spec_disc_subunit_identifier(old(self).device@),
    {
        self.disc_subunit_identifier()
    }
}

/// The content ID of tracks that a host makes.
#[verifier::opaque]
pub open spec fn spec_content_id() -> Seq<u8> {
    seq![
        0x01u8, 0x0fu8, 0x50u8, 0x00u8, 0x00u8, 0x04u8, 0x00u8, 0x00u8, 0x00u8, 0x48u8, 0xa2u8,
        0x8du8, 0x3eu8, 0x1au8, 0x3bu8, 0x0cu8, 0x44u8, 0xafu8, 0x2fu8, 0xa0u8,
    ]
}

/// The key encryption key of tracks that a host makes.
#[verifier::opaque]
pub open spec fn spec_kek() -> Seq<u8> {
    seq![0x14u8, 0xe3u8, 0x83u8, 0x4eu8, 0xe2u8, 0xd3u8, 0xccu8, 0xa5u8]
}

/// A track for the device: its titles, its format and its audio.
pub struct MDTrack {
    pub title: String,
    pub format: WireFormat,
    pub data: Vec<u8>,
    pub chunk_size: usize,
    pub full_width_title: Option<String>,
}

impl MDTrack {
    /// The full-width title of the track, empty where it has none.
    pub fn full_width_title(self) -> (title: String)
        ensures
            title@ == match self.full_width_title {
                Some(t) => t@,
                None => Seq::<char>::empty(),
            },
    {
        match self.full_width_title {
            Some(t) => t,
            None => text_of(&Vec::new()),
        }
    }

    /// The title of the track.
    pub fn title(&self) -> (title: String)
        ensures
            title@ == self.title@,
    {
        self.title.clone()
    }

    /// The format of the audio.
    pub fn data_format(&self) -> (format: WireFormat)
        ensures
            format == self.format,
    {
        self.format
    }

    /// The number of frames of the audio, padded to whole frames.
    pub fn frame_count(&self) -> (frames: usize)
        requires
            self.data@.len() + self.format.spec_frame_size() <= usize::MAX,
        ensures
            frames == padded(self.data@, self.format.spec_frame_size() as nat).len()
                / self.format.spec_frame_size() as nat,
    {
        self.total_size() / self.frame_size()
    }

    /// The size of a frame of the audio, in bytes.
    pub fn frame_size(&self) -> (size: usize)
        ensures
            size == self.format.spec_frame_size(),
            size > 0,
            size % 8 == 0,
    {
        self.format.frame_size() as usize
    }

    /// The size of a packet, or 0 for the default.
    pub fn chunk_size(&self) -> (size: usize)
        ensures
            size == self.chunk_size,
    {
        self.chunk_size
    }

    /// The size of the audio, padded to whole frames.
    pub fn total_size(&self) -> (size: usize)
        requires
            self.data@.len() + self.format.spec_frame_size() <= usize::MAX,
        ensures
            size == padded(self.data@, self.format.spec_frame_size() as nat).len(),
    {
        let frame_size = self.frame_size();
        let mut len = self.data.len();
        if len % frame_size != 0 {
            len = len + (frame_size - (len % frame_size));
        }
        len
    }

    /// The content ID of the track.
    pub fn content_id(&self) -> (id: [u8; 20])
        ensures
            id@ == spec_content_id(),
    {
        let id: [u8; 20] = [
            0x01, 0x0f, 0x50, 0x00, 0x00, 0x04, 0x00, 0x00, 0x00, 0x48, 0xa2, 0x8d, 0x3e, 0x1a,
            0x3b, 0x0c, 0x44, 0xaf, 0x2f, 0xa0,
        ];
        assert(id@ == spec_content_id()) by {
            reveal(spec_content_id);
        }
        id
    }

    /// The key encryption key of the track.
    pub fn get_kek(&self) -> (kek: [u8; 8])
        ensures
            kek@ == spec_kek(),
    {
        let kek: [u8; 8] = [0x14, 0xe3, 0x83, 0x4e, 0xe2, 0xd3, 0xcc, 0xa5];
        assert(kek@ == spec_kek()) by {
            reveal(spec_kek);
        }
        kek
    }

    /// Whether the audio can be made into packets: the packet size is whole
    /// cipher blocks, of which the first packet holds at least one beside its
    /// header, and the padded audio can be held.
    pub open spec fn spec_can_encrypt(&self) -> bool {
        &&& self.chunk_size == 0 || (self.chunk_size >= 32 && self.chunk_size % 8 == 0)
        &&& self.data@.len() + self.format.spec_frame_size() + 24 <= usize::MAX
    }

    /// Whether the audio can be made into packets.
    pub fn can_encrypt(&self) -> (b: bool)
        ensures
            b == self.spec_can_encrypt(),
    {
        (self.chunk_size == 0 || (self.chunk_size >= 32 && self.chunk_size % 8 == 0))
            && self.data.len() <= usize::MAX - 24 - self.format.frame_size() as usize
    }

    /// The packets of the track: the audio leaves the track and is encrypted
    /// under a content key drawn at random.
    pub fn get_encrypting_iterator(&mut self) -> (packets: Encryptor)
        requires
            old(self).spec_can_encrypt(),
        ensures
            packets.wf(),
            packets@.payload == padded(old(self).data@, old(self).format.spec_frame_size() as nat),
            packets@.wrapped_key == des_decrypt_block(spec_kek(), packets@.content_key),
            packets@.chunk_size == chunk_size_or_default(old(self).chunk_size),
            packets@.consumed == 0,
            packets@.packets == 0,
            !packets@.closed,
            final(self).data@ == Seq::<u8>::empty(),
            final(self).title == old(self).title,
            final(self).format == old(self).format,
            final(self).chunk_size == old(self).chunk_size,
            final(self).full_width_title == old(self).full_width_title,
    {
        let mut data: Vec<u8> = Vec::new();
        core::mem::swap(&mut data, &mut self.data);
        Encryptor::new(
            DataEncryptorInput {
                kek: self.get_kek(),
                frame_size: self.frame_size(),
                chunk_size: self.chunk_size(),
                data,
            },
        )
    }
}

/// A secure session: the state of the host in the key exchange that a
/// download needs.
pub struct MDSession {
    pub ekb_object: EKBOpenSource,
    pub hex_session_key: Option<Vec<u8>>,
    pub host_nonce: Vec<u8>,
}

/// What an optional key holds.
pub open spec fn key_view(key: Option<Vec<u8>>) -> Option<Seq<u8>> {
    match key {
        Some(k) => Some(k@),
        None => None,
    }
}

/// The exchanges of `MDSession::init`: the secure session is entered, the
/// leaf ID is read, the key data of the key block is sent, and the nonces
/// are exchanged. The nonce of the device must have eight bytes.
#[verifier::opaque]
pub open spec fn spec_exchange_nonces(link: Link, host_nonce: Seq<u8>) -> (
    Link,
    Result<Seq<u8>, InterfaceError>,
) {
    let (l1, entered) = spec_enter_secure_session(link);
    match entered {
        Err(e) => (l1, Err(e)),
        Ok(_) => {
            let (l2, leaf) = spec_leaf_id(l1);
            match leaf {
                Err(e) => (l2, Err(e)),
                Ok(_) => {
                    let (l3, sent) = spec_send_key_data(
                        l2,
                        EKB_ID,
                        spec_ekb_chains(),
                        EKB_DEPTH,
                        spec_ekb_signature(),
                    );
                    match sent {
                        Err(e) => (l3, Err(e)),
                        Ok(_) => {
                            let (l4, exchanged) = spec_session_key_exchange(l3, host_nonce);
                            match exchanged {
                                Err(e) => (l4, Err(e)),
                                Ok(device_nonce) => if device_nonce.len() != 8 {
                                    (
                                        l4,
                                        Err(
                                            InterfaceError::EncryptionError(
                                                EncryptionError::InvalidLength(
                                                    SessionField::DeviceNonce,
                                                    device_nonce.len() as usize,
                                                ),
                                            ),
                                        ),
                                    )
                                } else {
                                    (l4, Ok(device_nonce))
                                },
                            }
                        },
                    }
                },
            }
        },
    }
}

/// What `MDSession::init` does: after the exchanges, the session key is
/// derived from the root key and the two nonces, the host's first.
pub open spec fn spec_session_init(link: Link, host_nonce: Seq<u8>) -> (
    Link,
    Result<Seq<u8>, InterfaceError>,
) {
    let (after, exchanged) = spec_exchange_nonces(link, host_nonce);
    (
        after,
        match exchanged {
            Err(e) => Err(e),
            Ok(device_nonce) => Ok(
                spec_retailmac(spec_root_key(), host_nonce + device_nonce, zero_block()),
            ),
        },
    )
}

/// The titles of a track that was sent are written and the track is
/// committed.
pub open spec fn spec_finish_track(
    link: Link,
    track_index: u16,
    title: Seq<char>,
    full_width_title: Option<Seq<char>>,
    session_key: Seq<u8>,
) -> (Link, Result<(), InterfaceError>) {
    let (l1, titled) = spec_set_track_title(link, track_index, title, false);
    match titled {
        Err(e) => (l1, Err(e)),
        Ok(_) => {
            let (l2, wide) = match full_width_title {
                Some(t) => spec_set_track_title(l1, track_index, t, true),
                None => (l1, Ok(())),
            };
            match wide {
                Err(e) => (l2, Err(e)),
                Ok(_) => spec_commit_track(l2, track_index, session_key),
            }
        },
    }
}

/// The frames of a stream of audio in a format.
pub open spec fn stream_frames(stream: Stream, format: WireFormat) -> u32 {
    ((stream.payload.len() / format.spec_frame_size() as nat) % 0x1_0000_0000) as u32
}

/// The size of a stream of audio, in its lowest four bytes.
pub open spec fn stream_size(stream: Stream) -> u32 {
    (stream.payload.len() % 0x1_0000_0000) as u32
}

/// What `MDSession::download_track` does: without a session key nothing
/// is done. Else the download is set up with the content ID and the key
/// encryption key, the track is sent, its titles are written, and it is
/// committed.
pub open spec fn spec_download_track(
    link: Link,
    session_key: Option<Seq<u8>>,
    title: Seq<char>,
    full_width_title: Option<Seq<char>>,
    format: WireFormat,
    stream: Stream,
    progress: bool,
    disc_format: Option<DiscFormat>,
) -> (Link, Result<(u16, Seq<u8>, Seq<u8>), InterfaceError>) {
    match session_key {
        None => (
            link,
            Err(
                InterfaceError::EncryptionError(
                    EncryptionError::InvalidLength(SessionField::SessionKey, 0),
                ),
            ),
        ),
        Some(key) => {
            let (l1, set_up) = spec_setup_download(link, spec_content_id(), spec_kek(), key);
            match set_up {
                Err(e) => (l1, Err(e)),
                Ok(_) => {
                    let (l2, sent) = spec_send_track(
                        l1,
                        format.spec_code(),
                        match disc_format {
                            Some(f) => f.spec_code(),
                            None => format.spec_disc_for_wire().spec_code(),
                        },
                        stream_frames(stream, format),
                        stream_size(stream),
                        stream,
                        key,
                        progress,
                    );
                    match sent {
                        Err(e) => (l2, Err(e)),
                        Ok((track_index, uuid, ccid)) => {
                            let (l3, finished) = spec_finish_track(
                                l2,
                                track_index,
                                title,
                                full_width_title,
                                key,
                            );
                            (
                                l3,
                                match finished {
                                    Err(e) => Err(e),
                                    Ok(_) => Ok((track_index, uuid, ccid)),
                                },
                            )
                        },
                    }
                },
            }
        },
    }
}

impl MDSession {
    /// A session that has not begun, with a host nonce drawn at random.
    pub fn new() -> (session: MDSession)
        ensures
            session.wf(),
            session.hex_session_key is None,
    {
        MDSession::with_host_nonce(random_block())
    }

    /// A session that has not begun, with the given host nonce.
    pub fn with_host_nonce(host_nonce: Vec<u8>) -> (session: MDSession)
        requires
            host_nonce@.len() == 8,
        ensures
            session.wf(),
            session.spec_host_nonce() == host_nonce@,
            session.hex_session_key is None,
    {
        MDSession { ekb_object: EKBOpenSource, hex_session_key: None, host_nonce }
    }

    /// The host's nonce.
    pub open spec fn spec_host_nonce(&self) -> Seq<u8> {
        self.host_nonce@
    }

    /// The invariant: the host's nonce has eight bytes.
    pub open spec fn wf(&self) -> bool {
        self.host_nonce@.len() == 8
    }

    /// Enters the secure session, sends the key data and exchanges nonces;
    /// gives the nonce of the device.
    pub fn exchange_nonces(md: &mut NetMDInterface, ekb_object: &EKBOpenSource, nonce: &Vec<u8>) -> (r:
        Result<Vec<u8>, InterfaceError>)
        requires
            old(md).device.wf(),
        ensures
            final(md).device.wf(),
            final(md).device.spec_model() == old(md).device.spec_model(),
            (final(md).device@, bytes_of(r)) == spec_exchange_nonces(old(md).device@, nonce@),
            r matches Ok(n) ==> n@.len() == 8,
    {
        reveal(spec_exchange_nonces);
        match md.enter_secure_session() {
            Err(e) => {
                return Err(e);
            },
            Ok(_) => {},
        }
        match md.leaf_id() {
            Err(e) => {
                return Err(e);
            },
            Ok(_) => {},
        }
        let ekb = ekb_object.ekb_data_for_leaf_id();
        match md.send_key_data(ekb_object.ekb_id(), ekb.chains, ekb.depth, ekb.signature) {
            Err(e) => {
                return Err(e);
            },
            Ok(_) => {},
        }
        let devnonce = match md.session_key_exchange(nonce.clone()) {
            Err(e) => {
                return Err(e);
            },
            Ok(devnonce) => devnonce,
        };
        if devnonce.len() != 8 {
            return Err(
                InterfaceError::EncryptionError(
                    EncryptionError::InvalidLength(SessionField::DeviceNonce, devnonce.len()),
                ),
            );
        }
        Ok(devnonce)
    }

    /// Begins the session on a device and derives the session key.
    pub fn init(&mut self, md: &mut NetMDInterface) -> (r: Result<(), InterfaceError>)
        requires
            old(self).wf(),
            old(md).device.wf(),
        ensures
            final(self).wf(),
            final(self).spec_host_nonce() == old(self).spec_host_nonce(),
            final(md).device.wf(),
            final(md).device.spec_model() == old(md).device.spec_model(),
            final(md).device@ == spec_session_init(old(md).device@, old(self).spec_host_nonce()).0,
            match spec_session_init(old(md).device@, old(self).spec_host_nonce()).1 {
                Ok(key) => r is Ok && key_view(final(self).hex_session_key) == Some(key),
                Err(e) => r == Err::<(), InterfaceError>(e) && key_view(
                    final(self).hex_session_key,
                ) == key_view(old(self).hex_session_key),
            },
    {
        let mut nonce = self.host_nonce.clone();
        let mut devnonce = match MDSession::exchange_nonces(md, &self.ekb_object, &nonce) {
            Err(e) => {
                return Err(e);
            },
            Ok(devnonce) => devnonce,
        };
        nonce.append(&mut devnonce);
        let root_key = self.ekb_object.root_key();
        let zero: [u8; 8] = [0, 0, 0, 0, 0, 0, 0, 0];
        assert(zero@ == zero_block());
        self.hex_session_key = Some(
            retailmac(vstd::array::array_as_slice(&root_key), nonce.as_slice(), &zero),
        );
        Ok(())
    }

    /// Ends the session: the device forgets the session key, and so does
    /// the host.
    pub fn close(&mut self, md: &mut NetMDInterface) -> (r: Result<(), InterfaceError>)
        requires
            old(self).wf(),
            old(md).device.wf(),
        ensures
            final(self).wf(),
            final(self).spec_host_nonce() == old(self).spec_host_nonce(),
            final(md).device.wf(),
            final(md).device.spec_model() == old(md).device.spec_model(),
            (final(md).device@, r) == spec_session_key_forget(old(md).device@),
            r is Ok ==> final(self).hex_session_key is None,
            r is Err ==> final(self).hex_session_key == old(self).hex_session_key,
    {
        match md.session_key_forget() {
            Err(e) => {
                return Err(e);
            },
            Ok(_) => {},
        }
        self.hex_session_key = None;
        Ok(())
    }

    /// Sends a track to the device inside the session: sets the download
    /// up, sends the packets, writes the titles, and commits the track.
    pub fn download_track(
        &mut self,
        md: &mut NetMDInterface,
        track: &MDTrack,
        packets: &Encryptor,
        progress: bool,
        disc_format: Option<DiscFormat>,
    ) -> (r: Result<(u16, Vec<u8>, Vec<u8>), InterfaceError>)
        requires
            old(self).wf(),
            old(md).device.wf(),
            packets.wf(),
            packets@.packets == 0,
        ensures
            final(self).wf(),
            *final(self) == *old(self),
            final(md).device.wf(),
            final(md).device.spec_model() == old(md).device.spec_model(),
            final(md).device@ == spec_download_track(
                old(md).device@,
                key_view(old(self).hex_session_key),
                track.title@,
                crate::netmd::commands::option_text(track.full_width_title),
                track.format,
                packets@,
                progress,
                disc_format,
            ).0,
            match spec_download_track(
                old(md).device@,
                key_view(old(self).hex_session_key),
                track.title@,
                crate::netmd::commands::option_text(track.full_width_title),
                track.format,
                packets@,
                progress,
                disc_format,
            ).1 {
                Ok((index, uuid, ccid)) => r matches Ok((i, u, c)) && i == index && u@ == uuid
                    && c@ == ccid,
                Err(e) => r matches Err(x) && x == e,
            },
    {
        let key = match &self.hex_session_key {
            None => {
                return Err(
                    InterfaceError::EncryptionError(
                        EncryptionError::InvalidLength(SessionField::SessionKey, 0),
                    ),
                );
            },
            Some(key) => key.clone(),
        };
        let content_id = track.content_id();
        let kek = track.get_kek();
        match md.setup_download(
            vstd::array::array_as_slice(&content_id),
            vstd::array::array_as_slice(&kek),
            key.as_slice(),
        ) {
            Err(e) => {
                return Err(e);
            },
            Ok(_) => {},
        }
        let data_format = track.data_format();
        let final_disc_format = match disc_format {
            Some(f) => f,
            None => data_format.disc_for_wire(),
        };
        let total = packets.total_size();
        let frames = ((total / track.frame_size()) as u64 % 0x1_0000_0000) as u32;
        let size = (total as u64 % 0x1_0000_0000) as u32;
        let (track_index, uuid, ccid) = match md.send_track(
            data_format.code(),
            final_disc_format.code(),
            frames,
            size,
            packets.duplicate(),
            key.as_slice(),
            progress,
        ) {
            Err(e) => {
                return Err(e);
            },
            Ok(sent) => sent,
        };
        match MDSession::finish_track(md, track_index, track, &key) {
            Err(e) => Err(e),
            Ok(_) => Ok((track_index, uuid, ccid)),
        }
    }

    /// Writes the titles of a track that was sent and commits the track.
    pub fn finish_track(md: &mut NetMDInterface, track_index: u16, track: &MDTrack, key: &Vec<u8>) -> (r:
        Result<(), InterfaceError>)
        requires
            old(md).device.wf(),
        ensures
            final(md).device.wf(),
            final(md).device.spec_model() == old(md).device.spec_model(),
            (final(md).device@, r) == spec_finish_track(
                old(md).device@,
                track_index,
                track.title@,
                crate::netmd::commands::option_text(track.full_width_title),
                key@,
            ),
    {
        match md.set_track_title(track_index, track.title.as_str(), false) {
            Err(e) => {
                return Err(e);
            },
            Ok(_) => {},
        }
        match &track.full_width_title {
            Some(full_width) => {
                match md.set_track_title(track_index, full_width.as_str(), true) {
                    Err(e) => {
                        return Err(e);
                    },
                    Ok(_) => {},
                }
            },
            None => {},
        }
        md.commit_track(track_index, key.as_slice())
    }
}

} // verus!
