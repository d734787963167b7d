//! The service commands themselves.
use vstd::prelude::*;
use vstd::slice::slice_to_vec;
use crate::netmd::base::{
    backoff,
    bytes_of,
    spec_backoff,
    spec_plain,
    spec_read_reply,
    spec_send_command,
    Link,
    NetMD,
    NetMDError,
    TransferView,
};
use crate::netmd::interface::{
    array_at,
    lift_query,
    low16,
    low8,
    number_at,
    reply_verdict,
    spec_array_at,
    spec_number_at,
    to_low16,
    to_low8,
    values_of,
    InterfaceError,
    NetmdStatus,
    INTERIM_RESPONSE_RETRY_INTERVAL,
    MAX_INTERIM_READ_ATTEMPTS,
};
use crate::netmd::query_utils::{
    copy_range,
    format_tokens,
    parse_template,
    scan_tokens,
    spec_format_query,
    spec_scan_query,
    values_view,
    QueryValue,
    Value,
};
use crate::netmd::utils::{spec_to_sjis, to_sjis, TEXT_LIMIT};

verus! {

/// A kind of memory of a device.
#[derive(Clone, Copy, Debug, PartialEq, Eq, Structural)]
pub enum MemoryType {
    Mapped,
    Eeprom2,
    Eeprom3,
}

impl MemoryType {
    /// The byte of the kind on the wire.
    pub open spec fn spec_code(self) -> u8 {
        match self {
            MemoryType::Mapped => 0x0,
            MemoryType::Eeprom2 => 0x2,
            MemoryType::Eeprom3 => 0x3,
        }
    }

    /// The byte of the kind on the wire.
    pub fn code(self) -> (c: u8)
        ensures
            c == self.spec_code(),
    {
        match self {
            MemoryType::Mapped => 0x0,
            MemoryType::Eeprom2 => 0x2,
            MemoryType::Eeprom3 => 0x3,
        }
    }
}

/// What memory is opened for.
#[derive(Clone, Copy, Debug, PartialEq, Eq, Structural)]
pub enum MemoryOpenType {
    Close,
    Read,
    Write,
    ReadWrite,
}

impl MemoryOpenType {
    /// The byte of the purpose on the wire.
    pub open spec fn spec_code(self) -> u8 {
        match self {
            MemoryOpenType::Close => 0x0,
            MemoryOpenType::Read => 0x1,
            MemoryOpenType::Write => 0x2,
            MemoryOpenType::ReadWrite => 0x3,
        }
    }

    /// The byte of the purpose on the wire.
    pub fn code(self) -> (c: u8)
        ensures
            c == self.spec_code(),
    {
        match self {
            MemoryOpenType::Close => 0x0,
            MemoryOpenType::Read => 0x1,
            MemoryOpenType::Write => 0x2,
            MemoryOpenType::ReadWrite => 0x3,
        }
    }
}

/// What the display shows.
#[derive(Clone, Copy, Debug, PartialEq, Eq, Structural)]
pub enum DisplayMode {
    Default,
    Override,
}

impl DisplayMode {
    /// The byte of the mode on the wire.
    pub open spec fn spec_code(self) -> u8 {
        match self {
            DisplayMode::Default => 0x0,
            DisplayMode::Override => 0x1,
        }
    }

    /// The byte of the mode on the wire.
    pub fn code(self) -> (c: u8)
        ensures
            c == self.spec_code(),
    {
        match self {
            DisplayMode::Default => 0x0,
            DisplayMode::Override => 0x1,
        }
    }
}

/// One round of the checksum's register.
pub open spec fn spec_round(crc: u32, i: u32) -> u32 {
    if crc & 0x8000 != 0 {
        (crc << i) ^ 0x1021
    } else {
        crc << i
    }
}

/// The register after the first `n` of the sixteen rounds for one word.
pub open spec fn spec_rounds(crc: u32, n: nat) -> u32
    decreases n,
{
    if n == 0 {
        crc
    } else {
        spec_round(spec_rounds(crc, (n - 1) as nat), (n - 1) as u32)
    }
}

/// The register after the first `n` words: each word is combined with the
/// register, above the upper half of the count of the words, and sixteen
/// rounds follow.
pub open spec fn spec_register(words: Seq<u32>, count: u32, seed: u32, n: nat) -> u32
    decreases n,
{
    if n == 0 {
        seed
    } else {
        spec_rounds(
            spec_register(words, count, seed, (n - 1) as nat) ^ ((count & 0xffff0000) | words[n
                - 1]),
            16,
        )
    }
}

/// The checksum of words: the lower half of the register after all of them.
pub open spec fn spec_checksum(words: Seq<u32>, count: u32, seed: u32) -> u32 {
    spec_register(words, count, seed, words.len()) & 0xffff
}

fn rounds(crc: u32) -> (r: u32)
    ensures
        r == spec_rounds(crc, 16),
{
    let mut crc = crc;
    let ghost start = crc;
    let mut i: u32 = 0;
    while i < 16
        invariant
            i <= 16,
            crc == spec_rounds(start, i as nat),
        decreases 16 - i,
    {
        let ts = crc & 0x8000;
        crc = crc << i;
        if ts != 0 {
            crc = crc ^ 0x1021;
        }
        i = i + 1;
    }
    crc
}

/// The bytes of data as words for the checksum.
pub open spec fn byte_words(data: Seq<u8>) -> Seq<u32> {
    Seq::new(data.len(), |i: int| data[i] as u32)
}

/// The pairs of bytes of data as words for the checksum, the lower byte
/// first.
pub open spec fn pair_words(data: Seq<u8>) -> Seq<u32> {
    Seq::new(data.len() / 2, |i: int| (data[2 * i] as int + 256 * data[2 * i + 1] as int) as u32)
}

/// The number of bytes of data in 32 bits.
pub open spec fn count_of(data: Seq<u8>) -> u32 {
    (data.len() % 0x1_0000_0000) as u32
}

/// The checksum of data that is written to memory.
pub fn calculate_checksum(data: &[u8], seed: u32) -> (crc: u32)
    ensures
        crc == spec_checksum(byte_words(data@), count_of(data@), seed),
{
    let mut crc = seed;
    let count: u32 = (data.len() as u64 % 0x1_0000_0000) as u32;
    let mut n: usize = 0;
    while n < data.len()
        invariant
            n <= data.len(),
            count == count_of(data@),
            crc == spec_register(byte_words(data@), count, seed, n as nat),
        decreases data.len() - n,
    {
        let tmp: u32 = (count & 0xffff0000) | data[n] as u32;
        crc = rounds(crc ^ tmp);
        n = n + 1;
    }
    crc & 0xffff
}

/// The checksum of data in EEPROM, which is read in words of two bytes.
pub fn calculate_eeprom_checksum(data: &[u8], seed: u32) -> (crc: u32)
    requires
        data@.len() % 2 == 0,
    ensures
        crc == spec_checksum(pair_words(data@), count_of(data@), seed),
{
    let mut crc = seed;
    let count: u32 = (data.len() as u64 % 0x1_0000_0000) as u32;
    let len = data.len();
    let words = len / 2;
    let mut n: usize = 0;
    while n < words
        invariant
            n <= words,
            words == data@.len() / 2,
            data@.len() % 2 == 0,
            data@.len() <= usize::MAX,
            count == count_of(data@),
            crc == spec_register(pair_words(data@), count, seed, n as nat),
        decreases words - n,
    {
        let word: u32 = data[2 * n] as u32 + 256 * data[2 * n + 1] as u32;
        let tmp: u32 = (count & 0xffff0000) | word;
        crc = rounds(crc ^ tmp);
        n = n + 1;
    }
    crc & 0xffff
}

/// The request that opens the service commands.
pub const AUTH_REQUEST: &'static str = "1801 ff0e 4e6574204d442057616c6b6d616e";

/// The request of `change_memory_state`.
pub const CHANGE_MEMORY_STATE_REQUEST: &'static str = "1820 ff %b %<d %b %b %b";

/// The request of `read`.
pub const READ_REQUEST: &'static str = "1821 ff %b %<d %b";

/// The reply with what was read from memory.
pub const READ_REPLY: &'static str = "1821 00 %? %?%?%?%? %? %?%? %*";

/// The request of `write`.
pub const WRITE_REQUEST: &'static str = "1822 ff %b %<d %b 0000 %* %<w";

/// The request that reads and writes the metadata peripheral.
pub const METADATA_REQUEST: &'static str = "1824 ff %<w %<w %b";

/// The request of `set_display_mode`.
pub const DISPLAY_MODE_REQUEST: &'static str = "1851 ff %b";

/// The request of `set_display_override_string`.
pub const DISPLAY_STRING_REQUEST: &'static str = "1852 ff %b %b 00 %*";

/// The request of `get_device_version`.
pub const DEVICE_VERSION_REQUEST: &'static str = "1813 ff";

/// The reply of `get_device_version`.
pub const DEVICE_VERSION_REPLY: &'static str = "1813 00 00 %B";

/// The request of `get_device_code`.
pub const DEVICE_CODE_REQUEST: &'static str = "1812 ff";

/// The reply of `get_device_code`.
pub const DEVICE_CODE_REPLY: &'static str = "1812 00 %b %b %b %B";

/// The request of `get_switch_status`.
pub const SWITCH_STATUS_REQUEST: &'static str = "1853 ff";

/// The reply of `get_switch_status`.
pub const SWITCH_STATUS_REPLY: &'static str = "1853 ff %w %b %b %w";

/// The bytes that the display shows at once.
pub const DISPLAY_SIZE: usize = 10;

/// The status byte that opens a service request.
pub open spec fn factory_status(test: bool) -> u8 {
    if test {
        0x02
    } else {
        0x00
    }
}

/// The sending of a service request: the status byte, then the query, as a
/// factory command.
pub open spec fn spec_factory_send(link: Link, query: Seq<u8>, test: bool) -> (
    Link,
    Result<(), NetMDError>,
) {
    spec_send_command(link, seq![factory_status(test)] + query, true)
}

/// The reading of the answer to a service request: factory replies are
/// fetched and judged as the replies to other requests are.
pub open spec fn spec_factory_answer(link: Link, accept_interim: bool, attempt: nat) -> (
    Link,
    Result<Seq<u8>, InterfaceError>,
)
    decreases MAX_INTERIM_READ_ATTEMPTS + 1 - attempt,
{
    let (read, reply) = spec_read_reply(link, true, None);
    match reply {
        Err(e) => (read, Err(InterfaceError::CommunicationError(e))),
        Ok(data) => match reply_verdict(data, accept_interim) {
            Some(verdict) => (read, verdict),
            None => if attempt >= MAX_INTERIM_READ_ATTEMPTS {
                (read, Err(InterfaceError::MaxRetries))
            } else {
                let (slept, pause) = spec_plain(
                    read,
                    TransferView::Sleep {
                        millis: spec_backoff(INTERIM_RESPONSE_RETRY_INTERVAL, attempt),
                    },
                );
                match pause {
                    Err(e) => (slept, Err(InterfaceError::CommunicationError(e))),
                    Ok(_) => spec_factory_answer(slept, accept_interim, attempt + 1),
                }
            },
        },
    }
}

/// One service exchange: a request, then its answer.
pub open spec fn spec_factory_query(link: Link, query: Seq<u8>, test: bool, accept_interim: bool) -> (
    Link,
    Result<Seq<u8>, InterfaceError>,
) {
    let (sent, r) = spec_factory_send(link, query, test);
    match r {
        Err(e) => (sent, Err(InterfaceError::CommunicationError(e))),
        Ok(_) => spec_factory_answer(sent, accept_interim, 0),
    }
}

/// A service exchange from a template.
pub open spec fn spec_factory_request(link: Link, template: Seq<char>, args: Seq<Value>) -> (
    Link,
    Result<Seq<u8>, InterfaceError>,
) {
    match spec_format_query(template, args) {
        Err(e) => (link, Err(InterfaceError::QueryError(e))),
        Ok(query) => spec_factory_query(link, query, false, false),
    }
}

/// A service exchange from a template whose reply is not read further.
pub open spec fn spec_factory_command(link: Link, template: Seq<char>, args: Seq<Value>) -> (
    Link,
    Result<(), InterfaceError>,
) {
    let (after, r) = spec_factory_request(link, template, args);
    (
        after,
        match r {
            Err(e) => Err(e),
            Ok(_) => Ok(()),
        },
    )
}

/// A service exchange from templates whose reply is read with a template.
pub open spec fn spec_factory_ask(
    link: Link,
    template: Seq<char>,
    args: Seq<Value>,
    reply_template: Seq<char>,
) -> (Link, Result<Seq<Value>, InterfaceError>) {
    let (after, reply) = spec_factory_request(link, template, args);
    (
        after,
        match reply {
            Err(e) => Err(e),
            Ok(data) => lift_query(spec_scan_query(data, reply_template)),
        },
    )
}

/// What was read from memory in the values of a reply: the bytes without the
/// two of their checksum.
pub open spec fn memory_in(values: Seq<Value>) -> Result<Seq<u8>, InterfaceError> {
    match spec_array_at(values, 0) {
        Err(e) => Err(e),
        Ok(bytes) => if bytes.len() < 2 {
            Err(InterfaceError::CommunicationError(NetMDError::InvalidResult))
        } else {
            Ok(bytes.subrange(0, bytes.len() - 2))
        },
    }
}

/// The values of the request that writes memory: the kind of memory, the
/// address, the count of the bytes, the bytes and their checksum.
pub open spec fn write_values(address: u32, data: Seq<u8>, mem_type: MemoryType) -> Seq<Value> {
    seq![
        Value::Number(mem_type.spec_code() as i64),
        Value::Number(address as i64),
        Value::Number(data.len() as i64),
        Value::Array(data),
        Value::Number(spec_checksum(byte_words(data), count_of(data), 0) as i64),
    ]
}

/// A text for the display: in Shift-JIS, filled with zeros to ten bytes.
pub open spec fn display_text(text: Seq<char>) -> Result<Seq<u8>, InterfaceError> {
    if text.len() > TEXT_LIMIT || spec_to_sjis(text).len() > DISPLAY_SIZE {
        Err(InterfaceError::TitleTooLong)
    } else {
        Ok(
            spec_to_sjis(text) + Seq::new(
                (DISPLAY_SIZE - spec_to_sjis(text).len()) as nat,
                |i: int| 0u8,
            ),
        )
    }
}

/// The four bytes of the code of a device in the values of a reply.
pub open spec fn device_code_in(values: Seq<Value>) -> Result<(u8, u8, u8, u8), InterfaceError> {
    match (
        spec_number_at(values, 0),
        spec_number_at(values, 1),
        spec_number_at(values, 2),
        spec_number_at(values, 3),
    ) {
        (Ok(a), Ok(b), Ok(c), Ok(d)) => Ok((low8(a), low8(b), low8(c), low8(d))),
        (Err(e), _, _, _) => Err(e),
        (_, Err(e), _, _) => Err(e),
        (_, _, Err(e), _) => Err(e),
        (_, _, _, Err(e)) => Err(e),
    }
}

/// The asking for the code of a device.
pub open spec fn spec_get_device_code(link: Link) -> (Link, Result<(u8, u8, u8, u8), InterfaceError>) {
    let (after, reply) = spec_factory_ask(
        link,
        DEVICE_CODE_REQUEST@,
        Seq::empty(),
        DEVICE_CODE_REPLY@,
    );
    (
        after,
        match reply {
            Err(e) => Err(e),
            Ok(values) => device_code_in(values),
        },
    )
}

/// The four numbers of the switches of a device in the values of a reply.
pub open spec fn switch_status_in(values: Seq<Value>) -> Result<(u16, u8, u8, u16), InterfaceError> {
    match (
        spec_number_at(values, 0),
        spec_number_at(values, 1),
        spec_number_at(values, 2),
        spec_number_at(values, 3),
    ) {
        (Ok(a), Ok(b), Ok(c), Ok(d)) => Ok((low16(a), low8(b), low8(c), low16(d))),
        (Err(e), _, _, _) => Err(e),
        (_, Err(e), _, _) => Err(e),
        (_, _, Err(e), _) => Err(e),
        (_, _, _, Err(e)) => Err(e),
    }
}

/// The service side of a connection.
pub struct NetMDFactoryInterface<'a> {
    pub device: &'a mut NetMD,
}

impl<'a> NetMDFactoryInterface<'a> {
    /// The service side of a connection.
    pub fn new(device: &'a mut NetMD) -> (interface: NetMDFactoryInterface<'a>)
        ensures
            *interface.device == *old(device),
    {
        Self { device }
    }

    /// Sends a service request.
    pub fn send_command(&mut self, query: &[u8], test: bool) -> (r: Result<(), NetMDError>)
        requires
            old(self).device.wf(),
        ensures
            final(self).device.wf(),
            final(self).device.spec_model() == old(self).device.spec_model(),
            (final(self).device@, r) == spec_factory_send(old(self).device@, query@, test),
    {
        let mut final_buffer: Vec<u8> = Vec::new();
        if test {
            final_buffer.push(NetmdStatus::SpecificInquiry.code());
        } else {
            final_buffer.push(NetmdStatus::Control.code());
        }
        let mut body = slice_to_vec(query);
        final_buffer.append(&mut body);
        self.device.send_factory_command(final_buffer)
    }

    /// Reads the answer to a service request.
    pub fn read_reply(&mut self, accept_interim: bool) -> (r: Result<Vec<u8>, InterfaceError>)
        requires
            old(self).device.wf(),
        ensures
            final(self).device.wf(),
            final(self).device.spec_model() == old(self).device.spec_model(),
            (final(self).device@, bytes_of(r)) == spec_factory_answer(
                old(self).device@,
                accept_interim,
                0,
            ),
    {
        let mut current_attempt: u32 = 0;
        let ghost start = self.device@;
        loop
            invariant
                self.device.wf(),
                self.device.spec_model() == old(self).device.spec_model(),
                start == old(self).device@,
                current_attempt <= MAX_INTERIM_READ_ATTEMPTS,
                spec_factory_answer(start, accept_interim, 0) == spec_factory_answer(
                    self.device@,
                    accept_interim,
                    current_attempt as nat,
                ),
            decreases MAX_INTERIM_READ_ATTEMPTS - current_attempt,
        {
            let data = match self.device.read_factory_reply(None) {
                Ok(data) => data,
                Err(e) => {
                    return Err(InterfaceError::CommunicationError(e));
                },
            };
            if data.len() == 0 {
                return Err(InterfaceError::CommunicationError(NetMDError::InvalidResult));
            }
            let status = match NetmdStatus::try_from(data[0]) {
                Ok(status) => status,
                Err(e) => {
                    return Err(InterfaceError::InvalidStatus(e));
                },
            };
            match status {
                NetmdStatus::NotImplemented => {
                    return Err(InterfaceError::NotImplemented);
                },
                NetmdStatus::Rejected => {
                    return Err(InterfaceError::Rejected);
                },
                NetmdStatus::Interim => {
                    if accept_interim {
                        return Ok(data);
                    }
                    if current_attempt >= MAX_INTERIM_READ_ATTEMPTS {
                        return Err(InterfaceError::MaxRetries);
                    }
                    let sleep_time = backoff(INTERIM_RESPONSE_RETRY_INTERVAL, current_attempt);
                    match self.device.sleep(sleep_time) {
                        Ok(_) => {},
                        Err(e) => {
                            return Err(InterfaceError::CommunicationError(e));
                        },
                    }
                    current_attempt = current_attempt + 1;
                },
                NetmdStatus::Accepted => {
                    return Ok(data);
                },
                NetmdStatus::Implemented => {
                    return Ok(data);
                },
                _ => {
                    return Err(InterfaceError::Unknown);
                },
            }
        }
    }

    /// Makes one service exchange.
    pub fn send_query(&mut self, query: &[u8], test: bool, accept_interim: bool) -> (r: Result<
        Vec<u8>,
        InterfaceError,
    >)
        requires
            old(self).device.wf(),
        ensures
            final(self).device.wf(),
            final(self).device.spec_model() == old(self).device.spec_model(),
            (final(self).device@, bytes_of(r)) == spec_factory_query(
                old(self).device@,
                query@,
                test,
                accept_interim,
            ),
    {
        match self.send_command(query, test) {
            Err(e) => Err(InterfaceError::CommunicationError(e)),
            Ok(_) => self.read_reply(accept_interim),
        }
    }

    /// Makes a service exchange from a template.
    pub fn request(&mut self, template: &str, args: &Vec<QueryValue>) -> (r: Result<
        Vec<u8>,
        InterfaceError,
    >)
        requires
            old(self).device.wf(),
        ensures
            final(self).device.wf(),
            final(self).device.spec_model() == old(self).device.spec_model(),
            (final(self).device@, bytes_of(r)) == spec_factory_request(
                old(self).device@,
                template@,
                values_view(args@),
            ),
    {
        let query = match parse_template(template) {
            Err(e) => {
                return Err(InterfaceError::QueryError(e));
            },
            Ok(tokens) => match format_tokens(&tokens, args) {
                Err(e) => {
                    return Err(InterfaceError::QueryError(e));
                },
                Ok(query) => query,
            },
        };
        self.send_query(query.as_slice(), false, false)
    }

    /// Makes a service exchange from a template whose reply is not read
    /// further.
    pub fn command(&mut self, template: &str, args: &Vec<QueryValue>) -> (r: Result<
        (),
        InterfaceError,
    >)
        requires
            old(self).device.wf(),
        ensures
            final(self).device.wf(),
            final(self).device.spec_model() == old(self).device.spec_model(),
            (final(self).device@, r) == spec_factory_command(
                old(self).device@,
                template@,
                values_view(args@),
            ),
    {
        match self.request(template, args) {
            Err(e) => Err(e),
            Ok(_) => Ok(()),
        }
    }

    /// Makes a service exchange from templates and reads its reply.
    pub fn ask(&mut self, template: &str, args: &Vec<QueryValue>, reply_template: &str) -> (r: Result<
        Vec<QueryValue>,
        InterfaceError,
    >)
        requires
            old(self).device.wf(),
        ensures
            final(self).device.wf(),
            final(self).device.spec_model() == old(self).device.spec_model(),
            (final(self).device@, values_of(r)) == spec_factory_ask(
                old(self).device@,
                template@,
                values_view(args@),
                reply_template@,
            ),
    {
        let reply = match self.request(template, args) {
            Err(e) => {
                return Err(e);
            },
            Ok(reply) => reply,
        };
        match parse_template(reply_template) {
            Err(e) => Err(InterfaceError::QueryError(e)),
            Ok(tokens) => match scan_tokens(&tokens, &reply) {
                Err(e) => Err(InterfaceError::QueryError(e)),
                Ok(values) => Ok(values),
            },
        }
    }

    /// Opens the service commands.
    pub fn auth(&mut self) -> (r: Result<(), InterfaceError>)
        requires
            old(self).device.wf(),
        ensures
            final(self).device.wf(),
            final(self).device.spec_model() == old(self).device.spec_model(),
            (final(self).device@, r) == spec_factory_command(
                old(self).device@,
                AUTH_REQUEST@,
                Seq::empty(),
            ),
    {
        let args: Vec<QueryValue> = Vec::new();
        assert(values_view(args@) == Seq::<Value>::empty());
        self.command(AUTH_REQUEST, &args)
    }

    /// Opens or closes a range of memory.
    pub fn change_memory_state(
        &mut self,
        address: u32,
        length: u32,
        mem_type: MemoryType,
        state: MemoryOpenType,
        encrypted: bool,
    ) -> (r: Result<(), InterfaceError>)
        requires
            old(self).device.wf(),
        ensures
            final(self).device.wf(),
            final(self).device.spec_model() == old(self).device.spec_model(),
            (final(self).device@, r) == spec_factory_command(
                old(self).device@,
                CHANGE_MEMORY_STATE_REQUEST@,
                seq![
                    Value::Number(mem_type.spec_code() as i64),
                    Value::Number(address as i64),
                    Value::Number(length as i64),
                    Value::Number(state.spec_code() as i64),
                    Value::Number(
                        if encrypted {
                            1
                        } else {
                            0
                        },
                    ),
                ],
            ),
    {
        let encrypted: i64 = if encrypted {
            0x1
        } else {
            0x0
        };
        let mut args: Vec<QueryValue> = Vec::new();
        args.push(QueryValue::Number(mem_type.code() as i64));
        args.push(QueryValue::Number(address as i64));
        args.push(QueryValue::Number(length as i64));
        args.push(QueryValue::Number(state.code() as i64));
        args.push(QueryValue::Number(encrypted));
        assert(values_view(args@) == seq![
            Value::Number(mem_type.spec_code() as i64),
            Value::Number(address as i64),
            Value::Number(length as i64),
            Value::Number(state.spec_code() as i64),
            Value::Number(encrypted),
        ]);
        self.command(CHANGE_MEMORY_STATE_REQUEST, &args)
    }

    /// Reads memory.
    pub fn read(&mut self, address: u32, length: u32, mem_type: MemoryType) -> (r: Result<
        Vec<u8>,
        InterfaceError,
    >)
        requires
            old(self).device.wf(),
        ensures
            final(self).device.wf(),
            final(self).device.spec_model() == old(self).device.spec_model(),
            final(self).device@ == spec_factory_ask(
                old(self).device@,
                READ_REQUEST@,
                seq![
                    Value::Number(mem_type.spec_code() as i64),
                    Value::Number(address as i64),
                    Value::Number(length as i64),
                ],
                READ_REPLY@,
            ).0,
            bytes_of(r) == match spec_factory_ask(
                old(self).device@,
                READ_REQUEST@,
                seq![
                    Value::Number(mem_type.spec_code() as i64),
                    Value::Number(address as i64),
                    Value::Number(length as i64),
                ],
                READ_REPLY@,
            ).1 {
                Err(e) => Err(e),
                Ok(values) => memory_in(values),
            },
    {
        let mut args: Vec<QueryValue> = Vec::new();
        args.push(QueryValue::Number(mem_type.code() as i64));
        args.push(QueryValue::Number(address as i64));
        args.push(QueryValue::Number(length as i64));
        assert(values_view(args@) == seq![
            Value::Number(mem_type.spec_code() as i64),
            Value::Number(address as i64),
            Value::Number(length as i64),
        ]);
        let res = match self.ask(READ_REQUEST, &args, READ_REPLY) {
            Err(e) => {
                return Err(e);
            },
            Ok(res) => res,
        };
        match array_at(&res, 0) {
            Err(e) => Err(e),
            Ok(buf) => if buf.len() < 2 {
                Err(InterfaceError::CommunicationError(NetMDError::InvalidResult))
            } else {
                Ok(copy_range(&buf, 0, buf.len() - 2))
            },
        }
    }

    /// Writes memory.
    pub fn write(&mut self, address: u32, data: &[u8], mem_type: MemoryType) -> (r: Result<
        (),
        InterfaceError,
    >)
        requires
            old(self).device.wf(),
        ensures
            final(self).device.wf(),
            final(self).device.spec_model() == old(self).device.spec_model(),
            (final(self).device@, r) == spec_factory_command(
                old(self).device@,
                WRITE_REQUEST@,
                write_values(address, data@, mem_type),
            ),
    {
        let checksum = calculate_checksum(data, 0);
        let mut args: Vec<QueryValue> = Vec::new();
        args.push(QueryValue::Number(mem_type.code() as i64));
        args.push(QueryValue::Number(address as i64));
        args.push(QueryValue::Number(data.len() as i64));
        args.push(QueryValue::Array(slice_to_vec(data)));
        args.push(QueryValue::Number(checksum as i64));
        assert(values_view(args@) == write_values(address, data@, mem_type));
        self.command(WRITE_REQUEST, &args)
    }

    /// Reads from the metadata peripheral.
    pub fn read_metadata_peripheral(&mut self, sector: u32, offset: u32, length: u32) -> (r: Result<
        Vec<u8>,
        InterfaceError,
    >)
        requires
            old(self).device.wf(),
        ensures
            final(self).device.wf(),
            final(self).device.spec_model() == old(self).device.spec_model(),
            final(self).device@ == spec_factory_ask(
                old(self).device@,
                METADATA_REQUEST@,
                seq![
                    Value::Number(sector as i64),
                    Value::Number(offset as i64),
                    Value::Number(length as i64),
                ],
                READ_REPLY@,
            ).0,
            bytes_of(r) == match spec_factory_ask(
                old(self).device@,
                METADATA_REQUEST@,
                seq![
                    Value::Number(sector as i64),
                    Value::Number(offset as i64),
                    Value::Number(length as i64),
                ],
                READ_REPLY@,
            ).1 {
                Err(e) => Err(e),
                Ok(values) => spec_array_at(values, 0),
            },
    {
        let mut args: Vec<QueryValue> = Vec::new();
        args.push(QueryValue::Number(sector as i64));
        args.push(QueryValue::Number(offset as i64));
        args.push(QueryValue::Number(length as i64));
        assert(values_view(args@) == seq![
            Value::Number(sector as i64),
            Value::Number(offset as i64),
            Value::Number(length as i64),
        ]);
        match self.ask(METADATA_REQUEST, &args, READ_REPLY) {
            Err(e) => Err(e),
            Ok(res) => array_at(&res, 0),
        }
    }

    /// Writes to the metadata peripheral. The request has no place for
    /// bytes, so no request is made and the error of the template is
    /// returned.
    pub fn write_metadata_peripheral(&mut self, sector: u32, offset: u32, data: &[u8]) -> (r: Result<
        (),
        InterfaceError,
    >)
        requires
            old(self).device.wf(),
        ensures
            final(self).device.wf(),
            final(self).device.spec_model() == old(self).device.spec_model(),
            (final(self).device@, r) == spec_factory_command(
                old(self).device@,
                METADATA_REQUEST@,
                seq![
                    Value::Number(sector as i64),
                    Value::Number(offset as i64),
                    Value::Array(data@),
                ],
            ),
    {
        let mut args: Vec<QueryValue> = Vec::new();
        args.push(QueryValue::Number(sector as i64));
        args.push(QueryValue::Number(offset as i64));
        args.push(QueryValue::Array(slice_to_vec(data)));
        assert(values_view(args@) == seq![
            Value::Number(sector as i64),
            Value::Number(offset as i64),
            Value::Array(data@),
        ]);
        self.command(METADATA_REQUEST, &args)
    }

    /// Sets what the display shows.
    pub fn set_display_mode(&mut self, mode: DisplayMode) -> (r: Result<(), InterfaceError>)
        requires
            old(self).device.wf(),
        ensures
            final(self).device.wf(),
            final(self).device.spec_model() == old(self).device.spec_model(),
            (final(self).device@, r) == spec_factory_command(
                old(self).device@,
                DISPLAY_MODE_REQUEST@,
                seq![Value::Number(mode.spec_code() as i64)],
            ),
    {
        let mut args: Vec<QueryValue> = Vec::new();
        args.push(QueryValue::Number(mode.code() as i64));
        assert(values_view(args@) == seq![Value::Number(mode.spec_code() as i64)]);
        self.command(DISPLAY_MODE_REQUEST, &args)
    }

    /// Sets the text that the display shows in place of its own. The text
    /// must fit the display.
    pub fn set_display_override_string(&mut self, text: String, blink: bool) -> (r: Result<
        (),
        InterfaceError,
    >)
        requires
            old(self).device.wf(),
        ensures
            final(self).device.wf(),
            final(self).device.spec_model() == old(self).device.spec_model(),
            (final(self).device@, r) == match display_text(text@) {
                Err(e) => (old(self).device@, Err(e)),
                Ok(bytes) => spec_factory_command(
                    old(self).device@,
                    DISPLAY_STRING_REQUEST@,
                    seq![
                        Value::Number(0),
                        Value::Number(
                            if blink {
                                1
                            } else {
                                0
                            },
                        ),
                        Value::Array(bytes),
                    ],
                ),
            },
    {
        if text.as_str().unicode_len() > TEXT_LIMIT {
            return Err(InterfaceError::TitleTooLong);
        }
        let blink: i64 = if blink {
            0x1
        } else {
            0x0
        };
        let mut sjis_version = to_sjis(text.as_str());
        if sjis_version.len() > DISPLAY_SIZE {
            return Err(InterfaceError::TitleTooLong);
        }
        let ghost encoded = sjis_version@;
        let mut i: usize = sjis_version.len();
        while i < DISPLAY_SIZE
            invariant
                encoded.len() <= i <= DISPLAY_SIZE,
                sjis_version@ == encoded + Seq::new((i - encoded.len()) as nat, |j: int| 0u8),
            decreases DISPLAY_SIZE - i,
        {
            sjis_version.push(0);
            i = i + 1;
        }
        let ghost shown = sjis_version@;
        let mut args: Vec<QueryValue> = Vec::new();
        args.push(QueryValue::Number(0));
        args.push(QueryValue::Number(blink));
        args.push(QueryValue::Array(sjis_version));
        assert(values_view(args@) == seq![
            Value::Number(0),
            Value::Number(blink),
            Value::Array(shown),
        ]);
        self.command(DISPLAY_STRING_REQUEST, &args)
    }

    /// The version of the device.
    pub fn get_device_version(&mut self) -> (r: Result<u32, InterfaceError>)
        requires
            old(self).device.wf(),
        ensures
            final(self).device.wf(),
            final(self).device.spec_model() == old(self).device.spec_model(),
            final(self).device@ == spec_factory_ask(
                old(self).device@,
                DEVICE_VERSION_REQUEST@,
                Seq::empty(),
                DEVICE_VERSION_REPLY@,
            ).0,
            r == match spec_factory_ask(
                old(self).device@,
                DEVICE_VERSION_REQUEST@,
                Seq::empty(),
                DEVICE_VERSION_REPLY@,
            ).1 {
                Err(e) => Err::<u32, InterfaceError>(e),
                Ok(values) => match spec_number_at(values, 0) {
                    Err(e) => Err(e),
                    Ok(n) => Ok(low8(n) as u32),
                },
            },
    {
        let args: Vec<QueryValue> = Vec::new();
        assert(values_view(args@) == Seq::<Value>::empty());
        match self.ask(DEVICE_VERSION_REQUEST, &args, DEVICE_VERSION_REPLY) {
            Err(e) => Err(e),
            Ok(res) => match number_at(&res, 0) {
                Err(e) => Err(e),
                Ok(n) => Ok(to_low8(n) as u32),
            },
        }
    }

    /// The code of the device: its chip, its hardware, and two numbers of
    /// its version.
    pub fn get_device_code(&mut self) -> (r: Result<(u8, u8, u8, u8), InterfaceError>)
        requires
            old(self).device.wf(),
        ensures
            final(self).device.wf(),
            final(self).device.spec_model() == old(self).device.spec_model(),
            (final(self).device@, r) == spec_get_device_code(old(self).device@),
    {
        let args: Vec<QueryValue> = Vec::new();
        assert(values_view(args@) == Seq::<Value>::empty());
        let res = match self.ask(DEVICE_CODE_REQUEST, &args, DEVICE_CODE_REPLY) {
            Err(e) => {
                return Err(e);
            },
            Ok(res) => res,
        };
        match (number_at(&res, 0), number_at(&res, 1), number_at(&res, 2), number_at(&res, 3)) {
            (Ok(a), Ok(b), Ok(c), Ok(d)) => Ok((to_low8(a), to_low8(b), to_low8(c), to_low8(d))),
            (Err(e), _, _, _) => Err(e),
            (_, Err(e), _, _) => Err(e),
            (_, _, Err(e), _) => Err(e),
            (_, _, _, Err(e)) => Err(e),
        }
    }

    /// The state of the switches of the device.
    pub fn get_switch_status(&mut self) -> (r: Result<(u16, u8, u8, u16), InterfaceError>)
        requires
            old(self).device.wf(),
        ensures
            final(self).device.wf(),
            final(self).device.spec_model() == old(self).device.spec_model(),
            final(self).device@ == spec_factory_ask(
                old(self).device@,
                SWITCH_STATUS_REQUEST@,
                Seq::empty(),
                SWITCH_STATUS_REPLY@,
            ).0,
            r == match spec_factory_ask(
                old(self).device@,
                SWITCH_STATUS_REQUEST@,
                Seq::empty(),
                SWITCH_STATUS_REPLY@,
            ).1 {
                Err(e) => Err::<(u16, u8, u8, u16), InterfaceError>(e),
                Ok(values) => switch_status_in(values),
            },
    {
        let args: Vec<QueryValue> = Vec::new();
        assert(values_view(args@) == Seq::<Value>::empty());
        let res = match self.ask(SWITCH_STATUS_REQUEST, &args, SWITCH_STATUS_REPLY) {
            Err(e) => {
                return Err(e);
            },
            Ok(res) => res,
        };
        match (number_at(&res, 0), number_at(&res, 1), number_at(&res, 2), number_at(&res, 3)) {
            (Ok(a), Ok(b), Ok(c), Ok(d)) => Ok(
                (to_low16(a), to_low8(b), to_low8(c), to_low16(d)),
            ),
            (Err(e), _, _, _) => Err(e),
            (_, Err(e), _, _) => Err(e),
            (_, _, Err(e), _) => Err(e),
            (_, _, _, Err(e)) => Err(e),
        }
    }
}

} // verus!
