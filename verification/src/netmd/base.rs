//! The connection to a device: the transfers of the protocol, and the
//! waiting and retrying around them.
//!
//! A connection makes no transfer itself. An operation that needs one names
//! it and stops with [`NetMDError::Incomplete`]; whoever drives the
//! connection makes the transfer, hands over what came of it with
//! [`NetMD::complete`], and runs the operation again. The operation then
//! takes what was handed over, in order, and goes on from there. An operation
//! is therefore a function of what the device answered, and is stated as one.
use vstd::prelude::*;

verus! {

/// The endpoint that bulk data is written to.
pub const BULK_WRITE_ENDPOINT: u8 = 0x02;

/// The endpoint that bulk data is read from.
pub const BULK_READ_ENDPOINT: u8 = 0x81;

/// The vendor request that polls the device.
pub const REQUEST_POLL: u8 = 0x01;

/// The vendor request that carries a command.
pub const REQUEST_COMMAND: u8 = 0x80;

/// The vendor request that fetches a reply.
pub const REQUEST_REPLY: u8 = 0x81;

/// The vendor request of factory commands and replies.
pub const REQUEST_FACTORY: u8 = 0xff;

/// The most polls that wait for one reply.
pub const MAX_POLLS: u32 = 40;

/// The unit of the waits between polls, in milliseconds.
pub const READ_REPLY_RETRY_INTERVAL: u32 = 10;

/// The ID of a device, including the name.
#[derive(Clone, Copy, Debug, PartialEq, Eq)]
pub struct DeviceId {
    pub vendor_id: u16,
    pub product_id: u16,
    pub name: Option<&'static str>,
}

/// Whether a vendor and product are those of a known NetMD device.
pub open spec fn is_known_device(vendor_id: u16, product_id: u16) -> bool {
    ||| (vendor_id == 0x04dd && product_id == 0x7202)
    ||| (vendor_id == 0x04dd && product_id == 0x9013)
    ||| (vendor_id == 0x04dd && product_id == 0x9014)
    ||| (vendor_id == 0x054c && product_id == 0x0034)
    ||| (vendor_id == 0x054c && product_id == 0x0036)
    ||| (vendor_id == 0x054c && product_id == 0x0075)
    ||| (vendor_id == 0x054c && product_id == 0x007c)
    ||| (vendor_id == 0x054c && product_id == 0x0080)
    ||| (vendor_id == 0x054c && product_id == 0x0081)
    ||| (vendor_id == 0x054c && product_id == 0x0084)
    ||| (vendor_id == 0x054c && product_id == 0x0085)
    ||| (vendor_id == 0x054c && product_id == 0x0086)
    ||| (vendor_id == 0x054c && product_id == 0x008e)
    ||| (vendor_id == 0x054c && product_id == 0x0097)
    ||| (vendor_id == 0x054c && product_id == 0x00ad)
    ||| (vendor_id == 0x054c && product_id == 0x00c6)
    ||| (vendor_id == 0x054c && product_id == 0x00c7)
    ||| (vendor_id == 0x054c && product_id == 0x00c8)
    ||| (vendor_id == 0x054c && product_id == 0x00c9)
    ||| (vendor_id == 0x054c && product_id == 0x00ca)
    ||| (vendor_id == 0x054c && product_id == 0x00e7)
    ||| (vendor_id == 0x054c && product_id == 0x00eb)
    ||| (vendor_id == 0x054c && product_id == 0x0101)
    ||| (vendor_id == 0x054c && product_id == 0x0113)
    ||| (vendor_id == 0x054c && product_id == 0x013f)
    ||| (vendor_id == 0x054c && product_id == 0x014c)
    ||| (vendor_id == 0x054c && product_id == 0x017e)
    ||| (vendor_id == 0x054c && product_id == 0x0180)
    ||| (vendor_id == 0x054c && product_id == 0x0182)
    ||| (vendor_id == 0x054c && product_id == 0x0184)
    ||| (vendor_id == 0x054c && product_id == 0x0186)
    ||| (vendor_id == 0x054c && product_id == 0x0187)
    ||| (vendor_id == 0x054c && product_id == 0x0188)
    ||| (vendor_id == 0x054c && product_id == 0x018a)
    ||| (vendor_id == 0x054c && product_id == 0x01e9)
    ||| (vendor_id == 0x054c && product_id == 0x0219)
    ||| (vendor_id == 0x054c && product_id == 0x021b)
    ||| (vendor_id == 0x054c && product_id == 0x021d)
    ||| (vendor_id == 0x054c && product_id == 0x022c)
    ||| (vendor_id == 0x054c && product_id == 0x023c)
    ||| (vendor_id == 0x054c && product_id == 0x0286)
    ||| (vendor_id == 0x054c && product_id == 0x011a)
    ||| (vendor_id == 0x054c && product_id == 0x0148)
    ||| (vendor_id == 0x0b28 && product_id == 0x1004)
    ||| (vendor_id == 0x04da && product_id == 0x23b3)
    ||| (vendor_id == 0x04da && product_id == 0x23b6)
}

/// The name of a known device.
pub fn known_device_name(vendor_id: u16, product_id: u16) -> (name: Option<&'static str>)
    ensures
        name is Some == is_known_device(vendor_id, product_id),
{
    if vendor_id == 0x04dd && product_id == 0x7202 {
        Some("Sharp IM-MT899H")
    } else if vendor_id == 0x04dd && product_id == 0x9013 {
        Some("Sharp IM-DR400")
    } else if vendor_id == 0x04dd && product_id == 0x9014 {
        Some("Sharp IM-DR80")
    } else if vendor_id == 0x054c && product_id == 0x0034 {
        Some("Sony PCLK-XX")
    } else if vendor_id == 0x054c && product_id == 0x0036 {
        Some("Sony")
    } else if vendor_id == 0x054c && product_id == 0x0075 {
        Some("Sony MZ-N1")
    } else if vendor_id == 0x054c && product_id == 0x007c {
        Some("Sony")
    } else if vendor_id == 0x054c && product_id == 0x0080 {
        Some("Sony LAM-1")
    } else if vendor_id == 0x054c && product_id == 0x0081 {
        Some("Sony MDS-JB980/MDS-NT1/MDS-JE780")
    } else if vendor_id == 0x054c && product_id == 0x0084 {
        Some("Sony MZ-N505")
    } else if vendor_id == 0x054c && product_id == 0x0085 {
        Some("Sony MZ-S1")
    } else if vendor_id == 0x054c && product_id == 0x0086 {
        Some("Sony MZ-N707")
    } else if vendor_id == 0x054c && product_id == 0x008e {
        Some("Sony CMT-C7NT")
    } else if vendor_id == 0x054c && product_id == 0x0097 {
        Some("Sony PCGA-MDN1")
    } else if vendor_id == 0x054c && product_id == 0x00ad {
        Some("Sony CMT-L7HD")
    } else if vendor_id == 0x054c && product_id == 0x00c6 {
        Some("Sony MZ-N10")
    } else if vendor_id == 0x054c && product_id == 0x00c7 {
        Some("Sony MZ-N910")
    } else if vendor_id == 0x054c && product_id == 0x00c8 {
        Some("Sony MZ-N710/NF810")
    } else if vendor_id == 0x054c && product_id == 0x00c9 {
        Some("Sony MZ-N510/N610")
    } else if vendor_id == 0x054c && product_id == 0x00ca {
        Some("Sony MZ-NE410/NF520D")
    } else if vendor_id == 0x054c && product_id == 0x00e7 {
        Some("Sony CMT-M333NT/M373NT")
    } else if vendor_id == 0x054c && product_id == 0x00eb {
        Some("Sony MZ-NE810/NE910")
    } else if vendor_id == 0x054c && product_id == 0x0101 {
        Some("Sony LAM")
    } else if vendor_id == 0x054c && product_id == 0x0113 {
        Some("Aiwa AM-NX1")
    } else if vendor_id == 0x054c && product_id == 0x013f {
        Some("Sony MDS-S500")
    } else if vendor_id == 0x054c && product_id == 0x014c {
        Some("Aiwa AM-NX9")
    } else if vendor_id == 0x054c && product_id == 0x017e {
        Some("Sony MZ-NH1")
    } else if vendor_id == 0x054c && product_id == 0x0180 {
        Some("Sony MZ-NH3D")
    } else if vendor_id == 0x054c && product_id == 0x0182 {
        Some("Sony MZ-NH900")
    } else if vendor_id == 0x054c && product_id == 0x0184 {
        Some("Sony MZ-NH700/NH800")
    } else if vendor_id == 0x054c && product_id == 0x0186 {
        Some("Sony MZ-NH600")
    } else if vendor_id == 0x054c && product_id == 0x0187 {
        Some("Sony MZ-NH600D")
    } else if vendor_id == 0x054c && product_id == 0x0188 {
        Some("Sony MZ-N920")
    } else if vendor_id == 0x054c && product_id == 0x018a {
        Some("Sony LAM-3")
    } else if vendor_id == 0x054c && product_id == 0x01e9 {
        Some("Sony MZ-DH10P")
    } else if vendor_id == 0x054c && product_id == 0x0219 {
        Some("Sony MZ-RH10")
    } else if vendor_id == 0x054c && product_id == 0x021b {
        Some("Sony MZ-RH710/MZ-RH910")
    } else if vendor_id == 0x054c && product_id == 0x021d {
        Some("Sony CMT-AH10")
    } else if vendor_id == 0x054c && product_id == 0x022c {
        Some("Sony CMT-AH10")
    } else if vendor_id == 0x054c && product_id == 0x023c {
        Some("Sony DS-HMD1")
    } else if vendor_id == 0x054c && product_id == 0x0286 {
        Some("Sony MZ-RH1")
    } else if vendor_id == 0x054c && product_id == 0x011a {
        Some("Sony CMT-SE7")
    } else if vendor_id == 0x054c && product_id == 0x0148 {
        Some("Sony MDS-A1")
    } else if vendor_id == 0x0b28 && product_id == 0x1004 {
        Some("Kenwood MDX-J9")
    } else if vendor_id == 0x04da && product_id == 0x23b3 {
        Some("Panasonic SJ-MR250")
    } else if vendor_id == 0x04da && product_id == 0x23b6 {
        Some("Panasonic SJ-MR270")
    } else {
        None
    }
}

/// The devices that are known, for matching against what is plugged in.
pub fn device_ids() -> (ids: Vec<DeviceId>)
    ensures
        ids@.len() == 46,
{
    let mut ids: Vec<DeviceId> = Vec::new();
    ids.push(DeviceId { vendor_id: 0x04dd, product_id: 0x7202, name: Some("Sharp IM-MT899H") });
    ids.push(DeviceId { vendor_id: 0x04dd, product_id: 0x9013, name: Some("Sharp IM-DR400") });
    ids.push(DeviceId { vendor_id: 0x04dd, product_id: 0x9014, name: Some("Sharp IM-DR80") });
    ids.push(DeviceId { vendor_id: 0x054c, product_id: 0x0034, name: Some("Sony PCLK-XX") });
    ids.push(DeviceId { vendor_id: 0x054c, product_id: 0x0036, name: Some("Sony") });
    ids.push(DeviceId { vendor_id: 0x054c, product_id: 0x0075, name: Some("Sony MZ-N1") });
    ids.push(DeviceId { vendor_id: 0x054c, product_id: 0x007c, name: Some("Sony") });
    ids.push(DeviceId { vendor_id: 0x054c, product_id: 0x0080, name: Some("Sony LAM-1") });
    ids.push(DeviceId { vendor_id: 0x054c, product_id: 0x0081, name: Some("Sony MDS-JB980/MDS-NT1/MDS-JE780") });
    ids.push(DeviceId { vendor_id: 0x054c, product_id: 0x0084, name: Some("Sony MZ-N505") });
    ids.push(DeviceId { vendor_id: 0x054c, product_id: 0x0085, name: Some("Sony MZ-S1") });
    ids.push(DeviceId { vendor_id: 0x054c, product_id: 0x0086, name: Some("Sony MZ-N707") });
    ids.push(DeviceId { vendor_id: 0x054c, product_id: 0x008e, name: Some("Sony CMT-C7NT") });
    ids.push(DeviceId { vendor_id: 0x054c, product_id: 0x0097, name: Some("Sony PCGA-MDN1") });
    ids.push(DeviceId { vendor_id: 0x054c, product_id: 0x00ad, name: Some("Sony CMT-L7HD") });
    ids.push(DeviceId { vendor_id: 0x054c, product_id: 0x00c6, name: Some("Sony MZ-N10") });
    ids.push(DeviceId { vendor_id: 0x054c, product_id: 0x00c7, name: Some("Sony MZ-N910") });
    ids.push(DeviceId { vendor_id: 0x054c, product_id: 0x00c8, name: Some("Sony MZ-N710/NF810") });
    ids.push(DeviceId { vendor_id: 0x054c, product_id: 0x00c9, name: Some("Sony MZ-N510/N610") });
    ids.push(DeviceId { vendor_id: 0x054c, product_id: 0x00ca, name: Some("Sony MZ-NE410/NF520D") });
    ids.push(DeviceId { vendor_id: 0x054c, product_id: 0x00e7, name: Some("Sony CMT-M333NT/M373NT") });
    ids.push(DeviceId { vendor_id: 0x054c, product_id: 0x00eb, name: Some("Sony MZ-NE810/NE910") });
    ids.push(DeviceId { vendor_id: 0x054c, product_id: 0x0101, name: Some("Sony LAM") });
    ids.push(DeviceId { vendor_id: 0x054c, product_id: 0x0113, name: Some("Aiwa AM-NX1") });
    ids.push(DeviceId { vendor_id: 0x054c, product_id: 0x013f, name: Some("Sony MDS-S500") });
    ids.push(DeviceId { vendor_id: 0x054c, product_id: 0x014c, name: Some("Aiwa AM-NX9") });
    ids.push(DeviceId { vendor_id: 0x054c, product_id: 0x017e, name: Some("Sony MZ-NH1") });
    ids.push(DeviceId { vendor_id: 0x054c, product_id: 0x0180, name: Some("Sony MZ-NH3D") });
    ids.push(DeviceId { vendor_id: 0x054c, product_id: 0x0182, name: Some("Sony MZ-NH900") });
    ids.push(DeviceId { vendor_id: 0x054c, product_id: 0x0184, name: Some("Sony MZ-NH700/NH800") });
    ids.push(DeviceId { vendor_id: 0x054c, product_id: 0x0186, name: Some("Sony MZ-NH600") });
    ids.push(DeviceId { vendor_id: 0x054c, product_id: 0x0187, name: Some("Sony MZ-NH600D") });
    ids.push(DeviceId { vendor_id: 0x054c, product_id: 0x0188, name: Some("Sony MZ-N920") });
    ids.push(DeviceId { vendor_id: 0x054c, product_id: 0x018a, name: Some("Sony LAM-3") });
    ids.push(DeviceId { vendor_id: 0x054c, product_id: 0x01e9, name: Some("Sony MZ-DH10P") });
    ids.push(DeviceId { vendor_id: 0x054c, product_id: 0x0219, name: Some("Sony MZ-RH10") });
    ids.push(DeviceId { vendor_id: 0x054c, product_id: 0x021b, name: Some("Sony MZ-RH710/MZ-RH910") });
    ids.push(DeviceId { vendor_id: 0x054c, product_id: 0x021d, name: Some("Sony CMT-AH10") });
    ids.push(DeviceId { vendor_id: 0x054c, product_id: 0x022c, name: Some("Sony CMT-AH10") });
    ids.push(DeviceId { vendor_id: 0x054c, product_id: 0x023c, name: Some("Sony DS-HMD1") });
    ids.push(DeviceId { vendor_id: 0x054c, product_id: 0x0286, name: Some("Sony MZ-RH1") });
    ids.push(DeviceId { vendor_id: 0x054c, product_id: 0x011a, name: Some("Sony CMT-SE7") });
    ids.push(DeviceId { vendor_id: 0x054c, product_id: 0x0148, name: Some("Sony MDS-A1") });
    ids.push(DeviceId { vendor_id: 0x0b28, product_id: 0x1004, name: Some("Kenwood MDX-J9") });
    ids.push(DeviceId { vendor_id: 0x04da, product_id: 0x23b3, name: Some("Panasonic SJ-MR250") });
    ids.push(DeviceId { vendor_id: 0x04da, product_id: 0x23b6, name: Some("Panasonic SJ-MR270") });
    ids
}

/// An error of the USB stack.
#[derive(Clone, Copy, Debug, PartialEq, Eq, Structural)]
pub enum UsbError {
    /// The device was not found.
    DeviceNotFound,
    /// An error occured during a transfer.
    TransferError,
    /// There was an error communicating with the device.
    CommunicationError,
    /// The device was disconnected.
    Disconnected,
    /// The device has gone into an invalid state.
    Invalid,
}

/// An error of the connection.
#[derive(Clone, Copy, Debug, PartialEq, Eq, Structural)]
pub enum NetMDError {
    /// No reply was ready after the last poll.
    Timeout,
    /// A transfer gave back something of the wrong shape.
    InvalidResult,
    /// The device was busy when a command was to be sent.
    NotReady,
    /// The vendor and product are those of no known device.
    UnknownDevice { vendor_id: u16, product_id: u16 },
    /// The USB stack failed.
    UsbError(UsbError),
    /// The operation stopped at a transfer that has not been made yet; the
    /// connection names it.
    Incomplete,
}

/// A transfer for the USB stack to make, or a pause.
#[derive(Debug, Clone, PartialEq, Eq)]
pub enum Transfer {
    /// A vendor control transfer from the device's interface.
    ControlIn { request: u8, length: u16 },
    /// A vendor control transfer to the device's interface.
    ControlOut { request: u8, data: Vec<u8> },
    /// A bulk read.
    BulkIn { endpoint: u8, count: usize },
    /// A bulk write.
    BulkOut { endpoint: u8, data: Vec<u8> },
    /// A pause of so many milliseconds.
    Sleep { millis: u64 },
    /// A notice of progress to whoever asked for one: `done` of `total`.
    Progress { total: u64, done: u64 },
}

/// What a [`Transfer`] holds.
pub ghost enum TransferView {
    ControlIn { request: u8, length: u16 },
    ControlOut { request: u8, data: Seq<u8> },
    BulkIn { endpoint: u8, count: usize },
    BulkOut { endpoint: u8, data: Seq<u8> },
    Sleep { millis: u64 },
    Progress { total: u64, done: u64 },
}

impl View for Transfer {
    type V = TransferView;

    open spec fn view(&self) -> TransferView {
        match self {
            Transfer::ControlIn { request, length } => TransferView::ControlIn {
                request: *request,
                length: *length,
            },
            Transfer::ControlOut { request, data } => TransferView::ControlOut {
                request: *request,
                data: data@,
            },
            Transfer::BulkIn { endpoint, count } => TransferView::BulkIn {
                endpoint: *endpoint,
                count: *count,
            },
            Transfer::BulkOut { endpoint, data } => TransferView::BulkOut {
                endpoint: *endpoint,
                data: data@,
            },
            Transfer::Sleep { millis } => TransferView::Sleep { millis: *millis },
            Transfer::Progress { total, done } => TransferView::Progress {
                total: *total,
                done: *done,
            },
        }
    }
}

/// What came of a transfer.
#[derive(Debug, Clone, PartialEq, Eq)]
pub enum Completion {
    /// The bytes that a read gave.
    Data(Vec<u8>),
    /// The number of bytes that a write took.
    Written(usize),
    /// A pause is over, or a notice was passed on.
    Done,
    /// The USB stack failed.
    Failed(UsbError),
}

/// What a [`Completion`] holds.
pub ghost enum CompletionView {
    Data(Seq<u8>),
    Written(usize),
    Done,
    Failed(UsbError),
}

impl View for Completion {
    type V = CompletionView;

    open spec fn view(&self) -> CompletionView {
        match self {
            Completion::Data(d) => CompletionView::Data(d@),
            Completion::Written(n) => CompletionView::Written(*n),
            Completion::Done => CompletionView::Done,
            Completion::Failed(e) => CompletionView::Failed(*e),
        }
    }
}

impl Completion {
    /// A copy.
    pub fn duplicate(&self) -> (c: Completion)
        ensures
            c@ == self@,
    {
        match self {
            Completion::Data(d) => Completion::Data(d.clone()),
            Completion::Written(n) => Completion::Written(*n),
            Completion::Done => Completion::Done,
            Completion::Failed(e) => Completion::Failed(*e),
        }
    }
}

/// The state of a connection while an operation runs.
pub ghost struct Link {
    /// What came of the transfers made so far, in order.
    pub completions: Seq<CompletionView>,
    /// How many of them the operation has taken.
    pub cursor: nat,
    /// The transfers that the operation asked for and found made.
    pub asked: Seq<TransferView>,
    /// The transfer that the operation stopped at.
    pub pending: Option<TransferView>,
}

/// One transfer of an operation. Where the operation has stopped, it stays
/// stopped. Where what came of the transfer has been handed over, the
/// operation takes it. Else the operation stops at the transfer.
pub open spec fn spec_transfer(link: Link, transfer: TransferView) -> (Link, Option<CompletionView>) {
    if link.pending is Some {
        (link, None)
    } else if link.cursor < link.completions.len() {
        (
            Link { cursor: link.cursor + 1, asked: link.asked.push(transfer), ..link },
            Some(link.completions[link.cursor as int]),
        )
    } else {
        (Link { pending: Some(transfer), ..link }, None)
    }
}

/// The bytes that the last transfer taken gave, where it gave bytes. After
/// an operation that ended on a reply of the device these are the bytes of
/// that reply.
pub open spec fn spec_last_data(link: Link) -> Option<Seq<u8>> {
    if 0 < link.cursor <= link.completions.len() {
        match link.completions[link.cursor - 1] {
            CompletionView::Data(d) => Some(d),
            _ => None,
        }
    } else {
        None
    }
}

/// A transfer that gives nothing back but its success.
pub open spec fn spec_plain(link: Link, transfer: TransferView) -> (Link, Result<(), NetMDError>) {
    let (next, completion) = spec_transfer(link, transfer);
    (
        next,
        match completion {
            None => Err(NetMDError::Incomplete),
            Some(CompletionView::Done) => Ok(()),
            Some(CompletionView::Failed(e)) => Err(NetMDError::UsbError(e)),
            Some(_) => Err(NetMDError::InvalidResult),
        },
    )
}

/// A transfer that reads.
pub open spec fn spec_read(link: Link, transfer: TransferView) -> (Link, Result<Seq<u8>, NetMDError>) {
    let (next, completion) = spec_transfer(link, transfer);
    (
        next,
        match completion {
            None => Err(NetMDError::Incomplete),
            Some(CompletionView::Data(d)) => Ok(d),
            Some(CompletionView::Failed(e)) => Err(NetMDError::UsbError(e)),
            Some(_) => Err(NetMDError::InvalidResult),
        },
    )
}

/// A transfer that writes.
pub open spec fn spec_write(link: Link, transfer: TransferView) -> (Link, Result<usize, NetMDError>) {
    let (next, completion) = spec_transfer(link, transfer);
    (
        next,
        match completion {
            None => Err(NetMDError::Incomplete),
            Some(CompletionView::Written(n)) => Ok(n),
            Some(CompletionView::Failed(e)) => Err(NetMDError::UsbError(e)),
            Some(_) => Err(NetMDError::InvalidResult),
        },
    )
}

/// A poll: a control read of four bytes. The last two are the length of the
/// waiting reply, lowest byte first.
pub open spec fn spec_poll(link: Link) -> (Link, Result<(u16, Seq<u8>), NetMDError>) {
    let (next, read) = spec_read(
        link,
        TransferView::ControlIn { request: REQUEST_POLL, length: 4 },
    );
    (
        next,
        match read {
            Err(e) => Err(e),
            Ok(d) => if d.len() == 4 {
                Ok(((d[2] as int + 256 * (d[3] as int)) as u16, d))
            } else {
                Err(NetMDError::InvalidResult)
            },
        },
    )
}

/// The request of a command.
pub open spec fn command_request(factory: bool) -> u8 {
    if factory {
        REQUEST_FACTORY
    } else {
        REQUEST_COMMAND
    }
}

/// The request of a reply.
pub open spec fn reply_request(factory: bool) -> u8 {
    if factory {
        REQUEST_FACTORY
    } else {
        REQUEST_REPLY
    }
}

/// A command: a poll that must find the device idle, then a control write.
pub open spec fn spec_send_command(link: Link, command: Seq<u8>, factory: bool) -> (
    Link,
    Result<(), NetMDError>,
) {
    let (polled, status) = spec_poll(link);
    match status {
        Err(e) => (polled, Err(e)),
        Ok((_, raw)) => if raw[2] != 0 {
            (polled, Err(NetMDError::NotReady))
        } else {
            let (sent, written) = spec_write(
                polled,
                TransferView::ControlOut { request: command_request(factory), data: command },
            );
            (
                sent,
                match written {
                    Ok(_) => Ok(()),
                    Err(e) => Err(e),
                },
            )
        },
    }
}

/// Two to the power `k`.
pub open spec fn pow2(k: nat) -> int
    decreases k,
{
    if k == 0 {
        1
    } else {
        2 * pow2((k - 1) as nat)
    }
}

/// The wait after the failed attempt `attempt`, counted from zero:
/// `interval * (2^attempt - 1)` milliseconds, cut to 32 bits.
pub open spec fn spec_backoff(interval: u32, attempt: nat) -> u64 {
    ((interval * (pow2(attempt) - 1)) % 0x1_0000_0000) as u64
}

/// The powers of two grow.
pub proof fn lemma_pow2_bound(k: nat, limit: nat)
    requires
        k <= limit,
    ensures
        1 <= pow2(k) <= pow2(limit),
    decreases limit,
{
    if k < limit {
        lemma_pow2_bound(k, (limit - 1) as nat);
    } else if k > 0 {
        lemma_pow2_bound((k - 1) as nat, (k - 1) as nat);
    }
}

/// The wait after a failed attempt.
pub fn backoff(interval: u32, attempt: u32) -> (millis: u64)
    requires
        attempt < 64,
    ensures
        millis == spec_backoff(interval, attempt as nat),
{
    let mut power: u128 = 1;
    let mut i: u32 = 0;
    proof {
        reveal_with_fuel(pow2, 65);
        assert(pow2(64) == 0x1_0000_0000_0000_0000);
    }
    while i < attempt
        invariant
            i <= attempt < 64,
            power == pow2(i as nat),
            pow2(64) == 0x1_0000_0000_0000_0000,
        decreases attempt - i,
    {
        proof {
            lemma_pow2_bound((i + 1) as nat, 64);
        }
        power = power * 2;
        i = i + 1;
    }
    proof {
        lemma_pow2_bound(attempt as nat, 64);
        assert((interval as int) * (power - 1) <= 0xffff_ffff * 0x1_0000_0000_0000_0000)
            by (nonlinear_arith)
            requires
                0 <= interval <= 0xffff_ffff,
                0 <= power - 1 <= 0x1_0000_0000_0000_0000,
        ;
        assert(0 <= (interval as int) * (power - 1)) by (nonlinear_arith)
            requires
                0 <= interval,
                0 <= power - 1,
        ;
    }
    let product: u128 = (interval as u128) * (power - 1);
    (product % 0x1_0000_0000) as u64
}

/// The wait for a reply: up to forty polls, until one reports a length that is
/// not zero, with a pause after each that does not. The pauses grow with
/// [`spec_backoff`]. `attempt` polls have been made without success.
pub open spec fn spec_await_reply(link: Link, attempt: nat) -> (Link, Result<u16, NetMDError>)
    decreases MAX_POLLS - attempt,
{
    if attempt >= MAX_POLLS {
        (link, Err(NetMDError::Timeout))
    } else {
        let (polled, status) = spec_poll(link);
        match status {
            Err(e) => (polled, Err(e)),
            Ok((length, _)) => if length > 0 {
                (polled, Ok(length))
            } else if attempt + 1 == MAX_POLLS {
                (polled, Err(NetMDError::Timeout))
            } else {
                let (slept, pause) = spec_plain(
                    polled,
                    TransferView::Sleep {
                        millis: spec_backoff(READ_REPLY_RETRY_INTERVAL, attempt),
                    },
                );
                match pause {
                    Err(e) => (slept, Err(e)),
                    Ok(_) => spec_await_reply(slept, attempt + 1),
                }
            },
        }
    }
}

/// A reply: the wait for it, then a control read of its length, or of the
/// length given in its place.
pub open spec fn spec_read_reply(link: Link, factory: bool, override_length: Option<u16>) -> (
    Link,
    Result<Seq<u8>, NetMDError>,
) {
    let (ready, waited) = spec_await_reply(link, 0);
    match waited {
        Err(e) => (ready, Err(e)),
        Ok(length) => spec_read(
            ready,
            TransferView::ControlIn {
                request: reply_request(factory),
                length: match override_length {
                    Some(l) => l,
                    None => length,
                },
            },
        ),
    }
}

/// The size of the next bulk read.
pub open spec fn next_chunk(length: usize, chunksize: usize, done: usize) -> usize {
    if chunksize < length - done {
        chunksize
    } else {
        (length - done) as usize
    }
}

/// A bulk read in chunks: `done` bytes have been asked for, `read` has come.
/// Each chunk is followed by a notice of progress where one is wanted.
pub open spec fn spec_read_bulk_from(
    link: Link,
    length: usize,
    chunksize: usize,
    progress: bool,
    done: usize,
    read: Seq<u8>,
) -> (Link, Result<Seq<u8>, NetMDError>)
    decreases length - done,
{
    if done >= length || chunksize == 0 {
        (link, Ok(read))
    } else {
        let to_read = next_chunk(length, chunksize, done);
        let (after, chunk) = spec_read(
            link,
            TransferView::BulkIn { endpoint: BULK_READ_ENDPOINT, count: to_read },
        );
        match chunk {
            Err(e) => (after, Err(e)),
            Ok(bytes) => {
                let (told, notice) = if progress {
                    spec_plain(
                        after,
                        TransferView::Progress {
                            total: length as u64,
                            done: (done + to_read) as u64,
                        },
                    )
                } else {
                    (after, Ok(()))
                };
                match notice {
                    Err(e) => (told, Err(e)),
                    Ok(_) => spec_read_bulk_from(
                        told,
                        length,
                        chunksize,
                        progress,
                        (done + to_read) as usize,
                        read + bytes,
                    ),
                }
            },
        }
    }
}

/// A bulk write.
pub open spec fn spec_write_bulk(link: Link, data: Seq<u8>) -> (Link, Result<usize, NetMDError>) {
    spec_write(link, TransferView::BulkOut { endpoint: BULK_WRITE_ENDPOINT, data })
}

/// What a result with bytes holds.
pub open spec fn bytes_of<E>(r: Result<Vec<u8>, E>) -> Result<Seq<u8>, E> {
    match r {
        Ok(v) => Ok(v@),
        Err(e) => Err(e),
    }
}

/// Whether a transfer is a poll.
pub open spec fn is_poll(transfer: TransferView) -> bool {
    transfer matches TransferView::ControlIn { request, .. } && request == REQUEST_POLL
}

/// Whether a transfer fetches a reply.
pub open spec fn is_fetch(transfer: TransferView) -> bool {
    transfer matches TransferView::ControlIn { request, .. } && request != REQUEST_POLL
}

/// How many of the transfers from the place `from` on are polls.
pub open spec fn count_polls(asked: Seq<TransferView>, from: nat) -> nat
    decreases asked.len(),
{
    if asked.len() <= from {
        0
    } else {
        count_polls(asked.drop_last(), from) + if is_poll(asked.last()) {
            1nat
        } else {
            0nat
        }
    }
}

/// How many of the transfers from the place `from` on fetch a reply.
pub open spec fn count_fetches(asked: Seq<TransferView>, from: nat) -> nat
    decreases asked.len(),
{
    if asked.len() <= from {
        0
    } else {
        count_fetches(asked.drop_last(), from) + if is_fetch(asked.last()) {
            1nat
        } else {
            0nat
        }
    }
}

/// One transfer of an operation adds itself to what was asked, or nothing.
pub proof fn lemma_transfer_asks(link: Link, transfer: TransferView, from: nat)
    requires
        from <= link.asked.len(),
    ensures
        spec_transfer(link, transfer).0.asked.len() >= link.asked.len(),
        count_polls(spec_transfer(link, transfer).0.asked, from) <= count_polls(link.asked, from)
            + if is_poll(transfer) {
            1nat
        } else {
            0nat
        },
        count_fetches(spec_transfer(link, transfer).0.asked, from) <= count_fetches(
            link.asked,
            from,
        ) + if is_fetch(transfer) {
            1nat
        } else {
            0nat
        },
{
    assert(link.asked.push(transfer).drop_last() == link.asked);
}

/// The wait for a reply makes no more polls than are left of its forty, and
/// fetches nothing.
pub proof fn lemma_await_reply_polls(link: Link, attempt: nat, from: nat)
    requires
        attempt <= MAX_POLLS,
        from <= link.asked.len(),
    ensures
        spec_await_reply(link, attempt).0.asked.len() >= link.asked.len(),
        count_polls(spec_await_reply(link, attempt).0.asked, from) <= count_polls(
            link.asked,
            from,
        ) + MAX_POLLS - attempt,
        count_fetches(spec_await_reply(link, attempt).0.asked, from) <= count_fetches(
            link.asked,
            from,
        ),
    decreases MAX_POLLS - attempt,
{
    if attempt < MAX_POLLS {
        let poll = TransferView::ControlIn { request: REQUEST_POLL, length: 4 };
        lemma_transfer_asks(link, poll, from);
        let (polled, status) = spec_poll(link);
        assert(polled == spec_transfer(link, poll).0);
        match status {
            Err(_) => {},
            Ok((length, _)) => {
                if length == 0 && attempt + 1 < MAX_POLLS {
                    let pause = TransferView::Sleep {
                        millis: spec_backoff(READ_REPLY_RETRY_INTERVAL, attempt),
                    };
                    lemma_transfer_asks(polled, pause, from);
                    let (slept, paused) = spec_plain(polled, pause);
                    assert(slept == spec_transfer(polled, pause).0);
                    if paused is Ok {
                        lemma_await_reply_polls(slept, attempt + 1, from);
                    }
                }
            },
        }
    }
}

/// The reading of a reply makes at most forty polls and fetches at most one
/// reply.
pub proof fn lemma_read_reply_polls(
    link: Link,
    factory: bool,
    override_length: Option<u16>,
    from: nat,
)
    requires
        from <= link.asked.len(),
    ensures
        spec_read_reply(link, factory, override_length).0.asked.len() >= link.asked.len(),
        count_polls(spec_read_reply(link, factory, override_length).0.asked, from) <= count_polls(
            link.asked,
            from,
        ) + MAX_POLLS,
        count_fetches(spec_read_reply(link, factory, override_length).0.asked, from)
            <= count_fetches(link.asked, from) + 1,
{
    lemma_await_reply_polls(link, 0, from);
    let (ready, waited) = spec_await_reply(link, 0);
    match waited {
        Err(_) => {},
        Ok(length) => {
            let fetch = TransferView::ControlIn {
                request: reply_request(factory),
                length: match override_length {
                    Some(l) => l,
                    None => length,
                },
            };
            lemma_transfer_asks(ready, fetch, from);
            assert(spec_read_reply(link, factory, override_length).0 == spec_transfer(
                ready,
                fetch,
            ).0);
        },
    }
}

/// A low-level connection to a NetMD device.
///
/// With this you can send raw commands to the device and recieve raw data.
pub struct NetMD {
    model: DeviceId,
    completions: Vec<Completion>,
    cursor: usize,
    pending: Option<Transfer>,
    asked: Ghost<Seq<TransferView>>,
}

impl View for NetMD {
    type V = Link;

    closed spec fn view(&self) -> Link {
        Link {
            completions: Seq::new(self.completions@.len(), |i: int| self.completions@[i]@),
            cursor: self.cursor as nat,
            asked: self.asked@,
            pending: match self.pending {
                Some(t) => Some(t@),
                None => None,
            },
        }
    }
}

/// The state in which an operation starts: nothing handed over, nothing
/// asked.
pub open spec fn fresh_link() -> Link {
    Link { completions: Seq::empty(), cursor: 0, asked: Seq::empty(), pending: None }
}

impl NetMD {
    /// The invariant of a connection: the operation has taken no more than
    /// was handed over, and where it stopped it had taken all of it.
    pub closed spec fn wf(&self) -> bool {
        &&& self.cursor <= self.completions@.len()
        &&& self.asked@.len() == self.cursor
        &&& self.pending is Some ==> self.cursor == self.completions@.len()
    }

    /// The device that the connection is to: its IDs and its name in the
    /// list of the known devices. No operation changes it.
    pub closed spec fn spec_model(&self) -> DeviceId {
        self.model
    }

    /// The vendor ID of the device.
    pub open spec fn spec_vendor_id(&self) -> u16 {
        self.spec_model().vendor_id
    }

    /// The product ID of the device.
    pub open spec fn spec_product_id(&self) -> u16 {
        self.spec_model().product_id
    }

    /// The name of the device in the list of the known devices.
    pub open spec fn spec_device_name(&self) -> Option<&'static str> {
        self.spec_model().name
    }

    /// What the invariant says of the state.
    pub proof fn lemma_wf(&self)
        requires
            self.wf(),
        ensures
            self@.cursor <= self@.completions.len(),
            self@.asked.len() == self@.cursor,
            self@.pending is Some ==> self@.cursor == self@.completions.len(),
    {
    }

    /// A connection to the device with the given IDs, which must be those of
    /// a known device.
    pub fn new(vendor_id: u16, product_id: u16) -> (r: Result<NetMD, NetMDError>)
        ensures
            is_known_device(vendor_id, product_id) ==> (r matches Ok(device) && device.wf()
                && device@ == fresh_link() && device.spec_vendor_id() == vendor_id
                && device.spec_product_id() == product_id && device.spec_device_name()
                is Some),
            !is_known_device(vendor_id, product_id) ==> (r matches Err(e) && e
                == (NetMDError::UnknownDevice { vendor_id, product_id })),
    {
        match known_device_name(vendor_id, product_id) {
            None => Err(NetMDError::UnknownDevice { vendor_id, product_id }),
            Some(name) => {
                let device = NetMD {
                    model: DeviceId { vendor_id, product_id, name: Some(name) },
                    completions: Vec::new(),
                    cursor: 0,
                    pending: None,
                    asked: Ghost(Seq::empty()),
                };
                assert(device@.completions == Seq::<CompletionView>::empty());
                Ok(device)
            },
        }
    }

    /// Gets the device name, this is limited to the devices in the list
    pub fn device_name(&self) -> (name: Option<&'static str>)
        ensures
            name == self.spec_device_name(),
    {
        self.model.name
    }

    /// Gets the vendor id
    pub fn vendor_id(&self) -> (id: u16)
        ensures
            id == self.spec_vendor_id(),
    {
        self.model.vendor_id
    }

    /// Gets the product id
    pub fn product_id(&self) -> (id: u16)
        ensures
            id == self.spec_product_id(),
    {
        self.model.product_id
    }

    /// How many of the transfers that were made the running operation has
    /// not taken yet.
    pub fn remaining(&self) -> (n: usize)
        requires
            self.wf(),
        ensures
            n == self@.completions.len() - self@.cursor,
    {
        self.completions.len() - self.cursor
    }

    /// The bytes that the last transfer taken gave, where it gave bytes: the
    /// reply that an operation ended on, for one that the device refused.
    pub fn last_data(&self) -> (data: Option<Vec<u8>>)
        requires
            self.wf(),
        ensures
            match spec_last_data(self@) {
                Some(d) => data matches Some(v) && v@ == d,
                None => data is None,
            },
    {
        if self.cursor == 0 {
            return None;
        }
        assert(self@.completions[self.cursor - 1] == self.completions@[self.cursor - 1]@);
        match &self.completions[self.cursor - 1] {
            Completion::Data(d) => Some(d.clone()),
            _ => None,
        }
    }

    /// The transfer that the last operation stopped at, if it stopped.
    pub fn pending(&self) -> (transfer: Option<&Transfer>)
        ensures
            match self@.pending {
                Some(t) => transfer matches Some(p) && p@ == t,
                None => transfer is None,
            },
    {
        self.pending.as_ref()
    }

    /// Hands over what came of the transfer that the operation stopped at.
    /// The operation can then be run again and will get one transfer further.
    pub fn complete(&mut self, completion: Completion)
        requires
            old(self).wf(),
        ensures
            final(self).wf(),
            final(self).spec_model() == old(self).spec_model(),
            final(self)@ == (Link {
                completions: old(self)@.completions.push(completion@),
                cursor: 0,
                asked: Seq::empty(),
                pending: None,
            }),
    {
        self.completions.push(completion);
        self.cursor = 0;
        self.pending = None;
        self.asked = Ghost(Seq::empty());
        assert(self@.completions == old(self)@.completions.push(completion@));
    }

    /// Forgets what was handed over, so that another operation can start.
    pub fn restart(&mut self)
        ensures
            final(self).wf(),
            final(self).spec_model() == old(self).spec_model(),
            final(self)@ == fresh_link(),
    {
        self.completions = Vec::new();
        self.cursor = 0;
        self.pending = None;
        self.asked = Ghost(Seq::empty());
        assert(self@.completions == Seq::<CompletionView>::empty());
    }

    /// One transfer of an operation.
    pub fn transfer(&mut self, transfer: Transfer) -> (completion: Option<Completion>)
        requires
            old(self).wf(),
        ensures
            final(self).wf(),
            final(self).spec_model() == old(self).spec_model(),
            final(self)@ == spec_transfer(old(self)@, transfer@).0,
            match spec_transfer(old(self)@, transfer@).1 {
                Some(c) => completion matches Some(x) && x@ == c,
                None => completion is None,
            },
    {
        if self.pending.is_some() {
            None
        } else if self.cursor < self.completions.len() {
            let completion = self.completions[self.cursor].duplicate();
            self.cursor = self.cursor + 1;
            self.asked = Ghost(self.asked@.push(transfer@));
            assert(self@.completions == old(self)@.completions);
            Some(completion)
        } else {
            self.pending = Some(transfer);
            assert(self@.completions == old(self)@.completions);
            None
        }
    }

    fn plain(&mut self, transfer: Transfer) -> (r: Result<(), NetMDError>)
        requires
            old(self).wf(),
        ensures
            final(self).wf(),
            final(self).spec_model() == old(self).spec_model(),
            (final(self)@, r) == spec_plain(old(self)@, transfer@),
    {
        match self.transfer(transfer) {
            None => Err(NetMDError::Incomplete),
            Some(Completion::Done) => Ok(()),
            Some(Completion::Failed(e)) => Err(NetMDError::UsbError(e)),
            Some(_) => Err(NetMDError::InvalidResult),
        }
    }

    fn read(&mut self, transfer: Transfer) -> (r: Result<Vec<u8>, NetMDError>)
        requires
            old(self).wf(),
        ensures
            final(self).wf(),
            final(self).spec_model() == old(self).spec_model(),
            (final(self)@, bytes_of(r)) == spec_read(old(self)@, transfer@),
    {
        match self.transfer(transfer) {
            None => Err(NetMDError::Incomplete),
            Some(Completion::Data(d)) => Ok(d),
            Some(Completion::Failed(e)) => Err(NetMDError::UsbError(e)),
            Some(_) => Err(NetMDError::InvalidResult),
        }
    }

    fn write(&mut self, transfer: Transfer) -> (r: Result<usize, NetMDError>)
        requires
            old(self).wf(),
        ensures
            final(self).wf(),
            final(self).spec_model() == old(self).spec_model(),
            (final(self)@, r) == spec_write(old(self)@, transfer@),
    {
        match self.transfer(transfer) {
            None => Err(NetMDError::Incomplete),
            Some(Completion::Written(n)) => Ok(n),
            Some(Completion::Failed(e)) => Err(NetMDError::UsbError(e)),
            Some(_) => Err(NetMDError::InvalidResult),
        }
    }

    /// A transfer that gives nothing back but its success.
    pub fn transfer_done(&mut self, transfer: Transfer) -> (r: Result<(), NetMDError>)
        requires
            old(self).wf(),
        ensures
            final(self).wf(),
            final(self).spec_model() == old(self).spec_model(),
            (final(self)@, r) == spec_plain(old(self)@, transfer@),
    {
        self.plain(transfer)
    }

    /// A pause of `millis` milliseconds.
    pub fn sleep(&mut self, millis: u64) -> (r: Result<(), NetMDError>)
        requires
            old(self).wf(),
        ensures
            final(self).wf(),
            final(self).spec_model() == old(self).spec_model(),
            (final(self)@, r) == spec_plain(old(self)@, TransferView::Sleep { millis }),
    {
        self.plain(Transfer::Sleep { millis })
    }

    /// Poll the device to get either the result
    /// of the previous command, or the status
    pub fn poll(&mut self) -> (r: Result<(u16, [u8; 4]), NetMDError>)
        requires
            old(self).wf(),
        ensures
            final(self).wf(),
            final(self).spec_model() == old(self).spec_model(),
            final(self)@ == spec_poll(old(self)@).0,
            match spec_poll(old(self)@).1 {
                Ok((length, raw)) => r matches Ok((l, bytes)) && l == length && bytes@ == raw,
                Err(e) => r matches Err(x) && x == e,
            },
    {
        match self.read(Transfer::ControlIn { request: REQUEST_POLL, length: 4 }) {
            Err(e) => Err(e),
            Ok(d) => {
                if d.len() != 4 {
                    return Err(NetMDError::InvalidResult);
                }
                let raw: [u8; 4] = [d[0], d[1], d[2], d[3]];
                assert(raw@ == d@);
                let length: u16 = d[2] as u16 + 256 * (d[3] as u16);
                Ok((length, raw))
            },
        }
    }

    /// Send a control message to the device (Raw bytes)
    pub fn send_command(&mut self, command: Vec<u8>) -> (r: Result<(), NetMDError>)
        requires
            old(self).wf(),
        ensures
            final(self).wf(),
            final(self).spec_model() == old(self).spec_model(),
            (final(self)@, r) == spec_send_command(old(self)@, command@, false),
    {
        self.send_any_command(command, false)
    }

    /// Send a factory control message to the device (Raw bytes)
    pub fn send_factory_command(&mut self, command: Vec<u8>) -> (r: Result<(), NetMDError>)
        requires
            old(self).wf(),
        ensures
            final(self).wf(),
            final(self).spec_model() == old(self).spec_model(),
            (final(self)@, r) == spec_send_command(old(self)@, command@, true),
    {
        self.send_any_command(command, true)
    }

    fn send_any_command(&mut self, command: Vec<u8>, use_factory_command: bool) -> (r: Result<
        (),
        NetMDError,
    >)
        requires
            old(self).wf(),
        ensures
            final(self).wf(),
            final(self).spec_model() == old(self).spec_model(),
            (final(self)@, r) == spec_send_command(old(self)@, command@, use_factory_command),
    {
        match self.poll() {
            Err(e) => Err(e),
            Ok((_, raw)) => {
                if raw[2] != 0 {
                    return Err(NetMDError::NotReady);
                }
                let request = if use_factory_command {
                    REQUEST_FACTORY
                } else {
                    REQUEST_COMMAND
                };
                match self.write(Transfer::ControlOut { request, data: command }) {
                    Ok(_) => Ok(()),
                    Err(e) => Err(e),
                }
            },
        }
    }

    /// Waits for a reply and fetches it.
    pub fn read_reply(&mut self, override_length: Option<u16>) -> (r: Result<Vec<u8>, NetMDError>)
        requires
            old(self).wf(),
        ensures
            final(self).wf(),
            final(self).spec_model() == old(self).spec_model(),
            (final(self)@, bytes_of(r)) == spec_read_reply(old(self)@, false, override_length),
    {
        self.read_any_reply(false, override_length)
    }

    /// Waits for a factory reply and fetches it.
    pub fn read_factory_reply(&mut self, override_length: Option<u16>) -> (r: Result<
        Vec<u8>,
        NetMDError,
    >)
        requires
            old(self).wf(),
        ensures
            final(self).wf(),
            final(self).spec_model() == old(self).spec_model(),
            (final(self)@, bytes_of(r)) == spec_read_reply(old(self)@, true, override_length),
    {
        self.read_any_reply(true, override_length)
    }

    /// Poll to see if a message is ready, and once it is, retrieve it
    fn read_any_reply(&mut self, use_factory_command: bool, override_length: Option<u16>) -> (r:
        Result<Vec<u8>, NetMDError>)
        requires
            old(self).wf(),
        ensures
            final(self).wf(),
            final(self).spec_model() == old(self).spec_model(),
            (final(self)@, bytes_of(r)) == spec_read_reply(
                old(self)@,
                use_factory_command,
                override_length,
            ),
    {
        let mut length: u16 = 0;
        let mut attempt: u32 = 0;
        let ghost start = self@;
        while length == 0
            invariant
                self.wf(),
                self.spec_model() == old(self).spec_model(),
                attempt <= MAX_POLLS,
                start == old(self)@,
                length == 0 ==> attempt < MAX_POLLS && spec_await_reply(start, 0)
                    == spec_await_reply(self@, attempt as nat),
                length != 0 ==> spec_await_reply(start, 0) == (self@, Ok::<u16, NetMDError>(length)),
            decreases MAX_POLLS - attempt, if length == 0 { 1int } else { 0int },
        {
            match self.poll() {
                Err(e) => {
                    return Err(e);
                },
                Ok((polled, _)) => {
                    if polled > 0 {
                        length = polled;
                    } else {
                        if attempt + 1 == MAX_POLLS {
                            return Err(NetMDError::Timeout);
                        }
                        match self.sleep(backoff(READ_REPLY_RETRY_INTERVAL, attempt)) {
                            Err(e) => {
                                return Err(e);
                            },
                            Ok(_) => {},
                        }
                        attempt = attempt + 1;
                    }
                },
            }
        }
        let length = match override_length {
            Some(l) => l,
            None => length,
        };
        let request = if use_factory_command {
            REQUEST_FACTORY
        } else {
            REQUEST_REPLY
        };
        self.read(Transfer::ControlIn { request, length })
    }

    /// Reads `length` bytes from the bulk endpoint, at most `chunksize` at a
    /// time, with a notice of progress after each read where one is wanted.
    pub fn read_bulk(&mut self, length: usize, chunksize: usize, progress: bool) -> (r: Result<
        Vec<u8>,
        NetMDError,
    >)
        requires
            old(self).wf(),
        ensures
            final(self).wf(),
            final(self).spec_model() == old(self).spec_model(),
            (final(self)@, bytes_of(r)) == spec_read_bulk_from(
                old(self)@,
                length,
                chunksize,
                progress,
                0,
                Seq::empty(),
            ),
    {
        self.read_bulk_to_array(length, chunksize, progress)
    }

    /// Reads `length` bytes from the bulk endpoint, at most `chunksize` at a
    /// time, with a notice of progress after each read where one is wanted.
    pub fn read_bulk_to_array(&mut self, length: usize, chunksize: usize, progress: bool) -> (r:
        Result<Vec<u8>, NetMDError>)
        requires
            old(self).wf(),
        ensures
            final(self).wf(),
            final(self).spec_model() == old(self).spec_model(),
            (final(self)@, bytes_of(r)) == spec_read_bulk_from(
                old(self)@,
                length,
                chunksize,
                progress,
                0,
                Seq::empty(),
            ),
    {
        let mut final_result: Vec<u8> = Vec::new();
        let mut done: usize = 0;
        let ghost start = self@;
        while done < length && chunksize > 0
            invariant
                self.wf(),
                self.spec_model() == old(self).spec_model(),
                done <= length,
                start == old(self)@,
                spec_read_bulk_from(start, length, chunksize, progress, 0, Seq::empty())
                    == spec_read_bulk_from(
                    self@,
                    length,
                    chunksize,
                    progress,
                    done,
                    final_result@,
                ),
            decreases length - done,
        {
            let to_read = if chunksize < length - done {
                chunksize
            } else {
                length - done
            };
            done = done + to_read;
            match self.read(Transfer::BulkIn { endpoint: BULK_READ_ENDPOINT, count: to_read }) {
                Err(e) => {
                    return Err(e);
                },
                Ok(res) => {
                    if progress {
                        match self.plain(
                            Transfer::Progress { total: length as u64, done: done as u64 },
                        ) {
                            Err(e) => {
                                return Err(e);
                            },
                            Ok(_) => {},
                        }
                    }
                    let mut res = res;
                    final_result.append(&mut res);
                },
            }
        }
        Ok(final_result)
    }

    /// Writes bytes to the bulk endpoint.
    pub fn write_bulk(&mut self, data: Vec<u8>) -> (r: Result<usize, NetMDError>)
        requires
            old(self).wf(),
        ensures
            final(self).wf(),
            final(self).spec_model() == old(self).spec_model(),
            (final(self)@, r) == spec_write_bulk(old(self)@, data@),
    {
        self.write(Transfer::BulkOut { endpoint: BULK_WRITE_ENDPOINT, data })
    }
}

} // verus!
