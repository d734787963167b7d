use std::collections::VecDeque;

use minidisc::netmd::base::{Completion, NetMD, NetMDError, Transfer};
use minidisc::netmd::factory::factory_commands::{
    chip_letter, descriptive_code, display_string, get_descriptive_device_code, hex_upper,
    PatchPeripheralBase,
};
use minidisc::netmd::factory::factory_interface::{
    calculate_checksum, calculate_eeprom_checksum, DisplayMode, MemoryOpenType, MemoryType,
    NetMDFactoryInterface,
};
use minidisc::netmd::interface::InterfaceError;
use minidisc::netmd::query_utils::QueryError;

fn bytes(text: &str) -> Vec<u8> {
    let digits: Vec<u8> = text
        .chars()
        .filter(|c| !c.is_whitespace())
        .map(|c| c.to_digit(16).unwrap() as u8)
        .collect();
    digits.chunks(2).map(|p| p[0] * 16 + p[1]).collect()
}

/// A device on the bench: it answers each request with the next of its
/// replies and records the requests with their request numbers.
struct Bench {
    replies: VecDeque<Vec<u8>>,
    ready: VecDeque<Vec<u8>>,
    sent: Vec<(u8, Vec<u8>)>,
    fetched: Vec<u8>,
    sleeps: Vec<u64>,
}

impl Bench {
    fn new(replies: Vec<Vec<u8>>) -> Bench {
        Bench {
            replies: replies.into(),
            ready: VecDeque::new(),
            sent: Vec::new(),
            fetched: Vec::new(),
            sleeps: Vec::new(),
        }
    }

    fn perform(&mut self, transfer: &Transfer) -> Completion {
        match transfer {
            Transfer::ControlIn { request: 0x01, .. } => {
                let len = self.ready.front().map(|r| r.len()).unwrap_or(0) as u16;
                Completion::Data(vec![0, 0, (len & 0xff) as u8, (len >> 8) as u8])
            }
            Transfer::ControlIn { request, length } => {
                self.fetched.push(*request);
                let reply = self.ready.pop_front().unwrap_or_default();
                assert_eq!(*length as usize, reply.len());
                Completion::Data(reply)
            }
            Transfer::ControlOut { request, data } => {
                self.sent.push((*request, data.clone()));
                if let Some(reply) = self.replies.pop_front() {
                    self.ready.push_back(reply);
                }
                Completion::Written(data.len())
            }
            Transfer::Sleep { millis } => {
                self.sleeps.push(*millis);
                Completion::Done
            }
            _ => Completion::Done,
        }
    }
}

fn device() -> NetMD {
    NetMD::new(0x054c, 0x0075).unwrap()
}

fn run<T>(
    device: &mut NetMD,
    bench: &mut Bench,
    operation: impl Fn(&mut NetMDFactoryInterface<'_>) -> T,
) -> T {
    device.restart();
    loop {
        let result = {
            let mut interface = NetMDFactoryInterface::new(device);
            operation(&mut interface)
        };
        match device.pending().cloned() {
            None => return result,
            Some(transfer) => {
                let completion = bench.perform(&transfer);
                device.complete(completion);
            }
        }
    }
}

/// The checksum as the device computes it.
fn checksum_of(words: &[u32], count: u32, seed: u32) -> u32 {
    let mut crc = seed;
    for word in words {
        crc ^= (count & 0xffff0000) | word;
        for i in 0..16 {
            let top = crc & 0x8000;
            crc <<= i;
            if top != 0 {
                crc ^= 0x1021;
            }
        }
    }
    crc & 0xffff
}

#[test]
fn service_requests_go_through_the_service_channel() {
    let mut device = device();
    let mut bench = Bench::new(vec![bytes("09 1801 ff0e")]);
    assert_eq!(run(&mut device, &mut bench, |i| i.auth()), Ok(()));
    let mut expected = bytes("00 1801 ff0e");
    expected.extend_from_slice(b"Net MD Walkman");
    assert_eq!(bench.sent, vec![(0xff, expected)]);
    assert_eq!(bench.fetched, vec![0xff]);
}

#[test]
fn service_inquiries_open_with_their_status() {
    let mut device = device();
    let mut bench = Bench::new(vec![bytes("0c 1813 ff")]);
    assert_eq!(
        run(&mut device, &mut bench, |i| i.send_query(&[0x18, 0x13, 0xff], true, false)),
        Ok(bytes("0c 1813 ff"))
    );
    assert_eq!(bench.sent, vec![(0xff, bytes("02 1813 ff"))]);
}

#[test]
fn service_replies_are_judged() {
    let mut device = device();
    let mut bench = Bench::new(vec![bytes("0a 1801"), bytes("08 1801"), bytes("0b 1801"), bytes("77")]);
    assert_eq!(run(&mut device, &mut bench, |i| i.auth()), Err(InterfaceError::Rejected));
    assert_eq!(run(&mut device, &mut bench, |i| i.auth()), Err(InterfaceError::NotImplemented));
    assert_eq!(run(&mut device, &mut bench, |i| i.auth()), Err(InterfaceError::Unknown));
    assert!(matches!(
        run(&mut device, &mut bench, |i| i.auth()),
        Err(InterfaceError::InvalidStatus(_))
    ));
}

#[test]
fn service_replies_are_waited_for() {
    let mut device = device();
    let mut bench = Bench::new(vec![bytes("0f 1801")]);
    bench.ready.push_back(bytes("0f 1801"));
    bench.ready.push_back(bytes("0f 1801"));
    assert_eq!(
        run(&mut device, &mut bench, |i| i.read_reply(false)),
        Err(InterfaceError::CommunicationError(NetMDError::Timeout))
    );
    assert_eq!(bench.fetched, vec![0xff, 0xff]);
    assert_eq!(bench.sleeps[..5], [0, 100, 0, 10, 30]);

    let mut bench = Bench::new(vec![]);
    for _ in 0..5 {
        bench.ready.push_back(bytes("0f 1801"));
    }
    assert_eq!(
        run(&mut device, &mut bench, |i| i.read_reply(false)),
        Err(InterfaceError::MaxRetries)
    );
    assert_eq!(bench.sleeps, vec![0, 100, 300, 700]);

    let mut bench = Bench::new(vec![]);
    bench.ready.push_back(bytes("0f 1801"));
    assert_eq!(run(&mut device, &mut bench, |i| i.read_reply(true)), Ok(bytes("0f 1801")));
}

#[test]
fn memory_is_opened_and_closed() {
    let mut device = device();
    let mut bench = Bench::new(vec![bytes("09 1820 00"), bytes("09 1820 00")]);
    assert_eq!(
        run(&mut device, &mut bench, |i| i.change_memory_state(
            0x02000123,
            0x10,
            MemoryType::Eeprom2,
            MemoryOpenType::ReadWrite,
            true
        )),
        Ok(())
    );
    assert_eq!(
        run(&mut device, &mut bench, |i| i.change_memory_state(
            0x02000123,
            0x10,
            MemoryType::Mapped,
            MemoryOpenType::Close,
            false
        )),
        Ok(())
    );
    assert_eq!(
        bench.sent,
        vec![
            (0xff, bytes("00 1820 ff 02 23010002 10 03 01")),
            (0xff, bytes("00 1820 ff 00 23010002 10 00 00")),
        ]
    );
}

#[test]
fn memory_is_read_without_its_checksum() {
    let mut device = device();
    let mut bench = Bench::new(vec![
        bytes("09 1821 00 aa bbbbbbbb cc dddd 01020304 eeff"),
        bytes("09 1821 00 aa bbbbbbbb cc dddd ee"),
        bytes("09 1821 00 aa bbbbbbbb cc dd"),
    ]);
    assert_eq!(
        run(&mut device, &mut bench, |i| i.read(0x0000_0780, 4, MemoryType::Eeprom3)),
        Ok(vec![1, 2, 3, 4])
    );
    assert_eq!(bench.sent, vec![(0xff, bytes("00 1821 ff 03 80070000 04"))]);
    assert_eq!(
        run(&mut device, &mut bench, |i| i.read(0, 4, MemoryType::Mapped)),
        Err(InterfaceError::CommunicationError(NetMDError::InvalidResult))
    );
    assert!(matches!(
        run(&mut device, &mut bench, |i| i.read(0, 4, MemoryType::Mapped)),
        Err(InterfaceError::QueryError(_))
    ));
}

#[test]
fn memory_is_written_with_its_checksum() {
    let mut device = device();
    let mut bench = Bench::new(vec![bytes("09 1822 00")]);
    let data = [0x10, 0x20, 0x30];
    assert_eq!(
        run(&mut device, &mut bench, |i| i.write(0x0000_0780, &data, MemoryType::Mapped)),
        Ok(())
    );
    let checksum = checksum_of(&[0x10, 0x20, 0x30], 3, 0);
    let mut expected = bytes("00 1822 ff 00 80070000 03 0000 102030");
    expected.push((checksum & 0xff) as u8);
    expected.push((checksum >> 8) as u8);
    assert_eq!(bench.sent, vec![(0xff, expected)]);
}

#[test]
fn checksums_of_memory() {
    assert_eq!(calculate_checksum(&[], 0), 0);
    assert_eq!(calculate_checksum(&[], 0x1234_5678), 0x5678);
    assert_eq!(calculate_checksum(&[1, 2, 3, 4], 0), 0);
    for seed in [0u32, 1, 0x8000, 0xffff_ffff, 0x1234_5678] {
        for data in [vec![0x80u8], vec![1, 2, 3, 4], (0..=255).collect::<Vec<u8>>()] {
            let words: Vec<u32> = data.iter().map(|b| *b as u32).collect();
            assert_eq!(
                calculate_checksum(&data, seed),
                checksum_of(&words, data.len() as u32, seed)
            );
            let pairs: Vec<u32> = data.chunks(2).map(|p| p[0] as u32 + 256 * p.get(1).copied().unwrap_or(0) as u32).collect();
            if data.len() % 2 == 0 {
                assert_eq!(
                    calculate_eeprom_checksum(&data, seed),
                    checksum_of(&pairs, data.len() as u32, seed)
                );
            }
        }
    }
}

#[test]
fn metadata_peripheral() {
    let mut device = device();
    let mut bench = Bench::new(vec![bytes("09 1821 00 aa bbbbbbbb cc dddd 0a0b0c")]);
    assert_eq!(
        run(&mut device, &mut bench, |i| i.read_metadata_peripheral(0x0102, 0x0304, 3)),
        Ok(vec![0x0a, 0x0b, 0x0c])
    );
    assert_eq!(bench.sent, vec![(0xff, bytes("00 1824 ff 0201 0403 03"))]);

    let mut bench = Bench::new(vec![]);
    assert_eq!(
        run(&mut device, &mut bench, |i| i.write_metadata_peripheral(1, 2, &[9, 9])),
        Err(InterfaceError::QueryError(QueryError::TypeMismatch))
    );
    assert!(bench.sent.is_empty());
}

#[test]
fn display_shows_a_text() {
    let mut device = device();
    let mut bench = Bench::new(vec![bytes("09 1851 00"), bytes("09 1852 00")]);
    assert_eq!(
        run(&mut device, &mut bench, |i| display_string(i, "Hello".to_string(), true)),
        Ok(())
    );
    let mut text = bytes("00 1852 ff 00 01 00");
    text.extend_from_slice(b"Hello\0\0\0\0\0");
    assert_eq!(bench.sent, vec![(0xff, bytes("00 1851 ff 01")), (0xff, text)]);

    let mut bench = Bench::new(vec![bytes("09 1851 00")]);
    assert_eq!(
        run(&mut device, &mut bench, |i| i.set_display_mode(DisplayMode::Default)),
        Ok(())
    );
    assert_eq!(bench.sent, vec![(0xff, bytes("00 1851 ff 00"))]);

    let mut bench = Bench::new(vec![]);
    assert_eq!(
        run(&mut device, &mut bench, |i| i
            .set_display_override_string("far too long a text".to_string(), false)),
        Err(InterfaceError::TitleTooLong)
    );
    assert!(bench.sent.is_empty());

    let mut bench = Bench::new(vec![bytes("09 1852 00")]);
    assert_eq!(
        run(&mut device, &mut bench, |i| i
            .set_display_override_string("0123456789".to_string(), false)),
        Ok(())
    );
    let mut text = bytes("00 1852 ff 00 00 00");
    text.extend_from_slice(b"0123456789");
    assert_eq!(bench.sent, vec![(0xff, text)]);
}

#[test]
fn version_of_the_device() {
    let mut device = device();
    let mut bench = Bench::new(vec![bytes("09 1813 00 00 25")]);
    assert_eq!(run(&mut device, &mut bench, |i| i.get_device_version()), Ok(25));
    assert_eq!(bench.sent, vec![(0xff, bytes("00 1813 ff"))]);
}

#[test]
fn code_of_the_device() {
    let mut device = device();
    let mut bench = Bench::new(vec![bytes("09 1812 00 21 01 15 16"), bytes("09 1812 00 21 01 15 16")]);
    assert_eq!(run(&mut device, &mut bench, |i| i.get_device_code()), Ok((0x21, 1, 0x15, 16)));
    assert_eq!(
        run(&mut device, &mut bench, |i| get_descriptive_device_code(i)),
        Ok("S2.110".to_string())
    );
    assert_eq!(bench.sent, vec![(0xff, bytes("00 1812 ff")), (0xff, bytes("00 1812 ff"))]);
}

#[test]
fn codes_of_devices_as_text() {
    assert_eq!(descriptive_code((0x20, 0, 10, 0xab)), Ok("R1.0AB".to_string()));
    assert_eq!(descriptive_code((0x23, 0, 123, 9)), Ok("Hp1.209".to_string()));
    assert_eq!(descriptive_code((0x22, 0, 45, 0xff)), Ok("Hn4.5FF".to_string()));
    assert_eq!(descriptive_code((0x24, 0, 99, 0)), Ok("Hr9.900".to_string()));
    assert_eq!(descriptive_code((0x25, 0, 255, 0x10)), Ok("Hx2.510".to_string()));
    assert_eq!(descriptive_code((7, 0, 16, 0x1f)), Ok("71.61F".to_string()));
    assert_eq!(descriptive_code((200, 0, 16, 0x1f)), Ok("2001.61F".to_string()));
    assert_eq!(
        descriptive_code((0x20, 0, 9, 0)),
        Err(InterfaceError::CommunicationError(NetMDError::InvalidResult))
    );
    assert_eq!(chip_letter(0x21), Some("S"));
    assert_eq!(chip_letter(0x26), None);
    assert_eq!(hex_upper(11), 'B');
    assert_eq!(hex_upper(3), '3');
}

#[test]
fn switches_of_the_device() {
    let mut device = device();
    let mut bench = Bench::new(vec![bytes("09 1853 ff 0102 03 04 0506")]);
    assert_eq!(
        run(&mut device, &mut bench, |i| i.get_switch_status()),
        Ok((0x0102, 3, 4, 0x0506))
    );
    assert_eq!(bench.sent, vec![(0xff, bytes("00 1853 ff"))]);
}

#[test]
fn bases_of_the_peripherals() {
    assert_eq!(PatchPeripheralBase::NetMD.address(), 0x03802000);
    assert_eq!(PatchPeripheralBase::HiMD.address(), 0x03804000);
    assert_eq!(MemoryType::Eeprom3.code(), 3);
    assert_eq!(MemoryOpenType::Write.code(), 2);
    assert_eq!(DisplayMode::Override.code(), 1);
}
