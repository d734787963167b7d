use std::collections::VecDeque;

use cbc::cipher::block_padding::NoPadding;
use cbc::cipher::{BlockEncryptMut, KeyIvInit};
use minidisc::netmd::base::{Completion, NetMD, Transfer};
use minidisc::netmd::commands::NetMDContext;
use minidisc::netmd::encryption::{DataEncryptorInput, Encryptor};
use minidisc::netmd::interface::{
    retailmac, Channels, DiscFormat, Encoding, InterfaceError, MDSession, MDTrack, NetMDInterface,
    TrackFlag, WireFormat,
};
use minidisc::netmd::utils::{create_aea_header, create_wav_header, AeaOptions};

fn hex(text: &str) -> Vec<u8> {
    let digits: Vec<u8> = text
        .chars()
        .filter(|c| !c.is_whitespace())
        .map(|c| c.to_digit(16).unwrap() as u8)
        .collect();
    digits.chunks(2).map(|p| p[0] * 16 + p[1]).collect()
}

/// A recorder: it answers each command as `answer` says and records what
/// it is sent.
struct Recorder {
    answer: Box<dyn FnMut(&[u8]) -> Vec<Vec<u8>>>,
    ready: VecDeque<Vec<u8>>,
    bulk_in: VecDeque<u8>,
    commands: Vec<Vec<u8>>,
    bulk_out: Vec<Vec<u8>>,
    sleeps: Vec<u64>,
}

impl Recorder {
    fn new(answer: impl FnMut(&[u8]) -> Vec<Vec<u8>> + 'static) -> Recorder {
        Recorder {
            answer: Box::new(answer),
            ready: VecDeque::new(),
            bulk_in: VecDeque::new(),
            commands: Vec::new(),
            bulk_out: Vec::new(),
            sleeps: Vec::new(),
        }
    }

    fn perform(&mut self, transfer: &Transfer) -> Completion {
        match transfer {
            Transfer::ControlIn { request: 0x01, .. } => {
                let len = self.ready.front().map(|r| r.len()).unwrap_or(0) as u16;
                Completion::Data(vec![0, 0, (len & 0xff) as u8, (len >> 8) as u8])
            }
            Transfer::ControlIn { .. } => Completion::Data(self.ready.pop_front().unwrap()),
            Transfer::ControlOut { data, .. } => {
                self.commands.push(data.clone());
                let replies = (self.answer)(data);
                self.ready.extend(replies);
                Completion::Written(data.len())
            }
            Transfer::BulkIn { count, .. } => {
                let n = (*count).min(self.bulk_in.len());
                Completion::Data(self.bulk_in.drain(..n).collect())
            }
            Transfer::BulkOut { data, .. } => {
                self.bulk_out.push(data.clone());
                Completion::Written(data.len())
            }
            Transfer::Sleep { millis } => {
                self.sleeps.push(*millis);
                Completion::Done
            }
            Transfer::Progress { .. } => Completion::Done,
        }
    }
}

fn drive<T>(
    context: &mut NetMDContext,
    recorder: &mut Recorder,
    mut operation: impl FnMut(&mut NetMDContext) -> T,
) -> T {
    context.interface_mut().device.restart();
    loop {
        let result = operation(context);
        match context.interface().device.pending().cloned() {
            None => return result,
            Some(transfer) => {
                let completion = recorder.perform(&transfer);
                context.interface_mut().device.complete(completion);
            }
        }
    }
}

fn context() -> NetMDContext {
    NetMDContext::new(NetMD::new(0x054c, 0x0286).unwrap())
}

fn title_chunk(title: &[u8]) -> Vec<u8> {
    let mut reply = hex("09 1806 02201801 0000 3000 0a00 1000");
    reply.extend(((title.len() + 6) as u16).to_be_bytes());
    reply.extend(hex("0000 0000 000a"));
    reply.extend((title.len() as u16).to_be_bytes());
    reply.extend_from_slice(title);
    reply
}

/// A recorder with a disc of three tracks, the first two of them in a
/// group.
fn recorder_with_disc() -> Recorder {
    Recorder::new(|command| {
        if command.starts_with(&hex("00 1806 01101000")) {
            vec![hex("09 1806 01101000 1000 0001000b 10")]
        } else if command.starts_with(&hex("00 1806 02201801 00")) {
            if command[8] == 1 {
                vec![title_chunk(b"")]
            } else {
                vec![title_chunk(b"0;Album//1-2;Side A//")]
            }
        } else if command.starts_with(&hex("00 1806 02101000")) {
            vec![hex(
                "09 1806 02101000 3080 0300 1000 001d0000 001b 8003 0017 8000 \
                 0005 0000 10 00 00 0005 0001 20 00 00 0005 0001 10 00 00",
            )]
        } else if command.starts_with(&hex("00 1806 02101001")) {
            vec![hex("09 1806 02101001 3000 1000 1000 00000000 0006 0010000200 03")]
        } else if command.starts_with(&hex("00 1806 02201001")) {
            if command[9] == 0x30 && command[10] == 0x80 {
                let mut reply =
                    hex("09 1806 02201001 0000 3080 0700 1000 00000000 0008 00 07 0004 0110");
                reply.push(if command[8] == 2 { 0x92 } else { 0x90 });
                reply.push(if command[8] == 2 { 1 } else { 0 });
                vec![reply]
            } else {
                let mut reply =
                    hex("09 1806 02201001 0000 3000 0100 1000 00000000 000a 00 01 0006 0000 00");
                reply.push(3 + command[8]);
                reply.extend(hex("30 15"));
                vec![reply]
            }
        } else if command.starts_with(&hex("00 1806 01201001")) {
            let mut reply = hex("09 1806 01201001 0000 10 00 00010008");
            reply.push(if command[8] == 1 { 3 } else { 0 });
            vec![reply]
        } else if command.starts_with(&hex("00 1806 022018")) {
            let mut reply = hex("09 1806 02201802 0000 3000 0a00 1000 00000000 0000000a");
            if command[6] == 3 {
                reply.extend(hex("0000"));
            } else {
                reply.extend(hex("0006"));
                reply.extend_from_slice(b"track");
                reply.push(b'1' + command[8]);
            }
            vec![reply]
        } else {
            vec![hex("09 1808 10 18 01 01 00")]
        }
    })
}

#[test]
fn disc_is_listed() {
    let mut context = context();
    let mut recorder = recorder_with_disc();
    let disc = drive(&mut context, &mut recorder, |c| c.list_content()).unwrap();
    assert_eq!(disc.title(), "Album");
    assert_eq!(disc.full_width_title(), "");
    assert!(disc.writeable());
    assert!(!disc.write_protected());
    assert_eq!(disc.track_count(), 3);
    assert_eq!(disc.used(), 10 * 60 * 512);
    assert_eq!(disc.total(), (60 + 20) * 60 * 512);
    assert_eq!(disc.left(), (60 + 10) * 60 * 512);

    let groups = disc.groups();
    assert_eq!(groups.len(), 2);
    assert_eq!(groups[0].title(), &None);
    assert_eq!(groups[0].tracks().len(), 1);
    assert_eq!(groups[0].tracks()[0].index(), 2);
    assert_eq!(groups[1].title(), &Some("Side A".to_string()));
    assert_eq!(groups[1].tracks().len(), 2);

    let tracks = disc.tracks();
    let indices: Vec<u16> = tracks.iter().map(|t| t.index()).collect();
    assert_eq!(indices, vec![0, 1, 2]);
    assert_eq!(tracks[0].title(), "track1");
    assert_eq!(tracks[2].title(), "track3");
    assert_eq!(tracks[1].full_width_title(), "");
    assert_eq!(tracks[0].encoding(), Encoding::SP);
    assert_eq!(tracks[0].channels(), Channels::Stereo);
    assert_eq!(tracks[2].encoding(), Encoding::LP2);
    assert_eq!(tracks[2].channels(), Channels::Mono);
    assert_eq!(tracks[0].protected(), TrackFlag::Unprotected);
    assert_eq!(tracks[1].protected(), TrackFlag::Protected);
    let length = tracks[1].duration();
    assert_eq!((length.hours, length.minutes, length.seconds, length.frames), (0, 4, 30, 15));
    assert_eq!(length.as_frames(), (4 * 60 + 30) * 512 + 15);

    assert_eq!(disc.compile_disc_titles().0, "0;Album//1-2;Side A//");
}

#[test]
fn disc_is_renamed_on_the_device() {
    let mut context = context();
    let mut recorder = recorder_with_disc();
    assert_eq!(drive(&mut context, &mut recorder, |c| c.rename_disc("Live", None)), Ok(()));
    let written: Vec<&Vec<u8>> =
        recorder.commands.iter().filter(|c| c.starts_with(&hex("00 1807"))).collect();
    assert_eq!(written.len(), 1);
    let mut expected = hex("00 1807 02201801 0000 3000 0a00 5000 0014 0000 0015");
    expected.extend_from_slice(b"0;Live//1-2;Side A//");
    assert_eq!(written[0], &expected);

    let mut recorder = recorder_with_disc();
    assert_eq!(drive(&mut context, &mut recorder, |c| c.rename_disc("Album", None)), Ok(()));
    assert!(recorder.commands.iter().all(|c| !c.starts_with(&hex("00 1807"))));
}

/// A recorder that takes a track: it gives `device_nonce` in the exchange
/// of keys and is idle with a disc.
fn recorder_that_takes_a_track(device_nonce: [u8; 8], closing: Vec<u8>) -> Recorder {
    Recorder::new(move |command| {
        let secure = hex("00 1800 080046 f0030103");
        if command.starts_with(&secure) {
            let mut reply = hex("09 1800 080046 f0030103");
            match command[10] {
                0x80 => reply.extend(hex("80 00")),
                0x81 => reply.extend(hex("81 00")),
                0x11 => reply.extend(hex("11 00 0102030405060708")),
                0x12 => reply.extend(hex("12 01 0000 00000000")),
                0x20 => {
                    reply.extend(hex("20 00 000000"));
                    reply.extend(device_nonce);
                }
                0x21 => reply.extend(hex("21 00 000000")),
                0x22 => reply.extend(hex("22 00 0000")),
                0x28 => {
                    return vec![
                        hex("0f 1800 080046 f0030103 28 00 000100 1001 0000 00"),
                        closing.clone(),
                    ]
                }
                0x2b => reply.extend(hex("2b 00 0001")),
                0x48 => reply.extend(hex("48 00 00 1001 0002")),
                _ => return vec![hex("0a 1800")],
            }
            vec![reply]
        } else if command.starts_with(&hex("00 1809 8001 0330 8802")) {
            vec![hex(
                "09 1809 8001 0330 8802 0030 8805 0030 8806 00 1000 00000000 0006 00000000 c5ff 00",
            )]
        } else if command.starts_with(&hex("00 1809 8001 0430")) {
            vec![hex(
                "09 1809 8001 0430 8802 0030 8805 0030 0003 0030 0002 00 1000 00000000 \
                 000b 0002 0007 00 0000 00 00 00 00",
            )]
        } else if command.starts_with(&hex("00 1809 8001 0230")) {
            vec![hex(
                "09 1809 8001 0230 8800 0030 8804 00 1000 00090000 0009 00000000 40 00000000",
            )]
        } else if command.starts_with(&hex("00 1807")) {
            vec![hex("09 1807")]
        } else if command.starts_with(&hex("00 1806 022018")) {
            vec![hex("09 1806 02201802 0002 3000 0a00 1000 00000000 0000000a 0000")]
        } else if command.starts_with(&hex("00 18c5")) {
            vec![hex("09 18c5 00 00000000")]
        } else if command.starts_with(&hex("00 ff 010c")) {
            vec![hex("09 ff 010c ffff ffff ffff ffff ffff ffff")]
        } else if command.starts_with(&hex("00 ff 0100")) {
            vec![hex("09 ff 0100 ffff ffff ffff ffff ffff ffff")]
        } else {
            vec![hex("09 1808 10 18 01 01 00")]
        }
    })
}

#[test]
fn session_key_is_derived_from_the_nonces() {
    let host_nonce = vec![1, 2, 3, 4, 5, 6, 7, 8];
    let device_nonce = [0xa1, 0xa2, 0xa3, 0xa4, 0xa5, 0xa6, 0xa7, 0xa8];
    let mut context = context();
    let mut recorder = recorder_that_takes_a_track(device_nonce, vec![]);
    let mut session = MDSession::with_host_nonce(host_nonce.clone());
    assert_eq!(session.hex_session_key, None);
    let result = drive(&mut context, &mut recorder, |c| session.init(c.interface_mut()));
    assert_eq!(result, Ok(()));

    let mut value = host_nonce.clone();
    value.extend(device_nonce);
    let root_key = session.ekb_object.root_key();
    let expected = retailmac(&root_key, &value, &[0; 8]);
    assert_eq!(session.hex_session_key, Some(expected));

    let kinds: Vec<u8> = recorder.commands.iter().map(|c| c[10]).collect();
    assert_eq!(kinds, vec![0x80, 0x11, 0x12, 0x20]);
    assert_eq!(recorder.commands[3][15..], host_nonce[..]);

    let result = drive(&mut context, &mut recorder, |c| session.close(c.interface_mut()));
    assert_eq!(result, Ok(()));
    assert_eq!(session.hex_session_key, None);
    assert_eq!(recorder.commands.last().unwrap()[10], 0x21);
}

#[test]
fn short_nonces_of_the_device_end_the_session() {
    let mut context = context();
    let mut recorder = Recorder::new(|command| {
        let mut reply = hex("09 1800 080046 f0030103");
        match command[10] {
            0x80 => reply.extend(hex("80 00")),
            0x11 => reply.extend(hex("11 00 0102030405060708")),
            0x12 => reply.extend(hex("12 01 0000 00000000")),
            _ => reply.extend(hex("20 00 000000 010203")),
        }
        vec![reply]
    });
    let mut session = MDSession::with_host_nonce(vec![0; 8]);
    let result = drive(&mut context, &mut recorder, |c| session.init(c.interface_mut()));
    assert!(matches!(result, Err(InterfaceError::EncryptionError(_))));
    assert_eq!(session.hex_session_key, None);
}

#[test]
fn track_is_stored_on_the_disc() {
    let host_nonce = vec![9, 8, 7, 6, 5, 4, 3, 2];
    let device_nonce = [0x11, 0x22, 0x33, 0x44, 0x55, 0x66, 0x77, 0x88];
    let mut value = host_nonce.clone();
    value.extend(device_nonce);
    let session_key = retailmac(&MDSession::with_host_nonce(host_nonce.clone()).ekb_object.root_key(), &value, &[0; 8]);

    let identifiers: Vec<u8> = (100..132).collect();
    let mut sealed = identifiers.clone();
    cbc::Encryptor::<des::Des>::new(session_key.as_slice().into(), (&[0u8; 8]).into())
        .encrypt_padded_mut::<NoPadding>(&mut sealed, 32)
        .unwrap();
    let mut closing = hex("09 1800 080046 f0030103 28 00 000100 1001 0002 00 0000 00000000 00000000");
    closing.extend(&sealed);

    let mut context = context();
    let mut recorder = recorder_that_takes_a_track(device_nonce, closing);
    let mut session = MDSession::with_host_nonce(host_nonce);
    let track = MDTrack {
        title: "song".to_string(),
        format: WireFormat::LP2,
        data: vec![0x5a; 400],
        chunk_size: 0,
        full_width_title: None,
    };
    let packets = Encryptor::with_content_key(
        DataEncryptorInput {
            kek: [0x14, 0xe3, 0x83, 0x4e, 0xe2, 0xd3, 0xcc, 0xa5],
            frame_size: 192,
            data: track.data.clone(),
            chunk_size: 0,
        },
        vec![1, 2, 3, 4, 5, 6, 7, 8],
    );
    let result =
        drive(&mut context, &mut recorder, |c| c.download(&mut session, &track, &packets, false));
    assert_eq!(result, Ok((2, identifiers[0..8].to_vec(), identifiers[12..32].to_vec())));
    assert_eq!(session.hex_session_key, None);

    let sent: usize = recorder.bulk_out.iter().map(|p| p.len()).sum();
    assert_eq!(sent, 24 + 576);
    let secure: Vec<u8> = recorder
        .commands
        .iter()
        .filter(|c| c.starts_with(&hex("00 1800 080046 f0030103")))
        .map(|c| c[10])
        .collect();
    assert_eq!(
        secure,
        vec![0x21, 0x81, 0x2b, 0x80, 0x11, 0x12, 0x20, 0x22, 0x28, 0x48, 0x21]
    );
    let begin = recorder
        .commands
        .iter()
        .find(|c| c.starts_with(&hex("00 1800 080046 f0030103 28")))
        .unwrap();
    assert_eq!(begin[20..], hex("94 02 00000003 00000258")[..]);
    assert_eq!(recorder.commands.last().unwrap(), &hex("00 ff 0100 ffff ffff ffff ffff ffff ffff"));
    let title = recorder.commands.iter().find(|c| c.starts_with(&hex("00 1807"))).unwrap();
    assert_eq!(title[..11], hex("00 1807 02201802 0002 3000")[..]);
    assert!(title.ends_with(b"song"));
}

#[test]
fn audio_is_read_with_the_header_of_its_file() {
    let audio: Vec<u8> = (0..424).map(|i| (i % 199) as u8).collect();
    for (codec, format) in [(0x06u8, DiscFormat::SPStereo), (0x02, DiscFormat::LP2)] {
        let mut context = context();
        let mut recorder = Recorder::new(move |command| {
            if command.starts_with(&hex("00 1800 080046 f003010330")) {
                let mut first = hex("0f 1800 080046 f0030103 300000 1001 0002");
                first.push(codec);
                first.extend(hex("000001a8"));
                vec![first, hex("09 1800 080046 f003010330 0000 1001 0001 0000")]
            } else if command.starts_with(&hex("00 1806 022018")) {
                let mut reply = hex("09 1806 02201802 0000 3000 0a00 1000 00000000 0000000a 0004");
                reply.extend_from_slice(b"tune");
                vec![reply]
            } else {
                vec![hex("09 1808 10 18 01 01 00")]
            }
        });
        recorder.bulk_in = audio.iter().copied().collect();
        let (read, file) = drive(&mut context, &mut recorder, |c| c.upload(1, false)).unwrap();
        assert_eq!(read, format);
        let header = match format {
            DiscFormat::LP2 => create_wav_header(false, 424),
            _ => create_aea_header(AeaOptions {
                name: "tune",
                channels: 2,
                sound_groups: 2,
                group_start: 0,
                encrypted: 0,
                flags: &[0; 8],
            }),
        };
        assert_eq!(file[..header.len()], header[..]);
        assert_eq!(file[header.len()..], audio[..]);
    }
}

#[test]
fn interfaces_carry_their_device() {
    let interface = NetMDInterface::new(NetMD::new(0x04dd, 0x7202).unwrap());
    let context = NetMDContext::from_interface(interface);
    assert_eq!(context.interface().device.vendor_id(), 0x04dd);
    assert_eq!(context.interface().device.product_id(), 0x7202);
}
