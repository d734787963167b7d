use std::collections::VecDeque;

use cbc::cipher::block_padding::NoPadding;
use cbc::cipher::{BlockEncryptMut, KeyInit, KeyIvInit};
use minidisc::netmd::base::{Completion, NetMD, NetMDError, Transfer, UsbError};
use minidisc::netmd::commands::{NetMDContext, OperatingStatus};
use minidisc::netmd::encryption::{DataEncryptorInput, Encryptor};
use minidisc::netmd::interface::{
    Channels, Direction, DiscFormat, Encoding, EncryptionError, InterfaceError, NetMDInterface,
    NetMDLevel, SessionField, StatusError,
};
use minidisc::netmd::query_utils::QueryError;

const SONY: (u16, u16) = (0x054c, 0x0075);
const SHARP: (u16, u16) = (0x04dd, 0x7202);

fn hex(text: &str) -> Vec<u8> {
    let digits: Vec<u8> = text
        .chars()
        .filter(|c| !c.is_whitespace())
        .map(|c| c.to_digit(16).unwrap() as u8)
        .collect();
    digits.chunks(2).map(|p| p[0] * 16 + p[1]).collect()
}

/// A player that answers each command with the replies that `answer` gives
/// for it, and records what it is asked to do.
struct Player {
    answer: Box<dyn FnMut(&[u8]) -> Vec<Vec<u8>>>,
    ready: VecDeque<Vec<u8>>,
    bulk_in: VecDeque<u8>,
    commands: Vec<Vec<u8>>,
    bulk_out: Vec<Vec<u8>>,
    sleeps: Vec<u64>,
    progress: Vec<(u64, u64)>,
    polls: usize,
    busy: bool,
    broken: bool,
}

impl Player {
    fn new(answer: impl FnMut(&[u8]) -> Vec<Vec<u8>> + 'static) -> Player {
        Player {
            answer: Box::new(answer),
            ready: VecDeque::new(),
            bulk_in: VecDeque::new(),
            commands: Vec::new(),
            bulk_out: Vec::new(),
            sleeps: Vec::new(),
            progress: Vec::new(),
            polls: 0,
            busy: false,
            broken: false,
        }
    }

    fn scripted(replies: Vec<Vec<Vec<u8>>>) -> Player {
        let mut replies: VecDeque<Vec<Vec<u8>>> = replies.into();
        Player::new(move |_| replies.pop_front().unwrap_or_default())
    }

    fn perform(&mut self, transfer: &Transfer) -> Completion {
        if self.broken {
            return Completion::Failed(UsbError::Disconnected);
        }
        match transfer {
            Transfer::ControlIn { request: 0x01, .. } => {
                self.polls += 1;
                let len = self.ready.front().map(|r| r.len()).unwrap_or(0) as u16;
                let busy = if self.busy { 1 } else { (len & 0xff) as u8 };
                Completion::Data(vec![0, 0, busy, (len >> 8) as u8])
            }
            Transfer::ControlIn { length, .. } => {
                let reply = self.ready.pop_front().unwrap_or_default();
                assert_eq!(*length as usize, reply.len());
                Completion::Data(reply)
            }
            Transfer::ControlOut { data, .. } => {
                self.commands.push(data.clone());
                let replies = (self.answer)(data);
                self.ready.extend(replies);
                Completion::Written(data.len())
            }
            Transfer::BulkIn { count, .. } => {
                let n = (*count).min(self.bulk_in.len());
                Completion::Data(self.bulk_in.drain(..n).collect())
            }
            Transfer::BulkOut { data, .. } => {
                self.bulk_out.push(data.clone());
                Completion::Written(data.len())
            }
            Transfer::Sleep { millis } => {
                self.sleeps.push(*millis);
                Completion::Done
            }
            Transfer::Progress { total, done } => {
                self.progress.push((*total, *done));
                Completion::Done
            }
        }
    }
}

fn interface(ids: (u16, u16)) -> NetMDInterface {
    NetMDInterface::new(NetMD::new(ids.0, ids.1).unwrap())
}

fn run<T>(
    interface: &mut NetMDInterface,
    player: &mut Player,
    operation: impl Fn(&mut NetMDInterface) -> T,
) -> T {
    interface.device.restart();
    loop {
        let result = operation(interface);
        match interface.device.pending().cloned() {
            None => return result,
            Some(transfer) => {
                let completion = player.perform(&transfer);
                interface.device.complete(completion);
            }
        }
    }
}

fn run_context<T>(
    context: &mut NetMDContext,
    player: &mut Player,
    operation: impl Fn(&mut NetMDContext) -> T,
) -> T {
    context.interface_mut().device.restart();
    loop {
        let result = operation(context);
        match context.interface().device.pending().cloned() {
            None => return result,
            Some(transfer) => {
                let completion = player.perform(&transfer);
                context.interface_mut().device.complete(completion);
            }
        }
    }
}

fn accepted() -> Vec<u8> {
    hex("09 1808 10 18 01 01 00")
}

fn title_chunk(first: bool, title: &[u8], total: usize) -> Vec<u8> {
    let mut reply = hex("09 1806 02201801 0000 3000 0a00 1000");
    if first {
        reply.extend(((title.len() + 6) as u16).to_be_bytes());
        reply.extend(hex("0000 0000 000a"));
        reply.extend((total as u16).to_be_bytes());
    } else {
        reply.extend((title.len() as u16).to_be_bytes());
        reply.extend(hex("0000"));
    }
    reply.extend_from_slice(title);
    reply
}

fn track_count_reply(count: u8) -> Vec<u8> {
    let mut reply = hex("09 1806 02101001 3000 1000 1000 00000000 0006 0010000200");
    reply.push(count);
    reply
}

/// A player with a disc: it gives its raw titles in chunks of up to 20
/// bytes, counts its tracks, and takes new titles.
fn player_with_disc(half: &'static str, wide: &'static [u8], tracks: u8) -> Player {
    Player::new(move |command| {
        if command.starts_with(&hex("00 1806 02201801 00")) {
            let title: &[u8] = if command[8] == 1 { wide } else { half.as_bytes() };
            let done = u16::from_be_bytes([command[17], command[18]]) as usize;
            let first = command[15] == 0 && command[16] == 0 && done == 0;
            let end = (done + 20).min(title.len());
            vec![title_chunk(first, &title[done..end], title.len())]
        } else if command.starts_with(&hex("00 1806 02101001")) {
            vec![track_count_reply(tracks)]
        } else {
            vec![accepted()]
        }
    })
}

#[test]
fn unknown_devices_are_refused() {
    assert_eq!(
        NetMD::new(0x1234, 0x5678).err(),
        Some(NetMDError::UnknownDevice { vendor_id: 0x1234, product_id: 0x5678 })
    );
    let device = NetMD::new(0x054c, 0x0286).unwrap();
    assert_eq!(device.device_name(), Some("Sony MZ-RH1"));
    assert_eq!(device.vendor_id(), 0x054c);
    assert_eq!(device.product_id(), 0x0286);
    assert_eq!(minidisc::netmd::base::device_ids().len(), 46);
}

#[test]
fn play_sends_its_command() {
    let mut interface = interface(SONY);
    let mut player = Player::scripted(vec![vec![hex("09 18c3 00 75 000000")]]);
    assert_eq!(run(&mut interface, &mut player, |i| i.play()), Ok(()));
    assert_eq!(player.commands, vec![hex("00 18c3 ff 75 000000")]);
    assert_eq!(player.polls, 2);
    assert!(player.sleeps.is_empty());
}

#[test]
fn playback_commands() {
    for (code, reply) in [(0x7du8, "09 18c3 00 7d 000000"), (0x39, "09 18c3 00 39 000000"), (0x49, "09 18c3 00 49 000000")] {
        let mut interface = interface(SONY);
        let mut player = Player::scripted(vec![vec![hex(reply)]]);
        let result = run(&mut interface, &mut player, |i| match code {
            0x7d => i.pause(),
            0x39 => i.fast_forward(),
            _ => i.rewind(),
        });
        assert_eq!(result, Ok(()));
        assert_eq!(player.commands[0][4], code);
    }
    let mut interface = interface(SONY);
    let mut player = Player::scripted(vec![vec![hex("09 18c5 00 00000000")]]);
    assert_eq!(run(&mut interface, &mut player, |i| i.stop()), Ok(()));
    assert_eq!(player.commands, vec![hex("00 18c5 ff 00000000")]);
}

#[test]
fn reply_that_differs_is_an_error() {
    let mut interface = interface(SONY);
    let mut player = Player::scripted(vec![vec![hex("09 18c3 00 76 000001")]]);
    assert_eq!(
        run(&mut interface, &mut player, |i| i.play()),
        Err(InterfaceError::QueryError(QueryError::InputMismatch {
            index: 7,
            expected: 0,
            actual: 1
        }))
    );
}

#[test]
fn status_bytes_decide() {
    for (reply, expected) in [
        ("08 18c3", InterfaceError::NotImplemented),
        ("0a 18c3", InterfaceError::Rejected),
        ("0b 18c3", InterfaceError::Unknown),
        ("0d 18c3", InterfaceError::Unknown),
        ("00 18c3", InterfaceError::Unknown),
        ("55 18c3", InterfaceError::InvalidStatus(StatusError(0x55))),
    ] {
        let mut interface = interface(SONY);
        let mut player = Player::scripted(vec![vec![hex(reply)]]);
        assert_eq!(run(&mut interface, &mut player, |i| i.play()), Err(expected));
    }
    let mut interface = interface(SONY);
    let mut player = Player::scripted(vec![vec![hex("0c 18c3 00 75 000000")]]);
    assert_eq!(run(&mut interface, &mut player, |i| i.play()), Ok(()));
}

#[test]
fn interim_replies_are_waited_out() {
    let interim = hex("0f 18c3 00 75 000000");
    let done = hex("09 18c3 00 75 000000");
    let mut interface = interface(SONY);
    let mut player = Player::scripted(vec![vec![
        interim.clone(),
        interim.clone(),
        interim.clone(),
        done.clone(),
    ]]);
    assert_eq!(
        run(&mut interface, &mut player, |i| i.send_query(&hex("18c3 ff 75 000000"), false, false)),
        Ok(done.clone())
    );
    assert_eq!(player.sleeps, vec![0, 100, 300]);

    let mut player = Player::scripted(vec![vec![
        interim.clone(),
        interim.clone(),
        interim.clone(),
        interim.clone(),
        done.clone(),
    ]]);
    assert_eq!(run(&mut interface, &mut player, |i| i.play()), Ok(()));
    assert_eq!(player.sleeps, vec![0, 100, 300, 700]);

    let mut player = Player::scripted(vec![vec![interim.clone(); 6]]);
    assert_eq!(
        run(&mut interface, &mut player, |i| i.play()),
        Err(InterfaceError::MaxRetries)
    );
    assert_eq!(player.sleeps, vec![0, 100, 300, 700]);
    assert_eq!(player.ready.len(), 1);
}

#[test]
fn interim_replies_are_taken_where_they_are_wanted() {
    let interim = hex("0f 18c3 00 75 000000");
    let mut interface = interface(SONY);
    let mut player = Player::scripted(vec![vec![interim.clone()]]);
    assert_eq!(
        run(&mut interface, &mut player, |i| i.send_query(&hex("18c3"), false, true)),
        Ok(interim)
    );
    assert!(player.sleeps.is_empty());
}

#[test]
fn polls_give_up() {
    let mut interface = interface(SONY);
    let mut player = Player::scripted(vec![vec![]]);
    assert_eq!(
        run(&mut interface, &mut player, |i| i.play()),
        Err(InterfaceError::CommunicationError(NetMDError::Timeout))
    );
    assert_eq!(player.polls, 1 + 40);
    assert_eq!(player.sleeps.len(), 39);
    assert_eq!(player.sleeps[0..5], [0, 10, 30, 70, 150]);
    assert_eq!(player.sleeps[31], ((10u64 * ((1u64 << 31) - 1)) % (1u64 << 32)));
    assert_eq!(player.sleeps[38], (1u64 << 32) - 10);
}

#[test]
fn busy_devices_get_no_command() {
    let mut interface = interface(SONY);
    let mut player = Player::scripted(vec![]);
    player.busy = true;
    assert_eq!(
        run(&mut interface, &mut player, |i| i.play()),
        Err(InterfaceError::CommunicationError(NetMDError::NotReady))
    );
    assert!(player.commands.is_empty());
}

#[test]
fn failures_of_the_bus_surface() {
    let mut interface = interface(SONY);
    let mut player = Player::scripted(vec![]);
    player.broken = true;
    assert_eq!(
        run(&mut interface, &mut player, |i| i.play()),
        Err(InterfaceError::CommunicationError(NetMDError::UsbError(UsbError::Disconnected)))
    );
}

#[test]
fn test_commands_are_inquiries() {
    let mut interface = interface(SONY);
    let mut player = Player::scripted(vec![vec![hex("0c 18c1 ff 6000")]]);
    assert_eq!(run(&mut interface, &mut player, |i| i.can_eject_disc()), Ok(true));
    assert_eq!(player.commands, vec![hex("04 18c1 ff 6000")]);
    let mut player = Player::scripted(vec![vec![hex("08 18c1 ff 6000")]]);
    assert_eq!(
        run(&mut interface, &mut player, |i| i.can_eject_disc()),
        Err(InterfaceError::NotImplemented)
    );
}

#[test]
fn disc_title_without_groups() {
    let mut interface = interface(SONY);
    let mut player = player_with_disc("My Disc", b"", 4);
    assert_eq!(
        run(&mut interface, &mut player, |i| i.raw_disc_title(false)),
        Ok("My Disc".to_string())
    );
    assert_eq!(
        player.commands,
        vec![
            hex("00 1808 101001 01 00"),
            hex("00 1808 101801 01 00"),
            hex("00 1806 02201801 0000 3000 0a00 ff00 0000 0000"),
            hex("00 1808 101801 00 00"),
            hex("00 1808 101001 00 00"),
        ]
    );
    assert_eq!(
        run(&mut interface, &mut player, |i| i.disc_title(false)),
        Ok("My Disc".to_string())
    );
    assert_eq!(
        run(&mut interface, &mut player, |i| i.track_group_list()),
        Ok(vec![(None, None, vec![0, 1, 2, 3])])
    );
}

#[test]
fn titles_are_read_in_chunks() {
    let title = "0;A long title of a disc//1-2;Group one//3-5;Group two//";
    let mut interface = interface(SONY);
    let mut player = player_with_disc(title, b"", 5);
    assert_eq!(
        run(&mut interface, &mut player, |i| i.raw_disc_title(false)),
        Ok(title.to_string())
    );
    let requests: Vec<&Vec<u8>> =
        player.commands.iter().filter(|c| c.starts_with(&hex("00 1806 0220"))).collect();
    assert_eq!(requests.len(), 3);
    assert_eq!(title.len(), 56);
    assert_eq!(requests[1][15..19], hex("0024 0014"));
    assert_eq!(requests[2][15..19], hex("0010 0028"));
    assert_eq!(
        run(&mut interface, &mut player, |i| i.disc_title(false)),
        Ok("A long title of a disc".to_string())
    );
    let groups = run(&mut interface, &mut player, |i| i.track_group_list()).unwrap();
    assert_eq!(groups.len(), 3);
    assert_eq!(groups[0].2, Vec::<u16>::new());
    assert_eq!(groups[1].0, Some("Group one".to_string()));
    assert_eq!(groups[2].2, vec![2, 3, 4]);
}

#[test]
fn chunks_that_stand_still_are_an_error() {
    let mut interface = interface(SONY);
    let mut player = Player::new(|command| {
        if command.starts_with(&hex("00 1806 02201801 00")) {
            let first = command[15..19] == [0, 0, 0, 0];
            vec![title_chunk(first, b"", 9)]
        } else {
            vec![accepted()]
        }
    });
    assert_eq!(
        run(&mut interface, &mut player, |i| i.raw_disc_title(false)),
        Err(InterfaceError::CommunicationError(NetMDError::InvalidResult))
    );
}

#[test]
fn full_width_titles_are_decoded() {
    let mut interface = interface(SONY);
    let mut player = player_with_disc("x", &[0x82, 0x60, 0x83, 0x41], 1);
    assert_eq!(
        run(&mut interface, &mut player, |i| i.raw_disc_title(true)),
        Ok("\u{ff21}\u{30a2}".to_string())
    );
    assert_eq!(player.commands[2][8], 1);
}

#[test]
fn capacity_of_the_disc() {
    let mut interface = interface(SONY);
    let mut player = Player::new(|command| {
        if command.starts_with(&hex("00 1806 02101000")) {
            vec![hex(
                "09 1806 02101000 3080 0300 1000 001d0000 001b 8003 0017 8000 \
                 0005 0000 12 34 56 0005 0001 20 00 00 0005 0001 07 25 44",
            )]
        } else {
            vec![accepted()]
        }
    });
    let capacity = run(&mut interface, &mut player, |i| i.disc_capacity()).unwrap();
    assert_eq!(
        (capacity[0].hours, capacity[0].minutes, capacity[0].seconds, capacity[0].frames),
        (0, 12, 34, 56)
    );
    assert_eq!(capacity[0].as_frames(), ((0 * 60 + 12) * 60 + 34) * 512 + 56);
    assert_eq!(capacity[1].hours, 1);
    assert_eq!(capacity[1].minutes, 20);
    assert_eq!(capacity[2].as_frames(), ((1 * 60 + 7) * 60 + 25) * 512 + 44);
    assert_eq!(
        player.commands,
        vec![
            hex("00 1808 101000 01 00"),
            hex("00 1806 02101000 3080 0300 ff00 00000000"),
            hex("00 1808 101000 00 00"),
        ]
    );
}

#[test]
fn position_of_an_idle_device_is_zero() {
    let mut interface = interface(SONY);
    let mut player = Player::new(|command| {
        if command.starts_with(&hex("00 1809")) {
            vec![hex("0a 1809")]
        } else {
            vec![accepted()]
        }
    });
    assert_eq!(run(&mut interface, &mut player, |i| i.position()), Ok([0; 5]));
    let mut player = Player::new(|command| {
        if command.starts_with(&hex("00 1809")) {
            vec![hex("08 1809")]
        } else {
            vec![accepted()]
        }
    });
    assert_eq!(
        run(&mut interface, &mut player, |i| i.position()),
        Err(InterfaceError::NotImplemented)
    );
}

#[test]
fn position_of_a_playing_device() {
    let mut interface = interface(SONY);
    let mut player = Player::new(|command| {
        if command.starts_with(&hex("00 1809")) {
            vec![hex(
                "09 1809 8001 0430 8802 0030 8805 0030 0003 0030 0002 00 1000 \
                 00000000 000b 0002 0007 00 0003 00 02 45 17",
            )]
        } else {
            vec![accepted()]
        }
    });
    assert_eq!(run(&mut interface, &mut player, |i| i.position()), Ok([3, 0, 2, 45, 17]));
}

#[test]
fn titles_of_tracks() {
    let mut interface = interface(SONY);
    let mut player = Player::new(|command| {
        if command.starts_with(&hex("00 1806 022018")) {
            if command[8] == 1 {
                return vec![hex("0a 1806")];
            }
            let mut reply = hex("09 1806 02201802 0000 3000 0a00 1000 00000000 0000000a 0003");
            reply.extend_from_slice(b"ab");
            reply.push(b'0' + command[8]);
            vec![reply]
        } else {
            vec![accepted()]
        }
    });
    assert_eq!(
        run(&mut interface, &mut player, |i| i.track_titles(vec![0, 2], false)),
        Ok(vec!["ab0".to_string(), "ab2".to_string()])
    );
    assert_eq!(player.commands[0], hex("00 1808 101802 01 00"));
    assert_eq!(player.commands[1], hex("00 1806 02201802 0000 3000 0a00 ff00 00000000"));
    assert_eq!(player.commands[3], hex("00 1808 101802 00 00"));
    assert_eq!(run(&mut interface, &mut player, |i| i.track_title(1, false)), Ok(String::new()));
    assert_eq!(
        run(&mut interface, &mut player, |i| i.track_title(2, true)),
        Ok("ab2".to_string())
    );
    assert_eq!(player.commands.last().unwrap(), &hex("00 1808 101803 00 00"));
}

#[test]
fn encoding_of_a_track() {
    let mut interface = interface(SONY);
    let reply = |encoding: u8, channels: u8| {
        let mut r = hex("09 1806 02201001 0000 3080 0700 1000 00000000 0008 00 07 0004 0110");
        r.push(encoding);
        r.push(channels);
        r
    };
    for (e, c, expected) in [
        (0x90, 0, Ok((Encoding::SP, Channels::Stereo))),
        (0x92, 1, Ok((Encoding::LP2, Channels::Mono))),
        (0x93, 0, Ok((Encoding::LP4, Channels::Stereo))),
        (0x91, 0, Err(InterfaceError::InvalidEncoding(0x91))),
        (0x90, 2, Err(InterfaceError::InvalidDiscFormat(2))),
    ] {
        let mut player = Player::new(move |command| {
            if command.starts_with(&hex("00 1806 02201001")) {
                vec![reply(e, c)]
            } else {
                vec![accepted()]
            }
        });
        assert_eq!(run(&mut interface, &mut player, |i| i.track_encoding(4)), expected);
        assert_eq!(player.commands[1], hex("00 1806 02201001 0004 3080 0700 ff00 00000000"));
    }
}

#[test]
fn titles_of_the_disc_are_written() {
    for (ids, expected) in [
        (
            SONY,
            vec![
                hex("00 1808 101801 00 00"),
                hex("00 1808 101801 03 00"),
                hex("00 1807 02201801 0000 3000 0a00 5000 0003 0000 0007 4e6577"),
                hex("00 1808 101801 00 00"),
                hex("00 1808 101801 01 00"),
                hex("00 1808 101801 00 00"),
            ],
        ),
        (
            SHARP,
            vec![
                hex("00 1808 101802 03 00"),
                hex("00 1807 02201801 0000 3000 0a00 5000 0003 0000 0007 4e6577"),
                hex("00 1808 101802 00 00"),
            ],
        ),
    ] {
        let mut interface = interface(ids);
        let mut player = player_with_disc("My Disc", b"", 1);
        assert_eq!(run(&mut interface, &mut player, |i| i.set_disc_title("New", false)), Ok(()));
        assert_eq!(player.commands[5..], expected[..]);
    }
}

#[test]
fn title_that_is_there_is_not_written() {
    let mut interface = interface(SONY);
    let mut player = player_with_disc("My Disc", b"", 1);
    assert_eq!(
        run(&mut interface, &mut player, |i| i.set_disc_title("My Disc", false)),
        Err(InterfaceError::TitleError)
    );
    assert_eq!(player.commands.len(), 5);
}

#[test]
fn renaming_keeps_the_groups() {
    let mut context = NetMDContext::new(NetMD::new(SONY.0, SONY.1).unwrap());
    let mut player = player_with_disc("0;Old//1-2;G1//", b"", 2);
    assert_eq!(run_context(&mut context, &mut player, |c| c.rename_disc("New", None)), Ok(()));
    let written: Vec<&Vec<u8>> =
        player.commands.iter().filter(|c| c.starts_with(&hex("00 1807"))).collect();
    assert_eq!(written.len(), 1);
    let mut expected = hex("00 1807 02201801 0000 3000 0a00 5000 000f 0000 000f");
    expected.extend_from_slice(b"0;New//1-2;G1//");
    assert_eq!(written[0], &expected);

    let mut player = player_with_disc("0;Old//1-2;G1//", b"", 2);
    assert_eq!(run_context(&mut context, &mut player, |c| c.rename_disc("Old", None)), Ok(()));
    assert!(player.commands.iter().all(|c| !c.starts_with(&hex("00 1807"))));
}

#[test]
fn titles_of_tracks_are_written() {
    let mut interface = interface(SONY);
    let mut player = Player::new(|command| {
        if command.starts_with(&hex("00 1806 022018")) {
            let mut reply = hex("09 1806 02201802 0000 3000 0a00 1000 00000000 0000000a 0002");
            reply.extend_from_slice(b"ab");
            vec![reply]
        } else {
            vec![accepted()]
        }
    });
    assert_eq!(run(&mut interface, &mut player, |i| i.set_track_title(3, "xyz", false)), Ok(()));
    assert_eq!(
        player.commands[3..],
        [
            hex("00 1808 101802 03 00"),
            hex("00 1807 02201802 0003 3000 0a00 5000 0003 0000 0002 78797a"),
            hex("00 1808 101802 00 00"),
        ]
    );
    let before = player.commands.len();
    assert_eq!(run(&mut interface, &mut player, |i| i.set_track_title(3, "ab", false)), Ok(()));
    assert_eq!(player.commands.len(), before + 3);
}

#[test]
fn numbers_of_the_disc() {
    let mut interface = interface(SONY);
    let mut player = Player::new(|command| {
        if command.starts_with(&hex("00 1806 01101000")) {
            vec![hex("09 1806 01101000 1000 0001000b 50")]
        } else if command.starts_with(&hex("00 1806 01201001")) {
            vec![hex("09 1806 01201001 0002 10 00 00010008 03")]
        } else if command.starts_with(&hex("00 1850 ff01")) {
            vec![hex("09 1850 00010000 0000 0007")]
        } else if command.starts_with(&hex("00 1850 ff00")) {
            vec![hex("09 1850 00000000 0000 0007 00 01 02 03")]
        } else if command.starts_with(&hex("00 1850 ff10")) {
            vec![hex("09 1850 0010 00000000 0000")]
        } else {
            vec![track_count_reply(9)]
        }
    });
    assert_eq!(run(&mut interface, &mut player, |i| i.disc_flags()), Ok(0x50));
    assert_eq!(run(&mut interface, &mut player, |i| i.track_flags(2)), Ok(3));
    assert_eq!(run(&mut interface, &mut player, |i| i.go_to_track(7)), Ok(7));
    assert_eq!(player.commands.last().unwrap(), &hex("00 1850 ff010000 0000 0007"));
    assert_eq!(run(&mut interface, &mut player, |i| i.go_to_time(7, 0, 1, 2, 33)), Ok(7));
    assert_eq!(player.commands.last().unwrap(), &hex("00 1850 ff000000 0000 0007 00010233"));
    for (direction, word) in [
        (Direction::Previous, "0002"),
        (Direction::Next, "8001"),
        (Direction::Restart, "0001"),
    ] {
        assert_eq!(run(&mut interface, &mut player, |i| i.track_change(direction)), Ok(()));
        assert_eq!(player.commands.last().unwrap()[9..], hex(word)[..]);
    }
}

#[test]
fn status_of_the_device() {
    let mut context = NetMDContext::new(NetMD::new(SONY.0, SONY.1).unwrap());
    let answer = |present: u8, state: [u8; 2]| {
        move |command: &[u8]| {
            if command.starts_with(&hex("00 1809 8001 0230")) {
                let mut r = hex("09 1809 8001 0230 8800 0030 8804 00 1000 00090000 0009 00000000");
                r.push(present);
                r.extend(hex("00000000"));
                vec![r]
            } else if command.starts_with(&hex("00 1809 8001 0330")) {
                let mut r = hex("09 1809 8001 0330 8802 0030 8805 0030 8806 00 1000 00000000 0006 00000000");
                r.extend(state);
                r.push(0);
                vec![r]
            } else if command.starts_with(&hex("00 1809 8001 0430")) {
                vec![hex(
                    "09 1809 8001 0430 8802 0030 8805 0030 0003 0030 0002 00 1000 \
                     00000000 000b 0002 0007 00 0003 00 02 45 17",
                )]
            } else {
                vec![accepted()]
            }
        }
    };
    let mut player = Player::new(answer(0x40, [0xc3, 0x75]));
    let status = run_context(&mut context, &mut player, |c| c.device_status()).unwrap();
    assert!(status.disc_present);
    assert_eq!(status.state, Some(OperatingStatus::Playing));
    assert_eq!(status.track, 3);
    assert_eq!((status.time.minute, status.time.second, status.time.frame), (2, 45, 17));
    assert_eq!(status.time.as_millis(), 2 * 60000 + 45 * 1000);

    let mut player = Player::new(answer(0x80, [0xc3, 0x75]));
    let status = run_context(&mut context, &mut player, |c| c.device_status()).unwrap();
    assert!(!status.disc_present);
    assert_eq!(status.state, Some(OperatingStatus::Ready));

    let mut player = Player::new(answer(0x40, [0x12, 0x34]));
    let status = run_context(&mut context, &mut player, |c| c.device_status()).unwrap();
    assert_eq!(status.state, None);
    assert_eq!(OperatingStatus::from_u16(65535), Some(OperatingStatus::DiscBlank));
    assert_eq!(OperatingStatus::from_u16(50687), Some(OperatingStatus::Ready));
}

#[test]
fn level_of_the_device() {
    let reply = |media: &str| {
        let mut r = hex("09 1809 00 1000 0000 0000 0020 01 02 03 04 0002");
        r.extend(hex("aaaa bbbb 0001 0002 05 06"));
        r.extend(hex(media));
        r
    };
    for (media, expected) in [
        ("02 0300 11 00 0000 01 00 0301 50 00 0000 01 01 0000", Ok(NetMDLevel::Level2)),
        ("01 0301 70 00 0000 01 01 0002 ffff", Ok(NetMDLevel::Level3)),
        ("01 0301 21 00 0000 01 01 0000", Err(InterfaceError::InvalidLevel(0x21))),
        ("01 0300 20 00 0000 01 01 0000", Err(InterfaceError::NoSupportedMedia)),
        ("00 0000", Err(InterfaceError::NoSupportedMedia)),
        ("02 0301 20 00 0000 01 01", Err(InterfaceError::QueryError(QueryError::UnexpectedEnd))),
    ] {
        let reply = reply(media);
        let mut interface = interface(SONY);
        let mut player = Player::new(move |command| {
            if command.starts_with(&hex("00 1809 00")) {
                vec![reply.clone()]
            } else {
                vec![accepted()]
            }
        });
        assert_eq!(run(&mut interface, &mut player, |i| i.net_md_level()), expected);
    }
}

#[test]
fn keys_of_the_session() {
    let mut interface = interface(SONY);
    let mut player = Player::scripted(vec![]);
    assert_eq!(
        run(&mut interface, &mut player, |i| i.send_key_data(1, [[0; 16]; 2], 64, [0; 24])),
        Err(InterfaceError::EncryptionError(EncryptionError::InvalidDepth(64)))
    );
    assert_eq!(
        run(&mut interface, &mut player, |i| i.send_key_data(1, [[0; 16]; 2], 0, [0; 24])),
        Err(InterfaceError::EncryptionError(EncryptionError::InvalidDepth(0)))
    );
    assert_eq!(
        run(&mut interface, &mut player, |i| i.session_key_exchange(vec![1, 2, 3])),
        Err(InterfaceError::EncryptionError(EncryptionError::InvalidLength(
            SessionField::HostNonce,
            3
        )))
    );
    assert_eq!(
        run(&mut interface, &mut player, |i| i.setup_download(&[0; 19], &[0; 8], &[0; 8])),
        Err(InterfaceError::EncryptionError(EncryptionError::InvalidLength(
            SessionField::ContentId,
            19
        )))
    );
    assert_eq!(
        run(&mut interface, &mut player, |i| i.setup_download(&[0; 20], &[0; 7], &[0; 8])),
        Err(InterfaceError::EncryptionError(EncryptionError::InvalidLength(
            SessionField::KeyEncryptionKey,
            7
        )))
    );
    assert_eq!(
        run(&mut interface, &mut player, |i| i.commit_track(1, &[0; 9])),
        Err(InterfaceError::EncryptionError(EncryptionError::InvalidLength(
            SessionField::SessionKey,
            9
        )))
    );
    assert!(player.commands.is_empty());

    let mut chains = [[0u8; 16]; 2];
    chains[0][0] = 0xaa;
    chains[1][15] = 0xbb;
    let mut player = Player::scripted(vec![vec![hex("09 1800 080046 f0030103 12 01 0000 00000000")]]);
    assert_eq!(
        run(&mut interface, &mut player, |i| i.send_key_data(0x26422642, chains, 9, [0xcc; 24])),
        Ok(())
    );
    let mut expected = hex("00 1800 080046 f0030103 12 ff 0048 0000 0048 00000002 00000009 26422642 00000000");
    expected.extend(chains[0]);
    expected.extend(chains[1]);
    expected.extend([0xcc; 24]);
    assert_eq!(player.commands, vec![expected]);

    let mut player = Player::scripted(vec![vec![hex("09 1800 080046 f0030103 20 00 000000 0102030405060708")]]);
    assert_eq!(
        run(&mut interface, &mut player, |i| i.session_key_exchange(vec![9; 8])),
        Ok(vec![1, 2, 3, 4, 5, 6, 7, 8])
    );
    assert_eq!(player.commands, vec![hex("00 1800 080046 f0030103 20 ff 000000 0909090909090909")]);
}

#[test]
fn download_is_set_up_and_committed_under_the_session_key() {
    let key = [7u8; 8];
    let mut interface = interface(SONY);
    let mut player = Player::scripted(vec![
        vec![hex("09 1800 080046 f0030103 22 00 0000")],
        vec![hex("09 1800 080046 f0030103 48 00 00 1001 0005")],
    ]);
    assert_eq!(
        run(&mut interface, &mut player, |i| i.setup_download(&[3; 20], &[4; 8], &key)),
        Ok(())
    );
    let mut message = vec![1, 1, 1, 1];
    message.extend([3; 20]);
    message.extend([4; 8]);
    let plain = message.clone();
    cbc::Encryptor::<des::Des>::new((&key).into(), (&[0u8; 8]).into())
        .encrypt_padded_mut::<NoPadding>(&mut message, 32)
        .unwrap();
    assert_ne!(message, plain);
    let mut expected = hex("00 1800 080046 f0030103 22 ff 0000");
    expected.extend(&message);
    assert_eq!(player.commands[0], expected);

    assert_eq!(run(&mut interface, &mut player, |i| i.commit_track(5, &key)), Ok(()));
    let mut authenticator = [0u8; 8];
    ecb::Encryptor::<des::Des>::new((&key).into())
        .encrypt_padded_mut::<NoPadding>(&mut authenticator, 8)
        .unwrap();
    assert_ne!(authenticator, [0u8; 8]);
    let mut expected = hex("00 1800 080046 f0030103 48 ff 00 1001 0005");
    expected.extend(authenticator);
    assert_eq!(player.commands[1], expected);
}

#[test]
fn track_is_sent_in_packets() {
    let session_key = [5u8; 8];
    let content_key = vec![1, 2, 3, 4, 5, 6, 7, 8];
    let data: Vec<u8> = (0..3000).map(|i| (i % 251) as u8).collect();
    let encryptor = Encryptor::with_content_key(
        DataEncryptorInput {
            kek: [0x14, 0xe3, 0x83, 0x4e, 0xe2, 0xd3, 0xcc, 0xa5],
            frame_size: 192,
            data: data.clone(),
            chunk_size: 1024,
        },
        content_key.clone(),
    );
    let total = encryptor.total_size() as u32;
    assert_eq!(total, 3072);
    let mut identifiers: Vec<u8> = (0..32).collect();
    let plain = identifiers.clone();
    cbc::Encryptor::<des::Des>::new((&session_key).into(), (&[0u8; 8]).into())
        .encrypt_padded_mut::<NoPadding>(&mut identifiers, 32)
        .unwrap();
    let mut closing = hex("09 1800 080046 f0030103 28 00 000100 1001 0004 00 0000 00000000 00000000");
    closing.extend(&identifiers);
    let mut interface = interface(SONY);
    let mut player = Player::scripted(vec![vec![
        hex("0f 1800 080046 f0030103 28 00 000100 1001 0000 00 aabb"),
        closing,
    ]]);
    let result = run(&mut interface, &mut player, |i| {
        i.send_track(0x94, 2, 16, total, encryptor.duplicate(), &session_key, true)
    });
    assert_eq!(result, Ok((4, plain[0..8].to_vec(), plain[12..32].to_vec())));
    assert_eq!(
        player.commands,
        vec![hex("00 1800 080046 f0030103 28 ff 000100 1001 ffff 00 94 02 00000010 00000c18")]
    );
    assert_eq!(player.sleeps, vec![200, 200]);
    let sizes: Vec<usize> = player.bulk_out.iter().map(|p| p.len()).collect();
    assert_eq!(sizes, vec![24 + 1000, 1024, 1024, 24]);
    assert_eq!(player.bulk_out[0][0..8], hex("00000000 00000c00")[..]);
    assert_eq!(player.bulk_out[0][16..24], [0u8; 8]);
    let mut ciphertext = player.bulk_out[0][24..].to_vec();
    for packet in &player.bulk_out[1..] {
        ciphertext.extend(packet);
    }
    let mut padded = data.clone();
    padded.resize(3072, 0);
    let mut expected = padded.clone();
    cbc::Encryptor::<des::Des>::new(content_key.as_slice().into(), (&[0u8; 8]).into())
        .encrypt_padded_mut::<NoPadding>(&mut expected, 3072)
        .unwrap();
    assert_eq!(ciphertext, expected);
    assert_eq!(player.progress, vec![(3096, 1024), (3096, 2048), (3096, 3072), (3096, 3096)]);
}

#[test]
fn track_is_read_from_the_device() {
    let mut interface = interface(SONY);
    let mut player = Player::scripted(vec![vec![
        hex("0f 1800 080046 f0030103 300000 1001 0123 06 00020005"),
        hex("09 1800 080046 f003010330 0000 1001 0003 0000"),
    ]]);
    let audio: Vec<u8> = (0..0x20005).map(|i| (i % 253) as u8).collect();
    player.bulk_in = audio.iter().copied().collect();
    let result = run(&mut interface, &mut player, |i| i.save_track_to_array(2, true));
    assert_eq!(result, Ok((DiscFormat::SPStereo, 0x123, audio)));
    assert_eq!(player.commands, vec![hex("00 1800 080046 f003010330 ff00 1001 0003")]);
    assert_eq!(player.sleeps, vec![500]);
    assert_eq!(
        player.progress,
        vec![(0x20005, 0x10000), (0x20005, 0x20000), (0x20005, 0x20005)]
    );
    for (codec, format) in [
        (0u8, DiscFormat::LP4),
        (2, DiscFormat::LP2),
        (4, DiscFormat::SPMono),
        (0x97, DiscFormat::SPStereo),
    ] {
        assert_eq!(DiscFormat::from_codec(codec), format);
    }
}

#[test]
fn track_identifier_is_text() {
    let mut interface = interface(SONY);
    let mut reply = hex("09 1800 080046 f0030103 23 00 1001 0001");
    reply.extend_from_slice(b"id\xff");
    let mut player = Player::scripted(vec![vec![reply]]);
    assert_eq!(
        run(&mut interface, &mut player, |i| i.track_uuid(1)),
        Ok("id\u{fffd}".to_string())
    );
}

#[test]
fn refused_replies_stay_at_hand() {
    let mut interface = interface(SONY);
    assert_eq!(interface.device.last_data(), None);
    let mut player = Player::scripted(vec![vec![hex("0a 18c3 00 75 000000")]]);
    assert_eq!(
        run(&mut interface, &mut player, |i| i.play()),
        Err(InterfaceError::Rejected)
    );
    assert_eq!(interface.device.last_data(), Some(hex("0a 18c3 00 75 000000")));
    let mut player = Player::scripted(vec![vec![hex("08 18c3")]]);
    assert_eq!(
        run(&mut interface, &mut player, |i| i.play()),
        Err(InterfaceError::NotImplemented)
    );
    assert_eq!(interface.device.last_data(), Some(hex("08 18c3")));
}
