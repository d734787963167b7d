use cbc::cipher::block_padding::NoPadding;
use cbc::cipher::{BlockDecryptMut, BlockEncryptMut, KeyInit, KeyIvInit};
use minidisc::netmd::encryption::{DataEncryptorInput, Encryptor};
use minidisc::netmd::interface::{retailmac, EKBOpenSource, MDSession, MDTrack, WireFormat};

const KEK: [u8; 8] = [0x14, 0xe3, 0x83, 0x4e, 0xe2, 0xd3, 0xcc, 0xa5];

fn audio(len: usize) -> Vec<u8> {
    (0..len).map(|i| (i * 7 + 3) as u8).collect()
}

fn padded(data: &[u8], frame: usize) -> Vec<u8> {
    let mut out = data.to_vec();
    while out.len() % frame != 0 {
        out.push(0);
    }
    out
}

fn cbc_decrypt(key: &[u8], iv: &[u8], data: &[u8]) -> Vec<u8> {
    let mut buf = data.to_vec();
    cbc::Decryptor::<des::Des>::new(key.into(), iv.into())
        .decrypt_padded_mut::<NoPadding>(&mut buf)
        .unwrap();
    buf
}

fn cbc_encrypt(key: &[u8], iv: &[u8], data: &[u8]) -> Vec<u8> {
    let mut buf = data.to_vec();
    let len = buf.len();
    cbc::Encryptor::<des::Des>::new(key.into(), iv.into())
        .encrypt_padded_mut::<NoPadding>(&mut buf, len)
        .unwrap();
    buf
}

fn drain(encryptor: &mut Encryptor) -> Vec<(Vec<u8>, Vec<u8>, Vec<u8>)> {
    let mut packets = Vec::new();
    while let Some(packet) = encryptor.next() {
        packets.push(packet);
    }
    packets
}

#[test]
fn download_of_half_a_kilobyte() {
    let key = vec![1, 2, 3, 4, 5, 6, 7, 8];
    let data = audio(512);
    let mut encryptor = Encryptor::with_content_key(
        DataEncryptorInput { kek: KEK, frame_size: 192, data: data.clone(), chunk_size: 1024 },
        key.clone(),
    );
    assert_eq!(encryptor.total_size(), 576);
    let packets = drain(&mut encryptor);
    assert_eq!(packets.len(), 1);
    assert_eq!(packets[0].2.len(), 576);
    assert_eq!(packets[0].1, vec![0; 8]);
    let all: Vec<u8> = packets.iter().flat_map(|p| p.2.clone()).collect();
    assert_eq!(cbc_decrypt(&key, &[0; 8], &all), padded(&data, 192));
    assert_eq!(encryptor.next(), None);
}

#[test]
fn packets_are_one_encryption() {
    let key = vec![9, 8, 7, 6, 5, 4, 3, 2];
    let data = audio(5000);
    let mut encryptor = Encryptor::with_content_key(
        DataEncryptorInput { kek: KEK, frame_size: 96, data: data.clone(), chunk_size: 1024 },
        key.clone(),
    );
    let packets = drain(&mut encryptor);
    let sizes: Vec<usize> = packets.iter().map(|p| p.2.len()).collect();
    assert_eq!(sizes, vec![1000, 1024, 1024, 1024, 1016]);
    let all: Vec<u8> = packets.iter().flat_map(|p| p.2.clone()).collect();
    assert_eq!(all, cbc_encrypt(&key, &[0; 8], &padded(&data, 96)));
    for i in 1..packets.len() {
        let before = &packets[i - 1].2;
        assert_eq!(packets[i].1, before[before.len() - 8..].to_vec());
    }
}

#[test]
fn padding_fills_whole_frames() {
    for (len, frame, expected) in [(0, 192, 0), (1, 192, 192), (192, 192, 192), (193, 192, 384), (512, 152, 608)] {
        let encryptor = Encryptor::with_content_key(
            DataEncryptorInput { kek: KEK, frame_size: frame, data: audio(len), chunk_size: 0 },
            vec![0; 8],
        );
        assert_eq!(encryptor.total_size(), expected);
        assert_eq!(expected, (len + frame - 1) / frame * frame);
    }
}

#[test]
fn content_key_is_wrapped_by_decryption() {
    let key = vec![0x11; 8];
    let mut encryptor = Encryptor::with_content_key(
        DataEncryptorInput { kek: KEK, frame_size: 96, data: audio(96), chunk_size: 0 },
        key.clone(),
    );
    let packet = encryptor.next().unwrap();
    let mut expected = key.clone();
    ecb::Decryptor::<des::Des>::new((&KEK).into())
        .decrypt_padded_mut::<NoPadding>(&mut expected)
        .unwrap();
    assert_eq!(packet.0, expected);
    assert_ne!(packet.0, key);
}

#[test]
fn closed_stream_gives_nothing() {
    let mut encryptor = Encryptor::with_content_key(
        DataEncryptorInput { kek: KEK, frame_size: 96, data: audio(4000), chunk_size: 1024 },
        vec![3; 8],
    );
    assert!(encryptor.next().is_some());
    encryptor.close();
    assert_eq!(encryptor.next(), None);
}

#[test]
fn random_content_keys_differ() {
    let make = || {
        let mut e = Encryptor::new(DataEncryptorInput {
            kek: KEK,
            frame_size: 96,
            data: audio(96),
            chunk_size: 0,
        });
        e.next().unwrap().0
    };
    assert_ne!(make(), make());
}

#[test]
fn default_packets_hold_a_megabyte() {
    let mut encryptor = Encryptor::with_content_key(
        DataEncryptorInput { kek: KEK, frame_size: 2048, data: vec![0; 0x0010_0000], chunk_size: 0 },
        vec![3; 8],
    );
    let sizes: Vec<usize> = drain(&mut encryptor).iter().map(|p| p.2.len()).collect();
    assert_eq!(sizes, vec![0x0010_0000 - 24, 24]);
}

#[test]
fn retailmac_is_des_then_triple_des() {
    let key: Vec<u8> = (1..=16).collect();
    let value: Vec<u8> = (100..116).collect();
    let iv = [0u8; 8];
    let mac = retailmac(&key, &value, &iv);
    let iv2 = cbc_encrypt(&key[0..8], &iv, &value[0..8]);
    let mut wonky = key.clone();
    wonky.extend_from_slice(&key[0..8]);
    let mut end = value[8..].to_vec();
    cbc::Encryptor::<des::TdesEde3>::new(wonky.as_slice().into(), iv2.as_slice().into())
        .encrypt_padded_mut::<NoPadding>(&mut end, 8)
        .unwrap();
    assert_eq!(mac, end);
    assert_eq!(mac.len(), 8);
    assert_ne!(mac, value[8..].to_vec());
}

#[test]
fn retailmac_is_stable() {
    let key = EKBOpenSource.root_key();
    let value = [0x5au8; 16];
    let first = retailmac(&key, &value, &[0; 8]);
    let second = retailmac(&key, &value, &[0; 8]);
    assert_eq!(first, second);
    assert_ne!(first, retailmac(&key, &[0x5bu8; 16], &[0; 8]));
}

#[test]
fn open_source_key_block() {
    let ekb = EKBOpenSource;
    assert_eq!(ekb.ekb_id(), 0x26422642);
    assert_eq!(ekb.root_key()[0..4], [0x12, 0x34, 0x56, 0x78]);
    let data = ekb.ekb_data_for_leaf_id();
    assert_eq!(data.depth, 9);
    assert_eq!(data.chains[0][0], 0x25);
    assert_eq!(data.chains[1][15], 0xda);
    assert_eq!(data.signature.len(), 24);
    assert_eq!(data.signature[23], 0xea);
}

#[test]
fn track_sizes() {
    let track = MDTrack {
        title: "t".to_string(),
        format: WireFormat::LP2,
        data: audio(512),
        chunk_size: 1024,
        full_width_title: None,
    };
    assert_eq!(track.frame_size(), 192);
    assert_eq!(track.total_size(), 576);
    assert_eq!(track.frame_count(), 3);
    assert_eq!(track.chunk_size(), 1024);
    assert_eq!(track.title(), "t");
    assert_eq!(track.content_id()[0..3], [0x01, 0x0f, 0x50]);
    assert_eq!(track.get_kek(), KEK);
    assert_eq!(WireFormat::Pcm.frame_size(), 2048);
    assert_eq!(WireFormat::L105kbps.frame_size(), 152);
    assert_eq!(WireFormat::LP4.frame_size(), 96);
}

#[test]
fn track_gives_its_audio_to_the_packets() {
    let mut track = MDTrack {
        title: "t".to_string(),
        format: WireFormat::LP4,
        data: audio(100),
        chunk_size: 0,
        full_width_title: Some("w".to_string()),
    };
    assert!(track.can_encrypt());
    let mut packets = track.get_encrypting_iterator();
    assert!(track.data.is_empty());
    assert_eq!(packets.total_size(), 192);
    assert_eq!(packets.next().unwrap().2.len(), 192);
    assert_eq!(track.full_width_title(), "w");
}

#[test]
fn sessions_draw_their_nonce() {
    let a = MDSession::new();
    let b = MDSession::new();
    assert_eq!(a.host_nonce.len(), 8);
    assert_ne!(a.host_nonce, b.host_nonce);
    assert!(a.hex_session_key.is_none());
}

#[test]
fn ciphertext_made_ahead_gives_the_same_packets() {
    let key = vec![4, 8, 15, 16, 23, 42, 1, 2];
    let data = audio(3000);
    let input = || DataEncryptorInput { kek: KEK, frame_size: 192, data: audio(3000), chunk_size: 1024 };
    let mut plain = Encryptor::with_content_key(input(), key.clone());
    let mut ahead = Encryptor::with_content_key(input(), key.clone()).prepared();
    assert_eq!(ahead.total_size(), 3072);
    let first = plain.next();
    assert_eq!(first, ahead.next());
    let mut later = plain.duplicate().prepared();
    let rest = drain(&mut plain);
    assert_eq!(rest, drain(&mut ahead));
    assert_eq!(rest, drain(&mut later));
    assert_eq!(rest.len(), 3);
    let mut all = first.unwrap().2;
    for packet in &rest {
        all.extend(&packet.2);
    }
    assert_eq!(cbc_decrypt(&key, &[0; 8], &all), padded(&data, 192));
    ahead.close();
    assert_eq!(ahead.next(), None);
}
