use minidisc::netmd::commands::{chars_to_cells, Disc, Group, Track};
use minidisc::netmd::interface::{Channels, Encoding, InterfaceError, TrackFlag};
use minidisc::netmd::titles::{decimal, disc_title_in, parse_decimal, parse_groups, renamed_raw_title};
use minidisc::netmd::utils::{
    agressive_sanitize_title, chars_of, create_aea_header, create_wav_header,
    half_width_title_length, half_width_to_full_width_range, length_after_encoding_to_sjis,
    pretty_time, sanitize_full_width_title, sanitize_half_width_title, text_of, to_sjis,
    validate_sjis, AeaOptions, RawTime,
};

fn track(index: u16, title: &str, wide: &str, encoding: Encoding) -> Track {
    Track::new(
        index,
        title.to_string(),
        wide.to_string(),
        RawTime { hours: 0, minutes: 3, seconds: 20, frames: 0 },
        Channels::Stereo,
        encoding,
        TrackFlag::Unprotected,
    )
}

fn group(index: u16, title: Option<&str>, wide: Option<&str>, tracks: Vec<Track>) -> Group {
    Group::new(index, title.map(String::from), wide.map(String::from), tracks)
}

fn disc(title: &str, wide: &str, groups: Vec<Group>) -> Disc {
    let count = groups.iter().map(|g| g.tracks().len()).sum::<usize>() as u16;
    Disc::new(title.to_string(), wide.to_string(), true, false, 0, 0, 0, count, groups)
}

fn album() -> Disc {
    disc(
        "Album",
        "",
        vec![
            group(0, None, None, vec![]),
            group(
                1,
                Some("Side A"),
                Some(""),
                vec![
                    track(0, "a", "", Encoding::SP),
                    track(1, "b", "", Encoding::SP),
                    track(2, "c", "", Encoding::SP),
                ],
            ),
            group(
                2,
                Some("Side B"),
                Some(""),
                vec![track(3, "d", "", Encoding::SP), track(4, "e", "", Encoding::SP)],
            ),
        ],
    )
}

#[test]
fn group_parsing() {
    let groups = parse_groups("0;Album//1-3;Side A//4-5;Side B//", "", 5).unwrap();
    assert_eq!(groups.len(), 3);
    assert_eq!(groups[0], (None, None, vec![]));
    assert_eq!(groups[1].0, Some("Side A".to_string()));
    assert!(groups[1].1.is_some());
    assert_eq!(groups[1].2, vec![0, 1, 2]);
    assert_eq!(groups[2].0, Some("Side B".to_string()));
    assert!(groups[2].1.is_some());
    assert_eq!(groups[2].2, vec![3, 4]);
    assert_eq!(text_of(&disc_title_in(&chars_of("0;Album//1-3;Side A//4-5;Side B//"), false)), "Album");
}

#[test]
fn disc_without_groups() {
    let groups = parse_groups("My Disc", "", 4).unwrap();
    assert_eq!(groups, vec![(None, None, vec![0, 1, 2, 3])]);
    assert_eq!(text_of(&disc_title_in(&chars_of("My Disc"), false)), "My Disc");
}

#[test]
fn groups_with_full_width_titles() {
    let groups = parse_groups(
        "0;T//1-2;G1//3;G2//",
        "\u{ff10}\u{ff1b}\u{ff34}\u{ff0f}\u{ff0f}\u{ff11}\u{ff0d}\u{ff12}\u{ff1b}\u{ff27}\u{ff11}\u{ff0f}\u{ff0f}\u{ff13}\u{ff1b}\u{ff27}\u{ff12}\u{ff0f}\u{ff0f}",
        4,
    )
    .unwrap();
    assert_eq!(groups.len(), 3);
    assert_eq!(groups[0], (None, None, vec![3]));
    assert_eq!(groups[1], (Some("G1".to_string()), Some("\u{ff27}\u{ff11}".to_string()), vec![0, 1]));
    assert_eq!(groups[2], (Some("G2".to_string()), Some("\u{ff27}\u{ff12}".to_string()), vec![2]));
    assert_eq!(
        text_of(&disc_title_in(&chars_of("\u{ff10}\u{ff1b}\u{ff34}\u{ff0f}\u{ff0f}"), true)),
        "\u{ff34}"
    );
}

#[test]
fn groups_are_cut_at_the_last_track() {
    let groups = parse_groups("0;T//2-9;G//", "", 3).unwrap();
    assert_eq!(groups[0].2, vec![0]);
    assert_eq!(groups[1].2, vec![1, 2]);
}

#[test]
fn track_in_two_groups() {
    assert_eq!(
        parse_groups("0;T//1-3;A//3-4;B//", "", 5),
        Err(InterfaceError::GroupError(2))
    );
}

#[test]
fn malformed_groups_are_passed_over() {
    let groups = parse_groups("0;T//x-3;A//0-2;B//5-4;C//;D//plain//2;E//", "", 5).unwrap();
    assert_eq!(groups.len(), 2);
    assert_eq!(groups[0].2, vec![0, 2, 3, 4]);
    assert_eq!(groups[1], (Some("E".to_string()), Some(String::new()), vec![1]));
}

#[test]
fn disc_title_of_titled_and_untitled_discs() {
    assert_eq!(text_of(&disc_title_in(&chars_of("0;Old//1-2;G1//"), false)), "Old");
    assert_eq!(text_of(&disc_title_in(&chars_of("1-2;G1//"), false)), "");
    assert_eq!(text_of(&disc_title_in(&chars_of(""), false)), "");
    assert_eq!(text_of(&disc_title_in(&chars_of("a//b"), false)), "a//b");
}

#[test]
fn rename_preserves_groups() {
    assert_eq!(renamed_raw_title("0;Old//1-2;G1//", "New", false), "0;New//1-2;G1//");
    assert_eq!(renamed_raw_title("1-2;G1//", "New", false), "0;New//1-2;G1//");
    assert_eq!(renamed_raw_title("Old", "New", false), "New");
    assert_eq!(renamed_raw_title("0;Old//1-2;G1//", "", false), "1-2;G1//");
    assert_eq!(renamed_raw_title("0;Old//1-2;G1//", "a$1b", false), "0;a$1b//1-2;G1//");
    assert_eq!(
        renamed_raw_title(
            "\u{ff10}\u{ff1b}\u{ff2f}\u{ff0f}\u{ff0f}\u{ff11}\u{ff1b}\u{ff27}\u{ff0f}\u{ff0f}",
            "\u{ff2e}",
            true
        ),
        "\u{ff10}\u{ff1b}\u{ff2e}\u{ff0f}\u{ff0f}\u{ff11}\u{ff1b}\u{ff27}\u{ff0f}\u{ff0f}"
    );
}

#[test]
fn titles_are_compiled_with_their_groups() {
    assert_eq!(
        album().compile_disc_titles(),
        ("0;Album//1-3;Side A//4-5;Side B//".to_string(), String::new())
    );
}

#[test]
fn compiled_titles_read_back() {
    let (half, full) = album().compile_disc_titles();
    let groups = parse_groups(&half, &full, 5).unwrap();
    assert_eq!(groups[1].0, Some("Side A".to_string()));
    assert_eq!(groups[1].2, vec![0, 1, 2]);
    assert_eq!(groups[2].0, Some("Side B".to_string()));
    assert_eq!(groups[2].2, vec![3, 4]);
    assert_eq!(text_of(&disc_title_in(&chars_of(&half), false)), "Album");
    let again = disc(
        "Album",
        "",
        vec![
            group(0, None, None, vec![]),
            group(1, groups[1].0.as_deref(), groups[1].1.as_deref(), vec![
                track(0, "a", "", Encoding::SP),
                track(1, "b", "", Encoding::SP),
                track(2, "c", "", Encoding::SP),
            ]),
            group(2, groups[2].0.as_deref(), groups[2].1.as_deref(), vec![
                track(3, "d", "", Encoding::SP),
                track(4, "e", "", Encoding::SP),
            ]),
        ],
    );
    assert_eq!(again.compile_disc_titles(), (half, full));
}

#[test]
fn full_width_titles_are_compiled_where_there_are_any() {
    let d = disc(
        "T",
        "\u{ff34}",
        vec![
            group(0, None, None, vec![track(2, "c", "", Encoding::SP)]),
            group(
                1,
                Some("G"),
                Some("\u{ff27}"),
                vec![track(0, "a", "", Encoding::SP), track(1, "b", "", Encoding::SP)],
            ),
        ],
    );
    assert_eq!(
        d.compile_disc_titles(),
        (
            "0;T//1-2;G//".to_string(),
            "\u{ff10}\u{ff1b}\u{ff34}\u{ff0f}\u{ff0f}\u{ff11}\u{ff0d}\u{ff12}\u{ff1b}\u{ff27}\u{ff0f}\u{ff0f}"
                .to_string()
        )
    );
}

#[test]
fn group_of_one_track_has_no_range() {
    let d = disc(
        "",
        "",
        vec![group(0, Some("Solo"), None, vec![track(6, "x", "", Encoding::SP)])],
    );
    assert_eq!(d.compile_disc_titles().0, "7;Solo//");
}

#[test]
fn titles_without_room_are_empty() {
    let tracks: Vec<Track> = (0..254).map(|i| track(i, "", "", Encoding::LP2)).collect();
    let d = disc("Album", "", vec![group(0, None, None, tracks)]);
    assert_eq!(d.compile_disc_titles(), (String::new(), String::new()));
    let tracks: Vec<Track> = (0..252).map(|i| track(i, "", "", Encoding::LP2)).collect();
    let d = disc("Album", "", vec![group(0, None, None, tracks)]);
    assert_eq!(d.compile_disc_titles().0, "0;Album//");
    let tracks: Vec<Track> = (0..252).map(|i| track(i, "", "", Encoding::LP2)).collect();
    let d = disc("Album 890123", "", vec![group(0, None, None, tracks)]);
    assert_eq!(d.compile_disc_titles().0, "");
}

#[test]
fn cells_of_titles() {
    assert_eq!(chars_to_cells(0), 0);
    assert_eq!(chars_to_cells(1), 1);
    assert_eq!(chars_to_cells(7), 1);
    assert_eq!(chars_to_cells(8), 2);
    assert_eq!(track(0, "", "", Encoding::SP).cells_for_title(), (0, 0));
    assert_eq!(track(0, "", "", Encoding::LP2).cells_for_title(), (1, 1));
    assert_eq!(track(0, "12345678", "", Encoding::SP).cells_for_title(), (2, 0));
    assert_eq!(track(0, "", "\u{ff21}\u{ff22}", Encoding::SP).cells_for_title(), (0, 2));
}

#[test]
fn track_getters() {
    let t = track(3, "half", "wide", Encoding::LP4);
    assert_eq!(t.index(), 3);
    assert_eq!(t.title(), "half");
    assert_eq!(t.full_width_title(), "wide");
    assert_eq!(t.duration().as_frames(), 200 * 512);
    assert_eq!(t.channels(), Channels::Stereo);
    assert_eq!(t.encoding(), Encoding::LP4);
    assert_eq!(t.protected(), TrackFlag::Unprotected);
    assert_eq!(t.encoding().name(), "lp4");
}

#[test]
fn disc_getters() {
    let d = album();
    assert_eq!(d.title(), "Album");
    assert_eq!(d.full_width_title(), "");
    assert!(d.writeable());
    assert!(!d.write_protected());
    assert_eq!(d.track_count(), 5);
    let indices: Vec<u16> = d.tracks().iter().map(|t| t.index()).collect();
    assert_eq!(indices, vec![0, 1, 2, 3, 4]);
}

#[test]
fn tracks_come_in_order() {
    let d = disc(
        "",
        "",
        vec![
            group(0, None, None, vec![track(4, "e", "", Encoding::SP), track(0, "a", "", Encoding::SP)]),
            group(1, Some("G"), None, vec![track(2, "c", "", Encoding::SP), track(1, "b", "", Encoding::SP)]),
        ],
    );
    let titles: Vec<String> = d.tracks().iter().map(|t| t.title().clone()).collect();
    assert_eq!(titles, vec!["a", "b", "c", "e"]);
    assert_eq!(d.track_count(), 4);
}

#[test]
fn capacity_in_frames() {
    let used = RawTime { hours: 0, minutes: 12, seconds: 34, frames: 256 };
    assert_eq!(used.as_frames(), ((0 * 60 + 12) * 60 + 34) * 512 + 256);
    assert_eq!(used.as_frames(), 386_304);
    assert_eq!(used.as_micros(), 12 * 60_000_000 + 34 * 1_000_000 + 256 * 11_600);
    assert!(used.in_range());
}

#[test]
fn half_width_titles_are_sanitized() {
    assert_eq!(sanitize_half_width_title("My Disc"), "My Disc");
    assert_eq!(sanitize_half_width_title("\u{ff21}\u{ff22}\u{ff23}"), "ABC");
    assert_eq!(sanitize_half_width_title("a\u{3000}b"), "a b");
    assert_eq!(sanitize_half_width_title("\u{3042}"), "\u{ff71}");
    assert_eq!(sanitize_half_width_title("\u{30a2}"), "\u{ff71}");
    assert_eq!(sanitize_half_width_title("\u{304c}"), "\u{ff76}\u{ff9e}");
    assert_eq!(sanitize_half_width_title("\u{304b}\u{3099}"), "\u{ff76}\u{ff9e}");
    assert_eq!(sanitize_half_width_title("caf\u{e9}"), "cafe");
    assert_eq!(sanitize_half_width_title("\u{65e5}"), " ");
}

#[test]
fn full_width_titles_are_sanitized() {
    assert_eq!(sanitize_full_width_title("A1"), "\u{ff21}\u{ff11}");
    assert_eq!(sanitize_full_width_title(" "), "\u{3000}");
    assert_eq!(sanitize_full_width_title("\u{ff71}"), "\u{30a2}");
    assert_eq!(sanitize_full_width_title("\u{44f}"), "ia");
    assert_eq!(sanitize_full_width_title("\u{c4}"), "Ae");
    assert_eq!(sanitize_full_width_title("\u{65e5}"), "\u{65e5}");
}

#[test]
fn titles_are_sanitized_down_to_ascii() {
    assert_eq!(agressive_sanitize_title("Caf\u{e9} \u{f1}\u{65e5}x"), "Cafe nx");
    assert_eq!(agressive_sanitize_title("e\u{301}"), "e");
}

#[test]
fn titles_are_encoded_in_shift_jis() {
    assert_eq!(to_sjis("abc"), b"abc".to_vec());
    assert_eq!(to_sjis("\u{ff71}"), vec![0xb1]);
    assert_eq!(to_sjis("\u{30a2}"), vec![0x83, 0x41]);
    assert_eq!(length_after_encoding_to_sjis("\u{30a2}a"), 3);
    assert!(!validate_sjis(vec![0x83, 0x41]));
    assert!(validate_sjis(vec![0x83]));
}

#[test]
fn lengths_of_half_width_titles() {
    assert_eq!(half_width_title_length("abc"), 3);
    assert_eq!(half_width_title_length("\u{30ac}"), 4);
    assert_eq!(half_width_title_length("\u{ff76}"), 3);
    assert_eq!(half_width_title_length(""), 0);
}

#[test]
fn ranges_in_full_width() {
    assert_eq!(half_width_to_full_width_range("1-30"), "\u{ff11}\u{ff0d}\u{ff13}\u{ff10}");
    assert_eq!(half_width_to_full_width_range(";/"), "\u{ff1b}\u{ff0f}");
}

#[test]
fn decimal_numbers() {
    assert_eq!(text_of(&decimal(0)), "0");
    assert_eq!(text_of(&decimal(7)), "7");
    assert_eq!(text_of(&decimal(65536)), "65536");
    assert_eq!(parse_decimal(&chars_of("123")), Some(123));
    assert_eq!(parse_decimal(&chars_of("65535")), Some(65535));
    assert_eq!(parse_decimal(&chars_of("65536")), None);
    assert_eq!(parse_decimal(&chars_of("")), None);
    assert_eq!(parse_decimal(&chars_of("1a")), None);
    assert_eq!(parse_decimal(&chars_of("007")), Some(7));
}

#[test]
fn wav_header() {
    let header = create_wav_header(false, 1000);
    assert_eq!(header.len(), 59);
    assert_eq!(&header[0..4], b"RIFF");
    assert_eq!(&header[4..8], &[0x24, 0x04, 0, 0]);
    assert_eq!(&header[8..15], b"WAVEfmt");
    assert_eq!(&header[15..19], &[32, 0, 0, 0]);
    assert_eq!(&header[19..21], &[0x70, 0x02]);
    assert_eq!(&header[43..47], &[96, 0, 96, 0]);
    assert_eq!(&header[51..55], b"data");
    assert_eq!(&header[55..59], &[0xe8, 0x03, 0, 0]);
    let header = create_wav_header(true, 0);
    assert_eq!(&header[43..47], &[192, 0, 192, 0]);
}

#[test]
fn aea_header() {
    let flags = [1, 2, 3, 4, 5, 6, 7, 8];
    let header = create_aea_header(AeaOptions {
        name: "song",
        channels: 2,
        sound_groups: 0x0102,
        group_start: 5,
        encrypted: 1,
        flags: &flags,
    });
    assert_eq!(header.len(), 310);
    assert_eq!(&header[0..4], &[0x00, 0x08, 0, 0]);
    assert_eq!(&header[4..8], b"song");
    assert!(header[8..260].iter().all(|b| *b == 0));
    assert_eq!(&header[260..264], &[0x02, 0x01, 0, 0]);
    assert_eq!(&header[264..266], &[2, 0]);
    assert_eq!(&header[266..270], &[1, 0, 0, 0]);
    assert_eq!(&header[294..298], &[8, 0, 0, 0]);
    assert_eq!(&header[298..302], &[0, 0, 0, 0]);
    assert_eq!(&header[302..306], &[1, 0, 0, 0]);
    assert_eq!(&header[306..310], &[5, 0, 0, 0]);
}

#[test]
fn times_for_reading() {
    assert_eq!(pretty_time(0), "");
    assert_eq!(pretty_time(59), "");
    assert_eq!(pretty_time(61), "01:01");
    assert_eq!(pretty_time(3725), "01:62:05");
}

#[test]
fn tracks_of_all_groups_are_listed_in_order() {
    let listed = disc(
        "D",
        "",
        vec![
            group(0, None, None, vec![track(2, "c", "", Encoding::SP), track(0, "a", "", Encoding::SP)]),
            group(1, Some("G"), None, vec![track(1, "b", "", Encoding::LP2), track(0, "a", "", Encoding::SP)]),
        ],
    )
    .tracks();
    let seen: Vec<(u16, String)> = listed.iter().map(|t| (t.index(), t.title().clone())).collect();
    assert_eq!(
        seen,
        vec![
            (0, "a".to_string()),
            (0, "a".to_string()),
            (1, "b".to_string()),
            (2, "c".to_string()),
        ]
    );
    assert_eq!(listed[2].encoding(), Encoding::LP2);
    assert!(disc("D", "", vec![]).tracks().is_empty());
}

#[test]
fn renaming_takes_the_replacement_as_it_stands() {
    assert_eq!(renamed_raw_title("0;Old//1;G//", "$0 \\1", false), "0;$0 \\1//1;G//");
    assert_eq!(renamed_raw_title("0;a\nb//1;G//", "New", false), "0;a\nb//1;G//");
    assert_eq!(
        renamed_raw_title("\u{ff10}\u{ff1b}\u{ff2f}\u{ff0f}\u{ff0f}", "", true),
        ""
    );
}

#[test]
fn titles_with_a_slash_read_back() {
    let written = disc(
        "AC/DC",
        "",
        vec![
            group(0, None, None, vec![track(2, "c", "", Encoding::SP)]),
            group(
                1,
                Some("Live/1"),
                Some(""),
                vec![track(0, "a", "", Encoding::SP), track(1, "b", "", Encoding::SP)],
            ),
        ],
    );
    let (half, full) = written.compile_disc_titles();
    assert_eq!(half, "0;AC/DC//1-2;Live/1//");
    assert_eq!(full, "");
    assert_eq!(text_of(&disc_title_in(&chars_of(&half), false)), "AC/DC");
    let groups = parse_groups(&half, &full, 3).unwrap();
    assert_eq!(groups[0], (None, None, vec![2]));
    assert_eq!(groups[1].0, Some("Live/1".to_string()));
    assert_eq!(groups[1].2, vec![0, 1]);
    let again = disc(
        "AC/DC",
        "",
        vec![
            group(0, None, None, vec![track(2, "c", "", Encoding::SP)]),
            group(
                1,
                groups[1].0.as_deref(),
                groups[1].1.as_deref(),
                vec![track(0, "a", "", Encoding::SP), track(1, "b", "", Encoding::SP)],
            ),
        ],
    );
    assert_eq!(again.compile_disc_titles(), (half, full));
}
