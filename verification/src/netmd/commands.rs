//! The disc as a whole: its tracks, its groups, the titles that hold them,
//! and the operations on a device that work on the whole disc.
use vstd::prelude::*;
use vstd::string::{StrSliceExecFns, StringSliceAdditionalSpecFns};
use crate::netmd::base::{spec_plain, DeviceId, Link, NetMD, NetMDError, TransferView};
use crate::netmd::encryption::{Encryptor, Stream};
use crate::netmd::interface::{
    spec_acquire,
    spec_disable_new_track_protection,
    spec_disc_capacity,
    spec_disc_flags,
    spec_download_track,
    spec_leave_secure_session,
    spec_playback_status_query,
    spec_position,
    spec_raw_disc_title,
    spec_read_disc_title,
    spec_release,
    spec_save_track_to_array,
    spec_session_init,
    spec_session_key_forget,
    spec_set_disc_title,
    spec_status,
    spec_track_change,
    spec_track_count,
    spec_track_encoding,
    spec_track_flags,
    spec_track_group_list,
    spec_track_length,
    spec_track_title,
    text_in,
    Channels,
    Direction,
    DiscFlag,
    DiscFormat,
    Encoding,
    InterfaceError,
    MDSession,
    MDTrack,
    NetMDInterface,
    StatusError,
    TrackFlag,
    DOWNLOAD_PAUSE,
};
use crate::netmd::titles::{groups_view, renamed_raw_title, spec_renamed_raw_title, GroupView};
use crate::netmd::utils::{
    create_aea_header,
    create_wav_header,
    sanitize_full_width_title,
    sanitize_half_width_title,
    spec_aea_header,
    spec_sanitize_full_width_title,
    spec_sanitize_half_width_title,
    spec_wav_header,
    AeaOptions,
    AEA_NAME_SIZE,
};
use crate::netmd::mappings::spec_is_multi_byte;
use crate::netmd::titles::{decimal, delimiter, spec_decimal, spec_delimiter, spec_title_entry};
use crate::netmd::utils::{
    chars_of,
    half_width_to_full_width_range,
    is_counted_twice,
    spec_half_width_title_length,
    spec_half_width_to_full_width_range,
    spec_multi_byte_count,
    spec_utf8_len,
    spec_utf8_width,
    text_of,
    RawTime,
};

verus! {

/// The number of title cells of a disc.
pub const CELL_LIMIT: u64 = 255;

/// The bytes of a title that one cell holds.
pub const CELL_SIZE: u64 = 7;

/// The current reported status from the device.
#[derive(Debug, Clone, Copy, PartialEq, Eq, Structural)]
pub enum OperatingStatus {
    Ready,
    Playing,
    Paused,
    FastForward,
    Rewind,
    ReadingTOC,
    NoDisc,
    DiscBlank,
    ReadyForTransfer,
}

impl OperatingStatus {
    /// The status that a word of the device names.
    pub open spec fn spec_from_u16(code: u16) -> Option<OperatingStatus> {
        if code == 50687 {
            Some(OperatingStatus::Ready)
        } else if code == 50037 {
            Some(OperatingStatus::Playing)
        } else if code == 50045 {
            Some(OperatingStatus::Paused)
        } else if code == 49983 {
            Some(OperatingStatus::FastForward)
        } else if code == 49999 {
            Some(OperatingStatus::Rewind)
        } else if code == 65315 {
            Some(OperatingStatus::ReadingTOC)
        } else if code == 65296 {
            Some(OperatingStatus::NoDisc)
        } else if code == 65535 {
            Some(OperatingStatus::DiscBlank)
        } else if code == 65319 {
            Some(OperatingStatus::ReadyForTransfer)
        } else {
            None
        }
    }

    /// The status that a word of the device names.
    pub fn from_u16(code: u16) -> (status: Option<OperatingStatus>)
        ensures
            status == OperatingStatus::spec_from_u16(code),
    {
        if code == 50687 {
            Some(OperatingStatus::Ready)
        } else if code == 50037 {
            Some(OperatingStatus::Playing)
        } else if code == 50045 {
            Some(OperatingStatus::Paused)
        } else if code == 49983 {
            Some(OperatingStatus::FastForward)
        } else if code == 49999 {
            Some(OperatingStatus::Rewind)
        } else if code == 65315 {
            Some(OperatingStatus::ReadingTOC)
        } else if code == 65296 {
            Some(OperatingStatus::NoDisc)
        } else if code == 65535 {
            Some(OperatingStatus::DiscBlank)
        } else if code == 65319 {
            Some(OperatingStatus::ReadyForTransfer)
        } else {
            None
        }
    }
}

/// A representation of time in the way a NetMD device uses internally.
#[derive(Debug, Clone, Copy, PartialEq, Eq, Structural)]
pub struct Time {
    pub minute: u16,
    pub second: u16,
    pub frame: u16,
}

impl Time {
    /// The time in milliseconds, to the second.
    pub fn as_millis(&self) -> (millis: u64)
        ensures
            millis == self.minute * 60000 + self.second * 1000,
    {
        (self.minute as u64 * 60000) + (self.second as u64 * 1000)
    }
}

/// A representation of the current status of the device.
#[derive(Debug, Clone, Copy, PartialEq, Eq, Structural)]
pub struct DeviceStatus {
    pub disc_present: bool,
    pub state: Option<OperatingStatus>,
    pub track: u8,
    pub time: Time,
}

/// The number of cells that a title of `len` bytes takes: a seventh of the
/// bytes, rounded up.
pub open spec fn spec_chars_to_cells(len: nat) -> nat {
    (len + 6) / 7
}

/// The number of cells that a title of `len` bytes takes.
pub fn chars_to_cells(len: usize) -> (cells: usize)
    ensures
        cells == spec_chars_to_cells(len as nat),
{
    if len % 7 == 0 {
        len / 7
    } else {
        len / 7 + 1
    }
}

/// Information about a single track
#[derive(Debug, Clone, PartialEq, Eq)]
pub struct Track {
    index: u16,
    title: String,
    full_width_title: String,
    duration: RawTime,
    channel: Channels,
    encoding: Encoding,
    protected: TrackFlag,
}

/// What a [`Track`] holds.
pub ghost struct TrackView {
    pub index: u16,
    pub title: Seq<char>,
    pub full_width_title: Seq<char>,
    pub duration: RawTime,
    pub channel: Channels,
    pub encoding: Encoding,
    pub protected: TrackFlag,
}

impl View for Track {
    type V = TrackView;

    closed spec fn view(&self) -> TrackView {
        TrackView {
            index: self.index,
            title: self.title@,
            full_width_title: self.full_width_title@,
            duration: self.duration,
            channel: self.channel,
            encoding: self.encoding,
            protected: self.protected,
        }
    }
}

/// The number of cells that a title of `len` bytes takes, as far as it
/// matters: a disc has 255 cells, and 256 stands for any number above.
pub open spec fn capped_cells(len: nat) -> nat {
    if spec_chars_to_cells(len) > CELL_LIMIT {
        (CELL_LIMIT + 1) as nat
    } else {
        spec_chars_to_cells(len)
    }
}

/// The number of cells that the titles of a track take: those of the
/// half-width title, and those of the full-width title, which takes two bytes
/// for each of its bytes in UTF-8. A track that is not in SP takes at least
/// one cell of each kind.
pub open spec fn spec_cells_for_title(track: TrackView) -> (nat, nat) {
    let least: nat = if track.encoding is SP {
        0
    } else {
        1
    };
    let half = spec_chars_to_cells(spec_half_width_title_length(track.title));
    let full = spec_chars_to_cells(spec_utf8_len(track.full_width_title) * 2);
    (
        if half < least {
            least
        } else {
            half
        },
        if full < least {
            least
        } else {
            full
        },
    )
}

/// The length of a half-width title as the budget of the disc counts it, as
/// far as it matters: 1800 stands for any length above, which is more than
/// the disc has room for.
pub fn capped_half_width_length(title: &str) -> (len: u64)
    ensures
        len == if spec_half_width_title_length(title@) > 1800 {
            1800
        } else {
            spec_half_width_title_length(title@)
        },
{
    let chars = chars_of(title);
    let mut len: u64 = 0;
    let mut i: usize = 0;
    while i < chars.len()
        invariant
            i <= chars.len(),
            chars@ == title@,
            len <= 1800,
            len == if spec_half_width_title_length(chars@.subrange(0, i as int)) > 1800 {
                1800
            } else {
                spec_half_width_title_length(chars@.subrange(0, i as int))
            },
        decreases chars.len() - i,
    {
        proof {
            assert(chars@.subrange(0, i + 1).drop_last() == chars@.subrange(0, i as int));
        }
        let c = chars[i];
        let code = c as u32;
        let width: u64 = if code < 0x80 {
            1
        } else if code < 0x800 {
            2
        } else if code < 0x1_0000 {
            3
        } else {
            4
        };
        let extra: u64 = if is_counted_twice(c) {
            1
        } else {
            0
        };
        len = if len + width + extra > 1800 {
            1800
        } else {
            len + width + extra
        };
        i = i + 1;
    }
    assert(chars@.subrange(0, chars@.len() as int) == chars@);
    len
}

/// The length of a text in UTF-8, as far as it matters: 1800 stands for any
/// length above.
pub fn capped_utf8_length(title: &str) -> (len: u64)
    ensures
        len == if spec_utf8_len(title@) > 1800 {
            1800
        } else {
            spec_utf8_len(title@)
        },
{
    let chars = chars_of(title);
    let mut len: u64 = 0;
    let mut i: usize = 0;
    while i < chars.len()
        invariant
            i <= chars.len(),
            chars@ == title@,
            len <= 1800,
            len == if spec_utf8_len(chars@.subrange(0, i as int)) > 1800 {
                1800
            } else {
                spec_utf8_len(chars@.subrange(0, i as int))
            },
        decreases chars.len() - i,
    {
        proof {
            assert(chars@.subrange(0, i + 1).drop_last() == chars@.subrange(0, i as int));
        }
        let code = chars[i] as u32;
        let width: u64 = if code < 0x80 {
            1
        } else if code < 0x800 {
            2
        } else if code < 0x1_0000 {
            3
        } else {
            4
        };
        len = if len + width > 1800 {
            1800
        } else {
            len + width
        };
        i = i + 1;
    }
    assert(chars@.subrange(0, chars@.len() as int) == chars@);
    len
}

impl Track {
    /// A track.
    pub fn new(
        index: u16,
        title: String,
        full_width_title: String,
        duration: RawTime,
        channel: Channels,
        encoding: Encoding,
        protected: TrackFlag,
    ) -> (track: Track)
        ensures
            track@ == (TrackView {
                index,
                title: title@,
                full_width_title: full_width_title@,
                duration,
                channel,
                encoding,
                protected,
            }),
    {
        Track { index, title, full_width_title, duration, channel, encoding, protected }
    }

    /// Get the number of title cells a title will take up: those of the
    /// half-width title and those of the full-width title. 256 stands for any
    /// number above 255.
    pub fn cells_for_title(&self) -> (cells: (usize, usize))
        ensures
            cells.0 == if spec_cells_for_title(self@).0 > CELL_LIMIT {
                CELL_LIMIT + 1
            } else {
                spec_cells_for_title(self@).0 as int
            },
            cells.1 == if spec_cells_for_title(self@).1 > CELL_LIMIT {
                CELL_LIMIT + 1
            } else {
                spec_cells_for_title(self@).1 as int
            },
    {
        let encoding_name_correction: u64 = match self.encoding {
            Encoding::SP => 0,
            _ => 1,
        };
        let full_width_length = (capped_utf8_length(self.full_width_title.as_str()) * 2 + 6) / 7;
        let half_width_length = (capped_half_width_length(self.title.as_str()) + 6) / 7;
        let half = if half_width_length < encoding_name_correction {
            encoding_name_correction
        } else if half_width_length > CELL_LIMIT {
            CELL_LIMIT + 1
        } else {
            half_width_length
        };
        let full = if full_width_length < encoding_name_correction {
            encoding_name_correction
        } else if full_width_length > CELL_LIMIT {
            CELL_LIMIT + 1
        } else {
            full_width_length
        };
        (half as usize, full as usize)
    }

    /// The place of the track on the disc, counted from zero.
    pub fn index(&self) -> (index: u16)
        ensures
            index == self@.index,
    {
        self.index
    }

    /// The half-width title of the track.
    pub fn title(&self) -> (title: &String)
        ensures
            title@ == self@.title,
    {
        &self.title
    }

    /// The full-width title of the track.
    pub fn full_width_title(&self) -> (title: &String)
        ensures
            title@ == self@.full_width_title,
    {
        &self.full_width_title
    }

    /// The length of the track.
    pub fn duration(&self) -> (duration: RawTime)
        ensures
            duration == self@.duration,
    {
        self.duration
    }

    /// The channels of the track.
    pub fn channels(&self) -> (channels: Channels)
        ensures
            channels == self@.channel,
    {
        self.channel
    }

    /// The encoding of the track.
    pub fn encoding(&self) -> (encoding: Encoding)
        ensures
            encoding == self@.encoding,
    {
        self.encoding
    }

    /// Whether the track is protected.
    pub fn protected(&self) -> (flag: TrackFlag)
        ensures
            flag == self@.protected,
    {
        self.protected
    }

    /// A copy of the track.
    pub fn duplicate(&self) -> (track: Track)
        ensures
            track@ == self@,
    {
        Track {
            index: self.index,
            title: self.title.clone(),
            full_width_title: self.full_width_title.clone(),
            duration: self.duration,
            channel: self.channel,
            encoding: self.encoding,
            protected: self.protected,
        }
    }
}

/// Information about a single group on the disc, containing [`Track`]s
#[derive(Debug, Clone)]
pub struct Group {
    index: u16,
    title: Option<String>,
    full_width_title: Option<String>,
    tracks: Vec<Track>,
}

/// What a [`Group`] holds.
pub ghost struct GroupModel {
    pub index: u16,
    pub title: Option<Seq<char>>,
    pub full_width_title: Option<Seq<char>>,
    pub tracks: Seq<TrackView>,
}

/// What an optional text holds.
pub open spec fn option_text(text: Option<String>) -> Option<Seq<char>> {
    match text {
        Some(t) => Some(t@),
        None => None,
    }
}

impl View for Group {
    type V = GroupModel;

    closed spec fn view(&self) -> GroupModel {
        GroupModel {
            index: self.index,
            title: option_text(self.title),
            full_width_title: option_text(self.full_width_title),
            tracks: Seq::new(self.tracks@.len(), |i: int| self.tracks@[i]@),
        }
    }
}

impl Group {
    /// A group. A group without a title holds the tracks that are in no
    /// other.
    pub fn new(
        index: u16,
        title: Option<String>,
        full_width_title: Option<String>,
        tracks: Vec<Track>,
    ) -> (group: Group)
        ensures
            group@ == (GroupModel {
                index,
                title: option_text(title),
                full_width_title: option_text(full_width_title),
                tracks: Seq::new(tracks@.len(), |i: int| tracks@[i]@),
            }),
    {
        Group { index, title, full_width_title, tracks }
    }

    /// The place of the group among the groups.
    pub fn index(&self) -> (index: u16)
        ensures
            index == self@.index,
    {
        self.index
    }

    /// The half-width title of the group.
    pub fn title(&self) -> (title: &Option<String>)
        ensures
            option_text(*title) == self@.title,
    {
        &self.title
    }

    /// The full-width title of the group.
    pub fn full_width_title(&self) -> (title: &Option<String>)
        ensures
            option_text(*title) == self@.full_width_title,
    {
        &self.full_width_title
    }

    /// The tracks of the group.
    pub fn tracks(&self) -> (tracks: &Vec<Track>)
        ensures
            Seq::new(tracks@.len(), |i: int| tracks@[i]@) == self@.tracks,
    {
        &self.tracks
    }
}

/// Information about a MiniDisc complete with [`Track`]s, [`Group`]s, and metadata.
#[derive(Debug, Clone)]
pub struct Disc {
    title: String,
    full_width_title: String,
    writeable: bool,
    write_protected: bool,
    used: u64,
    left: u64,
    total: u64,
    track_count: u16,
    groups: Vec<Group>,
}

/// What a [`Disc`] holds.
pub ghost struct DiscView {
    pub title: Seq<char>,
    pub full_width_title: Seq<char>,
    pub writeable: bool,
    pub write_protected: bool,
    pub used: u64,
    pub left: u64,
    pub total: u64,
    pub track_count: u16,
    pub groups: Seq<GroupModel>,
}

impl View for Disc {
    type V = DiscView;

    closed spec fn view(&self) -> DiscView {
        DiscView {
            title: self.title@,
            full_width_title: self.full_width_title@,
            writeable: self.writeable,
            write_protected: self.write_protected,
            used: self.used,
            left: self.left,
            total: self.total,
            track_count: self.track_count,
            groups: Seq::new(self.groups@.len(), |i: int| self.groups@[i]@),
        }
    }
}

/// Whether a track is among tracks.
pub open spec fn holds(tracks: Seq<Track>, track: TrackView) -> bool {
    exists|i: int| 0 <= i < tracks.len() && #[trigger] tracks[i]@ == track
}

/// What tracks hold, one after the other.
pub open spec fn track_views(tracks: Seq<Track>) -> Seq<TrackView> {
    Seq::new(tracks.len(), |i: int| tracks[i]@)
}

/// The tracks of the first `n` groups, group after group.
pub open spec fn spec_all_tracks(groups: Seq<GroupModel>, n: nat) -> Seq<TrackView>
    decreases n,
{
    if n == 0 {
        Seq::empty()
    } else {
        spec_all_tracks(groups, (n - 1) as nat) + groups[n - 1].tracks
    }
}

/// The number of the tracks in the first `n` groups.
pub open spec fn spec_track_total(groups: Seq<GroupModel>, n: nat) -> nat
    decreases n,
{
    if n == 0 {
        0
    } else {
        spec_track_total(groups, (n - 1) as nat) + groups[n - 1].tracks.len()
    }
}

/// The cells that the titles of the first `n` tracks take, of each kind.
pub open spec fn cells_of_tracks(tracks: Seq<TrackView>, n: nat) -> (nat, nat)
    decreases n,
{
    if n == 0 {
        (0, 0)
    } else {
        let before = cells_of_tracks(tracks, (n - 1) as nat);
        let cells = spec_cells_for_title(tracks[n - 1]);
        (before.0 + cells.0, before.1 + cells.1)
    }
}

/// The cells that the titles of the tracks of the first `n` groups take, of
/// each kind.
pub open spec fn cells_of_groups(groups: Seq<GroupModel>, n: nat) -> (nat, nat)
    decreases n,
{
    if n == 0 {
        (0, 0)
    } else {
        let before = cells_of_groups(groups, (n - 1) as nat);
        let cells = cells_of_tracks(groups[n - 1].tracks, groups[n - 1].tracks.len());
        (before.0 + cells.0, before.1 + cells.1)
    }
}

/// The bytes that the title of the disc may take, in the half-width and in
/// the full-width title: seven for each cell that the titles of the tracks
/// and the frame of an empty title, `0;//`, leave of the 255.
pub open spec fn spec_available(disc: DiscView) -> (nat, nat) {
    let tracks = cells_of_groups(disc.groups, disc.groups.len());
    let half = 1 + tracks.0;
    let full = 2 + tracks.1;
    (
        if half > CELL_LIMIT {
            0
        } else {
            ((CELL_LIMIT - half) * CELL_SIZE) as nat
        },
        if full > CELL_LIMIT {
            0
        } else {
            ((CELL_LIMIT - full) * CELL_SIZE) as nat
        },
    )
}

/// Whether any of the first `n` tracks has a full-width title.
pub open spec fn any_wide_track(tracks: Seq<TrackView>, n: nat) -> bool
    decreases n,
{
    if n == 0 {
        false
    } else {
        any_wide_track(tracks, (n - 1) as nat) || tracks[n - 1].full_width_title.len() > 0
    }
}

/// Whether any of the first `n` groups has a full-width title, or a track
/// that has one.
pub open spec fn any_wide(groups: Seq<GroupModel>, n: nat) -> bool
    decreases n,
{
    if n == 0 {
        false
    } else {
        any_wide(groups, (n - 1) as nat) || (groups[n - 1].full_width_title matches Some(t)
            && t.len() > 0) || any_wide_track(groups[n - 1].tracks, groups[n - 1].tracks.len())
    }
}

/// The lowest index among the first `n` tracks.
pub open spec fn spec_min_index(tracks: Seq<TrackView>, n: nat) -> u16
    decreases n,
{
    if n <= 1 {
        tracks[0].index
    } else {
        let before = spec_min_index(tracks, (n - 1) as nat);
        if tracks[n - 1].index < before {
            tracks[n - 1].index
        } else {
            before
        }
    }
}

/// The range of a group in a raw title: its first track, and its last where
/// it has more than one, counted from one. The last is taken to be as many
/// tracks behind the first as the group has.
pub open spec fn spec_group_range(group: GroupModel) -> Seq<char> {
    let first = spec_min_index(group.tracks, group.tracks.len()) as nat + 1;
    if group.tracks.len() == 1 {
        spec_decimal(first)
    } else {
        spec_decimal(first) + seq!['-'] + spec_decimal((first + group.tracks.len() - 1) as nat)
    }
}

/// Whether a group has an entry in the raw title: it has a title and tracks.
pub open spec fn has_entry(group: GroupModel) -> bool {
    group.title is Some && group.tracks.len() > 0
}

/// The entry of a group in the half-width raw title.
pub open spec fn spec_group_entry(group: GroupModel) -> Seq<char> {
    spec_group_range(group) + seq![';'] + group.title->0 + spec_delimiter(false)
}

/// The entry of a group in the full-width raw title.
pub open spec fn spec_wide_group_entry(group: GroupModel) -> Seq<char> {
    spec_half_width_to_full_width_range(spec_group_range(group)) + seq!['\u{ff1b}'] + (
    match group.full_width_title {
        Some(t) => t,
        None => Seq::empty(),
    }) + spec_delimiter(true)
}

/// The entries of the first `n` groups in the half-width raw title.
pub open spec fn spec_group_entries(groups: Seq<GroupModel>, n: nat) -> Seq<char>
    decreases n,
{
    if n == 0 {
        Seq::empty()
    } else if has_entry(groups[n - 1]) {
        spec_group_entries(groups, (n - 1) as nat) + spec_group_entry(groups[n - 1])
    } else {
        spec_group_entries(groups, (n - 1) as nat)
    }
}

/// The entries of the first `n` groups in the full-width raw title.
pub open spec fn spec_wide_group_entries(groups: Seq<GroupModel>, n: nat) -> Seq<char>
    decreases n,
{
    if n == 0 {
        Seq::empty()
    } else if has_entry(groups[n - 1]) {
        spec_wide_group_entries(groups, (n - 1) as nat) + spec_wide_group_entry(groups[n - 1])
    } else {
        spec_wide_group_entries(groups, (n - 1) as nat)
    }
}

/// The half-width raw title of a disc without regard to room: the entry of
/// the disc title, where the disc has one, and the entries of the groups.
pub open spec fn spec_composed(disc: DiscView) -> Seq<char> {
    (if disc.title.len() > 0 {
        spec_title_entry(disc.title, false)
    } else {
        Seq::empty()
    }) + spec_group_entries(disc.groups, disc.groups.len())
}

/// The full-width raw title of a disc without regard to room: the entry of
/// the disc title and the entries of the groups.
pub open spec fn spec_wide_composed(disc: DiscView) -> Seq<char> {
    spec_title_entry(disc.full_width_title, true) + spec_wide_group_entries(
        disc.groups,
        disc.groups.len(),
    )
}

/// Whether a half-width raw title has room on the disc.
pub open spec fn fits_half(disc: DiscView, raw: Seq<char>) -> bool {
    spec_chars_to_cells(spec_half_width_title_length(raw)) * CELL_SIZE <= spec_available(disc).0
}

/// Whether a full-width raw title has room on the disc.
pub open spec fn fits_full(disc: DiscView, raw: Seq<char>) -> bool {
    spec_chars_to_cells(spec_utf8_len(raw) * 2) * CELL_SIZE <= spec_available(disc).1
}

/// The raw titles of a disc, half-width and full-width. Each is written in
/// full or not at all: a title that has no room on the disc is empty. There
/// is a full-width title only where a group or a track has one.
pub open spec fn spec_compile_disc_titles(disc: DiscView) -> (Seq<char>, Seq<char>) {
    (
        if fits_half(disc, spec_composed(disc)) {
            spec_composed(disc)
        } else {
            Seq::empty()
        },
        if any_wide(disc.groups, disc.groups.len()) && fits_full(disc, spec_wide_composed(disc)) {
            spec_wide_composed(disc)
        } else {
            Seq::empty()
        },
    )
}

/// A sum of cells, as far as it matters.
pub fn add_cells(a: usize, b: usize) -> (sum: usize)
    requires
        a <= CELL_LIMIT + 1,
        b <= CELL_LIMIT + 1,
    ensures
        sum == if a + b > CELL_LIMIT {
            CELL_LIMIT + 1
        } else {
            a + b
        },
{
    if a + b > CELL_LIMIT as usize {
        CELL_LIMIT as usize + 1
    } else {
        a + b
    }
}

/// A number of cells, as far as it matters.
pub open spec fn capped(n: nat) -> nat {
    if n > CELL_LIMIT {
        (CELL_LIMIT + 1) as nat
    } else {
        n
    }
}

impl Disc {
    /// A disc.
    pub fn new(
        title: String,
        full_width_title: String,
        writeable: bool,
        write_protected: bool,
        used: u64,
        left: u64,
        total: u64,
        track_count: u16,
        groups: Vec<Group>,
    ) -> (disc: Disc)
        ensures
            disc@ == (DiscView {
                title: title@,
                full_width_title: full_width_title@,
                writeable,
                write_protected,
                used,
                left,
                total,
                track_count,
                groups: Seq::new(groups@.len(), |i: int| groups@[i]@),
            }),
    {
        Disc {
            title,
            full_width_title,
            writeable,
            write_protected,
            used,
            left,
            total,
            track_count,
            groups,
        }
    }

    /// The half-width title of the disc.
    pub fn title(&self) -> (title: &String)
        ensures
            title@ == self@.title,
    {
        &self.title
    }

    /// The full-width title of the disc.
    pub fn full_width_title(&self) -> (title: &String)
        ensures
            title@ == self@.full_width_title,
    {
        &self.full_width_title
    }

    /// Whether the disc can be written.
    pub fn writeable(&self) -> (b: bool)
        ensures
            b == self@.writeable,
    {
        self.writeable
    }

    /// Whether the disc is protected against writing.
    pub fn write_protected(&self) -> (b: bool)
        ensures
            b == self@.write_protected,
    {
        self.write_protected
    }

    /// The frames of the disc that are used.
    pub fn used(&self) -> (frames: u64)
        ensures
            frames == self@.used,
    {
        self.used
    }

    /// The frames of the disc that are left.
    pub fn left(&self) -> (frames: u64)
        ensures
            frames == self@.left,
    {
        self.left
    }

    /// The frames of the disc in all.
    pub fn total(&self) -> (frames: u64)
        ensures
            frames == self@.total,
    {
        self.total
    }

    /// The groups of the disc.
    pub fn groups(&self) -> (groups: &Vec<Group>)
        ensures
            Seq::new(groups@.len(), |i: int| groups@[i]@) == self@.groups,
    {
        &self.groups
    }

    /// The number of the tracks of the disc, as its groups hold them.
    pub fn track_count(&self) -> (count: u16)
        ensures
            count == spec_track_total(self@.groups, self@.groups.len()) % 0x1_0000,
    {
        let mut count: u16 = 0;
        let mut g: usize = 0;
        while g < self.groups.len()
            invariant
                g <= self.groups.len(),
                count == spec_track_total(self@.groups, g as nat) % 0x1_0000,
            decreases self.groups.len() - g,
        {
            assert(self@.groups[g as int] == self.groups@[g as int]@);
            let size = (self.groups[g].tracks.len() % 0x1_0000) as u32;
            proof {
                let before = spec_track_total(self@.groups, g as nat) as int;
                let len = self.groups@[g as int].tracks@.len() as int;
                vstd::arithmetic::div_mod::lemma_add_mod_noop(before, len, 0x1_0000);
            }
            count = ((count as u32 + size) % 0x1_0000) as u16;
            g = g + 1;
        }
        count
    }

    /// The tracks of the disc in the order of their places on the disc: the
    /// tracks of all the groups, each as often as the groups hold it, lowest
    /// index first.
    pub fn tracks(&self) -> (tracks: Vec<Track>)
        ensures
            track_views(tracks@).to_multiset() == spec_all_tracks(
                self@.groups,
                self@.groups.len(),
            ).to_multiset(),
            tracks@.len() == spec_track_total(self@.groups, self@.groups.len()),
            forall|i: int, j: int|
                0 <= i <= j < tracks@.len() ==> tracks@[i]@.index <= tracks@[j]@.index,
            forall|g: int, t: int|
                0 <= g < self@.groups.len() && 0 <= t < self@.groups[g].tracks.len() ==> holds(
                    tracks@,
                    #[trigger] self@.groups[g].tracks[t],
                ),
    {
        let mut tracks: Vec<Track> = Vec::new();
        let mut g: usize = 0;
        assert(track_views(tracks@) == Seq::<TrackView>::empty());
        while g < self.groups.len()
            invariant
                g <= self.groups.len(),
                track_views(tracks@).to_multiset() == spec_all_tracks(
                    self@.groups,
                    g as nat,
                ).to_multiset(),
                tracks@.len() == spec_track_total(self@.groups, g as nat),
                forall|i: int, j: int|
                    0 <= i <= j < tracks@.len() ==> tracks@[i]@.index <= tracks@[j]@.index,
                forall|h: int, t: int|
                    0 <= h < g && 0 <= t < self@.groups[h].tracks.len() ==> holds(
                        tracks@,
                        #[trigger] self@.groups[h].tracks[t],
                    ),
            decreases self.groups.len() - g,
        {
            let group = &self.groups[g];
            assert(self@.groups[g as int] == group@);
            let ghost before = tracks@.len();
            let ghost earlier = spec_all_tracks(self@.groups, g as nat);
            let mut t: usize = 0;
            assert(earlier + group@.tracks.subrange(0, 0) == earlier);
            while t < group.tracks.len()
                invariant
                    t <= group.tracks.len(),
                    g < self.groups.len(),
                    self@.groups[g as int] == group@,
                    earlier == spec_all_tracks(self@.groups, g as nat),
                    track_views(tracks@).to_multiset() == (earlier + group@.tracks.subrange(
                        0,
                        t as int,
                    )).to_multiset(),
                    tracks@.len() == before + t,
                    forall|i: int, j: int|
                        0 <= i <= j < tracks@.len() ==> tracks@[i]@.index <= tracks@[j]@.index,
                    forall|h: int, u: int|
                        0 <= h < g && 0 <= u < self@.groups[h].tracks.len() ==> holds(
                            tracks@,
                            #[trigger] self@.groups[h].tracks[u],
                        ),
                    forall|u: int| 0 <= u < t ==> holds(tracks@, #[trigger] group@.tracks[u]),
                decreases group.tracks.len() - t,
            {
                let track = group.tracks[t].duplicate();
                assert(group@.tracks[t as int] == track@);
                let mut at: usize = 0;
                while at < tracks.len() && tracks[at].index <= track.index
                    invariant
                        at <= tracks.len(),
                        forall|i: int| 0 <= i < at ==> tracks@[i]@.index <= track@.index,
                    decreases tracks.len() - at,
                {
                    at = at + 1;
                }
                let ghost old_tracks = tracks@;
                tracks.insert(at, track);
                proof {
                    assert forall|i: int, j: int| 0 <= i <= j < tracks@.len() implies tracks@[i]@.index
                        <= tracks@[j]@.index by {
                        if i < at && j > at {
                            assert(tracks@[i] == old_tracks[i]);
                            assert(tracks@[j] == old_tracks[j - 1]);
                        }
                    }
                    assert forall|v: TrackView| holds(old_tracks, v) implies holds(tracks@, v) by {
                        let i = choose|i: int|
                            0 <= i < old_tracks.len() && #[trigger] old_tracks[i]@ == v;
                        if i < at {
                            assert(tracks@[i] == old_tracks[i]);
                        } else {
                            assert(tracks@[i + 1] == old_tracks[i]);
                        }
                    }
                    assert(tracks@[at as int]@ == group@.tracks[t as int]);
                    assert(holds(tracks@, group@.tracks[t as int]));
                    let v = group@.tracks[t as int];
                    let taken = earlier + group@.tracks.subrange(0, t as int);
                    assert(track_views(tracks@) == track_views(old_tracks).insert(at as int, v));
                    vstd::seq_lib::to_multiset_insert(track_views(old_tracks), at as int, v);
                    assert(earlier + group@.tracks.subrange(0, t + 1) == taken.push(v));
                    vstd::seq_lib::to_multiset_build(taken, v);
                }
                t = t + 1;
            }
            assert(group@.tracks.subrange(0, group@.tracks.len() as int) == group@.tracks);
            g = g + 1;
        }
        tracks
    }

    /// The cells that the titles of the tracks take, of each kind, as far as
    /// it matters, and whether any track has a full-width title.
    fn track_cells(&self) -> (r: (usize, usize, bool))
        ensures
            r.0 == capped(cells_of_groups(self@.groups, self@.groups.len()).0),
            r.1 == capped(cells_of_groups(self@.groups, self@.groups.len()).1),
            r.2 == any_wide(self@.groups, self@.groups.len()),
    {
        let mut half: usize = 0;
        let mut full: usize = 0;
        let mut wide = false;
        let mut g: usize = 0;
        while g < self.groups.len()
            invariant
                g <= self.groups.len(),
                half == capped(cells_of_groups(self@.groups, g as nat).0),
                full == capped(cells_of_groups(self@.groups, g as nat).1),
                wide == any_wide(self@.groups, g as nat),
            decreases self.groups.len() - g,
        {
            let group = &self.groups[g];
            assert(self@.groups[g as int] == group@);
            let mut group_half: usize = 0;
            let mut group_full: usize = 0;
            let mut group_wide = false;
            let mut t: usize = 0;
            while t < group.tracks.len()
                invariant
                    t <= group.tracks.len(),
                    group_half == capped(cells_of_tracks(group@.tracks, t as nat).0),
                    group_full == capped(cells_of_tracks(group@.tracks, t as nat).1),
                    group_wide == any_wide_track(group@.tracks, t as nat),
                decreases group.tracks.len() - t,
            {
                let track = &group.tracks[t];
                assert(group@.tracks[t as int] == track@);
                let (h, f) = track.cells_for_title();
                group_half = add_cells(group_half, h);
                group_full = add_cells(group_full, f);
                if track.full_width_title.as_str().unicode_len() > 0 {
                    group_wide = true;
                }
                t = t + 1;
            }
            half = add_cells(half, group_half);
            full = add_cells(full, group_full);
            let titled = match &group.full_width_title {
                Some(title) => title.as_str().unicode_len() > 0,
                None => false,
            };
            if titled || group_wide {
                wide = true;
            }
            g = g + 1;
        }
        (half, full, wide)
    }

    /// The bytes that the title of the disc may take, in the half-width and
    /// in the full-width title.
    fn remaining_characters_for_titles(&self) -> (r: (u64, u64, bool))
        ensures
            r.0 == spec_available(self@).0,
            r.1 == spec_available(self@).1,
            r.2 == any_wide(self@.groups, self@.groups.len()),
    {
        let (half, full, wide) = self.track_cells();
        let used_half_width_cells = 1 + half as u64;
        let used_full_width_cells = 2 + full as u64;
        (
            if used_half_width_cells > CELL_LIMIT {
                0
            } else {
                (CELL_LIMIT - used_half_width_cells) * CELL_SIZE
            },
            if used_full_width_cells > CELL_LIMIT {
                0
            } else {
                (CELL_LIMIT - used_full_width_cells) * CELL_SIZE
            },
            wide,
        )
    }

    /// The range of a group in a raw title.
    fn group_range(group: &Group) -> (range: Vec<char>)
        requires
            group@.tracks.len() > 0,
        ensures
            range@ == spec_group_range(group@),
    {
        let mut min_group_index: u16 = group.tracks[0].index;
        assert(group@.tracks[0] == group.tracks@[0]@);
        let mut t: usize = 1;
        while t < group.tracks.len()
            invariant
                1 <= t <= group.tracks.len(),
                min_group_index == spec_min_index(group@.tracks, t as nat),
            decreases group.tracks.len() - t,
        {
            assert(group@.tracks[t as int] == group.tracks@[t as int]@);
            if group.tracks[t].index < min_group_index {
                min_group_index = group.tracks[t].index;
            }
            t = t + 1;
        }
        let first: u32 = min_group_index as u32 + 1;
        let mut range = decimal(first);
        if group.tracks.len() != 1 {
            range.push('-');
            let count = group.tracks.len();
            let mut digits = crate::netmd::titles::decimal_of(first as u128 + count as u128 - 1);
            range.append(&mut digits);
        }
        range
    }

    /// The raw titles of the disc, half-width and full-width, for writing to
    /// the disc. A title that has no room on the disc is empty.
    pub fn compile_disc_titles(&self) -> (titles: (String, String))
        ensures
            (titles.0@, titles.1@) == spec_compile_disc_titles(self@),
    {
        let (available_half_width, available_full_width, use_full_width) =
            self.remaining_characters_for_titles();
        let mut new_raw_title: Vec<char> = Vec::new();
        if self.title.as_str().unicode_len() > 0 {
            new_raw_title = crate::netmd::titles::title_marker(false);
            let mut title = chars_of(self.title.as_str());
            new_raw_title.append(&mut title);
            let mut end = delimiter(false);
            new_raw_title.append(&mut end);
        }
        let mut new_raw_full_width_title = crate::netmd::titles::title_marker(true);
        let mut wide_title = chars_of(self.full_width_title.as_str());
        new_raw_full_width_title.append(&mut wide_title);
        let mut wide_end = delimiter(true);
        new_raw_full_width_title.append(&mut wide_end);
        let ghost head = new_raw_title@;
        let ghost wide_head = new_raw_full_width_title@;
        let mut g: usize = 0;
        while g < self.groups.len()
            invariant
                g <= self.groups.len(),
                new_raw_title@ == head + spec_group_entries(self@.groups, g as nat),
                new_raw_full_width_title@ == wide_head + spec_wide_group_entries(
                    self@.groups,
                    g as nat,
                ),
            decreases self.groups.len() - g,
        {
            let group = &self.groups[g];
            assert(self@.groups[g as int] == group@);
            match &group.title {
                None => {},
                Some(title) => {
                    if group.tracks.len() > 0 {
                        let range = Disc::group_range(group);
                        let wide_range = chars_of(
                            half_width_to_full_width_range(text_of(&range).as_str()).as_str(),
                        );
                        let mut entry = range;
                        entry.push(';');
                        let mut name = chars_of(title.as_str());
                        entry.append(&mut name);
                        let mut end = delimiter(false);
                        entry.append(&mut end);
                        assert(entry@ == spec_group_entry(group@));
                        let mut wide_entry = wide_range;
                        wide_entry.push('\u{ff1b}');
                        let mut wide_name = match &group.full_width_title {
                            Some(t) => chars_of(t.as_str()),
                            None => Vec::new(),
                        };
                        wide_entry.append(&mut wide_name);
                        let mut wide_end = delimiter(true);
                        wide_entry.append(&mut wide_end);
                        assert(wide_entry@ == spec_wide_group_entry(group@));
                        new_raw_title.append(&mut entry);
                        new_raw_full_width_title.append(&mut wide_entry);
                    }
                },
            }
            g = g + 1;
        }
        assert(new_raw_title@ == spec_composed(self@));
        assert(new_raw_full_width_title@ == spec_wide_composed(self@));
        let half = text_of(&new_raw_title);
        let full = text_of(&new_raw_full_width_title);
        let half_width_titles_length_in_toc = (capped_half_width_length(half.as_str()) + 6) / 7
            * CELL_SIZE;
        let full_width_titles_length_in_toc = (capped_utf8_length(full.as_str()) * 2 + 6) / 7
            * CELL_SIZE;
        (
            if half_width_titles_length_in_toc <= available_half_width {
                half
            } else {
                text_of(&Vec::new())
            },
            if use_full_width && full_width_titles_length_in_toc <= available_full_width {
                full
            } else {
                text_of(&Vec::new())
            },
        )
    }
}

/// The most frames that a disc holds: 82 minutes.
pub const MOST_FRAMES: u64 = 512 * 60 * 82;

/// The bytes of a sound group of SP audio.
pub const SOUND_GROUP: usize = 212;

/// The status of the device in what its status block, its playback status
/// and its position say. A device that says it plays without a disc is
/// ready.
pub open spec fn status_in(status: Seq<u8>, playback: Seq<u8>, position: Seq<u16>) -> Result<
    DeviceStatus,
    InterfaceError,
> {
    if status.len() < 5 || playback.len() < 6 || position.len() < 5 {
        Err(InterfaceError::CommunicationError(NetMDError::InvalidResult))
    } else {
        let disc_present = status[4] != 0x80;
        let read = OperatingStatus::spec_from_u16(
            (playback[4] as int * 256 + playback[5] as int) as u16,
        );
        Ok(
            DeviceStatus {
                disc_present,
                state: if read == Some(OperatingStatus::Playing) && !disc_present {
                    Some(OperatingStatus::Ready)
                } else {
                    read
                },
                track: (position[0] % 256) as u8,
                time: Time { minute: position[2], second: position[3], frame: position[4] },
            },
        )
    }
}

/// What `device_status` does: the status block, the second playback status
/// and the position are read, one after the other.
pub open spec fn spec_device_status(link: Link) -> (Link, Result<DeviceStatus, InterfaceError>) {
    let (l1, status) = spec_status(link);
    match status {
        Err(e) => (l1, Err(e)),
        Ok(block) => {
            let (l2, playback) = spec_playback_status_query(l1, 0x8802, 0x8806);
            match playback {
                Err(e) => (l2, Err(e)),
                Ok(play) => {
                    let (l3, position) = spec_position(l2);
                    (
                        l3,
                        match position {
                            Err(e) => Err(e),
                            Ok(p) => status_in(block, play, p),
                        },
                    )
                },
            }
        },
    }
}

/// The capacity of a disc in frames, used, total and left. Some devices
/// count in the recording mode that is chosen, which gives more than a disc
/// holds; the numbers are halved until the total is no more than 82 minutes.
pub open spec fn halved(used: u64, total: u64, left: u64) -> (u64, u64, u64)
    decreases total,
{
    if total > MOST_FRAMES {
        halved(used / 2, total / 2, left / 2)
    } else {
        (used, total, left)
    }
}

/// The capacity of a disc in frames, used, total and left.
pub fn halve(used: u64, total: u64, left: u64) -> (r: (u64, u64, u64))
    ensures
        r == halved(used, total, left),
{
    let mut frames_used = used;
    let mut frames_total = total;
    let mut frames_left = left;
    while frames_total > MOST_FRAMES
        invariant
            halved(used, total, left) == halved(frames_used, frames_total, frames_left),
        decreases frames_total,
    {
        frames_used = frames_used / 2;
        frames_total = frames_total / 2;
        frames_left = frames_left / 2;
    }
    (frames_used, frames_total, frames_left)
}

/// What is read of one track for a list of the disc's content: its
/// encoding, its length, its flags and its two titles.
pub open spec fn spec_read_track(link: Link, index: u16) -> (Link, Result<TrackView, InterfaceError>) {
    let (l1, encoding) = spec_track_encoding(link, index);
    match encoding {
        Err(e) => (l1, Err(e)),
        Ok((enc, channel)) => {
            let (l2, length) = spec_track_length(l1, index);
            match length {
                Err(e) => (l2, Err(e)),
                Ok(duration) => {
                    let (l3, flags) = spec_track_flags(l2, index);
                    match flags {
                        Err(e) => (l3, Err(e)),
                        Ok(f) => {
                            let (l4, title) = spec_track_title(l3, index, false);
                            match title {
                                Err(e) => (l4, Err(e)),
                                Ok(half) => {
                                    let (l5, wide) = spec_track_title(l4, index, true);
                                    match wide {
                                        Err(e) => (l5, Err(e)),
                                        Ok(full) => (
                                            l5,
                                            match TrackFlag::spec_from_u8(f) {
                                                None => Err(
                                                    InterfaceError::InvalidStatus(
                                                        StatusError(f as u16),
                                                    ),
                                                ),
                                                Some(protected) => Ok(
                                                    TrackView {
                                                        index,
                                                        title: half,
                                                        full_width_title: full,
                                                        duration,
                                                        channel,
                                                        encoding: enc,
                                                        protected,
                                                    },
                                                ),
                                            },
                                        ),
                                    }
                                },
                            }
                        },
                    }
                },
            }
        },
    }
}

/// What is read of the tracks of a group, from the place `from` on.
pub open spec fn spec_read_tracks(link: Link, indices: Seq<u16>, from: nat, tracks: Seq<TrackView>) -> (
    Link,
    Result<Seq<TrackView>, InterfaceError>,
)
    decreases indices.len() - from,
{
    if from >= indices.len() {
        (link, Ok(tracks))
    } else {
        let (after, track) = spec_read_track(link, indices[from as int]);
        match track {
            Err(e) => (after, Err(e)),
            Ok(t) => spec_read_tracks(after, indices, from + 1, tracks.push(t)),
        }
    }
}

/// What is read of the groups of a disc, from the place `from` on.
pub open spec fn spec_read_groups(
    link: Link,
    groups: Seq<GroupView>,
    from: nat,
    read: Seq<GroupModel>,
) -> (Link, Result<Seq<GroupModel>, InterfaceError>)
    decreases groups.len() - from,
{
    if from >= groups.len() {
        (link, Ok(read))
    } else {
        let (after, tracks) = spec_read_tracks(link, groups[from as int].tracks, 0, Seq::empty());
        match tracks {
            Err(e) => (after, Err(e)),
            Ok(t) => spec_read_groups(
                after,
                groups,
                from + 1,
                read.push(
                    GroupModel {
                        index: (from % 0x1_0000) as u16,
                        title: groups[from as int].title,
                        full_width_title: groups[from as int].full_width_title,
                        tracks: t,
                    },
                ),
            ),
        }
    }
}

/// The capacity of a disc in frames from its three times: used, total and
/// left.
pub open spec fn frames_in(capacity: Seq<RawTime>) -> Result<(u64, u64, u64), InterfaceError> {
    if capacity.len() != 3 || !capacity[0].spec_in_range() || !capacity[1].spec_in_range()
        || !capacity[2].spec_in_range() {
        Err(InterfaceError::CommunicationError(NetMDError::InvalidResult))
    } else {
        Ok(
            halved(
                capacity[0].spec_as_frames() as u64,
                capacity[1].spec_as_frames() as u64,
                capacity[2].spec_as_frames() as u64,
            ),
        )
    }
}

/// What is read of a disc before its groups: its flags, its two titles, its
/// capacity and the number of its tracks.
pub ghost struct DiscHead {
    pub flags: u8,
    pub title: Seq<char>,
    pub full_width_title: Seq<char>,
    pub frames: (u64, u64, u64),
    pub track_count: u16,
}

/// The reading of a disc before its groups.
pub open spec fn spec_read_head(link: Link) -> (Link, Result<DiscHead, InterfaceError>) {
    let (l1, flags) = spec_disc_flags(link);
    match flags {
        Err(e) => (l1, Err(e)),
        Ok(f) => {
            let (l2, title) = spec_read_disc_title(l1, false);
            match title {
                Err(e) => (l2, Err(e)),
                Ok(half) => {
                    let (l3, wide) = spec_read_disc_title(l2, true);
                    match wide {
                        Err(e) => (l3, Err(e)),
                        Ok(full) => {
                            let (l4, capacity) = spec_disc_capacity(l3);
                            match capacity {
                                Err(e) => (l4, Err(e)),
                                Ok(times) => {
                                    let (l5, count) = spec_track_count(l4);
                                    match count {
                                        Err(e) => (l5, Err(e)),
                                        Ok(track_count) => (
                                            l5,
                                            match frames_in(times) {
                                                Err(e) => Err(e),
                                                Ok(frames) => Ok(
                                                    DiscHead {
                                                        flags: f,
                                                        title: half,
                                                        full_width_title: full,
                                                        frames,
                                                        track_count,
                                                    },
                                                ),
                                            },
                                        ),
                                    }
                                },
                            }
                        },
                    }
                },
            }
        },
    }
}

/// What `list_content` does: the disc is read before its groups, its groups
/// are read from its raw titles, and the tracks of each group are read.
pub open spec fn spec_list_content(link: Link) -> (Link, Result<DiscView, InterfaceError>) {
    let (l1, head) = spec_read_head(link);
    match head {
        Err(e) => (l1, Err(e)),
        Ok(h) => {
            let (l2, list) = spec_track_group_list(l1);
            match list {
                Err(e) => (l2, Err(e)),
                Ok(groups) => {
                    let (l3, read) = spec_read_groups(l2, groups, 0, Seq::empty());
                    (
                        l3,
                        match read {
                            Err(e) => Err(e),
                            Ok(g) => Ok(
                                DiscView {
                                    title: h.title,
                                    full_width_title: h.full_width_title,
                                    writeable: h.flags & 0x10 != 0,
                                    write_protected: h.flags & 0x40 != 0,
                                    used: h.frames.0,
                                    left: h.frames.2,
                                    total: h.frames.1,
                                    track_count: h.track_count,
                                    groups: g,
                                },
                            ),
                        },
                    )
                },
            }
        },
    }
}

/// What `rewrite_disc_groups` does: the raw titles of the disc are written,
/// the half-width first.
pub open spec fn spec_rewrite_disc_groups(link: Link, vendor_id: u16, disc: DiscView) -> (
    Link,
    Result<(), InterfaceError>,
) {
    let titles = spec_compile_disc_titles(disc);
    let (l1, half) = spec_set_disc_title(link, vendor_id, titles.0, false);
    match half {
        Err(e) => (l1, Err(e)),
        Ok(_) => spec_set_disc_title(l1, vendor_id, titles.1, true),
    }
}

/// What is read of a disc before it is renamed: its two titles and its two
/// raw titles.
pub open spec fn spec_read_names(link: Link) -> (
    Link,
    Result<(Seq<char>, Seq<char>, Seq<char>, Seq<char>), InterfaceError>,
) {
    let (l1, name) = spec_read_disc_title(link, false);
    match name {
        Err(e) => (l1, Err(e)),
        Ok(old_name) => {
            let (l2, wide) = spec_read_disc_title(l1, true);
            match wide {
                Err(e) => (l2, Err(e)),
                Ok(old_fw_name) => {
                    let (l3, raw) = spec_raw_disc_title(l2, false);
                    match raw {
                        Err(e) => (l3, Err(e)),
                        Ok(old_raw) => {
                            let (l4, wide_raw) = spec_raw_disc_title(l3, true);
                            (
                                l4,
                                match wide_raw {
                                    Err(e) => Err(e),
                                    Ok(old_raw_fw) => Ok(
                                        (old_name, old_fw_name, old_raw, old_raw_fw),
                                    ),
                                },
                            )
                        },
                    }
                },
            }
        },
    }
}

/// What `rename_disc` does. The new names are made fit. The titles and the
/// raw titles of the disc are read. A full-width name that is given and is
/// not the one of the disc is written into the full-width raw title, and a
/// half-width name that is not the one of the disc into the half-width raw
/// title; the groups stay.
pub open spec fn spec_rename_disc(
    link: Link,
    vendor_id: u16,
    new_name: Seq<char>,
    new_fw_name: Option<Seq<char>>,
) -> (Link, Result<(), InterfaceError>) {
    let name = spec_sanitize_half_width_title(new_name);
    let (l1, read) = spec_read_names(link);
    match read {
        Err(e) => (l1, Err(e)),
        Ok((old_name, old_fw_name, old_raw, old_raw_fw)) => {
            let (l2, wide) = match new_fw_name {
                Some(n) => if spec_sanitize_full_width_title(n) != old_fw_name {
                    spec_set_disc_title(
                        l1,
                        vendor_id,
                        spec_renamed_raw_title(old_raw_fw, spec_sanitize_full_width_title(n), true),
                        true,
                    )
                } else {
                    (l1, Ok(()))
                },
                None => (l1, Ok(())),
            };
            match wide {
                Err(e) => (l2, Err(e)),
                Ok(_) => if name == old_name {
                    (l2, Ok(()))
                } else {
                    spec_set_disc_title(
                        l2,
                        vendor_id,
                        spec_renamed_raw_title(old_raw, name, false),
                        false,
                    )
                },
            }
        },
    }
}

/// Whether a device in a state is ready for a download: it is ready, or
/// its disc is blank.
pub open spec fn is_idle(state: Option<OperatingStatus>) -> bool {
    state == Some(OperatingStatus::Ready) || state == Some(OperatingStatus::DiscBlank)
}

/// The wait for a device to be ready for a download: its status is read,
/// with a pause behind each reading that finds it busy.
pub open spec fn spec_wait_idle(link: Link) -> (Link, Result<(), InterfaceError>)
    decreases link.completions.len() - link.cursor,
{
    let (l1, status) = spec_device_status(link);
    match status {
        Err(e) => (l1, Err(e)),
        Ok(s) => if is_idle(s.state) {
            (l1, Ok(()))
        } else {
            let (l2, pause) = spec_plain(l1, TransferView::Sleep { millis: DOWNLOAD_PAUSE });
            match pause {
                Err(e) => (l2, Err(InterfaceError::CommunicationError(e))),
                Ok(_) => if l2.completions.len() - l2.cursor < link.completions.len()
                    - link.cursor {
                    spec_wait_idle(l2)
                } else {
                    (l2, Err(InterfaceError::CommunicationError(NetMDError::Incomplete)))
                },
            }
        },
    }
}

/// What comes before a download: the wait for the device to be ready; an
/// old session is forgotten and left, whatever the device says to that; the
/// device is acquired; and the protection of new tracks is switched off,
/// whatever the device says to that.
pub open spec fn spec_prepare_download(link: Link) -> (Link, Result<(), InterfaceError>) {
    let (l1, idle) = spec_wait_idle(link);
    match idle {
        Err(e) => (l1, Err(e)),
        Ok(_) => {
            let l2 = spec_session_key_forget(l1).0;
            let l3 = spec_leave_secure_session(l2).0;
            let (l4, acquired) = spec_acquire(l3);
            match acquired {
                Err(e) => (l4, Err(e)),
                Ok(_) => (spec_disable_new_track_protection(l4, 1).0, Ok(())),
            }
        },
    }
}

/// What `download` does: the device is prepared, a session is begun, the
/// track is sent inside it, the session is ended, and the device is
/// released.
pub open spec fn spec_download(
    link: Link,
    host_nonce: Seq<u8>,
    title: Seq<char>,
    full_width_title: Option<Seq<char>>,
    format: crate::netmd::interface::WireFormat,
    stream: Stream,
    progress: bool,
) -> (Link, Result<(u16, Seq<u8>, Seq<u8>), InterfaceError>) {
    let (l1, prepared) = spec_prepare_download(link);
    match prepared {
        Err(e) => (l1, Err(e)),
        Ok(_) => {
            let (l2, begun) = spec_session_init(l1, host_nonce);
            match begun {
                Err(e) => (l2, Err(e)),
                Ok(key) => {
                    let (l3, sent) = spec_download_track(
                        l2,
                        Some(key),
                        title,
                        full_width_title,
                        format,
                        stream,
                        progress,
                        None,
                    );
                    match sent {
                        Err(e) => (l3, Err(e)),
                        Ok(result) => {
                            let (l4, closed) = spec_session_key_forget(l3);
                            match closed {
                                Err(e) => (l4, Err(e)),
                                Ok(_) => {
                                    let (l5, released) = spec_release(l4);
                                    (
                                        l5,
                                        match released {
                                            Err(e) => Err(e),
                                            Ok(_) => Ok(result),
                                        },
                                    )
                                },
                            }
                        },
                    }
                },
            }
        },
    }
}

/// The name of a track in the header of an AEA file: its half-width title,
/// or nothing where that is longer than the header has room for.
pub open spec fn aea_name(title: Seq<char>) -> Seq<u8> {
    if vstd::utf8::encode_utf8(title).len() > AEA_NAME_SIZE {
        Seq::empty()
    } else {
        vstd::utf8::encode_utf8(title)
    }
}

/// The number of sound groups in SP audio.
pub open spec fn sound_groups(len: nat) -> u32 {
    if len / SOUND_GROUP as nat > u32::MAX {
        u32::MAX
    } else {
        (len / SOUND_GROUP as nat) as u32
    }
}

/// The size of audio as the header of a WAV file can hold it.
pub open spec fn wav_size(len: nat) -> u32 {
    if len > u32::MAX - 60 {
        (u32::MAX - 60) as u32
    } else {
        len as u32
    }
}

/// What `upload` does: the audio of the track is read. Audio in SP gets the
/// header of an AEA file, with the title of the track, which is read for it;
/// audio in LP2 or LP4 gets the header of a WAV file.
pub open spec fn spec_upload(link: Link, track: u16, progress: bool) -> (
    Link,
    Result<(DiscFormat, Seq<u8>), InterfaceError>,
) {
    let (l1, saved) = spec_save_track_to_array(link, track, progress);
    match saved {
        Err(e) => (l1, Err(e)),
        Ok((format, _, audio)) => if format is SPMono || format is SPStereo {
            let (l2, title) = spec_track_title(l1, track, false);
            (
                l2,
                match title {
                    Err(e) => Err(e),
                    Ok(name) => Ok(
                        (
                            format,
                            spec_aea_header(
                                aea_name(name),
                                if format is SPStereo {
                                    2
                                } else {
                                    1
                                },
                                sound_groups(audio.len()),
                                0,
                                0,
                                Seq::new(8, |i: int| 0u8),
                            ) + audio,
                        ),
                    ),
                },
            )
        } else {
            (l1, Ok((format, spec_wav_header(format is LP4, wav_size(audio.len())) + audio)))
        },
    }
}

/// Context for interacting with a NetMD device as a wrapper around a [`NetMDInterface`].
///
/// This struct wraps a [`NetMDInterface`] and allows for some higher level
/// functions, but it is still necessary to interact with the [`NetMDInterface`]
/// when performing many operations.
pub struct NetMDContext {
    pub interface: NetMDInterface,
}

impl NetMDContext {
    /// The state of the connection.
    pub open spec fn link(&self) -> Link {
        self.interface.device@
    }

    /// The invariant: that of the connection.
    pub open spec fn wf(&self) -> bool {
        self.interface.device.wf()
    }

    /// The device that the connection is to. No operation changes it.
    pub open spec fn spec_model(&self) -> DeviceId {
        self.interface.device.spec_model()
    }

    /// The vendor ID of the device.
    pub open spec fn spec_vendor_id(&self) -> u16 {
        self.interface.device.spec_vendor_id()
    }

    /// Create a new context to control a NetMD device
    pub fn new(device: NetMD) -> (context: NetMDContext)
        ensures
            context.interface.device == device,
    {
        NetMDContext { interface: NetMDInterface::new(device) }
    }

    /// Create a context from an already opened interface.
    pub fn from_interface(value: NetMDInterface) -> (context: NetMDContext)
        ensures
            context.interface == value,
    {
        NetMDContext { interface: value }
    }

    /// Change to the next track (skip forward)
    pub fn next_track(&mut self) -> (r: Result<(), InterfaceError>)
        requires
            old(self).wf(),
        ensures
            final(self).wf(),
            final(self).spec_model() == old(self).spec_model(),
            (final(self).link(), r) == spec_track_change(old(self).link(), Direction::Next),
    {
        self.interface.track_change(Direction::Next)
    }

    /// Change to the next track (skip back)
    pub fn previous_track(&mut self) -> (r: Result<(), InterfaceError>)
        requires
            old(self).wf(),
        ensures
            final(self).wf(),
            final(self).spec_model() == old(self).spec_model(),
            (final(self).link(), r) == spec_track_change(old(self).link(), Direction::Previous),
    {
        self.interface.track_change(Direction::Previous)
    }

    /// Change to the next track (skip to beginning of track)
    pub fn restart_track(&mut self) -> (r: Result<(), InterfaceError>)
        requires
            old(self).wf(),
        ensures
            final(self).wf(),
            final(self).spec_model() == old(self).spec_model(),
            (final(self).link(), r) == spec_track_change(old(self).link(), Direction::Restart),
    {
        self.interface.track_change(Direction::Restart)
    }

    /// Get the current status of the device
    pub fn device_status(&mut self) -> (r: Result<DeviceStatus, InterfaceError>)
        requires
            old(self).wf(),
        ensures
            final(self).wf(),
            final(self).spec_model() == old(self).spec_model(),
            (final(self).link(), r) == spec_device_status(old(self).link()),
    {
        let status = match self.interface.status() {
            Err(e) => {
                return Err(e);
            },
            Ok(status) => status,
        };
        let playback_status = match self.interface.playback_status2() {
            Err(e) => {
                return Err(e);
            },
            Ok(playback) => playback,
        };
        let position = match self.interface.position() {
            Err(e) => {
                return Err(e);
            },
            Ok(position) => position,
        };
        if status.len() < 5 || playback_status.len() < 6 {
            return Err(InterfaceError::CommunicationError(NetMDError::InvalidResult));
        }
        let b1: u16 = playback_status[4] as u16;
        let b2: u16 = playback_status[5] as u16;
        let operating_status = b1 * 256 + b2;
        let track = (position[0] % 256) as u8;
        let disc_present = status[4] != 0x80;
        let mut state = OperatingStatus::from_u16(operating_status);
        if state == Some(OperatingStatus::Playing) && !disc_present {
            state = Some(OperatingStatus::Ready);
        }
        let time = Time { minute: position[2], second: position[3], frame: position[4] };
        Ok(DeviceStatus { disc_present, state, track, time })
    }

    /// Get a reference to the underlying interface.
    ///
    /// [`NetMDContext::interface_mut()`] is almost certainly more useful
    /// in most cases.
    pub fn interface(&self) -> (interface: &NetMDInterface)
        ensures
            *interface == self.interface,
    {
        &self.interface
    }

    /// Get a mutable reference to the underlying interface.
    pub fn interface_mut(&mut self) -> (interface: &mut NetMDInterface)
        ensures
            *interface == old(self).interface,
            final(self).interface == *final(interface),
    {
        &mut self.interface
    }

    /// Reads what a list of the disc's content holds of one track.
    pub fn read_track(&mut self, index: u16) -> (r: Result<Track, InterfaceError>)
        requires
            old(self).wf(),
        ensures
            final(self).wf(),
            final(self).spec_model() == old(self).spec_model(),
            final(self).link() == spec_read_track(old(self).link(), index).0,
            match spec_read_track(old(self).link(), index).1 {
                Ok(track) => r matches Ok(t) && t@ == track,
                Err(e) => r matches Err(x) && x == e,
            },
    {
        let (encoding, channel) = match self.interface.track_encoding(index) {
            Err(e) => {
                return Err(e);
            },
            Ok(encoding) => encoding,
        };
        let duration = match self.interface.track_length(index) {
            Err(e) => {
                return Err(e);
            },
            Ok(duration) => duration,
        };
        let flags = match self.interface.track_flags(index) {
            Err(e) => {
                return Err(e);
            },
            Ok(flags) => flags,
        };
        let title = match self.interface.track_title(index, false) {
            Err(e) => {
                return Err(e);
            },
            Ok(title) => title,
        };
        let full_width_title = match self.interface.track_title(index, true) {
            Err(e) => {
                return Err(e);
            },
            Ok(title) => title,
        };
        match TrackFlag::from_u8(flags) {
            None => Err(InterfaceError::InvalidStatus(StatusError(flags as u16))),
            Some(protected) => Ok(
                Track::new(index, title, full_width_title, duration, channel, encoding, protected),
            ),
        }
    }

    /// Reads the tracks of a group.
    pub fn read_tracks(&mut self, indices: &Vec<u16>) -> (r: Result<Vec<Track>, InterfaceError>)
        requires
            old(self).wf(),
        ensures
            final(self).wf(),
            final(self).spec_model() == old(self).spec_model(),
            final(self).link() == spec_read_tracks(old(self).link(), indices@, 0, Seq::empty()).0,
            match spec_read_tracks(old(self).link(), indices@, 0, Seq::empty()).1 {
                Ok(tracks) => r matches Ok(t) && Seq::new(t@.len(), |i: int| t@[i]@) == tracks,
                Err(e) => r matches Err(x) && x == e,
            },
    {
        let mut tracks: Vec<Track> = Vec::new();
        let mut i: usize = 0;
        let ghost start = self.link();
        assert(Seq::new(tracks@.len(), |k: int| tracks@[k]@) == Seq::<TrackView>::empty());
        while i < indices.len()
            invariant
                self.wf(),
                self.spec_model() == old(self).spec_model(),
                start == old(self).link(),
                i <= indices.len(),
                spec_read_tracks(start, indices@, 0, Seq::empty()) == spec_read_tracks(
                    self.link(),
                    indices@,
                    i as nat,
                    Seq::new(tracks@.len(), |k: int| tracks@[k]@),
                ),
            decreases indices.len() - i,
        {
            let ghost seen = Seq::new(tracks@.len(), |k: int| tracks@[k]@);
            match self.read_track(indices[i]) {
                Err(e) => {
                    return Err(e);
                },
                Ok(track) => {
                    tracks.push(track);
                    assert(Seq::new(tracks@.len(), |k: int| tracks@[k]@) == seen.push(
                        tracks@.last()@,
                    ));
                },
            }
            i = i + 1;
        }
        Ok(tracks)
    }

    /// Reads the tracks of the groups of a disc.
    pub fn read_groups(&mut self, list: &Vec<(Option<String>, Option<String>, Vec<u16>)>) -> (r: Result<
        Vec<Group>,
        InterfaceError,
    >)
        requires
            old(self).wf(),
        ensures
            final(self).wf(),
            final(self).spec_model() == old(self).spec_model(),
            final(self).link() == spec_read_groups(
                old(self).link(),
                groups_view(list@),
                0,
                Seq::empty(),
            ).0,
            match spec_read_groups(old(self).link(), groups_view(list@), 0, Seq::empty()).1 {
                Ok(groups) => r matches Ok(g) && Seq::new(g@.len(), |i: int| g@[i]@) == groups,
                Err(e) => r matches Err(x) && x == e,
            },
    {
        let mut groups: Vec<Group> = Vec::new();
        let mut index: usize = 0;
        let ghost start = self.link();
        assert(Seq::new(groups@.len(), |k: int| groups@[k]@) == Seq::<GroupModel>::empty());
        while index < list.len()
            invariant
                self.wf(),
                self.spec_model() == old(self).spec_model(),
                start == old(self).link(),
                index <= list.len(),
                spec_read_groups(start, groups_view(list@), 0, Seq::empty()) == spec_read_groups(
                    self.link(),
                    groups_view(list@),
                    index as nat,
                    Seq::new(groups@.len(), |k: int| groups@[k]@),
                ),
            decreases list.len() - index,
        {
            let ghost seen = Seq::new(groups@.len(), |k: int| groups@[k]@);
            let group = &list[index];
            assert(groups_view(list@)[index as int] == crate::netmd::titles::group_view(*group));
            let tracks = match self.read_tracks(&group.2) {
                Err(e) => {
                    return Err(e);
                },
                Ok(tracks) => tracks,
            };
            groups.push(
                Group::new((index % 0x1_0000) as u16, group.0.clone(), group.1.clone(), tracks),
            );
            assert(Seq::new(groups@.len(), |k: int| groups@[k]@) == seen.push(groups@.last()@));
            index = index + 1;
        }
        Ok(groups)
    }

    /// Reads what a list of the disc's content holds of the disc itself.
    pub fn read_head(&mut self) -> (r: Result<(u8, String, String, (u64, u64, u64), u16), InterfaceError>)
        requires
            old(self).wf(),
        ensures
            final(self).wf(),
            final(self).spec_model() == old(self).spec_model(),
            final(self).link() == spec_read_head(old(self).link()).0,
            match spec_read_head(old(self).link()).1 {
                Ok(head) => r matches Ok((flags, title, wide, frames, count)) && flags
                    == head.flags && title@ == head.title && wide@ == head.full_width_title
                    && frames == head.frames && count == head.track_count,
                Err(e) => r matches Err(x) && x == e,
            },
    {
        let flags = match self.interface.disc_flags() {
            Err(e) => {
                return Err(e);
            },
            Ok(flags) => flags,
        };
        let title = match self.interface.disc_title(false) {
            Err(e) => {
                return Err(e);
            },
            Ok(title) => title,
        };
        let full_width_title = match self.interface.disc_title(true) {
            Err(e) => {
                return Err(e);
            },
            Ok(title) => title,
        };
        let disc_capacity: [RawTime; 3] = match self.interface.disc_capacity() {
            Err(e) => {
                return Err(e);
            },
            Ok(capacity) => capacity,
        };
        let track_count = match self.interface.track_count() {
            Err(e) => {
                return Err(e);
            },
            Ok(count) => count,
        };
        if !disc_capacity[0].in_range() || !disc_capacity[1].in_range()
            || !disc_capacity[2].in_range() {
            return Err(InterfaceError::CommunicationError(NetMDError::InvalidResult));
        }
        let frames = halve(
            disc_capacity[0].as_frames(),
            disc_capacity[1].as_frames(),
            disc_capacity[2].as_frames(),
        );
        Ok((flags, title, full_width_title, frames, track_count))
    }

    /// Get a representation of the current disc inserted in the device.
    pub fn list_content(&mut self) -> (r: Result<Disc, InterfaceError>)
        requires
            old(self).wf(),
        ensures
            final(self).wf(),
            final(self).spec_model() == old(self).spec_model(),
            final(self).link() == spec_list_content(old(self).link()).0,
            match spec_list_content(old(self).link()).1 {
                Ok(disc) => r matches Ok(d) && d@ == disc,
                Err(e) => r matches Err(x) && x == e,
            },
    {
        let (flags, title, full_width_title, frames, track_count) = match self.read_head() {
            Err(e) => {
                return Err(e);
            },
            Ok(head) => head,
        };
        let track_group_list = match self.interface.track_group_list() {
            Err(e) => {
                return Err(e);
            },
            Ok(list) => list,
        };
        let groups = match self.read_groups(&track_group_list) {
            Err(e) => {
                return Err(e);
            },
            Ok(groups) => groups,
        };
        Ok(
            Disc::new(
                title,
                full_width_title,
                (flags & DiscFlag::Writable.mask()) != 0,
                (flags & DiscFlag::WriteProtected.mask()) != 0,
                frames.0,
                frames.2,
                frames.1,
                track_count,
                groups,
            ),
        )
    }

    /// Writes the groups of a disc into its raw titles.
    pub fn rewrite_disc_groups(&mut self, disc: Disc) -> (r: Result<(), InterfaceError>)
        requires
            old(self).wf(),
        ensures
            final(self).wf(),
            final(self).spec_model() == old(self).spec_model(),
            (final(self).link(), r) == spec_rewrite_disc_groups(
                old(self).link(),
                old(self).spec_vendor_id(),
                disc@,
            ),
    {
        let (new_raw_title, new_raw_full_width_title) = disc.compile_disc_titles();
        match self.interface.set_disc_title(new_raw_title.as_str(), false) {
            Err(e) => {
                return Err(e);
            },
            Ok(_) => {},
        }
        self.interface.set_disc_title(new_raw_full_width_title.as_str(), true)
    }

    /// Reads the titles and the raw titles of the disc.
    pub fn read_names(&mut self) -> (r: Result<(String, String, String, String), InterfaceError>)
        requires
            old(self).wf(),
        ensures
            final(self).wf(),
            final(self).spec_model() == old(self).spec_model(),
            final(self).link() == spec_read_names(old(self).link()).0,
            match spec_read_names(old(self).link()).1 {
                Ok((a, b, c, d)) => r matches Ok((w, x, y, z)) && w@ == a && x@ == b && y@ == c
                    && z@ == d,
                Err(e) => r matches Err(x) && x == e,
            },
    {
        let old_name = match self.interface.disc_title(false) {
            Err(e) => {
                return Err(e);
            },
            Ok(name) => name,
        };
        let old_fw_name = match self.interface.disc_title(true) {
            Err(e) => {
                return Err(e);
            },
            Ok(name) => name,
        };
        let old_raw_name = match self.interface.raw_disc_title(false) {
            Err(e) => {
                return Err(e);
            },
            Ok(name) => name,
        };
        let old_raw_fw_name = match self.interface.raw_disc_title(true) {
            Err(e) => {
                return Err(e);
            },
            Ok(name) => name,
        };
        Ok((old_name, old_fw_name, old_raw_name, old_raw_fw_name))
    }

    /// Rename a disc while preserving group titles
    pub fn rename_disc(&mut self, new_name: &str, new_fw_name: Option<&str>) -> (r: Result<
        (),
        InterfaceError,
    >)
        requires
            old(self).wf(),
        ensures
            final(self).wf(),
            final(self).spec_model() == old(self).spec_model(),
            (final(self).link(), r) == spec_rename_disc(
                old(self).link(),
                old(self).spec_vendor_id(),
                new_name@,
                match new_fw_name {
                    Some(n) => Some(n@),
                    None => None,
                },
            ),
    {
        let new_name = sanitize_half_width_title(new_name);
        let (old_name, old_fw_name, old_raw_name, old_raw_fw_name) = match self.read_names() {
            Err(e) => {
                return Err(e);
            },
            Ok(names) => names,
        };
        match new_fw_name {
            Some(n) => {
                let new_fw_name = sanitize_full_width_title(n);
                if new_fw_name != old_fw_name {
                    let new_fw_name_with_groups = renamed_raw_title(
                        old_raw_fw_name.as_str(),
                        new_fw_name.as_str(),
                        true,
                    );
                    match self.interface.set_disc_title(new_fw_name_with_groups.as_str(), true) {
                        Err(e) => {
                            return Err(e);
                        },
                        Ok(_) => {},
                    }
                }
            },
            None => {},
        }
        if new_name == old_name {
            return Ok(());
        }
        let new_name_with_groups = renamed_raw_title(
            old_raw_name.as_str(),
            new_name.as_str(),
            false,
        );
        self.interface.set_disc_title(new_name_with_groups.as_str(), false)
    }

    /// Get a track from the device, with the header of the file that its
    /// audio belongs in. This only works with MZ-RH1 devices.
    pub fn upload(&mut self, track: u16, progress: bool) -> (r: Result<
        (DiscFormat, Vec<u8>),
        InterfaceError,
    >)
        requires
            old(self).wf(),
        ensures
            final(self).wf(),
            final(self).spec_model() == old(self).spec_model(),
            final(self).link() == spec_upload(old(self).link(), track, progress).0,
            match spec_upload(old(self).link(), track, progress).1 {
                Ok((format, file)) => r matches Ok((f, bytes)) && f == format && bytes@ == file,
                Err(e) => r matches Err(x) && x == e,
            },
    {
        let (format, _frames, result) = match self.interface.save_track_to_array(track, progress) {
            Err(e) => {
                return Err(e);
            },
            Ok(saved) => saved,
        };
        let mut header = match format {
            DiscFormat::SPMono | DiscFormat::SPStereo => {
                let title = match self.interface.track_title(track, false) {
                    Err(e) => {
                        return Err(e);
                    },
                    Ok(title) => title,
                };
                let ghost read = title@;
                let long = title.as_str().as_bytes_vec().len() > AEA_NAME_SIZE;
                assert(long == (vstd::utf8::encode_utf8(read).len() > AEA_NAME_SIZE));
                let name_text = if long {
                    String::new()
                } else {
                    title
                };
                assert(vstd::utf8::encode_utf8(Seq::<char>::empty()) == Seq::<u8>::empty());
                assert(name_text@ == if long {
                    Seq::<char>::empty()
                } else {
                    read
                });
                let name: &str = name_text.as_str();
                assert(name.spec_bytes() == vstd::utf8::encode_utf8(name_text@));
                assert(name.spec_bytes() == aea_name(read));
                let groups = result.len() / SOUND_GROUP;
                let flags: [u8; 8] = [0, 0, 0, 0, 0, 0, 0, 0];
                assert(flags@ == Seq::new(8, |i: int| 0u8));
                let aea_options = AeaOptions {
                    name,
                    channels: if format == DiscFormat::SPStereo {
                        2
                    } else {
                        1
                    },
                    sound_groups: if groups > u32::MAX as usize {
                        u32::MAX
                    } else {
                        groups as u32
                    },
                    group_start: 0,
                    encrypted: 0,
                    flags: vstd::array::array_as_slice(&flags),
                };
                create_aea_header(aea_options)
            },
            DiscFormat::LP2 | DiscFormat::LP4 => {
                let size: u32 = if result.len() > (u32::MAX - 60) as usize {
                    u32::MAX - 60
                } else {
                    result.len() as u32
                };
                create_wav_header(format == DiscFormat::LP4, size)
            },
        };
        let mut audio = result;
        header.append(&mut audio);
        Ok((format, header))
    }

    /// Waits for the device to be ready for a download.
    pub fn wait_idle(&mut self) -> (r: Result<(), InterfaceError>)
        requires
            old(self).wf(),
        ensures
            final(self).wf(),
            final(self).spec_model() == old(self).spec_model(),
            (final(self).link(), r) == spec_wait_idle(old(self).link()),
    {
        let ghost start = self.link();
        loop
            invariant
                self.wf(),
                self.spec_model() == old(self).spec_model(),
                start == old(self).link(),
                spec_wait_idle(start) == spec_wait_idle(self.link()),
            decreases self.link().completions.len() - self.link().cursor,
        {
            proof {
                self.interface.device.lemma_wf();
            }
            let before = self.interface.device.remaining();
            let status = match self.device_status() {
                Err(e) => {
                    return Err(e);
                },
                Ok(status) => status,
            };
            if status.state == Some(OperatingStatus::Ready) || status.state == Some(
                OperatingStatus::DiscBlank,
            ) {
                return Ok(());
            }
            match self.interface.device.sleep(DOWNLOAD_PAUSE) {
                Err(e) => {
                    return Err(InterfaceError::CommunicationError(e));
                },
                Ok(_) => {},
            }
            if self.interface.device.remaining() >= before {
                return Err(InterfaceError::CommunicationError(NetMDError::Incomplete));
            }
            proof {
                self.interface.device.lemma_wf();
            }
        }
    }

    /// Prepares the device for a download.
    pub fn prepare_download(&mut self) -> (r: Result<(), InterfaceError>)
        requires
            old(self).wf(),
        ensures
            final(self).wf(),
            final(self).spec_model() == old(self).spec_model(),
            (final(self).link(), r) == spec_prepare_download(old(self).link()),
    {
        match self.wait_idle() {
            Err(e) => {
                return Err(e);
            },
            Ok(_) => {},
        }
        let _ = self.interface.session_key_forget();
        let _ = self.interface.leave_secure_session();
        match self.interface.acquire() {
            Err(e) => {
                return Err(e);
            },
            Ok(_) => {},
        }
        let _ = self.interface.disable_new_track_protection(1);
        Ok(())
    }

    /// Start downloading an [`MDTrack`] to the device.
    ///
    /// The packets of the track are made before, with
    /// [`MDTrack::get_encrypting_iterator`], and the session with
    /// [`MDSession::new`].
    pub fn download(
        &mut self,
        session: &mut MDSession,
        track: &MDTrack,
        packets: &Encryptor,
        progress: bool,
    ) -> (r: Result<(u16, Vec<u8>, Vec<u8>), InterfaceError>)
        requires
            old(self).wf(),
            old(session).wf(),
            packets.wf(),
            packets@.packets == 0,
        ensures
            final(self).wf(),
            final(session).wf(),
            final(session).spec_host_nonce() == old(session).spec_host_nonce(),
            final(self).spec_model() == old(self).spec_model(),
            final(self).link() == spec_download(
                old(self).link(),
                old(session).spec_host_nonce(),
                track.title@,
                option_text(track.full_width_title),
                track.format,
                packets@,
                progress,
            ).0,
            match spec_download(
                old(self).link(),
                old(session).spec_host_nonce(),
                track.title@,
                option_text(track.full_width_title),
                track.format,
                packets@,
                progress,
            ).1 {
                Ok((index, uuid, ccid)) => r matches Ok((i, u, c)) && i == index && u@ == uuid
                    && c@ == ccid,
                Err(e) => r matches Err(x) && x == e,
            },
    {
        match self.prepare_download() {
            Err(e) => {
                return Err(e);
            },
            Ok(_) => {},
        }
        match session.init(&mut self.interface) {
            Err(e) => {
                return Err(e);
            },
            Ok(_) => {},
        }
        let result = match session.download_track(
            &mut self.interface,
            track,
            packets,
            progress,
            None,
        ) {
            Err(e) => {
                return Err(e);
            },
            Ok(result) => result,
        };
        match session.close(&mut self.interface) {
            Err(e) => {
                return Err(e);
            },
            Ok(_) => {},
        }
        match self.interface.release() {
            Err(e) => Err(e),
            Ok(_) => Ok(result),
        }
    }
}

} // verus!
