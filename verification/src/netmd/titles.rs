//! The raw title of a disc.
//!
//! A disc has one title, and the device knows of no groups. Groups are
//! written into the title: `0;<disc title>//` and then, for each group,
//! `<first>-<last>;<group title>//`, or `<track>;<group title>//` for a group
//! of one track. Tracks are counted from one. The full-width title is written
//! in the same way with full-width digits and signs.
use std::collections::HashMap;
use vstd::prelude::*;
use crate::netmd::interface::InterfaceError;
use crate::netmd::utils::{
    chars_of,
    half_width_to_full_width_range,
    spec_half_width_to_full_width_range,
    text_of,
};

verus! {

/// The end of an entry of a half-width title.
pub const DELIMITER: &'static str = "//";

/// The end of an entry of a full-width title.
pub const WIDE_DELIMITER: &'static str = "\u{ff0f}\u{ff0f}";

/// The start of the entry of the disc title in a half-width title.
pub const TITLE_MARKER: &'static str = "0;";

/// The start of the entry of the disc title in a full-width title.
pub const WIDE_TITLE_MARKER: &'static str = "\u{ff10}\u{ff1b}";

/// The end of an entry.
pub open spec fn spec_delimiter(wchar: bool) -> Seq<char> {
    if wchar {
        seq!['\u{ff0f}', '\u{ff0f}']
    } else {
        seq!['/', '/']
    }
}

/// The start of the entry of the disc title.
pub open spec fn spec_title_marker(wchar: bool) -> Seq<char> {
    if wchar {
        seq!['\u{ff10}', '\u{ff1b}']
    } else {
        seq!['0', ';']
    }
}

/// The end of an entry.
pub fn delimiter(wchar: bool) -> (d: Vec<char>)
    ensures
        d@ == spec_delimiter(wchar),
{
    let mut d: Vec<char> = Vec::new();
    if wchar {
        d.push('\u{ff0f}');
        d.push('\u{ff0f}');
    } else {
        d.push('/');
        d.push('/');
    }
    d
}

/// The start of the entry of the disc title.
pub fn title_marker(wchar: bool) -> (m: Vec<char>)
    ensures
        m@ == spec_title_marker(wchar),
{
    let mut m: Vec<char> = Vec::new();
    if wchar {
        m.push('\u{ff10}');
        m.push('\u{ff1b}');
    } else {
        m.push('0');
        m.push(';');
    }
    m
}

/// Whether `pattern` stands in `text` at the place `at`.
pub open spec fn spec_matches_at(text: Seq<char>, pattern: Seq<char>, at: int) -> bool {
    0 <= at && at + pattern.len() <= text.len() && text.subrange(at, at + pattern.len())
        == pattern
}

/// Whether `pattern` stands in `text` at the place `at`.
pub fn matches_at(text: &Vec<char>, pattern: &Vec<char>, at: usize) -> (r: bool)
    ensures
        r == spec_matches_at(text@, pattern@, at as int),
{
    if at > text.len() || pattern.len() > text.len() - at {
        return false;
    }
    let mut i: usize = 0;
    while i < pattern.len()
        invariant
            i <= pattern.len(),
            at + pattern.len() <= text.len(),
            text@.subrange(at as int, at + i) == pattern@.subrange(0, i as int),
        decreases pattern.len() - i,
    {
        if text[at + i] != pattern[i] {
            assert(text@.subrange(at as int, at + pattern.len())[i as int] != pattern@[i as int]);
            return false;
        }
        assert(text@.subrange(at as int, at + i + 1) == text@.subrange(at as int, at + i).push(
            text@[at + i],
        ));
        assert(pattern@.subrange(0, i + 1) == pattern@.subrange(0, i as int).push(
            pattern@[i as int],
        ));
        i = i + 1;
    }
    assert(pattern@.subrange(0, pattern@.len() as int) == pattern@);
    true
}

/// The first place at or after `from` where `pattern` stands in `text`.
pub open spec fn spec_find(text: Seq<char>, pattern: Seq<char>, from: int) -> Option<int>
    decreases text.len() - from + 1,
{
    if from < 0 || from + pattern.len() > text.len() {
        None
    } else if spec_matches_at(text, pattern, from) {
        Some(from)
    } else {
        spec_find(text, pattern, from + 1)
    }
}

/// What a place found says: the pattern stands there and nowhere before.
pub proof fn lemma_find(text: Seq<char>, pattern: Seq<char>, from: int)
    requires
        0 <= from,
    ensures
        match spec_find(text, pattern, from) {
            Some(at) => from <= at && spec_matches_at(text, pattern, at) && forall|k: int|
                from <= k < at ==> !spec_matches_at(text, pattern, k),
            None => forall|k: int| from <= k ==> !spec_matches_at(text, pattern, k),
        },
    decreases text.len() - from + 1,
{
    if from + pattern.len() > text.len() {
    } else if spec_matches_at(text, pattern, from) {
    } else {
        lemma_find(text, pattern, from + 1);
    }
}

/// The first place at or after `from` where `pattern` stands in `text`.
pub fn find(text: &Vec<char>, pattern: &Vec<char>, from: usize) -> (r: Option<usize>)
    ensures
        match spec_find(text@, pattern@, from as int) {
            Some(at) => r matches Some(found) && found == at && at <= text@.len()
                - pattern@.len(),
            None => r is None,
        },
{
    if pattern.len() > text.len() || from > text.len() - pattern.len() {
        return None;
    }
    let last = text.len() - pattern.len();
    let mut at: usize = from;
    while at <= last
        invariant
            from <= at <= last + 1,
            last == text.len() - pattern.len(),
            spec_find(text@, pattern@, from as int) == spec_find(text@, pattern@, at as int),
        decreases last + 1 - at,
    {
        if matches_at(text, pattern, at) {
            return Some(at);
        }
        if at == last {
            assert(spec_find(text@, pattern@, at + 1) is None);
            return None;
        }
        at = at + 1;
    }
    None
}

/// The characters of `text` from `from` up to `to`.
pub fn slice(text: &Vec<char>, from: usize, to: usize) -> (out: Vec<char>)
    requires
        from <= to <= text.len(),
    ensures
        out@ == text@.subrange(from as int, to as int),
{
    let mut out: Vec<char> = Vec::new();
    let mut i: usize = from;
    while i < to
        invariant
            from <= i <= to <= text.len(),
            out@ == text@.subrange(from as int, i as int),
        decreases to - i,
    {
        out.push(text[i]);
        i = i + 1;
    }
    out
}

/// The pieces of `text` between the places where `delimiter` stands, from
/// `from` on. A text that ends with the delimiter has an empty last piece.
pub open spec fn spec_split(text: Seq<char>, delimiter: Seq<char>, from: int) -> Seq<Seq<char>>
    decreases text.len() - from,
{
    if delimiter.len() == 0 || from < 0 || from > text.len() {
        Seq::empty()
    } else {
        match spec_find(text, delimiter, from) {
            None => seq![text.subrange(from, text.len() as int)],
            Some(at) => if at < from || at + delimiter.len() > text.len() {
                Seq::empty()
            } else {
                seq![text.subrange(from, at)] + spec_split(
                    text,
                    delimiter,
                    at + delimiter.len(),
                )
            },
        }
    }
}

/// The pieces of `text` between the places where `delimiter` stands.
pub fn split(text: &Vec<char>, delimiter: &Vec<char>) -> (pieces: Vec<Vec<char>>)
    requires
        delimiter@.len() > 0,
    ensures
        pieces@.len() == spec_split(text@, delimiter@, 0).len(),
        forall|i: int| 0 <= i < pieces@.len() ==> (#[trigger] pieces@[i])@ == spec_split(
            text@,
            delimiter@,
            0,
        )[i],
{
    let mut pieces: Vec<Vec<char>> = Vec::new();
    let mut from: usize = 0;
    let ghost whole = spec_split(text@, delimiter@, 0);
    let ghost mut seen: Seq<Seq<char>> = Seq::empty();
    loop
        invariant
            from <= text.len(),
            delimiter@.len() > 0,
            whole == spec_split(text@, delimiter@, 0),
            whole == seen + spec_split(text@, delimiter@, from as int),
            seen.len() == pieces@.len(),
            forall|i: int| 0 <= i < pieces@.len() ==> (#[trigger] pieces@[i])@ == seen[i],
        decreases text.len() - from,
    {
        proof {
            lemma_find(text@, delimiter@, from as int);
        }
        match find(text, delimiter, from) {
            None => {
                let last = slice(text, from, text.len());
                proof {
                    seen = seen.push(last@);
                }
                pieces.push(last);
                assert(whole == seen);
                return pieces;
            },
            Some(at) => {
                let piece = slice(text, from, at);
                proof {
                    let rest = spec_split(text@, delimiter@, at + delimiter@.len());
                    assert(seen + (seq![piece@] + rest) == seen.push(piece@) + rest);
                    seen = seen.push(piece@);
                }
                pieces.push(piece);
                from = at + delimiter.len();
            },
        }
    }
}

/// The decimal digits of a number, highest first.
pub open spec fn spec_decimal(n: nat) -> Seq<char>
    decreases n,
{
    if n < 10 {
        seq![(n + 0x30) as char]
    } else {
        spec_decimal(n / 10).push((n % 10 + 0x30) as char)
    }
}

/// The decimal digits of a number, highest first.
pub fn decimal(n: u32) -> (digits: Vec<char>)
    ensures
        digits@ == spec_decimal(n as nat),
    decreases n,
{
    if n < 10 {
        let mut digits: Vec<char> = Vec::new();
        digits.push(digit_char(n as u8));
        digits
    } else {
        let mut digits = decimal(n / 10);
        digits.push(digit_char((n % 10) as u8));
        digits
    }
}

/// The decimal digits of a number of any size, highest first.
pub fn decimal_of(n: u128) -> (digits: Vec<char>)
    ensures
        digits@ == spec_decimal(n as nat),
    decreases n,
{
    if n < 10 {
        let mut digits: Vec<char> = Vec::new();
        digits.push(digit_char(n as u8));
        digits
    } else {
        let mut digits = decimal_of(n / 10);
        digits.push(digit_char((n % 10) as u8));
        digits
    }
}

/// The character of a decimal digit.
pub fn digit_char(d: u8) -> (c: char)
    requires
        d < 10,
    ensures
        c == (d + 0x30) as char,
{
    match d {
        0 => '0',
        1 => '1',
        2 => '2',
        3 => '3',
        4 => '4',
        5 => '5',
        6 => '6',
        7 => '7',
        8 => '8',
        _ => '9',
    }
}

/// The number that decimal digits spell, where they are digits, at least
/// one, and the number is no more than 65535.
pub open spec fn spec_parse_decimal(digits: Seq<char>) -> Option<nat>
    decreases digits.len(),
{
    if digits.len() == 0 {
        None
    } else {
        let last = digits.last();
        if !('0' <= last <= '9') {
            None
        } else if digits.len() == 1 {
            Some((last as u32 - 0x30) as nat)
        } else {
            match spec_parse_decimal(digits.drop_last()) {
                None => None,
                Some(high) => if high * 10 + (last as u32 - 0x30) > 0xffff {
                    None
                } else {
                    Some((high * 10 + (last as u32 - 0x30)) as nat)
                },
            }
        }
    }
}

/// The number that decimal digits spell.
pub fn parse_decimal(digits: &Vec<char>) -> (r: Option<u16>)
    ensures
        match spec_parse_decimal(digits@) {
            Some(n) => r == Some(n as u16) && n <= 0xffff,
            None => r is None,
        },
{
    if digits.len() == 0 {
        return None;
    }
    let mut value: u32 = 0;
    let mut i: usize = 0;
    while i < digits.len()
        invariant
            i <= digits.len(),
            value <= 0xffff,
            i > 0 ==> spec_parse_decimal(digits@.subrange(0, i as int)) == Some(value as nat),
            i == 0 ==> value == 0,
        decreases digits.len() - i,
    {
        let c = digits[i];
        proof {
            let next = digits@.subrange(0, i + 1);
            assert(next.drop_last() == digits@.subrange(0, i as int));
            assert(next.last() == c);
            if !('0' <= c <= '9') || value * 10 + (c as u32 - 0x30) > 0xffff {
                lemma_parse_decimal_fails(digits@, (i + 1) as nat);
            }
        }
        if !('0' <= c && c <= '9') {
            return None;
        }
        let d = c as u32 - 0x30;
        if value * 10 + d > 0xffff {
            return None;
        }
        value = value * 10 + d;
        i = i + 1;
    }
    assert(digits@.subrange(0, digits@.len() as int) == digits@);
    Some(value as u16)
}

/// Digits that do not spell a number do not do so with more behind them.
pub proof fn lemma_parse_decimal_fails(digits: Seq<char>, n: nat)
    requires
        0 < n <= digits.len(),
        spec_parse_decimal(digits.subrange(0, n as int)) is None,
    ensures
        spec_parse_decimal(digits) is None,
    decreases digits.len(),
{
    if n < digits.len() {
        assert(digits.drop_last().subrange(0, n as int) == digits.subrange(0, n as int));
        lemma_parse_decimal_fails(digits.drop_last(), n);
    } else {
        assert(digits.subrange(0, n as int) == digits);
    }
}

/// Whether `text` ends with `pattern`.
pub open spec fn spec_ends_with(text: Seq<char>, pattern: Seq<char>) -> bool {
    spec_matches_at(text, pattern, text.len() - pattern.len())
}

/// The title of the disc in a raw title. A raw title that ends with the
/// delimiter holds entries; the title of the disc is in the first, behind
/// the marker, and a first entry without the marker means that the disc has
/// no title. Any other raw title is the title of the disc.
pub open spec fn spec_disc_title(raw: Seq<char>, wchar: bool) -> Seq<char> {
    if spec_ends_with(raw, spec_delimiter(wchar)) {
        match spec_find(raw, spec_delimiter(wchar), 0) {
            None => raw,
            Some(at) => if spec_matches_at(raw, spec_title_marker(wchar), 0) && 2 <= at {
                raw.subrange(2, at)
            } else {
                Seq::empty()
            },
        }
    } else {
        raw
    }
}

/// The title of the disc in a raw title.
pub fn disc_title_in(raw: &Vec<char>, wchar: bool) -> (title: Vec<char>)
    ensures
        title@ == spec_disc_title(raw@, wchar),
{
    let delim = delimiter(wchar);
    let marker = title_marker(wchar);
    if raw.len() >= 2 && matches_at(raw, &delim, raw.len() - 2) {
        match find(raw, &delim, 0) {
            None => raw.clone(),
            Some(at) => if matches_at(raw, &marker, 0) && 2 <= at {
                slice(raw, 2, at)
            } else {
                Vec::new()
            },
        }
    } else {
        raw.clone()
    }
}

/// A group as a raw title holds it: its titles and the tracks in it, counted
/// from zero. The tracks outside every group form a group without titles.
pub ghost struct GroupView {
    pub title: Option<Seq<char>>,
    pub full_width_title: Option<Seq<char>>,
    pub tracks: Seq<u16>,
}

/// The tracks that the range of a group names, as the first track and the
/// track behind the last, counted from zero. A range is a number, or two
/// with `-` between, and counts from one. The last track is no later than the
/// last of the disc. A range that is malformed, starts at zero or is empty
/// names none.
pub open spec fn spec_range(range: Seq<char>, track_count: u16) -> Option<(nat, nat)> {
    let bounds = match spec_find(range, seq!['-'], 0) {
        None => match spec_parse_decimal(range) {
            None => None,
            Some(n) => Some((n, n)),
        },
        Some(dash) => match (
            spec_parse_decimal(range.subrange(0, dash)),
            spec_parse_decimal(range.subrange(dash + 1, range.len() as int)),
        ) {
            (Some(min), Some(max)) => Some((min, max)),
            _ => None,
        },
    };
    match bounds {
        None => None,
        Some((min, max)) => {
            let last = if max < track_count {
                max
            } else {
                track_count as nat
            };
            if min == 0 || min > last {
                None
            } else {
                Some(((min - 1) as nat, last))
            }
        },
    }
}

/// The tracks that the range of a group names.
pub fn range_of(range: &Vec<char>, track_count: u16) -> (r: Option<(u16, u16)>)
    ensures
        match spec_range(range@, track_count) {
            Some((first, end)) => r == Some((first as u16, end as u16)) && first < end
                <= track_count,
            None => r is None,
        },
{
    let mut dash: Vec<char> = Vec::new();
    dash.push('-');
    assert(dash@ == seq!['-']);
    assert(dash@.len() == 1);
    let bounds = match find(range, &dash, 0) {
        None => match parse_decimal(range) {
            None => None,
            Some(n) => Some((n, n)),
        },
        Some(at) => {
            let end = range.len();
            assert(spec_find(range@, dash@, 0) is Some);
            assert(at < end);
            match (parse_decimal(&slice(range, 0, at)), parse_decimal(&slice(range, at + 1, end))) {
                (Some(min), Some(max)) => Some((min, max)),
                _ => None,
            }
        },
    };
    match bounds {
        None => None,
        Some((min, max)) => {
            let last = if max < track_count {
                max
            } else {
                track_count
            };
            if min == 0 || min > last {
                None
            } else {
                Some((min - 1, last))
            }
        },
    }
}

/// The range and the title of a group in an entry of a half-width title: the
/// text before the first `;` and the text behind it. The entry of the disc
/// title, an entry without `;` and an entry without a range hold no group.
pub open spec fn spec_entry(entry: Seq<char>) -> Option<(Seq<char>, Seq<char>)> {
    if entry.len() == 0 || spec_matches_at(entry, spec_title_marker(false), 0) {
        None
    } else {
        match spec_find(entry, seq![';'], 0) {
            None => None,
            Some(semi) => if semi == 0 {
                None
            } else {
                Some((entry.subrange(0, semi), entry.subrange(semi + 1, entry.len() as int)))
            },
        }
    }
}

/// The range and the title of a group in an entry of a half-width title.
pub fn entry_of(entry: &Vec<char>) -> (r: Option<(Vec<char>, Vec<char>)>)
    ensures
        match spec_entry(entry@) {
            Some((range, title)) => r matches Some((a, b)) && a@ == range && b@ == title,
            None => r is None,
        },
{
    if entry.len() == 0 || matches_at(entry, &title_marker(false), 0) {
        return None;
    }
    let mut semicolon: Vec<char> = Vec::new();
    semicolon.push(';');
    assert(semicolon@ == seq![';']);
    match find(entry, &semicolon, 0) {
        None => None,
        Some(semi) => if semi == 0 {
            None
        } else {
            Some((slice(entry, 0, semi), slice(entry, semi + 1, entry.len())))
        },
    }
}

/// The first entry at or after `from` that starts with `range`.
pub open spec fn spec_entry_with_range(entries: Seq<Seq<char>>, range: Seq<char>, from: nat) -> Option<
    nat,
>
    decreases entries.len() - from,
{
    if from >= entries.len() {
        None
    } else if spec_matches_at(entries[from as int], range, 0) {
        Some(from)
    } else {
        spec_entry_with_range(entries, range, from + 1)
    }
}

/// The full-width title of a group in its entry: what stands behind the
/// first full-width semicolon, or nothing where there is none.
pub open spec fn spec_wide_title(entry: Seq<char>) -> Seq<char> {
    match spec_find(entry, seq!['\u{ff1b}'], 0) {
        None => Seq::empty(),
        Some(semi) => entry.subrange(semi + 1, entry.len() as int),
    }
}

/// Whether a track from `first` up to `end` is marked.
pub open spec fn spec_first_marked(used: Seq<bool>, first: nat, end: nat) -> Option<nat>
    decreases end - first,
{
    if first >= end {
        None
    } else if first < used.len() && used[first as int] {
        Some(first)
    } else {
        spec_first_marked(used, first + 1, end)
    }
}

/// The marks with the tracks from `first` up to `end` marked too.
pub open spec fn spec_mark(used: Seq<bool>, first: nat, end: nat) -> Seq<bool> {
    Seq::new(used.len(), |i: int| used[i] || first <= i < end)
}

/// The tracks from `first` up to `end`.
pub open spec fn spec_tracks(first: nat, end: nat) -> Seq<u16> {
    Seq::new((end - first) as nat, |i: int| (first + i) as u16)
}

/// The tracks that are not marked, in order.
pub open spec fn spec_unmarked(used: Seq<bool>, n: nat) -> Seq<u16>
    decreases n,
{
    if n == 0 {
        Seq::empty()
    } else if n <= used.len() && !used[n - 1] {
        spec_unmarked(used, (n - 1) as nat).push((n - 1) as u16)
    } else {
        spec_unmarked(used, (n - 1) as nat)
    }
}

/// Where the reading of the groups stands: the groups read, the tracks that
/// are in one, and the entry of the full-width title at which the search for
/// the next full-width title starts.
pub ghost struct GroupScan {
    pub groups: Seq<GroupView>,
    pub used: Seq<bool>,
    pub wide_from: nat,
}

/// The reading after one more entry of the half-width title. An entry that
/// holds no group, or whose range names no track, is passed over. The
/// full-width title of a group is looked for among the entries of the
/// full-width title that have not been looked at, in the entry that starts
/// with the range in full width. A track that is in a group already is an
/// error.
pub open spec fn group_step(
    state: GroupScan,
    entry: Seq<char>,
    wide_entries: Seq<Seq<char>>,
    track_count: u16,
) -> Result<GroupScan, InterfaceError> {
    match spec_entry(entry) {
        None => Ok(state),
        Some((range, title)) => {
            let wide_range = spec_half_width_to_full_width_range(range);
            let (wide_title, wide_from) = spec_wide_title_for(
                wide_entries,
                wide_range,
                state.wide_from,
            );
            match spec_range(range, track_count) {
                None => Ok(GroupScan { wide_from, ..state }),
                Some((first, end)) => match spec_first_marked(state.used, first, end) {
                    Some(track) => Err(InterfaceError::GroupError(track as u16)),
                    None => Ok(
                        GroupScan {
                            groups: state.groups.push(
                                GroupView {
                                    title: Some(title),
                                    full_width_title: Some(wide_title),
                                    tracks: spec_tracks(first, end),
                                },
                            ),
                            used: spec_mark(state.used, first, end),
                            wide_from,
                        },
                    ),
                },
            }
        },
    }
}

/// The reading after the first `n` entries of the half-width title.
pub open spec fn groups_after(
    entries: Seq<Seq<char>>,
    n: nat,
    wide_entries: Seq<Seq<char>>,
    track_count: u16,
) -> Result<GroupScan, InterfaceError>
    decreases n,
{
    if n == 0 {
        Ok(
            GroupScan {
                groups: Seq::empty(),
                used: Seq::new(track_count as nat, |i: int| false),
                wide_from: 0,
            },
        )
    } else {
        match groups_after(entries, (n - 1) as nat, wide_entries, track_count) {
            Err(e) => Err(e),
            Ok(state) => group_step(state, entries[n - 1], wide_entries, track_count),
        }
    }
}

/// The entries of a half-width title that may hold groups: those between
/// its delimiters, where it has any.
pub open spec fn spec_entries(raw: Seq<char>) -> Seq<Seq<char>> {
    if spec_find(raw, spec_delimiter(false), 0) is None {
        Seq::empty()
    } else {
        spec_split(raw, spec_delimiter(false), 0)
    }
}

/// The groups of a disc as its raw titles hold them: first the group without
/// titles, of the tracks that are in no other, then the groups in the order
/// of their entries.
pub open spec fn spec_groups(raw: Seq<char>, wide_raw: Seq<char>, track_count: u16) -> Result<
    Seq<GroupView>,
    InterfaceError,
> {
    match groups_after(
        spec_entries(raw),
        spec_entries(raw).len(),
        spec_split(wide_raw, spec_delimiter(true), 0),
        track_count,
    ) {
        Err(e) => Err(e),
        Ok(state) => Ok(
            seq![
                GroupView {
                    title: None,
                    full_width_title: None,
                    tracks: spec_unmarked(state.used, track_count as nat),
                },
            ] + state.groups,
        ),
    }
}

/// What a group holds.
pub open spec fn group_view(group: (Option<String>, Option<String>, Vec<u16>)) -> GroupView {
    GroupView {
        title: match group.0 {
            Some(t) => Some(t@),
            None => None,
        },
        full_width_title: match group.1 {
            Some(t) => Some(t@),
            None => None,
        },
        tracks: group.2@,
    }
}

/// What each of a list of groups holds.
pub open spec fn groups_view(groups: Seq<(Option<String>, Option<String>, Vec<u16>)>) -> Seq<
    GroupView,
> {
    Seq::new(groups.len(), |i: int| group_view(groups[i]))
}

/// Once the reading of the groups has failed, it has failed for good.
pub proof fn lemma_groups_error_stays(
    entries: Seq<Seq<char>>,
    n: nat,
    m: nat,
    wide_entries: Seq<Seq<char>>,
    track_count: u16,
)
    requires
        n <= m,
        groups_after(entries, n, wide_entries, track_count) is Err,
    ensures
        groups_after(entries, m, wide_entries, track_count) == groups_after(
            entries,
            n,
            wide_entries,
            track_count,
        ),
    decreases m,
{
    if n < m {
        lemma_groups_error_stays(entries, n, (m - 1) as nat, wide_entries, track_count);
    }
}

/// The full-width title for a range, and where the search for the next
/// starts.
pub open spec fn spec_wide_title_for(wide_entries: Seq<Seq<char>>, wide_range: Seq<char>, from: nat) -> (
    Seq<char>,
    nat,
) {
    match spec_entry_with_range(wide_entries, wide_range, from) {
        Some(at) => (spec_wide_title(wide_entries[at as int]), at + 1),
        None => (
            Seq::empty(),
            if from < wide_entries.len() {
                wide_entries.len()
            } else {
                from
            },
        ),
    }
}

/// Where an entry found stands.
pub proof fn lemma_entry_with_range(entries: Seq<Seq<char>>, range: Seq<char>, from: nat)
    ensures
        spec_entry_with_range(entries, range, from) matches Some(at) ==> from <= at
            < entries.len(),
    decreases entries.len() - from,
{
    if from < entries.len() && !spec_matches_at(entries[from as int], range, 0) {
        lemma_entry_with_range(entries, range, from + 1);
    }
}

/// Looks for the full-width title of a group among the entries of the
/// full-width title from `from` on.
pub fn wide_title_for(wide_entries: &Vec<Vec<char>>, wide_range: &Vec<char>, from: usize) -> (r: (
    Vec<char>,
    usize,
))
    requires
        from <= wide_entries@.len(),
    ensures
        r.1 <= wide_entries@.len(),
        (r.0@, r.1 as nat) == spec_wide_title_for(
            Seq::new(wide_entries@.len(), |k: int| wide_entries@[k]@),
            wide_range@,
            from as nat,
        ),
{
    let ghost views = Seq::new(wide_entries@.len(), |k: int| wide_entries@[k]@);
    let mut at: usize = from;
    while at < wide_entries.len()
        invariant
            from <= at <= wide_entries.len(),
            views == Seq::new(wide_entries@.len(), |k: int| wide_entries@[k]@),
            spec_entry_with_range(views, wide_range@, from as nat) == spec_entry_with_range(
                views,
                wide_range@,
                at as nat,
            ),
        decreases wide_entries.len() - at,
    {
        let entry = &wide_entries[at];
        assert(views[at as int] == entry@);
        if matches_at(entry, wide_range, 0) {
            let mut semicolon: Vec<char> = Vec::new();
            semicolon.push('\u{ff1b}');
            assert(semicolon@ == seq!['\u{ff1b}']);
            assert(semicolon@.len() == 1);
            let title = match find(entry, &semicolon, 0) {
                None => Vec::new(),
                Some(semi) => {
                    let end = entry.len();
                    assert(semi < end);
                    slice(entry, semi + 1, end)
                },
            };
            return (title, at + 1);
        }
        at = at + 1;
    }
    (Vec::new(), at)
}

/// The marks of the tracks of a disc in a table of the tracks that are in a
/// group: a track is marked where the table has it.
pub open spec fn marks_of(used: Map<u16, ()>, track_count: u16) -> Seq<bool> {
    Seq::new(track_count as nat, |i: int| used.contains_key(i as u16))
}

/// The tracks of a group, which are entered into the table of the tracks
/// that are in a group, or the first of them that is in the table already.
pub fn claim_tracks(used: &mut HashMap<u16, ()>, track_count: u16, first: u16, end: u16) -> (r:
    Result<Vec<u16>, u16>)
    requires
        first <= end <= track_count,
    ensures
        match spec_first_marked(marks_of(old(used)@, track_count), first as nat, end as nat) {
            Some(track) => r == Err::<Vec<u16>, u16>(track as u16),
            None => r matches Ok(tracks) && tracks@ == spec_tracks(first as nat, end as nat)
                && marks_of(final(used)@, track_count) == spec_mark(
                marks_of(old(used)@, track_count),
                first as nat,
                end as nat,
            ),
        },
{
    let mut track_list: Vec<u16> = Vec::new();
    let mut track: u16 = first;
    let ghost before = marks_of(used@, track_count);
    assert(marks_of(used@, track_count) == spec_mark(before, first as nat, track as nat));
    while track < end
        invariant
            first <= track <= end <= track_count,
            before == marks_of(old(used)@, track_count),
            spec_first_marked(before, first as nat, end as nat) == spec_first_marked(
                before,
                track as nat,
                end as nat,
            ),
            track_list@ == spec_tracks(first as nat, track as nat),
            marks_of(used@, track_count) == spec_mark(before, first as nat, track as nat),
        decreases end - track,
    {
        let ghost table = used@;
        if used.contains_key(&track) {
            assert(marks_of(table, track_count)[track as int]);
            assert(before[track as int]);
            return Err(track);
        }
        assert(!marks_of(table, track_count)[track as int]);
        used.insert(track, ());
        track_list.push(track);
        assert forall|i: int| 0 <= i < track_count implies marks_of(used@, track_count)[i]
            == spec_mark(before, first as nat, (track + 1) as nat)[i] by {
            assert(marks_of(table, track_count)[i] == spec_mark(
                before,
                first as nat,
                track as nat,
            )[i]);
        }
        track = track + 1;
        assert(marks_of(used@, track_count) == spec_mark(before, first as nat, track as nat));
        assert(track_list@ == spec_tracks(first as nat, track as nat));
    }
    Ok(track_list)
}

/// Reads the groups of a disc from its raw titles.
pub fn parse_groups(raw_title: &str, raw_full_title: &str, track_count: u16) -> (r: Result<
    Vec<(Option<String>, Option<String>, Vec<u16>)>,
    InterfaceError,
>)
    ensures
        match spec_groups(raw_title@, raw_full_title@, track_count) {
            Ok(groups) => r matches Ok(g) && groups_view(g@) == groups,
            Err(e) => r matches Err(x) && x == e,
        },
{
    let raw = chars_of(raw_title);
    let wide_raw = chars_of(raw_full_title);
    let entries = if find(&raw, &delimiter(false), 0).is_none() {
        Vec::new()
    } else {
        split(&raw, &delimiter(false))
    };
    let wide_entries = split(&wide_raw, &delimiter(true));
    let ghost entry_views = spec_entries(raw@);
    let ghost wide_views = spec_split(wide_raw@, spec_delimiter(true), 0);
    assert(entry_views.len() == entries@.len());
    assert(wide_views == Seq::new(wide_entries@.len(), |k: int| wide_entries@[k]@));
    let mut used: HashMap<u16, ()> = HashMap::new();
    assert(marks_of(used@, track_count) == Seq::new(track_count as nat, |i: int| false));
    let mut result: Vec<(Option<String>, Option<String>, Vec<u16>)> = Vec::new();
    let mut wide_from: usize = 0;
    let mut i: usize = 0;
    assert(groups_view(result@) == Seq::<GroupView>::empty());
    while i < entries.len()
        invariant
            i <= entries.len(),
            entry_views == spec_entries(raw_title@),
            wide_views == spec_split(raw_full_title@, spec_delimiter(true), 0),
            entry_views.len() == entries@.len(),
            forall|k: int| 0 <= k < entries@.len() ==> (#[trigger] entries@[k])@ == entry_views[k],
            wide_views == Seq::new(wide_entries@.len(), |k: int| wide_entries@[k]@),
            wide_from <= wide_entries.len(),
            groups_after(entry_views, i as nat, wide_views, track_count) == Ok::<
                GroupScan,
                InterfaceError,
            >(
                GroupScan {
                    groups: groups_view(result@),
                    used: marks_of(used@, track_count),
                    wide_from: wide_from as nat,
                },
            ),
        decreases entries.len() - i,
    {
        let ghost before = GroupScan {
            groups: groups_view(result@),
            used: marks_of(used@, track_count),
            wide_from: wide_from as nat,
        };
        let ghost seen = result@;
        assert(groups_after(entry_views, (i + 1) as nat, wide_views, track_count) == group_step(
            before,
            entry_views[i as int],
            wide_views,
            track_count,
        ));
        match entry_of(&entries[i]) {
            None => {},
            Some((range, title)) => {
                let wide_range = chars_of(
                    half_width_to_full_width_range(text_of(&range).as_str()).as_str(),
                );
                let (wide_title, next) = wide_title_for(&wide_entries, &wide_range, wide_from);
                wide_from = next;
                match range_of(&range, track_count) {
                    None => {},
                    Some((first, end)) => {
                        match claim_tracks(&mut used, track_count, first, end) {
                            Err(track) => {
                                proof {
                                    lemma_groups_error_stays(
                                        entry_views,
                                        (i + 1) as nat,
                                        entry_views.len(),
                                        wide_views,
                                        track_count,
                                    );
                                }
                                return Err(InterfaceError::GroupError(track));
                            },
                            Ok(track_list) => {
                                result.push(
                                    (
                                        Some(text_of(&title)),
                                        Some(text_of(&wide_title)),
                                        track_list,
                                    ),
                                );
                                assert(groups_view(result@) == groups_view(seen).push(
                                    group_view(result@.last()),
                                ));
                            },
                        }
                    },
                }
            },
        }
        i = i + 1;
    }
    let mut remaining_tracks: Vec<u16> = Vec::new();
    let mut n: u16 = 0;
    while n < track_count
        invariant
            n <= track_count,
            remaining_tracks@ == spec_unmarked(marks_of(used@, track_count), n as nat),
        decreases track_count - n,
    {
        assert(marks_of(used@, track_count)[n as int] == used@.contains_key(n));
        if !used.contains_key(&n) {
            remaining_tracks.push(n);
        }
        n = n + 1;
    }
    let ghost read = result@;
    result.insert(0, (None, None, remaining_tracks));
    assert(groups_view(result@) == seq![group_view(result@[0])] + groups_view(read));
    Ok(result)
}

/// The entry of a disc title: the marker, the title, the delimiter.
pub open spec fn spec_title_entry(title: Seq<char>, wchar: bool) -> Seq<char> {
    spec_title_marker(wchar) + title + spec_delimiter(wchar)
}

/// The raw title of a disc after its title is changed. A raw title without
/// entries becomes the new title. In a raw title with entries the groups
/// stay: the entry of the disc title is replaced by one for the new title,
/// or left out where the new title is empty; where there was no such entry,
/// one is put before the groups.
pub open spec fn spec_renamed_raw_title(old_raw: Seq<char>, new_name: Seq<char>, wchar: bool) -> Seq<
    char,
> {
    if spec_find(old_raw, spec_delimiter(wchar), 0) is None {
        new_name
    } else if spec_matches_at(old_raw, spec_title_marker(wchar), 0) {
        crate::netmd::utils::spec_replace_title_entry(
            old_raw,
            if new_name.len() > 0 {
                spec_title_entry(new_name, wchar)
            } else {
                Seq::empty()
            },
            wchar,
        )
    } else {
        spec_title_entry(new_name, wchar) + old_raw
    }
}

/// The raw title of a disc after its title is changed.
pub fn renamed_raw_title(old_raw: &str, new_name: &str, wchar: bool) -> (raw: String)
    ensures
        raw@ == spec_renamed_raw_title(old_raw@, new_name@, wchar),
{
    let old = chars_of(old_raw);
    let name = chars_of(new_name);
    if find(&old, &delimiter(wchar), 0).is_none() {
        return text_of(&name);
    }
    let mut entry = title_marker(wchar);
    let mut title = name.clone();
    entry.append(&mut title);
    let mut end = delimiter(wchar);
    entry.append(&mut end);
    assert(entry@ == spec_title_entry(new_name@, wchar));
    if matches_at(&old, &title_marker(wchar), 0) {
        let replacement = if name.len() > 0 {
            text_of(&entry)
        } else {
            text_of(&Vec::new())
        };
        let pattern = if wchar {
            crate::netmd::utils::WIDE_TITLE_ENTRY
        } else {
            crate::netmd::utils::HALF_TITLE_ENTRY
        };
        crate::netmd::utils::replace_title_entry(old_raw, pattern, replacement.as_str())
    } else {
        let mut old = old;
        entry.append(&mut old);
        text_of(&entry)
    }
}

} // verus!
