//! What holds of raw titles: a raw title that was written for a disc reads
//! back as the title and the groups of that disc.
use vstd::prelude::*;
use crate::netmd::base::Link;
use crate::netmd::commands::{
    any_wide,
    cells_of_groups,
    spec_list_content,
    spec_read_groups,
    spec_read_head,
    spec_read_track,
    spec_read_tracks,
    TrackView,
    spec_available,
    fits_full,
    fits_half,
    has_entry,
    spec_compile_disc_titles,
    spec_composed,
    spec_group_entries,
    spec_group_entry,
    spec_group_range,
    spec_min_index,
    spec_wide_composed,
    spec_wide_group_entries,
    spec_wide_group_entry,
    DiscView,
    GroupModel,
};
use crate::netmd::interface::{spec_track_group_list, InterfaceError};
use crate::netmd::mappings::spec_hw_to_fw_range;
use crate::netmd::titles::{
    group_step,
    groups_after,
    spec_delimiter,
    spec_disc_title,
    spec_entries,
    spec_entry,
    spec_entry_with_range,
    spec_first_marked,
    spec_groups,
    spec_mark,
    spec_range,
    spec_title_entry,
    spec_title_marker,
    spec_tracks,
    spec_unmarked,
    spec_wide_title,
    spec_wide_title_for,
    GroupScan,
    GroupView,
};
use crate::netmd::utils::spec_half_width_to_full_width_range;
use crate::netmd::titles::{
    lemma_find,
    spec_decimal,
    spec_find,
    spec_matches_at,
    spec_parse_decimal,
    spec_split,
};

verus! {

/// Whether a text is without a character.
pub open spec fn lacks(text: Seq<char>, c: char) -> bool {
    forall|i: int| 0 <= i < text.len() ==> text[i] != c
}

/// A pattern that stands at a place, and whose first character stands
/// nowhere from `from` up to that place, is found at that place.
pub proof fn lemma_found_at(text: Seq<char>, pattern: Seq<char>, from: int, at: int)
    requires
        pattern.len() >= 1,
        0 <= from <= at,
        spec_matches_at(text, pattern, at),
        forall|k: int| from <= k < at ==> text[k] != pattern[0],
    ensures
        spec_find(text, pattern, from) == Some(at),
{
    lemma_find(text, pattern, from);
    assert forall|k: int| from <= k < at implies !spec_matches_at(text, pattern, k) by {
        if spec_matches_at(text, pattern, k) {
            assert(text.subrange(k, k + pattern.len())[0] == pattern[0]);
        }
    }
}

/// Whether a text holds a character nowhere twice in a row and not at its
/// end: the delimiter that is made of the character twice stands nowhere in
/// such a text, nor across its end.
pub open spec fn clear_of(text: Seq<char>, c: char) -> bool {
    &&& forall|i: int| 0 <= i < text.len() - 1 ==> !(#[trigger] text[i] == c && text[i + 1] == c)
    &&& text.len() > 0 ==> text[text.len() - 1] != c
}

/// A pattern that stands at a place and nowhere from `from` up to that place
/// is found at that place.
pub proof fn lemma_found_first(text: Seq<char>, pattern: Seq<char>, from: int, at: int)
    requires
        0 <= from <= at,
        spec_matches_at(text, pattern, at),
        forall|k: int| from <= k < at ==> !spec_matches_at(text, pattern, k),
    ensures
        spec_find(text, pattern, from) == Some(at),
{
    lemma_find(text, pattern, from);
}

/// A delimiter of one character twice, behind a text that is clear of that
/// character, is found behind that text and nowhere before.
pub proof fn lemma_first_delimiter(
    prefix: Seq<char>,
    body: Seq<char>,
    pattern: Seq<char>,
    rest: Seq<char>,
)
    requires
        pattern.len() == 2,
        pattern[0] == pattern[1],
        clear_of(body, pattern[0]),
    ensures
        spec_find(prefix + body + pattern + rest, pattern, prefix.len() as int) == Some(
            (prefix.len() + body.len()) as int,
        ),
{
    let text = prefix + body + pattern + rest;
    let from = prefix.len() as int;
    let at = from + body.len();
    assert(text.subrange(at, at + pattern.len()) == pattern);
    assert forall|k: int| from <= k < at implies !spec_matches_at(text, pattern, k) by {
        if spec_matches_at(text, pattern, k) {
            let piece = text.subrange(k, k + 2);
            assert(piece[0] == pattern[0]);
            assert(piece[1] == pattern[1]);
            assert(text[k] == body[k - from]);
            if k + 1 < at {
                assert(text[k + 1] == body[k + 1 - from]);
            }
        }
    }
    lemma_found_first(text, pattern, from, at);
}

/// A text that is clear of a character, behind one that is without it, makes
/// a text that is clear of it.
pub proof fn lemma_marked_clear(head: Seq<char>, text: Seq<char>, c: char)
    requires
        lacks(head, c),
        clear_of(text, c),
    ensures
        clear_of(head + text, c),
{
    let both = head + text;
    assert forall|i: int| 0 <= i < both.len() - 1 implies !(#[trigger] both[i] == c && both[i + 1]
        == c) by {
        if i < head.len() {
            assert(both[i] == head[i]);
        } else {
            assert(both[i] == text[i - head.len()]);
            assert(both[i + 1] == text[i + 1 - head.len()]);
        }
    }
    if both.len() > 0 {
        if text.len() > 0 {
            assert(both[both.len() - 1] == text[text.len() - 1]);
        } else {
            assert(both[both.len() - 1] == head[head.len() - 1]);
        }
    }
}

/// A pattern behind a text that is without the first character of the
/// pattern is found behind that text and nowhere before.
pub proof fn lemma_first_match(
    prefix: Seq<char>,
    body: Seq<char>,
    pattern: Seq<char>,
    rest: Seq<char>,
)
    requires
        pattern.len() >= 1,
        lacks(body, pattern[0]),
    ensures
        spec_find(prefix + body + pattern + rest, pattern, prefix.len() as int) == Some(
            (prefix.len() + body.len()) as int,
        ),
{
    let text = prefix + body + pattern + rest;
    let from = prefix.len() as int;
    let at = from + body.len();
    assert(text.subrange(at, at + pattern.len()) == pattern);
    assert forall|k: int| from <= k < at implies text[k] != pattern[0] by {
        assert(text[k] == body[k - from]);
    }
    lemma_found_at(text, pattern, from, at);
}

/// A pattern is not found in a text that is without the first character of
/// the pattern.
pub proof fn lemma_no_match(text: Seq<char>, pattern: Seq<char>)
    requires
        pattern.len() >= 1,
        lacks(text, pattern[0]),
    ensures
        spec_find(text, pattern, 0) is None,
{
    lemma_find(text, pattern, 0);
    assert forall|k: int| 0 <= k implies !spec_matches_at(text, pattern, k) by {
        if spec_matches_at(text, pattern, k) {
            assert(text.subrange(k, k + pattern.len())[0] == pattern[0]);
        }
    }
}

/// Texts one after the other, each with the delimiter behind it.
pub open spec fn join(bodies: Seq<Seq<char>>, delimiter: Seq<char>) -> Seq<char>
    decreases bodies.len(),
{
    if bodies.len() == 0 {
        Seq::empty()
    } else {
        bodies[0] + delimiter + join(bodies.drop_first(), delimiter)
    }
}

/// Texts that are clear of the character of the delimiter are the pieces of
/// what they are joined to, with an empty piece behind them.
pub proof fn lemma_split_join(prefix: Seq<char>, bodies: Seq<Seq<char>>, delimiter: Seq<char>)
    requires
        delimiter.len() == 2,
        delimiter[0] == delimiter[1],
        forall|i: int| 0 <= i < bodies.len() ==> clear_of(#[trigger] bodies[i], delimiter[0]),
    ensures
        spec_split(prefix + join(bodies, delimiter), delimiter, prefix.len() as int)
            == bodies.push(Seq::empty()),
    decreases bodies.len(),
{
    let text = prefix + join(bodies, delimiter);
    let from = prefix.len() as int;
    if bodies.len() == 0 {
        assert(text == prefix);
        assert(spec_find(text, delimiter, from) is None);
        assert(text.subrange(from, text.len() as int) == Seq::<char>::empty());
        assert(seq![Seq::<char>::empty()] == bodies.push(Seq::empty()));
    } else {
        let first = bodies[0];
        let others = bodies.drop_first();
        let rest = join(others, delimiter);
        assert(text == prefix + first + delimiter + rest);
        lemma_first_delimiter(prefix, first, delimiter, rest);
        let at = from + first.len();
        assert(text.subrange(from, at) == first);
        let behind = prefix + first + delimiter;
        assert(text == behind + rest);
        assert forall|i: int| 0 <= i < others.len() implies clear_of(
            #[trigger] others[i],
            delimiter[0],
        ) by {
            assert(others[i] == bodies[i + 1]);
        }
        lemma_split_join(behind, others, delimiter);
        assert(seq![first] + others.push(Seq::empty()) == bodies.push(Seq::empty()));
    }
}

/// One more text joined on.
pub proof fn lemma_join_push(bodies: Seq<Seq<char>>, body: Seq<char>, delimiter: Seq<char>)
    ensures
        join(bodies.push(body), delimiter) == join(bodies, delimiter) + body + delimiter,
    decreases bodies.len(),
{
    if bodies.len() == 0 {
        assert(bodies.push(body).drop_first() == Seq::<Seq<char>>::empty());
        assert(join(Seq::<Seq<char>>::empty(), delimiter) == Seq::<char>::empty());
        assert(join(bodies, delimiter) == Seq::<char>::empty());
        assert(join(bodies.push(body), delimiter) == body + delimiter + Seq::<char>::empty());
    } else {
        assert(bodies.push(body).drop_first() == bodies.drop_first().push(body));
        lemma_join_push(bodies.drop_first(), body, delimiter);
        assert(bodies[0] + delimiter + (join(bodies.drop_first(), delimiter) + body + delimiter)
            == bodies[0] + delimiter + join(bodies.drop_first(), delimiter) + body + delimiter);
    }
}

/// Whether a character is a decimal digit.
pub open spec fn is_digit(c: char) -> bool {
    '0' <= c <= '9'
}

/// The decimal digits of a number are digits, at least one, and the first is
/// no zero unless the number is.
pub proof fn lemma_decimal_digits(n: nat)
    ensures
        spec_decimal(n).len() >= 1,
        forall|i: int| 0 <= i < spec_decimal(n).len() ==> is_digit(#[trigger] spec_decimal(n)[i]),
        n >= 1 ==> spec_decimal(n)[0] != '0',
    decreases n,
{
    if n >= 10 {
        lemma_decimal_digits(n / 10);
    }
}

/// The decimal digits of a number spell the number.
pub proof fn lemma_parse_decimal(n: nat)
    requires
        n <= 0xffff,
    ensures
        spec_parse_decimal(spec_decimal(n)) == Some(n),
    decreases n,
{
    if n >= 10 {
        lemma_parse_decimal(n / 10);
        lemma_decimal_digits(n / 10);
        let digits = spec_decimal(n);
        assert(digits.drop_last() == spec_decimal(n / 10));
    }
}

/// The first track of a group as its range in a raw title says it, counted
/// from zero.
pub open spec fn group_first(group: GroupModel) -> nat {
    spec_min_index(group.tracks, group.tracks.len()) as nat
}

/// The track behind the last of a group as its range in a raw title says
/// it.
pub open spec fn group_end(group: GroupModel) -> nat {
    group_first(group) + group.tracks.len()
}

/// Whether a text is made of digits and hyphens, and starts with a digit
/// that is no zero.
pub open spec fn is_range(range: Seq<char>) -> bool {
    &&& range.len() >= 1
    &&& is_digit(range[0])
    &&& range[0] != '0'
    &&& forall|i: int| 0 <= i < range.len() ==> is_digit(#[trigger] range[i]) || range[i] == '-'
}

/// The range of a group with tracks is made of digits and hyphens.
pub proof fn lemma_group_range_chars(group: GroupModel)
    requires
        group.tracks.len() >= 1,
    ensures
        is_range(spec_group_range(group)),
{
    let first = group_first(group) + 1;
    let last = (first + group.tracks.len() - 1) as nat;
    lemma_decimal_digits(first);
    lemma_decimal_digits(last);
    let range = spec_group_range(group);
    if group.tracks.len() == 1 {
    } else {
        let low = spec_decimal(first);
        let high = spec_decimal(last);
        assert(range == low + seq!['-'] + high);
        assert forall|i: int| 0 <= i < range.len() implies is_digit(#[trigger] range[i])
            || range[i] == '-' by {
            if i < low.len() {
                assert(range[i] == low[i]);
            } else if i == low.len() {
            } else {
                assert(range[i] == high[i - low.len() - 1]);
            }
        }
        assert(range[0] == low[0]);
    }
}

/// The range of a group in a raw title reads back as the first track of the
/// group and the track behind its last.
pub proof fn lemma_range_reads_back(group: GroupModel, track_count: u16)
    requires
        group.tracks.len() >= 1,
        group_end(group) <= track_count,
    ensures
        spec_range(spec_group_range(group), track_count) == Some(
            (group_first(group), group_end(group)),
        ),
{
    let first = group_first(group) + 1;
    let last = (first + group.tracks.len() - 1) as nat;
    lemma_decimal_digits(first);
    lemma_decimal_digits(last);
    lemma_parse_decimal(first);
    lemma_parse_decimal(last);
    let range = spec_group_range(group);
    let dash = seq!['-'];
    if group.tracks.len() == 1 {
        assert(lacks(range, dash[0]));
        lemma_no_match(range, dash);
    } else {
        let low = spec_decimal(first);
        let high = spec_decimal(last);
        assert(lacks(low, dash[0]));
        lemma_first_match(Seq::empty(), low, dash, high);
        assert(range == Seq::<char>::empty() + low + dash + high);
        assert(range.subrange(0, low.len() as int) == low);
        assert(range.subrange(low.len() as int + 1, range.len() as int) == high);
    }
}

/// A range, a semicolon and a title are an entry that reads back as the
/// range and the title.
pub proof fn lemma_entry_reads_back(range: Seq<char>, title: Seq<char>)
    requires
        is_range(range),
    ensures
        spec_entry(range + seq![';'] + title) == Some((range, title)),
{
    let entry = range + seq![';'] + title;
    let semicolon = seq![';'];
    assert(lacks(range, semicolon[0]));
    lemma_first_match(Seq::empty(), range, semicolon, title);
    assert(entry == Seq::<char>::empty() + range + semicolon + title);
    assert(entry.subrange(0, range.len() as int) == range);
    assert(entry.subrange(range.len() as int + 1, entry.len() as int) == title);
    assert(!spec_matches_at(entry, spec_title_marker(false), 0)) by {
        if spec_matches_at(entry, spec_title_marker(false), 0) {
            assert(entry.subrange(0, 2)[0] == '0');
        }
    }
}

/// The entry of a disc title holds no group, and neither does an empty
/// entry.
pub proof fn lemma_title_entry_holds_no_group(title: Seq<char>)
    ensures
        spec_entry(spec_title_marker(false) + title) is None,
        spec_entry(Seq::empty()) is None,
{
    let entry = spec_title_marker(false) + title;
    assert(entry.subrange(0, 2) == spec_title_marker(false));
}

/// A range in full width is as long as the range, is without the full-width
/// semicolon and slash, and does not start with the full-width zero.
pub proof fn lemma_wide_range(range: Seq<char>)
    requires
        is_range(range),
    ensures
        spec_half_width_to_full_width_range(range).len() == range.len(),
        lacks(spec_half_width_to_full_width_range(range), '\u{ff1b}'),
        lacks(spec_half_width_to_full_width_range(range), '\u{ff0f}'),
        spec_half_width_to_full_width_range(range)[0] != '\u{ff10}',
{
    let wide = spec_half_width_to_full_width_range(range);
    assert forall|i: int| 0 <= i < wide.len() implies wide[i] != '\u{ff1b}' && wide[i]
        != '\u{ff0f}' by {
        assert(is_digit(range[i]) || range[i] == '-');
    }
}

/// A range in full width, a full-width semicolon and a title are an entry
/// that starts with the range and whose title reads back.
pub proof fn lemma_wide_entry_reads_back(wide_range: Seq<char>, title: Seq<char>)
    requires
        lacks(wide_range, '\u{ff1b}'),
    ensures
        spec_wide_title(wide_range + seq!['\u{ff1b}'] + title) == title,
        spec_matches_at(wide_range + seq!['\u{ff1b}'] + title, wide_range, 0),
{
    let entry = wide_range + seq!['\u{ff1b}'] + title;
    let semicolon = seq!['\u{ff1b}'];
    assert(lacks(wide_range, semicolon[0]));
    lemma_first_match(Seq::empty(), wide_range, semicolon, title);
    assert(entry == Seq::<char>::empty() + wide_range + semicolon + title);
    assert(entry.subrange(wide_range.len() as int + 1, entry.len() as int) == title);
    assert(entry.subrange(0, wide_range.len() as int) == wide_range);
}

/// The full-width title of a group as it is written: its title, or nothing
/// where it has none.
pub open spec fn wide_title_of(group: GroupModel) -> Seq<char> {
    match group.full_width_title {
        Some(t) => t,
        None => Seq::empty(),
    }
}

/// Whether the tracks that the ranges of two groups name are apart.
pub open spec fn apart(a: GroupModel, b: GroupModel) -> bool {
    group_end(a) <= group_first(b) || group_end(b) <= group_first(a)
}

/// Whether the raw titles of a disc read back as the disc: no title holds
/// the slash of its kind twice in a row or at its end, the ranges of the
/// groups with entries name tracks of the disc and are apart from each other,
/// and the raw titles have room.
pub open spec fn readable(disc: DiscView) -> bool {
    &&& clear_of(disc.title, '/')
    &&& clear_of(disc.full_width_title, '\u{ff0f}')
    &&& forall|g: int|
        0 <= g < disc.groups.len() && has_entry(#[trigger] disc.groups[g]) ==> clear_of(
            disc.groups[g].title->0,
            '/',
        ) && clear_of(wide_title_of(disc.groups[g]), '\u{ff0f}') && group_end(disc.groups[g])
            <= disc.track_count
    &&& forall|a: int, b: int|
        0 <= a < b < disc.groups.len() && has_entry(#[trigger] disc.groups[a]) && has_entry(
            #[trigger] disc.groups[b],
        ) ==> apart(disc.groups[a], disc.groups[b])
    &&& fits_half(disc, spec_composed(disc))
    &&& any_wide(disc.groups, disc.groups.len()) ==> fits_full(disc, spec_wide_composed(disc))
}

/// The entry of a group in the half-width raw title, without its delimiter.
pub open spec fn body_of(group: GroupModel) -> Seq<char> {
    spec_group_range(group) + seq![';'] + group.title->0
}

/// The entry of a group in the full-width raw title, without its delimiter.
pub open spec fn wide_body_of(group: GroupModel) -> Seq<char> {
    spec_half_width_to_full_width_range(spec_group_range(group)) + seq!['\u{ff1b}']
        + wide_title_of(group)
}

/// The entries of the half-width raw title for the title of the disc and
/// the first `n` groups, without their delimiters.
pub open spec fn bodies(disc: DiscView, n: nat) -> Seq<Seq<char>>
    decreases n,
{
    if n == 0 {
        if disc.title.len() > 0 {
            seq![spec_title_marker(false) + disc.title]
        } else {
            Seq::empty()
        }
    } else if has_entry(disc.groups[n - 1]) {
        bodies(disc, (n - 1) as nat).push(body_of(disc.groups[n - 1]))
    } else {
        bodies(disc, (n - 1) as nat)
    }
}

/// The entries of the full-width raw title for the title of the disc and
/// the first `n` groups, without their delimiters.
pub open spec fn wide_bodies(disc: DiscView, n: nat) -> Seq<Seq<char>>
    decreases n,
{
    if n == 0 {
        seq![spec_title_marker(true) + disc.full_width_title]
    } else if has_entry(disc.groups[n - 1]) {
        wide_bodies(disc, (n - 1) as nat).push(wide_body_of(disc.groups[n - 1]))
    } else {
        wide_bodies(disc, (n - 1) as nat)
    }
}

/// Whether a track is in one of the first `n` groups that have entries.
pub open spec fn covered(disc: DiscView, n: nat, track: int) -> bool
    decreases n,
{
    if n == 0 {
        false
    } else {
        covered(disc, (n - 1) as nat, track) || (has_entry(disc.groups[n - 1]) && group_first(
            disc.groups[n - 1],
        ) <= track < group_end(disc.groups[n - 1]))
    }
}

/// What the reading of a raw title knows after the entries of the first `n`
/// groups: the groups, the tracks in them, and where the search for the next
/// full-width title starts. `wide` says whether there is a full-width raw
/// title.
pub open spec fn read_state(disc: DiscView, n: nat, wide: bool) -> GroupScan
    decreases n,
{
    if n == 0 {
        GroupScan {
            groups: Seq::empty(),
            used: Seq::new(disc.track_count as nat, |i: int| false),
            wide_from: 0,
        }
    } else {
        let before = read_state(disc, (n - 1) as nat, wide);
        let group = disc.groups[n - 1];
        if has_entry(group) {
            GroupScan {
                groups: before.groups.push(
                    GroupView {
                        title: Some(group.title->0),
                        full_width_title: Some(
                            if wide {
                                wide_title_of(group)
                            } else {
                                Seq::empty()
                            },
                        ),
                        tracks: spec_tracks(group_first(group), group_end(group)),
                    },
                ),
                used: spec_mark(before.used, group_first(group), group_end(group)),
                wide_from: if wide {
                    wide_bodies(disc, n).len()
                } else {
                    1
                },
            }
        } else {
            before
        }
    }
}

/// The tracks that the reading has marked are those in the groups that it
/// has read.
pub proof fn lemma_marks(disc: DiscView, n: nat, wide: bool)
    ensures
        read_state(disc, n, wide).used.len() == disc.track_count,
        forall|i: int|
            0 <= i < disc.track_count ==> #[trigger] read_state(disc, n, wide).used[i] == covered(
                disc,
                n,
                i,
            ),
        wide_bodies(disc, n).len() >= 1,
        wide ==> read_state(disc, n, wide).wide_from == 0 || read_state(disc, n, wide).wide_from
            == wide_bodies(disc, n).len(),
        wide && read_state(disc, n, wide).wide_from == 0 ==> wide_bodies(disc, n).len() == 1,
        !wide ==> read_state(disc, n, wide).wide_from <= 1,
    decreases n,
{
    if n > 0 {
        lemma_marks(disc, (n - 1) as nat, wide);
    }
}

/// A track of a group with an entry is in none of the groups before it.
pub proof fn lemma_not_covered(disc: DiscView, n: nat, b: int, track: int)
    requires
        n <= b < disc.groups.len(),
        has_entry(disc.groups[b]),
        group_first(disc.groups[b]) <= track < group_end(disc.groups[b]),
        forall|x: int, y: int|
            0 <= x < y < disc.groups.len() && has_entry(#[trigger] disc.groups[x]) && has_entry(
                #[trigger] disc.groups[y],
            ) ==> apart(disc.groups[x], disc.groups[y]),
    ensures
        !covered(disc, n, track),
    decreases n,
{
    if n > 0 {
        lemma_not_covered(disc, (n - 1) as nat, b, track);
        if has_entry(disc.groups[n - 1]) {
            assert(apart(disc.groups[n - 1], disc.groups[b]));
        }
    }
}

/// Where no track of a range is marked, none is found marked.
pub proof fn lemma_none_marked(used: Seq<bool>, first: nat, end: nat)
    requires
        forall|i: int| first <= i < end && i < used.len() ==> !used[i],
    ensures
        spec_first_marked(used, first, end) is None,
    decreases end - first,
{
    if first < end {
        lemma_none_marked(used, first + 1, end);
    }
}

/// The search for a full-width title among the entries of a full-width raw
/// title finds the entry of a group at its place, where the search starts
/// at this place, or at the entry of the disc title before the first group.
pub proof fn lemma_wide_found(
    wide_entries: Seq<Seq<char>>,
    group: GroupModel,
    at: nat,
    from: nat,
)
    requires
        group.tracks.len() >= 1,
        1 <= at < wide_entries.len(),
        wide_entries[at as int] == wide_body_of(group),
        from == at || (from == 0 && at == 1 && wide_entries[0].len() >= 1 && wide_entries[0][0]
            == '\u{ff10}'),
    ensures
        spec_wide_title_for(
            wide_entries,
            spec_half_width_to_full_width_range(spec_group_range(group)),
            from,
        ) == (wide_title_of(group), at + 1),
{
    let range = spec_group_range(group);
    let wide_range = spec_half_width_to_full_width_range(range);
    lemma_group_range_chars(group);
    lemma_wide_range(range);
    lemma_wide_entry_reads_back(wide_range, wide_title_of(group));
    assert(spec_entry_with_range(wide_entries, wide_range, at) == Some(at));
    if from != at {
        assert(!spec_matches_at(wide_entries[0], wide_range, 0)) by {
            if spec_matches_at(wide_entries[0], wide_range, 0) {
                assert(wide_entries[0].subrange(0, wide_range.len() as int)[0] == wide_range[0]);
            }
        }
        assert(spec_entry_with_range(wide_entries, wide_range, 0) == spec_entry_with_range(
            wide_entries,
            wide_range,
            1,
        ));
    }
}

/// The search for a full-width title finds none where there is no
/// full-width raw title.
pub proof fn lemma_wide_missing(group: GroupModel, from: nat)
    requires
        group.tracks.len() >= 1,
        from <= 1,
    ensures
        spec_wide_title_for(
            seq![Seq::<char>::empty()],
            spec_half_width_to_full_width_range(spec_group_range(group)),
            from,
        ) == (Seq::<char>::empty(), 1nat),
{
    let range = spec_group_range(group);
    let wide_range = spec_half_width_to_full_width_range(range);
    let wide_entries = seq![Seq::<char>::empty()];
    lemma_group_range_chars(group);
    lemma_wide_range(range);
    assert(!spec_matches_at(wide_entries[0], wide_range, 0));
    assert(spec_entry_with_range(wide_entries, wide_range, 1) is None);
    if from == 0 {
        assert(spec_entry_with_range(wide_entries, wide_range, 0) == spec_entry_with_range(
            wide_entries,
            wide_range,
            1,
        ));
    }
}

/// The first of the entries of a full-width raw title is that of the disc
/// title, and the first of the entries of a half-width raw title is that of
/// the disc title where the disc has one.
pub proof fn lemma_first_bodies(disc: DiscView, n: nat)
    ensures
        wide_bodies(disc, n).len() >= 1,
        wide_bodies(disc, n)[0] == spec_title_marker(true) + disc.full_width_title,
        disc.title.len() > 0 ==> bodies(disc, n).len() >= 1 && bodies(disc, n)[0]
            == spec_title_marker(false) + disc.title,
        disc.title.len() == 0 && bodies(disc, n).len() >= 1 ==> exists|g: int|
            0 <= g < n && has_entry(#[trigger] disc.groups[g]) && bodies(disc, n)[0] == body_of(
                disc.groups[g],
            ),
    decreases n,
{
    if n > 0 {
        lemma_first_bodies(disc, (n - 1) as nat);
        if disc.title.len() == 0 && bodies(disc, n).len() >= 1 {
            if bodies(disc, (n - 1) as nat).len() >= 1 {
                let g = choose|g: int|
                    0 <= g < n - 1 && has_entry(#[trigger] disc.groups[g]) && bodies(
                        disc,
                        (n - 1) as nat,
                    )[0] == body_of(disc.groups[g]);
                assert(has_entry(disc.groups[g]));
            } else {
                assert(has_entry(disc.groups[n - 1]));
            }
        }
    }
}

/// Every entry is clear of the slash of its kind.
pub proof fn lemma_bodies_clear(disc: DiscView, n: nat)
    requires
        n <= disc.groups.len(),
        clear_of(disc.title, '/'),
        clear_of(disc.full_width_title, '\u{ff0f}'),
        forall|g: int|
            0 <= g < disc.groups.len() && has_entry(#[trigger] disc.groups[g]) ==> clear_of(
                disc.groups[g].title->0,
                '/',
            ) && clear_of(wide_title_of(disc.groups[g]), '\u{ff0f}'),
    ensures
        forall|i: int| 0 <= i < bodies(disc, n).len() ==> clear_of(#[trigger] bodies(disc, n)[i], '/'),
        forall|i: int|
            0 <= i < wide_bodies(disc, n).len() ==> clear_of(
                #[trigger] wide_bodies(disc, n)[i],
                '\u{ff0f}',
            ),
    decreases n,
{
    if n == 0 {
        assert(lacks(spec_title_marker(false), '/'));
        assert(lacks(spec_title_marker(true), '\u{ff0f}'));
        lemma_marked_clear(spec_title_marker(false), disc.title, '/');
        lemma_marked_clear(spec_title_marker(true), disc.full_width_title, '\u{ff0f}');
        assert forall|i: int| 0 <= i < bodies(disc, n).len() implies clear_of(
            #[trigger] bodies(disc, n)[i],
            '/',
        ) by {
            assert(bodies(disc, n)[i] == spec_title_marker(false) + disc.title);
        }
        assert forall|i: int| 0 <= i < wide_bodies(disc, n).len() implies clear_of(
            #[trigger] wide_bodies(disc, n)[i],
            '\u{ff0f}',
        ) by {
            assert(wide_bodies(disc, n)[i] == spec_title_marker(true) + disc.full_width_title);
        }
    } else {
        lemma_bodies_clear(disc, (n - 1) as nat);
        let group = disc.groups[n - 1];
        let before = bodies(disc, (n - 1) as nat);
        let wide_before = wide_bodies(disc, (n - 1) as nat);
        if has_entry(group) {
            let range = spec_group_range(group);
            lemma_group_range_chars(group);
            lemma_wide_range(range);
            let wide_range = spec_half_width_to_full_width_range(range);
            assert(lacks(range, '/')) by {
                assert forall|k: int| 0 <= k < range.len() implies range[k] != '/' by {
                    assert(is_digit(range[k]) || range[k] == '-');
                }
            }
            assert(lacks(seq![';'], '/'));
            assert(lacks(seq!['\u{ff1b}'], '\u{ff0f}'));
            lemma_marked_lacks(range, seq![';'], '/');
            lemma_marked_lacks(wide_range, seq!['\u{ff1b}'], '\u{ff0f}');
            lemma_marked_clear(range + seq![';'], group.title->0, '/');
            lemma_marked_clear(wide_range + seq!['\u{ff1b}'], wide_title_of(group), '\u{ff0f}');
            assert(clear_of(body_of(group), '/'));
            assert(clear_of(wide_body_of(group), '\u{ff0f}'));
            assert forall|i: int| 0 <= i < bodies(disc, n).len() implies clear_of(
                #[trigger] bodies(disc, n)[i],
                '/',
            ) by {
                if i < before.len() {
                    assert(bodies(disc, n)[i] == before[i]);
                } else {
                    assert(bodies(disc, n)[i] == body_of(group));
                }
            }
            assert forall|i: int| 0 <= i < wide_bodies(disc, n).len() implies clear_of(
                #[trigger] wide_bodies(disc, n)[i],
                '\u{ff0f}',
            ) by {
                if i < wide_before.len() {
                    assert(wide_bodies(disc, n)[i] == wide_before[i]);
                } else {
                    assert(wide_bodies(disc, n)[i] == wide_body_of(group));
                }
            }
        } else {
            assert(bodies(disc, n) == before);
            assert(wide_bodies(disc, n) == wide_before);
        }
    }
}

/// Two texts that are without a character are without it one behind the
/// other.
pub proof fn lemma_marked_lacks(head: Seq<char>, text: Seq<char>, c: char)
    requires
        lacks(head, c),
        lacks(text, c),
    ensures
        lacks(head + text, c),
{
    let both = head + text;
    assert forall|k: int| 0 <= k < both.len() implies both[k] != c by {
        if k < head.len() {
            assert(both[k] == head[k]);
        } else {
            assert(both[k] == text[k - head.len()]);
        }
    }
}

/// The raw titles are their entries joined.
pub proof fn lemma_composed_is_join(disc: DiscView, n: nat)
    ensures
        (if disc.title.len() > 0 {
            spec_title_entry(disc.title, false)
        } else {
            Seq::empty()
        }) + spec_group_entries(disc.groups, n) == join(bodies(disc, n), spec_delimiter(false)),
        spec_title_entry(disc.full_width_title, true) + spec_wide_group_entries(disc.groups, n)
            == join(wide_bodies(disc, n), spec_delimiter(true)),
    decreases n,
{
    let half = spec_delimiter(false);
    let full = spec_delimiter(true);
    let none = Seq::<Seq<char>>::empty();
    assert(join(none, half) == Seq::<char>::empty());
    assert(join(none, full) == Seq::<char>::empty());
    if n == 0 {
        lemma_join_push(none, spec_title_marker(true) + disc.full_width_title, full);
        assert(none.push(spec_title_marker(true) + disc.full_width_title) == wide_bodies(disc, 0));
        assert(spec_wide_group_entries(disc.groups, 0) == Seq::<char>::empty());
        assert(spec_group_entries(disc.groups, 0) == Seq::<char>::empty());
        if disc.title.len() > 0 {
            lemma_join_push(none, spec_title_marker(false) + disc.title, half);
            assert(none.push(spec_title_marker(false) + disc.title) == bodies(disc, 0));
        }
    } else {
        lemma_composed_is_join(disc, (n - 1) as nat);
        let group = disc.groups[n - 1];
        if has_entry(group) {
            lemma_join_push(bodies(disc, (n - 1) as nat), body_of(group), half);
            lemma_join_push(wide_bodies(disc, (n - 1) as nat), wide_body_of(group), full);
            assert(spec_group_entry(group) == body_of(group) + half);
            assert(spec_wide_group_entry(group) == wide_body_of(group) + full);
            let head = if disc.title.len() > 0 {
                spec_title_entry(disc.title, false)
            } else {
                Seq::empty()
            };
            let before = spec_group_entries(disc.groups, (n - 1) as nat);
            assert(head + (before + (body_of(group) + half)) == (head + before) + body_of(group)
                + half);
            let wide_head = spec_title_entry(disc.full_width_title, true);
            let wide_before = spec_wide_group_entries(disc.groups, (n - 1) as nat);
            assert(wide_head + (wide_before + (wide_body_of(group) + full)) == (wide_head
                + wide_before) + wide_body_of(group) + full);
        }
    }
}

/// The entry of a group with an entry reads back as the group.
pub proof fn lemma_group_step(disc: DiscView, n: nat, wide: bool, wide_entries: Seq<Seq<char>>)
    requires
        1 <= n <= disc.groups.len(),
        has_entry(disc.groups[n - 1]),
        forall|g: int|
            0 <= g < disc.groups.len() && has_entry(#[trigger] disc.groups[g]) ==> group_end(
                disc.groups[g],
            ) <= disc.track_count,
        forall|a: int, b: int|
            0 <= a < b < disc.groups.len() && has_entry(#[trigger] disc.groups[a]) && has_entry(
                #[trigger] disc.groups[b],
            ) ==> apart(disc.groups[a], disc.groups[b]),
        wide ==> wide_entries.len() >= wide_bodies(disc, n).len() && wide_entries.subrange(
            0,
            wide_bodies(disc, n).len() as int,
        ) == wide_bodies(disc, n),
        !wide ==> wide_entries == seq![Seq::<char>::empty()],
    ensures
        group_step(
            read_state(disc, (n - 1) as nat, wide),
            body_of(disc.groups[n - 1]),
            wide_entries,
            disc.track_count,
        ) == Ok::<GroupScan, InterfaceError>(read_state(disc, n, wide)),
{
    let group = disc.groups[n - 1];
    let before = read_state(disc, (n - 1) as nat, wide);
    let range = spec_group_range(group);
    let first = group_first(group);
    let end = group_end(group);
    lemma_group_range_chars(group);
    lemma_entry_reads_back(range, group.title->0);
    lemma_range_reads_back(group, disc.track_count);
    lemma_marks(disc, (n - 1) as nat, wide);
    assert forall|i: int| first <= i < end && i < before.used.len() implies !before.used[i] by {
        lemma_not_covered(disc, (n - 1) as nat, n - 1, i);
    }
    lemma_none_marked(before.used, first, end);
    if wide {
        let at = wide_bodies(disc, (n - 1) as nat).len();
        lemma_first_bodies(disc, n);
        assert(wide_entries.subrange(0, wide_bodies(disc, n).len() as int)[at as int]
            == wide_entries[at as int]);
        assert(wide_entries.subrange(0, wide_bodies(disc, n).len() as int)[0] == wide_entries[0]);
        assert(wide_entries[0][0] == '\u{ff10}') by {
            assert((spec_title_marker(true) + disc.full_width_title)[0] == '\u{ff10}');
        }
        lemma_wide_found(wide_entries, group, at, before.wide_from);
    } else {
        lemma_wide_missing(group, before.wide_from);
    }
}

/// The entries of a raw title read back as the groups that they were
/// written for.
pub proof fn lemma_entries_read_back(
    disc: DiscView,
    n: nat,
    wide: bool,
    entries: Seq<Seq<char>>,
    wide_entries: Seq<Seq<char>>,
)
    requires
        n <= disc.groups.len(),
        forall|g: int|
            0 <= g < disc.groups.len() && has_entry(#[trigger] disc.groups[g]) ==> group_end(
                disc.groups[g],
            ) <= disc.track_count,
        forall|a: int, b: int|
            0 <= a < b < disc.groups.len() && has_entry(#[trigger] disc.groups[a]) && has_entry(
                #[trigger] disc.groups[b],
            ) ==> apart(disc.groups[a], disc.groups[b]),
        entries.len() >= bodies(disc, n).len(),
        entries.subrange(0, bodies(disc, n).len() as int) == bodies(disc, n),
        wide ==> wide_entries.len() >= wide_bodies(disc, n).len() && wide_entries.subrange(
            0,
            wide_bodies(disc, n).len() as int,
        ) == wide_bodies(disc, n),
        !wide ==> wide_entries == seq![Seq::<char>::empty()],
    ensures
        groups_after(entries, bodies(disc, n).len(), wide_entries, disc.track_count) == Ok::<
            GroupScan,
            InterfaceError,
        >(read_state(disc, n, wide)),
    decreases n,
{
    let count = bodies(disc, n).len();
    if n == 0 {
        if disc.title.len() > 0 {
            assert(entries.subrange(0, 1)[0] == entries[0]);
            lemma_title_entry_holds_no_group(disc.title);
            assert(groups_after(entries, 0, wide_entries, disc.track_count) == Ok::<
                GroupScan,
                InterfaceError,
            >(read_state(disc, 0, wide)));
        }
    } else {
        let group = disc.groups[n - 1];
        let fewer = bodies(disc, (n - 1) as nat).len();
        if has_entry(group) {
            assert(entries.subrange(0, count as int).subrange(0, fewer as int) == entries.subrange(
                0,
                fewer as int,
            ));
            assert(bodies(disc, n).subrange(0, fewer as int) == bodies(disc, (n - 1) as nat));
            if wide {
                let wide_count = wide_bodies(disc, n).len();
                let wide_fewer = wide_bodies(disc, (n - 1) as nat).len();
                assert(wide_entries.subrange(0, wide_count as int).subrange(0, wide_fewer as int)
                    == wide_entries.subrange(0, wide_fewer as int));
                assert(wide_bodies(disc, n).subrange(0, wide_fewer as int) == wide_bodies(
                    disc,
                    (n - 1) as nat,
                ));
            }
            lemma_entries_read_back(disc, (n - 1) as nat, wide, entries, wide_entries);
            assert(entries.subrange(0, count as int)[fewer as int] == entries[fewer as int]);
            assert(entries[fewer as int] == body_of(group));
            lemma_group_step(disc, n, wide, wide_entries);
        } else {
            lemma_entries_read_back(disc, (n - 1) as nat, wide, entries, wide_entries);
        }
    }
}

/// What reading gives for the raw titles of a disc: the group without
/// titles, of the tracks in no other group, and a group for each group with
/// an entry, in order, with its titles and with the tracks of its range.
pub open spec fn read_back(disc: DiscView) -> Seq<GroupView> {
    let state = read_state(
        disc,
        disc.groups.len(),
        any_wide(disc.groups, disc.groups.len()),
    );
    seq![
        GroupView {
            title: None,
            full_width_title: None,
            tracks: spec_unmarked(state.used, disc.track_count as nat),
        },
    ] + state.groups
}

/// The groups of what was written read back.
pub proof fn lemma_compiled_groups_read_back(disc: DiscView)
    requires
        readable(disc),
    ensures
        spec_groups(
            join(bodies(disc, disc.groups.len()), spec_delimiter(false)),
            if any_wide(disc.groups, disc.groups.len()) {
                join(wide_bodies(disc, disc.groups.len()), spec_delimiter(true))
            } else {
                Seq::empty()
            },
            disc.track_count,
        ) == Ok::<Seq<GroupView>, InterfaceError>(read_back(disc)),
{
    let count = disc.groups.len();
    let wide = any_wide(disc.groups, count);
    let delimiter = spec_delimiter(false);
    let wide_delimiter = spec_delimiter(true);
    let entries = bodies(disc, count);
    let written = wide_bodies(disc, count);
    let none = Seq::<char>::empty();
    let half = join(entries, delimiter);
    let full = if wide {
        join(written, wide_delimiter)
    } else {
        none
    };
    lemma_bodies_clear(disc, count);
    assert(join(Seq::<Seq<char>>::empty(), delimiter) == none);
    let wide_read = spec_split(full, wide_delimiter, 0);
    if wide {
        lemma_split_join(none, written, wide_delimiter);
        assert(none + join(written, wide_delimiter) == full);
        assert(wide_read.subrange(0, written.len() as int) == written);
    } else {
        assert(spec_find(full, wide_delimiter, 0) is None);
        assert(full.subrange(0, 0) == none);
        assert(wide_read == seq![none]);
    }
    if entries.len() == 0 {
        assert(half == none);
        assert(spec_find(half, delimiter, 0) is None);
        assert(Seq::<Seq<char>>::empty().subrange(0, 0) == entries);
        lemma_entries_read_back(disc, count, wide, Seq::empty(), wide_read);
    } else {
        let first = entries[0];
        let rest = join(entries.drop_first(), delimiter);
        assert(half == none + first + delimiter + rest);
        lemma_first_delimiter(none, first, delimiter, rest);
        lemma_split_join(none, entries, delimiter);
        assert(none + join(entries, delimiter) == half);
        let read = entries.push(none);
        assert(spec_entries(half) == read);
        assert(read.subrange(0, entries.len() as int) == entries);
        lemma_entries_read_back(disc, count, wide, read, wide_read);
        lemma_title_entry_holds_no_group(none);
        assert(groups_after(read, read.len(), wide_read, disc.track_count) == group_step(
            read_state(disc, count, wide),
            read[entries.len() as int],
            wide_read,
            disc.track_count,
        ));
    }
}

/// Entries that are joined end with the delimiter.
pub proof fn lemma_join_ends(entries: Seq<Seq<char>>, delimiter: Seq<char>)
    requires
        entries.len() >= 1,
    ensures
        spec_matches_at(
            join(entries, delimiter),
            delimiter,
            join(entries, delimiter).len() - delimiter.len(),
        ),
{
    lemma_join_push(entries.drop_last(), entries.last(), delimiter);
    assert(entries.drop_last().push(entries.last()) == entries);
    let joined = join(entries, delimiter);
    assert(joined.subrange(joined.len() - delimiter.len(), joined.len() as int) == delimiter);
}

/// The title of the disc in what was written reads back.
pub proof fn lemma_compiled_title_reads_back(disc: DiscView)
    requires
        clear_of(disc.title, '/'),
        forall|g: int|
            0 <= g < disc.groups.len() && has_entry(#[trigger] disc.groups[g]) ==> clear_of(
                disc.groups[g].title->0,
                '/',
            ) && clear_of(wide_title_of(disc.groups[g]), '\u{ff0f}'),
        clear_of(disc.full_width_title, '\u{ff0f}'),
    ensures
        spec_disc_title(join(bodies(disc, disc.groups.len()), spec_delimiter(false)), false)
            == disc.title,
{
    let count = disc.groups.len();
    let delimiter = spec_delimiter(false);
    let entries = bodies(disc, count);
    let none = Seq::<char>::empty();
    let half = join(entries, delimiter);
    lemma_bodies_clear(disc, count);
    lemma_first_bodies(disc, count);
    assert(join(Seq::<Seq<char>>::empty(), delimiter) == none);
    if entries.len() == 0 {
        assert(half == none);
        assert(!spec_matches_at(half, delimiter, half.len() - delimiter.len()));
        assert(disc.title == none);
    } else {
        let first = entries[0];
        let rest = join(entries.drop_first(), delimiter);
        assert(half == none + first + delimiter + rest);
        lemma_first_delimiter(none, first, delimiter, rest);
        lemma_join_ends(entries, delimiter);
        assert(spec_find(half, delimiter, 0) == Some(first.len() as int));
        if disc.title.len() > 0 {
            assert(half.subrange(0, 2) == spec_title_marker(false));
            assert(half.subrange(2, first.len() as int) == disc.title);
        } else {
            let g = choose|g: int|
                0 <= g < count && has_entry(#[trigger] disc.groups[g]) && entries[0] == body_of(
                    disc.groups[g],
                );
            lemma_group_range_chars(disc.groups[g]);
            assert(half[0] == spec_group_range(disc.groups[g])[0]);
            assert(!spec_matches_at(half, spec_title_marker(false), 0)) by {
                if spec_matches_at(half, spec_title_marker(false), 0) {
                    assert(half.subrange(0, 2)[0] == '0');
                }
            }
            assert(disc.title == none);
        }
    }
}

/// What was written reads back. For every disc whose raw titles have room
/// and can be read, see [`readable`]: the raw titles that are compiled for the
/// disc read back as the title of the disc and as its groups, each with its
/// titles and the tracks of its range.
pub proof fn lemma_compiled_titles_read_back(disc: DiscView)
    requires
        readable(disc),
    ensures
        spec_disc_title(spec_compile_disc_titles(disc).0, false) == disc.title,
        spec_groups(
            spec_compile_disc_titles(disc).0,
            spec_compile_disc_titles(disc).1,
            disc.track_count,
        ) == Ok::<Seq<GroupView>, InterfaceError>(read_back(disc)),
{
    lemma_composed_is_join(disc, disc.groups.len());
    lemma_compiled_groups_read_back(disc);
    lemma_compiled_title_reads_back(disc);
}

/// Whether a group of a disc is one that was read from a raw title: it has
/// the titles that were read, and as many tracks from the same first track on
/// as its range names.
pub open spec fn is_read(group: GroupModel, read: GroupView) -> bool {
    &&& group.title == read.title
    &&& group.full_width_title == read.full_width_title
    &&& group.tracks.len() == read.tracks.len()
    &&& read.tracks.len() >= 1 ==> spec_min_index(group.tracks, group.tracks.len())
        == read.tracks[0]
}

/// Whether a disc is one that was made of what the raw titles of another
/// gave when they were read: it has the same titles, its groups are those
/// that were read, and its tracks take as many cells and have full-width
/// titles where those of the other have.
pub open spec fn is_read_back(disc: DiscView, again: DiscView) -> bool {
    &&& again.title == disc.title
    &&& again.full_width_title == disc.full_width_title
    &&& again.groups.len() == read_back(disc).len()
    &&& forall|k: int|
        0 <= k < again.groups.len() ==> is_read(#[trigger] again.groups[k], read_back(disc)[k])
    &&& cells_of_groups(again.groups, again.groups.len()) == cells_of_groups(
        disc.groups,
        disc.groups.len(),
    )
    &&& any_wide(again.groups, again.groups.len()) == any_wide(disc.groups, disc.groups.len())
}

/// The groups that were read after the first `n` groups are the first of
/// those that are read in the end.
pub proof fn lemma_read_state_grows(disc: DiscView, n: nat, m: nat, wide: bool)
    requires
        n <= m,
    ensures
        read_state(disc, n, wide).groups.len() <= read_state(disc, m, wide).groups.len(),
        read_state(disc, m, wide).groups.subrange(
            0,
            read_state(disc, n, wide).groups.len() as int,
        ) == read_state(disc, n, wide).groups,
    decreases m,
{
    if n < m {
        lemma_read_state_grows(disc, n, (m - 1) as nat, wide);
    }
}

/// The entries of the groups that were read are the entries of the groups
/// that they were read from.
pub proof fn lemma_entries_of_read_back(disc: DiscView, again: DiscView, n: nat)
    requires
        n <= disc.groups.len(),
        is_read_back(disc, again),
        forall|g: int|
            0 <= g < disc.groups.len() && has_entry(#[trigger] disc.groups[g]) ==> group_end(
                disc.groups[g],
            ) <= disc.track_count,
    ensures
        spec_group_entries(
            again.groups,
            1 + read_state(disc, n, any_wide(disc.groups, disc.groups.len())).groups.len(),
        ) == spec_group_entries(disc.groups, n),
        any_wide(disc.groups, disc.groups.len()) ==> spec_wide_group_entries(
            again.groups,
            1 + read_state(disc, n, true).groups.len(),
        ) == spec_wide_group_entries(disc.groups, n),
    decreases n,
{
    let count = disc.groups.len();
    let wide = any_wide(disc.groups, count);
    let all = read_state(disc, count, wide).groups;
    if n == 0 {
        assert(is_read(again.groups[0], read_back(disc)[0]));
        assert(!has_entry(again.groups[0]));
        assert(spec_group_entries(again.groups, 0) == Seq::<char>::empty());
        assert(spec_wide_group_entries(again.groups, 0) == Seq::<char>::empty());
    } else {
        lemma_entries_of_read_back(disc, again, (n - 1) as nat);
        let group = disc.groups[n - 1];
        if has_entry(group) {
            let at = read_state(disc, (n - 1) as nat, wide).groups.len();
            lemma_read_state_grows(disc, n, count, wide);
            let read = read_state(disc, n, wide).groups[at as int];
            assert(all.subrange(0, at as int + 1)[at as int] == all[at as int]);
            assert(read_back(disc)[at as int + 1] == all[at as int]);
            let copy = again.groups[at as int + 1];
            assert(is_read(copy, read));
            assert(read.tracks.len() == group.tracks.len());
            assert(read.tracks[0] == group_first(group) as u16);
            assert(has_entry(copy));
            assert(spec_group_range(copy) == spec_group_range(group));
            assert(spec_group_entry(copy) == spec_group_entry(group));
            if wide {
                assert(spec_wide_group_entry(copy) == spec_wide_group_entry(group));
            }
        }
    }
}

/// What was read compiles to what was written. For every disc whose raw
/// titles have room and can be read, and every disc that is made of what the
/// raw titles of the first give when they are read: the raw titles of the
/// second are those of the first.
pub proof fn lemma_compile_of_read_back(disc: DiscView, again: DiscView)
    requires
        readable(disc),
        is_read_back(disc, again),
    ensures
        spec_compile_disc_titles(again) == spec_compile_disc_titles(disc),
{
    let count = disc.groups.len();
    let wide = any_wide(disc.groups, count);
    lemma_entries_of_read_back(disc, again, count);
    assert(again.groups.len() == 1 + read_state(disc, count, wide).groups.len());
    assert(spec_composed(again) == spec_composed(disc));
    assert(spec_available(again) == spec_available(disc));
    if wide {
        assert(spec_wide_composed(again) == spec_wide_composed(disc));
    }
}

/// Whether a group is made of what was read of a group of a raw title: it
/// has the titles of that group and a track for each of its tracks, in their
/// order.
pub open spec fn is_listed(group: GroupModel, read: GroupView) -> bool {
    &&& group.title == read.title
    &&& group.full_width_title == read.full_width_title
    &&& group.tracks.len() == read.tracks.len()
    &&& forall|j: int| 0 <= j < group.tracks.len() ==> (#[trigger] group.tracks[j]).index
        == read.tracks[j]
}

/// Whether tracks stand in the order of their numbers.
pub open spec fn ascending(tracks: Seq<u16>) -> bool {
    forall|i: int, j: int| 0 <= i <= j < tracks.len() ==> tracks[i] <= tracks[j]
}

/// The tracks that are read for a list of tracks are those tracks, in their
/// order.
pub proof fn lemma_read_tracks_listed(link: Link, indices: Seq<u16>, from: nat, tracks: Seq<TrackView>)
    requires
        from <= indices.len(),
        tracks.len() == from,
        forall|j: int| 0 <= j < from ==> (#[trigger] tracks[j]).index == indices[j],
    ensures
        match spec_read_tracks(link, indices, from, tracks).1 {
            Ok(read) => read.len() == indices.len() && forall|j: int|
                0 <= j < read.len() ==> (#[trigger] read[j]).index == indices[j],
            Err(_) => true,
        },
    decreases indices.len() - from,
{
    if from < indices.len() {
        let (after, track) = spec_read_track(link, indices[from as int]);
        match track {
            Err(_) => {},
            Ok(t) => {
                assert(t.index == indices[from as int]);
                let more = tracks.push(t);
                assert forall|j: int| 0 <= j < from + 1 implies (#[trigger] more[j]).index
                    == indices[j] by {
                    if j < from {
                        assert(more[j] == tracks[j]);
                    }
                }
                lemma_read_tracks_listed(after, indices, from + 1, more);
            },
        }
    }
}

/// The groups that are read for the groups of a raw title are made of those
/// groups.
pub proof fn lemma_read_groups_listed(
    link: Link,
    groups: Seq<GroupView>,
    from: nat,
    read: Seq<GroupModel>,
)
    requires
        from <= groups.len(),
        read.len() == from,
        forall|k: int| 0 <= k < from ==> is_listed(#[trigger] read[k], groups[k]),
    ensures
        match spec_read_groups(link, groups, from, read).1 {
            Ok(all) => all.len() == groups.len() && forall|k: int|
                0 <= k < all.len() ==> is_listed(#[trigger] all[k], groups[k]),
            Err(_) => true,
        },
    decreases groups.len() - from,
{
    if from < groups.len() {
        let (after, tracks) = spec_read_tracks(link, groups[from as int].tracks, 0, Seq::empty());
        lemma_read_tracks_listed(link, groups[from as int].tracks, 0, Seq::empty());
        match tracks {
            Err(_) => {},
            Ok(t) => {
                let group = GroupModel {
                    index: (from % 0x1_0000) as u16,
                    title: groups[from as int].title,
                    full_width_title: groups[from as int].full_width_title,
                    tracks: t,
                };
                assert(is_listed(group, groups[from as int]));
                let more = read.push(group);
                assert forall|k: int| 0 <= k < from + 1 implies is_listed(
                    #[trigger] more[k],
                    groups[k],
                ) by {
                    if k < from {
                        assert(more[k] == read[k]);
                    }
                }
                lemma_read_groups_listed(after, groups, from + 1, more);
            },
        }
    }
}

/// The lowest number among tracks that stand in the order of their numbers
/// is that of the first.
pub proof fn lemma_lowest_is_first(tracks: Seq<TrackView>, n: nat)
    requires
        1 <= n <= tracks.len(),
        forall|i: int, j: int|
            0 <= i <= j < tracks.len() ==> tracks[i].index <= tracks[j].index,
    ensures
        spec_min_index(tracks, n) == tracks[0].index,
    decreases n,
{
    if n > 1 {
        lemma_lowest_is_first(tracks, (n - 1) as nat);
    }
}

/// The tracks that are not marked stand in the order of their numbers, and
/// each is before the place up to which they are taken.
pub proof fn lemma_unmarked_ascending(used: Seq<bool>, n: nat)
    requires
        n <= 0x1_0000,
    ensures
        ascending(spec_unmarked(used, n)),
        forall|i: int| 0 <= i < spec_unmarked(used, n).len() ==> spec_unmarked(used, n)[i] < n,
    decreases n,
{
    if n > 0 {
        lemma_unmarked_ascending(used, (n - 1) as nat);
        let before = spec_unmarked(used, (n - 1) as nat);
        let now = spec_unmarked(used, n);
        assert forall|i: int, j: int| 0 <= i <= j < now.len() implies now[i] <= now[j] by {
            if j < before.len() {
                assert(now[i] == before[i]);
                assert(now[j] == before[j]);
            } else if i < before.len() {
                assert(now[i] == before[i]);
            }
        }
        assert forall|i: int| 0 <= i < now.len() implies now[i] < n by {
            if i < before.len() {
                assert(now[i] == before[i]);
            }
        }
    }
}

/// The tracks of the groups that are read from what was written stand in
/// the order of their numbers.
pub proof fn lemma_read_back_ascending(disc: DiscView, n: nat, wide: bool)
    requires
        n <= disc.groups.len(),
        forall|g: int|
            0 <= g < disc.groups.len() && has_entry(#[trigger] disc.groups[g]) ==> group_end(
                disc.groups[g],
            ) <= disc.track_count,
    ensures
        forall|k: int|
            0 <= k < read_state(disc, n, wide).groups.len() ==> ascending(
                (#[trigger] read_state(disc, n, wide).groups[k]).tracks,
            ),
    decreases n,
{
    if n > 0 {
        lemma_read_back_ascending(disc, (n - 1) as nat, wide);
        let before = read_state(disc, (n - 1) as nat, wide).groups;
        let now = read_state(disc, n, wide).groups;
        let group = disc.groups[n - 1];
        if has_entry(group) {
            let tracks = spec_tracks(group_first(group), group_end(group));
            assert(ascending(tracks));
            assert forall|k: int| 0 <= k < now.len() implies ascending((#[trigger] now[k]).tracks) by {
                if k < before.len() {
                    assert(now[k] == before[k]);
                } else {
                    assert(now[k].tracks == tracks);
                }
            }
        }
    }
}

/// A group that is made of a group that was read, whose tracks stand in the
/// order of their numbers, is one that was read.
pub proof fn lemma_listed_is_read(group: GroupModel, read: GroupView)
    requires
        is_listed(group, read),
        ascending(read.tracks),
    ensures
        is_read(group, read),
{
    if read.tracks.len() >= 1 {
        assert forall|i: int, j: int| 0 <= i <= j < group.tracks.len() implies group.tracks[i].index
            <= group.tracks[j].index by {
            assert(group.tracks[i].index == read.tracks[i]);
            assert(group.tracks[j].index == read.tracks[j]);
        }
        lemma_lowest_is_first(group.tracks, group.tracks.len());
        assert(group.tracks[0].index == read.tracks[0]);
    }
}

/// The list of a disc compiles to what was written. For every disc whose raw
/// titles have room and can be read, see [`readable`], and every list of the
/// content of a device that gives the titles of that disc and the groups of
/// its raw titles, with tracks whose titles take as many cells and are
/// full-width where those of the disc are: the raw titles that are compiled
/// for the disc that was listed are those that were written.
pub proof fn lemma_listed_disc_compiles_back(link: Link, disc: DiscView)
    requires
        readable(disc),
        spec_read_head(link).1 matches Ok(head) && head.title == spec_disc_title(
            spec_compile_disc_titles(disc).0,
            false,
        ) && head.full_width_title == disc.full_width_title,
        spec_track_group_list(spec_read_head(link).0).1 == spec_groups(
            spec_compile_disc_titles(disc).0,
            spec_compile_disc_titles(disc).1,
            disc.track_count,
        ),
        spec_list_content(link).1 matches Ok(listed) && cells_of_groups(
            listed.groups,
            listed.groups.len(),
        ) == cells_of_groups(disc.groups, disc.groups.len()) && any_wide(
            listed.groups,
            listed.groups.len(),
        ) == any_wide(disc.groups, disc.groups.len()),
    ensures
        spec_list_content(link).1 matches Ok(listed) && spec_compile_disc_titles(listed)
            == spec_compile_disc_titles(disc),
{
    let count = disc.groups.len();
    let wide = any_wide(disc.groups, count);
    lemma_compiled_titles_read_back(disc);
    let (l1, head) = spec_read_head(link);
    let (l2, list) = spec_track_group_list(l1);
    let groups = read_back(disc);
    assert(list == Ok::<Seq<GroupView>, InterfaceError>(groups));
    lemma_read_groups_listed(l2, groups, 0, Seq::empty());
    let listed = spec_list_content(link).1->Ok_0;
    assert(listed.groups == spec_read_groups(l2, groups, 0, Seq::empty()).1->Ok_0);
    lemma_marks(disc, count, wide);
    lemma_unmarked_ascending(read_state(disc, count, wide).used, disc.track_count as nat);
    lemma_read_back_ascending(disc, count, wide);
    assert forall|k: int| 0 <= k < listed.groups.len() implies is_read(
        #[trigger] listed.groups[k],
        groups[k],
    ) by {
        if k >= 1 {
            assert(groups[k] == read_state(disc, count, wide).groups[k - 1]);
        }
        lemma_listed_is_read(listed.groups[k], groups[k]);
    }
    assert(is_read_back(disc, listed));
    lemma_compile_of_read_back(disc, listed);
}

} // verus!
