//! Number and time conversions shared by the codec and the interface, and
//! the conversions of text on its way into titles.
use byteorder::{LittleEndian, WriteBytesExt};
use encoding_rs::SHIFT_JIS;
use regex::Regex;
use unicode_normalization::UnicodeNormalization;
use vstd::prelude::*;
use vstd::string::StringSliceAdditionalSpecFns;
use crate::netmd::mappings::{
    allowed_hw_char,
    hw_to_fw_range,
    is_multi_byte,
    mappings_de,
    mappings_hw,
    mappings_jp,
    mappings_ru,
    spec_allowed_hw_char,
    spec_hw_to_fw_range,
    spec_is_multi_byte,
    spec_mappings_de,
    spec_mappings_hw,
    spec_mappings_jp,
    spec_mappings_ru,
    spec_takes_semi_voiced_mark,
    spec_takes_voiced_mark,
    takes_semi_voiced_mark,
    takes_voiced_mark,
};

verus! {

/// The packed decimal form of `value`: one decimal digit in each four bits,
/// lowest digit lowest. Non-positive numbers have the form 0.
pub open spec fn spec_int_to_bcd(value: int) -> int
    decreases value,
{
    if value <= 0 {
        0
    } else {
        (value % 10) + 16 * spec_int_to_bcd(value / 10)
    }
}

/// The number that a packed decimal form stands for: each group of four bits
/// counts as one decimal digit, whatever it holds.
pub open spec fn spec_bcd_to_int(bcd: int) -> int
    decreases bcd,
{
    if bcd <= 0 {
        0
    } else {
        (bcd % 16) + 10 * spec_bcd_to_int(bcd / 16)
    }
}

/// The 32-bit pattern of `x` read as an unsigned number.
pub open spec fn bits_of(x: i32) -> int {
    if x >= 0 {
        x as int
    } else {
        x + 0x1_0000_0000
    }
}

/// Ten to the power `k`.
pub open spec fn pow10(k: nat) -> int
    decreases k,
{
    if k == 0 {
        1
    } else {
        10 * pow10((k - 1) as nat)
    }
}

/// Sixteen to the power `k`.
pub open spec fn pow16(k: nat) -> int
    decreases k,
{
    if k == 0 {
        1
    } else {
        16 * pow16((k - 1) as nat)
    }
}

/// Unpacking undoes packing.
pub proof fn lemma_bcd_round_trip(value: int)
    requires
        0 <= value,
    ensures
        spec_bcd_to_int(spec_int_to_bcd(value)) == value,
    decreases value,
{
    if value > 0 {
        lemma_bcd_round_trip(value / 10);
        let rest = spec_int_to_bcd(value / 10);
        lemma_int_to_bcd_nonneg(value / 10);
        let packed = (value % 10) + 16 * rest;
        assert(packed / 16 == rest);
        assert(packed % 16 == value % 10);
        if packed <= 0 {
            assert(rest == 0 && value % 10 == 0);
            lemma_int_to_bcd_zero(value / 10);
        }
    }
}

pub proof fn lemma_int_to_bcd_nonneg(value: int)
    ensures
        spec_int_to_bcd(value) >= 0,
    decreases value,
{
    if value > 0 {
        lemma_int_to_bcd_nonneg(value / 10);
    }
}

/// Only zero packs to zero.
pub proof fn lemma_int_to_bcd_zero(value: int)
    requires
        spec_int_to_bcd(value) == 0,
    ensures
        value <= 0,
    decreases value,
{
    if value > 0 {
        lemma_int_to_bcd_nonneg(value / 10);
        lemma_int_to_bcd_zero(value / 10);
    }
}

/// The powers that eight digits need.
proof fn lemma_power_table(k: nat)
    requires
        k <= 8,
    ensures
        1 <= pow10(k) <= 100_000_000,
        1 <= pow16(k) <= 0x1_0000_0000,
        k < 8 ==> pow10(k) <= 10_000_000 && pow16(k) <= 0x1000_0000,
        k == 8 ==> pow10(k) == 100_000_000 && pow16(k) == 0x1_0000_0000,
        k == 0 ==> pow10(k) == 1 && pow16(k) == 1,
{
    reveal_with_fuel(pow10, 9);
    reveal_with_fuel(pow16, 9);
    if k == 0 {
    } else if k == 1 {
    } else if k == 2 {
    } else if k == 3 {
    } else if k == 4 {
    } else if k == 5 {
    } else if k == 6 {
    } else if k == 7 {
    } else {
        assert(k == 8);
    }
}

fn pack_digits(value: u32) -> (bcd: u64)
    requires
        value <= 99_999_999,
    ensures
        bcd == spec_int_to_bcd(value as int),
        bcd < 0x1_0000_0000,
{
    let mut rest: u32 = value;
    let mut bcd: u64 = 0;
    let mut place: u64 = 1;
    let ghost mut k: nat = 0;
    proof {
        lemma_power_table(0);
        lemma_power_table(8);
    }
    while rest > 0
        invariant
            k <= 8,
            place == pow16(k),
            rest < pow10((8 - k) as nat),
            bcd < place,
            spec_int_to_bcd(value as int) == bcd + place * spec_int_to_bcd(rest as int),
        decreases rest,
    {
        proof {
            lemma_power_table(k);
            lemma_power_table((8 - k) as nat);
            assert(k < 8);
            lemma_power_table(k + 1);
            let tail = spec_int_to_bcd(rest as int / 10);
            lemma_int_to_bcd_nonneg(rest as int / 10);
            assert(place * ((rest % 10) + 16 * tail) == place * (rest % 10) + (place * 16) * tail)
                by (nonlinear_arith);
            assert(place * (rest % 10) <= place * 9) by (nonlinear_arith)
                requires
                    rest % 10 <= 9,
                    place >= 0,
            ;
            assert((rest % 10) * place == place * (rest % 10)) by (nonlinear_arith);
        }
        let digit: u64 = (rest % 10) as u64;
        bcd = bcd + digit * place;
        place = place * 16;
        rest = rest / 10;
        proof {
            k = k + 1;
        }
    }
    proof {
        lemma_power_table(k);
    }
    bcd
}

/// Packs a number into binary-coded decimal, one digit in each four bits.
/// A number below one packs to 0. The result is a 32-bit pattern, so eight
/// digits fit.
pub fn int_to_bcd(value: i32) -> (bcd: i32)
    requires
        value <= 99_999_999,
    ensures
        bits_of(bcd) == spec_int_to_bcd(value as int),
{
    if value <= 0 {
        return 0;
    }
    let packed: u64 = pack_digits(value as u32);
    if packed < 0x8000_0000 {
        packed as i32
    } else {
        (packed as i64 - 0x1_0000_0000) as i32
    }
}

/// Reads a 32-bit pattern as binary-coded decimal, lowest digit lowest.
pub fn bcd_to_int(bcd: i32) -> (value: i32)
    ensures
        value == spec_bcd_to_int(bits_of(bcd)),
{
    let mut rest: u64 = if bcd >= 0 {
        bcd as u64
    } else {
        (bcd as i64 + 0x1_0000_0000) as u64
    };
    let mut value: u64 = 0;
    let mut place: u64 = 1;
    let ghost mut k: nat = 0;
    proof {
        lemma_power_table(0);
        lemma_power_table(8);
    }
    while rest > 0
        invariant
            k <= 8,
            place == pow10(k),
            rest < pow16((8 - k) as nat),
            value <= 2 * place - 2,
            spec_bcd_to_int(bits_of(bcd)) == value + place * spec_bcd_to_int(rest as int),
        decreases rest,
    {
        proof {
            lemma_power_table(k);
            lemma_power_table((8 - k) as nat);
            assert(k < 8);
            lemma_power_table(k + 1);
            let tail = spec_bcd_to_int(rest as int / 16);
            assert(place * ((rest % 16) + 10 * tail) == place * (rest % 16) + (place * 10) * tail)
                by (nonlinear_arith);
            assert(place * (rest % 16) <= place * 15) by (nonlinear_arith)
                requires
                    rest % 16 <= 15,
                    place >= 0,
            ;
            assert((rest % 16) * place == place * (rest % 16)) by (nonlinear_arith);
        }
        let digit: u64 = rest % 16;
        value = value + digit * place;
        place = place * 10;
        rest = rest / 16;
        proof {
            k = k + 1;
        }
    }
    proof {
        lemma_power_table(k);
    }
    value as i32
}

/// Unpacking what was packed gives the number back, for every number of up
/// to eight digits.
pub proof fn lemma_bcd_to_int_of_int_to_bcd(x: int)
    requires
        0 <= x <= 99_999_999,
    ensures
        spec_bcd_to_int(spec_int_to_bcd(x)) == x,
{
    lemma_bcd_round_trip(x);
}

/// A time as the device counts it. A frame is 1/512 of a second.
#[derive(Debug, Clone, Copy, PartialEq, Eq, Structural)]
pub struct RawTime {
    pub hours: u64,
    pub minutes: u64,
    pub seconds: u64,
    pub frames: u64,
}

impl RawTime {
    /// The time in frames.
    pub open spec fn spec_as_frames(&self) -> int {
        ((self.hours * 60 + self.minutes) * 60 + self.seconds) * 512 + self.frames
    }

    /// The time in microseconds, a frame counted as 11 600 of them.
    pub open spec fn spec_as_micros(&self) -> int {
        (self.hours * 3_600_000_000) + (self.minutes * 60_000_000) + (self.seconds * 1_000_000) + (
        self.frames * 11_600)
    }

    /// Whether every field is small enough for the time to be counted in
    /// frames and in microseconds.
    pub open spec fn spec_in_range(&self) -> bool {
        &&& self.hours <= 0xffff_ffff
        &&& self.minutes <= 0xffff_ffff
        &&& self.seconds <= 0xffff_ffff
        &&& self.frames <= 0xffff_ffff
    }

    /// Whether every field is small enough for the time to be counted in
    /// frames and in microseconds.
    pub fn in_range(&self) -> (b: bool)
        ensures
            b == self.spec_in_range(),
            b ==> self.spec_as_frames() <= u64::MAX && self.spec_as_micros() <= u64::MAX,
    {
        self.hours <= 0xffff_ffff && self.minutes <= 0xffff_ffff && self.seconds <= 0xffff_ffff
            && self.frames <= 0xffff_ffff
    }

    /// The time in microseconds.
    pub fn as_micros(&self) -> (micros: u64)
        requires
            self.spec_as_micros() <= u64::MAX,
        ensures
            micros == self.spec_as_micros(),
    {
        (self.hours * 3_600_000_000) + (self.minutes * 60_000_000) + (self.seconds * 1_000_000) + (
        self.frames * 11_600)
    }

    /// The time in frames.
    pub fn as_frames(&self) -> (frames: u64)
        requires
            self.spec_as_frames() <= u64::MAX,
        ensures
            frames == self.spec_as_frames(),
    {
        ((self.hours * 60 + self.minutes) * 60 + self.seconds) * 512 + self.frames
    }
}

/// The longest text, in characters, that the conversions take: the sizes of
/// the buffers for a text this long, and of its forms in UTF-8 and in
/// Shift-JIS, fit the words of the machine.
pub const TEXT_LIMIT: usize = usize::MAX / 16;

/// The bytes that `encoding_rs::SHIFT_JIS.encode` makes of a text, and whether
/// the text held characters that Shift-JIS does not have.
pub uninterp spec fn shift_jis_encode(text: Seq<char>) -> (Seq<u8>, bool);

/// The text that `encoding_rs::SHIFT_JIS.decode` makes of bytes, and whether
/// the bytes held malformed sequences.
pub uninterp spec fn shift_jis_decode(bytes: Seq<u8>) -> (Seq<char>, bool);

/// The text that `kana::combine` makes of a text: kana followed by sound
/// marks become the voiced and semi-voiced kana.
pub uninterp spec fn kana_combine(text: Seq<char>) -> Seq<char>;

/// The text that `diacritics::remove_diacritics` makes of a text.
pub uninterp spec fn without_diacritics(text: Seq<char>) -> Seq<char>;

/// The canonical decomposition of a text, as `unicode_normalization` gives
/// it with `nfd`.
pub uninterp spec fn canonical_decomposition(text: Seq<char>) -> Seq<char>;

/// The text that `String::from_utf8_lossy` makes of bytes.
pub uninterp spec fn utf8_lossy(bytes: Seq<u8>) -> Seq<char>;

/// A text in Shift-JIS, with whether it held characters that Shift-JIS does
/// not have: what `encoding_rs::SHIFT_JIS.encode` gives.
#[verifier::external_body]
pub(crate) fn encode_sjis(text: &str) -> (r: (Vec<u8>, bool))
    requires
        text@.len() <= TEXT_LIMIT,
    ensures
        (r.0@, r.1) == shift_jis_encode(text@),
{
    let (bytes, _, unmappable) = SHIFT_JIS.encode(text);
    (bytes.into_owned(), unmappable)
}

/// Bytes of Shift-JIS as text, with whether they held malformed sequences:
/// what `encoding_rs::SHIFT_JIS.decode` gives.
#[verifier::external_body]
pub(crate) fn decode_sjis(bytes: &Vec<u8>) -> (r: (String, bool))
    requires
        bytes@.len() <= 4 * TEXT_LIMIT,
    ensures
        (r.0@, r.1) == shift_jis_decode(bytes@),
{
    let (text, _, malformed) = SHIFT_JIS.decode(bytes);
    (text.into_owned(), malformed)
}

/// The ASCII form of a full-width character.
pub open spec fn narrow(c: char) -> char {
    if 0xff00 < c as u32 && (c as u32) < 0xff5f {
        (c as u32 - 0xfee0) as char
    } else {
        c
    }
}

/// The katakana of a hiragana.
pub open spec fn katakana(c: char) -> char {
    if 0x3041 <= c as u32 && c as u32 <= 0x3096 {
        (c as u32 + 0x60) as char
    } else {
        c
    }
}

/// A space for a full-width space.
pub open spec fn narrow_space(c: char) -> char {
    if c == '\u{3000}' {
        ' '
    } else {
        c
    }
}

/// A text with full-width letters, digits and signs as ASCII: what
/// `kana::wide2ascii` gives, which moves each character from U+FF01 to
/// U+FF5E down by 0xFEE0.
#[verifier::external_body]
pub(crate) fn wide_to_ascii(text: &str) -> (r: String)
    ensures
        r@ == Seq::new(text@.len(), |i: int| narrow(text@[i])),
{
    kana::wide2ascii(text)
}

/// A text with spaces for full-width spaces: what `kana::nowidespace` gives.
#[verifier::external_body]
pub(crate) fn no_wide_space(text: &str) -> (r: String)
    ensures
        r@ == Seq::new(text@.len(), |i: int| narrow_space(text@[i])),
{
    kana::nowidespace(text)
}

/// A text with katakana for hiragana: what `kana::hira2kata` gives, which
/// moves each character from U+3041 to U+3096 up by 0x60.
#[verifier::external_body]
pub(crate) fn hira_to_kata(text: &str) -> (r: String)
    ensures
        r@ == Seq::new(text@.len(), |i: int| katakana(text@[i])),
{
    kana::hira2kata(text)
}

/// A text with kana and their sound marks combined: what `kana::combine`
/// gives.
#[verifier::external_body]
pub(crate) fn combine_marks(text: &str) -> (r: String)
    ensures
        r@ == kana_combine(text@),
{
    kana::combine(text)
}

/// A text without diacritics: what `diacritics::remove_diacritics` gives.
#[verifier::external_body]
pub(crate) fn remove_diacritics(text: &str) -> (r: String)
    ensures
        r@ == without_diacritics(text@),
{
    diacritics::remove_diacritics(text)
}

/// A text in canonical decomposition: what `nfd` of `unicode_normalization`
/// gives.
#[verifier::external_body]
pub(crate) fn decompose(text: &str) -> (r: String)
    ensures
        r@ == canonical_decomposition(text@),
{
    text.nfd().collect::<String>()
}

/// A text without the characters above U+007F: what `regex` gives when every
/// match of `[^\x00-\x7F]` is replaced by nothing.
#[verifier::external_body]
pub(crate) fn strip_non_ascii(text: &str) -> (r: String)
    ensures
        r@ == text@.filter(|c: char| c as u32 <= 0x7f),
{
    let re = Regex::new(r"[^\x00-\x7F]").unwrap();
    re.replace_all(text, "").into()
}

/// Bytes as text, with U+FFFD for what is not UTF-8: what
/// `String::from_utf8_lossy` gives.
#[verifier::external_body]
pub(crate) fn lossy_text(bytes: &Vec<u8>) -> (r: String)
    ensures
        r@ == utf8_lossy(bytes@),
{
    String::from_utf8_lossy(bytes).to_string()
}

/// Appends a character to a text, with `String::push`.
#[verifier::external_body]
pub(crate) fn push_char(text: &mut String, c: char)
    ensures
        final(text)@ == old(text)@.push(c),
{
    text.push(c);
}

/// A text of the given characters.
pub fn text_of(chars: &Vec<char>) -> (text: String)
    ensures
        text@ == chars@,
{
    let mut text = String::new();
    assert(text@ == Seq::<char>::empty()) by {
        reveal_strlit("");
    }
    let mut i: usize = 0;
    while i < chars.len()
        invariant
            i <= chars.len(),
            text@ == chars@.subrange(0, i as int),
        decreases chars.len() - i,
    {
        push_char(&mut text, chars[i]);
        i = i + 1;
    }
    assert(chars@.subrange(0, chars@.len() as int) == chars@);
    text
}

/// The characters of a text.
pub fn chars_of(text: &str) -> (chars: Vec<char>)
    ensures
        chars@ == text@,
{
    let mut chars: Vec<char> = Vec::new();
    let count = text.unicode_len();
    let mut i: usize = 0;
    while i < count
        invariant
            i <= count,
            count == text@.len(),
            chars@ == text@.subrange(0, i as int),
        decreases count - i,
    {
        chars.push(text.get_char(i));
        i = i + 1;
    }
    assert(text@.subrange(0, text@.len() as int) == text@);
    chars
}

/// The number of bytes of a character in UTF-8.
pub open spec fn spec_utf8_width(c: char) -> nat {
    if (c as u32) < 0x80 {
        1
    } else if (c as u32) < 0x800 {
        2
    } else if (c as u32) < 0x1_0000 {
        3
    } else {
        4
    }
}

/// The number of bytes of a text in UTF-8.
pub open spec fn spec_utf8_len(text: Seq<char>) -> nat
    decreases text.len(),
{
    if text.len() == 0 {
        0
    } else {
        spec_utf8_len(text.drop_last()) + spec_utf8_width(text.last())
    }
}

/// The number of characters of a text that take two bytes in a half-width
/// title.
pub open spec fn spec_multi_byte_count(text: Seq<char>) -> nat
    decreases text.len(),
{
    if text.len() == 0 {
        0
    } else {
        spec_multi_byte_count(text.drop_last()) + if spec_is_multi_byte(text.last()) {
            1nat
        } else {
            0nat
        }
    }
}

/// The length of a half-width title as the budget of the disc counts it: its
/// bytes in UTF-8, and one more for each character that takes two bytes on
/// the disc.
pub open spec fn spec_half_width_title_length(title: Seq<char>) -> nat {
    spec_utf8_len(title) + spec_multi_byte_count(title)
}

/// A text is no longer in UTF-8 than four bytes for each character.
pub proof fn lemma_utf8_len_bound(text: Seq<char>)
    ensures
        spec_utf8_len(text) <= 4 * text.len(),
        spec_multi_byte_count(text) <= text.len(),
    decreases text.len(),
{
    if text.len() > 0 {
        lemma_utf8_len_bound(text.drop_last());
    }
}

/// The number of bytes of a text in UTF-8.
pub fn utf8_len(text: &Vec<char>) -> (len: usize)
    requires
        text@.len() <= TEXT_LIMIT,
    ensures
        len == spec_utf8_len(text@),
{
    let mut len: usize = 0;
    let mut i: usize = 0;
    while i < text.len()
        invariant
            i <= text.len(),
            text@.len() <= TEXT_LIMIT,
            len == spec_utf8_len(text@.subrange(0, i as int)),
            len <= 4 * i,
        decreases text.len() - i,
    {
        proof {
            assert(text@.subrange(0, i + 1).drop_last() == text@.subrange(0, i as int));
        }
        let c = text[i];
        let code = c as u32;
        let width: usize = if code < 0x80 {
            1
        } else if code < 0x800 {
            2
        } else if code < 0x1_0000 {
            3
        } else {
            4
        };
        len = len + width;
        i = i + 1;
    }
    assert(text@.subrange(0, text@.len() as int) == text@);
    len
}

/// Whether a character takes two bytes in a half-width title.
pub fn is_counted_twice(c: char) -> (r: bool)
    ensures
        r == spec_is_multi_byte(c),
{
    is_multi_byte(c)
}

/// The length of a half-width title as the budget of the disc counts it.
pub fn half_width_title_length(title: &str) -> (len: usize)
    requires
        title@.len() <= TEXT_LIMIT,
    ensures
        len == spec_half_width_title_length(title@),
{
    let chars = chars_of(title);
    half_width_length(&chars)
}

/// The length of a half-width title as the budget of the disc counts it.
pub fn half_width_length(title: &Vec<char>) -> (len: usize)
    requires
        title@.len() <= TEXT_LIMIT,
    ensures
        len == spec_half_width_title_length(title@),
{
    let mut multibyte_len: usize = 0;
    let mut i: usize = 0;
    while i < title.len()
        invariant
            i <= title.len(),
            multibyte_len == spec_multi_byte_count(title@.subrange(0, i as int)),
            multibyte_len <= i,
        decreases title.len() - i,
    {
        proof {
            assert(title@.subrange(0, i + 1).drop_last() == title@.subrange(0, i as int));
        }
        if is_multi_byte(title[i]) {
            multibyte_len = multibyte_len + 1;
        }
        i = i + 1;
    }
    assert(title@.subrange(0, title@.len() as int) == title@);
    proof {
        lemma_utf8_len_bound(title@);
    }
    utf8_len(title) + multibyte_len
}

/// The full-width form of a track range: digits, `-`, `/` and `;` in their
/// full-width forms, other characters as they are.
pub open spec fn spec_half_width_to_full_width_range(range: Seq<char>) -> Seq<char> {
    Seq::new(
        range.len(),
        |i: int|
            match spec_hw_to_fw_range(range[i]) {
                Some(wide) => wide,
                None => range[i],
            },
    )
}

/// The full-width form of a track range.
pub fn half_width_to_full_width_range(range: &str) -> (wide: String)
    ensures
        wide@ == spec_half_width_to_full_width_range(range@),
{
    let chars = chars_of(range);
    let mut wide: Vec<char> = Vec::new();
    let mut i: usize = 0;
    while i < chars.len()
        invariant
            i <= chars.len(),
            chars@ == range@,
            wide@ == spec_half_width_to_full_width_range(range@).subrange(0, i as int),
        decreases chars.len() - i,
    {
        let c = match hw_to_fw_range(chars[i]) {
            Some(w) => w,
            None => chars[i],
        };
        wide.push(c);
        i = i + 1;
    }
    assert(wide@ == spec_half_width_to_full_width_range(range@));
    text_of(&wide)
}

/// The length of a text after it is encoded in Shift-JIS.
pub fn length_after_encoding_to_sjis(string: &str) -> (len: usize)
    requires
        string@.len() <= TEXT_LIMIT,
    ensures
        len == shift_jis_encode(string@).0.len(),
{
    encode_sjis(string).0.len()
}

/// Whether bytes are malformed as Shift-JIS.
pub fn validate_sjis(sjis_string: Vec<u8>) -> (had_errors: bool)
    requires
        sjis_string@.len() <= 4 * TEXT_LIMIT,
    ensures
        had_errors == shift_jis_decode(sjis_string@).1,
{
    decode_sjis(&sjis_string).1
}

/// A title with nothing but ASCII: diacritics are removed, what is left is
/// decomposed, and every character above U+007F is dropped.
pub open spec fn spec_agressive_sanitize_title(title: Seq<char>) -> Seq<char> {
    canonical_decomposition(without_diacritics(title)).filter(|c: char| c as u32 <= 0x7f)
}

/// A title with nothing but ASCII.
pub fn agressive_sanitize_title(title: &str) -> (clean: String)
    ensures
        clean@ == spec_agressive_sanitize_title(title@),
{
    let bare = remove_diacritics(title);
    let decomposed = decompose(bare.as_str());
    strip_non_ascii(decomposed.as_str())
}

/// A title as bytes for the player: its Shift-JIS form where that reads back
/// without error, else the bytes of the title sanitized down to ASCII. A
/// form with more bytes than the decoder can size on this machine does not
/// read back.
pub open spec fn spec_to_sjis(text: Seq<char>) -> Seq<u8> {
    let encoded = shift_jis_encode(text).0;
    if encoded.len() > 4 * TEXT_LIMIT || shift_jis_decode(encoded).1 {
        Seq::new(
            spec_agressive_sanitize_title(text).len(),
            |i: int| spec_agressive_sanitize_title(text)[i] as u8,
        )
    } else {
        encoded
    }
}

/// Convert a UTF-8 string to Shift-JIS for use on the player
pub fn to_sjis(sjis_str: &str) -> (bytes: Vec<u8>)
    requires
        sjis_str@.len() <= TEXT_LIMIT,
    ensures
        bytes@ == spec_to_sjis(sjis_str@),
{
    let sjis_string = encode_sjis(sjis_str).0;
    if sjis_string.len() > 4 * TEXT_LIMIT || decode_sjis(&sjis_string).1 {
        let clean = agressive_sanitize_title(sjis_str);
        let chars = chars_of(clean.as_str());
        let mut bytes: Vec<u8> = Vec::new();
        let mut i: usize = 0;
        while i < chars.len()
            invariant
                i <= chars.len(),
                chars@ == spec_agressive_sanitize_title(sjis_str@),
                bytes@ == Seq::new(i as nat, |j: int| chars@[j] as u8),
            decreases chars.len() - i,
        {
            let c = chars[i];
            proof {
                let kept = canonical_decomposition(without_diacritics(sjis_str@));
                kept.lemma_filter_pred(|c: char| c as u32 <= 0x7f, i as int);
            }
            bytes.push(c as u8);
            i = i + 1;
        }
        return bytes;
    }
    sjis_string
}

/// Whether a text may stand in a half-width title as it is: an allowed
/// character, or a half-width kana with a sound mark that it may carry.
pub open spec fn spec_allowed_hw_kana(text: Seq<char>) -> bool {
    ||| text.len() == 1 && spec_allowed_hw_char(text[0])
    ||| text.len() == 2 && text[1] == '\u{ff9e}' && spec_takes_voiced_mark(text[0])
    ||| text.len() == 2 && text[1] == '\u{ff9f}' && spec_takes_semi_voiced_mark(text[0])
}

/// What a half-width title holds for a piece of text, if the piece can stand
/// in one: the half-width form of a single character that has one, else the
/// piece itself where it starts with ASCII or is allowed as it is.
pub open spec fn spec_check(text: Seq<char>) -> Option<Seq<char>> {
    if text.len() == 1 && spec_mappings_hw(text[0]) is Some {
        Some(spec_mappings_hw(text[0])->0@)
    } else if text.len() == 0 {
        None
    } else if (text[0] as u32) < 0x7f || spec_allowed_hw_kana(text) {
        Some(text)
    } else {
        None
    }
}

/// Ensure string contains only hardware allowed characters
pub fn check(text: &Vec<char>) -> (r: Option<Vec<char>>)
    ensures
        match spec_check(text@) {
            Some(piece) => r matches Some(p) && p@ == piece,
            None => r is None,
        },
{
    if text.len() == 1 {
        match mappings_hw(text[0]) {
            Some(mapped) => {
                return Some(chars_of(mapped));
            },
            None => {},
        }
    }
    if text.len() == 0 {
        return None;
    }
    let allowed = (text.len() == 1 && allowed_hw_char(text[0])) || (text.len() == 2 && text[1]
        == '\u{ff9e}' && takes_voiced_mark(text[0])) || (text.len() == 2 && text[1] == '\u{ff9f}'
        && takes_semi_voiced_mark(text[0]));
    if (text[0] as u32) < 0x7f || allowed {
        Some(text.clone())
    } else {
        None
    }
}

/// What a half-width title holds for one character: the character checked,
/// else the character without its diacritics checked, else a space.
pub open spec fn spec_half_width_piece(c: char) -> Seq<char> {
    match spec_check(seq![c]) {
        Some(piece) => piece,
        None => match spec_check(without_diacritics(seq![c])) {
            Some(piece) => piece,
            None => seq![' '],
        },
    }
}

/// The pieces of the first `n` characters, one after the other.
pub open spec fn spec_half_width_pieces(text: Seq<char>, n: nat) -> Seq<char>
    decreases n,
{
    if n == 0 {
        Seq::empty()
    } else {
        spec_half_width_pieces(text, (n - 1) as nat) + spec_half_width_piece(text[n - 1])
    }
}

/// A text before its characters are checked for a half-width title:
/// full-width ASCII is made ASCII, full-width spaces are made spaces,
/// hiragana is made katakana, and kana are combined with their sound marks.
pub open spec fn spec_half_width_normal(title: Seq<char>) -> Seq<char> {
    let ascii = Seq::new(title.len(), |i: int| narrow(title[i]));
    let spaced = Seq::new(ascii.len(), |i: int| narrow_space(ascii[i]));
    let kata = Seq::new(spaced.len(), |i: int| katakana(spaced[i]));
    kana_combine(kata)
}

/// A title as a half-width title can hold it.
pub open spec fn spec_sanitize_half_width_title(title: Seq<char>) -> Seq<char> {
    spec_half_width_pieces(spec_half_width_normal(title), spec_half_width_normal(title).len())
}

/// Makes a title fit for a half-width title: full-width is made half-width,
/// hiragana is made katakana, and what the hardware cannot show loses its
/// diacritics or becomes a space.
pub fn sanitize_half_width_title(title: &str) -> (clean: String)
    ensures
        clean@ == spec_sanitize_half_width_title(title@),
{
    let mut string_title = wide_to_ascii(title);
    string_title = no_wide_space(string_title.as_str());
    string_title = hira_to_kata(string_title.as_str());
    string_title = combine_marks(string_title.as_str());
    let chars = chars_of(string_title.as_str());
    let mut new_title: Vec<char> = Vec::new();
    let mut i: usize = 0;
    while i < chars.len()
        invariant
            i <= chars.len(),
            chars@ == spec_half_width_normal(title@),
            new_title@ == spec_half_width_pieces(chars@, i as nat),
        decreases chars.len() - i,
    {
        let c = chars[i];
        let mut single: Vec<char> = Vec::new();
        single.push(c);
        assert(single@ == seq![c]);
        let mut piece = match check(&single) {
            Some(piece) => piece,
            None => {
                let bare = remove_diacritics(text_of(&single).as_str());
                match check(&chars_of(bare.as_str())) {
                    Some(piece) => piece,
                    None => {
                        let mut space: Vec<char> = Vec::new();
                        space.push(' ');
                        assert(space@ == seq![' ']);
                        space
                    },
                }
            },
        };
        new_title.append(&mut piece);
        i = i + 1;
    }
    text_of(&new_title)
}

/// A text through one table of a full-width title: a single character that
/// the table has is replaced, anything else stays.
pub open spec fn spec_replaced(text: Seq<char>, table: spec_fn(char) -> Option<Seq<char>>) -> Seq<
    char,
> {
    if text.len() == 1 && table(text[0]) is Some {
        table(text[0])->0
    } else {
        text
    }
}

/// What a full-width title holds for one character: the character through
/// the tables of full-width forms, of Cyrillic and of German, in this order.
pub open spec fn spec_full_width_piece(c: char) -> Seq<char> {
    let wide = spec_replaced(
        seq![c],
        |c: char|
            match spec_mappings_jp(c) {
                Some(w) => Some(seq![w]),
                None => None,
            },
    );
    let latin = spec_replaced(
        wide,
        |c: char|
            match spec_mappings_ru(c) {
                Some(t) => Some(t@),
                None => None,
            },
    );
    spec_replaced(
        latin,
        |c: char|
            match spec_mappings_de(c) {
                Some(t) => Some(t@),
                None => None,
            },
    )
}

/// The pieces of the first `n` characters, one after the other.
pub open spec fn spec_full_width_pieces(text: Seq<char>, n: nat) -> Seq<char>
    decreases n,
{
    if n == 0 {
        Seq::empty()
    } else {
        spec_full_width_pieces(text, (n - 1) as nat) + spec_full_width_piece(text[n - 1])
    }
}

/// A title as a full-width title can hold it.
pub open spec fn spec_sanitize_full_width_title(title: Seq<char>) -> Seq<char> {
    spec_full_width_pieces(title, title.len())
}

/// Makes a title fit for a full-width title: ASCII and half-width kana are
/// made full-width, Cyrillic and German letters are transliterated.
pub fn sanitize_full_width_title(title: &str) -> (clean: String)
    ensures
        clean@ == spec_sanitize_full_width_title(title@),
{
    let chars = chars_of(title);
    let mut new_title: Vec<char> = Vec::new();
    let mut i: usize = 0;
    while i < chars.len()
        invariant
            i <= chars.len(),
            chars@ == title@,
            new_title@ == spec_full_width_pieces(chars@, i as nat),
        decreases chars.len() - i,
    {
        let c = chars[i];
        let mut piece: Vec<char> = Vec::new();
        match mappings_jp(c) {
            Some(w) => {
                piece.push(w);
            },
            None => {
                piece.push(c);
            },
        }
        if piece.len() == 1 {
            match mappings_ru(piece[0]) {
                Some(t) => {
                    piece = chars_of(t);
                },
                None => {},
            }
        }
        if piece.len() == 1 {
            match mappings_de(piece[0]) {
                Some(t) => {
                    piece = chars_of(t);
                },
                None => {},
            }
        }
        assert(piece@ == spec_full_width_piece(c));
        new_title.append(&mut piece);
        i = i + 1;
    }
    text_of(&new_title)
}

/// A raw title with its first entry replaced, where it starts with the
/// entry of a disc title: the marker, then anything but a line break up to
/// the first delimiter. Any other raw title stays as it is.
pub open spec fn spec_replace_title_entry(raw: Seq<char>, replacement: Seq<char>, wchar: bool) -> Seq<
    char,
> {
    let marker = crate::netmd::titles::spec_title_marker(wchar);
    let delimiter = crate::netmd::titles::spec_delimiter(wchar);
    if !crate::netmd::titles::spec_matches_at(raw, marker, 0) {
        raw
    } else {
        match crate::netmd::titles::spec_find(raw, delimiter, 2) {
            None => raw,
            Some(at) => if raw.subrange(2, at).contains('\n') {
                raw
            } else {
                replacement + raw.subrange(at + 2, raw.len() as int)
            },
        }
    }
}

/// The pattern of the entry of a disc title at the start of a half-width raw
/// title.
pub const HALF_TITLE_ENTRY: &'static str = "^0;.*?//";

/// The pattern of the entry of a disc title at the start of a full-width raw
/// title.
pub const WIDE_TITLE_ENTRY: &'static str = "^\\x{FF10}\\x{FF1B}.*?\\x{FF0F}\\x{FF0F}";

/// A raw title with the entry of the disc title replaced: what `regex` gives
/// when the match of one of the two patterns of such an entry is replaced by
/// the replacement as it stands. Each pattern is anchored at the start, so
/// at most one match is replaced.
#[verifier::external_body]
pub(crate) fn replace_title_entry(raw: &str, pattern: &str, replacement: &str) -> (r: String)
    requires
        pattern@ == HALF_TITLE_ENTRY@ || pattern@ == WIDE_TITLE_ENTRY@,
    ensures
        pattern@ == HALF_TITLE_ENTRY@ ==> r@ == spec_replace_title_entry(raw@, replacement@, false),
        pattern@ == WIDE_TITLE_ENTRY@ ==> r@ == spec_replace_title_entry(raw@, replacement@, true),
{
    Regex::new(pattern).unwrap().replace_all(raw, regex::NoExpand(replacement)).into()
}

/// Appends a number as four bytes, lowest first: what `write_u32` of
/// `byteorder` with `LittleEndian` appends to a vector.
#[verifier::external_body]
pub(crate) fn push_u32_le(out: &mut Vec<u8>, n: u32)
    ensures
        final(out)@ == old(out)@ + crate::netmd::query_utils::le_bytes(n as int, 4),
{
    out.write_u32::<LittleEndian>(n).unwrap();
}

/// Appends a number as two bytes, lowest first: what `write_u16` of
/// `byteorder` with `LittleEndian` appends to a vector.
#[verifier::external_body]
pub(crate) fn push_u16_le(out: &mut Vec<u8>, n: u16)
    ensures
        final(out)@ == old(out)@ + crate::netmd::query_utils::le_bytes(n as int, 2),
{
    out.write_u16::<LittleEndian>(n).unwrap();
}

/// The size of the name in the header of an AEA file.
pub const AEA_NAME_SIZE: usize = 256;

/// What goes into the header of an AEA file.
pub struct AeaOptions<'a> {
    pub name: &'a str,
    pub channels: u32,
    pub sound_groups: u32,
    pub group_start: u32,
    pub encrypted: u32,
    pub flags: &'a [u8],
}

/// The numbers of a header, each as four bytes, lowest first.
pub open spec fn words_le(numbers: Seq<u32>) -> Seq<u8>
    decreases numbers.len(),
{
    if numbers.len() == 0 {
        Seq::empty()
    } else {
        words_le(numbers.drop_last()) + crate::netmd::query_utils::le_bytes(
            numbers.last() as int,
            4,
        )
    }
}

/// The header of an AEA file: the magic number 2048, the name in 256 bytes,
/// the number of sound groups, the channels, the eight flags, a zero, the
/// mark of encryption and the first group.
pub open spec fn spec_aea_header(
    name: Seq<u8>,
    channels: u32,
    sound_groups: u32,
    group_start: u32,
    encrypted: u32,
    flags: Seq<u8>,
) -> Seq<u8> {
    crate::netmd::query_utils::le_bytes(2048, 4) + name + Seq::new(
        (AEA_NAME_SIZE - name.len()) as nat,
        |i: int| 0u8,
    ) + crate::netmd::query_utils::le_bytes(sound_groups as int, 4) + seq![
        (channels % 256) as u8,
        0u8,
    ] + words_le(Seq::new(8, |i: int| flags[i] as u32)) + crate::netmd::query_utils::le_bytes(0, 4)
        + crate::netmd::query_utils::le_bytes(encrypted as int, 4)
        + crate::netmd::query_utils::le_bytes(group_start as int, 4)
}

/// The header of an AEA file. The name takes up to 256 bytes; there are
/// eight flags.
pub fn create_aea_header(options: AeaOptions) -> (header: Vec<u8>)
    requires
        options.name.spec_bytes().len() <= AEA_NAME_SIZE,
        options.flags@.len() >= 8,
    ensures
        header@ == spec_aea_header(
            options.name.spec_bytes(),
            options.channels,
            options.sound_groups,
            options.group_start,
            options.encrypted,
            options.flags@,
        ),
{
    let mut encoded_name = options.name.as_bytes_vec();
    let mut header: Vec<u8> = Vec::new();
    push_u32_le(&mut header, 2048);
    let name_len = encoded_name.len();
    header.append(&mut encoded_name);
    let mut i: usize = name_len;
    let ghost named = header@;
    while i < AEA_NAME_SIZE
        invariant
            name_len <= i <= AEA_NAME_SIZE,
            header@ == named + Seq::new((i - name_len) as nat, |j: int| 0u8),
        decreases AEA_NAME_SIZE - i,
    {
        header.push(0);
        i = i + 1;
    }
    push_u32_le(&mut header, options.sound_groups);
    header.push((options.channels % 256) as u8);
    header.push(0);
    let ghost before_flags = header@;
    let mut f: usize = 0;
    while f < 8
        invariant
            f <= 8,
            options.flags@.len() >= 8,
            header@ == before_flags + words_le(Seq::new(f as nat, |i: int| options.flags@[i] as u32)),
        decreases 8 - f,
    {
        proof {
            let next = Seq::new((f + 1) as nat, |i: int| options.flags@[i] as u32);
            assert(next.drop_last() == Seq::new(f as nat, |i: int| options.flags@[i] as u32));
        }
        push_u32_le(&mut header, options.flags[f] as u32);
        f = f + 1;
    }
    push_u32_le(&mut header, 0);
    push_u32_le(&mut header, options.encrypted);
    push_u32_le(&mut header, options.group_start);
    header
}

/// The two numbers by which the headers of LP2 and LP4 differ: the size of a
/// block for joint stereo, and the bytes in a frame.
pub open spec fn wav_parameters(long_play_four: bool) -> (u16, u32) {
    if long_play_four {
        (192, 0)
    } else {
        (96, 1)
    }
}

/// The start of the header of a WAV file: `RIFF`, the size of what follows,
/// `WAVEfmt` and the size of the format.
pub open spec fn spec_wav_start(bytes: u32) -> Seq<u8> {
    seq![0x52u8, 0x49u8, 0x46u8, 0x46u8] + crate::netmd::query_utils::le_bytes(bytes + 60, 4)
        + seq![0x57u8, 0x41u8, 0x56u8, 0x45u8, 0x66u8, 0x6du8, 0x74u8]
        + crate::netmd::query_utils::le_bytes(32, 4)
}

/// The format in the header of a WAV file: ATRAC3, two channels, 44100
/// samples in the second, the bytes in the second and in a block.
pub open spec fn spec_wav_format(long_play_four: bool) -> Seq<u8> {
    let bytes_per_frame = wav_parameters(long_play_four).1;
    crate::netmd::query_utils::le_bytes(0x270, 2) + crate::netmd::query_utils::le_bytes(2, 2)
        + crate::netmd::query_utils::le_bytes(44100, 4) + crate::netmd::query_utils::le_bytes(
        (bytes_per_frame * 44100) / 512,
        4,
    ) + crate::netmd::query_utils::le_bytes(bytes_per_frame * 2, 2) + seq![0u8, 0u8]
}

/// The end of the header of a WAV file: what is particular to ATRAC3, then
/// `data` and the size of the audio.
pub open spec fn spec_wav_end(long_play_four: bool, bytes: u32) -> Seq<u8> {
    let (joint_stereo, bytes_per_frame) = wav_parameters(long_play_four);
    crate::netmd::query_utils::le_bytes(14, 2) + crate::netmd::query_utils::le_bytes(1, 2)
        + crate::netmd::query_utils::le_bytes(bytes_per_frame as int, 4)
        + crate::netmd::query_utils::le_bytes(joint_stereo as int, 2)
        + crate::netmd::query_utils::le_bytes(joint_stereo as int, 2)
        + crate::netmd::query_utils::le_bytes(1, 2) + crate::netmd::query_utils::le_bytes(0, 2)
        + seq![0x64u8, 0x61u8, 0x74u8, 0x61u8] + crate::netmd::query_utils::le_bytes(
        bytes as int,
        4,
    )
}

/// The header of a WAV file of ATRAC3 audio in LP2 or LP4.
pub open spec fn spec_wav_header(long_play_four: bool, bytes: u32) -> Seq<u8> {
    spec_wav_start(bytes) + spec_wav_format(long_play_four) + spec_wav_end(long_play_four, bytes)
}

fn wav_start(bytes: u32) -> (header: Vec<u8>)
    requires
        bytes <= u32::MAX - 60,
    ensures
        header@ == spec_wav_start(bytes),
{
    let mut header: Vec<u8> = Vec::new();
    header.push(0x52);
    header.push(0x49);
    header.push(0x46);
    header.push(0x46);
    push_u32_le(&mut header, bytes + 60);
    header.push(0x57);
    header.push(0x41);
    header.push(0x56);
    header.push(0x45);
    header.push(0x66);
    header.push(0x6d);
    header.push(0x74);
    push_u32_le(&mut header, 32);
    header
}

fn wav_format(long_play_four: bool) -> (header: Vec<u8>)
    ensures
        header@ == spec_wav_format(long_play_four),
{
    let mut header: Vec<u8> = Vec::new();
    let bytes_per_frame: u32 = if long_play_four {
        0
    } else {
        1
    };
    let bytes_per_second: u32 = (bytes_per_frame * 44100) / 512;
    push_u16_le(&mut header, 0x270);
    push_u16_le(&mut header, 2);
    push_u32_le(&mut header, 44100);
    push_u32_le(&mut header, bytes_per_second);
    push_u16_le(&mut header, (bytes_per_frame * 2) as u16);
    header.push(0);
    header.push(0);
    header
}

fn wav_end(long_play_four: bool, bytes: u32) -> (header: Vec<u8>)
    ensures
        header@ == spec_wav_end(long_play_four, bytes),
{
    let mut header: Vec<u8> = Vec::new();
    let (joint_stereo, bytes_per_frame): (u16, u32) = if long_play_four {
        (192, 0)
    } else {
        (96, 1)
    };
    push_u16_le(&mut header, 14);
    push_u16_le(&mut header, 1);
    push_u32_le(&mut header, bytes_per_frame);
    push_u16_le(&mut header, joint_stereo);
    push_u16_le(&mut header, joint_stereo);
    push_u16_le(&mut header, 1);
    push_u16_le(&mut header, 0);
    header.push(0x64);
    header.push(0x61);
    header.push(0x74);
    header.push(0x61);
    push_u32_le(&mut header, bytes);
    header
}

/// The header of a WAV file of ATRAC3 audio of `bytes` bytes, in LP4 or else
/// in LP2.
pub fn create_wav_header(long_play_four: bool, bytes: u32) -> (header: Vec<u8>)
    requires
        bytes <= u32::MAX - 60,
    ensures
        header@ == spec_wav_header(long_play_four, bytes),
{
    let mut header = wav_start(bytes);
    let mut format = wav_format(long_play_four);
    header.append(&mut format);
    let mut end = wav_end(long_play_four, bytes);
    header.append(&mut end);
    header
}

/// A time of day for reading: hours, where there are any, minutes and
/// seconds, each in two digits.
pub open spec fn spec_pretty_time(seconds: u64) -> Seq<char> {
    let two = |n: nat|
        if n < 10 {
            seq!['0'] + crate::netmd::titles::spec_decimal(n)
        } else {
            crate::netmd::titles::spec_decimal(n)
        };
    (if seconds >= 3600 {
        two((seconds / 3600) as nat) + seq![':']
    } else {
        Seq::empty()
    }) + (if seconds >= 60 {
        two(((seconds / 60) % 3600) as nat) + seq![':'] + two((seconds % 60) as nat)
    } else {
        Seq::empty()
    })
}

/// A time of day for reading.
pub fn pretty_time(seconds: u64) -> (text: String)
    ensures
        text@ == spec_pretty_time(seconds),
{
    let mut chars: Vec<char> = Vec::new();
    if seconds >= 3600 {
        let mut hours = two_digits(seconds / 3600);
        chars.append(&mut hours);
        chars.push(':');
    }
    if seconds >= 60 {
        let mut minutes = two_digits((seconds / 60) % 3600);
        chars.append(&mut minutes);
        chars.push(':');
        let mut rest = two_digits(seconds % 60);
        chars.append(&mut rest);
    }
    text_of(&chars)
}

/// A number in at least two digits.
pub fn two_digits(n: u64) -> (digits: Vec<char>)
    ensures
        digits@ == if n < 10 {
            seq!['0'] + crate::netmd::titles::spec_decimal(n as nat)
        } else {
            crate::netmd::titles::spec_decimal(n as nat)
        },
{
    let mut digits: Vec<char> = Vec::new();
    if n < 10 {
        digits.push('0');
    }
    let mut number = crate::netmd::titles::decimal_of(n as u128);
    digits.append(&mut number);
    digits
}

} // verus!
