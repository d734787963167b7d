//! The query language: one template drives both the assembly of a command
//! and the reading of its reply.
//!
//! A template is text. Two hexadecimal digits stand for one literal byte and
//! spaces are ignored. `%` starts a directive:
//!
//! | directive | value | bytes |
//! |---|---|---|
//! | `%b` `%w` `%d` `%q` | number | 1, 2, 4 or 8 bytes, big-endian; `%<w` little-endian, `%>w` big-endian |
//! | `%B` `%W` | number | 1 or 2 bytes of binary-coded decimal |
//! | `%x` | array | a 2-byte length, then the bytes |
//! | `%s` | array | a 2-byte length that counts one more, the bytes, then a zero byte |
//! | `%z` | array | a 1-byte length, then the bytes |
//! | `%*` | array | the bytes as they are; read back, all that is left |
//! | `%#` | array | read only: all that is left |
//! | `%?` | none | read only: one byte, whatever it holds |
use vstd::prelude::*;
use crate::netmd::utils::{bcd_to_int, int_to_bcd, spec_bcd_to_int, spec_int_to_bcd, bits_of};

verus! {

/// A value given to a template or read with one.
#[derive(Clone, Debug)]
pub enum QueryValue {
    Number(i64),
    Array(Vec<u8>),
}

/// What a [`QueryValue`] holds.
pub ghost enum Value {
    Number(i64),
    Array(Seq<u8>),
}

impl View for QueryValue {
    type V = Value;

    open spec fn view(&self) -> Value {
        match self {
            QueryValue::Number(n) => Value::Number(*n),
            QueryValue::Array(a) => Value::Array(a@),
        }
    }
}

/// What each of a list of values holds.
pub open spec fn values_view(values: Seq<QueryValue>) -> Seq<Value> {
    Seq::new(values.len(), |i: int| values[i]@)
}

/// Why a template could not be applied.
#[derive(Clone, Copy, Debug, PartialEq, Eq, Structural)]
pub enum QueryError {
    /// The character after `%` names no directive, or the directive cannot
    /// be used in this direction.
    UnrecognizedChar(char),
    /// A literal is not made of two hexadecimal digits.
    InvalidHex,
    /// A directive found no value left.
    MissingArgument,
    /// A number stood where an array was expected, or the reverse.
    TypeMismatch,
    /// A literal of the template is not the byte at `index` of the input.
    InputMismatch { index: usize, expected: u8, actual: u8 },
    /// The input ended before the template did.
    UnexpectedEnd,
    /// The template ended before the input did.
    TrailingData,
}

impl QueryValue {
    /// The bytes of an array value.
    pub fn to_vec(&self) -> (r: Result<Vec<u8>, QueryError>)
        ensures
            match self@ {
                Value::Array(a) => r matches Ok(v) && v@ == a,
                Value::Number(_) => r == Err::<Vec<u8>, QueryError>(QueryError::TypeMismatch),
            },
    {
        match self {
            QueryValue::Array(a) => Ok(a.clone()),
            QueryValue::Number(_) => Err(QueryError::TypeMismatch),
        }
    }

    /// The number of a number value.
    pub fn to_i64(&self) -> (r: Result<i64, QueryError>)
        ensures
            r == match self@ {
                Value::Number(n) => Ok::<i64, QueryError>(n),
                Value::Array(_) => Err(QueryError::TypeMismatch),
            },
    {
        match self {
            QueryValue::Number(n) => Ok(*n),
            QueryValue::Array(_) => Err(QueryError::TypeMismatch),
        }
    }
}

/// The size of a number on the wire.
#[derive(Clone, Copy, Debug, PartialEq, Eq, Structural)]
pub enum Width {
    Byte,
    Word,
    DoubleWord,
    QuadWord,
}

impl Width {
    /// How many bytes a number of this size takes.
    pub open spec fn spec_bytes(self) -> nat {
        match self {
            Width::Byte => 1,
            Width::Word => 2,
            Width::DoubleWord => 4,
            Width::QuadWord => 8,
        }
    }

    /// How many bytes a number of this size takes.
    pub fn bytes(self) -> (n: usize)
        ensures
            n == self.spec_bytes(),
    {
        match self {
            Width::Byte => 1,
            Width::Word => 2,
            Width::DoubleWord => 4,
            Width::QuadWord => 8,
        }
    }
}

/// How the length of an array is written before it.
#[derive(Clone, Copy, Debug, PartialEq, Eq, Structural)]
pub enum Prefix {
    /// `%x`: two bytes.
    Word,
    /// `%s`: two bytes that count the closing zero byte too.
    Terminated,
    /// `%z`: one byte.
    Byte,
}

/// One element of a template.
#[derive(Clone, Copy, Debug, PartialEq, Eq, Structural)]
pub enum Token {
    /// Two hexadecimal digits.
    Literal(u8),
    /// `%b`, `%w`, `%d`, `%q`.
    Number { width: Width, little_endian: bool },
    /// `%B` (narrow) and `%W` (wide).
    Bcd { wide: bool },
    /// `%x`, `%s`, `%z`.
    Counted { prefix: Prefix },
    /// `%*`.
    Rest,
    /// `%#`.
    Opaque,
    /// `%?`.
    Skip,
}

/// The value of a hexadecimal digit.
pub open spec fn spec_hex_digit(c: char) -> Option<u8> {
    if '0' <= c <= '9' {
        Some((c as u32 - '0' as u32) as u8)
    } else if 'a' <= c <= 'f' {
        Some((c as u32 - 'a' as u32 + 10) as u8)
    } else if 'A' <= c <= 'F' {
        Some((c as u32 - 'A' as u32 + 10) as u8)
    } else {
        None
    }
}

/// The value of a hexadecimal digit.
pub fn hex_digit(c: char) -> (r: Option<u8>)
    ensures
        r == spec_hex_digit(c),
        r matches Some(d) ==> d < 16,
{
    if '0' <= c && c <= '9' {
        Some((c as u32 - '0' as u32) as u8)
    } else if 'a' <= c && c <= 'f' {
        Some((c as u32 - 'a' as u32 + 10) as u8)
    } else if 'A' <= c && c <= 'F' {
        Some((c as u32 - 'A' as u32 + 10) as u8)
    } else {
        None
    }
}

/// The directive that a character after `%` names.
pub open spec fn spec_directive(c: char, little_endian: bool) -> Option<Token> {
    if c == 'b' {
        Some(Token::Number { width: Width::Byte, little_endian })
    } else if c == 'w' {
        Some(Token::Number { width: Width::Word, little_endian })
    } else if c == 'd' {
        Some(Token::Number { width: Width::DoubleWord, little_endian })
    } else if c == 'q' {
        Some(Token::Number { width: Width::QuadWord, little_endian })
    } else if c == 'B' {
        Some(Token::Bcd { wide: false })
    } else if c == 'W' {
        Some(Token::Bcd { wide: true })
    } else if c == 'x' {
        Some(Token::Counted { prefix: Prefix::Word })
    } else if c == 's' {
        Some(Token::Counted { prefix: Prefix::Terminated })
    } else if c == 'z' {
        Some(Token::Counted { prefix: Prefix::Byte })
    } else if c == '*' {
        Some(Token::Rest)
    } else if c == '#' {
        Some(Token::Opaque)
    } else if c == '?' {
        Some(Token::Skip)
    } else {
        None
    }
}

fn directive(c: char, little_endian: bool) -> (r: Option<Token>)
    ensures
        r == spec_directive(c, little_endian),
{
    if c == 'b' {
        Some(Token::Number { width: Width::Byte, little_endian })
    } else if c == 'w' {
        Some(Token::Number { width: Width::Word, little_endian })
    } else if c == 'd' {
        Some(Token::Number { width: Width::DoubleWord, little_endian })
    } else if c == 'q' {
        Some(Token::Number { width: Width::QuadWord, little_endian })
    } else if c == 'B' {
        Some(Token::Bcd { wide: false })
    } else if c == 'W' {
        Some(Token::Bcd { wide: true })
    } else if c == 'x' {
        Some(Token::Counted { prefix: Prefix::Word })
    } else if c == 's' {
        Some(Token::Counted { prefix: Prefix::Terminated })
    } else if c == 'z' {
        Some(Token::Counted { prefix: Prefix::Byte })
    } else if c == '*' {
        Some(Token::Rest)
    } else if c == '#' {
        Some(Token::Opaque)
    } else if c == '?' {
        Some(Token::Skip)
    } else {
        None
    }
}

/// Where the reading of a template stands after some of its characters.
pub ghost struct Lexer {
    /// The elements read so far.
    pub tokens: Seq<Token>,
    /// The first digit of a literal whose second digit is still to come.
    pub half: Option<u8>,
    /// A `%` was read and its directive is still to come.
    pub escaped: bool,
    /// The byte order that a `<` or `>` after the `%` asked for.
    pub little_endian: Option<bool>,
}

/// The state before any character.
pub open spec fn lexer_start() -> Lexer {
    Lexer { tokens: Seq::empty(), half: None, escaped: false, little_endian: None }
}

/// The state after one more character.
pub open spec fn lexer_step(state: Lexer, c: char) -> Result<Lexer, QueryError> {
    if state.escaped {
        if state.little_endian is None && (c == '<' || c == '>') {
            Ok(Lexer { little_endian: Some(c == '<'), ..state })
        } else {
            match spec_directive(
                c,
                match state.little_endian {
                    Some(l) => l,
                    None => false,
                },
            ) {
                Some(token) => Ok(
                    Lexer {
                        tokens: state.tokens.push(token),
                        escaped: false,
                        little_endian: None,
                        ..state
                    },
                ),
                None => Err(QueryError::UnrecognizedChar(c)),
            }
        }
    } else if c == ' ' {
        Ok(state)
    } else if state.half is None && c == '%' {
        Ok(Lexer { escaped: true, ..state })
    } else {
        match (spec_hex_digit(c), state.half) {
            (None, _) => Err(QueryError::InvalidHex),
            (Some(d), None) => Ok(Lexer { half: Some(d), ..state }),
            (Some(d), Some(h)) => Ok(
                Lexer { tokens: state.tokens.push(Token::Literal((h * 16 + d) as u8)), half: None, ..state },
            ),
        }
    }
}

/// The state after the first `n` characters of a template, or the first
/// error on the way.
pub open spec fn lexer_after(template: Seq<char>, n: nat) -> Result<Lexer, QueryError>
    decreases n,
{
    if n == 0 {
        Ok(lexer_start())
    } else {
        match lexer_after(template, (n - 1) as nat) {
            Ok(state) => lexer_step(state, template[n - 1]),
            Err(e) => Err(e),
        }
    }
}

/// The elements of a template. A template that ends inside a literal is
/// malformed; one that ends inside a directive is read without it.
pub open spec fn spec_parse_template(template: Seq<char>) -> Result<Seq<Token>, QueryError> {
    match lexer_after(template, template.len()) {
        Ok(state) => if state.half is Some {
            Err(QueryError::InvalidHex)
        } else {
            Ok(state.tokens)
        },
        Err(e) => Err(e),
    }
}

/// Reads a template into its elements.
pub fn parse_template(template: &str) -> (r: Result<Vec<Token>, QueryError>)
    ensures
        match spec_parse_template(template@) {
            Ok(tokens) => r matches Ok(v) && v@ == tokens,
            Err(e) => r == Err::<Vec<Token>, QueryError>(e),
        },
{
    let mut tokens: Vec<Token> = Vec::new();
    let mut half: Option<u8> = None;
    let mut escaped = false;
    let mut little_endian: Option<bool> = None;
    let count = template.unicode_len();
    let mut i: usize = 0;
    while i < count
        invariant
            i <= count,
            count == template@.len(),
            half matches Some(h) ==> h < 16,
            lexer_after(template@, i as nat) == Ok::<Lexer, QueryError>(
                Lexer { tokens: tokens@, half, escaped, little_endian },
            ),
        decreases count - i,
    {
        let c = template.get_char(i);
        let ghost before = Lexer { tokens: tokens@, half, escaped, little_endian };
        assert(lexer_after(template@, (i + 1) as nat) == lexer_step(before, c));
        if escaped {
            if little_endian.is_none() && (c == '<' || c == '>') {
                little_endian = Some(c == '<');
            } else {
                let little = match little_endian {
                    Some(l) => l,
                    None => false,
                };
                match directive(c, little) {
                    Some(token) => {
                        tokens.push(token);
                        escaped = false;
                        little_endian = None;
                    },
                    None => {
                        proof {
                            lemma_lexer_error_stays(template@, (i + 1) as nat, template@.len());
                        }
                        return Err(QueryError::UnrecognizedChar(c));
                    },
                }
            }
        } else if c == ' ' {
        } else if half.is_none() && c == '%' {
            escaped = true;
        } else {
            match (hex_digit(c), half) {
                (None, _) => {
                    proof {
                        lemma_lexer_error_stays(template@, (i + 1) as nat, template@.len());
                    }
                    return Err(QueryError::InvalidHex);
                },
                (Some(d), None) => {
                    half = Some(d);
                },
                (Some(d), Some(h)) => {
                    tokens.push(Token::Literal(h * 16 + d));
                    half = None;
                },
            }
        }
        i = i + 1;
    }
    if half.is_some() {
        Err(QueryError::InvalidHex)
    } else {
        Ok(tokens)
    }
}

/// Once the reading of a template has failed, it has failed for good.
pub proof fn lemma_lexer_error_stays(template: Seq<char>, n: nat, m: nat)
    requires
        n <= m,
        lexer_after(template, n) is Err,
    ensures
        lexer_after(template, m) == lexer_after(template, n),
    decreases m,
{
    if n < m {
        lemma_lexer_error_stays(template, n, (m - 1) as nat);
    }
}

/// The 64-bit pattern of a number, read as unsigned.
pub open spec fn unsigned64(v: i64) -> int {
    if v >= 0 {
        v as int
    } else {
        v + 0x1_0000_0000_0000_0000
    }
}

/// 256 to the power `k`.
pub open spec fn pow256(k: nat) -> int
    decreases k,
{
    if k == 0 {
        1
    } else {
        256 * pow256((k - 1) as nat)
    }
}

/// The lowest `width` bytes of `u`, highest first.
pub open spec fn be_bytes(u: int, width: nat) -> Seq<u8>
    decreases width,
{
    if width == 0 {
        Seq::empty()
    } else {
        be_bytes(u / 256, (width - 1) as nat).push((u % 256) as u8)
    }
}

/// The lowest `width` bytes of `u`, lowest first.
pub open spec fn le_bytes(u: int, width: nat) -> Seq<u8>
    decreases width,
{
    if width == 0 {
        Seq::empty()
    } else {
        seq![(u % 256) as u8] + le_bytes(u / 256, (width - 1) as nat)
    }
}

/// The number that bytes spell, highest first.
pub open spec fn be_value(bytes: Seq<u8>) -> int
    decreases bytes.len(),
{
    if bytes.len() == 0 {
        0
    } else {
        be_value(bytes.drop_last()) * 256 + bytes.last()
    }
}

/// The number that bytes spell, lowest first.
pub open spec fn le_value(bytes: Seq<u8>) -> int
    decreases bytes.len(),
{
    if bytes.len() == 0 {
        0
    } else {
        bytes[0] + 256 * le_value(bytes.drop_first())
    }
}

/// The bytes of a number directive: the number's two's complement pattern,
/// cut to the directive's size.
pub open spec fn number_bytes(v: i64, width: Width, little_endian: bool) -> Seq<u8> {
    if little_endian {
        le_bytes(unsigned64(v), width.spec_bytes())
    } else {
        be_bytes(unsigned64(v), width.spec_bytes())
    }
}

/// An unsigned pattern of the given size read as the number it stands for:
/// a single byte is unsigned, the larger sizes are two's complement.
pub open spec fn signed(u: int, width: Width) -> int {
    match width {
        Width::Byte => u,
        Width::Word => if u >= 0x8000 {
            u - 0x1_0000
        } else {
            u
        },
        Width::DoubleWord => if u >= 0x8000_0000 {
            u - 0x1_0000_0000
        } else {
            u
        },
        Width::QuadWord => if u >= 0x8000_0000_0000_0000 {
            u - 0x1_0000_0000_0000_0000
        } else {
            u
        },
    }
}

/// The number that the bytes of a number directive stand for.
pub open spec fn number_value(bytes: Seq<u8>, width: Width, little_endian: bool) -> int {
    signed(
        if little_endian {
            le_value(bytes)
        } else {
            be_value(bytes)
        },
        width,
    )
}

/// A number cut to 32 bits, two's complement.
pub open spec fn wrap32(v: i64) -> int {
    signed(unsigned64(v) % 0x1_0000_0000, Width::DoubleWord)
}

/// The decimal digits that a binary-coded directive writes: the lowest two
/// (narrow) or four (wide) of the number cut to 32 bits, none of a number
/// below one.
pub open spec fn bcd_digits(v: i64, wide: bool) -> int {
    if wrap32(v) <= 0 {
        0
    } else if wide {
        wrap32(v) % 10_000
    } else {
        wrap32(v) % 100
    }
}

/// The bytes of a binary-coded directive.
pub open spec fn bcd_bytes(v: i64, wide: bool) -> Seq<u8> {
    be_bytes(
        spec_int_to_bcd(bcd_digits(v, wide)),
        if wide {
            2
        } else {
            1
        },
    )
}

/// The bytes of an array with its length before it. A length that does not
/// fit its field is cut to the field.
pub open spec fn counted_bytes(a: Seq<u8>, prefix: Prefix) -> Seq<u8> {
    match prefix {
        Prefix::Word => be_bytes(a.len() as int, 2) + a,
        Prefix::Terminated => be_bytes(a.len() as int + 1, 2) + a + seq![0u8],
        Prefix::Byte => be_bytes(a.len() as int, 1) + a,
    }
}

/// The bytes that one directive writes for one value.
pub open spec fn spec_encode(token: Token, value: Value) -> Result<Seq<u8>, QueryError> {
    match (token, value) {
        (Token::Number { width, little_endian }, Value::Number(n)) => Ok(
            number_bytes(n, width, little_endian),
        ),
        (Token::Bcd { wide }, Value::Number(n)) => Ok(bcd_bytes(n, wide)),
        (Token::Counted { prefix }, Value::Array(a)) => Ok(counted_bytes(a, prefix)),
        (Token::Rest, Value::Array(a)) => Ok(a),
        _ => Err(QueryError::TypeMismatch),
    }
}

/// Where the assembly of a message stands: the bytes written and the number
/// of values used.
pub ghost struct Formatter {
    pub bytes: Seq<u8>,
    pub used: nat,
}

/// The assembly after one more element of the template.
pub open spec fn format_step(state: Formatter, token: Token, values: Seq<Value>) -> Result<
    Formatter,
    QueryError,
> {
    match token {
        Token::Literal(b) => Ok(Formatter { bytes: state.bytes.push(b), ..state }),
        Token::Opaque => Err(QueryError::UnrecognizedChar('#')),
        Token::Skip => Err(QueryError::UnrecognizedChar('?')),
        _ => if state.used >= values.len() {
            Err(QueryError::MissingArgument)
        } else {
            match spec_encode(token, values[state.used as int]) {
                Ok(b) => Ok(Formatter { bytes: state.bytes + b, used: state.used + 1 }),
                Err(e) => Err(e),
            }
        },
    }
}

/// The assembly after the first `n` elements, or the first error on the way.
pub open spec fn format_after(tokens: Seq<Token>, n: nat, values: Seq<Value>) -> Result<
    Formatter,
    QueryError,
>
    decreases n,
{
    if n == 0 {
        Ok(Formatter { bytes: Seq::empty(), used: 0 })
    } else {
        match format_after(tokens, (n - 1) as nat, values) {
            Ok(state) => format_step(state, tokens[n - 1], values),
            Err(e) => Err(e),
        }
    }
}

/// The message that the elements of a template make of the values. Values
/// left over are ignored.
pub open spec fn spec_format_tokens(tokens: Seq<Token>, values: Seq<Value>) -> Result<
    Seq<u8>,
    QueryError,
> {
    match format_after(tokens, tokens.len(), values) {
        Ok(state) => Ok(state.bytes),
        Err(e) => Err(e),
    }
}

/// The message that a template makes of the values: an error of the
/// template, else the first error of a directive, else the bytes.
pub open spec fn spec_format_query(template: Seq<char>, values: Seq<Value>) -> Result<
    Seq<u8>,
    QueryError,
> {
    match spec_parse_template(template) {
        Ok(tokens) => spec_format_tokens(tokens, values),
        Err(e) => Err(e),
    }
}

/// Once the assembly has failed, it has failed for good.
pub proof fn lemma_format_error_stays(tokens: Seq<Token>, n: nat, m: nat, values: Seq<Value>)
    requires
        n <= m,
        format_after(tokens, n, values) is Err,
    ensures
        format_after(tokens, m, values) == format_after(tokens, n, values),
    decreases m,
{
    if n < m {
        lemma_format_error_stays(tokens, n, (m - 1) as nat, values);
    }
}

fn unsigned_pattern(v: i64) -> (u: u64)
    ensures
        u == unsigned64(v),
{
    if v >= 0 {
        v as u64
    } else {
        ((v + 0x7fff_ffff_ffff_ffff) + 1) as u64 + 0x8000_0000_0000_0000
    }
}

/// The lowest `width` bytes of a number, highest first.
pub fn be_encode(u: u64, width: usize) -> (bytes: Vec<u8>)
    requires
        width <= 8,
    ensures
        bytes@ == be_bytes(u as int, width as nat),
{
    big_endian(u, width)
}

fn big_endian(u: u64, width: usize) -> (bytes: Vec<u8>)
    requires
        width <= 8,
    ensures
        bytes@ == be_bytes(u as int, width as nat),
        bytes@.len() == width,
    decreases width,
{
    if width == 0 {
        Vec::new()
    } else {
        let mut bytes = big_endian(u / 256, width - 1);
        bytes.push((u % 256) as u8);
        bytes
    }
}

fn little_endian(u: u64, width: usize) -> (bytes: Vec<u8>)
    requires
        width <= 8,
    ensures
        bytes@ == le_bytes(u as int, width as nat),
        bytes@.len() == width,
{
    let mut bytes: Vec<u8> = Vec::new();
    let mut rest: u64 = u;
    let mut i: usize = 0;
    while i < width
        invariant
            i <= width,
            bytes@.len() == i,
            le_bytes(u as int, width as nat) == bytes@ + le_bytes(rest as int, (width - i) as nat),
        decreases width - i,
    {
        proof {
            let tail = le_bytes(rest as int / 256, (width - i - 1) as nat);
            assert(bytes@ + (seq![(rest % 256) as u8] + tail) == bytes@.push((rest % 256) as u8)
                + tail);
        }
        bytes.push((rest % 256) as u8);
        rest = rest / 256;
        i = i + 1;
    }
    bytes
}

/// The lengths of what the encoders give.
pub proof fn lemma_bytes_len(u: int, width: nat)
    ensures
        be_bytes(u, width).len() == width,
        le_bytes(u, width).len() == width,
    decreases width,
{
    if width > 0 {
        lemma_bytes_len(u / 256, (width - 1) as nat);
    }
}

fn wrapped32(v: i64) -> (n: i32)
    ensures
        n == wrap32(v),
{
    let low: u64 = unsigned_pattern(v) % 0x1_0000_0000;
    if low >= 0x8000_0000 {
        (low as i64 - 0x1_0000_0000) as i32
    } else {
        low as i32
    }
}

fn encode_bcd(v: i64, wide: bool) -> (bytes: Vec<u8>)
    ensures
        bytes@ == bcd_bytes(v, wide),
{
    let n: i32 = wrapped32(v);
    let digits: i32 = if n <= 0 {
        0
    } else if wide {
        n % 10_000
    } else {
        n % 100
    };
    let packed: i32 = int_to_bcd(digits);
    proof {
        crate::netmd::utils::lemma_int_to_bcd_nonneg(digits as int);
        lemma_four_digits(digits as int);
    }
    big_endian(
        packed as u64,
        if wide {
            2
        } else {
            1
        },
    )
}

/// Four decimal digits pack into sixteen bits.
pub proof fn lemma_four_digits(digits: int)
    requires
        0 <= digits < 10_000,
    ensures
        0 <= spec_int_to_bcd(digits) < 0x1_0000,
        digits < 100 ==> spec_int_to_bcd(digits) < 0x100,
        spec_int_to_bcd(digits) == (digits % 10) + 16 * ((digits / 10) % 10) + 256 * ((digits
            / 100) % 10) + 4096 * (digits / 1000),
{
    reveal_with_fuel(spec_int_to_bcd, 6);
}

fn encode_counted(a: &Vec<u8>, prefix: Prefix) -> (bytes: Vec<u8>)
    ensures
        bytes@ == counted_bytes(a@, prefix),
{
    let len: u64 = a.len() as u64;
    match prefix {
        Prefix::Word => {
            let mut bytes = big_endian(len, 2);
            let mut body = a.clone();
            bytes.append(&mut body);
            bytes
        },
        Prefix::Terminated => {
            let mut bytes = if len < u64::MAX {
                big_endian(len + 1, 2)
            } else {
                proof {
                    reveal_with_fuel(pow256, 3);
                    assert(pow256(2) == 0x1_0000);
                    assert(len + 1 == 0x1_0000_0000_0000_0000);
                    assert(0x1_0000_0000_0000_0000int % 0x1_0000 == 0);
                    lemma_be_bytes_congruent(len + 1, 0, 2);
                }
                big_endian(0, 2)
            };
            let mut body = a.clone();
            bytes.append(&mut body);
            bytes.push(0);
            bytes
        },
        Prefix::Byte => {
            let mut bytes = big_endian(len, 1);
            let mut body = a.clone();
            bytes.append(&mut body);
            bytes
        },
    }
}

/// Numbers that agree in their lowest bytes have the same lowest bytes.
pub proof fn lemma_be_bytes_congruent(u: int, v: int, width: nat)
    requires
        0 <= u,
        0 <= v,
        u % pow256(width) == v % pow256(width),
    ensures
        be_bytes(u, width) == be_bytes(v, width),
        le_bytes(u, width) == le_bytes(v, width),
    decreases width,
{
    if width > 0 {
        let p = pow256((width - 1) as nat);
        lemma_pow256_positive((width - 1) as nat);
        vstd::arithmetic::div_mod::lemma_mod_breakdown(u, 256, p);
        vstd::arithmetic::div_mod::lemma_mod_breakdown(v, 256, p);
        assert(256 * p == pow256(width));
        assert(u % 256 == v % 256 && (u / 256) % p == (v / 256) % p) by {
            let a = (u / 256) % p;
            let b = (v / 256) % p;
            assert(256 * a + u % 256 == 256 * b + v % 256);
            assert(0 <= u % 256 < 256 && 0 <= v % 256 < 256);
        }
        lemma_be_bytes_congruent(u / 256, v / 256, (width - 1) as nat);
    }
}

pub proof fn lemma_pow256_positive(k: nat)
    ensures
        pow256(k) >= 1,
    decreases k,
{
    if k > 0 {
        lemma_pow256_positive((k - 1) as nat);
    }
}

/// Writes one value as one directive asks.
pub fn encode(token: Token, value: &QueryValue) -> (r: Result<Vec<u8>, QueryError>)
    ensures
        match spec_encode(token, value@) {
            Ok(bytes) => r matches Ok(v) && v@ == bytes,
            Err(e) => r == Err::<Vec<u8>, QueryError>(e),
        },
{
    match (token, value) {
        (Token::Number { width, little_endian: little }, QueryValue::Number(n)) => {
            let u = unsigned_pattern(*n);
            if little {
                Ok(little_endian(u, width.bytes()))
            } else {
                Ok(big_endian(u, width.bytes()))
            }
        },
        (Token::Bcd { wide }, QueryValue::Number(n)) => Ok(encode_bcd(*n, wide)),
        (Token::Counted { prefix }, QueryValue::Array(a)) => Ok(encode_counted(a, prefix)),
        (Token::Rest, QueryValue::Array(a)) => Ok(a.clone()),
        _ => Err(QueryError::TypeMismatch),
    }
}

/// Assembles a message from the elements of a template and the values for
/// its directives.
pub fn format_tokens(tokens: &Vec<Token>, args: &Vec<QueryValue>) -> (r: Result<
    Vec<u8>,
    QueryError,
>)
    ensures
        match spec_format_tokens(tokens@, values_view(args@)) {
            Ok(bytes) => r matches Ok(v) && v@ == bytes,
            Err(e) => r == Err::<Vec<u8>, QueryError>(e),
        },
{
    let mut bytes: Vec<u8> = Vec::new();
    let mut used: usize = 0;
    let mut i: usize = 0;
    let ghost values = values_view(args@);
    while i < tokens.len()
        invariant
            i <= tokens.len(),
            used <= args.len(),
            values == values_view(args@),
            format_after(tokens@, i as nat, values) == Ok::<Formatter, QueryError>(
                Formatter { bytes: bytes@, used: used as nat },
            ),
        decreases tokens.len() - i,
    {
        let token = tokens[i];
        let ghost before = Formatter { bytes: bytes@, used: used as nat };
        assert(format_after(tokens@, (i + 1) as nat, values) == format_step(before, token, values));
        match token {
            Token::Literal(b) => {
                bytes.push(b);
            },
            Token::Opaque => {
                proof {
                    lemma_format_error_stays(tokens@, (i + 1) as nat, tokens@.len(), values);
                }
                return Err(QueryError::UnrecognizedChar('#'));
            },
            Token::Skip => {
                proof {
                    lemma_format_error_stays(tokens@, (i + 1) as nat, tokens@.len(), values);
                }
                return Err(QueryError::UnrecognizedChar('?'));
            },
            _ => {
                if used >= args.len() {
                    proof {
                        lemma_format_error_stays(tokens@, (i + 1) as nat, tokens@.len(), values);
                    }
                    return Err(QueryError::MissingArgument);
                }
                match encode(token, &args[used]) {
                    Ok(piece) => {
                        let mut piece = piece;
                        bytes.append(&mut piece);
                        used = used + 1;
                    },
                    Err(e) => {
                        proof {
                            lemma_format_error_stays(
                                tokens@,
                                (i + 1) as nat,
                                tokens@.len(),
                                values,
                            );
                        }
                        return Err(e);
                    },
                }
            },
        }
        i = i + 1;
    }
    Ok(bytes)
}

/// Assembles a message to send to the player.
///
/// Fails where a literal of the template is malformed, a character after `%`
/// names no directive that writes, a directive finds no value left, or a
/// value is not of the kind its directive takes.
pub fn format_query(format: String, args: Vec<QueryValue>) -> (r: Result<Vec<u8>, QueryError>)
    ensures
        match spec_format_query(format@, values_view(args@)) {
            Ok(bytes) => r matches Ok(v) && v@ == bytes,
            Err(e) => r == Err::<Vec<u8>, QueryError>(e),
        },
{
    match parse_template(format.as_str()) {
        Ok(tokens) => format_tokens(&tokens, &args),
        Err(e) => Err(e),
    }
}

/// How many bytes the length of a counted array takes.
pub open spec fn prefix_bytes(prefix: Prefix) -> nat {
    match prefix {
        Prefix::Byte => 1,
        _ => 2,
    }
}

/// Where the reading of a message stands: the values read and the place of
/// the next byte.
pub ghost struct Scanner {
    pub values: Seq<Value>,
    pub pos: nat,
}

/// The reading after one more element of the template.
pub open spec fn scan_step(state: Scanner, token: Token, input: Seq<u8>) -> Result<
    Scanner,
    QueryError,
> {
    let pos = state.pos as int;
    let left = input.len() - pos;
    match token {
        Token::Literal(b) => if left < 1 {
            Err(QueryError::UnexpectedEnd)
        } else if input[pos] != b {
            Err(QueryError::InputMismatch { index: pos as usize, expected: b, actual: input[pos] })
        } else {
            Ok(Scanner { pos: state.pos + 1, ..state })
        },
        Token::Skip => if left < 1 {
            Err(QueryError::UnexpectedEnd)
        } else {
            Ok(Scanner { pos: state.pos + 1, ..state })
        },
        Token::Number { width, little_endian } => if left < width.spec_bytes() {
            Err(QueryError::UnexpectedEnd)
        } else {
            Ok(
                Scanner {
                    values: state.values.push(
                        Value::Number(
                            number_value(
                                input.subrange(pos, pos + width.spec_bytes()),
                                width,
                                little_endian,
                            ) as i64,
                        ),
                    ),
                    pos: state.pos + width.spec_bytes(),
                },
            )
        },
        Token::Bcd { wide } => {
            let width: int = if wide {
                2
            } else {
                1
            };
            if left < width {
                Err(QueryError::UnexpectedEnd)
            } else {
                Ok(
                    Scanner {
                        values: state.values.push(
                            Value::Number(
                                spec_bcd_to_int(be_value(input.subrange(pos, pos + width))) as i64,
                            ),
                        ),
                        pos: (pos + width) as nat,
                    },
                )
            }
        },
        Token::Counted { prefix } => {
            let head = prefix_bytes(prefix) as int;
            if left < head {
                Err(QueryError::UnexpectedEnd)
            } else {
                let count = be_value(input.subrange(pos, pos + head));
                if left - head < count {
                    Err(QueryError::UnexpectedEnd)
                } else {
                    Ok(
                        Scanner {
                            values: state.values.push(
                                Value::Array(input.subrange(pos + head, pos + head + count)),
                            ),
                            pos: (pos + head + count) as nat,
                        },
                    )
                }
            }
        },
        Token::Rest | Token::Opaque => Ok(
            Scanner {
                values: state.values.push(Value::Array(input.subrange(pos, input.len() as int))),
                pos: input.len(),
            },
        ),
    }
}

/// The reading before any element: the first byte of a message, its status,
/// is passed over.
pub open spec fn scan_start(input: Seq<u8>) -> Scanner {
    Scanner {
        values: Seq::empty(),
        pos: if input.len() == 0 {
            0
        } else {
            1
        },
    }
}

/// The reading after the first `n` elements, or the first error on the way.
pub open spec fn scan_after(tokens: Seq<Token>, n: nat, input: Seq<u8>) -> Result<
    Scanner,
    QueryError,
>
    decreases n,
{
    if n == 0 {
        Ok(scan_start(input))
    } else {
        match scan_after(tokens, (n - 1) as nat, input) {
            Ok(state) => scan_step(state, tokens[n - 1], input),
            Err(e) => Err(e),
        }
    }
}

/// The values that the elements of a template read from a message. The
/// message must end where the template does.
pub open spec fn spec_scan_tokens(tokens: Seq<Token>, input: Seq<u8>) -> Result<
    Seq<Value>,
    QueryError,
> {
    match scan_after(tokens, tokens.len(), input) {
        Ok(state) => if state.pos < input.len() {
            Err(QueryError::TrailingData)
        } else {
            Ok(state.values)
        },
        Err(e) => Err(e),
    }
}

/// The values that a template reads from a message: an error of the
/// template, else the first error of an element, else the values in the
/// order of their directives.
pub open spec fn spec_scan_query(input: Seq<u8>, template: Seq<char>) -> Result<
    Seq<Value>,
    QueryError,
> {
    match spec_parse_template(template) {
        Ok(tokens) => spec_scan_tokens(tokens, input),
        Err(e) => Err(e),
    }
}

/// Once the reading has failed, it has failed for good.
pub proof fn lemma_scan_error_stays(tokens: Seq<Token>, n: nat, m: nat, input: Seq<u8>)
    requires
        n <= m,
        scan_after(tokens, n, input) is Err,
    ensures
        scan_after(tokens, m, input) == scan_after(tokens, n, input),
    decreases m,
{
    if n < m {
        lemma_scan_error_stays(tokens, n, (m - 1) as nat, input);
    }
}

/// The first powers of 256.
pub proof fn lemma_pow256_table(k: nat)
    requires
        k <= 8,
    ensures
        1 <= pow256(k) <= 0x1_0000_0000_0000_0000,
        k < 8 ==> pow256(k) <= 0x100_0000_0000_0000,
        k == 1 ==> pow256(k) == 0x100,
        k == 2 ==> pow256(k) == 0x1_0000,
        k == 4 ==> pow256(k) == 0x1_0000_0000,
        k == 8 ==> pow256(k) == 0x1_0000_0000_0000_0000,
{
    reveal_with_fuel(pow256, 9);
    if k == 0 {
    } else if k == 1 {
    } else if k == 2 {
    } else if k == 3 {
    } else if k == 4 {
    } else if k == 5 {
    } else if k == 6 {
    } else if k == 7 {
    } else {
        assert(k == 8);
    }
}

/// Bytes spell a number below 256 to the power of their count.
pub proof fn lemma_value_bound(bytes: Seq<u8>)
    ensures
        0 <= be_value(bytes) < pow256(bytes.len()),
        0 <= le_value(bytes) < pow256(bytes.len()),
    decreases bytes.len(),
{
    if bytes.len() > 0 {
        lemma_value_bound(bytes.drop_last());
        lemma_value_bound(bytes.drop_first());
    }
}

fn be_decode(input: &Vec<u8>, pos: usize, width: usize) -> (u: u64)
    requires
        width <= 8,
        pos + width <= input.len(),
    ensures
        u == be_value(input@.subrange(pos as int, pos + width)),
{
    let mut u: u64 = 0;
    let mut i: usize = 0;
    while i < width
        invariant
            i <= width <= 8,
            pos + width <= input.len(),
            u == be_value(input@.subrange(pos as int, pos + i)),
        decreases width - i,
    {
        proof {
            let next = input@.subrange(pos as int, pos + i + 1);
            assert(next.drop_last() == input@.subrange(pos as int, pos + i));
            lemma_value_bound(input@.subrange(pos as int, pos + i));
            lemma_pow256_table(i as nat);
        }
        u = u * 256 + input[pos + i] as u64;
        i = i + 1;
    }
    u
}

fn le_decode(input: &Vec<u8>, pos: usize, width: usize) -> (u: u64)
    requires
        width <= 8,
        pos + width <= input.len(),
    ensures
        u == le_value(input@.subrange(pos as int, pos + width)),
{
    let mut u: u64 = 0;
    let mut i: usize = 0;
    while i < width
        invariant
            i <= width <= 8,
            pos + width <= input.len(),
            u == le_value(input@.subrange(pos + width - i, pos + width)),
        decreases width - i,
    {
        proof {
            let next = input@.subrange(pos + width - i - 1, pos + width);
            assert(next.drop_first() == input@.subrange(pos + width - i, pos + width));
            lemma_value_bound(input@.subrange(pos + width - i, pos + width));
            lemma_pow256_table(i as nat);
        }
        u = u * 256 + input[pos + width - i - 1] as u64;
        i = i + 1;
    }
    u
}

fn to_signed(u: u64, width: Width) -> (n: i64)
    requires
        u < pow256(width.spec_bytes()),
    ensures
        n == signed(u as int, width),
{
    proof {
        lemma_pow256_table(width.spec_bytes());
    }
    match width {
        Width::Byte => u as i64,
        Width::Word => if u >= 0x8000 {
            u as i64 - 0x1_0000
        } else {
            u as i64
        },
        Width::DoubleWord => if u >= 0x8000_0000 {
            u as i64 - 0x1_0000_0000
        } else {
            u as i64
        },
        Width::QuadWord => if u >= 0x8000_0000_0000_0000 {
            ((u - 0x8000_0000_0000_0000) as i64 - 0x7fff_ffff_ffff_ffff) - 1
        } else {
            u as i64
        },
    }
}

/// A copy of the bytes from `from` up to `to`.
pub fn copy_range(input: &Vec<u8>, from: usize, to: usize) -> (out: Vec<u8>)
    requires
        from <= to <= input.len(),
    ensures
        out@ == input@.subrange(from as int, to as int),
{
    let mut out: Vec<u8> = Vec::new();
    let mut i: usize = from;
    while i < to
        invariant
            from <= i <= to <= input.len(),
            out@ == input@.subrange(from as int, i as int),
        decreases to - i,
    {
        out.push(input[i]);
        i = i + 1;
    }
    out
}

/// Reads a message with the elements of a template.
pub fn scan_tokens(tokens: &Vec<Token>, input: &Vec<u8>) -> (r: Result<
    Vec<QueryValue>,
    QueryError,
>)
    ensures
        match spec_scan_tokens(tokens@, input@) {
            Ok(values) => r matches Ok(v) && values_view(v@) == values,
            Err(e) => r == Err::<Vec<QueryValue>, QueryError>(e),
        },
{
    let mut values: Vec<QueryValue> = Vec::new();
    let mut pos: usize = if input.len() == 0 {
        0
    } else {
        1
    };
    let mut i: usize = 0;
    assert(values_view(values@) == Seq::<Value>::empty());
    while i < tokens.len()
        invariant
            i <= tokens.len(),
            pos <= input.len(),
            scan_after(tokens@, i as nat, input@) == Ok::<Scanner, QueryError>(
                Scanner { values: values_view(values@), pos: pos as nat },
            ),
        decreases tokens.len() - i,
    {
        let token = tokens[i];
        let ghost before = Scanner { values: values_view(values@), pos: pos as nat };
        let ghost seen = values@;
        assert(scan_after(tokens@, (i + 1) as nat, input@) == scan_step(before, token, input@));
        proof {
            if scan_step(before, token, input@) is Err {
                lemma_scan_error_stays(tokens@, (i + 1) as nat, tokens@.len(), input@);
            }
        }
        let left: usize = input.len() - pos;
        match token {
            Token::Literal(b) => {
                if left < 1 {
                    return Err(QueryError::UnexpectedEnd);
                }
                let actual = input[pos];
                if actual != b {
                    return Err(QueryError::InputMismatch { index: pos, expected: b, actual });
                }
                pos = pos + 1;
            },
            Token::Skip => {
                if left < 1 {
                    return Err(QueryError::UnexpectedEnd);
                }
                pos = pos + 1;
            },
            Token::Number { width, little_endian: little } => {
                let w = width.bytes();
                if left < w {
                    return Err(QueryError::UnexpectedEnd);
                }
                let u = if little {
                    le_decode(input, pos, w)
                } else {
                    be_decode(input, pos, w)
                };
                proof {
                    lemma_value_bound(input@.subrange(pos as int, pos + w));
                }
                values.push(QueryValue::Number(to_signed(u, width)));
                pos = pos + w;
            },
            Token::Bcd { wide } => {
                let w: usize = if wide {
                    2
                } else {
                    1
                };
                if left < w {
                    return Err(QueryError::UnexpectedEnd);
                }
                let u = be_decode(input, pos, w);
                proof {
                    lemma_value_bound(input@.subrange(pos as int, pos + w));
                    lemma_pow256_table(w as nat);
                }
                values.push(QueryValue::Number(bcd_to_int(u as i32) as i64));
                pos = pos + w;
            },
            Token::Counted { prefix } => {
                let head: usize = match prefix {
                    Prefix::Byte => 1,
                    _ => 2,
                };
                if left < head {
                    return Err(QueryError::UnexpectedEnd);
                }
                let count = be_decode(input, pos, head);
                proof {
                    lemma_value_bound(input@.subrange(pos as int, pos + head));
                    lemma_pow256_table(head as nat);
                }
                if ((left - head) as u64) < count {
                    return Err(QueryError::UnexpectedEnd);
                }
                let from = pos + head;
                let to = from + count as usize;
                values.push(QueryValue::Array(copy_range(input, from, to)));
                pos = to;
            },
            Token::Rest | Token::Opaque => {
                values.push(QueryValue::Array(copy_range(input, pos, input.len())));
                pos = input.len();
            },
        }
        proof {
            if values@.len() > seen.len() {
                assert(values_view(values@) == values_view(seen).push(values@.last()@));
            }
        }
        i = i + 1;
    }
    if pos < input.len() {
        Err(QueryError::TrailingData)
    } else {
        Ok(values)
    }
}

/// Reads what the player sent back.
///
/// The first byte of the message, its status, is passed over. Every literal
/// of the template must be the byte at its place; the values of the
/// directives come back in the order of the directives. Fails where the
/// template is malformed, a literal differs (the error holds the place and
/// both bytes), the message ends early, or bytes are left over after the
/// last element.
pub fn scan_query(query_result: Vec<u8>, format: String) -> (r: Result<Vec<QueryValue>, QueryError>)
    ensures
        match spec_scan_query(query_result@, format@) {
            Ok(values) => r matches Ok(v) && values_view(v@) == values,
            Err(e) => r == Err::<Vec<QueryValue>, QueryError>(e),
        },
{
    match parse_template(format.as_str()) {
        Ok(tokens) => scan_tokens(&tokens, &query_result),
        Err(e) => Err(e),
    }
}

/// Whether an element of a template stands for a value when a message is
/// assembled.
pub open spec fn takes_value(token: Token) -> bool {
    token is Number || token is Bcd || token is Counted || token is Rest
}

/// The directives among the first `n` elements, in order.
pub open spec fn directives_after(tokens: Seq<Token>, n: nat) -> Seq<Token>
    decreases n,
{
    if n == 0 {
        Seq::empty()
    } else if takes_value(tokens[n - 1]) {
        directives_after(tokens, (n - 1) as nat).push(tokens[n - 1])
    } else {
        directives_after(tokens, (n - 1) as nat)
    }
}

/// The directives of a template, in order.
pub open spec fn directives(tokens: Seq<Token>) -> Seq<Token> {
    directives_after(tokens, tokens.len())
}

/// Whether the length of an array fits the length field of its directive.
pub open spec fn fits(token: Token, value: Value) -> bool {
    match (token, value) {
        (Token::Counted { prefix: Prefix::Word }, Value::Array(a)) => a.len() <= 0xffff,
        (Token::Counted { prefix: Prefix::Terminated }, Value::Array(a)) => a.len() < 0xffff,
        (Token::Counted { prefix: Prefix::Byte }, Value::Array(a)) => a.len() <= 0xff,
        _ => true,
    }
}

/// What reading gives for a value that a directive wrote: a number cut to
/// the size of its directive, a binary-coded number cut to its digits, an
/// array as it was, with the closing zero byte where the directive wrote one.
pub open spec fn read_back(token: Token, value: Value) -> Value {
    match (token, value) {
        (Token::Number { width, little_endian }, Value::Number(n)) => Value::Number(
            signed(unsigned64(n) % pow256(width.spec_bytes()), width) as i64,
        ),
        (Token::Bcd { wide }, Value::Number(n)) => Value::Number(bcd_digits(n, wide) as i64),
        (Token::Counted { prefix: Prefix::Terminated }, Value::Array(a)) => Value::Array(
            a.push(0u8),
        ),
        _ => value,
    }
}

/// Whether a value is written and read back unchanged by its directive.
pub open spec fn unchanged(token: Token, value: Value) -> bool {
    match (token, value) {
        (Token::Number { width: Width::Byte, .. }, Value::Number(n)) => 0 <= n <= 0xff,
        (Token::Number { width: Width::Word, .. }, Value::Number(n)) => -0x8000 <= n <= 0x7fff,
        (Token::Number { width: Width::DoubleWord, .. }, Value::Number(n)) => -0x8000_0000 <= n
            <= 0x7fff_ffff,
        (Token::Number { width: Width::QuadWord, .. }, Value::Number(n)) => true,
        (Token::Bcd { wide: false }, Value::Number(n)) => 0 <= n <= 99,
        (Token::Bcd { wide: true }, Value::Number(n)) => 0 <= n <= 9999,
        (Token::Counted { prefix: Prefix::Word }, Value::Array(a)) => a.len() <= 0xffff,
        (Token::Counted { prefix: Prefix::Byte }, Value::Array(a)) => a.len() <= 0xff,
        (Token::Rest, Value::Array(a)) => true,
        _ => false,
    }
}

/// Bytes written highest first spell the number again, cut to their count.
pub proof fn lemma_be_round_trip(u: int, width: nat)
    requires
        0 <= u,
    ensures
        be_value(be_bytes(u, width)) == u % pow256(width),
    decreases width,
{
    if width > 0 {
        let p = pow256((width - 1) as nat);
        lemma_pow256_positive((width - 1) as nat);
        lemma_be_round_trip(u / 256, (width - 1) as nat);
        let s = be_bytes(u, width);
        assert(s.drop_last() == be_bytes(u / 256, (width - 1) as nat));
        vstd::arithmetic::div_mod::lemma_mod_breakdown(u, 256, p);
    }
}

/// Bytes written lowest first spell the number again, cut to their count.
pub proof fn lemma_le_round_trip(u: int, width: nat)
    requires
        0 <= u,
    ensures
        le_value(le_bytes(u, width)) == u % pow256(width),
    decreases width,
{
    if width > 0 {
        let p = pow256((width - 1) as nat);
        lemma_pow256_positive((width - 1) as nat);
        lemma_le_round_trip(u / 256, (width - 1) as nat);
        let s = le_bytes(u, width);
        assert(s.drop_first() == le_bytes(u / 256, (width - 1) as nat));
        vstd::arithmetic::div_mod::lemma_mod_breakdown(u, 256, p);
    }
}

/// A negative number, as a 64-bit pattern cut to a smaller size of which it
/// is in range, is the number plus the size's modulus.
pub proof fn lemma_cut_negative(n: int, modulus: int)
    requires
        modulus == 0x1_0000 || modulus == 0x1_0000_0000,
        -modulus <= n < 0,
    ensures
        (n + 0x1_0000_0000_0000_0000) % modulus == n + modulus,
{
    let q = if modulus == 0x1_0000 {
        0xffff_ffff_ffffint
    } else {
        0xffff_ffffint
    };
    assert(n + 0x1_0000_0000_0000_0000 == q * modulus + (n + modulus)) by (nonlinear_arith)
        requires
            (modulus == 0x1_0000 && q == 0xffff_ffff_ffff) || (modulus == 0x1_0000_0000 && q
                == 0xffff_ffff),
    ;
    vstd::arithmetic::div_mod::lemma_fundamental_div_mod_converse(
        n + 0x1_0000_0000_0000_0000,
        modulus,
        q,
        n + modulus,
    );
}

/// A number in the range of its size is what its bytes are read back as.
pub proof fn lemma_number_unchanged(n: i64, width: Width)
    requires
        match width {
            Width::Byte => 0 <= n <= 0xff,
            Width::Word => -0x8000 <= n <= 0x7fff,
            Width::DoubleWord => -0x8000_0000 <= n <= 0x7fff_ffff,
            Width::QuadWord => true,
        },
    ensures
        signed(unsigned64(n) % pow256(width.spec_bytes()), width) == n,
{
    lemma_pow256_table(width.spec_bytes());
    let u = unsigned64(n);
    match width {
        Width::Byte => {
            assert(u % 0x100 == u);
        },
        Width::Word => {
            if n < 0 {
                lemma_cut_negative(n as int, 0x1_0000);
            } else {
                assert(u % 0x1_0000 == u);
            }
        },
        Width::DoubleWord => {
            if n < 0 {
                lemma_cut_negative(n as int, 0x1_0000_0000);
            } else {
                assert(u % 0x1_0000_0000 == u);
            }
        },
        Width::QuadWord => {
            assert(u % 0x1_0000_0000_0000_0000 == u);
        },
    }
}

/// A value in the range of its directive is read back as it was.
pub proof fn lemma_unchanged(token: Token, value: Value)
    requires
        unchanged(token, value),
    ensures
        fits(token, value),
        read_back(token, value) == value,
        spec_encode(token, value) is Ok,
{
    match (token, value) {
        (Token::Number { width, little_endian }, Value::Number(n)) => {
            lemma_number_unchanged(n, width);
        },
        (Token::Bcd { wide }, Value::Number(n)) => {
            lemma_number_unchanged(n, Width::DoubleWord);
            lemma_pow256_table(4);
            assert(wrap32(n) == n);
        },
        _ => {},
    }
}

proof fn lemma_read_back_number(
    n: i64,
    width: Width,
    little_endian: bool,
    seen: Seq<Value>,
    input: Seq<u8>,
    pos: nat,
)
    requires
        pos + width.spec_bytes() <= input.len(),
        input.subrange(pos as int, (pos + width.spec_bytes()) as int) == number_bytes(
            n,
            width,
            little_endian,
        ),
    ensures
        scan_step(
            Scanner { values: seen, pos },
            Token::Number { width, little_endian },
            input,
        ) == Ok::<Scanner, QueryError>(
            Scanner {
                values: seen.push(
                    read_back(Token::Number { width, little_endian }, Value::Number(n)),
                ),
                pos: pos + width.spec_bytes(),
            },
        ),
{
    let w = width.spec_bytes();
    let written = number_bytes(n, width, little_endian);
    lemma_be_round_trip(unsigned64(n), w);
    lemma_le_round_trip(unsigned64(n), w);
    assert(number_value(written, width, little_endian) == signed(
        unsigned64(n) % pow256(w),
        width,
    ));
}

proof fn lemma_read_back_bcd(n: i64, wide: bool, seen: Seq<Value>, input: Seq<u8>, pos: nat)
    requires
        pos + bcd_bytes(n, wide).len() <= input.len(),
        input.subrange(pos as int, (pos + bcd_bytes(n, wide).len()) as int) == bcd_bytes(n, wide),
    ensures
        scan_step(Scanner { values: seen, pos }, Token::Bcd { wide }, input) == Ok::<
            Scanner,
            QueryError,
        >(
            Scanner {
                values: seen.push(read_back(Token::Bcd { wide }, Value::Number(n))),
                pos: pos + bcd_bytes(n, wide).len(),
            },
        ),
{
    let w: nat = if wide {
        2
    } else {
        1
    };
    let digits = bcd_digits(n, wide);
    let packed = spec_int_to_bcd(digits);
    lemma_four_digits(digits);
    lemma_bytes_len(packed, w);
    lemma_be_round_trip(packed, w);
    lemma_pow256_table(w);
    crate::netmd::utils::lemma_bcd_round_trip(digits);
    assert(be_value(bcd_bytes(n, wide)) == packed);
    assert(input.subrange(pos as int, (pos + w) as int) == bcd_bytes(n, wide));
}

proof fn lemma_read_back_counted(
    a: Seq<u8>,
    prefix: Prefix,
    seen: Seq<Value>,
    input: Seq<u8>,
    pos: nat,
)
    requires
        fits(Token::Counted { prefix }, Value::Array(a)),
        pos + counted_bytes(a, prefix).len() <= input.len(),
        input.subrange(pos as int, (pos + counted_bytes(a, prefix).len()) as int) == counted_bytes(
            a,
            prefix,
        ),
    ensures
        scan_step(Scanner { values: seen, pos }, Token::Counted { prefix }, input) == Ok::<
            Scanner,
            QueryError,
        >(
            Scanner {
                values: seen.push(read_back(Token::Counted { prefix }, Value::Array(a))),
                pos: pos + counted_bytes(a, prefix).len(),
            },
        ),
{
    let written = counted_bytes(a, prefix);
    let p = pos as int;
    let head = prefix_bytes(prefix);
    let count: int = if prefix is Terminated {
        a.len() as int + 1
    } else {
        a.len() as int
    };
    lemma_bytes_len(count, head);
    lemma_be_round_trip(count, head);
    lemma_pow256_table(head);
    assert(written.len() == head + count);
    assert(input.subrange(p, p + head) == written.subrange(0, head as int));
    assert(written.subrange(0, head as int) == be_bytes(count, head));
    assert(be_value(input.subrange(p, p + head)) == count);
    assert(input.subrange(p + head, p + head + count) == written.subrange(
        head as int,
        head + count,
    ));
    if prefix is Terminated {
        assert(written.subrange(head as int, head + count) == a.push(0u8));
    } else {
        assert(written.subrange(head as int, head + count) == a);
    }
}

/// Reading one directive at the place where it wrote gives the value back.
pub proof fn lemma_read_back(token: Token, value: Value, seen: Seq<Value>, input: Seq<u8>, pos: nat)
    requires
        spec_encode(token, value) is Ok,
        fits(token, value),
        pos + spec_encode(token, value)->Ok_0.len() <= input.len(),
        input.subrange(pos as int, (pos + spec_encode(token, value)->Ok_0.len()) as int)
            == spec_encode(token, value)->Ok_0,
        token is Rest ==> pos + spec_encode(token, value)->Ok_0.len() == input.len(),
    ensures
        scan_step(Scanner { values: seen, pos }, token, input) == Ok::<Scanner, QueryError>(
            Scanner {
                values: seen.push(read_back(token, value)),
                pos: pos + spec_encode(token, value)->Ok_0.len(),
            },
        ),
{
    match (token, value) {
        (Token::Number { width, little_endian }, Value::Number(n)) => {
            lemma_bytes_len(unsigned64(n), width.spec_bytes());
            lemma_read_back_number(n, width, little_endian, seen, input, pos);
        },
        (Token::Bcd { wide }, Value::Number(n)) => {
            lemma_read_back_bcd(n, wide, seen, input, pos);
        },
        (Token::Counted { prefix }, Value::Array(a)) => {
            lemma_read_back_counted(a, prefix, seen, input, pos);
        },
        (Token::Rest, Value::Array(a)) => {
            assert(input.subrange(pos as int, input.len() as int) == a);
        },
        _ => {},
    }
}

/// The values used by the assembly are as many as the directives passed, and
/// the bytes written so far stay as the assembly goes on.
pub proof fn lemma_format_grows(tokens: Seq<Token>, n: nat, m: nat, values: Seq<Value>)
    requires
        n <= m <= tokens.len(),
        format_after(tokens, m, values) is Ok,
    ensures
        format_after(tokens, n, values) is Ok,
        format_after(tokens, n, values)->Ok_0.used == directives_after(tokens, n).len(),
        format_after(tokens, n, values)->Ok_0.used <= values.len(),
        format_after(tokens, n, values)->Ok_0.bytes.len() <= format_after(
            tokens,
            m,
            values,
        )->Ok_0.bytes.len(),
        format_after(tokens, m, values)->Ok_0.bytes.subrange(
            0,
            format_after(tokens, n, values)->Ok_0.bytes.len() as int,
        ) == format_after(tokens, n, values)->Ok_0.bytes,
    decreases m,
{
    if n < m {
        lemma_format_grows(tokens, n, (m - 1) as nat, values);
        lemma_format_grows(tokens, (m - 1) as nat, (m - 1) as nat, values);
    } else if n > 0 {
        lemma_format_grows(tokens, (n - 1) as nat, (n - 1) as nat, values);
    }
}

/// What reading gives after the first `n` elements for the values that were
/// written.
pub open spec fn read_back_all(tokens: Seq<Token>, n: nat, values: Seq<Value>) -> Seq<Value> {
    Seq::new(
        directives_after(tokens, n).len(),
        |j: int| read_back(directives_after(tokens, n)[j], values[j]),
    )
}

proof fn lemma_round_trip_after(
    tokens: Seq<Token>,
    n: nat,
    values: Seq<Value>,
    input: Seq<u8>,
)
    requires
        n <= tokens.len(),
        format_after(tokens, tokens.len(), values) is Ok,
        input.len() > 0,
        input.subrange(1, input.len() as int) == format_after(
            tokens,
            tokens.len(),
            values,
        )->Ok_0.bytes,
        forall|j: int|
            0 <= j < directives(tokens).len() && j < values.len() ==> fits(
                #[trigger] directives(tokens)[j],
                values[j],
            ),
        forall|i: int| 0 <= i < tokens.len() - 1 ==> !(#[trigger] tokens[i] is Rest),
    ensures
        scan_after(tokens, n, input) == Ok::<Scanner, QueryError>(
            Scanner {
                values: read_back_all(tokens, n, values),
                pos: 1 + format_after(tokens, n, values)->Ok_0.bytes.len(),
            },
        ),
    decreases n,
{
    let total = tokens.len();
    let all = format_after(tokens, total, values)->Ok_0.bytes;
    lemma_format_grows(tokens, n, total, values);
    if n == 0 {
        assert(read_back_all(tokens, 0, values) == Seq::<Value>::empty());
    } else {
        let k = (n - 1) as nat;
        lemma_round_trip_after(tokens, k, values, input);
        lemma_format_grows(tokens, k, total, values);
        lemma_directives_prefix(tokens, k, total);
        lemma_directives_prefix(tokens, n, total);
        let before = format_after(tokens, k, values)->Ok_0;
        let after = format_after(tokens, n, values)->Ok_0;
        let token = tokens[k as int];
        let pos = 1 + before.bytes.len();
        let seen = read_back_all(tokens, k, values);
        assert(format_after(tokens, n, values) == format_step(before, token, values));
        match token {
            Token::Literal(b) => {
                assert(after.bytes == before.bytes.push(b));
                assert(all.subrange(0, after.bytes.len() as int)[before.bytes.len() as int] == b);
                assert(input[pos as int] == input.subrange(1, input.len() as int)[pos - 1]);
                assert(read_back_all(tokens, n, values) == seen);
            },
            Token::Opaque => {},
            Token::Skip => {},
            _ => {
                let value = values[before.used as int];
                let written = spec_encode(token, value)->Ok_0;
                assert(after.bytes == before.bytes + written);
                assert(directives_after(tokens, n) == directives_after(tokens, k).push(token));
                assert(directives_after(tokens, n)[before.used as int] == token);
                assert(directives(tokens).subrange(
                    0,
                    directives_after(tokens, n).len() as int,
                )[before.used as int] == directives(tokens)[before.used as int]);
                assert(directives(tokens)[before.used as int] == token);
                assert(fits(token, value));
                assert(input.subrange(pos as int, (pos + written.len()) as int) == written) by {
                    assert(all.subrange(0, after.bytes.len() as int) == after.bytes);
                    assert forall|i: int| 0 <= i < written.len() implies input.subrange(
                        pos as int,
                        (pos + written.len()) as int,
                    )[i] == written[i] by {
                        assert(input[pos + i] == input.subrange(1, input.len() as int)[pos + i
                            - 1]);
                        assert(all[before.bytes.len() + i] == all.subrange(
                            0,
                            after.bytes.len() as int,
                        )[before.bytes.len() + i]);
                        assert(after.bytes[before.bytes.len() + i] == written[i]);
                    }
                }
                if token is Rest {
                    assert(n == total);
                }
                lemma_read_back(token, value, seen, input, pos as nat);
                assert(read_back_all(tokens, n, values) == seen.push(read_back(token, value)));
            },
        }
    }
}

/// The directives among the first elements are the first of all directives.
pub proof fn lemma_directives_prefix(tokens: Seq<Token>, n: nat, m: nat)
    requires
        n <= m <= tokens.len(),
    ensures
        directives_after(tokens, n).len() <= directives_after(tokens, m).len(),
        directives_after(tokens, m).subrange(0, directives_after(tokens, n).len() as int)
            == directives_after(tokens, n),
    decreases m,
{
    if n < m {
        lemma_directives_prefix(tokens, n, (m - 1) as nat);
    }
}

/// Reading what was written gives the values back.
///
/// For every template and every list of values from which a message can be
/// assembled, with one value for each directive, arrays that fit their length
/// fields and `%*` nowhere but at the end: reading the message, behind any
/// status byte, with the same template succeeds, and gives each value as
/// [`read_back`] describes it.
pub proof fn lemma_scan_of_format(template: Seq<char>, values: Seq<Value>, status: u8)
    requires
        spec_format_query(template, values) is Ok,
        directives(spec_parse_template(template)->Ok_0).len() == values.len(),
        forall|j: int|
            0 <= j < values.len() ==> fits(
                #[trigger] directives(spec_parse_template(template)->Ok_0)[j],
                values[j],
            ),
        forall|i: int|
            0 <= i < spec_parse_template(template)->Ok_0.len() - 1 ==> !(
            #[trigger] spec_parse_template(template)->Ok_0[i] is Rest),
    ensures
        spec_scan_query(seq![status] + spec_format_query(template, values)->Ok_0, template) == Ok::<
            Seq<Value>,
            QueryError,
        >(
            Seq::new(
                values.len(),
                |j: int| read_back(directives(spec_parse_template(template)->Ok_0)[j], values[j]),
            ),
        ),
{
    let tokens = spec_parse_template(template)->Ok_0;
    let bytes = spec_format_query(template, values)->Ok_0;
    let input = seq![status] + bytes;
    assert(input.subrange(1, input.len() as int) == bytes);
    lemma_round_trip_after(tokens, tokens.len(), values, input);
    assert(read_back_all(tokens, tokens.len(), values) == Seq::new(
        values.len(),
        |j: int| read_back(directives(tokens)[j], values[j]),
    ));
}

/// Reading what was written gives the same values, where each value is in
/// the range of its directive: a number within the size of `%b` (unsigned),
/// `%w`, `%d`, `%q` (signed), up to 99 for `%B` and 9999 for `%W`, an array
/// that fits the length field of `%x` or `%z`, any array for a closing `%*`.
/// A value written by `%s` comes back with its closing zero byte and is
/// never in range.
pub proof fn lemma_scan_of_format_exact(template: Seq<char>, values: Seq<Value>, status: u8)
    requires
        spec_parse_template(template) is Ok,
        directives(spec_parse_template(template)->Ok_0).len() == values.len(),
        forall|i: int|
            0 <= i < spec_parse_template(template)->Ok_0.len() ==> !(
            #[trigger] spec_parse_template(template)->Ok_0[i] is Skip) && !(spec_parse_template(
                template,
            )->Ok_0[i] is Opaque),
        forall|j: int|
            0 <= j < values.len() ==> unchanged(
                #[trigger] directives(spec_parse_template(template)->Ok_0)[j],
                values[j],
            ),
        forall|i: int|
            0 <= i < spec_parse_template(template)->Ok_0.len() - 1 ==> !(
            #[trigger] spec_parse_template(template)->Ok_0[i] is Rest),
    ensures
        spec_format_query(template, values) is Ok,
        spec_scan_query(seq![status] + spec_format_query(template, values)->Ok_0, template) == Ok::<
            Seq<Value>,
            QueryError,
        >(values),
{
    let tokens = spec_parse_template(template)->Ok_0;
    lemma_format_succeeds(tokens, tokens.len(), values);
    assert forall|j: int| 0 <= j < values.len() implies fits(
        #[trigger] directives(tokens)[j],
        values[j],
    ) && read_back(directives(tokens)[j], values[j]) == values[j] by {
        lemma_unchanged(directives(tokens)[j], values[j]);
    }
    lemma_scan_of_format(template, values, status);
    assert(Seq::new(values.len(), |j: int| read_back(directives(tokens)[j], values[j]))
        == values);
}

proof fn lemma_format_succeeds(tokens: Seq<Token>, n: nat, values: Seq<Value>)
    requires
        n <= tokens.len(),
        directives(tokens).len() == values.len(),
        forall|i: int|
            0 <= i < tokens.len() ==> !(#[trigger] tokens[i] is Skip) && !(tokens[i] is Opaque),
        forall|j: int|
            0 <= j < values.len() ==> unchanged(#[trigger] directives(tokens)[j], values[j]),
    ensures
        format_after(tokens, n, values) is Ok,
        format_after(tokens, n, values)->Ok_0.used == directives_after(tokens, n).len(),
    decreases n,
{
    if n > 0 {
        let k = (n - 1) as nat;
        lemma_format_succeeds(tokens, k, values);
        lemma_directives_prefix(tokens, n, tokens.len());
        let before = format_after(tokens, k, values)->Ok_0;
        let token = tokens[k as int];
        if takes_value(token) {
            assert(directives_after(tokens, n) == directives_after(tokens, k).push(token));
            assert(directives_after(tokens, n)[before.used as int] == token);
            assert(directives(tokens).subrange(
                0,
                directives_after(tokens, n).len() as int,
            )[before.used as int] == directives(tokens)[before.used as int]);
            assert(directives(tokens)[before.used as int] == token);
            lemma_unchanged(token, values[before.used as int]);
        } else {
            assert(token is Literal);
        }
    }
}

} // verus!
