//! The character tables of the title model.
use vstd::prelude::*;

verus! {

/// The full-width form of a character of ASCII or of half-width kana.
pub open spec fn spec_mappings_jp(c: char) -> Option<char> {
    match c {
        '!' => Some('\u{ff01}'),
        '"' => Some('\u{ff02}'),
        '#' => Some('\u{ff03}'),
        '$' => Some('\u{ff04}'),
        '%' => Some('\u{ff05}'),
        '&' => Some('\u{ff06}'),
        '\'' => Some('\u{ff07}'),
        ')' => Some('\u{ff09}'),
        '*' => Some('\u{ff0a}'),
        '+' => Some('\u{ff0b}'),
        ',' => Some('\u{ff0c}'),
        '-' => Some('\u{ff0d}'),
        '.' => Some('\u{ff0e}'),
        '/' => Some('\u{ff0f}'),
        ':' => Some('\u{ff1a}'),
        ';' => Some('\u{ff1b}'),
        '<' => Some('\u{ff1c}'),
        '=' => Some('\u{ff1d}'),
        '>' => Some('\u{ff1e}'),
        '?' => Some('\u{ff1f}'),
        '@' => Some('\u{ff20}'),
        'A' => Some('\u{ff21}'),
        'B' => Some('\u{ff22}'),
        'C' => Some('\u{ff23}'),
        'D' => Some('\u{ff24}'),
        'E' => Some('\u{ff25}'),
        'F' => Some('\u{ff26}'),
        'G' => Some('\u{ff27}'),
        'H' => Some('\u{ff28}'),
        'I' => Some('\u{ff29}'),
        'J' => Some('\u{ff2a}'),
        'K' => Some('\u{ff2b}'),
        'L' => Some('\u{ff2c}'),
        'M' => Some('\u{ff2d}'),
        'N' => Some('\u{ff2e}'),
        'O' => Some('\u{ff2f}'),
        'P' => Some('\u{ff30}'),
        'Q' => Some('\u{ff31}'),
        'R' => Some('\u{ff32}'),
        'S' => Some('\u{ff33}'),
        'T' => Some('\u{ff34}'),
        'U' => Some('\u{ff35}'),
        'V' => Some('\u{ff36}'),
        'W' => Some('\u{ff37}'),
        'X' => Some('\u{ff38}'),
        'Y' => Some('\u{ff39}'),
        'Z' => Some('\u{ff3a}'),
        '[' => Some('\u{ff3b}'),
        '\\' => Some('\u{ff3c}'),
        ']' => Some('\u{ff3d}'),
        '^' => Some('\u{ff3e}'),
        '_' => Some('\u{ff3f}'),
        '`' => Some('\u{ff40}'),
        'a' => Some('\u{ff41}'),
        'b' => Some('\u{ff42}'),
        'c' => Some('\u{ff43}'),
        'd' => Some('\u{ff44}'),
        'e' => Some('\u{ff45}'),
        'f' => Some('\u{ff46}'),
        'g' => Some('\u{ff47}'),
        'h' => Some('\u{ff48}'),
        'i' => Some('\u{ff49}'),
        'j' => Some('\u{ff4a}'),
        'k' => Some('\u{ff4b}'),
        'l' => Some('\u{ff4c}'),
        'm' => Some('\u{ff4d}'),
        'n' => Some('\u{ff4e}'),
        'o' => Some('\u{ff4f}'),
        'p' => Some('\u{ff50}'),
        'q' => Some('\u{ff51}'),
        'r' => Some('\u{ff52}'),
        's' => Some('\u{ff53}'),
        't' => Some('\u{ff54}'),
        'u' => Some('\u{ff55}'),
        'v' => Some('\u{ff56}'),
        'w' => Some('\u{ff57}'),
        'x' => Some('\u{ff58}'),
        'y' => Some('\u{ff59}'),
        'z' => Some('\u{ff5a}'),
        '{' => Some('\u{ff5b}'),
        '|' => Some('\u{ff5c}'),
        '}' => Some('\u{ff5d}'),
        '~' => Some('\u{ff5e}'),
        ' ' => Some('\u{3000}'),
        '0' => Some('\u{ff10}'),
        '1' => Some('\u{ff11}'),
        '2' => Some('\u{ff12}'),
        '3' => Some('\u{ff13}'),
        '4' => Some('\u{ff14}'),
        '5' => Some('\u{ff15}'),
        '6' => Some('\u{ff16}'),
        '7' => Some('\u{ff17}'),
        '8' => Some('\u{ff18}'),
        '9' => Some('\u{ff19}'),
        '\u{ff67}' => Some('\u{30a1}'),
        '\u{ff71}' => Some('\u{30a2}'),
        '\u{ff68}' => Some('\u{30a3}'),
        '\u{ff72}' => Some('\u{30a4}'),
        '\u{ff69}' => Some('\u{30a5}'),
        '\u{ff73}' => Some('\u{30a6}'),
        '\u{ff6a}' => Some('\u{30a7}'),
        '\u{ff74}' => Some('\u{30a8}'),
        '\u{ff6b}' => Some('\u{30a9}'),
        '\u{ff75}' => Some('\u{30aa}'),
        '\u{ff76}' => Some('\u{30ab}'),
        '\u{ff77}' => Some('\u{30ad}'),
        '\u{ff78}' => Some('\u{30af}'),
        '\u{ff79}' => Some('\u{30b1}'),
        '\u{ff7a}' => Some('\u{30b3}'),
        '\u{ff7b}' => Some('\u{30b5}'),
        '\u{ff7c}' => Some('\u{30b7}'),
        '\u{ff7d}' => Some('\u{30b9}'),
        '\u{ff7e}' => Some('\u{30bb}'),
        '\u{ff7f}' => Some('\u{30bd}'),
        '\u{ff80}' => Some('\u{30bf}'),
        '\u{ff81}' => Some('\u{30c1}'),
        '\u{ff6f}' => Some('\u{30c3}'),
        '\u{ff82}' => Some('\u{30c4}'),
        '\u{ff83}' => Some('\u{30c6}'),
        '\u{ff84}' => Some('\u{30c8}'),
        '\u{ff85}' => Some('\u{30ca}'),
        '\u{ff86}' => Some('\u{30cb}'),
        '\u{ff87}' => Some('\u{30cc}'),
        '\u{ff88}' => Some('\u{30cd}'),
        '\u{ff89}' => Some('\u{30ce}'),
        '\u{ff8a}' => Some('\u{30cf}'),
        '\u{ff8b}' => Some('\u{30d2}'),
        '\u{ff8c}' => Some('\u{30d5}'),
        '\u{ff8d}' => Some('\u{30d8}'),
        '\u{ff8e}' => Some('\u{30db}'),
        '\u{ff8f}' => Some('\u{30de}'),
        '\u{ff90}' => Some('\u{30df}'),
        '\u{ff91}' => Some('\u{30e0}'),
        '\u{ff92}' => Some('\u{30e1}'),
        '\u{ff93}' => Some('\u{30e2}'),
        '\u{ff6c}' => Some('\u{30e3}'),
        '\u{ff94}' => Some('\u{30e4}'),
        '\u{ff6d}' => Some('\u{30e5}'),
        '\u{ff95}' => Some('\u{30e6}'),
        '\u{ff6e}' => Some('\u{30e7}'),
        '\u{ff96}' => Some('\u{30e8}'),
        '\u{ff97}' => Some('\u{30e9}'),
        '\u{ff98}' => Some('\u{30ea}'),
        '\u{ff99}' => Some('\u{30eb}'),
        '\u{ff9a}' => Some('\u{30ec}'),
        '\u{ff9b}' => Some('\u{30ed}'),
        '\u{ff9c}' => Some('\u{30ef}'),
        '\u{ff66}' => Some('\u{30f2}'),
        '\u{ff9d}' => Some('\u{30f3}'),
        '\u{ff70}' => Some('\u{30fc}'),
        '\u{30ee}' => Some('\u{30ee}'),
        '\u{30f0}' => Some('\u{30f0}'),
        '\u{30f1}' => Some('\u{30f1}'),
        '\u{30f5}' => Some('\u{30f5}'),
        '\u{30f6}' => Some('\u{30f6}'),
        '\u{30fd}' => Some('\u{30fd}'),
        '\u{30fe}' => Some('\u{30fe}'),
        '\u{ff65}' => Some('\u{30fb}'),
        '\u{ff62}' => Some('\u{300c}'),
        '\u{ff63}' => Some('\u{300d}'),
        '\u{ff61}' => Some('\u{3002}'),
        '\u{ff64}' => Some('\u{3001}'),
        _ => None,
    }
}

/// The full-width form of a character of ASCII or of half-width kana.
pub fn mappings_jp(c: char) -> (r: Option<char>)
    ensures
        r == spec_mappings_jp(c),
{
    match c {
        '!' => Some('\u{ff01}'),
        '"' => Some('\u{ff02}'),
        '#' => Some('\u{ff03}'),
        '$' => Some('\u{ff04}'),
        '%' => Some('\u{ff05}'),
        '&' => Some('\u{ff06}'),
        '\'' => Some('\u{ff07}'),
        ')' => Some('\u{ff09}'),
        '*' => Some('\u{ff0a}'),
        '+' => Some('\u{ff0b}'),
        ',' => Some('\u{ff0c}'),
        '-' => Some('\u{ff0d}'),
        '.' => Some('\u{ff0e}'),
        '/' => Some('\u{ff0f}'),
        ':' => Some('\u{ff1a}'),
        ';' => Some('\u{ff1b}'),
        '<' => Some('\u{ff1c}'),
        '=' => Some('\u{ff1d}'),
        '>' => Some('\u{ff1e}'),
        '?' => Some('\u{ff1f}'),
        '@' => Some('\u{ff20}'),
        'A' => Some('\u{ff21}'),
        'B' => Some('\u{ff22}'),
        'C' => Some('\u{ff23}'),
        'D' => Some('\u{ff24}'),
        'E' => Some('\u{ff25}'),
        'F' => Some('\u{ff26}'),
        'G' => Some('\u{ff27}'),
        'H' => Some('\u{ff28}'),
        'I' => Some('\u{ff29}'),
        'J' => Some('\u{ff2a}'),
        'K' => Some('\u{ff2b}'),
        'L' => Some('\u{ff2c}'),
        'M' => Some('\u{ff2d}'),
        'N' => Some('\u{ff2e}'),
        'O' => Some('\u{ff2f}'),
        'P' => Some('\u{ff30}'),
        'Q' => Some('\u{ff31}'),
        'R' => Some('\u{ff32}'),
        'S' => Some('\u{ff33}'),
        'T' => Some('\u{ff34}'),
        'U' => Some('\u{ff35}'),
        'V' => Some('\u{ff36}'),
        'W' => Some('\u{ff37}'),
        'X' => Some('\u{ff38}'),
        'Y' => Some('\u{ff39}'),
        'Z' => Some('\u{ff3a}'),
        '[' => Some('\u{ff3b}'),
        '\\' => Some('\u{ff3c}'),
        ']' => Some('\u{ff3d}'),
        '^' => Some('\u{ff3e}'),
        '_' => Some('\u{ff3f}'),
        '`' => Some('\u{ff40}'),
        'a' => Some('\u{ff41}'),
        'b' => Some('\u{ff42}'),
        'c' => Some('\u{ff43}'),
        'd' => Some('\u{ff44}'),
        'e' => Some('\u{ff45}'),
        'f' => Some('\u{ff46}'),
        'g' => Some('\u{ff47}'),
        'h' => Some('\u{ff48}'),
        'i' => Some('\u{ff49}'),
        'j' => Some('\u{ff4a}'),
        'k' => Some('\u{ff4b}'),
        'l' => Some('\u{ff4c}'),
        'm' => Some('\u{ff4d}'),
        'n' => Some('\u{ff4e}'),
        'o' => Some('\u{ff4f}'),
        'p' => Some('\u{ff50}'),
        'q' => Some('\u{ff51}'),
        'r' => Some('\u{ff52}'),
        's' => Some('\u{ff53}'),
        't' => Some('\u{ff54}'),
        'u' => Some('\u{ff55}'),
        'v' => Some('\u{ff56}'),
        'w' => Some('\u{ff57}'),
        'x' => Some('\u{ff58}'),
        'y' => Some('\u{ff59}'),
        'z' => Some('\u{ff5a}'),
        '{' => Some('\u{ff5b}'),
        '|' => Some('\u{ff5c}'),
        '}' => Some('\u{ff5d}'),
        '~' => Some('\u{ff5e}'),
        ' ' => Some('\u{3000}'),
        '0' => Some('\u{ff10}'),
        '1' => Some('\u{ff11}'),
        '2' => Some('\u{ff12}'),
        '3' => Some('\u{ff13}'),
        '4' => Some('\u{ff14}'),
        '5' => Some('\u{ff15}'),
        '6' => Some('\u{ff16}'),
        '7' => Some('\u{ff17}'),
        '8' => Some('\u{ff18}'),
        '9' => Some('\u{ff19}'),
        '\u{ff67}' => Some('\u{30a1}'),
        '\u{ff71}' => Some('\u{30a2}'),
        '\u{ff68}' => Some('\u{30a3}'),
        '\u{ff72}' => Some('\u{30a4}'),
        '\u{ff69}' => Some('\u{30a5}'),
        '\u{ff73}' => Some('\u{30a6}'),
        '\u{ff6a}' => Some('\u{30a7}'),
        '\u{ff74}' => Some('\u{30a8}'),
        '\u{ff6b}' => Some('\u{30a9}'),
        '\u{ff75}' => Some('\u{30aa}'),
        '\u{ff76}' => Some('\u{30ab}'),
        '\u{ff77}' => Some('\u{30ad}'),
        '\u{ff78}' => Some('\u{30af}'),
        '\u{ff79}' => Some('\u{30b1}'),
        '\u{ff7a}' => Some('\u{30b3}'),
        '\u{ff7b}' => Some('\u{30b5}'),
        '\u{ff7c}' => Some('\u{30b7}'),
        '\u{ff7d}' => Some('\u{30b9}'),
        '\u{ff7e}' => Some('\u{30bb}'),
        '\u{ff7f}' => Some('\u{30bd}'),
        '\u{ff80}' => Some('\u{30bf}'),
        '\u{ff81}' => Some('\u{30c1}'),
        '\u{ff6f}' => Some('\u{30c3}'),
        '\u{ff82}' => Some('\u{30c4}'),
        '\u{ff83}' => Some('\u{30c6}'),
        '\u{ff84}' => Some('\u{30c8}'),
        '\u{ff85}' => Some('\u{30ca}'),
        '\u{ff86}' => Some('\u{30cb}'),
        '\u{ff87}' => Some('\u{30cc}'),
        '\u{ff88}' => Some('\u{30cd}'),
        '\u{ff89}' => Some('\u{30ce}'),
        '\u{ff8a}' => Some('\u{30cf}'),
        '\u{ff8b}' => Some('\u{30d2}'),
        '\u{ff8c}' => Some('\u{30d5}'),
        '\u{ff8d}' => Some('\u{30d8}'),
        '\u{ff8e}' => Some('\u{30db}'),
        '\u{ff8f}' => Some('\u{30de}'),
        '\u{ff90}' => Some('\u{30df}'),
        '\u{ff91}' => Some('\u{30e0}'),
        '\u{ff92}' => Some('\u{30e1}'),
        '\u{ff93}' => Some('\u{30e2}'),
        '\u{ff6c}' => Some('\u{30e3}'),
        '\u{ff94}' => Some('\u{30e4}'),
        '\u{ff6d}' => Some('\u{30e5}'),
        '\u{ff95}' => Some('\u{30e6}'),
        '\u{ff6e}' => Some('\u{30e7}'),
        '\u{ff96}' => Some('\u{30e8}'),
        '\u{ff97}' => Some('\u{30e9}'),
        '\u{ff98}' => Some('\u{30ea}'),
        '\u{ff99}' => Some('\u{30eb}'),
        '\u{ff9a}' => Some('\u{30ec}'),
        '\u{ff9b}' => Some('\u{30ed}'),
        '\u{ff9c}' => Some('\u{30ef}'),
        '\u{ff66}' => Some('\u{30f2}'),
        '\u{ff9d}' => Some('\u{30f3}'),
        '\u{ff70}' => Some('\u{30fc}'),
        '\u{30ee}' => Some('\u{30ee}'),
        '\u{30f0}' => Some('\u{30f0}'),
        '\u{30f1}' => Some('\u{30f1}'),
        '\u{30f5}' => Some('\u{30f5}'),
        '\u{30f6}' => Some('\u{30f6}'),
        '\u{30fd}' => Some('\u{30fd}'),
        '\u{30fe}' => Some('\u{30fe}'),
        '\u{ff65}' => Some('\u{30fb}'),
        '\u{ff62}' => Some('\u{300c}'),
        '\u{ff63}' => Some('\u{300d}'),
        '\u{ff61}' => Some('\u{3002}'),
        '\u{ff64}' => Some('\u{3001}'),
        _ => None,
    }
}

/// The Latin transliteration of a Cyrillic letter.
pub open spec fn spec_mappings_ru(c: char) -> Option<&'static str> {
    match c {
        '\u{430}' => Some("a"),
        '\u{431}' => Some("b"),
        '\u{432}' => Some("v"),
        '\u{433}' => Some("g"),
        '\u{434}' => Some("d"),
        '\u{435}' => Some("e"),
        '\u{451}' => Some("e"),
        '\u{436}' => Some("zh"),
        '\u{437}' => Some("z"),
        '\u{438}' => Some("i"),
        '\u{439}' => Some("i"),
        '\u{43a}' => Some("k"),
        '\u{43b}' => Some("l"),
        '\u{43c}' => Some("m"),
        '\u{43d}' => Some("n"),
        '\u{43e}' => Some("o"),
        '\u{43f}' => Some("p"),
        '\u{440}' => Some("r"),
        '\u{441}' => Some("s"),
        '\u{442}' => Some("t"),
        '\u{443}' => Some("u"),
        '\u{444}' => Some("f"),
        '\u{445}' => Some("kh"),
        '\u{446}' => Some("tc"),
        '\u{447}' => Some("ch"),
        '\u{448}' => Some("sh"),
        '\u{449}' => Some("shch"),
        '\u{44a}' => Some(""),
        '\u{44b}' => Some("y"),
        '\u{44c}' => Some("'"),
        '\u{44d}' => Some("e"),
        '\u{44e}' => Some("iu"),
        '\u{44f}' => Some("ia"),
        '\u{410}' => Some("A"),
        '\u{411}' => Some("B"),
        '\u{412}' => Some("V"),
        '\u{413}' => Some("G"),
        '\u{414}' => Some("D"),
        '\u{415}' => Some("E"),
        '\u{401}' => Some("E"),
        '\u{416}' => Some("Zh"),
        '\u{417}' => Some("Z"),
        '\u{418}' => Some("I"),
        '\u{419}' => Some("I"),
        '\u{41a}' => Some("K"),
        '\u{41b}' => Some("L"),
        '\u{41c}' => Some("M"),
        '\u{41d}' => Some("N"),
        '\u{41e}' => Some("O"),
        '\u{41f}' => Some("P"),
        '\u{420}' => Some("R"),
        '\u{421}' => Some("S"),
        '\u{422}' => Some("T"),
        '\u{423}' => Some("U"),
        '\u{424}' => Some("F"),
        '\u{425}' => Some("Kh"),
        '\u{426}' => Some("Tc"),
        '\u{427}' => Some("Ch"),
        '\u{428}' => Some("Sh"),
        '\u{429}' => Some("Shch"),
        '\u{42a}' => Some(""),
        '\u{42b}' => Some("Y"),
        '\u{42c}' => Some("'"),
        '\u{42d}' => Some("E"),
        '\u{42e}' => Some("Iu"),
        '\u{42f}' => Some("Ia"),
        _ => None,
    }
}

/// The Latin transliteration of a Cyrillic letter.
pub fn mappings_ru(c: char) -> (r: Option<&'static str>)
    ensures
        r == spec_mappings_ru(c),
{
    match c {
        '\u{430}' => Some("a"),
        '\u{431}' => Some("b"),
        '\u{432}' => Some("v"),
        '\u{433}' => Some("g"),
        '\u{434}' => Some("d"),
        '\u{435}' => Some("e"),
        '\u{451}' => Some("e"),
        '\u{436}' => Some("zh"),
        '\u{437}' => Some("z"),
        '\u{438}' => Some("i"),
        '\u{439}' => Some("i"),
        '\u{43a}' => Some("k"),
        '\u{43b}' => Some("l"),
        '\u{43c}' => Some("m"),
        '\u{43d}' => Some("n"),
        '\u{43e}' => Some("o"),
        '\u{43f}' => Some("p"),
        '\u{440}' => Some("r"),
        '\u{441}' => Some("s"),
        '\u{442}' => Some("t"),
        '\u{443}' => Some("u"),
        '\u{444}' => Some("f"),
        '\u{445}' => Some("kh"),
        '\u{446}' => Some("tc"),
        '\u{447}' => Some("ch"),
        '\u{448}' => Some("sh"),
        '\u{449}' => Some("shch"),
        '\u{44a}' => Some(""),
        '\u{44b}' => Some("y"),
        '\u{44c}' => Some("'"),
        '\u{44d}' => Some("e"),
        '\u{44e}' => Some("iu"),
        '\u{44f}' => Some("ia"),
        '\u{410}' => Some("A"),
        '\u{411}' => Some("B"),
        '\u{412}' => Some("V"),
        '\u{413}' => Some("G"),
        '\u{414}' => Some("D"),
        '\u{415}' => Some("E"),
        '\u{401}' => Some("E"),
        '\u{416}' => Some("Zh"),
        '\u{417}' => Some("Z"),
        '\u{418}' => Some("I"),
        '\u{419}' => Some("I"),
        '\u{41a}' => Some("K"),
        '\u{41b}' => Some("L"),
        '\u{41c}' => Some("M"),
        '\u{41d}' => Some("N"),
        '\u{41e}' => Some("O"),
        '\u{41f}' => Some("P"),
        '\u{420}' => Some("R"),
        '\u{421}' => Some("S"),
        '\u{422}' => Some("T"),
        '\u{423}' => Some("U"),
        '\u{424}' => Some("F"),
        '\u{425}' => Some("Kh"),
        '\u{426}' => Some("Tc"),
        '\u{427}' => Some("Ch"),
        '\u{428}' => Some("Sh"),
        '\u{429}' => Some("Shch"),
        '\u{42a}' => Some(""),
        '\u{42b}' => Some("Y"),
        '\u{42c}' => Some("'"),
        '\u{42d}' => Some("E"),
        '\u{42e}' => Some("Iu"),
        '\u{42f}' => Some("Ia"),
        _ => None,
    }
}

/// The two-letter form of a German letter.
pub open spec fn spec_mappings_de(c: char) -> Option<&'static str> {
    match c {
        '\u{c4}' => Some("Ae"),
        '\u{e4}' => Some("ae"),
        '\u{d6}' => Some("Oe"),
        '\u{f6}' => Some("oe"),
        '\u{dc}' => Some("Ue"),
        '\u{fc}' => Some("ue"),
        '\u{df}' => Some("ss"),
        _ => None,
    }
}

/// The two-letter form of a German letter.
pub fn mappings_de(c: char) -> (r: Option<&'static str>)
    ensures
        r == spec_mappings_de(c),
{
    match c {
        '\u{c4}' => Some("Ae"),
        '\u{e4}' => Some("ae"),
        '\u{d6}' => Some("Oe"),
        '\u{f6}' => Some("oe"),
        '\u{dc}' => Some("Ue"),
        '\u{fc}' => Some("ue"),
        '\u{df}' => Some("ss"),
        _ => None,
    }
}

/// The half-width form of a character of full-width ASCII, of katakana or of hiragana.
pub open spec fn spec_mappings_hw(c: char) -> Option<&'static str> {
    match c {
        '\u{ff0d}' => Some("-"),
        '\u{ff70}' => Some("-"),
        '\u{30a1}' => Some("\u{ff67}"),
        '\u{30a2}' => Some("\u{ff71}"),
        '\u{30a3}' => Some("\u{ff68}"),
        '\u{30a4}' => Some("\u{ff72}"),
        '\u{30a5}' => Some("\u{ff69}"),
        '\u{30a6}' => Some("\u{ff73}"),
        '\u{30a7}' => Some("\u{ff6a}"),
        '\u{30a8}' => Some("\u{ff74}"),
        '\u{30a9}' => Some("\u{ff6b}"),
        '\u{30aa}' => Some("\u{ff75}"),
        '\u{30ab}' => Some("\u{ff76}"),
        '\u{30ac}' => Some("\u{ff76}\u{ff9e}"),
        '\u{30ad}' => Some("\u{ff77}"),
        '\u{30ae}' => Some("\u{ff77}\u{ff9e}"),
        '\u{30af}' => Some("\u{ff78}"),
        '\u{30b0}' => Some("\u{ff78}\u{ff9e}"),
        '\u{30b1}' => Some("\u{ff79}"),
        '\u{30b2}' => Some("\u{ff79}\u{ff9e}"),
        '\u{30b3}' => Some("\u{ff7a}"),
        '\u{30b4}' => Some("\u{ff7a}\u{ff9e}"),
        '\u{30b5}' => Some("\u{ff7b}"),
        '\u{30b6}' => Some("\u{ff7b}\u{ff9e}"),
        '\u{30b7}' => Some("\u{ff7c}"),
        '\u{30b8}' => Some("\u{ff7c}\u{ff9e}"),
        '\u{30b9}' => Some("\u{ff7d}"),
        '\u{30ba}' => Some("\u{ff7d}\u{ff9e}"),
        '\u{30bb}' => Some("\u{ff7e}"),
        '\u{30bc}' => Some("\u{ff7e}\u{ff9e}"),
        '\u{30bd}' => Some("\u{ff7f}"),
        '\u{30be}' => Some("\u{ff7f}\u{ff9e}"),
        '\u{30bf}' => Some("\u{ff80}"),
        '\u{30c0}' => Some("\u{ff80}\u{ff9e}"),
        '\u{30c1}' => Some("\u{ff81}"),
        '\u{30c2}' => Some("\u{ff81}\u{ff9e}"),
        '\u{30c3}' => Some("\u{ff6f}"),
        '\u{30c4}' => Some("\u{ff82}"),
        '\u{30c5}' => Some("\u{ff82}\u{ff9e}"),
        '\u{30c6}' => Some("\u{ff83}"),
        '\u{30c7}' => Some("\u{ff83}\u{ff9e}"),
        '\u{30c8}' => Some("\u{ff84}"),
        '\u{30c9}' => Some("\u{ff84}\u{ff9e}"),
        '\u{30ca}' => Some("\u{ff85}"),
        '\u{30cb}' => Some("\u{ff86}"),
        '\u{30cc}' => Some("\u{ff87}"),
        '\u{30cd}' => Some("\u{ff88}"),
        '\u{30ce}' => Some("\u{ff89}"),
        '\u{30cf}' => Some("\u{ff8a}"),
        '\u{30d0}' => Some("\u{ff8a}\u{ff9e}"),
        '\u{30d1}' => Some("\u{ff8a}\u{ff9f}"),
        '\u{30d2}' => Some("\u{ff8b}"),
        '\u{30d3}' => Some("\u{ff8b}\u{ff9e}"),
        '\u{30d4}' => Some("\u{ff8b}\u{ff9f}"),
        '\u{30d5}' => Some("\u{ff8c}"),
        '\u{30d6}' => Some("\u{ff8c}\u{ff9e}"),
        '\u{30d7}' => Some("\u{ff8c}\u{ff9f}"),
        '\u{30d8}' => Some("\u{ff8d}"),
        '\u{30d9}' => Some("\u{ff8d}\u{ff9e}"),
        '\u{30da}' => Some("\u{ff8d}\u{ff9f}"),
        '\u{30db}' => Some("\u{ff8e}"),
        '\u{30dc}' => Some("\u{ff8e}\u{ff9e}"),
        '\u{30dd}' => Some("\u{ff8e}\u{ff9f}"),
        '\u{30de}' => Some("\u{ff8f}"),
        '\u{30df}' => Some("\u{ff90}"),
        '\u{30e0}' => Some("\u{ff91}"),
        '\u{30e1}' => Some("\u{ff92}"),
        '\u{30e2}' => Some("\u{ff93}"),
        '\u{30e3}' => Some("\u{ff6c}"),
        '\u{30e4}' => Some("\u{ff94}"),
        '\u{30e5}' => Some("\u{ff6d}"),
        '\u{30e6}' => Some("\u{ff95}"),
        '\u{30e7}' => Some("\u{ff6e}"),
        '\u{30e8}' => Some("\u{ff96}"),
        '\u{30e9}' => Some("\u{ff97}"),
        '\u{30ea}' => Some("\u{ff98}"),
        '\u{30eb}' => Some("\u{ff99}"),
        '\u{30ec}' => Some("\u{ff9a}"),
        '\u{30ed}' => Some("\u{ff9b}"),
        '\u{30ef}' => Some("\u{ff9c}"),
        '\u{30f2}' => Some("\u{ff66}"),
        '\u{30f3}' => Some("\u{ff9d}"),
        '\u{30fc}' => Some("-"),
        '\u{30ee}' => Some("\u{30ee}"),
        '\u{30f0}' => Some("\u{30f0}"),
        '\u{30f1}' => Some("\u{30f1}"),
        '\u{30f5}' => Some("\u{30f5}"),
        '\u{30f6}' => Some("\u{30f6}"),
        '\u{30f4}' => Some("\u{ff73}\u{ff9e}"),
        '\u{30fd}' => Some("\u{30fd}"),
        '\u{30fe}' => Some("\u{30fe}"),
        '\u{30fb}' => Some("\u{ff65}"),
        '\u{300c}' => Some("\u{ff62}"),
        '\u{300d}' => Some("\u{ff63}"),
        '\u{3002}' => Some("\u{ff61}"),
        '\u{3001}' => Some("\u{ff64}"),
        '\u{ff01}' => Some("!"),
        '\u{ff02}' => Some("\""),
        '\u{ff03}' => Some("#"),
        '\u{ff04}' => Some("$"),
        '\u{ff05}' => Some("%"),
        '\u{ff06}' => Some("&"),
        '\u{ff07}' => Some("'"),
        '\u{ff08}' => Some(""),
        '\u{ff09}' => Some(")"),
        '\u{ff0a}' => Some("*"),
        '\u{ff0b}' => Some("+"),
        '\u{ff0c}' => Some(","),
        '\u{ff0e}' => Some("."),
        '\u{ff0f}' => Some("/"),
        '\u{ff1a}' => Some(":"),
        '\u{ff1b}' => Some(";"),
        '\u{ff1c}' => Some("<"),
        '\u{ff1d}' => Some("="),
        '\u{ff1e}' => Some(">"),
        '\u{ff1f}' => Some("?"),
        '\u{ff20}' => Some("@"),
        '\u{ff21}' => Some("A"),
        '\u{ff22}' => Some("B"),
        '\u{ff23}' => Some("C"),
        '\u{ff24}' => Some("D"),
        '\u{ff25}' => Some("E"),
        '\u{ff26}' => Some("F"),
        '\u{ff27}' => Some("G"),
        '\u{ff28}' => Some("H"),
        '\u{ff29}' => Some("I"),
        '\u{ff2a}' => Some("J"),
        '\u{ff2b}' => Some("K"),
        '\u{ff2c}' => Some("L"),
        '\u{ff2d}' => Some("M"),
        '\u{ff2e}' => Some("N"),
        '\u{ff2f}' => Some("O"),
        '\u{ff30}' => Some("P"),
        '\u{ff31}' => Some("Q"),
        '\u{ff32}' => Some("R"),
        '\u{ff33}' => Some("S"),
        '\u{ff34}' => Some("T"),
        '\u{ff35}' => Some("U"),
        '\u{ff36}' => Some("V"),
        '\u{ff37}' => Some("W"),
        '\u{ff38}' => Some("X"),
        '\u{ff39}' => Some("Y"),
        '\u{ff3a}' => Some("Z"),
        '\u{ff3b}' => Some("["),
        '\u{ff3c}' => Some("\\"),
        '\u{ff3d}' => Some("]"),
        '\u{ff3e}' => Some("^"),
        '\u{ff3f}' => Some("_"),
        '\u{ff40}' => Some("`"),
        '\u{ff41}' => Some("a"),
        '\u{ff42}' => Some("b"),
        '\u{ff43}' => Some("c"),
        '\u{ff44}' => Some("d"),
        '\u{ff45}' => Some("e"),
        '\u{ff46}' => Some("f"),
        '\u{ff47}' => Some("g"),
        '\u{ff48}' => Some("h"),
        '\u{ff49}' => Some("i"),
        '\u{ff4a}' => Some("j"),
        '\u{ff4b}' => Some("k"),
        '\u{ff4c}' => Some("l"),
        '\u{ff4d}' => Some("m"),
        '\u{ff4e}' => Some("n"),
        '\u{ff4f}' => Some("o"),
        '\u{ff50}' => Some("p"),
        '\u{ff51}' => Some("q"),
        '\u{ff52}' => Some("r"),
        '\u{ff53}' => Some("s"),
        '\u{ff54}' => Some("t"),
        '\u{ff55}' => Some("u"),
        '\u{ff56}' => Some("v"),
        '\u{ff57}' => Some("w"),
        '\u{ff58}' => Some("x"),
        '\u{ff59}' => Some("y"),
        '\u{ff5a}' => Some("z"),
        '\u{ff5b}' => Some("{"),
        '\u{ff5c}' => Some("|"),
        '\u{ff5d}' => Some("}"),
        '\u{ff5e}' => Some("~"),
        '\u{3000}' => Some(" "),
        '\u{ff10}' => Some("0"),
        '\u{ff11}' => Some("1"),
        '\u{ff12}' => Some("2"),
        '\u{ff13}' => Some("3"),
        '\u{ff14}' => Some("4"),
        '\u{ff15}' => Some("5"),
        '\u{ff16}' => Some("6"),
        '\u{ff17}' => Some("7"),
        '\u{ff18}' => Some("8"),
        '\u{ff19}' => Some("9"),
        '\u{3041}' => Some("\u{ff67}"),
        '\u{3042}' => Some("\u{ff71}"),
        '\u{3043}' => Some("\u{ff68}"),
        '\u{3044}' => Some("\u{ff72}"),
        '\u{3045}' => Some("\u{ff69}"),
        '\u{3046}' => Some("\u{ff73}"),
        '\u{3047}' => Some("\u{ff6a}"),
        '\u{3048}' => Some("\u{ff74}"),
        '\u{3049}' => Some("\u{ff6b}"),
        '\u{304a}' => Some("\u{ff75}"),
        '\u{304b}' => Some("\u{ff76}"),
        '\u{304c}' => Some("\u{ff76}\u{ff9e}"),
        '\u{304d}' => Some("\u{ff77}"),
        '\u{304e}' => Some("\u{ff77}\u{ff9e}"),
        '\u{304f}' => Some("\u{ff78}"),
        '\u{3050}' => Some("\u{ff78}\u{ff9e}"),
        '\u{3051}' => Some("\u{ff79}"),
        '\u{3052}' => Some("\u{ff79}\u{ff9e}"),
        '\u{3053}' => Some("\u{ff7a}"),
        '\u{3054}' => Some("\u{ff7a}\u{ff9e}"),
        '\u{3055}' => Some("\u{ff7b}"),
        '\u{3056}' => Some("\u{ff7b}\u{ff9e}"),
        '\u{3057}' => Some("\u{ff7c}"),
        '\u{3058}' => Some("\u{ff7c}\u{ff9e}"),
        '\u{3059}' => Some("\u{ff7d}"),
        '\u{305a}' => Some("\u{ff7d}\u{ff9e}"),
        '\u{305b}' => Some("\u{ff7e}"),
        '\u{305c}' => Some("\u{ff7e}\u{ff9e}"),
        '\u{305d}' => Some("\u{ff7f}"),
        '\u{305e}' => Some("\u{ff7f}\u{ff9e}"),
        '\u{305f}' => Some("\u{ff80}"),
        '\u{3060}' => Some("\u{ff80}\u{ff9e}"),
        '\u{3061}' => Some("\u{ff81}"),
        '\u{3062}' => Some("\u{ff81}\u{ff9e}"),
        '\u{3063}' => Some("\u{ff6f}"),
        '\u{3064}' => Some("\u{ff82}"),
        '\u{3065}' => Some("\u{ff82}\u{ff9e}"),
        '\u{3066}' => Some("\u{ff83}"),
        '\u{3067}' => Some("\u{ff83}\u{ff9e}"),
        '\u{3068}' => Some("\u{ff84}"),
        '\u{3069}' => Some("\u{ff84}\u{ff9e}"),
        '\u{306a}' => Some("\u{ff85}"),
        '\u{306b}' => Some("\u{ff86}"),
        '\u{306c}' => Some("\u{ff87}"),
        '\u{306d}' => Some("\u{ff88}"),
        '\u{306e}' => Some("\u{ff89}"),
        '\u{306f}' => Some("\u{ff8a}"),
        '\u{3070}' => Some("\u{ff8a}\u{ff9e}"),
        '\u{3071}' => Some("\u{ff8a}\u{ff9f}"),
        '\u{3072}' => Some("\u{ff8b}"),
        '\u{3073}' => Some("\u{ff8b}\u{ff9e}"),
        '\u{3074}' => Some("\u{ff8b}\u{ff9f}"),
        '\u{3075}' => Some("\u{ff8c}"),
        '\u{3076}' => Some("\u{ff8c}\u{ff9e}"),
        '\u{3077}' => Some("\u{ff8c}\u{ff9f}"),
        '\u{3078}' => Some("\u{ff8d}"),
        '\u{3079}' => Some("\u{ff8d}\u{ff9e}"),
        '\u{307a}' => Some("\u{ff8d}\u{ff9f}"),
        '\u{307b}' => Some("\u{ff8e}"),
        '\u{307c}' => Some("\u{ff8e}\u{ff9e}"),
        '\u{307d}' => Some("\u{ff8e}\u{ff9f}"),
        '\u{307e}' => Some("\u{ff8f}"),
        '\u{307f}' => Some("\u{ff90}"),
        '\u{3080}' => Some("\u{ff91}"),
        '\u{3081}' => Some("\u{ff92}"),
        '\u{3082}' => Some("\u{ff93}"),
        '\u{3083}' => Some("\u{ff6c}"),
        '\u{3084}' => Some("\u{ff94}"),
        '\u{3085}' => Some("\u{ff6d}"),
        '\u{3086}' => Some("\u{ff95}"),
        '\u{3087}' => Some("\u{ff6e}"),
        '\u{3088}' => Some("\u{ff96}"),
        '\u{3089}' => Some("\u{ff97}"),
        '\u{308a}' => Some("\u{ff98}"),
        '\u{308b}' => Some("\u{ff99}"),
        '\u{308c}' => Some("\u{ff9a}"),
        '\u{308d}' => Some("\u{ff9b}"),
        '\u{308f}' => Some("\u{ff9c}"),
        '\u{3092}' => Some("\u{ff66}"),
        '\u{3093}' => Some("\u{ff9d}"),
        '\u{308e}' => Some("\u{30ee}"),
        '\u{3090}' => Some("\u{30f0}"),
        '\u{3091}' => Some("\u{30f1}"),
        '\u{3095}' => Some("\u{30f5}"),
        '\u{3096}' => Some("\u{30f6}"),
        '\u{3094}' => Some("\u{ff73}\u{ff9e}"),
        '\u{309d}' => Some("\u{30fd}"),
        '\u{309e}' => Some("\u{30fe}"),
        _ => None,
    }
}

/// The half-width form of a character of full-width ASCII, of katakana or of hiragana.
pub fn mappings_hw(c: char) -> (r: Option<&'static str>)
    ensures
        r == spec_mappings_hw(c),
{
    match c {
        '\u{ff0d}' => Some("-"),
        '\u{ff70}' => Some("-"),
        '\u{30a1}' => Some("\u{ff67}"),
        '\u{30a2}' => Some("\u{ff71}"),
        '\u{30a3}' => Some("\u{ff68}"),
        '\u{30a4}' => Some("\u{ff72}"),
        '\u{30a5}' => Some("\u{ff69}"),
        '\u{30a6}' => Some("\u{ff73}"),
        '\u{30a7}' => Some("\u{ff6a}"),
        '\u{30a8}' => Some("\u{ff74}"),
        '\u{30a9}' => Some("\u{ff6b}"),
        '\u{30aa}' => Some("\u{ff75}"),
        '\u{30ab}' => Some("\u{ff76}"),
        '\u{30ac}' => Some("\u{ff76}\u{ff9e}"),
        '\u{30ad}' => Some("\u{ff77}"),
        '\u{30ae}' => Some("\u{ff77}\u{ff9e}"),
        '\u{30af}' => Some("\u{ff78}"),
        '\u{30b0}' => Some("\u{ff78}\u{ff9e}"),
        '\u{30b1}' => Some("\u{ff79}"),
        '\u{30b2}' => Some("\u{ff79}\u{ff9e}"),
        '\u{30b3}' => Some("\u{ff7a}"),
        '\u{30b4}' => Some("\u{ff7a}\u{ff9e}"),
        '\u{30b5}' => Some("\u{ff7b}"),
        '\u{30b6}' => Some("\u{ff7b}\u{ff9e}"),
        '\u{30b7}' => Some("\u{ff7c}"),
        '\u{30b8}' => Some("\u{ff7c}\u{ff9e}"),
        '\u{30b9}' => Some("\u{ff7d}"),
        '\u{30ba}' => Some("\u{ff7d}\u{ff9e}"),
        '\u{30bb}' => Some("\u{ff7e}"),
        '\u{30bc}' => Some("\u{ff7e}\u{ff9e}"),
        '\u{30bd}' => Some("\u{ff7f}"),
        '\u{30be}' => Some("\u{ff7f}\u{ff9e}"),
        '\u{30bf}' => Some("\u{ff80}"),
        '\u{30c0}' => Some("\u{ff80}\u{ff9e}"),
        '\u{30c1}' => Some("\u{ff81}"),
        '\u{30c2}' => Some("\u{ff81}\u{ff9e}"),
        '\u{30c3}' => Some("\u{ff6f}"),
        '\u{30c4}' => Some("\u{ff82}"),
        '\u{30c5}' => Some("\u{ff82}\u{ff9e}"),
        '\u{30c6}' => Some("\u{ff83}"),
        '\u{30c7}' => Some("\u{ff83}\u{ff9e}"),
        '\u{30c8}' => Some("\u{ff84}"),
        '\u{30c9}' => Some("\u{ff84}\u{ff9e}"),
        '\u{30ca}' => Some("\u{ff85}"),
        '\u{30cb}' => Some("\u{ff86}"),
        '\u{30cc}' => Some("\u{ff87}"),
        '\u{30cd}' => Some("\u{ff88}"),
        '\u{30ce}' => Some("\u{ff89}"),
        '\u{30cf}' => Some("\u{ff8a}"),
        '\u{30d0}' => Some("\u{ff8a}\u{ff9e}"),
        '\u{30d1}' => Some("\u{ff8a}\u{ff9f}"),
        '\u{30d2}' => Some("\u{ff8b}"),
        '\u{30d3}' => Some("\u{ff8b}\u{ff9e}"),
        '\u{30d4}' => Some("\u{ff8b}\u{ff9f}"),
        '\u{30d5}' => Some("\u{ff8c}"),
        '\u{30d6}' => Some("\u{ff8c}\u{ff9e}"),
        '\u{30d7}' => Some("\u{ff8c}\u{ff9f}"),
        '\u{30d8}' => Some("\u{ff8d}"),
        '\u{30d9}' => Some("\u{ff8d}\u{ff9e}"),
        '\u{30da}' => Some("\u{ff8d}\u{ff9f}"),
        '\u{30db}' => Some("\u{ff8e}"),
        '\u{30dc}' => Some("\u{ff8e}\u{ff9e}"),
        '\u{30dd}' => Some("\u{ff8e}\u{ff9f}"),
        '\u{30de}' => Some("\u{ff8f}"),
        '\u{30df}' => Some("\u{ff90}"),
        '\u{30e0}' => Some("\u{ff91}"),
        '\u{30e1}' => Some("\u{ff92}"),
        '\u{30e2}' => Some("\u{ff93}"),
        '\u{30e3}' => Some("\u{ff6c}"),
        '\u{30e4}' => Some("\u{ff94}"),
        '\u{30e5}' => Some("\u{ff6d}"),
        '\u{30e6}' => Some("\u{ff95}"),
        '\u{30e7}' => Some("\u{ff6e}"),
        '\u{30e8}' => Some("\u{ff96}"),
        '\u{30e9}' => Some("\u{ff97}"),
        '\u{30ea}' => Some("\u{ff98}"),
        '\u{30eb}' => Some("\u{ff99}"),
        '\u{30ec}' => Some("\u{ff9a}"),
        '\u{30ed}' => Some("\u{ff9b}"),
        '\u{30ef}' => Some("\u{ff9c}"),
        '\u{30f2}' => Some("\u{ff66}"),
        '\u{30f3}' => Some("\u{ff9d}"),
        '\u{30fc}' => Some("-"),
        '\u{30ee}' => Some("\u{30ee}"),
        '\u{30f0}' => Some("\u{30f0}"),
        '\u{30f1}' => Some("\u{30f1}"),
        '\u{30f5}' => Some("\u{30f5}"),
        '\u{30f6}' => Some("\u{30f6}"),
        '\u{30f4}' => Some("\u{ff73}\u{ff9e}"),
        '\u{30fd}' => Some("\u{30fd}"),
        '\u{30fe}' => Some("\u{30fe}"),
        '\u{30fb}' => Some("\u{ff65}"),
        '\u{300c}' => Some("\u{ff62}"),
        '\u{300d}' => Some("\u{ff63}"),
        '\u{3002}' => Some("\u{ff61}"),
        '\u{3001}' => Some("\u{ff64}"),
        '\u{ff01}' => Some("!"),
        '\u{ff02}' => Some("\""),
        '\u{ff03}' => Some("#"),
        '\u{ff04}' => Some("$"),
        '\u{ff05}' => Some("%"),
        '\u{ff06}' => Some("&"),
        '\u{ff07}' => Some("'"),
        '\u{ff08}' => Some(""),
        '\u{ff09}' => Some(")"),
        '\u{ff0a}' => Some("*"),
        '\u{ff0b}' => Some("+"),
        '\u{ff0c}' => Some(","),
        '\u{ff0e}' => Some("."),
        '\u{ff0f}' => Some("/"),
        '\u{ff1a}' => Some(":"),
        '\u{ff1b}' => Some(";"),
        '\u{ff1c}' => Some("<"),
        '\u{ff1d}' => Some("="),
        '\u{ff1e}' => Some(">"),
        '\u{ff1f}' => Some("?"),
        '\u{ff20}' => Some("@"),
        '\u{ff21}' => Some("A"),
        '\u{ff22}' => Some("B"),
        '\u{ff23}' => Some("C"),
        '\u{ff24}' => Some("D"),
        '\u{ff25}' => Some("E"),
        '\u{ff26}' => Some("F"),
        '\u{ff27}' => Some("G"),
        '\u{ff28}' => Some("H"),
        '\u{ff29}' => Some("I"),
        '\u{ff2a}' => Some("J"),
        '\u{ff2b}' => Some("K"),
        '\u{ff2c}' => Some("L"),
        '\u{ff2d}' => Some("M"),
        '\u{ff2e}' => Some("N"),
        '\u{ff2f}' => Some("O"),
        '\u{ff30}' => Some("P"),
        '\u{ff31}' => Some("Q"),
        '\u{ff32}' => Some("R"),
        '\u{ff33}' => Some("S"),
        '\u{ff34}' => Some("T"),
        '\u{ff35}' => Some("U"),
        '\u{ff36}' => Some("V"),
        '\u{ff37}' => Some("W"),
        '\u{ff38}' => Some("X"),
        '\u{ff39}' => Some("Y"),
        '\u{ff3a}' => Some("Z"),
        '\u{ff3b}' => Some("["),
        '\u{ff3c}' => Some("\\"),
        '\u{ff3d}' => Some("]"),
        '\u{ff3e}' => Some("^"),
        '\u{ff3f}' => Some("_"),
        '\u{ff40}' => Some("`"),
        '\u{ff41}' => Some("a"),
        '\u{ff42}' => Some("b"),
        '\u{ff43}' => Some("c"),
        '\u{ff44}' => Some("d"),
        '\u{ff45}' => Some("e"),
        '\u{ff46}' => Some("f"),
        '\u{ff47}' => Some("g"),
        '\u{ff48}' => Some("h"),
        '\u{ff49}' => Some("i"),
        '\u{ff4a}' => Some("j"),
        '\u{ff4b}' => Some("k"),
        '\u{ff4c}' => Some("l"),
        '\u{ff4d}' => Some("m"),
        '\u{ff4e}' => Some("n"),
        '\u{ff4f}' => Some("o"),
        '\u{ff50}' => Some("p"),
        '\u{ff51}' => Some("q"),
        '\u{ff52}' => Some("r"),
        '\u{ff53}' => Some("s"),
        '\u{ff54}' => Some("t"),
        '\u{ff55}' => Some("u"),
        '\u{ff56}' => Some("v"),
        '\u{ff57}' => Some("w"),
        '\u{ff58}' => Some("x"),
        '\u{ff59}' => Some("y"),
        '\u{ff5a}' => Some("z"),
        '\u{ff5b}' => Some("{"),
        '\u{ff5c}' => Some("|"),
        '\u{ff5d}' => Some("}"),
        '\u{ff5e}' => Some("~"),
        '\u{3000}' => Some(" "),
        '\u{ff10}' => Some("0"),
        '\u{ff11}' => Some("1"),
        '\u{ff12}' => Some("2"),
        '\u{ff13}' => Some("3"),
        '\u{ff14}' => Some("4"),
        '\u{ff15}' => Some("5"),
        '\u{ff16}' => Some("6"),
        '\u{ff17}' => Some("7"),
        '\u{ff18}' => Some("8"),
        '\u{ff19}' => Some("9"),
        '\u{3041}' => Some("\u{ff67}"),
        '\u{3042}' => Some("\u{ff71}"),
        '\u{3043}' => Some("\u{ff68}"),
        '\u{3044}' => Some("\u{ff72}"),
        '\u{3045}' => Some("\u{ff69}"),
        '\u{3046}' => Some("\u{ff73}"),
        '\u{3047}' => Some("\u{ff6a}"),
        '\u{3048}' => Some("\u{ff74}"),
        '\u{3049}' => Some("\u{ff6b}"),
        '\u{304a}' => Some("\u{ff75}"),
        '\u{304b}' => Some("\u{ff76}"),
        '\u{304c}' => Some("\u{ff76}\u{ff9e}"),
        '\u{304d}' => Some("\u{ff77}"),
        '\u{304e}' => Some("\u{ff77}\u{ff9e}"),
        '\u{304f}' => Some("\u{ff78}"),
        '\u{3050}' => Some("\u{ff78}\u{ff9e}"),
        '\u{3051}' => Some("\u{ff79}"),
        '\u{3052}' => Some("\u{ff79}\u{ff9e}"),
        '\u{3053}' => Some("\u{ff7a}"),
        '\u{3054}' => Some("\u{ff7a}\u{ff9e}"),
        '\u{3055}' => Some("\u{ff7b}"),
        '\u{3056}' => Some("\u{ff7b}\u{ff9e}"),
        '\u{3057}' => Some("\u{ff7c}"),
        '\u{3058}' => Some("\u{ff7c}\u{ff9e}"),
        '\u{3059}' => Some("\u{ff7d}"),
        '\u{305a}' => Some("\u{ff7d}\u{ff9e}"),
        '\u{305b}' => Some("\u{ff7e}"),
        '\u{305c}' => Some("\u{ff7e}\u{ff9e}"),
        '\u{305d}' => Some("\u{ff7f}"),
        '\u{305e}' => Some("\u{ff7f}\u{ff9e}"),
        '\u{305f}' => Some("\u{ff80}"),
        '\u{3060}' => Some("\u{ff80}\u{ff9e}"),
        '\u{3061}' => Some("\u{ff81}"),
        '\u{3062}' => Some("\u{ff81}\u{ff9e}"),
        '\u{3063}' => Some("\u{ff6f}"),
        '\u{3064}' => Some("\u{ff82}"),
        '\u{3065}' => Some("\u{ff82}\u{ff9e}"),
        '\u{3066}' => Some("\u{ff83}"),
        '\u{3067}' => Some("\u{ff83}\u{ff9e}"),
        '\u{3068}' => Some("\u{ff84}"),
        '\u{3069}' => Some("\u{ff84}\u{ff9e}"),
        '\u{306a}' => Some("\u{ff85}"),
        '\u{306b}' => Some("\u{ff86}"),
        '\u{306c}' => Some("\u{ff87}"),
        '\u{306d}' => Some("\u{ff88}"),
        '\u{306e}' => Some("\u{ff89}"),
        '\u{306f}' => Some("\u{ff8a}"),
        '\u{3070}' => Some("\u{ff8a}\u{ff9e}"),
        '\u{3071}' => Some("\u{ff8a}\u{ff9f}"),
        '\u{3072}' => Some("\u{ff8b}"),
        '\u{3073}' => Some("\u{ff8b}\u{ff9e}"),
        '\u{3074}' => Some("\u{ff8b}\u{ff9f}"),
        '\u{3075}' => Some("\u{ff8c}"),
        '\u{3076}' => Some("\u{ff8c}\u{ff9e}"),
        '\u{3077}' => Some("\u{ff8c}\u{ff9f}"),
        '\u{3078}' => Some("\u{ff8d}"),
        '\u{3079}' => Some("\u{ff8d}\u{ff9e}"),
        '\u{307a}' => Some("\u{ff8d}\u{ff9f}"),
        '\u{307b}' => Some("\u{ff8e}"),
        '\u{307c}' => Some("\u{ff8e}\u{ff9e}"),
        '\u{307d}' => Some("\u{ff8e}\u{ff9f}"),
        '\u{307e}' => Some("\u{ff8f}"),
        '\u{307f}' => Some("\u{ff90}"),
        '\u{3080}' => Some("\u{ff91}"),
        '\u{3081}' => Some("\u{ff92}"),
        '\u{3082}' => Some("\u{ff93}"),
        '\u{3083}' => Some("\u{ff6c}"),
        '\u{3084}' => Some("\u{ff94}"),
        '\u{3085}' => Some("\u{ff6d}"),
        '\u{3086}' => Some("\u{ff95}"),
        '\u{3087}' => Some("\u{ff6e}"),
        '\u{3088}' => Some("\u{ff96}"),
        '\u{3089}' => Some("\u{ff97}"),
        '\u{308a}' => Some("\u{ff98}"),
        '\u{308b}' => Some("\u{ff99}"),
        '\u{308c}' => Some("\u{ff9a}"),
        '\u{308d}' => Some("\u{ff9b}"),
        '\u{308f}' => Some("\u{ff9c}"),
        '\u{3092}' => Some("\u{ff66}"),
        '\u{3093}' => Some("\u{ff9d}"),
        '\u{308e}' => Some("\u{30ee}"),
        '\u{3090}' => Some("\u{30f0}"),
        '\u{3091}' => Some("\u{30f1}"),
        '\u{3095}' => Some("\u{30f5}"),
        '\u{3096}' => Some("\u{30f6}"),
        '\u{3094}' => Some("\u{ff73}\u{ff9e}"),
        '\u{309d}' => Some("\u{30fd}"),
        '\u{309e}' => Some("\u{30fe}"),
        _ => None,
    }
}

/// Whether a character may stand in a half-width title as it is.
pub open spec fn spec_allowed_hw_char(c: char) -> bool {
    match c {
        '-' | '\u{ff67}' | '\u{ff71}' | '\u{ff68}' | '\u{ff72}' | '\u{ff69}' | '\u{ff73}' |
        '\u{ff6a}' | '\u{ff74}' | '\u{ff6b}' | '\u{ff75}' | '\u{ff76}' | '\u{ff77}' |
        '\u{ff78}' | '\u{ff79}' | '\u{ff7a}' | '\u{ff7b}' | '\u{ff7c}' | '\u{ff7d}' |
        '\u{ff7e}' | '\u{ff7f}' | '\u{ff80}' | '\u{ff81}' | '\u{ff6f}' | '\u{ff82}' |
        '\u{ff83}' | '\u{ff84}' | '\u{ff85}' | '\u{ff86}' | '\u{ff87}' | '\u{ff88}' |
        '\u{ff89}' | '\u{ff8a}' | '\u{ff8b}' | '\u{ff8c}' | '\u{ff8d}' | '\u{ff8e}' |
        '\u{ff8f}' | '\u{ff90}' | '\u{ff91}' | '\u{ff92}' | '\u{ff93}' | '\u{ff6c}' |
        '\u{ff94}' | '\u{ff6d}' | '\u{ff95}' | '\u{ff6e}' | '\u{ff96}' | '\u{ff97}' |
        '\u{ff98}' | '\u{ff99}' | '\u{ff9a}' | '\u{ff9b}' | '\u{ff9c}' | '\u{ff66}' |
        '\u{ff9d}' | '\u{30ee}' | '\u{30f0}' | '\u{30f1}' | '\u{30f5}' | '\u{30f6}' |
        '\u{30fd}' | '\u{30fe}' | '\u{ff65}' | '\u{ff62}' | '\u{ff63}' | '\u{ff61}' |
        '\u{ff64}' | '!' | '"' | '#' | '$' | '%' | '&' | '\'' | ')' | '*' | '+' | ',' | '.' |
        '/' | ':' | ';' | '<' | '=' | '>' | '?' | '@' | 'A' | 'B' | 'C' | 'D' | 'E' | 'F' |
        'G' | 'H' | 'I' | 'J' | 'K' | 'L' | 'M' | 'N' | 'O' | 'P' | 'Q' | 'R' | 'S' | 'T' |
        'U' | 'V' | 'W' | 'X' | 'Y' | 'Z' | '[' | '\\' | ']' | '^' | '_' | '`' | 'a' | 'b' |
        'c' | 'd' | 'e' | 'f' | 'g' | 'h' | 'i' | 'j' | 'k' | 'l' | 'm' | 'n' | 'o' | 'p' |
        'q' | 'r' | 's' | 't' | 'u' | 'v' | 'w' | 'x' | 'y' | 'z' | '{' | '|' | '}' | '~' |
        ' ' | '0' | '1' | '2' | '3' | '4' | '5' | '6' | '7' | '8' | '9' => true,
        _ => false,
    }
}

/// Whether a character may stand in a half-width title as it is.
pub fn allowed_hw_char(c: char) -> (r: bool)
    ensures
        r == spec_allowed_hw_char(c),
{
    match c {
        '-' | '\u{ff67}' | '\u{ff71}' | '\u{ff68}' | '\u{ff72}' | '\u{ff69}' | '\u{ff73}' |
        '\u{ff6a}' | '\u{ff74}' | '\u{ff6b}' | '\u{ff75}' | '\u{ff76}' | '\u{ff77}' |
        '\u{ff78}' | '\u{ff79}' | '\u{ff7a}' | '\u{ff7b}' | '\u{ff7c}' | '\u{ff7d}' |
        '\u{ff7e}' | '\u{ff7f}' | '\u{ff80}' | '\u{ff81}' | '\u{ff6f}' | '\u{ff82}' |
        '\u{ff83}' | '\u{ff84}' | '\u{ff85}' | '\u{ff86}' | '\u{ff87}' | '\u{ff88}' |
        '\u{ff89}' | '\u{ff8a}' | '\u{ff8b}' | '\u{ff8c}' | '\u{ff8d}' | '\u{ff8e}' |
        '\u{ff8f}' | '\u{ff90}' | '\u{ff91}' | '\u{ff92}' | '\u{ff93}' | '\u{ff6c}' |
        '\u{ff94}' | '\u{ff6d}' | '\u{ff95}' | '\u{ff6e}' | '\u{ff96}' | '\u{ff97}' |
        '\u{ff98}' | '\u{ff99}' | '\u{ff9a}' | '\u{ff9b}' | '\u{ff9c}' | '\u{ff66}' |
        '\u{ff9d}' | '\u{30ee}' | '\u{30f0}' | '\u{30f1}' | '\u{30f5}' | '\u{30f6}' |
        '\u{30fd}' | '\u{30fe}' | '\u{ff65}' | '\u{ff62}' | '\u{ff63}' | '\u{ff61}' |
        '\u{ff64}' | '!' | '"' | '#' | '$' | '%' | '&' | '\'' | ')' | '*' | '+' | ',' | '.' |
        '/' | ':' | ';' | '<' | '=' | '>' | '?' | '@' | 'A' | 'B' | 'C' | 'D' | 'E' | 'F' |
        'G' | 'H' | 'I' | 'J' | 'K' | 'L' | 'M' | 'N' | 'O' | 'P' | 'Q' | 'R' | 'S' | 'T' |
        'U' | 'V' | 'W' | 'X' | 'Y' | 'Z' | '[' | '\\' | ']' | '^' | '_' | '`' | 'a' | 'b' |
        'c' | 'd' | 'e' | 'f' | 'g' | 'h' | 'i' | 'j' | 'k' | 'l' | 'm' | 'n' | 'o' | 'p' |
        'q' | 'r' | 's' | 't' | 'u' | 'v' | 'w' | 'x' | 'y' | 'z' | '{' | '|' | '}' | '~' |
        ' ' | '0' | '1' | '2' | '3' | '4' | '5' | '6' | '7' | '8' | '9' => true,
        _ => false,
    }
}

/// Whether a half-width kana may carry the half-width voiced sound mark in a half-width title.
pub open spec fn spec_takes_voiced_mark(c: char) -> bool {
    match c {
        '\u{ff76}' | '\u{ff77}' | '\u{ff78}' | '\u{ff79}' | '\u{ff7a}' | '\u{ff7b}' |
        '\u{ff7c}' | '\u{ff7d}' | '\u{ff7e}' | '\u{ff7f}' | '\u{ff80}' | '\u{ff81}' |
        '\u{ff82}' | '\u{ff83}' | '\u{ff84}' | '\u{ff8a}' | '\u{ff8b}' | '\u{ff8c}' |
        '\u{ff8d}' | '\u{ff8e}' | '\u{ff73}' => true,
        _ => false,
    }
}

/// Whether a half-width kana may carry the half-width voiced sound mark in a half-width title.
pub fn takes_voiced_mark(c: char) -> (r: bool)
    ensures
        r == spec_takes_voiced_mark(c),
{
    match c {
        '\u{ff76}' | '\u{ff77}' | '\u{ff78}' | '\u{ff79}' | '\u{ff7a}' | '\u{ff7b}' |
        '\u{ff7c}' | '\u{ff7d}' | '\u{ff7e}' | '\u{ff7f}' | '\u{ff80}' | '\u{ff81}' |
        '\u{ff82}' | '\u{ff83}' | '\u{ff84}' | '\u{ff8a}' | '\u{ff8b}' | '\u{ff8c}' |
        '\u{ff8d}' | '\u{ff8e}' | '\u{ff73}' => true,
        _ => false,
    }
}

/// Whether a half-width kana may carry the half-width semi-voiced sound mark in a half-width title.
pub open spec fn spec_takes_semi_voiced_mark(c: char) -> bool {
    match c {
        '\u{ff8a}' | '\u{ff8b}' | '\u{ff8c}' | '\u{ff8d}' | '\u{ff8e}' => true,
        _ => false,
    }
}

/// Whether a half-width kana may carry the half-width semi-voiced sound mark in a half-width title.
pub fn takes_semi_voiced_mark(c: char) -> (r: bool)
    ensures
        r == spec_takes_semi_voiced_mark(c),
{
    match c {
        '\u{ff8a}' | '\u{ff8b}' | '\u{ff8c}' | '\u{ff8d}' | '\u{ff8e}' => true,
        _ => false,
    }
}

/// The full-width form of a character of a track range.
pub open spec fn spec_hw_to_fw_range(c: char) -> Option<char> {
    match c {
        '0' => Some('\u{ff10}'),
        '1' => Some('\u{ff11}'),
        '2' => Some('\u{ff12}'),
        '3' => Some('\u{ff13}'),
        '4' => Some('\u{ff14}'),
        '5' => Some('\u{ff15}'),
        '6' => Some('\u{ff16}'),
        '7' => Some('\u{ff17}'),
        '8' => Some('\u{ff18}'),
        '9' => Some('\u{ff19}'),
        '-' => Some('\u{ff0d}'),
        '/' => Some('\u{ff0f}'),
        ';' => Some('\u{ff1b}'),
        _ => None,
    }
}

/// The full-width form of a character of a track range.
pub fn hw_to_fw_range(c: char) -> (r: Option<char>)
    ensures
        r == spec_hw_to_fw_range(c),
{
    match c {
        '0' => Some('\u{ff10}'),
        '1' => Some('\u{ff11}'),
        '2' => Some('\u{ff12}'),
        '3' => Some('\u{ff13}'),
        '4' => Some('\u{ff14}'),
        '5' => Some('\u{ff15}'),
        '6' => Some('\u{ff16}'),
        '7' => Some('\u{ff17}'),
        '8' => Some('\u{ff18}'),
        '9' => Some('\u{ff19}'),
        '-' => Some('\u{ff0d}'),
        '/' => Some('\u{ff0f}'),
        ';' => Some('\u{ff1b}'),
        _ => None,
    }
}

/// Whether a character takes two bytes in a half-width title: the voiced and semi-voiced kana, which are written as a kana and a mark, and the few kana without a half-width form.
pub open spec fn spec_is_multi_byte(c: char) -> bool {
    match c {
        '\u{30ac}' | '\u{30ae}' | '\u{30b0}' | '\u{30b2}' | '\u{30b4}' | '\u{30b6}' |
        '\u{30b8}' | '\u{30ba}' | '\u{30bc}' | '\u{30be}' | '\u{30c0}' | '\u{30c2}' |
        '\u{30c5}' | '\u{30c7}' | '\u{30c9}' | '\u{30d0}' | '\u{30d1}' | '\u{30d3}' |
        '\u{30d4}' | '\u{30d6}' | '\u{30d7}' | '\u{30d9}' | '\u{30da}' | '\u{30dc}' |
        '\u{30dd}' | '\u{30ee}' | '\u{30f0}' | '\u{30f1}' | '\u{30f5}' | '\u{30f6}' |
        '\u{30f4}' | '\u{30fd}' | '\u{30fe}' | '\u{304c}' | '\u{304e}' | '\u{3050}' |
        '\u{3052}' | '\u{3054}' | '\u{3056}' | '\u{3058}' | '\u{305a}' | '\u{305c}' |
        '\u{305e}' | '\u{3060}' | '\u{3062}' | '\u{3065}' | '\u{3067}' | '\u{3069}' |
        '\u{3070}' | '\u{3071}' | '\u{3073}' | '\u{3074}' | '\u{3076}' | '\u{3077}' |
        '\u{3079}' | '\u{307a}' | '\u{307c}' | '\u{307d}' | '\u{308e}' | '\u{3090}' |
        '\u{3091}' | '\u{3095}' | '\u{3096}' | '\u{3094}' | '\u{309d}' | '\u{309e}' => true,
        _ => false,
    }
}

/// Whether a character takes two bytes in a half-width title: the voiced and semi-voiced kana, which are written as a kana and a mark, and the few kana without a half-width form.
pub fn is_multi_byte(c: char) -> (r: bool)
    ensures
        r == spec_is_multi_byte(c),
{
    match c {
        '\u{30ac}' | '\u{30ae}' | '\u{30b0}' | '\u{30b2}' | '\u{30b4}' | '\u{30b6}' |
        '\u{30b8}' | '\u{30ba}' | '\u{30bc}' | '\u{30be}' | '\u{30c0}' | '\u{30c2}' |
        '\u{30c5}' | '\u{30c7}' | '\u{30c9}' | '\u{30d0}' | '\u{30d1}' | '\u{30d3}' |
        '\u{30d4}' | '\u{30d6}' | '\u{30d7}' | '\u{30d9}' | '\u{30da}' | '\u{30dc}' |
        '\u{30dd}' | '\u{30ee}' | '\u{30f0}' | '\u{30f1}' | '\u{30f5}' | '\u{30f6}' |
        '\u{30f4}' | '\u{30fd}' | '\u{30fe}' | '\u{304c}' | '\u{304e}' | '\u{3050}' |
        '\u{3052}' | '\u{3054}' | '\u{3056}' | '\u{3058}' | '\u{305a}' | '\u{305c}' |
        '\u{305e}' | '\u{3060}' | '\u{3062}' | '\u{3065}' | '\u{3067}' | '\u{3069}' |
        '\u{3070}' | '\u{3071}' | '\u{3073}' | '\u{3074}' | '\u{3076}' | '\u{3077}' |
        '\u{3079}' | '\u{307a}' | '\u{307c}' | '\u{307d}' | '\u{308e}' | '\u{3090}' |
        '\u{3091}' | '\u{3095}' | '\u{3096}' | '\u{3094}' | '\u{309d}' | '\u{309e}' => true,
        _ => false,
    }
}

} // verus!
