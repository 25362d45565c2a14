//! Reading what the players type: a cell to shoot at, a ship's kind and an
//! orientation.
use vstd::prelude::*;
use vstd::string::*;
use vstd::utf8::{char_is_scalar, encode_utf8};

use crate::board::{Orientation, Ships};

verus! {

/// The byte that a character casts to: its code point modulo 256.
pub open spec fn low_byte(c: char) -> int {
    (c as int) % 256
}

/// A turn string can be read: it has two characters, the first at or past
/// `'A'` and the second at or past `'0'`, as bytes.
pub open spec fn turn_parsable(s: Seq<char>) -> bool {
    &&& s.len() >= 2
    &&& low_byte(s[0]) >= 65
    &&& low_byte(s[1]) >= 48
}

/// The row a turn string names: its first character's byte less `'A'`.
pub open spec fn turn_row(s: Seq<char>) -> int {
    low_byte(s[0]) - 65
}

/// The column a turn string names: its second character's byte less `'0'`.
pub open spec fn turn_col(s: Seq<char>) -> int {
    low_byte(s[1]) - 48
}

/// The byte a character casts to.
pub(crate) fn byte_of(c: char) -> (b: u8)
    ensures
        b == low_byte(c),
{
    ((c as u32) % 256) as u8
}

/// Turn turn string to tuple: (row, column), read from the first two
/// characters as `row letter - 'A'` and `column digit - '0'`.
pub fn parse_turn(turn: String) -> (r: (usize, usize))
    requires
        turn_parsable(turn@),
    ensures
        r.0 == turn_row(turn@),
        r.1 == turn_col(turn@),
{
    let s = turn.as_str();
    let row = byte_of(s.get_char(0));
    let col = byte_of(s.get_char(1));
    ((row - 65) as usize, (col - 48) as usize)
}

/// The characters that `char::is_whitespace` accepts: those with Unicode's
/// `White_Space` property.
pub open spec fn is_space(c: char) -> bool {
    let n = c as u32;
    ||| 9 <= n <= 13
    ||| n == 32
    ||| n == 0x85
    ||| n == 0xa0
    ||| n == 0x1680
    ||| 0x2000 <= n <= 0x200a
    ||| n == 0x2028
    ||| n == 0x2029
    ||| n == 0x202f
    ||| n == 0x205f
    ||| n == 0x3000
}

fn space(c: char) -> (r: bool)
    ensures
        r == is_space(c),
{
    let n = c as u32;
    (9 <= n && n <= 13) || n == 32 || n == 0x85 || n == 0xa0 || n == 0x1680 || (0x2000 <= n
        && n <= 0x200a) || n == 0x2028 || n == 0x2029 || n == 0x202f || n == 0x205f || n == 0x3000
}

/// `s` without its leading white space.
pub open spec fn trim_front(s: Seq<char>) -> Seq<char>
    decreases s.len(),
{
    if s.len() > 0 && is_space(s[0]) {
        trim_front(s.drop_first())
    } else {
        s
    }
}

/// `s` without its trailing white space.
pub open spec fn trim_back(s: Seq<char>) -> Seq<char>
    decreases s.len(),
{
    if s.len() > 0 && is_space(s.last()) {
        trim_back(s.drop_last())
    } else {
        s
    }
}

/// `s` without leading and trailing white space, as `str::trim` gives it.
pub open spec fn trimmed(s: Seq<char>) -> Seq<char> {
    trim_back(trim_front(s))
}

/// `s` without leading and trailing white space.
pub fn trim_spaces(s: &str) -> (r: &str)
    ensures
        r@ == trimmed(s@),
{
    let n = s.unicode_len();
    let mut start: usize = 0;
    assert(s@.subrange(0, n as int) =~= s@);
    while start < n && space(s.get_char(start))
        invariant
            n == s@.len(),
            start <= n,
            trim_front(s@) == trim_front(s@.subrange(start as int, n as int)),
        decreases n - start,
    {
        assert(s@.subrange(start as int, n as int).drop_first() =~= s@.subrange(
            start + 1,
            n as int,
        ));
        start += 1;
    }
    let ghost front = s@.subrange(start as int, n as int);
    assert(trim_front(s@) == front) by {
        if start < n {
            assert(front[0] == s@[start as int]);
        } else {
            assert(front.len() == 0);
        }
    };
    let mut end: usize = n;
    while end > start && space(s.get_char(end - 1))
        invariant
            n == s@.len(),
            start <= end <= n,
            front == s@.subrange(start as int, n as int),
            trim_back(front) == trim_back(s@.subrange(start as int, end as int)),
        decreases end - start,
    {
        assert(s@.subrange(start as int, end as int).drop_last() =~= s@.subrange(
            start as int,
            end - 1,
        ));
        end -= 1;
    }
    assert(trim_back(front) == s@.subrange(start as int, end as int)) by {
        if end > start {
            assert(s@.subrange(start as int, end as int).last() == s@[end - 1]);
        } else {
            assert(s@.subrange(start as int, end as int).len() == 0);
        }
    };
    s.substring_char(start, end)
}

/// How many bytes the UTF-8 encoding of a character takes.
pub open spec fn utf8_width(c: char) -> nat {
    let n = c as u32;
    if n < 0x80 {
        1
    } else if n < 0x800 {
        2
    } else if n < 0x10000 {
        3
    } else {
        4
    }
}

/// How many bytes the UTF-8 encoding of a character sequence takes: what
/// `str::len` gives.
pub open spec fn utf8_len(s: Seq<char>) -> nat
    decreases s.len(),
{
    if s.len() == 0 {
        0
    } else {
        utf8_width(s[0]) + utf8_len(s.drop_first())
    }
}

/// Every character takes at least one byte.
proof fn lemma_utf8_len_at_least(s: Seq<char>)
    ensures
        utf8_len(s) >= s.len(),
    decreases s.len(),
{
    if s.len() > 0 {
        lemma_utf8_len_at_least(s.drop_first());
    }
}

/// The byte count agrees with the length of vstd's UTF-8 encoding, which is
/// what `str::len` is specified to return.
pub proof fn lemma_utf8_len_is_encoding_len(s: Seq<char>)
    ensures
        utf8_len(s) == encode_utf8(s).len(),
    decreases s.len(),
{
    if s.len() > 0 {
        lemma_utf8_len_is_encoding_len(s.drop_first());
        char_is_scalar(s[0]);
    }
}

fn width_of(c: char) -> (w: usize)
    ensures
        w == utf8_width(c),
{
    let n = c as u32;
    if n < 0x80 {
        1
    } else if n < 0x800 {
        2
    } else if n < 0x10000 {
        3
    } else {
        4
    }
}

/// Whether the UTF-8 encoding of `s` is two bytes long.
fn two_bytes_long(s: &str) -> (r: bool)
    ensures
        r == (utf8_len(s@) == 2),
{
    let n = s.unicode_len();
    proof {
        lemma_utf8_len_at_least(s@);
    }
    if n == 1 {
        assert(s@.drop_first().len() == 0);
        assert(utf8_len(s@.drop_first()) == 0);
        width_of(s.get_char(0)) == 2
    } else if n == 2 {
        let ghost d = s@.drop_first();
        assert(d.drop_first().len() == 0);
        assert(utf8_len(d.drop_first()) == 0);
        assert(d[0] == s@[1]);
        assert(utf8_len(d) == utf8_width(s@[1]));
        width_of(s.get_char(0)) == 1 && width_of(s.get_char(1)) == 1
    } else {
        if n == 0 {
            assert(utf8_len(s@) == 0);
        }
        false
    }
}

/// What `get_play` answers to the line it read: the trimmed line when it is
/// two bytes long, a letter from `'A'` to `'J'` then a digit; else why not.
pub open spec fn play_verdict(line: Seq<char>) -> Result<Seq<char>, Seq<char>> {
    let t = trimmed(line);
    if utf8_len(t) != 2 {
        Err("Invalid Turn, size of coordinates is too long"@)
    } else if t[0] < 'A' || 'J' < t[0] {
        Err("First coordinate must be between A and J"@)
    } else if t[1] < '0' || '9' < t[1] {
        Err("Second coordinate must be between 1 and 9"@)
    } else {
        Ok(t)
    }
}

/// Reading a play stops the program on this line: once trimmed it is two
/// bytes long but holds a single character.
pub open spec fn play_panics(line: Seq<char>) -> bool {
    utf8_len(trimmed(line)) == 2 && trimmed(line).len() < 2
}

/// Tells whether `check_play` would stop the program on this line (see
/// `play_panics`), so that a caller can refuse it beforehand.
pub fn check_play_panics(line: &str) -> (r: bool)
    ensures
        r == play_panics(line@),
{
    let t = trim_spaces(line);
    two_bytes_long(t) && t.unicode_len() < 2
}

/// Checks the cell a player typed to shoot at (the line as read, with its
/// end of line): trims white space, then wants two bytes, a row letter from
/// `'A'` to `'J'` and a column digit from `'0'` to `'9'`. Gives back the
/// trimmed play, or the message that says what is wrong with it.
pub fn check_play(line: &str) -> (r: Result<String, String>)
    requires
        !play_panics(line@),
    ensures
        match play_verdict(line@) {
            Ok(t) => r matches Ok(s) && s@ == t,
            Err(m) => r matches Err(e) && e@ == m,
        },
{
    let play = trim_spaces(line);
    if !two_bytes_long(play) {
        return Err(String::from_str("Invalid Turn, size of coordinates is too long"));
    }
    let x = play.get_char(0);
    let y = play.get_char(1);
    if x < 'A' || 'J' < x {
        return Err(String::from_str("First coordinate must be between A and J"));
    }
    if y < '0' || '9' < y {
        return Err(String::from_str("Second coordinate must be between 1 and 9"));
    }
    Ok(String::from_str(play))
}

/// A line as read, less its last character (the end of line).
pub open spec fn line_body(s: Seq<char>) -> Seq<char> {
    if s.len() > 0 {
        s.drop_last()
    } else {
        s
    }
}

/// The kind of ship a word names exactly, if any.
pub open spec fn ship_named(s: Seq<char>) -> Option<Ships> {
    if s == "Carrier"@ {
        Some(Ships::Carrier)
    } else if s == "Battleship"@ {
        Some(Ships::Battleship)
    } else if s == "Cruiser"@ {
        Some(Ships::Cruiser)
    } else if s == "Destroyer"@ {
        Some(Ships::Destroyer)
    } else {
        None
    }
}

/// The orientation a word names exactly, if any.
pub open spec fn orientation_named(s: Seq<char>) -> Option<Orientation> {
    if s == "Vertical"@ {
        Some(Orientation::Vertical)
    } else if s == "Horizontal"@ {
        Some(Orientation::Horizontal)
    } else {
        None
    }
}

/// The line as read, less its last character, as a string.
fn body_of(line: &String) -> (r: String)
    ensures
        r@ == line_body(line@),
{
    let s = line.as_str();
    let n = s.unicode_len();
    if n > 0 {
        String::from_str(s.substring_char(0, n - 1))
    } else {
        String::from_str(s)
    }
}

/// The kind of ship a line typed by a player names: the line less its last
/// character must be the kind's name exactly.
pub fn parse_ship(line: &String) -> (r: Option<Ships>)
    ensures
        r == ship_named(line_body(line@)),
{
    let body = body_of(line);
    if body == String::from_str("Carrier") {
        Some(Ships::Carrier)
    } else if body == String::from_str("Battleship") {
        Some(Ships::Battleship)
    } else if body == String::from_str("Cruiser") {
        Some(Ships::Cruiser)
    } else if body == String::from_str("Destroyer") {
        Some(Ships::Destroyer)
    } else {
        None
    }
}

/// The orientation a line typed by a player names: the line less its last
/// character must be `Vertical` or `Horizontal` exactly.
pub fn parse_orientation(line: &String) -> (r: Option<Orientation>)
    ensures
        r == orientation_named(line_body(line@)),
{
    let body = body_of(line);
    if body == String::from_str("Vertical") {
        Some(Orientation::Vertical)
    } else if body == String::from_str("Horizontal") {
        Some(Orientation::Horizontal)
    } else {
        None
    }
}

} // verus!
