//! JSON texts, as `serde_json` writes them, and what they hold where.

use vstd::prelude::*;

use crate::search::{first_at, stands_at, text_less};
use crate::text::flat_map;

verus! {

/// A lower-case hexadecimal digit.
pub open spec fn hex_digit(d: int) -> char {
    if d < 10 {
        (48 + d) as char
    } else {
        (87 + d) as char
    }
}

/// How a character is written inside a JSON string.
pub open spec fn json_char(c: char) -> Seq<char> {
    if c == '"' {
        seq!['\\', '"']
    } else if c == '\\' {
        seq!['\\', '\\']
    } else if c == '\u{8}' {
        seq!['\\', 'b']
    } else if c == '\u{c}' {
        seq!['\\', 'f']
    } else if c == '\n' {
        seq!['\\', 'n']
    } else if c == '\r' {
        seq!['\\', 'r']
    } else if c == '\t' {
        seq!['\\', 't']
    } else if 32 > c as int {
        seq!['\\', 'u', '0', '0', hex_digit(c as int / 16), hex_digit(c as int % 16)]
    } else {
        seq![c]
    }
}

/// The rewriting of characters inside a JSON string.
pub open spec fn json_chars() -> spec_fn(char) -> Seq<char> {
    |c: char| json_char(c)
}

/// A text as it is written inside a JSON string, without the quotes around it.
pub open spec fn json_inner(s: Seq<char>) -> Seq<char> {
    flat_map(s, json_chars())
}

/// A text as a JSON string.
pub open spec fn json_string(s: Seq<char>) -> Seq<char> {
    seq!['"'] + json_inner(s) + seq!['"']
}

/// A truth value in JSON.
pub open spec fn json_bool(b: bool) -> Seq<char> {
    if b {
        seq!['t', 'r', 'u', 'e']
    } else {
        seq!['f', 'a', 'l', 's', 'e']
    }
}

/// A member of a JSON object: its key and its value, already written.
pub open spec fn json_member(key: Seq<char>, value: Seq<char>) -> Seq<char> {
    json_string(key) + seq![':'] + value
}

/// `serde_json::to_string` of a text: the text in quotes, with the quote, the backslash and the
/// control characters below the space escaped (by their short escapes where JSON has one, else
/// as `\u00` and two lower-case hexadecimal digits), and every other character as it is.
#[verifier::external_body]
pub(crate) fn json_string_text(s: &str) -> (r: String)
    ensures
        r@ == json_string(s@),
{
    serde_json::to_string(s).unwrap_or_default()
}

/// `serde_json::Value::to_string` of an object with one truth value and two texts: the members
/// in the order of their keys, a comma between each two, and no whitespace.
#[verifier::external_body]
pub(crate) fn json_object_text(
    flag_key: &str,
    flag: bool,
    first_key: &str,
    first: &str,
    second_key: &str,
    second: &str,
) -> (r: String)
    requires
        text_less(flag_key@, first_key@),
        text_less(first_key@, second_key@),
    ensures
        r@ == seq!['{'] + json_member(flag_key@, json_bool(flag)) + seq![','] + json_member(
            first_key@,
            json_string(first@),
        ) + seq![','] + json_member(second_key@, json_string(second@)) + seq!['}'],
{
    let mut members = serde_json::Map::new();
    members.insert(flag_key.to_string(), serde_json::Value::Bool(flag));
    members.insert(first_key.to_string(), serde_json::Value::String(first.to_string()));
    members.insert(second_key.to_string(), serde_json::Value::String(second.to_string()));
    serde_json::Value::Object(members).to_string()
}

/// Whether a character stands for itself inside a JSON string.
pub open spec fn json_plain(c: char) -> bool {
    c >= ' ' && c != '"' && c != '\\'
}

/// A text of plain characters is written as it is.
pub proof fn lemma_plain_inner(s: Seq<char>)
    requires
        forall|i: int| 0 <= i < s.len() ==> json_plain(#[trigger] s[i]),
    ensures
        json_inner(s) == s,
    decreases s.len(),
{
    if s.len() > 0 {
        assert forall|i: int| 0 <= i < s.drop_last().len() implies json_plain(
            #[trigger] s.drop_last()[i],
        ) by {
            assert(json_plain(s[i]));
        }
        lemma_plain_inner(s.drop_last());
        assert(json_plain(s[s.len() - 1]));
        assert(s.drop_last() + seq![s.last()] == s);
    } else {
        assert(json_inner(s) == s);
    }
}

/// A written character is the character itself, a short escape, or a control character's code.
proof fn lemma_json_char(c: char)
    ensures
        json_char(c).len() == 1 || json_char(c).len() == 2 || json_char(c).len() == 6,
        json_char(c).len() == 1 <==> json_plain(c),
        json_char(c).len() == 1 ==> json_char(c)[0] == c,
        json_char(c).len() > 1 ==> json_char(c)[0] == '\\',
        json_char(c).len() == 2 ==> json_char(c)[1] != 'u',
        json_char(c).len() == 6 ==> {
            &&& 0 <= c as int && (c as int) < 32
            &&& json_char(c)[1] == 'u' && json_char(c)[2] == '0' && json_char(c)[3] == '0'
            &&& json_char(c)[4] == hex_digit(c as int / 16)
            &&& json_char(c)[5] == hex_digit(c as int % 16)
            &&& hex_value(json_char(c)[4]) == c as int / 16
            &&& hex_value(json_char(c)[5]) == c as int % 16
            &&& json_char(c)[4] != '"' && json_char(c)[5] != '"'
        },
{
    if json_char(c).len() == 6 {
        let high = c as int / 16;
        let low = c as int % 16;
        assert(0 <= high && high < 2);
        assert(0 <= low && low < 16);
        assert(hex_digit(high) as int == 48 + high);
        assert(hex_digit(low) as int == if low < 10 { 48 + low } else { 87 + low });
    }
}

/// Inside a JSON string every quote follows a backslash.
pub proof fn lemma_quotes_escaped(s: Seq<char>, i: int)
    requires
        0 <= i < json_inner(s).len(),
        json_inner(s)[i] == '"',
    ensures
        i > 0,
        json_inner(s)[i - 1] == '\\',
    decreases s.len(),
{
    let before = json_inner(s.drop_last());
    let piece = json_char(s.last());
    assert(json_inner(s) == before + piece);
    if i < before.len() {
        lemma_quotes_escaped(s.drop_last(), i);
    } else {
        lemma_json_char(s.last());
        assert(piece[i - before.len()] == '"');
        assert(json_inner(s)[i - 1] == piece[i - before.len() - 1]);
    }
}

// ---------------------------------------------------------------------------------------------
// Reading a JSON string back
// ---------------------------------------------------------------------------------------------

/// Where a reader of a JSON string stands.
pub enum JsonMode {
    Plain,
    Escape,
    Hex { digits: int, value: int },
    Bad,
}

/// A reader of a JSON string: where it stands and what it has read.
pub struct JsonReader {
    pub mode: JsonMode,
    pub text: Seq<char>,
}

/// The value of a hexadecimal digit in lower case.
pub open spec fn hex_value(c: char) -> int {
    if '0' <= c && c <= '9' {
        c as int - 48
    } else {
        c as int - 87
    }
}

impl JsonReader {
    /// The reader after one more character.
    pub open spec fn step(self, c: char) -> JsonReader {
        match self.mode {
            JsonMode::Plain => if c == '\\' {
                JsonReader { mode: JsonMode::Escape, text: self.text }
            } else if c == '"' || 32 > c as int {
                JsonReader { mode: JsonMode::Bad, text: self.text }
            } else {
                JsonReader { mode: JsonMode::Plain, text: self.text.push(c) }
            },
            JsonMode::Escape => if c == 'u' {
                JsonReader { mode: JsonMode::Hex { digits: 0, value: 0 }, text: self.text }
            } else if c == '"' || c == '\\' || c == '/' {
                JsonReader { mode: JsonMode::Plain, text: self.text.push(c) }
            } else if c == 'b' {
                JsonReader { mode: JsonMode::Plain, text: self.text.push('\u{8}') }
            } else if c == 'f' {
                JsonReader { mode: JsonMode::Plain, text: self.text.push('\u{c}') }
            } else if c == 'n' {
                JsonReader { mode: JsonMode::Plain, text: self.text.push('\n') }
            } else if c == 'r' {
                JsonReader { mode: JsonMode::Plain, text: self.text.push('\r') }
            } else if c == 't' {
                JsonReader { mode: JsonMode::Plain, text: self.text.push('\t') }
            } else {
                JsonReader { mode: JsonMode::Bad, text: self.text }
            },
            JsonMode::Hex { digits, value } => {
                let total = value * 16 + hex_value(c);
                if digits == 3 {
                    JsonReader { mode: JsonMode::Plain, text: self.text.push(total as char) }
                } else {
                    JsonReader {
                        mode: JsonMode::Hex { digits: digits + 1, value: total },
                        text: self.text,
                    }
                }
            },
            JsonMode::Bad => self,
        }
    }
}

/// A reader that has read `s` from the start of a JSON string.
pub open spec fn json_read(s: Seq<char>) -> JsonReader
    decreases s.len(),
{
    if s.len() == 0 {
        JsonReader { mode: JsonMode::Plain, text: Seq::empty() }
    } else {
        json_read(s.drop_last()).step(s.last())
    }
}

/// One more character moves the reader one step.
proof fn lemma_json_read_push(s: Seq<char>, c: char)
    ensures
        json_read(s.push(c)) == json_read(s).step(c),
{
    assert(s.push(c).drop_last() == s);
}

/// Reading back what was written inside a JSON string gives the text.
pub proof fn law_json_reads_back(s: Seq<char>)
    ensures
        json_read(json_inner(s)) == (JsonReader { mode: JsonMode::Plain, text: s }),
    decreases s.len(),
{
    if s.len() == 0 {
        assert(s == Seq::<char>::empty());
    } else {
        let before = json_inner(s.drop_last());
        let c = s.last();
        law_json_reads_back(s.drop_last());
        assert(s.drop_last().push(c) == s);
        let piece = json_char(c);
        lemma_json_char(c);
        assert(json_inner(s) == before + piece);
        if piece.len() == 1 {
            assert(before + piece == before.push(piece[0]));
            lemma_json_read_push(before, piece[0]);
        } else if piece.len() == 2 {
            assert(before + piece == before.push(piece[0]).push(piece[1]));
            lemma_json_read_push(before, piece[0]);
            lemma_json_read_push(before.push(piece[0]), piece[1]);
        } else {
            let b1 = before.push(piece[0]);
            let b2 = b1.push(piece[1]);
            let b3 = b2.push(piece[2]);
            let b4 = b3.push(piece[3]);
            let b5 = b4.push(piece[4]);
            assert(before + piece == b5.push(piece[5]));
            lemma_json_read_push(before, piece[0]);
            lemma_json_read_push(b1, piece[1]);
            lemma_json_read_push(b2, piece[2]);
            lemma_json_read_push(b3, piece[3]);
            lemma_json_read_push(b4, piece[4]);
            lemma_json_read_push(b5, piece[5]);
            let n = c as int;
            assert(hex_value('0') == 0);
            assert((n / 16) * 16 + n % 16 == n);
            assert(n as char == c);
        }
    }
}

// ---------------------------------------------------------------------------------------------
// Finding a member
// ---------------------------------------------------------------------------------------------

/// An object's text up to the value of its last member: a truth value, a text, and the last
/// member's key.
pub open spec fn json_object_head(
    flag_key: Seq<char>,
    flag: bool,
    first_key: Seq<char>,
    first: Seq<char>,
    second_key: Seq<char>,
) -> Seq<char> {
    json_key_lead(flag_key, flag, first_key, first) + json_key_mark(second_key)
}

/// An object's text before the key of its last member.
pub open spec fn json_key_lead(
    flag_key: Seq<char>,
    flag: bool,
    first_key: Seq<char>,
    first: Seq<char>,
) -> Seq<char> {
    seq!['{', '"'] + flag_key + seq!['"', ':'] + json_bool(flag) + seq![',', '"'] + first_key + seq![
        '"',
        ':',
        '"',
    ] + json_inner(first) + seq!['"', ',']
}

/// A key in quotes with the colon after it.
pub open spec fn json_key_mark(key: Seq<char>) -> Seq<char> {
    seq!['"'] + key + seq!['"', ':']
}

/// Whether a key is plain and neither starts with a colon nor is empty.
pub open spec fn json_simple_key(key: Seq<char>) -> bool {
    &&& key.len() > 0
    &&& key[0] != ':'
    &&& forall|i: int| 0 <= i < key.len() ==> json_plain(#[trigger] key[i])
}

/// In an object of a truth value and two texts, the first place where the last member's key
/// stands as a key is that member, whatever the texts hold, if its last character differs from
/// that of the keys before it.
pub proof fn law_member_found(
    flag_key: Seq<char>,
    flag: bool,
    first_key: Seq<char>,
    first: Seq<char>,
    second_key: Seq<char>,
    rest: Seq<char>,
)
    requires
        json_simple_key(flag_key),
        json_simple_key(first_key),
        json_simple_key(second_key),
        second_key.last() != flag_key.last(),
        second_key.last() != first_key.last(),
        second_key.last() != ':',
    ensures
        first_at(
            json_object_head(flag_key, flag, first_key, first, second_key) + rest,
            json_key_mark(second_key),
            json_key_lead(flag_key, flag, first_key, first).len() as int,
        ),
{
    let lead = json_key_lead(flag_key, flag, first_key, first);
    let mark = json_key_mark(second_key);
    let body = json_object_head(flag_key, flag, first_key, first, second_key) + rest;
    let k = second_key.len() as int;
    let pos = lead.len() as int;
    assert(body.subrange(pos, pos + mark.len()) == mark);
    let a0 = 2int;
    let a1 = a0 + flag_key.len();
    let b0 = a1 + 2;
    let b1 = b0 + json_bool(flag).len();
    let c0 = b1 + 2;
    let c1 = c0 + first_key.len();
    let d0 = c1 + 3;
    let d1 = d0 + json_inner(first).len();
    assert(pos == d1 + 2);
    assert forall|j: int| 0 <= j < pos implies !stands_at(body, mark, j) by {
        if stands_at(body, mark, j) {
            let q = j + k + 1;
            let seen = body.subrange(j, j + mark.len());
            assert(seen[k + 1] == body[q] && mark[k + 1] == '"');
            assert(seen[k + 2] == body[q + 1] && mark[k + 2] == ':');
            assert(seen[k] == body[q - 1] && mark[k] == second_key.last());
            assert(body[1] == '"' && body[2] == flag_key[0]);
            if q < 1 {
                assert(false);
            } else if q == 1 {
                assert(body[q + 1] == flag_key[0]);
            } else if q < a1 {
                assert(body[q] == flag_key[q - a0]);
            } else if q == a1 {
                assert(body[q - 1] == flag_key[q - 1 - a0]);
            } else if q == a1 + 1 {
                assert(body[q] == ':');
            } else if q < b1 {
                assert(body[q] == json_bool(flag)[q - b0]);
            } else if q == b1 {
                assert(body[q] == ',');
            } else if q == b1 + 1 {
                assert(body[q + 1] == first_key[0]);
            } else if q < c1 {
                assert(body[q] == first_key[q - c0]);
            } else if q == c1 {
                assert(body[q - 1] == first_key[q - 1 - c0]);
            } else if q == c1 + 1 {
                assert(body[q] == ':');
            } else if q == c1 + 2 {
                assert(body[q - 1] == ':');
            } else if q < d1 {
                assert(body[q] == json_inner(first)[q - d0]);
                lemma_quotes_escaped(first, q - d0);
                assert(body[q - 1] == json_inner(first)[q - 1 - d0]);
                assert(json_plain(second_key[k - 1]));
            } else if q == d1 {
                assert(body[q + 1] == ',');
            } else if q == d1 + 1 {
                assert(body[q] == ',');
            } else if q == pos {
                assert(body[q + 1] == second_key[0]);
            } else {
                assert(body[q] == second_key[q - pos - 1]);
                assert(json_plain(second_key[q - pos - 1]));
            }
        }
    }
}

/// The text of an object of a truth value and two texts, cut where the last text stands.
pub proof fn lemma_object_cut(
    flag_key: Seq<char>,
    flag: bool,
    first_key: Seq<char>,
    first: Seq<char>,
    second_key: Seq<char>,
    second: Seq<char>,
)
    requires
        json_simple_key(flag_key),
        json_simple_key(first_key),
        json_simple_key(second_key),
    ensures
        seq!['{'] + json_member(flag_key, json_bool(flag)) + seq![','] + json_member(
            first_key,
            json_string(first),
        ) + seq![','] + json_member(second_key, json_string(second)) + seq!['}']
            == json_object_head(flag_key, flag, first_key, first, second_key) + json_string(second)
            + seq!['}'],
{
    lemma_plain_inner(flag_key);
    lemma_plain_inner(first_key);
    lemma_plain_inner(second_key);
}

} // verus!
