//! JSON string literals: how serde_json writes a string, and how a JSON reader reads one
//! back.

use vstd::prelude::*;

verus! {

/// The lower-case hexadecimal digit of `d`, for `0 <= d < 16`.
pub open spec fn hex_digit(d: int) -> char {
    if d < 10 {
        (48 + d) as char
    } else {
        (87 + d) as char
    }
}

/// How serde_json writes the character `c` inside a string: `\"` and `\\` for the quote
/// and the backslash, `\b \t \n \f \r` for those controls, `\u00` and two lower-case hex
/// digits for the other characters below U+0020, and any other character as it is.
pub open spec fn json_escape_char(c: char) -> Seq<char> {
    if c == '"' {
        seq!['\\', '"']
    } else if c == '\\' {
        seq!['\\', '\\']
    } else if c == '\u{8}' {
        seq!['\\', 'b']
    } else if c == '\t' {
        seq!['\\', 't']
    } else if c == '\n' {
        seq!['\\', 'n']
    } else if c == '\u{c}' {
        seq!['\\', 'f']
    } else if c == '\r' {
        seq!['\\', 'r']
    } else if (c as u32) < 0x20 {
        seq!['\\', 'u', '0', '0', hex_digit((c as int) / 16), hex_digit((c as int) % 16)]
    } else {
        seq![c]
    }
}

/// The characters of `s`, each written as `json_escape_char` writes it.
pub open spec fn json_escape(s: Seq<char>) -> Seq<char>
    decreases s.len(),
{
    if s.len() == 0 {
        Seq::empty()
    } else {
        json_escape_char(s[0]) + json_escape(s.drop_first())
    }
}

/// The JSON string literal that serde_json writes for `s`: a quote, the escaped
/// characters of `s`, a quote.
pub open spec fn json_string_literal(s: Seq<char>) -> Seq<char> {
    seq!['"'] + json_escape(s) + seq!['"']
}

/// The value of a hexadecimal digit of either case.
pub open spec fn hex_value(c: char) -> Option<int> {
    if '0' <= c && c <= '9' {
        Some(c as int - 48)
    } else if 'a' <= c && c <= 'f' {
        Some(c as int - 87)
    } else if 'A' <= c && c <= 'F' {
        Some(c as int - 55)
    } else {
        None
    }
}

/// The character of a `\u` escape whose four digits start at `t[2]`, where they are
/// hexadecimal and name a character that is no surrogate.
pub open spec fn unicode_escape(t: Seq<char>) -> Option<char> {
    if t.len() < 6 {
        None
    } else {
        match (hex_value(t[2]), hex_value(t[3]), hex_value(t[4]), hex_value(t[5])) {
            (Some(a), Some(b), Some(c), Some(d)) => {
                let v = ((a * 16 + b) * 16 + c) * 16 + d;
                if 0xD800 <= v && v <= 0xDFFF {
                    None
                } else {
                    Some(v as char)
                }
            },
            _ => None,
        }
    }
}

/// The character that the escape at the head of `t` (which starts with a backslash) stands
/// for, and its length, where it is an escape that JSON knows.
pub open spec fn escape_at(t: Seq<char>) -> Option<(char, int)> {
    if t.len() < 2 {
        None
    } else if t[1] == '"' {
        Some(('"', 2))
    } else if t[1] == '\\' {
        Some(('\\', 2))
    } else if t[1] == '/' {
        Some(('/', 2))
    } else if t[1] == 'b' {
        Some(('\u{8}', 2))
    } else if t[1] == 'f' {
        Some(('\u{c}', 2))
    } else if t[1] == 'n' {
        Some(('\n', 2))
    } else if t[1] == 'r' {
        Some(('\r', 2))
    } else if t[1] == 't' {
        Some(('\t', 2))
    } else if t[1] == 'u' {
        match unicode_escape(t) {
            Some(c) => Some((c, 6)),
            None => None,
        }
    } else {
        None
    }
}

/// The characters that a JSON reader reads from the text `t` between the quotes of a
/// string literal, or `None` where `t` is not such a text: a raw quote or control
/// character, or a backslash that starts no escape. (A surrogate pair written as two
/// `\u` escapes is refused too.)
pub open spec fn json_unescape(t: Seq<char>) -> Option<Seq<char>>
    decreases t.len(),
{
    if t.len() == 0 {
        Some(Seq::empty())
    } else if t[0] == '"' || (t[0] as u32) < 0x20 {
        None
    } else if t[0] == '\\' {
        match escape_at(t) {
            Some((c, n)) => match json_unescape(t.skip(n)) {
                Some(rest) => Some(seq![c] + rest),
                None => None,
            },
            None => None,
        }
    } else {
        match json_unescape(t.drop_first()) {
            Some(rest) => Some(seq![t[0]] + rest),
            None => None,
        }
    }
}

proof fn lemma_hex_digit_value(d: int)
    requires
        0 <= d < 16,
    ensures
        hex_value(hex_digit(d)) == Some(d),
        hex_digit(d) != '\n',
{
}

/// Reading back the escape of `c` followed by any text gives `c` followed by what that
/// text reads as.
proof fn lemma_unescape_escape_char(c: char, rest: Seq<char>)
    ensures
        json_unescape(json_escape_char(c) + rest) == match json_unescape(rest) {
            Some(r) => Some(seq![c] + r),
            None => None::<Seq<char>>,
        },
{
    let e = json_escape_char(c);
    let t = e + rest;
    assert(t[0] == e[0]);
    if e.len() == 1 {
        assert(t.drop_first() =~= rest);
    } else if e.len() == 2 {
        assert(t[1] == e[1]);
        assert(t.skip(2) =~= rest);
    } else {
        let v = c as u32;
        let hi = (v / 16) as int;
        let lo = (v % 16) as int;
        lemma_hex_digit_value(0);
        lemma_hex_digit_value(hi);
        lemma_hex_digit_value(lo);
        assert(t[1] == 'u');
        assert(t[2] == '0' && t[3] == '0');
        assert(t[4] == hex_digit(hi) && t[5] == hex_digit(lo));
        assert(((0 * 16 + 0) * 16 + hi) * 16 + lo == v as int);
        vstd::utf8::char_u32_cast(c, v);
        assert(unicode_escape(t) == Some(c));
        assert(t.skip(6) =~= rest);
    }
}

/// What serde_json writes inside the quotes reads back as the string it wrote.
pub proof fn lemma_json_escape_round_trip(s: Seq<char>)
    ensures
        json_unescape(json_escape(s)) == Some(s),
    decreases s.len(),
{
    if s.len() > 0 {
        lemma_json_escape_round_trip(s.drop_first());
        lemma_unescape_escape_char(s[0], json_escape(s.drop_first()));
        assert(seq![s[0]] + s.drop_first() =~= s);
    }
}

proof fn lemma_escape_char_has_no_newline(c: char)
    ensures
        forall|i: int| 0 <= i < json_escape_char(c).len() ==> json_escape_char(c)[i] != '\n',
{
    if c != '\n' && (c as u32) < 0x20 {
        lemma_hex_digit_value((c as int) / 16);
        lemma_hex_digit_value((c as int) % 16);
    }
}

/// What serde_json writes for a string holds no raw newline.
pub proof fn lemma_json_escape_has_no_newline(s: Seq<char>)
    ensures
        !json_escape(s).contains('\n'),
    decreases s.len(),
{
    if s.len() > 0 {
        lemma_json_escape_has_no_newline(s.drop_first());
        let e = json_escape_char(s[0]);
        let rest = json_escape(s.drop_first());
        lemma_escape_char_has_no_newline(s[0]);
        assert forall|i: int| 0 <= i < json_escape(s).len() implies json_escape(s)[i] != '\n' by {
            if i < e.len() {
                assert(json_escape(s)[i] == e[i]);
            } else {
                assert(json_escape(s)[i] == rest[i - e.len()]);
            }
        }
    }
}


/// The UTF-8 encoding of two texts one after the other is the encoding of the first
/// followed by that of the second.
pub proof fn lemma_encode_utf8_concat(a: Seq<char>, b: Seq<char>)
    ensures
        vstd::utf8::encode_utf8(a + b) == vstd::utf8::encode_utf8(a) + vstd::utf8::encode_utf8(b),
    decreases a.len(),
{
    if a.len() > 0 {
        lemma_encode_utf8_concat(a.drop_first(), b);
        assert((a + b).drop_first() =~= a.drop_first() + b);
        assert((a + b)[0] == a[0]);
    }
}

/// The UTF-8 encoding of one character other than a newline holds no newline byte.
proof fn lemma_encode_char_has_no_newline_byte(c: char)
    requires
        c != '\n',
    ensures
        !vstd::utf8::encode_scalar(c as u32).contains(0x0au8),
{
    let v = c as u32;
    let e = vstd::utf8::encode_scalar(v);
    let x2: u8 = ((v >> 6) & 0x1F) as u8;
    let x3: u8 = ((v >> 12) & 0x0F) as u8;
    let x4: u8 = ((v >> 18) & 0x7) as u8;
    let c0: u8 = (v & 0x3F) as u8;
    let c1: u8 = ((v >> 6) & 0x3F) as u8;
    let c2: u8 = ((v >> 12) & 0x3F) as u8;
    assert(0xC0u8 | x2 != 0x0au8) by (bit_vector);
    assert(0xE0u8 | x3 != 0x0au8) by (bit_vector);
    assert(0xF0u8 | x4 != 0x0au8) by (bit_vector);
    assert(0x80u8 | c0 != 0x0au8) by (bit_vector);
    assert(0x80u8 | c1 != 0x0au8) by (bit_vector);
    assert(0x80u8 | c2 != 0x0au8) by (bit_vector);
    if vstd::utf8::has_width_1_encoding(v) {
        assert(v != 10) by {
            vstd::utf8::char_u32_cast(c, v);
        }
        assert(((v & 0x7F) as u8) as u32 == v) by (bit_vector)
            requires
                v <= 0x7f,
        ;
    }
    assert forall|i: int| 0 <= i < e.len() implies e[i] != 0x0au8 by {
    }
}

/// The UTF-8 encoding of a text without a newline holds no newline byte.
pub proof fn lemma_encode_utf8_has_no_newline_byte(s: Seq<char>)
    requires
        !s.contains('\n'),
    ensures
        !vstd::utf8::encode_utf8(s).contains(0x0au8),
    decreases s.len(),
{
    if s.len() > 0 {
        assert(s[0] != '\n');
        assert(!s.drop_first().contains('\n')) by {
            if s.drop_first().contains('\n') {
                let k = choose|k: int| 0 <= k < s.drop_first().len() && s.drop_first()[k] == '\n';
                assert(s[k + 1] == '\n');
            }
        }
        lemma_encode_char_has_no_newline_byte(s[0]);
        lemma_encode_utf8_has_no_newline_byte(s.drop_first());
        let e = vstd::utf8::encode_scalar(s[0] as u32);
        let rest = vstd::utf8::encode_utf8(s.drop_first());
        let all = vstd::utf8::encode_utf8(s);
        assert(all == e + rest);
        assert forall|i: int| 0 <= i < all.len() implies all[i] != 0x0au8 by {
            if i < e.len() {
                assert(all[i] == e[i]);
            } else {
                assert(all[i] == rest[i - e.len()]);
            }
        }
    }
}

} // verus!
