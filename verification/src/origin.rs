//! Exact HTTPS origins: the scheme and authority of an absolute `https://` URL.

use vstd::prelude::*;
use vstd::string::StringSliceAdditionalSpecFns;

verus! {

broadcast use vstd::utf8::encode_utf8_valid_utf8;

/// The byte of `/`.
pub const SLASH: u8 = 0x2f;
/// The byte of `@`.
pub const AT_SIGN: u8 = 0x40;
/// The byte of `?`.
pub const QUESTION_MARK: u8 = 0x3f;
/// The byte of `#`.
pub const NUMBER_SIGN: u8 = 0x23;

/// The bytes of an ASCII text.
pub open spec fn ascii_bytes(s: Seq<char>) -> Seq<u8> {
    s.map_values(|c: char| c as u8)
}

/// The bytes of an ASCII string are its characters, one byte each.
pub proof fn lemma_ascii_str_bytes(s: &str)
    requires
        vstd::string::is_ascii(s),
    ensures
        s.spec_bytes() == ascii_bytes(s@),
{
    vstd::utf8::is_ascii_chars_encode_utf8(s@);
    assert(s.spec_bytes() =~= ascii_bytes(s@));
}

/// A `char` whose scalar value is below 0x80 is an ASCII character.
pub proof fn lemma_char_below_0x80(c: char)
    requires
        (c as u32) <= 0x7f,
    ensures
        '\0' <= c <= '\u{7f}',
{
}

/// A text whose encoding holds only bytes below 0x80 is ASCII.
pub proof fn lemma_ascii_encoding(chars: Seq<char>)
    requires
        forall|i: int|
            0 <= i < vstd::utf8::encode_utf8(chars).len() ==> #[trigger] vstd::utf8::encode_utf8(
                chars,
            )[i] < 0x80,
    ensures
        vstd::utf8::is_ascii_chars(chars),
    decreases chars.len(),
{
    if chars.len() > 0 {
        let c0 = chars[0] as u32;
        let e = vstd::utf8::encode_scalar(c0);
        let rest = chars.drop_first();
        let enc = vstd::utf8::encode_utf8(chars);
        let enc_rest = vstd::utf8::encode_utf8(rest);
        assert(enc == e + enc_rest);
        assert(e.len() > 0);
        assert(enc[0] == e[0]);
        if !vstd::utf8::has_width_1_encoding(c0) {
            let x2: u8 = ((c0 >> 6) & 0x1F) as u8;
            let x3: u8 = ((c0 >> 12) & 0x0F) as u8;
            let x4: u8 = ((c0 >> 18) & 0x7) as u8;
            assert(0xC0u8 | x2 >= 0x80u8) by (bit_vector);
            assert(0xE0u8 | x3 >= 0x80u8) by (bit_vector);
            assert(0xF0u8 | x4 >= 0x80u8) by (bit_vector);
            assert(false);
        }
        assert forall|j: int| 0 <= j < enc_rest.len() implies #[trigger] enc_rest[j] < 0x80 by {
            assert(enc_rest[j] == enc[e.len() + j]);
        }
        lemma_ascii_encoding(rest);
        assert forall|i: int| 0 <= i < chars.len() implies '\0' <= #[trigger] chars[i] <= '\u{7f}' by {
            if i > 0 {
                assert(chars[i] == rest[i - 1]);
                assert('\0' <= rest[i - 1] <= '\u{7f}');
            } else {
                lemma_char_below_0x80(chars[0]);
            }
        }
    }
}

/// The bytes of the scheme prefix `https://`.
pub open spec fn https_scheme() -> Seq<u8> {
    ascii_bytes("https://"@)
}

/// The index of the first `/` of `b` at or after `i`, or the length of `b` where none follows.
pub open spec fn slash_index_from(b: Seq<u8>, i: int) -> int
    decreases b.len() - i,
{
    if i < 0 || i >= b.len() {
        b.len() as int
    } else if b[i] == SLASH {
        i
    } else {
        slash_index_from(b, i + 1)
    }
}

/// `slash_index_from(b, i)` is the first `/` at or after `i`, or the end.
pub proof fn lemma_slash_index(b: Seq<u8>, i: int)
    requires
        0 <= i <= b.len(),
    ensures
        i <= slash_index_from(b, i) <= b.len(),
        forall|j: int| i <= j < slash_index_from(b, i) ==> b[j] != SLASH,
        slash_index_from(b, i) < b.len() ==> b[slash_index_from(b, i)] == SLASH,
    decreases b.len() - i,
{
    if i < b.len() && b[i] != SLASH {
        lemma_slash_index(b, i + 1);
    }
}

/// An index `r` after `i` with no `/` in between, and a `/` or the end at `r`, is
/// `slash_index_from(b, i)`.
pub proof fn lemma_slash_index_unique(b: Seq<u8>, i: int, r: int)
    requires
        0 <= i <= r <= b.len(),
        forall|j: int| i <= j < r ==> b[j] != SLASH,
        r < b.len() ==> b[r] == SLASH,
    ensures
        slash_index_from(b, i) == r,
{
    lemma_slash_index(b, i);
    let s = slash_index_from(b, i);
    if s < r {
        assert(b[s] == SLASH);
    } else if r < s {
        assert(b[r] != SLASH);
    }
}

/// Whether `b` holds one of the bytes `@`, `?` and `#`.
pub open spec fn has_userinfo_or_query(b: Seq<u8>) -> bool {
    exists|i: int| 0 <= i < b.len() && (#[trigger] b[i] == AT_SIGN || b[i] == QUESTION_MARK || b[i] == NUMBER_SIGN)
}

/// The length, in bytes, of the exact origin at the head of `url`, where it has one: `url`
/// starts with `https://`, and the authority that follows, up to the first `/` or the end,
/// is not empty and holds no `@`, `?` or `#`.
pub open spec fn origin_len(url: Seq<u8>) -> Option<int> {
    if url.len() >= 8 && url.take(8) == https_scheme() {
        let end = slash_index_from(url, 8);
        if end > 8 && !has_userinfo_or_query(url.subrange(8, end)) {
            Some(end)
        } else {
            None
        }
    } else {
        None
    }
}

/// The exact origin of `url`, by its bytes.
pub open spec fn origin_of(url: Seq<u8>) -> Option<Seq<u8>> {
    match origin_len(url) {
        Some(n) => Some(url.take(n)),
        None => None,
    }
}

/// The origin of a URL is an exact origin: it is its own origin.
pub proof fn lemma_origin_is_exact(url: Seq<u8>)
    requires
        origin_of(url) is Some,
    ensures
        origin_of(origin_of(url)->0) == Some(origin_of(url)->0),
{
    let n = origin_len(url)->0;
    let o = url.take(n);
    lemma_slash_index(url, 8);
    assert(o.take(8) =~= url.take(8));
    assert forall|j: int| 8 <= j < n implies o[j] != SLASH by {
        assert(o[j] == url[j]);
    }
    lemma_slash_index_unique(o, 8, n);
    assert(o.subrange(8, n) =~= url.subrange(8, n));
    assert(o.take(n) =~= o);
}

/// An exact origin followed by a path, that is by nothing or by text that starts with
/// `/`, has that origin.
pub proof fn lemma_origin_of_url_with_path(origin: Seq<u8>, path: Seq<u8>)
    requires
        origin_of(origin) == Some(origin),
        path.len() == 0 || path[0] == SLASH,
    ensures
        origin_of(origin + path) == Some(origin),
{
    let url = origin + path;
    let n = origin.len() as int;
    lemma_slash_index(origin, 8);
    assert(origin.take(n) =~= origin);
    assert(url.take(8) =~= origin.take(8));
    assert forall|j: int| 8 <= j < n implies url[j] != SLASH by {
        assert(url[j] == origin[j]);
    }
    if n < url.len() {
        assert(url[n] == path[0]);
    }
    lemma_slash_index_unique(url, 8, n);
    assert(url.subrange(8, n) =~= origin.subrange(8, n));
    assert(url.take(n) =~= origin);
}

/// Whether `b` may stand as an authority: not empty, and no `/`, `@`, `?` or `#` in it.
pub open spec fn plain_authority(b: Seq<u8>) -> bool {
    &&& b.len() > 0
    &&& forall|i: int|
        0 <= i < b.len() ==> #[trigger] b[i] != SLASH && b[i] != AT_SIGN && b[i] != QUESTION_MARK
            && b[i] != NUMBER_SIGN
}

/// A URL made of `https://`, an authority and a path has that scheme and authority as its
/// origin where the authority is not empty and holds no `@`, `?` or `#` (any other byte,
/// such as a `-`, `.`, `:` or a non-ASCII byte, may stand in it), and has no origin where
/// it holds one of them. The path is empty or starts with `/`.
pub proof fn lemma_origin_of_https_url(authority: Seq<u8>, path: Seq<u8>)
    requires
        forall|i: int| 0 <= i < authority.len() ==> #[trigger] authority[i] != SLASH,
        path.len() == 0 || path[0] == SLASH,
    ensures
        plain_authority(authority) ==> origin_of(ascii_bytes("https://"@) + authority + path)
            == Some(ascii_bytes("https://"@) + authority),
        !plain_authority(authority) ==> origin_of(ascii_bytes("https://"@) + authority + path)
            is None,
{
    reveal_strlit("https://");
    let scheme = ascii_bytes("https://"@);
    let url = scheme + authority + path;
    let n: int = 8 + authority.len() as int;
    assert(scheme.len() == 8);
    assert(url.take(8) =~= scheme);
    assert forall|j: int| 8 <= j < n implies url[j] != SLASH by {
        assert(url[j] == authority[j - 8]);
    }
    if n < url.len() {
        assert(url[n] == path[0]);
    }
    lemma_slash_index_unique(url, 8, n);
    assert(url.subrange(8, n) =~= authority);
    assert(url.take(n) =~= scheme + authority);
    if plain_authority(authority) {
        if has_userinfo_or_query(authority) {
            let k = choose|k: int|
                0 <= k < authority.len() && (#[trigger] authority[k] == AT_SIGN || authority[k]
                    == QUESTION_MARK || authority[k] == NUMBER_SIGN);
            assert(authority[k] != AT_SIGN);
        }
    } else if authority.len() > 0 {
        let k = choose|k: int|
            !(0 <= k < authority.len() ==> #[trigger] authority[k] != SLASH && authority[k]
                != AT_SIGN && authority[k] != QUESTION_MARK && authority[k] != NUMBER_SIGN);
        assert(authority[k] != SLASH);
        assert(has_userinfo_or_query(authority));
    }
}

/// The exact HTTPS origin (`https://` and the authority) of an absolute HTTPS URL, or
/// `None` where `url` is not one: another scheme, an empty authority, or an authority with
/// user information, a query or a fragment in it.
pub fn https_origin(url: &str) -> (r: Option<&str>)
    ensures
        origin_of(url.spec_bytes()) matches Some(o) ==> r matches Some(s) && s.spec_bytes() == o,
        origin_of(url.spec_bytes()) is None ==> r is None,
{
    let bytes = url.as_bytes();
    let ghost b = url.spec_bytes();
    let scheme = "https://".as_bytes();
    proof {
        reveal_strlit("https://");
        assert(vstd::string::is_ascii("https://"));
        lemma_ascii_str_bytes("https://");
        assert(scheme@ == https_scheme());
    }
    if bytes.len() < 8 {
        return None;
    }
    let mut i: usize = 0;
    while i < 8
        invariant
            b == url.spec_bytes(),
            bytes@ == b,
            b.len() >= 8,
            scheme@ == https_scheme(),
            https_scheme().len() == 8,
            i <= 8,
            forall|j: int| 0 <= j < i ==> b[j] == https_scheme()[j],
        decreases 8 - i,
    {
        if bytes[i] != scheme[i] {
            assert(b.take(8)[i as int] != https_scheme()[i as int]);
            return None;
        }
        i = i + 1;
    }
    assert(b.take(8) =~= https_scheme());
    let mut end: usize = 8;
    let mut bad = false;
    while end < bytes.len() && bytes[end] != SLASH
        invariant
            b == url.spec_bytes(),
            bytes@ == b,
            8 <= end <= b.len(),
            slash_index_from(b, end as int) == slash_index_from(b, 8),
            bad == has_userinfo_or_query(b.subrange(8, end as int)),
        decreases b.len() - end,
    {
        let c = bytes[end];
        proof {
            let before = b.subrange(8, end as int);
            let after = b.subrange(8, end + 1);
            assert(after =~= before.push(c));
            if has_userinfo_or_query(after) {
                let k = choose|k: int|
                    0 <= k < after.len() && (#[trigger] after[k] == AT_SIGN || after[k] == QUESTION_MARK
                        || after[k] == NUMBER_SIGN);
                if k < before.len() {
                    assert(before[k] == after[k]);
                }
            }
            if has_userinfo_or_query(before) {
                let k = choose|k: int|
                    0 <= k < before.len() && (#[trigger] before[k] == AT_SIGN || before[k] == QUESTION_MARK
                        || before[k] == NUMBER_SIGN);
                assert(after[k] == before[k]);
            }
            if c == AT_SIGN || c == QUESTION_MARK || c == NUMBER_SIGN {
                assert(after[end - 8] == c);
            }
        }
        if c == AT_SIGN || c == QUESTION_MARK || c == NUMBER_SIGN {
            bad = true;
        }
        end = end + 1;
    }
    assert(slash_index_from(b, end as int) == end);
    if end == 8 || bad {
        return None;
    }
    proof {
        if end < b.len() {
            vstd::utf8::is_char_boundary_iff_not_is_continuation_byte(b, end as int);
        } else {
            vstd::utf8::is_char_boundary_start_end_of_seq(b);
        }
    }
    let (origin, _) = url.split_at(end);
    assert(origin.spec_bytes() =~= b.take(end as int));
    Some(origin)
}

} // verus!
