//! The module cache: which keys a module may use, and what a read or a write of a key
//! gives back.

use vstd::prelude::*;
use vstd::string::{StringExecFns, StringSliceAdditionalSpecFns};
use vstd::utf8::encode_utf8;

use crate::host_error::HostError;
use crate::origin::{ascii_bytes, lemma_ascii_encoding, SLASH};

verus! {

broadcast use vstd::utf8::encode_utf8_valid_utf8;

/// The largest value, in bytes, that a module may store or read back.
pub const MAX_CACHE_VALUE: usize = 1024 * 1024;

/// The longest cache key, in bytes.
pub const MAX_CACHE_KEY: usize = 128;

/// Whether `c` may stand in a cache key: an ASCII letter or digit, `-`, `_` or `.`.
pub open spec fn is_cache_key_byte(c: u8) -> bool {
    ||| 0x30 <= c <= 0x39
    ||| 0x41 <= c <= 0x5a
    ||| 0x61 <= c <= 0x7a
    ||| c == 0x2d
    ||| c == 0x5f
    ||| c == 0x2e
}

/// Whether `key`, by its bytes, is `.` or `..`, the names of a directory and its parent.
pub open spec fn is_dot_name(key: Seq<u8>) -> bool {
    key == seq![0x2eu8] || key == seq![0x2eu8, 0x2eu8]
}

/// Whether `key`, by its bytes, is a valid cache key: 1 to 128 bytes, each of them one
/// that may stand in a key, and not `.` or `..`.
pub open spec fn cache_key_is_valid(key: Seq<u8>) -> bool {
    &&& 0 < key.len() <= MAX_CACHE_KEY
    &&& forall|i: int| 0 <= i < key.len() ==> is_cache_key_byte(#[trigger] key[i])
    &&& !is_dot_name(key)
}

/// Whether `c` is an ASCII letter or digit.
pub open spec fn is_ascii_alphanumeric_char(c: char) -> bool {
    ('a' <= c && c <= 'z') || ('A' <= c && c <= 'Z') || ('0' <= c && c <= '9')
}

proof fn lemma_key_char(c: char)
    requires
        '\0' <= c <= '\u{7f}',
        is_cache_key_byte(c as u8),
    ensures
        is_ascii_alphanumeric_char(c) || c == '-' || c == '_' || c == '.',
{
}

/// Every key of 1 to 128 characters made of ASCII letters, digits, `-`, `_` and `.` is a
/// valid cache key, unless it is `.` or `..`; and every valid cache key is such a key.
pub proof fn lemma_cache_keys_are_plain_names(key: Seq<char>)
    ensures
        cache_key_is_valid(encode_utf8(key)) <==> {
            &&& 1 <= key.len() <= MAX_CACHE_KEY
            &&& forall|i: int|
                0 <= i < key.len() ==> is_ascii_alphanumeric_char(#[trigger] key[i]) || key[i]
                    == '-' || key[i] == '_' || key[i] == '.'
            &&& key != "."@
            &&& key != ".."@
        },
{
    reveal_strlit(".");
    reveal_strlit("..");
    let b = encode_utf8(key);
    let plain = forall|i: int|
        0 <= i < key.len() ==> is_ascii_alphanumeric_char(#[trigger] key[i]) || key[i] == '-'
            || key[i] == '_' || key[i] == '.';
    if plain {
        assert(vstd::utf8::is_ascii_chars(key)) by {
            assert forall|i: int| 0 <= i < key.len() implies '\0' <= #[trigger] key[i] <= '\u{7f}' by {
                assert(is_ascii_alphanumeric_char(key[i]) || key[i] == '-' || key[i] == '_' || key[i] == '.');
            }
        }
        vstd::utf8::is_ascii_chars_encode_utf8(key);
        assert forall|i: int| 0 <= i < b.len() implies is_cache_key_byte(#[trigger] b[i]) by {
            assert(b[i] == key[i] as u8);
            assert(is_ascii_alphanumeric_char(key[i]) || key[i] == '-' || key[i] == '_' || key[i] == '.');
        }
        if is_dot_name(b) {
            assert(key =~= "."@ || key =~= ".."@) by {
                assert forall|i: int| 0 <= i < key.len() implies key[i] == '.' by {
                    assert(b[i] == key[i] as u8);
                    assert(b[i] == 0x2e);
                }
            }
        }
        if key == "."@ {
            assert(b =~= seq![0x2eu8]);
        }
        if key == ".."@ {
            assert(b =~= seq![0x2eu8, 0x2eu8]);
        }
    }
    if cache_key_is_valid(b) {
        lemma_valid_cache_key_is_one_component(key);
        assert forall|i: int| 0 <= i < b.len() implies #[trigger] b[i] < 0x80 by {
            assert(is_cache_key_byte(b[i]));
        }
        lemma_ascii_encoding(key);
        assert forall|i: int| 0 <= i < key.len() implies is_ascii_alphanumeric_char(#[trigger] key[i])
            || key[i] == '-' || key[i] == '_' || key[i] == '.' by {
            assert(b[i] == key[i] as u8);
            assert(is_cache_key_byte(b[i]));
            lemma_key_char(key[i]);
        }
    }
}

/// Whether `key` names a cache entry that a module may read or write.
pub fn valid_cache_key(key: &str) -> (r: bool)
    ensures
        r == cache_key_is_valid(key.spec_bytes()),
{
    let bytes = key.as_bytes();
    if bytes.len() == 0 || bytes.len() > MAX_CACHE_KEY {
        return false;
    }
    let mut i: usize = 0;
    while i < bytes.len()
        invariant
            bytes@ == key.spec_bytes(),
            i <= bytes.len(),
            forall|j: int| 0 <= j < i ==> is_cache_key_byte(#[trigger] bytes@[j]),
        decreases bytes.len() - i,
    {
        let c = bytes[i];
        let allowed = (0x30 <= c && c <= 0x39) || (0x41 <= c && c <= 0x5a) || (0x61 <= c && c <= 0x7a)
            || c == 0x2d || c == 0x5f || c == 0x2e;
        if !allowed {
            return false;
        }
        i = i + 1;
    }
    let n = bytes.len();
    if (n == 1 && bytes[0] == 0x2e) || (n == 2 && bytes[0] == 0x2e && bytes[1] == 0x2e) {
        assert(is_dot_name(bytes@)) by {
            if n == 1 {
                assert(bytes@ =~= seq![0x2eu8]);
            } else {
                assert(bytes@ =~= seq![0x2eu8, 0x2eu8]);
            }
        }
        return false;
    }
    assert(!is_dot_name(bytes@)) by {
        if bytes@ == seq![0x2eu8] {
            assert(bytes@[0] == 0x2e);
        }
        if bytes@ == seq![0x2eu8, 0x2eu8] {
            assert(bytes@[0] == 0x2e && bytes@[1] == 0x2e);
        }
    }
    true
}

/// A valid cache key names a file directly inside the cache directory: it holds no `/`, it
/// is neither `.` nor `..` (the directory itself and its parent), and it is ASCII, so its
/// characters are its bytes.
pub proof fn lemma_valid_cache_key_is_one_component(key: Seq<char>)
    requires
        cache_key_is_valid(vstd::utf8::encode_utf8(key)),
    ensures
        forall|i: int| 0 <= i < key.len() ==> #[trigger] key[i] != '/',
        vstd::utf8::encode_utf8(key) == ascii_bytes(key),
        !vstd::utf8::encode_utf8(key).contains(SLASH),
        key != "."@,
        key != ".."@,
{
    let b = vstd::utf8::encode_utf8(key);
    assert forall|i: int| 0 <= i < b.len() implies #[trigger] b[i] < 0x80 by {
        assert(is_cache_key_byte(b[i]));
    }
    lemma_ascii_encoding(key);
    vstd::utf8::is_ascii_chars_encode_utf8(key);
    assert(b =~= ascii_bytes(key));
    assert forall|i: int| 0 <= i < key.len() implies #[trigger] key[i] != '/' by {
        assert(b[i] == key[i] as u8);
        assert(is_cache_key_byte(b[i]));
    }
    assert forall|i: int| 0 <= i < b.len() implies #[trigger] b[i] != SLASH by {
        assert(is_cache_key_byte(b[i]));
    }
    reveal_strlit(".");
    reveal_strlit("..");
    if key == "."@ {
        assert(b =~= seq![0x2eu8]);
    }
    if key == ".."@ {
        assert(b =~= seq![0x2eu8, 0x2eu8]);
    }
}


/// Decides whether a module may read the cache entry `key`; where it may, the entry is the
/// file of that name in the cache directory.
pub fn plan_cache_get(key: &str) -> (r: Result<String, HostError>)
    ensures
        r is Ok <==> cache_key_is_valid(key.spec_bytes()),
        r matches Ok(file) ==> file@ == key@,
        r matches Err(e) ==> e == HostError::InvalidCacheKey,
{
    if !valid_cache_key(key) {
        return Err(HostError::InvalidCacheKey);
    }
    Ok(String::from_str(key))
}

/// How reading a cache file ended.
#[derive(Debug)]
pub enum CacheRead {
    /// The file holds these bytes.
    Found(Vec<u8>),
    /// There is no such file.
    NotFound,
    /// Reading failed otherwise.
    Failed,
}

/// What a module gets for a cache read that ended in `read`, values by their bytes.
pub open spec fn cache_read_result(read: CacheRead) -> Result<Option<Seq<u8>>, HostError> {
    match read {
        CacheRead::Found(value) => if value@.len() <= MAX_CACHE_VALUE {
            Ok(Some(value@))
        } else {
            Err(HostError::CachedValueTooLarge)
        },
        CacheRead::NotFound => Ok(None),
        CacheRead::Failed => Err(HostError::CacheReadFailed),
    }
}

/// What a module gets for a cache read: the value where it is within the limit, nothing
/// where there is no entry, an error otherwise.
pub fn finish_cache_get(read: CacheRead) -> (r: Result<Option<Vec<u8>>, HostError>)
    ensures
        match cache_read_result(read) {
            Ok(Some(v)) => r matches Ok(Some(value)) && value@ == v,
            Ok(None) => r matches Ok(None),
            Err(e) => r == Err::<Option<Vec<u8>>, HostError>(e),
        },
{
    match read {
        CacheRead::Found(value) => {
            if value.len() <= MAX_CACHE_VALUE {
                Ok(Some(value))
            } else {
                Err(HostError::CachedValueTooLarge)
            }
        },
        CacheRead::NotFound => Ok(None),
        CacheRead::Failed => Err(HostError::CacheReadFailed),
    }
}

/// A cache write that the host makes: the value goes to the temporary file first, which is
/// then renamed to the target, so a reader sees the old value or the new one whole.
#[derive(Debug)]
pub struct CacheWrite {
    pub target: String,
    pub temporary: String,
    pub value: Vec<u8>,
}

/// The name of the temporary file of a write to `key`.
pub open spec fn temporary_name(key: Seq<char>) -> Seq<char> {
    "."@ + key + ".tmp"@
}

/// Whether a module may store `value` under `key`.
pub open spec fn cache_write_is_valid(key: Seq<u8>, value: Seq<u8>) -> bool {
    cache_key_is_valid(key) && value.len() <= MAX_CACHE_VALUE
}

/// Decides whether a module may store `value` under `key`, and which files the write uses.
pub fn plan_cache_put(key: &str, value: Vec<u8>) -> (r: Result<CacheWrite, HostError>)
    ensures
        r is Ok <==> cache_write_is_valid(key.spec_bytes(), value@),
        r matches Ok(w) ==> w.target@ == key@ && w.temporary@ == temporary_name(key@) && w.value
            == value,
        r matches Ok(w) ==> w.temporary@ != w.target@,
        r matches Err(e) ==> e == HostError::InvalidCacheWrite,
{
    if !valid_cache_key(key) || value.len() > MAX_CACHE_VALUE {
        return Err(HostError::InvalidCacheWrite);
    }
    let mut temporary = String::from_str(".");
    temporary.append(key);
    temporary.append(".tmp");
    proof {
        reveal_strlit(".");
    }
    assert(temporary@.len() > key@.len());
    Ok(CacheWrite { target: String::from_str(key), temporary, value })
}

/// A value that a module may store under a key reads back whole from that key: the key
/// may be read, and the read gives back the value.
pub proof fn lemma_cache_read_after_write(key: Seq<u8>, value: Vec<u8>)
    requires
        cache_write_is_valid(key, value@),
    ensures
        cache_key_is_valid(key),
        cache_read_result(CacheRead::Found(value)) == Ok::<Option<Seq<u8>>, HostError>(Some(value@)),
{
}

} // verus!
