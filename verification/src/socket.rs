//! The wire side of a connection: who the peer is, and how a message's text
//! is laid into the fixed-size buffer that crosses the socket.

use vstd::prelude::*;
use vstd::std_specs::iter::IteratorSpec;
use vstd::utf8::{decode_utf8, encode_utf8, is_ascii_chars, valid_utf8};
use crate::constants::SOCKET_BUFFER_SIZE;

verus! {

broadcast use vstd::string::group_string_axioms;

/// The peer of a connection, as the socket reports it when the connection is
/// accepted.
#[derive(Debug, Clone, Copy, PartialEq, Eq)]
pub struct Credentials {
    pub uid: u32,
    pub gid: i32,
    pub pid: Option<u32>,
}

impl Default for Credentials {
    fn default() -> (credentials: Credentials)
        ensures
            credentials == (Credentials { uid: 0, gid: 0, pid: None }),
    {
        Credentials { uid: 0, gid: 0, pid: None }
    }
}

impl Credentials {
    /// The identity of the peer whose socket credentials name the user
    /// `user`, the group `group` and the process `process`.
    pub fn from_unix(user: u32, group: i32, process: i32) -> (credentials: Credentials)
        ensures
            credentials == (Credentials { uid: user, gid: group, pid: Some(process as u32) }),
    {
        Credentials { uid: user, gid: group, pid: Some(#[verifier::truncate] (process as u32)) }
    }
}

/// The buffer that carries `value`: the bytes of `value` as far as they fit,
/// and zeros behind them.
pub open spec fn padded(value: Seq<u8>) -> Seq<u8> {
    Seq::new(
        SOCKET_BUFFER_SIZE as nat,
        |i: int|
            if i < value.len() {
                value[i]
            } else {
                0u8
            },
    )
}

/// Lays `value` into a buffer of the wire's size. What does not fit is cut
/// off; what is left free holds zeros.
pub fn create_buffer(value: &[u8]) -> (buffer: [u8; SOCKET_BUFFER_SIZE])
    ensures
        buffer@ == padded(value@),
{
    let mut buffer = [0u8; SOCKET_BUFFER_SIZE];
    let len = if value.len() < SOCKET_BUFFER_SIZE {
        value.len()
    } else {
        SOCKET_BUFFER_SIZE
    };
    let mut i: usize = 0;
    while i < len
        invariant
            i <= len,
            len <= value@.len(),
            len <= SOCKET_BUFFER_SIZE,
            forall|k: int| 0 <= k < i ==> buffer@[k] == value@[k],
            forall|k: int| i <= k < SOCKET_BUFFER_SIZE ==> buffer@[k] == 0u8,
        decreases len - i,
    {
        buffer[i] = value[i];
        i = i + 1;
    }
    assert(buffer@ =~= padded(value@));
    buffer
}

/// What `String::from_utf8_lossy` makes of bytes that are no UTF-8: the
/// text in which each ill-formed part is replaced by U+FFFD.
pub uninterp spec fn utf8_repaired(bytes: Seq<u8>) -> Seq<char>;

/// The text that bytes are read as: what they encode where they are UTF-8,
/// and the repaired text where they are not.
pub open spec fn lossy_text(bytes: Seq<u8>) -> Seq<char> {
    if valid_utf8(bytes) {
        decode_utf8(bytes)
    } else {
        utf8_repaired(bytes)
    }
}

/// `String::from_utf8_lossy`: the text that the bytes encode. Bytes that
/// are UTF-8 are read as they stand.
#[verifier::external_body]
fn from_utf8_lossy(bytes: &[u8]) -> (text: String)
    ensures
        valid_utf8(bytes@) ==> text@ == decode_utf8(bytes@),
        !valid_utf8(bytes@) ==> text@ == utf8_repaired(bytes@),
{
    String::from_utf8_lossy(bytes).into_owned()
}

/// `text` without the NUL characters at its end.
pub open spec fn without_nuls(text: Seq<char>) -> Seq<char>
    decreases text.len(),
{
    if text.len() > 0 && text.last() == '\0' {
        without_nuls(text.drop_last())
    } else {
        text
    }
}

/// A text that is cut behind its last character that is no NUL is the text
/// without the NUL characters at its end.
pub proof fn lemma_cut_behind_last(text: Seq<char>, kept: int)
    requires
        0 <= kept <= text.len(),
        forall|j: int| kept <= j < text.len() ==> text[j] == '\0',
        kept > 0 ==> text[kept - 1] != '\0',
    ensures
        without_nuls(text) == text.subrange(0, kept),
    decreases text.len(),
{
    if kept == text.len() {
        assert(text.subrange(0, kept) =~= text);
    } else {
        let shorter = text.drop_last();
        assert forall|j: int| kept <= j < shorter.len() implies shorter[j] == '\0' by {
            assert(shorter[j] == text[j]);
        }
        lemma_cut_behind_last(shorter, kept);
        assert(shorter.subrange(0, kept) =~= text.subrange(0, kept));
    }
}

/// The text up to its last character that is no NUL.
fn trim_end_nuls(text: &str) -> (rest: &str)
    ensures
        rest@ == without_nuls(text@),
{
    let len = text.unicode_len();
    let mut chars = text.chars();
    let mut seen: usize = 0;
    let mut kept: usize = 0;
    loop
        invariant
            kept <= seen <= len,
            len == text@.len(),
            chars.remaining() == text@.subrange(seen as int, len as int),
            forall|j: int| kept <= j < seen ==> text@[j] == '\0',
            kept > 0 ==> text@[kept - 1] != '\0',
        ensures
            seen == len,
        decreases len - seen,
    {
        match chars.next() {
            Some(c) => {
                seen = seen + 1;
                if c != '\0' {
                    kept = seen;
                }
            },
            None => {
                break ;
            },
        }
    }
    proof {
        lemma_cut_behind_last(text@, kept as int);
    }
    text.substring_char(0, kept)
}

/// Whether a character has the Unicode property White_Space.
pub open spec fn is_white_space(c: char) -> bool {
    let code = c as u32;
    (0x09 <= code && code <= 0x0D) || code == 0x20 || code == 0x85 || code == 0xA0 || code
        == 0x1680 || (0x2000 <= code && code <= 0x200A) || code == 0x2028 || code == 0x2029
        || code == 0x202F || code == 0x205F || code == 0x3000
}

/// `text` without the white space at its start.
pub open spec fn without_leading_space(text: Seq<char>) -> Seq<char>
    decreases text.len(),
{
    if text.len() > 0 && is_white_space(text.first()) {
        without_leading_space(text.drop_first())
    } else {
        text
    }
}

/// `text` without the white space at its end.
pub open spec fn without_trailing_space(text: Seq<char>) -> Seq<char>
    decreases text.len(),
{
    if text.len() > 0 && is_white_space(text.last()) {
        without_trailing_space(text.drop_last())
    } else {
        text
    }
}

/// `text` without the white space at its start and at its end.
pub open spec fn trimmed(text: Seq<char>) -> Seq<char> {
    without_trailing_space(without_leading_space(text))
}

/// A text that is cut before its first character that is no white space is
/// the text without the white space at its start.
pub proof fn lemma_cut_before_first(text: Seq<char>, start: int)
    requires
        0 <= start <= text.len(),
        forall|j: int| 0 <= j < start ==> is_white_space(text[j]),
        start < text.len() ==> !is_white_space(text[start]),
    ensures
        without_leading_space(text) == text.subrange(start, text.len() as int),
    decreases text.len(),
{
    if start == 0 {
        assert(text.subrange(0, text.len() as int) =~= text);
    } else {
        let shorter = text.drop_first();
        assert forall|j: int| 0 <= j < start - 1 implies is_white_space(shorter[j]) by {
            assert(shorter[j] == text[j + 1]);
        }
        lemma_cut_before_first(shorter, start - 1);
        assert(shorter.subrange(start - 1, shorter.len() as int) =~= text.subrange(
            start,
            text.len() as int,
        ));
    }
}

/// A text that is cut behind its last character that is no white space is
/// the text without the white space at its end.
pub proof fn lemma_cut_behind_last_space(text: Seq<char>, end: int)
    requires
        0 <= end <= text.len(),
        forall|j: int| end <= j < text.len() ==> is_white_space(text[j]),
        end > 0 ==> !is_white_space(text[end - 1]),
    ensures
        without_trailing_space(text) == text.subrange(0, end),
    decreases text.len(),
{
    if end == text.len() {
        assert(text.subrange(0, end) =~= text);
    } else {
        let shorter = text.drop_last();
        assert forall|j: int| end <= j < shorter.len() implies is_white_space(shorter[j]) by {
            assert(shorter[j] == text[j]);
        }
        lemma_cut_behind_last_space(shorter, end);
        assert(shorter.subrange(0, end) =~= text.subrange(0, end));
    }
}

/// Whether a character is white space.
fn is_space(c: char) -> (space: bool)
    ensures
        space == is_white_space(c),
{
    let code = c as u32;
    (0x09 <= code && code <= 0x0D) || code == 0x20 || code == 0x85 || code == 0xA0 || code
        == 0x1680 || (0x2000 <= code && code <= 0x200A) || code == 0x2028 || code == 0x2029
        || code == 0x202F || code == 0x205F || code == 0x3000
}

/// The text without the white space at its start and at its end, white space
/// being the characters with the Unicode property White_Space.
fn trim(text: &str) -> (rest: &str)
    ensures
        rest@ == trimmed(text@),
{
    let len = text.unicode_len();
    let mut chars = text.chars();
    let mut seen: usize = 0;
    let mut start: usize = 0;
    let mut end: usize = 0;
    loop
        invariant
            seen <= len,
            len == text@.len(),
            chars.remaining() == text@.subrange(seen as int, len as int),
            end == 0 ==> start == seen,
            end > 0 ==> start < end <= seen && !is_white_space(text@[end - 1]),
            forall|j: int| 0 <= j < start ==> is_white_space(text@[j]),
            start < seen ==> !is_white_space(text@[start as int]),
            forall|j: int| end <= j < seen ==> is_white_space(text@[j]),
        ensures
            seen == len,
        decreases len - seen,
    {
        match chars.next() {
            Some(c) => {
                seen = seen + 1;
                if !is_space(c) {
                    end = seen;
                } else if end == 0 {
                    start = seen;
                }
            },
            None => {
                break ;
            },
        }
    }
    proof {
        lemma_cut_before_first(text@, start as int);
        let rest = text@.subrange(start as int, len as int);
        if end == 0 {
            assert(rest.len() == 0);
            assert(rest =~= text@.subrange(start as int, start as int));
        } else {
            assert forall|j: int| end - start <= j < rest.len() implies is_white_space(rest[j]) by {
                assert(rest[j] == text@[start + j]);
            }
            assert(rest[end - start - 1] == text@[end - 1]);
            lemma_cut_behind_last_space(rest, end - start);
            assert(rest.subrange(0, end - start) =~= text@.subrange(start as int, end as int));
        }
    }
    if end == 0 {
        text.substring_char(start, start)
    } else {
        text.substring_char(start, end)
    }
}

/// The text that a buffer off the wire carries.
pub open spec fn unframed(bytes: Seq<u8>) -> Seq<char> {
    trimmed(without_nuls(lossy_text(bytes)))
}

/// Reads the text out of a buffer off the wire: the bytes as text, without
/// the NUL characters at the end, and then without white space at either end.
pub fn bytes_to_string(bytes: &[u8]) -> (text: String)
    ensures
        text@ == unframed(bytes@),
{
    let text = from_utf8_lossy(bytes);
    let text = trim_end_nuls(text.as_str());
    let text = trim(text);
    text.to_owned()
}

/// `n` NUL characters.
pub open spec fn nuls(n: nat) -> Seq<char> {
    Seq::new(n, |i: int| '\0')
}

/// Whether a text has no white space at either end and no NUL at its end,
/// so that taking a buffer apart leaves it whole.
pub open spec fn tight(text: Seq<char>) -> bool {
    text.len() > 0 ==> !is_white_space(text.first()) && !is_white_space(text.last())
        && text.last() != '\0'
}

/// The encoding of two texts in a row is the one encoding behind the other.
pub proof fn lemma_encode_concat(a: Seq<char>, b: Seq<char>)
    ensures
        encode_utf8(a + b) == encode_utf8(a) + encode_utf8(b),
    decreases a.len(),
{
    if a.len() == 0 {
        assert(a + b =~= b);
        assert(encode_utf8(a) + encode_utf8(b) =~= encode_utf8(b));
    } else {
        assert((a + b).drop_first() =~= a.drop_first() + b);
        lemma_encode_concat(a.drop_first(), b);
        assert(encode_utf8(a + b) =~= encode_utf8(a) + encode_utf8(b));
    }
}

/// NUL characters are encoded as zero bytes, one for one.
pub proof fn lemma_encode_nuls(n: nat)
    ensures
        encode_utf8(nuls(n)) == Seq::new(n, |i: int| 0u8),
{
    vstd::utf8::is_ascii_chars_encode_utf8(nuls(n));
    assert(is_ascii_chars(nuls(n)));
    assert(encode_utf8(nuls(n)) =~= Seq::new(n, |i: int| 0u8));
}

/// NUL characters behind a text that ends in none are all that
/// `without_nuls` takes away.
pub proof fn lemma_without_nuls(text: Seq<char>, n: nat)
    requires
        text.len() > 0 ==> text.last() != '\0',
    ensures
        without_nuls(text + nuls(n)) == text,
    decreases n,
{
    if n == 0 {
        assert(text + nuls(n) =~= text);
    } else {
        assert((text + nuls(n)).drop_last() =~= text + nuls((n - 1) as nat));
        lemma_without_nuls(text, (n - 1) as nat);
    }
}

/// What was laid into a buffer comes out of it as it went in, if it fits
/// the buffer and is tight.
pub proof fn lemma_frame_round_trip(text: Seq<char>)
    requires
        encode_utf8(text).len() <= SOCKET_BUFFER_SIZE,
        tight(text),
    ensures
        unframed(padded(encode_utf8(text))) == text,
{
    let bytes = encode_utf8(text);
    let free = (SOCKET_BUFFER_SIZE - bytes.len()) as nat;
    lemma_encode_nuls(free);
    lemma_encode_concat(text, nuls(free));
    assert(padded(bytes) =~= bytes + Seq::new(free, |i: int| 0u8));
    vstd::utf8::encode_utf8_valid_utf8(text + nuls(free));
    vstd::utf8::encode_utf8_decode_utf8(text + nuls(free));
    assert(lossy_text(padded(bytes)) == text + nuls(free));
    lemma_without_nuls(text, free);
}

} // verus!
