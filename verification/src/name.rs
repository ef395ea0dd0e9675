//! The fixed-width buffer that carries a device name to the OS and back.
//!
//! A name travels as 24 bytes: the text, then zero bytes up to the end. Read
//! back, the name is everything up to the last byte that is not zero.

use vstd::prelude::*;
use vstd::slice::slice_subrange;
use vstd::string::StringExecFns;
use vstd::string::StringSliceAdditionalSpecFns;
use vstd::utf8::char_is_scalar;
use vstd::utf8::char_u32_cast;
use vstd::utf8::decode_utf8;
use vstd::utf8::decode_utf8_split;
use vstd::utf8::encode_scalar;
use vstd::utf8::encode_utf8;
use vstd::utf8::encode_utf8_decode_utf8;
use vstd::utf8::encode_utf8_first_scalar;
use vstd::utf8::encode_utf8_valid_utf8;
use vstd::utf8::is_char_boundary_start_end_of_seq;
use vstd::utf8::has_width_1_encoding;
use vstd::utf8::is_char_boundary;
use vstd::utf8::is_char_boundary_iff_not_is_continuation_byte;
use vstd::utf8::is_scalar;
use vstd::utf8::pop_first_scalar;
use vstd::utf8::valid_utf8;
use vstd::utf8::valid_utf8_split;

verus! {

/// How many bytes a name buffer holds.
pub const NAME_CAPACITY: usize = 24;

/// A device name in the form in which the OS takes it.
#[derive(Debug, Clone, Copy, PartialEq, Eq)]
pub struct Name {
    /// The text, then zero bytes.
    pub bytes: [u8; 24],
}

impl View for Name {
    type V = Seq<u8>;

    open spec fn view(&self) -> Seq<u8> {
        self.bytes@
    }
}

/// Which of an adapter's two names could not be read as text.
#[derive(Debug, Clone, Copy, PartialEq, Eq, Structural)]
pub enum ErrorName {
    /// The name that the OS knows the device by.
    KernelName,
    /// The name that the caller chose.
    CustomName,
}

impl ErrorName {
    /// The diagnostic line of a name that is not text.
    pub open spec fn line(self) -> Seq<char> {
        match self {
            ErrorName::KernelName => "kernel name - invalid UTF-8 sequence"@,
            ErrorName::CustomName => "custom name - invalid UTF-8 sequence"@,
        }
    }

    /// Renders the error as one line of text for diagnostics.
    pub fn describe(&self) -> (line: String)
        ensures
            line@ == self.line(),
    {
        match self {
            ErrorName::KernelName => String::from_str("kernel name - invalid UTF-8 sequence"),
            ErrorName::CustomName => String::from_str("custom name - invalid UTF-8 sequence"),
        }
    }
}

/// The length of the name that `buf` holds: one past its last byte that is
/// not zero, and 0 where every byte is zero.
pub open spec fn logical_len(buf: Seq<u8>) -> nat
    decreases buf.len(),
{
    if buf.len() == 0 {
        0
    } else if buf.last() != 0 {
        buf.len()
    } else {
        logical_len(buf.drop_last())
    }
}

/// The bytes of the name that `buf` holds, without the padding.
pub open spec fn logical(buf: Seq<u8>) -> Seq<u8> {
    buf.subrange(0, logical_len(buf) as int)
}

/// The name that `buf` holds as text, or `None` where its bytes are not
/// UTF-8.
pub open spec fn text_of(buf: Seq<u8>) -> Option<Seq<char>> {
    if valid_utf8(logical(buf)) {
        Some(decode_utf8(logical(buf)))
    } else {
        None
    }
}

/// The nearest character boundary of `text` at or below `limit`.
pub open spec fn boundary_at_or_below(text: Seq<u8>, limit: int) -> int
    decreases limit,
{
    if limit <= 0 {
        0
    } else if is_char_boundary(text, limit) {
        limit
    } else {
        boundary_at_or_below(text, limit - 1)
    }
}

/// How many bytes of `text` a name buffer keeps: all of them where they fit,
/// else as many whole characters as fit.
pub open spec fn fitting_len(text: Seq<u8>) -> int {
    if text.len() <= NAME_CAPACITY {
        text.len() as int
    } else {
        boundary_at_or_below(text, NAME_CAPACITY as int)
    }
}

/// `front` followed by zero bytes up to the capacity of a name buffer.
pub open spec fn padded(front: Seq<u8>) -> Seq<u8> {
    front + Seq::new((NAME_CAPACITY - front.len()) as nat, |i: int| 0u8)
}

/// The 24 bytes that stand for the name whose encoding is `text`.
pub open spec fn stored(text: Seq<u8>) -> Seq<u8> {
    padded(text.subrange(0, fitting_len(text)))
}

/// Reads `bytes` as UTF-8 with `core::str::from_utf8`.
///
/// Taken on trust from the standard library: the call succeeds exactly on
/// well-formed UTF-8, and the text it returns is made of the very bytes it
/// was given.
#[verifier::external_body]
fn from_utf8(bytes: &[u8]) -> (text: Option<&str>)
    ensures
        text is Some <==> valid_utf8(bytes@),
        text matches Some(s) ==> s.spec_bytes() == bytes@,
{
    match core::str::from_utf8(bytes) {
        Ok(text) => Some(text),
        Err(_) => None,
    }
}

impl Name {
    /// Stores `name`, cut after its last character that still fits.
    pub fn from_text(name: &str) -> (stored_name: Name)
        ensures
            stored_name@ == stored(name.spec_bytes()),
    {
        let text = name.as_bytes();
        proof {
            encode_utf8_valid_utf8(name@);
            is_char_boundary_start_end_of_seq(text@);
        }
        let mut cut: usize = text.len();
        if cut > NAME_CAPACITY {
            cut = NAME_CAPACITY;
            while !name.is_char_boundary(cut)
                invariant
                    cut <= NAME_CAPACITY < text@.len(),
                    text@ == name.spec_bytes(),
                    is_char_boundary(text@, 0),
                    boundary_at_or_below(text@, cut as int) == fitting_len(text@),
                decreases cut,
            {
                cut = cut - 1;
            }
        }
        let mut bytes: [u8; 24] = [0u8; 24];
        let mut i: usize = 0;
        while i < cut
            invariant
                i <= cut <= NAME_CAPACITY,
                cut <= text@.len(),
                bytes@ == padded(text@.subrange(0, i as int)),
            decreases cut - i,
        {
            bytes[i] = text[i];
            i = i + 1;
        }
        Name { bytes }
    }

    /// The length of the name, without the padding.
    pub fn logical_len(&self) -> (len: usize)
        ensures
            len == logical_len(self@),
    {
        let mut len: usize = NAME_CAPACITY;
        assert(self@.subrange(0, len as int) == self@);
        while len > 0 && self.bytes[len - 1] == 0
            invariant
                len <= NAME_CAPACITY == self@.len(),
                logical_len(self@.subrange(0, len as int)) == logical_len(self@),
            decreases len,
        {
            assert(self@.subrange(0, len as int).drop_last() == self@.subrange(0, len - 1));
            len = len - 1;
        }
        len
    }

    /// The name as text, or `None` where its bytes are not UTF-8.
    pub fn text(&self) -> (decoded: Option<String>)
        ensures
            match decoded {
                Some(text) => text_of(self@) == Some(text@),
                None => text_of(self@) is None,
            },
    {
        let len = self.logical_len();
        proof {
            lemma_logical_len_bound(self@);
        }
        let front = slice_subrange(self.bytes.as_slice(), 0, len);
        match from_utf8(front) {
            Some(text) => {
                proof {
                    encode_utf8_decode_utf8(text@);
                }
                Some(String::from_str(text))
            },
            None => None,
        }
    }
}

/// The length that `logical_len` gives lies within the buffer.
pub proof fn lemma_logical_len_bound(buf: Seq<u8>)
    ensures
        logical_len(buf) <= buf.len(),
    decreases buf.len(),
{
    if buf.len() > 0 && buf.last() == 0 {
        lemma_logical_len_bound(buf.drop_last());
    }
}

/// Past the length that `logical_len` gives every byte is zero, and the byte
/// just before it is not.
pub proof fn lemma_logical_len_is_last_nonzero(buf: Seq<u8>)
    ensures
        forall|i: int| logical_len(buf) <= i < buf.len() ==> buf[i] == 0,
        logical_len(buf) > 0 ==> buf[logical_len(buf) - 1] != 0,
    decreases buf.len(),
{
    if buf.len() > 0 && buf.last() == 0 {
        let front = buf.drop_last();
        lemma_logical_len_is_last_nonzero(front);
        lemma_logical_len_bound(front);
        assert forall|i: int| logical_len(buf) <= i < buf.len() implies buf[i] == 0 by {
            if i < front.len() {
                assert(buf[i] == front[i]);
            }
        }
    }
}

/// Zero bytes behind a name do not change its length.
proof fn lemma_logical_len_ignores_padding(front: Seq<u8>, zeros: nat)
    ensures
        logical_len(front + Seq::new(zeros, |i: int| 0u8)) == logical_len(front),
    decreases zeros,
{
    let whole = front + Seq::new(zeros, |i: int| 0u8);
    if zeros == 0 {
        assert(whole == front);
    } else {
        assert(whole.drop_last() == front + Seq::new((zeros - 1) as nat, |i: int| 0u8));
        lemma_logical_len_ignores_padding(front, (zeros - 1) as nat);
    }
}

/// Padding a name and reading it back strips its own trailing zero bytes and
/// nothing else.
pub proof fn lemma_logical_of_padded(front: Seq<u8>)
    requires
        front.len() <= NAME_CAPACITY,
    ensures
        logical(padded(front)) == logical(front),
{
    lemma_logical_len_ignores_padding(front, (NAME_CAPACITY - front.len()) as nat);
    lemma_logical_len_bound(front);
}

/// A text without its trailing zero bytes is still text, and its characters
/// are the first of the whole text's.
pub proof fn lemma_logical_of_text(text: Seq<u8>)
    requires
        valid_utf8(text),
    ensures
        valid_utf8(logical(text)),
        decode_utf8(logical(text)).is_prefix_of(decode_utf8(text)),
{
    let len = logical_len(text) as int;
    lemma_logical_len_bound(text);
    lemma_logical_len_is_last_nonzero(text);
    if len < text.len() {
        is_char_boundary_iff_not_is_continuation_byte(text, len);
    } else {
        is_char_boundary_start_end_of_seq(text);
    }
    valid_utf8_split(text, len);
    decode_utf8_split(text, len);
}

/// `boundary_at_or_below` gives the greatest character boundary that is not
/// above the limit.
pub proof fn lemma_boundary_at_or_below(text: Seq<u8>, limit: int)
    requires
        valid_utf8(text),
        0 <= limit <= text.len(),
    ensures
        0 <= boundary_at_or_below(text, limit) <= limit,
        is_char_boundary(text, boundary_at_or_below(text, limit)),
        forall|k: int|
            boundary_at_or_below(text, limit) < k <= limit ==> !is_char_boundary(text, k),
    decreases limit,
{
    is_char_boundary_start_end_of_seq(text);
    if limit > 0 && !is_char_boundary(text, limit) {
        lemma_boundary_at_or_below(text, limit - 1);
    }
}

/// What a name buffer keeps of a text ends on a character boundary, fits
/// the buffer, and no longer run of whole characters would fit.
pub proof fn lemma_fitting_len(text: Seq<u8>)
    requires
        valid_utf8(text),
    ensures
        0 <= fitting_len(text) <= NAME_CAPACITY,
        fitting_len(text) <= text.len(),
        is_char_boundary(text, fitting_len(text)),
        forall|k: int|
            fitting_len(text) < k <= NAME_CAPACITY && k <= text.len() ==> !is_char_boundary(
                text,
                k,
            ),
{
    if text.len() <= NAME_CAPACITY {
        is_char_boundary_start_end_of_seq(text);
    } else {
        lemma_boundary_at_or_below(text, NAME_CAPACITY as int);
    }
}

/// Whatever the name, what is stored of it reads back as text, and that
/// text is made of the first characters of the name.
pub proof fn lemma_stored_is_text(name: Seq<char>)
    ensures
        text_of(stored(encode_utf8(name))) matches Some(kept) && kept.is_prefix_of(name),
{
    let text = encode_utf8(name);
    encode_utf8_valid_utf8(name);
    encode_utf8_decode_utf8(name);
    lemma_fitting_len(text);
    let front = text.subrange(0, fitting_len(text));
    valid_utf8_split(text, fitting_len(text));
    decode_utf8_split(text, fitting_len(text));
    lemma_logical_of_padded(front);
    lemma_logical_of_text(front);
}

/// The first characters of a name are encoded by the first bytes of its
/// encoding, up to a character boundary.
pub proof fn lemma_encoding_of_front(name: Seq<char>, count: int)
    requires
        0 <= count <= name.len(),
    ensures
        encode_utf8(name.take(count)).is_prefix_of(encode_utf8(name)),
        is_char_boundary(encode_utf8(name), encode_utf8(name.take(count)).len() as int),
    decreases name.len(),
{
    let text = encode_utf8(name);
    encode_utf8_valid_utf8(name);
    if count == 0 {
        assert(name.take(0).len() == 0);
        is_char_boundary_start_end_of_seq(text);
    } else {
        let head = encode_scalar(name[0] as u32);
        let rest = name.drop_first();
        let front = name.take(count);
        lemma_encoding_of_front(rest, count - 1);
        encode_utf8_first_scalar(name);
        assert(front.drop_first() == rest.take(count - 1));
        assert(encode_utf8(front) == head + encode_utf8(rest.take(count - 1)));
        assert(text == head + encode_utf8(rest));
        assert(pop_first_scalar(text) == encode_utf8(rest));
    }
}

/// Of the runs of whole characters from the front of a name, none that fits
/// the buffer is longer than what the buffer keeps.
pub proof fn lemma_fitting_len_is_longest(name: Seq<char>, count: int)
    requires
        0 <= count <= name.len(),
        encode_utf8(name.take(count)).len() <= NAME_CAPACITY,
    ensures
        encode_utf8(name.take(count)).len() <= fitting_len(encode_utf8(name)),
{
    encode_utf8_valid_utf8(name);
    lemma_encoding_of_front(name, count);
    lemma_fitting_len(encode_utf8(name));
}

/// The encoding of a character ends in a zero byte only where the character
/// is NUL.
proof fn lemma_encode_scalar_last(scalar: u32)
    requires
        is_scalar(scalar),
    ensures
        encode_scalar(scalar).len() > 0,
        encode_scalar(scalar).last() == 0 <==> scalar == 0,
{
    if has_width_1_encoding(scalar) {
        assert((scalar & 0x7F) as u8 == 0 <==> scalar == 0) by (bit_vector)
            requires
                scalar <= 0x7F,
        ;
    } else {
        let low = (scalar & 0x3F) as u8;
        assert(0x80u8 | low != 0) by (bit_vector);
    }
}

/// The encoding of a text ends in a zero byte only where the text ends in
/// NUL.
pub proof fn lemma_encoding_ends_in_zero(name: Seq<char>)
    requires
        name.len() > 0,
    ensures
        encode_utf8(name).len() > 0,
        encode_utf8(name).last() == 0 <==> name.last() == '\0',
    decreases name.len(),
{
    let head = encode_scalar(name[0] as u32);
    let rest = name.drop_first();
    assert(encode_utf8(name) == head + encode_utf8(rest));
    if rest.len() > 0 {
        lemma_encoding_ends_in_zero(rest);
        assert((head + encode_utf8(rest)).last() == encode_utf8(rest).last());
        assert(name.last() == rest.last());
    } else {
        char_is_scalar(name[0]);
        lemma_encode_scalar_last(name[0] as u32);
        assert(head + encode_utf8(rest) == head);
        if name[0] as u32 == 0 {
            char_u32_cast(name[0], 0u32);
            char_u32_cast('\0', 0u32);
        }
    }
}

/// A name that fits the buffer and does not end in NUL reads back exactly as
/// it was stored.
pub proof fn lemma_short_name_round_trip(name: Seq<char>)
    requires
        encode_utf8(name).len() <= NAME_CAPACITY,
        name.len() > 0 ==> name.last() != '\0',
    ensures
        logical(stored(encode_utf8(name))) == encode_utf8(name),
        text_of(stored(encode_utf8(name))) == Some(name),
{
    let text = encode_utf8(name);
    encode_utf8_valid_utf8(name);
    encode_utf8_decode_utf8(name);
    if name.len() > 0 {
        lemma_encoding_ends_in_zero(name);
    }
    assert(text.subrange(0, fitting_len(text)) == text);
    lemma_logical_of_padded(text);
    assert(logical(text) == text);
}

} // verus!
