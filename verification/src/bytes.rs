//! Byte-level building blocks: little-endian integers, length-prefixed
//! strings, lowercase hexadecimal, ASCII predicates and byte-wise ordering.
use vstd::prelude::*;
use vstd::utf8::*;

verus! {

broadcast use is_ascii_chars_encode_utf8;

/// The UTF-8 bytes of a string, as `str::as_bytes` returns them.
pub open spec fn str_bytes(text: Seq<char>) -> Seq<u8> {
    encode_utf8(text)
}

/// Little-endian encoding of a `u32`.
pub open spec fn le32(value: u32) -> Seq<u8> {
    seq![
        (value & 0xff) as u8,
        ((value >> 8u32) & 0xff) as u8,
        ((value >> 16u32) & 0xff) as u8,
        ((value >> 24u32) & 0xff) as u8,
    ]
}

/// Little-endian encoding of a `u64`.
pub open spec fn le64(value: u64) -> Seq<u8> {
    seq![
        (value & 0xff) as u8,
        ((value >> 8u64) & 0xff) as u8,
        ((value >> 16u64) & 0xff) as u8,
        ((value >> 24u64) & 0xff) as u8,
        ((value >> 32u64) & 0xff) as u8,
        ((value >> 40u64) & 0xff) as u8,
        ((value >> 48u64) & 0xff) as u8,
        ((value >> 56u64) & 0xff) as u8,
    ]
}

/// A byte string framed by its length as a little-endian `u32`.
pub open spec fn framed(data: Seq<u8>) -> Seq<u8> {
    le32(data.len() as u32) + data
}

/// `byte.is_ascii_hexdigit()`.
pub open spec fn is_hex_digit(byte: u8) -> bool {
    (48 <= byte <= 57) || (65 <= byte <= 70) || (97 <= byte <= 102)
}

/// `byte.is_ascii_digit()`.
pub open spec fn is_decimal_digit(byte: u8) -> bool {
    48 <= byte <= 57
}

/// Every byte is an ASCII hexadecimal digit.
pub open spec fn all_hex(data: Seq<u8>) -> bool {
    forall|i: int| 0 <= i < data.len() ==> is_hex_digit(#[trigger] data[i])
}

/// The character of a nibble in lowercase hexadecimal.
pub open spec fn hex_char(nibble: u8) -> char {
    if nibble < 10 {
        (nibble + 48) as char
    } else {
        (nibble + 87) as char
    }
}

/// Lowercase hexadecimal text of a byte string, two characters per byte.
pub open spec fn hex_lower(data: Seq<u8>) -> Seq<char> {
    Seq::new(
        2 * data.len(),
        |i: int|
            if i % 2 == 0 {
                hex_char(data[i / 2] >> 4u8)
            } else {
                hex_char(data[i / 2] & 0x0fu8)
            },
    )
}

/// Byte-wise lexicographic order, as `str` and `[u8]` compare.
pub open spec fn bytes_lt(left: Seq<u8>, right: Seq<u8>) -> bool
    decreases left.len(),
{
    if left.len() == 0 {
        right.len() > 0
    } else if right.len() == 0 {
        false
    } else if left[0] != right[0] {
        left[0] < right[0]
    } else {
        bytes_lt(left.drop_first(), right.drop_first())
    }
}

/// `bytes.extend_from_slice(&value.to_le_bytes())` for a `u32`.
pub fn put_u32(bytes: &mut Vec<u8>, value: u32)
    ensures
        final(bytes)@ == old(bytes)@ + le32(value),
{
    bytes.push((value & 0xff) as u8);
    bytes.push(((value >> 8u32) & 0xff) as u8);
    bytes.push(((value >> 16u32) & 0xff) as u8);
    bytes.push(((value >> 24u32) & 0xff) as u8);
    assert(final(bytes)@ =~= old(bytes)@ + le32(value));
}

/// `bytes.extend_from_slice(&value.to_le_bytes())` for a `u64`.
pub fn put_u64(bytes: &mut Vec<u8>, value: u64)
    ensures
        final(bytes)@ == old(bytes)@ + le64(value),
{
    bytes.push((value & 0xff) as u8);
    bytes.push(((value >> 8u64) & 0xff) as u8);
    bytes.push(((value >> 16u64) & 0xff) as u8);
    bytes.push(((value >> 24u64) & 0xff) as u8);
    bytes.push(((value >> 32u64) & 0xff) as u8);
    bytes.push(((value >> 40u64) & 0xff) as u8);
    bytes.push(((value >> 48u64) & 0xff) as u8);
    bytes.push(((value >> 56u64) & 0xff) as u8);
    assert(final(bytes)@ =~= old(bytes)@ + le64(value));
}

/// Appends a byte slice.
pub fn put_bytes(bytes: &mut Vec<u8>, data: &[u8])
    ensures
        final(bytes)@ == old(bytes)@ + data@,
{
    let ghost start = bytes@;
    let mut i: usize = 0;
    while i < data.len()
        invariant
            i <= data@.len(),
            bytes@ == start + data@.take(i as int),
        decreases data@.len() - i,
    {
        bytes.push(data[i]);
        i = i + 1;
        assert(bytes@ =~= start + data@.take(i as int));
    }
    assert(data@.take(i as int) =~= data@);
}

/// Whether two byte slices are equal.
pub fn bytes_equal(left: &[u8], right: &[u8]) -> (equal: bool)
    ensures
        equal == (left@ == right@),
{
    if left.len() != right.len() {
        return false;
    }
    let mut i: usize = 0;
    while i < left.len()
        invariant
            left@.len() == right@.len(),
            i <= left@.len(),
            forall|j: int| 0 <= j < i ==> left@[j] == right@[j],
        decreases left@.len() - i,
    {
        if left[i] != right[i] {
            return false;
        }
        i = i + 1;
    }
    assert(left@ =~= right@);
    true
}

/// Whether `left` sorts strictly before `right` byte-wise.
pub fn bytes_less(left: &[u8], right: &[u8]) -> (less: bool)
    ensures
        less == bytes_lt(left@, right@),
{
    let mut i: usize = 0;
    assert(left@.skip(0) =~= left@);
    assert(right@.skip(0) =~= right@);
    while i < left.len() && i < right.len()
        invariant
            i <= left@.len(),
            i <= right@.len(),
            bytes_lt(left@, right@) == bytes_lt(left@.skip(i as int), right@.skip(i as int)),
        decreases left@.len() - i,
    {
        if left[i] != right[i] {
            return left[i] < right[i];
        }
        assert(left@.skip(i as int).drop_first() =~= left@.skip(i + 1));
        assert(right@.skip(i as int).drop_first() =~= right@.skip(i + 1));
        i = i + 1;
    }
    i == left.len() && i < right.len()
}

/// Whether every byte is an ASCII hexadecimal digit.
pub fn all_hex_digits(data: &[u8]) -> (all: bool)
    ensures
        all == all_hex(data@),
{
    let mut i: usize = 0;
    while i < data.len()
        invariant
            i <= data@.len(),
            forall|j: int| 0 <= j < i ==> is_hex_digit(#[trigger] data@[j]),
        decreases data@.len() - i,
    {
        let byte = data[i];
        if !((48 <= byte && byte <= 57) || (65 <= byte && byte <= 70) || (97 <= byte && byte
            <= 102)) {
            assert(!is_hex_digit(data@[i as int]));
            return false;
        }
        i = i + 1;
    }
    true
}

/// Lowercase hexadecimal text of a byte string.
pub fn hex(bytes: &[u8]) -> (text: String)
    ensures
        text@ == hex_lower(bytes@),
        is_ascii_chars(text@),
        str_bytes(text@).len() == 2 * bytes@.len(),
{
    let mut output = String::new();
    let mut i: usize = 0;
    while i < bytes.len()
        invariant
            i <= bytes@.len(),
            output@ =~= hex_lower(bytes@.take(i as int)),
        decreases bytes@.len() - i,
    {
        let byte = bytes[i];
        assert(byte >> 4u8 < 16 && byte & 0x0fu8 < 16) by (bit_vector);
        push_char(&mut output, nibble_char(byte >> 4u8));
        push_char(&mut output, nibble_char(byte & 0x0fu8));
        i = i + 1;
        assert(output@ =~= hex_lower(bytes@.take(i as int)));
    }
    assert(bytes@.take(i as int) =~= bytes@);
    proof {
        lemma_hex_is_ascii(bytes@);
    }
    output
}

fn nibble_char(nibble: u8) -> (c: char)
    requires
        nibble < 16,
    ensures
        c == hex_char(nibble),
{
    if nibble < 10 {
        (nibble + 48) as char
    } else {
        (nibble + 87) as char
    }
}

/// Hexadecimal text is ASCII, two bytes per input byte.
pub proof fn lemma_hex_is_ascii(data: Seq<u8>)
    ensures
        is_ascii_chars(hex_lower(data)),
        str_bytes(hex_lower(data)).len() == 2 * data.len(),
{
    let text = hex_lower(data);
    assert forall|i: int| 0 <= i < text.len() implies '\0' <= #[trigger] text[i] <= '\u{7f}' by {
        let b = data[i / 2];
        assert(b >> 4u8 < 16) by (bit_vector);
        assert(b & 0x0fu8 < 16) by (bit_vector);
    }
    assert(is_ascii_chars(text));
}

/// The 32 bytes of a slice of that length as an array.
pub fn array32(data: &[u8]) -> (array: [u8; 32])
    requires
        data@.len() == 32,
    ensures
        array@ == data@,
{
    let mut array = [0u8; 32];
    let mut i: usize = 0;
    while i < 32
        invariant
            data@.len() == 32,
            i <= 32,
            forall|j: int| 0 <= j < i ==> array@[j] == data@[j],
        decreases 32 - i,
    {
        array[i] = data[i];
        i = i + 1;
    }
    assert(array@ =~= data@);
    array
}

/// The 64 bytes of a slice of that length as an array.
pub fn array64(data: &[u8]) -> (array: [u8; 64])
    requires
        data@.len() == 64,
    ensures
        array@ == data@,
{
    let mut array = [0u8; 64];
    let mut i: usize = 0;
    while i < 64
        invariant
            data@.len() == 64,
            i <= 64,
            forall|j: int| 0 <= j < i ==> array@[j] == data@[j],
        decreases 64 - i,
    {
        array[i] = data[i];
        i = i + 1;
    }
    assert(array@ =~= data@);
    array
}

/// A copy of `data[start..end]`.
pub fn copy_range(data: &[u8], start: usize, end: usize) -> (part: Vec<u8>)
    requires
        start <= end <= data@.len(),
    ensures
        part@ == data@.subrange(start as int, end as int),
{
    let mut part: Vec<u8> = Vec::new();
    let mut i: usize = start;
    while i < end
        invariant
            start <= i <= end,
            end <= data@.len(),
            part@ == data@.subrange(start as int, i as int),
        decreases end - i,
    {
        part.push(data[i]);
        i = i + 1;
        assert(part@ =~= data@.subrange(start as int, i as int));
    }
    part
}

/// The position of the first occurrence of `byte` at or after `from`.
pub open spec fn find_byte(data: Seq<u8>, byte: u8, from: int) -> Option<int>
    decreases data.len() - from,
{
    if from < 0 || from >= data.len() {
        None
    } else if data[from] == byte {
        Some(from)
    } else {
        find_byte(data, byte, from + 1)
    }
}

/// Finds the first occurrence of `byte` at or after `from`.
pub fn find_byte_from(data: &[u8], byte: u8, from: usize) -> (found: Option<usize>)
    ensures
        match found {
            Some(i) => from <= i < data@.len() && data@[i as int] == byte && find_byte(
                data@,
                byte,
                from as int,
            ) == Some(i as int),
            None => find_byte(data@, byte, from as int) is None,
        },
{
    let mut i: usize = from;
    while i < data.len()
        invariant
            from <= i,
            find_byte(data@, byte, from as int) == find_byte(data@, byte, i as int),
        decreases data@.len() - i,
    {
        if data[i] == byte {
            return Some(i);
        }
        i = i + 1;
    }
    None
}

/// A position with no occurrence of `byte` from there to the end.
pub proof fn lemma_find_byte_absent(data: Seq<u8>, byte: u8, from: int)
    requires
        0 <= from,
        forall|i: int| from <= i < data.len() ==> data[i] != byte,
    ensures
        find_byte(data, byte, from) is None,
    decreases data.len() - from,
{
    if from < data.len() {
        lemma_find_byte_absent(data, byte, from + 1);
    }
}

/// The first occurrence of `byte` at or after `from` is at `at`.
pub proof fn lemma_find_byte_at(data: Seq<u8>, byte: u8, from: int, at: int)
    requires
        0 <= from <= at < data.len(),
        data[at] == byte,
        forall|i: int| from <= i < at ==> data[i] != byte,
    ensures
        find_byte(data, byte, from) == Some(at),
    decreases at - from,
{
    if from < at {
        lemma_find_byte_at(data, byte, from + 1, at);
    }
}

/// UTF-8 encoding distributes over concatenation.
pub proof fn lemma_str_bytes_concat(left: Seq<char>, right: Seq<char>)
    ensures
        str_bytes(left + right) == str_bytes(left) + str_bytes(right),
    decreases left.len(),
{
    if left.len() == 0 {
        assert(left + right =~= right);
    } else {
        lemma_str_bytes_concat(left.drop_first(), right);
        assert((left + right).drop_first() =~= left.drop_first() + right);
        assert(str_bytes(left + right) =~= str_bytes(left) + str_bytes(right));
    }
}

/// `String::push`: the character is appended to the text.
#[verifier::external_body]
pub(crate) fn push_char(text: &mut String, c: char)
    ensures
        final(text)@ == old(text)@.push(c),
{
    text.push(c)
}

} // verus!
