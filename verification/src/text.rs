//! Byte strings and text: the printable ASCII range, conversion of ASCII bytes
//! to `String`, decimal and hexadecimal rendering of integers, and substring
//! search.
use vstd::prelude::*;
use vstd::string::StringExecFns;
use vstd::utf8::{decode_utf8, encode_utf8, is_ascii_chars, valid_utf8};

verus! {

/// A byte that is ASCII and not a control character.
pub open spec fn is_printable(b: u8) -> bool {
    0x20 <= b <= 0x7e
}

/// Every byte of the sequence is printable ASCII.
pub open spec fn all_printable(bytes: Seq<u8>) -> bool {
    forall|i: int| 0 <= i < bytes.len() ==> is_printable(#[trigger] bytes[i])
}

/// Every byte of the sequence is below 128.
pub open spec fn all_ascii(bytes: Seq<u8>) -> bool {
    forall|i: int| 0 <= i < bytes.len() ==> #[trigger] bytes[i] < 128
}

/// The text that a sequence of ASCII bytes spells: one character per byte.
pub open spec fn ascii_chars(bytes: Seq<u8>) -> Seq<char> {
    Seq::new(bytes.len(), |i: int| bytes[i] as char)
}

/// ASCII bytes are well-formed UTF-8 that decodes byte by byte.
pub proof fn lemma_ascii_is_utf8(bytes: Seq<u8>)
    requires
        all_ascii(bytes),
    ensures
        valid_utf8(bytes),
        decode_utf8(bytes) == ascii_chars(bytes),
        encode_utf8(ascii_chars(bytes)) == bytes,
{
    let chars = ascii_chars(bytes);
    assert(is_ascii_chars(chars)) by {
        assert forall|i: int| 0 <= i < chars.len() implies '\0' <= #[trigger] chars[i]
            <= '\u{7f}' by {
            assert(bytes[i] < 128);
        }
    }
    vstd::utf8::is_ascii_chars_encode_utf8(chars);
    assert(encode_utf8(chars) =~= bytes) by {
        assert forall|i: int| 0 <= i < bytes.len() implies encode_utf8(chars)[i] == bytes[i] by {
            assert(bytes[i] < 128);
            assert(chars[i] as u8 == encode_utf8(chars)[i]);
        }
    }
    vstd::utf8::encode_utf8_valid_utf8(chars);
    vstd::utf8::encode_utf8_decode_utf8(chars);
}

/// `String::from_utf8` of the standard library, with its error dropped: the
/// call succeeds exactly on well-formed UTF-8, and the string it gives is the
/// decoding of the bytes.
#[verifier::external_body]
fn string_from_utf8(bytes: Vec<u8>) -> (r: Option<String>)
    ensures
        r is Some <==> valid_utf8(bytes@),
        r matches Some(s) ==> s@ == decode_utf8(bytes@),
{
    String::from_utf8(bytes).ok()
}

/// Whether every byte is printable ASCII.
pub fn is_printable_ascii(buffer: &[u8]) -> (r: bool)
    ensures
        r == all_printable(buffer@),
{
    let mut i: usize = 0;
    while i < buffer.len()
        invariant
            i <= buffer.len(),
            forall|j: int| 0 <= j < i ==> is_printable(#[trigger] buffer@[j]),
        decreases buffer.len() - i,
    {
        let b: u8 = buffer[i];
        if b < 0x20 || b > 0x7e {
            assert(!is_printable(buffer@[i as int]));
            return false;
        }
        i += 1;
    }
    true
}

/// The string spelled by ASCII bytes; `None` when some byte is 128 or more.
pub fn ascii_to_string(bytes: Vec<u8>) -> (r: Option<String>)
    ensures
        r is Some <==> all_ascii(bytes@),
        r matches Some(s) ==> s@ == ascii_chars(bytes@),
{
    let mut i: usize = 0;
    while i < bytes.len()
        invariant
            i <= bytes.len(),
            forall|j: int| 0 <= j < i ==> #[trigger] bytes@[j] < 128,
        decreases bytes.len() - i,
    {
        if bytes[i] >= 128 {
            return None;
        }
        i += 1;
    }
    proof {
        lemma_ascii_is_utf8(bytes@);
    }
    string_from_utf8(bytes)
}

/// The character of a decimal digit.
pub open spec fn digit_char(d: nat) -> char {
    if d == 0 {
        '0'
    } else if d == 1 {
        '1'
    } else if d == 2 {
        '2'
    } else if d == 3 {
        '3'
    } else if d == 4 {
        '4'
    } else if d == 5 {
        '5'
    } else if d == 6 {
        '6'
    } else if d == 7 {
        '7'
    } else if d == 8 {
        '8'
    } else {
        '9'
    }
}

/// The decimal digits of a number, most significant first, without leading
/// zeros.
pub open spec fn decimal_digits(n: nat) -> Seq<char>
    decreases n,
{
    if n < 10 {
        seq![digit_char(n)]
    } else {
        decimal_digits(n / 10).push(digit_char(n % 10))
    }
}

fn digit_str(d: u64) -> (r: &'static str)
    requires
        d < 10,
    ensures
        r@ == seq![digit_char(d as nat)],
{
    proof {
        reveal_strlit("0");
        reveal_strlit("1");
        reveal_strlit("2");
        reveal_strlit("3");
        reveal_strlit("4");
        reveal_strlit("5");
        reveal_strlit("6");
        reveal_strlit("7");
        reveal_strlit("8");
        reveal_strlit("9");
    }
    let r = if d == 0 {
        "0"
    } else if d == 1 {
        "1"
    } else if d == 2 {
        "2"
    } else if d == 3 {
        "3"
    } else if d == 4 {
        "4"
    } else if d == 5 {
        "5"
    } else if d == 6 {
        "6"
    } else if d == 7 {
        "7"
    } else if d == 8 {
        "8"
    } else {
        "9"
    };
    assert(r@ =~= seq![digit_char(d as nat)]);
    r
}

/// The number written in decimal.
pub fn decimal(n: u64) -> (r: String)
    ensures
        r@ == decimal_digits(n as nat),
    decreases n,
{
    if n < 10 {
        String::from_str(digit_str(n))
    } else {
        let mut r = decimal(n / 10);
        r.append(digit_str(n % 10));
        assert(r@ =~= decimal_digits((n / 10) as nat).push(digit_char((n % 10) as nat)));
        r
    }
}

/// The character of a hexadecimal digit, in lower case.
pub open spec fn hex_digit_char(d: nat) -> char {
    if d < 10 {
        digit_char(d)
    } else if d == 10 {
        'a'
    } else if d == 11 {
        'b'
    } else if d == 12 {
        'c'
    } else if d == 13 {
        'd'
    } else if d == 14 {
        'e'
    } else {
        'f'
    }
}

/// The hexadecimal digits of a number in lower case, most significant first,
/// without leading zeros.
pub open spec fn hex_digits(n: nat) -> Seq<char>
    decreases n,
{
    if n < 16 {
        seq![hex_digit_char(n)]
    } else {
        hex_digits(n / 16).push(hex_digit_char(n % 16))
    }
}

fn hex_digit_str(d: u64) -> (r: &'static str)
    requires
        d < 16,
    ensures
        r@ == seq![hex_digit_char(d as nat)],
{
    if d < 10 {
        digit_str(d)
    } else {
        proof {
            reveal_strlit("a");
            reveal_strlit("b");
            reveal_strlit("c");
            reveal_strlit("d");
            reveal_strlit("e");
            reveal_strlit("f");
        }
        let r = if d == 10 {
            "a"
        } else if d == 11 {
            "b"
        } else if d == 12 {
            "c"
        } else if d == 13 {
            "d"
        } else if d == 14 {
            "e"
        } else {
            "f"
        };
        assert(r@ =~= seq![hex_digit_char(d as nat)]);
        r
    }
}

/// The number written in hexadecimal, in lower case.
pub fn lower_hex(n: u64) -> (r: String)
    ensures
        r@ == hex_digits(n as nat),
    decreases n,
{
    if n < 16 {
        String::from_str(hex_digit_str(n))
    } else {
        let mut r = lower_hex(n / 16);
        r.append(hex_digit_str(n % 16));
        assert(r@ =~= hex_digits((n / 16) as nat).push(hex_digit_char((n % 16) as nat)));
        r
    }
}

/// `needle` occurs in `hay` starting at position `at`.
pub open spec fn occurs_at<T>(hay: Seq<T>, needle: Seq<T>, at: int) -> bool {
    &&& 0 <= at
    &&& at + needle.len() <= hay.len()
    &&& hay.subrange(at, at + needle.len()) == needle
}

/// `needle` is a contiguous part of `hay`.
pub open spec fn is_substring<T>(hay: Seq<T>, needle: Seq<T>) -> bool {
    exists|at: int| occurs_at(hay, needle, at)
}

fn matches_at(hay: &[u8], needle: &[u8], at: usize) -> (r: bool)
    requires
        at + needle@.len() <= hay@.len(),
    ensures
        r == occurs_at(hay@, needle@, at as int),
{
    let hay_len: usize = hay.len();
    let mut j: usize = 0;
    while j < needle.len()
        invariant
            j <= needle.len(),
            at + needle@.len() <= hay@.len(),
            hay@.len() == hay_len,
            forall|k: int| 0 <= k < j ==> hay@[at + k] == needle@[k],
        decreases needle.len() - j,
    {
        if hay[at + j] != needle[j] {
            assert(hay@.subrange(at as int, at + needle@.len())[j as int] != needle@[j as int]);
            return false;
        }
        j += 1;
    }
    assert(hay@.subrange(at as int, at + needle@.len()) =~= needle@);
    true
}

/// Whether `needle` is a contiguous part of `hay`. The empty needle is part of
/// every sequence.
pub fn contains_bytes(hay: &[u8], needle: &[u8]) -> (r: bool)
    ensures
        r == is_substring(hay@, needle@),
{
    if needle.len() > hay.len() {
        assert(!is_substring(hay@, needle@));
        return false;
    }
    let last: usize = hay.len() - needle.len();
    let mut at: usize = 0;
    loop
        invariant
            at <= last,
            last == hay@.len() - needle@.len(),
            forall|k: int| 0 <= k < at ==> !occurs_at(hay@, needle@, k),
        ensures
            forall|k: int| 0 <= k <= last ==> !occurs_at(hay@, needle@, k),
        decreases last - at,
    {
        if matches_at(hay, needle, at) {
            return true;
        }
        if at == last {
            break;
        }
        at += 1;
    }
    assert(!is_substring(hay@, needle@));
    false
}

/// On ASCII bytes a substring of the bytes is a substring of the text, and
/// the other way round.
pub proof fn lemma_substring_of_ascii(hay: Seq<u8>, needle: Seq<u8>)
    requires
        all_ascii(hay),
        all_ascii(needle),
    ensures
        is_substring(ascii_chars(hay), ascii_chars(needle)) <==> is_substring(hay, needle),
{
    let ch = ascii_chars(hay);
    let cn = ascii_chars(needle);
    assert forall|at: int| occurs_at(ch, cn, at) <==> occurs_at(hay, needle, at) by {
        if 0 <= at && at + needle.len() <= hay.len() {
            if occurs_at(ch, cn, at) {
                assert(hay.subrange(at, at + needle.len()) =~= needle) by {
                    assert forall|k: int| 0 <= k < needle.len() implies hay[at + k]
                        == needle[k] by {
                        assert(ch.subrange(at, at + cn.len())[k] == cn[k]);
                        assert(hay[at + k] < 128 && needle[k] < 128);
                        assert(hay[at + k] as char == needle[k] as char);
                        lemma_char_of_byte_injective(hay[at + k], needle[k]);
                    }
                }
            }
            if occurs_at(hay, needle, at) {
                assert(ch.subrange(at, at + cn.len()) =~= cn) by {
                    assert forall|k: int| 0 <= k < needle.len() implies ch[at + k] == cn[k] by {
                        assert(hay.subrange(at, at + needle.len())[k] == needle[k]);
                    }
                }
            }
        }
    }
    if is_substring(ch, cn) {
        let at = choose|at: int| occurs_at(ch, cn, at);
        assert(occurs_at(hay, needle, at));
    }
    if is_substring(hay, needle) {
        let at = choose|at: int| occurs_at(hay, needle, at);
        assert(occurs_at(ch, cn, at));
    }
}

/// Two bytes that give the same character are the same byte.
pub proof fn lemma_char_of_byte_injective(a: u8, b: u8)
    requires
        a as char == b as char,
    ensures
        a == b,
{
    assert((a as char) as u32 == a as u32);
    assert((b as char) as u32 == b as u32);
}

/// The bytes start with the mark of big-endian UTF-16 and hold more than the
/// mark.
pub open spec fn has_utf16_mark(bytes: Seq<u8>) -> bool {
    bytes.len() > 2 && bytes[0] == 0xfe && bytes[1] == 0xff
}

/// The 16-bit units that follow the mark, each from two bytes, the high byte
/// first. A last byte without a partner is left out.
pub open spec fn utf16_units_of(bytes: Seq<u8>) -> Seq<u16> {
    Seq::new(
        (if bytes.len() >= 2 {
            bytes.len() / 2 - 1
        } else {
            0
        }) as nat,
        |i: int| (bytes[2 * (i + 1)] as u16 * 256 + bytes[2 * (i + 1) + 1] as u16) as u16,
    )
}

/// The 16-bit units of a string that starts with the mark of big-endian
/// UTF-16; `None` for any other string.
pub fn utf16_units(buffer: &[u8]) -> (r: Option<Vec<u16>>)
    ensures
        r is Some <==> has_utf16_mark(buffer@),
        r matches Some(units) ==> units@ == utf16_units_of(buffer@),
{
    if buffer.len() > 2 && buffer[0] == 0xfe && buffer[1] == 0xff {
        let len: usize = buffer.len();
        let pairs: usize = len / 2;
        let mut units: Vec<u16> = Vec::new();
        let mut i: usize = 1;
        while i < pairs
            invariant
                1 <= i <= pairs,
                len == buffer@.len(),
                pairs == len / 2,
                units@.len() == i - 1,
                forall|k: int| 0 <= k < units@.len() ==> units@[k] == utf16_units_of(buffer@)[k],
            decreases pairs - i,
        {
            let high: u16 = buffer[2 * i] as u16;
            let low: u16 = buffer[2 * i + 1] as u16;
            units.push(high * 256 + low);
            i += 1;
        }
        assert(units@ =~= utf16_units_of(buffer@));
        Some(units)
    } else {
        None
    }
}

} // verus!
