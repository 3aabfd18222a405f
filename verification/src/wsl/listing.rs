//! What `wsl.exe` prints: the names of the distributions, one per line, in UTF-16.

use vstd::prelude::*;
use vstd::utf8::{decode_utf8, valid_utf8};

use crate::text::{lines, lines_end_at_line_feeds, lines_of, same_text, texts, trim, trimmed};

verus! {

// ---------------------------------------------------------------- decoding

/// The unit can be the first of a pair.
pub open spec fn is_lead(u: u16) -> bool {
    0xD800 <= u <= 0xDBFF
}

/// The unit can be the second of a pair.
pub open spec fn is_trail(u: u16) -> bool {
    0xDC00 <= u <= 0xDFFF
}

/// The character that a pair of units stands for.
pub open spec fn paired(lead: u16, trail: u16) -> char {
    (0x10000 + (lead - 0xD800) * 0x400 + (trail - 0xDC00)) as char
}

/// The text of units in UTF-16. A unit of a pair that stands alone becomes the replacement
/// character.
pub open spec fn decoded_utf16(u: Seq<u16>) -> Seq<char>
    decreases u.len(),
{
    if u.len() == 0 {
        Seq::empty()
    } else if is_lead(u[0]) && u.len() > 1 && is_trail(u[1]) {
        seq![paired(u[0], u[1])] + decoded_utf16(u.skip(2))
    } else if is_lead(u[0]) || is_trail(u[0]) {
        seq!['\u{FFFD}'] + decoded_utf16(u.skip(1))
    } else {
        seq![u[0] as char] + decoded_utf16(u.skip(1))
    }
}

/// `String::from_utf16_lossy` decodes UTF-16 and puts the replacement character in place of each
/// unpaired surrogate.
#[verifier::external_body]
fn from_utf16_lossy(units: &Vec<u16>) -> (r: String)
    ensures
        r@ == decoded_utf16(units@),
{
    String::from_utf16_lossy(units)
}

/// What `from_utf8_lossy` gives for bytes.
pub uninterp spec fn utf8_lossy(bytes: Seq<u8>) -> Seq<char>;

/// `String::from_utf8_lossy` decodes UTF-8; bytes that are valid give their text. How other bytes
/// are replaced depends on the bytes alone and is not stated.
#[verifier::external_body]
fn from_utf8_lossy(bytes: &Vec<u8>) -> (r: String)
    ensures
        r@ == utf8_lossy(bytes@),
        valid_utf8(bytes@) ==> r@ == decode_utf8(bytes@),
{
    String::from_utf8_lossy(bytes).to_string()
}

/// The units in bytes, the less significant byte of each first.
pub open spec fn units_of(bytes: Seq<u8>) -> Seq<u16> {
    Seq::new(bytes.len() / 2, |i: int| (bytes[2 * i] + 256 * bytes[2 * i + 1]) as u16)
}

/// The bytes can be read as units.
pub open spec fn is_utf16_sized(bytes: Seq<u8>) -> bool {
    bytes.len() >= 2 && bytes.len() % 2 == 0
}

/// What was printed: UTF-16 where the number of bytes allows it, and else UTF-8.
pub open spec fn decoded(bytes: Seq<u8>) -> Seq<char> {
    if is_utf16_sized(bytes) {
        decoded_utf16(units_of(bytes))
    } else {
        utf8_lossy(bytes)
    }
}

/// Decodes what was printed.
pub fn decode_wsl_text(bytes: &Vec<u8>) -> (r: String)
    ensures
        r@ == decoded(bytes@),
        !is_utf16_sized(bytes@) && valid_utf8(bytes@) ==> r@ == decode_utf8(bytes@),
{
    if bytes.len() >= 2 && bytes.len() % 2 == 0 {
        let mut units: Vec<u16> = Vec::new();
        let n: usize = bytes.len() / 2;
        let mut i: usize = 0;
        while i < n
            invariant
                n == bytes@.len() / 2,
                bytes@.len() <= usize::MAX,
                i <= n,
                units@ == units_of(bytes@).take(i as int),
            decreases n - i,
        {
            units.push(bytes[2 * i] as u16 + 256 * (bytes[2 * i + 1] as u16));
            i += 1;
            assert(units@ =~= units_of(bytes@).take(i as int));
        }
        assert(units_of(bytes@).take(n as int) =~= units_of(bytes@));
        from_utf16_lossy(&units)
    } else {
        from_utf8_lossy(bytes)
    }
}

// ---------------------------------------------------------------- names

/// One of the lines is the name, with white space around it or without.
pub open spec fn names(listing: Seq<char>, name: Seq<char>) -> bool {
    exists|i: int| 0 <= i < lines(listing).len() && trimmed(#[trigger] lines(listing)[i]) == name
}

/// Whether one of the lines is the name.
pub fn lists_name(listing: &str, name: &str) -> (r: bool)
    ensures
        r == names(listing@, name@),
{
    let all = lines_of(listing);
    let mut i: usize = 0;
    while i < all.len()
        invariant
            i <= all@.len(),
            texts(all@) == lines(listing@),
            forall|j: int| 0 <= j < i ==> trimmed(#[trigger] lines(listing@)[j]) != name@,
        decreases all@.len() - i,
    {
        assert(lines(listing@)[i as int] == all@[i as int]@);
        if same_text(trim(all[i].as_str()).as_str(), name) {
            return true;
        }
        i += 1;
    }
    assert(lines(listing@).len() == all@.len());
    false
}

// ---------------------------------------------------------------- laws

/// The units of a character.
pub open spec fn encoded_char(c: char) -> Seq<u16> {
    let n = c as int;
    if n < 0x10000 {
        seq![n as u16]
    } else {
        seq![
            (0xD800 + (n - 0x10000) / 0x400) as u16,
            (0xDC00 + (n - 0x10000) % 0x400) as u16,
        ]
    }
}

/// The units of a text.
pub open spec fn encoded_utf16(s: Seq<char>) -> Seq<u16>
    decreases s.len(),
{
    if s.len() == 0 {
        Seq::empty()
    } else {
        encoded_char(s[0]) + encoded_utf16(s.skip(1))
    }
}

/// The bytes of units, the less significant byte of each first.
pub open spec fn unit_bytes(u: Seq<u16>) -> Seq<u8> {
    Seq::new(
        2 * u.len(),
        |i: int|
            if i % 2 == 0 {
                (u[i / 2] % 256) as u8
            } else {
                (u[i / 2] / 256) as u8
            },
    )
}

/// Decoding begins with the character whose units come first.
proof fn lemma_first_char(c: char, rest: Seq<u16>)
    ensures
        decoded_utf16(encoded_char(c) + rest) == seq![c] + decoded_utf16(rest),
{
    let e = encoded_char(c);
    let u = e + rest;
    let n = c as int;
    if n < 0x10000 {
        assert(u[0] == n as u16);
        assert(u[0] as char == c);
        assert(!is_lead(u[0]) && !is_trail(u[0]));
        assert(u.skip(1) =~= rest);
    } else {
        let m = n - 0x10000;
        assert(0 <= m / 0x400 < 0x400 && 0 <= m % 0x400 < 0x400);
        assert(u[0] == 0xD800 + m / 0x400);
        assert(u[1] == 0xDC00 + m % 0x400);
        assert(paired(u[0], u[1]) == c);
        assert(u.skip(2) =~= rest);
    }
}

/// A text in UTF-16 is decoded to itself.
pub proof fn utf16_round_trip(s: Seq<char>)
    ensures
        decoded_utf16(encoded_utf16(s)) == s,
    decreases s.len(),
{
    if s.len() > 0 {
        utf16_round_trip(s.skip(1));
        lemma_first_char(s[0], encoded_utf16(s.skip(1)));
        assert(seq![s[0]] + s.skip(1) =~= s);
    }
}

/// What was printed as a text in UTF-16 is decoded to that text.
pub proof fn printed_text_is_read_back(s: Seq<char>)
    requires
        s.len() > 0,
    ensures
        decoded(unit_bytes(encoded_utf16(s))) == s,
{
    let u = encoded_utf16(s);
    let b = unit_bytes(u);
    assert(encoded_char(s[0]).len() > 0);
    assert(u.len() > 0);
    assert(units_of(b) =~= u) by {
        assert forall|i: int| 0 <= i < u.len() implies units_of(b)[i] == u[i] by {
            assert(b[2 * i] == (u[i] % 256) as u8);
            assert(b[2 * i + 1] == (u[i] / 256) as u8);
        }
    }
    utf16_round_trip(s);
}

/// What was printed in UTF-16 is decoded from its start on: the first two bytes are a character with
/// that code, or, together with the next two, one that lies beyond the first plane; half of a pair
/// that stands alone is shown as the replacement character. Then follows what the other bytes say.
pub proof fn text_is_decoded_character_by_character(
    bytes: &Vec<u8>,
    r: String,
    behind: &Vec<u8>,
    rest: String,
    code: int,
    next: int,
)
    requires
        call_ensures(decode_wsl_text, (bytes,), r),
        call_ensures(decode_wsl_text, (behind,), rest),
        bytes@.len() >= 2,
        bytes@.len() % 2 == 0,
        code == bytes@[0] + 256 * bytes@[1],
        bytes@.len() >= 4 ==> next == bytes@[2] + 256 * bytes@[3],
    ensures
        bytes@.len() == 2 && !(0xD800 <= code <= 0xDFFF) ==> r@.len() == 1 && r@[0] as int == code,
        bytes@.len() == 2 && 0xD800 <= code <= 0xDFFF ==> r@ == seq!['\u{FFFD}'],
        bytes@.len() == 4 && 0xD800 <= code <= 0xDBFF && 0xDC00 <= next <= 0xDFFF ==> r@.len() == 1
            && r@[0] as int == 0x10000 + (code - 0xD800) * 0x400 + (next - 0xDC00),
        bytes@.len() > 2 && behind@ == bytes@.skip(2) && !(0xD800 <= code <= 0xDFFF)
            ==> r@.len() == 1 + rest@.len() && r@[0] as int == code && r@.skip(1) == rest@,
        bytes@.len() > 2 && behind@ == bytes@.skip(2) && 0xD800 <= code <= 0xDFFF && !(code
            <= 0xDBFF && 0xDC00 <= next <= 0xDFFF) ==> r@ == seq!['\u{FFFD}'] + rest@,
        bytes@.len() > 4 && behind@ == bytes@.skip(4) && 0xD800 <= code <= 0xDBFF && 0xDC00
            <= next <= 0xDFFF ==> r@.len() == 1 + rest@.len() && r@[0] as int == 0x10000 + (code
            - 0xD800) * 0x400 + (next - 0xDC00) && r@.skip(1) == rest@,
{
    let u = units_of(bytes@);
    assert(u[0] == code);
    assert(decoded_utf16(Seq::<u16>::empty()) =~= Seq::<char>::empty());
    if bytes@.len() >= 4 {
        assert(u[1] == bytes@[2 * 1int] + 256 * bytes@[2 * 1int + 1]);
        assert(u[1] == next);
    }
    if bytes@.len() == 2 {
        assert(u.skip(1) =~= Seq::<u16>::empty());
    }
    if bytes@.len() == 4 {
        assert(u.skip(2) =~= Seq::<u16>::empty());
    }
    if bytes@.len() > 2 && behind@ == bytes@.skip(2) {
        assert(units_of(behind@) =~= u.skip(1)) by {
            assert forall|i: int| 0 <= i < u.len() - 1 implies units_of(behind@)[i] == u.skip(
                1,
            )[i] by {
                assert(behind@[2 * i] == bytes@[2 * (i + 1)]);
                assert(behind@[2 * i + 1] == bytes@[2 * (i + 1) + 1]);
            }
        }
        assert(r@.skip(1) =~= r@.subrange(1, r@.len() as int));
        if !(0xD800 <= code <= 0xDFFF) {
            assert(r@.skip(1) =~= rest@);
        }
    }
    if bytes@.len() > 4 && behind@ == bytes@.skip(4) {
        assert(units_of(behind@) =~= u.skip(2)) by {
            assert forall|i: int| 0 <= i < u.len() - 2 implies units_of(behind@)[i] == u.skip(
                2,
            )[i] by {
                assert(behind@[2 * i] == bytes@[2 * (i + 2)]);
                assert(behind@[2 * i + 1] == bytes@[2 * (i + 2) + 1]);
            }
        }
        if 0xD800 <= code <= 0xDBFF && 0xDC00 <= next <= 0xDFFF {
            assert(r@.skip(1) =~= rest@);
        }
    }
}

/// An odd number of bytes is read as UTF-8.
pub proof fn odd_bytes_are_read_as_utf8(bytes: &Vec<u8>, r: String)
    requires
        call_ensures(decode_wsl_text, (bytes,), r),
        bytes@.len() % 2 == 1,
        valid_utf8(bytes@),
    ensures
        r@ == decode_utf8(bytes@),
{
}

/// A name is listed where one of the lines is the name once the white space around it is cut off:
/// the first line, or one of the others.
pub proof fn names_are_found_line_by_line(
    listing: &str,
    name: &str,
    r: bool,
    line: &str,
    cut: String,
    behind: &str,
    others: bool,
)
    requires
        call_ensures(lists_name, (listing, name), r),
        call_ensures(lists_name, (behind, name), others),
        call_ensures(trim, (line,), cut),
        forall|i: int| 0 <= i < line@.len() ==> #[trigger] line@[i] != '\n',
    ensures
        listing@.len() == 0 ==> !r,
        listing@ == line@ && line@.len() > 0 ==> r == (cut@ == name@),
        listing@ == line@ + seq!['\r', '\n'] + behind@ ==> r == (cut@ == name@ || others),
        listing@ == line@ + seq!['\n'] + behind@ && (line@.len() == 0 || line@.last() != '\r')
            ==> r == (cut@ == name@ || others),
{
    lines_end_at_line_feeds(line@, behind@);
    let all = lines(listing@);
    let rest = lines(behind@);
    if all == seq![line@] + rest {
        assert(all[0] == line@);
        assert forall|i: int| 0 <= i < rest.len() implies #[trigger] rest[i] == all[i + 1] by {}
        if names(behind@, name@) {
            let i = choose|i: int| 0 <= i < rest.len() && trimmed(#[trigger] rest[i]) == name@;
            assert(all[i + 1] == rest[i]);
        }
        if names(listing@, name@) && trimmed(line@) != name@ {
            let i = choose|i: int| 0 <= i < all.len() && trimmed(#[trigger] all[i]) == name@;
            assert(i > 0);
            assert(rest[i - 1] == all[i]);
        }
    } else if listing@ == line@ && line@.len() > 0 {
        assert(all[0] == line@);
    }
}

} // verus!
