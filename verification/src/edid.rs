//! The model of a display as its EDID block reports it.
//!
//! Laptop panels have no friendly name in Windows, so they are listed with
//! the model that the display itself reports: the monitor name from the
//! EDID when it provides one, otherwise the EDID manufacturer and product
//! code (e.g. `BOE0B40`). The EDID block of a display is kept in the
//! registry, under the device's `Device Parameters` key.

use vstd::prelude::*;
use crate::utils::text::{chars_of, string_from_chars, trim, trim_bounds};

verus! {

/// The byte offsets of the four 18 byte descriptors of an EDID block.
pub open spec fn is_descriptor_offset(offset: int) -> bool {
    offset == 54 || offset == 72 || offset == 90 || offset == 108
}

/// The descriptor at `offset` is a display descriptor (its first three
/// bytes are zero) holding the monitor name (tag 0xFC).
pub open spec fn is_name_descriptor(edid: Seq<u8>, offset: int) -> bool {
    &&& offset + 18 <= edid.len()
    &&& edid[offset] == 0
    &&& edid[offset + 1] == 0
    &&& edid[offset + 2] == 0
    &&& edid[offset + 3] == 0xfc
}

/// The bytes of `b` before its first line feed (0x0A).
pub open spec fn before_line_feed(b: Seq<u8>) -> Seq<u8>
    decreases b.len(),
{
    if b.len() == 0 {
        b
    } else if b[0] == 0x0a {
        Seq::empty()
    } else {
        seq![b[0]] + before_line_feed(b.drop_first())
    }
}

/// The characters of single byte text.
pub open spec fn byte_chars(b: Seq<u8>) -> Seq<char> {
    b.map_values(|x: u8| x as char)
}

/// The monitor name in the descriptor at `offset`: its 13 text bytes up to
/// the line feed that ends them, without surrounding white space.
pub open spec fn descriptor_name(edid: Seq<u8>, offset: int) -> Seq<char> {
    trim(byte_chars(before_line_feed(edid.subrange(offset + 5, offset + 18))))
}

/// The monitor name of the first name descriptor of an EDID block, if it
/// has one.
pub open spec fn edid_monitor_name(edid: Seq<u8>) -> Option<Seq<char>> {
    if is_name_descriptor(edid, 54) {
        Some(descriptor_name(edid, 54))
    } else if is_name_descriptor(edid, 72) {
        Some(descriptor_name(edid, 72))
    } else if is_name_descriptor(edid, 90) {
        Some(descriptor_name(edid, 90))
    } else if is_name_descriptor(edid, 108) {
        Some(descriptor_name(edid, 108))
    } else {
        None
    }
}

/// The letter of a five bit manufacturer code: 1 is `A`, 26 is `Z`.
pub open spec fn pnp_letter(code: int) -> char {
    (0x40 + code) as char
}

/// The upper case hexadecimal digit of a value below 16.
pub open spec fn hex_digit(value: int) -> char {
    if value < 10 {
        (0x30 + value) as char
    } else {
        (0x41 + value - 10) as char
    }
}

/// The manufacturer and product code of an EDID block: the three letter
/// manufacturer ID (bytes 8 and 9, big endian, five bits per letter) and the
/// product code (bytes 10 and 11, little endian) as four hexadecimal digits.
pub open spec fn edid_model_code(edid: Seq<u8>) -> Option<Seq<char>> {
    if edid.len() < 12 {
        None
    } else {
        let manufacturer = edid[8] * 256 + edid[9];
        let product = edid[11] * 256 + edid[10];
        Some(
            seq![
                pnp_letter((manufacturer / 1024) % 32),
                pnp_letter((manufacturer / 32) % 32),
                pnp_letter(manufacturer % 32),
                hex_digit((product / 4096) % 16),
                hex_digit((product / 256) % 16),
                hex_digit((product / 16) % 16),
                hex_digit(product % 16),
            ],
        )
    }
}

/// The model of a display as its EDID block reports it: the monitor name
/// when the block provides one, otherwise the manufacturer and product
/// code; nothing when the block is too short to hold either.
pub open spec fn edid_model(edid: Seq<u8>) -> Option<Seq<char>> {
    match edid_monitor_name(edid) {
        Some(name) => if name.len() > 0 {
            Some(name)
        } else {
            edid_model_code(edid)
        },
        None => edid_model_code(edid),
    }
}

fn is_name_descriptor_at(edid: &Vec<u8>, offset: usize) -> (r: bool)
    requires
        is_descriptor_offset(offset as int),
    ensures
        r == is_name_descriptor(edid@, offset as int),
{
    offset + 18 <= edid.len() && edid[offset] == 0 && edid[offset + 1] == 0 && edid[offset + 2]
        == 0 && edid[offset + 3] == 0xfc
}

proof fn lemma_before_line_feed_prefix(b: Seq<u8>, i: int)
    requires
        0 <= i <= b.len(),
        forall|j: int| 0 <= j < i ==> #[trigger] b[j] != 0x0a,
    ensures
        before_line_feed(b) == b.take(i) + before_line_feed(b.skip(i)),
    decreases i,
{
    if i > 0 {
        assert(b[0] != 0x0a);
        let t = b.drop_first();
        assert forall|j: int| 0 <= j < i - 1 implies #[trigger] t[j] != 0x0a by {
            assert(t[j] == b[j + 1]);
        }
        lemma_before_line_feed_prefix(t, i - 1);
        assert(t.skip(i - 1) =~= b.skip(i));
        assert(seq![b[0]] + t.take(i - 1) =~= b.take(i));
    } else {
        assert(b.skip(0) =~= b);
        assert(b.take(0) =~= Seq::<u8>::empty());
    }
}

fn descriptor_name_at(edid: &Vec<u8>, offset: usize) -> (name: Vec<char>)
    requires
        is_descriptor_offset(offset as int),
        is_name_descriptor(edid@, offset as int),
    ensures
        name@ == descriptor_name(edid@, offset as int),
{
    let ghost text = edid@.subrange(offset + 5, offset + 18);
    let mut chars: Vec<char> = Vec::new();
    let mut i: usize = 0;
    while i < 13 && edid[offset + 5 + i] != 0x0a
        invariant
            i <= 13,
            offset + 18 <= edid.len(),
            text == edid@.subrange(offset + 5, offset + 18),
            forall|j: int| 0 <= j < i ==> #[trigger] text[j] != 0x0a,
            chars@ == byte_chars(text.take(i as int)),
        decreases 13 - i,
    {
        let byte = edid[offset + 5 + i];
        assert(text[i as int] == byte);
        chars.push(byte as char);
        assert(text.take(i + 1) =~= text.take(i as int).push(byte));
        assert(byte_chars(text.take(i + 1)) =~= byte_chars(text.take(i as int)).push(byte as char));
        i = i + 1;
    }
    proof {
        lemma_before_line_feed_prefix(text, i as int);
        if i < 13 {
            assert(text.skip(i as int)[0] == 0x0a);
        } else {
            assert(text.skip(i as int) =~= Seq::<u8>::empty());
        }
        assert(before_line_feed(text) =~= text.take(i as int));
    }
    let (start, end) = trim_bounds(&chars);
    let mut name: Vec<char> = Vec::new();
    let mut k: usize = start;
    while k < end
        invariant
            start <= k <= end <= chars.len(),
            name@ == chars@.subrange(start as int, k as int),
        decreases end - k,
    {
        name.push(chars[k]);
        assert(chars@.subrange(start as int, k + 1) =~= chars@.subrange(start as int, k as int).push(
            chars@[k as int],
        ));
        k = k + 1;
    }
    name
}

/// The monitor name of the first name descriptor of an EDID block, if it
/// has one.
pub fn monitor_name(edid: &Vec<u8>) -> (name: Option<Vec<char>>)
    ensures
        name matches Some(n) ==> edid_monitor_name(edid@) == Some(n@),
        name is None ==> edid_monitor_name(edid@) is None,
{
    if is_name_descriptor_at(edid, 54) {
        Some(descriptor_name_at(edid, 54))
    } else if is_name_descriptor_at(edid, 72) {
        Some(descriptor_name_at(edid, 72))
    } else if is_name_descriptor_at(edid, 90) {
        Some(descriptor_name_at(edid, 90))
    } else if is_name_descriptor_at(edid, 108) {
        Some(descriptor_name_at(edid, 108))
    } else {
        None
    }
}

fn letter(code: u32) -> (c: char)
    requires
        code < 32,
    ensures
        c == pnp_letter(code as int),
{
    ((0x40 + code) as u8) as char
}

fn hex(value: u32) -> (c: char)
    requires
        value < 16,
    ensures
        c == hex_digit(value as int),
{
    if value < 10 {
        ((0x30 + value) as u8) as char
    } else {
        ((0x41 + value - 10) as u8) as char
    }
}

/// The manufacturer and product code of an EDID block, such as `BOE0B40`.
pub fn model_code(edid: &Vec<u8>) -> (code: Option<Vec<char>>)
    ensures
        code matches Some(c) ==> edid_model_code(edid@) == Some(c@),
        code is None ==> edid_model_code(edid@) is None,
{
    if edid.len() < 12 {
        return None;
    }
    let manufacturer: u32 = edid[8] as u32 * 256 + edid[9] as u32;
    let product: u32 = edid[11] as u32 * 256 + edid[10] as u32;
    let mut code: Vec<char> = Vec::new();
    code.push(letter((manufacturer / 1024) % 32));
    code.push(letter((manufacturer / 32) % 32));
    code.push(letter(manufacturer % 32));
    code.push(hex((product / 4096) % 16));
    code.push(hex((product / 256) % 16));
    code.push(hex((product / 16) % 16));
    code.push(hex(product % 16));
    assert(code@ =~= edid_model_code(edid@).unwrap());
    Some(code)
}

/// The model of a display as its EDID block reports it (see
/// [`edid_model`]).
pub fn model(edid: &Vec<u8>) -> (model: Option<Vec<char>>)
    ensures
        model matches Some(m) ==> edid_model(edid@) == Some(m@),
        model is None ==> edid_model(edid@) is None,
{
    match monitor_name(edid) {
        Some(name) => if name.len() > 0 {
            Some(name)
        } else {
            model_code(edid)
        },
        None => model_code(edid),
    }
}

/// The index of the last `c` in `s`, or -1 when there is none.
pub open spec fn last_index_of(s: Seq<char>, c: char) -> int
    decreases s.len(),
{
    if s.len() == 0 {
        -1
    } else if s.last() == c {
        s.len() - 1
    } else {
        last_index_of(s.drop_last(), c)
    }
}

/// `s` with every `#` turned into a `\`.
pub open spec fn hashes_to_backslashes(s: Seq<char>) -> Seq<char> {
    s.map_values(|c: char| if c == '#' { '\\' } else { c })
}

/// The registry key (under `HKEY_LOCAL_MACHINE`) that holds the EDID block
/// of a monitor, from its device path: a path `\\?\DISPLAY#<id>#<instance>#{<class>}`
/// gives `SYSTEM\CurrentControlSet\Enum\DISPLAY\<id>\<instance>\Device Parameters`.
/// A path without the `\\?\` prefix or without a `#` after it has none.
pub open spec fn edid_key_of(device_path: Seq<char>) -> Option<Seq<char>> {
    let body = device_path.skip(4);
    let end = last_index_of(body, '#');
    if device_path.len() >= 4 && device_path.take(4) == seq!['\\', '\\', '?', '\\'] && end >= 0 {
        Some(
            "SYSTEM\\CurrentControlSet\\Enum\\"@ + hashes_to_backslashes(body.take(end))
                + "\\Device Parameters"@,
        )
    } else {
        None
    }
}

proof fn lemma_last_index_of(s: Seq<char>, c: char, i: int)
    requires
        -1 <= i < s.len(),
        forall|j: int| i < j < s.len() ==> #[trigger] s[j] != c,
    ensures
        last_index_of(s, c) == last_index_of(s.take(i + 1), c),
    decreases s.len() - i,
{
    if i + 1 < s.len() {
        assert(s[s.len() - 1] != c);
        let t = s.drop_last();
        assert forall|j: int| i < j < t.len() implies #[trigger] t[j] != c by {
            assert(t[j] == s[j]);
        }
        lemma_last_index_of(t, c, i);
        assert(t.take(i + 1) =~= s.take(i + 1));
    } else {
        assert(s.take(i + 1) =~= s);
    }
}

/// The registry key that holds the EDID block of the monitor with this
/// device path (see [`edid_key_of`]).
pub fn edid_registry_key(device_path: &str) -> (key: Option<String>)
    ensures
        key matches Some(k) ==> edid_key_of(device_path@) == Some(k@),
        key is None ==> edid_key_of(device_path@) is None,
{
    let path = chars_of(device_path);
    if path.len() < 4 || path[0] != '\\' || path[1] != '\\' || path[2] != '?' || path[3] != '\\' {
        proof {
            if path@.len() >= 4 {
                assert(path@.take(4)[0] == path@[0]);
                assert(path@.take(4)[1] == path@[1]);
                assert(path@.take(4)[2] == path@[2]);
                assert(path@.take(4)[3] == path@[3]);
            }
        }
        return None;
    }
    assert(path@.take(4) =~= seq!['\\', '\\', '?', '\\']);
    let ghost body = path@.skip(4);
    // the last '#' of the body, as an index into the body plus one
    let mut end: usize = path.len() - 4;
    while end > 0 && path[end + 3] != '#'
        invariant
            end <= path.len() - 4,
            path.len() >= 4,
            body == path@.skip(4),
            forall|j: int| end <= j < body.len() ==> #[trigger] body[j] != '#',
        decreases end,
    {
        assert(body[end - 1] == path@[end + 3]);
        end = end - 1;
    }
    proof {
        lemma_last_index_of(body, '#', end - 1);
        if end > 0 {
            assert(body[end - 1] == path@[end + 3]);
            assert(body.take(end as int).last() == body[end - 1]);
        } else {
            assert(body.take(0) =~= Seq::<char>::empty());
        }
    }
    if end == 0 {
        return None;
    }
    let mut key = chars_of("SYSTEM\\CurrentControlSet\\Enum\\");
    let ghost head = key@;
    let mut i: usize = 4;
    while i < end + 3
        invariant
            4 <= i <= end + 3 <= path.len(),
            body == path@.skip(4),
            key@ == head + hashes_to_backslashes(body.take(i - 4)),
        decreases end + 3 - i,
    {
        let c = path[i];
        assert(body[i - 4] == c);
        if c == '#' {
            key.push('\\');
        } else {
            key.push(c);
        }
        assert(hashes_to_backslashes(body.take(i - 3)) =~= hashes_to_backslashes(body.take(i - 4)).push(
            if c == '#' { '\\' } else { c },
        ));
        i = i + 1;
    }
    let tail = chars_of("\\Device Parameters");
    let mut k: usize = 0;
    let ghost middle = key@;
    while k < tail.len()
        invariant
            k <= tail.len(),
            key@ == middle + tail@.take(k as int),
        decreases tail.len() - k,
    {
        key.push(tail[k]);
        assert(tail@.take(k + 1) =~= tail@.take(k as int).push(tail@[k as int]));
        k = k + 1;
    }
    assert(tail@.take(tail.len() as int) =~= tail@);
    assert(key@ =~= edid_key_of(device_path@).unwrap());
    Some(string_from_chars(&key))
}

/// The 18 bytes at `offset` start with `00 00 00 FC`: a display descriptor
/// holding the monitor name.
pub open spec fn starts_name_descriptor(edid: Seq<u8>, offset: int) -> bool {
    offset + 18 <= edid.len() && edid[offset] == 0 && edid[offset + 1] == 0 && edid[offset + 2]
        == 0 && edid[offset + 3] == 0xfc
}

/// The monitor name comes from the first of the four descriptors (at 54,
/// 72, 90 and 108) that holds a name: its text bytes (from 5 bytes in, 13 of
/// them) before the first line feed, read as characters, without
/// surrounding white space.
pub proof fn lemma_monitor_name_from_first_name_descriptor(edid: Seq<u8>, offset: int, text_len: int)
    requires
        offset == 54 || offset == 72 || offset == 90 || offset == 108,
        starts_name_descriptor(edid, offset),
        forall|earlier: int|
            (earlier == 54 || earlier == 72 || earlier == 90) && earlier < offset
                ==> !#[trigger] starts_name_descriptor(edid, earlier),
        0 <= text_len <= 13,
        forall|j: int| 0 <= j < text_len ==> #[trigger] edid.subrange(offset + 5, offset + 18)[j] != 0x0a,
        text_len == 13 || edid[offset + 5 + text_len] == 0x0a,
    ensures
        edid_monitor_name(edid) == Some(
            trim(Seq::new(text_len as nat, |j: int| edid[offset + 5 + j] as char)),
        ),
{
    assert(!starts_name_descriptor(edid, 54) ==> !is_name_descriptor(edid, 54));
    let text = edid.subrange(offset + 5, offset + 18);
    lemma_before_line_feed_prefix(text, text_len);
    if text_len < 13 {
        assert(text.skip(text_len)[0] == edid[offset + 5 + text_len]);
    } else {
        assert(text.skip(text_len) =~= Seq::<u8>::empty());
    }
    assert(before_line_feed(text) =~= text.take(text_len));
    assert(byte_chars(text.take(text_len)) =~= Seq::new(
        text_len as nat,
        |j: int| edid[offset + 5 + j] as char,
    ));
    if offset > 54 {
        assert(!starts_name_descriptor(edid, 54));
    }
    if offset > 72 {
        assert(!starts_name_descriptor(edid, 72));
    }
    if offset > 90 {
        assert(!starts_name_descriptor(edid, 90));
    }
}

/// A block none of whose four descriptors holds a name has no monitor name.
pub proof fn lemma_no_name_descriptor(edid: Seq<u8>)
    requires
        !starts_name_descriptor(edid, 54),
        !starts_name_descriptor(edid, 72),
        !starts_name_descriptor(edid, 90),
        !starts_name_descriptor(edid, 108),
    ensures
        edid_monitor_name(edid) is None,
{
}

/// The five bit code of a manufacturer letter (`A` is 1).
pub open spec fn letter_code(c: char) -> int {
    c as int - 0x40
}

/// The value of an upper case hexadecimal digit.
pub open spec fn hex_value(c: char) -> int {
    if '0' <= c <= '9' {
        c as int - 0x30
    } else {
        c as int - 0x41 + 10
    }
}

proof fn lemma_split_manufacturer(m: u32)
    requires
        m < 65536,
    ensures
        ((m / 1024) % 32) * 1024 + ((m / 32) % 32) * 32 + m % 32 == m % 32768,
{
    assert(((m / 1024) % 32) * 1024 + ((m / 32) % 32) * 32 + m % 32 == m % 32768) by (bit_vector)
        requires
            m < 65536,
    ;
}

proof fn lemma_split_product(p: u32)
    requires
        p < 65536,
    ensures
        ((p / 4096) % 16) * 4096 + ((p / 256) % 16) * 256 + ((p / 16) % 16) * 16 + p % 16 == p,
{
    assert(((p / 4096) % 16) * 4096 + ((p / 256) % 16) * 256 + ((p / 16) % 16) * 16 + p % 16 == p)
        by (bit_vector)
        requires
            p < 65536,
    ;
}

/// The model code spells the EDID manufacturer and product: three letters
/// (`@`..=`_`) whose five bit codes make up the 15 bit manufacturer ID of
/// bytes 8 and 9, then four upper case hexadecimal digits that make up the
/// little endian product code of bytes 10 and 11; a block shorter than 12
/// bytes has no code.
pub proof fn lemma_model_code_spells_ids(edid: Seq<u8>)
    ensures
        edid.len() < 12 ==> edid_model_code(edid) is None,
        edid.len() >= 12 ==> ({
            let c = edid_model_code(edid)->0;
            &&& edid_model_code(edid) is Some
            &&& c.len() == 7
            &&& forall|i: int| 0 <= i < 3 ==> '@' <= #[trigger] c[i] <= '_'
            &&& letter_code(c[0]) * 1024 + letter_code(c[1]) * 32 + letter_code(c[2]) == (edid[8]
                * 256 + edid[9]) % 32768
            &&& forall|i: int| 3 <= i < 7 ==> ('0' <= #[trigger] c[i] <= '9' || 'A' <= c[i] <= 'F')
            &&& hex_value(c[3]) * 4096 + hex_value(c[4]) * 256 + hex_value(c[5]) * 16 + hex_value(
                c[6],
            ) == edid[11] * 256 + edid[10]
        }),
{
    if edid.len() >= 12 {
        let m = (edid[8] * 256 + edid[9]) as u32;
        let p = (edid[11] * 256 + edid[10]) as u32;
        lemma_split_manufacturer(m);
        lemma_split_product(p);
    }
}

/// The model of a display is the monitor name when the EDID block provides
/// a non-empty one, and the manufacturer and product code otherwise.
pub proof fn lemma_model_prefers_name(edid: Seq<u8>)
    ensures
        edid_monitor_name(edid) is Some && edid_monitor_name(edid)->0.len() > 0 ==> edid_model(edid)
            == edid_monitor_name(edid),
        !(edid_monitor_name(edid) is Some && edid_monitor_name(edid)->0.len() > 0) ==> edid_model(
            edid,
        ) == edid_model_code(edid),
{
}

/// The registry key of a device path `\\?\<head>#<tail>`, where `tail` holds no
/// `#`, is `SYSTEM\CurrentControlSet\Enum\` followed by `head` with its `#`
/// separators turned into `\`, and `\Device Parameters`.
pub proof fn lemma_edid_key_of_device_path(head: Seq<char>, tail: Seq<char>)
    requires
        forall|j: int| 0 <= j < tail.len() ==> #[trigger] tail[j] != '#',
    ensures
        edid_key_of(seq!['\\', '\\', '?', '\\'] + head + seq!['#'] + tail) == Some(
            "SYSTEM\\CurrentControlSet\\Enum\\"@ + Seq::new(
                head.len(),
                |j: int| if head[j] == '#' { '\\' } else { head[j] },
            ) + "\\Device Parameters"@,
        ),
{
    let path = seq!['\\', '\\', '?', '\\'] + head + seq!['#'] + tail;
    let body = path.skip(4);
    assert(body =~= head + seq!['#'] + tail);
    assert(path.take(4) =~= seq!['\\', '\\', '?', '\\']);
    let i = head.len() as int;
    assert forall|j: int| i < j < body.len() implies #[trigger] body[j] != '#' by {
        assert(body[j] == tail[j - i - 1]);
    }
    lemma_last_index_of(body, '#', i);
    assert(body.take(i + 1).last() == '#');
    assert(last_index_of(body, '#') == i);
    assert(body.take(i) =~= head);
    assert(hashes_to_backslashes(head) =~= Seq::new(
        head.len(),
        |j: int| if head[j] == '#' { '\\' } else { head[j] },
    ));
}

/// A path without the `\\?\` prefix, or without a `#` after it, has no key.
pub proof fn lemma_edid_key_needs_prefix_and_separator(path: Seq<char>)
    ensures
        (path.len() < 4 || path.take(4) != seq!['\\', '\\', '?', '\\']) ==> edid_key_of(path) is None,
        (forall|j: int| 4 <= j < path.len() ==> #[trigger] path[j] != '#') ==> edid_key_of(path) is None,
{
    if forall|j: int| 4 <= j < path.len() ==> #[trigger] path[j] != '#' {
        if path.len() >= 4 {
            let body = path.skip(4);
            assert forall|j: int| -1 < j < body.len() implies #[trigger] body[j] != '#' by {
                assert(body[j] == path[j + 4]);
            }
            lemma_last_index_of(body, '#', -1);
            assert(body.take(0) =~= Seq::<char>::empty());
        }
    }
}

} // verus!
