//! UTF-16 text as Windows structures hold it: counted, NUL-terminated, or padded to a fixed
//! length.

use vstd::prelude::*;

verus! {

/// What an unpaired surrogate decodes to.
pub const REPLACEMENT: char = '\u{FFFD}';

/// Number of code units in a tray tooltip, its terminating NUL among them.
pub const TIP_LEN: usize = 128;

/// Appending a character to a `String`.
///
/// Outside function: `String::push`. Claimed: the text afterwards is the text before followed
/// by the character.
pub assume_specification[ String::push ](s: &mut String, c: char)
    ensures
        final(s)@ == old(s)@.push(c),
;

/// A number read as a Unicode scalar value.
///
/// Outside function: `char::from_u32`. Claimed: it gives the character with that number where
/// the number is at most `0x10FFFF` and no surrogate, and `None` otherwise.
pub assume_specification[ char::from_u32 ](i: u32) -> (c: Option<char>)
    ensures
        c == (if is_scalar_value(i as int) {
            Some(i as char)
        } else {
            None::<char>
        }),
;

/// The Unicode scalar values.
pub open spec fn is_scalar_value(v: int) -> bool {
    0 <= v < 0xD800 || 0xE000 <= v <= 0x10FFFF
}

/// The units that open a surrogate pair.
pub open spec fn is_high_surrogate(u: u16) -> bool {
    0xD800 <= u < 0xDC00
}

/// The units that close a surrogate pair.
pub open spec fn is_low_surrogate(u: u16) -> bool {
    0xDC00 <= u < 0xE000
}

/// The code units of one character.
pub open spec fn char_units(c: char) -> Seq<u16> {
    let v = c as u32;
    if v < 0x10000 {
        seq![v as u16]
    } else {
        seq![
            (0xD800 + (v - 0x10000) / 0x400) as u16,
            (0xDC00 + (v - 0x10000) % 0x400) as u16,
        ]
    }
}

/// The code units of a text: those of its characters, one after the other.
pub open spec fn utf16(s: Seq<char>) -> Seq<u16>
    decreases s.len(),
{
    if s.len() == 0 {
        Seq::empty()
    } else {
        utf16(s.drop_last()) + char_units(s.last())
    }
}

/// The character that a surrogate pair stands for.
pub open spec fn pair_char(high: u16, low: u16) -> char {
    (0x10000 + (high - 0xD800) * 0x400 + (low - 0xDC00)) as char
}

/// The text that code units stand for, each unpaired surrogate read as [`REPLACEMENT`].
pub open spec fn decode_lossy(units: Seq<u16>) -> Seq<char>
    decreases units.len(),
{
    if units.len() == 0 {
        Seq::empty()
    } else if !is_high_surrogate(units[0]) && !is_low_surrogate(units[0]) {
        seq![units[0] as char] + decode_lossy(units.skip(1))
    } else if is_high_surrogate(units[0]) && units.len() > 1 && is_low_surrogate(units[1]) {
        seq![pair_char(units[0], units[1])] + decode_lossy(units.skip(2))
    } else {
        seq![REPLACEMENT] + decode_lossy(units.skip(1))
    }
}

/// The units before the first NUL: what a reader of a NUL-terminated buffer sees.
pub open spec fn until_nul(units: Seq<u16>) -> Seq<u16>
    decreases units.len(),
{
    if units.len() == 0 || units[0] == 0 {
        Seq::empty()
    } else {
        seq![units[0]] + until_nul(units.skip(1))
    }
}

/// Encodes a text as UTF-16.
pub fn encode_utf16(s: &str) -> (units: Vec<u16>)
    ensures
        units@ == utf16(s@),
{
    let mut units: Vec<u16> = Vec::new();
    for c in it: s.chars()
        invariant
            it.seq() == s@,
            units@ == utf16(s@.take(it.index() as int)),
    {
        let v: u32 = c as u32;
        if v < 0x10000 {
            units.push(v as u16);
        } else {
            let w: u32 = v - 0x10000;
            units.push((0xD800 + w / 0x400) as u16);
            units.push((0xDC00 + w % 0x400) as u16);
        }
        assert(s@.take(it.index() + 1).drop_last() == s@.take(it.index() as int));
    }
    assert(s@.take(s@.len() as int) == s@);
    units
}

/// Encodes a text as UTF-16 with a terminating NUL.
pub fn wide_null(s: &str) -> (units: Vec<u16>)
    ensures
        units@ == utf16(s@).push(0),
{
    let mut units: Vec<u16> = encode_utf16(s);
    units.push(0);
    units
}

/// Decodes UTF-16, reading each unpaired surrogate as [`REPLACEMENT`].
pub fn from_utf16_lossy(units: &[u16]) -> (s: String)
    ensures
        s@ == decode_lossy(units@),
{
    let mut s: String = String::new();
    let mut i: usize = 0;
    assert(units@.skip(0) == units@);
    while i < units.len()
        invariant
            i <= units@.len(),
            s@ + decode_lossy(units@.skip(i as int)) == decode_lossy(units@),
        decreases units@.len() - i,
    {
        let ghost before = s@;
        let ghost rest = units@.skip(i as int);
        let u: u16 = units[i];
        let mut v: u32 = 0xFFFD;
        let mut step: usize = 1;
        if u < 0xD800 || u >= 0xE000 {
            v = u as u32;
        } else if u < 0xDC00 && i + 1 < units.len() && 0xDC00 <= units[i + 1] && units[i + 1]
            < 0xE000 {
            v = 0x10000 + (u as u32 - 0xD800) * 0x400 + (units[i + 1] as u32 - 0xDC00);
            step = 2;
        }
        if let Some(c) = char::from_u32(v) {
            s.push(c);
            assert(rest.skip(step as int) == units@.skip(i + step));
            assert(decode_lossy(rest) == seq![c] + decode_lossy(rest.skip(step as int)));
            assert(before + decode_lossy(rest) == s@ + decode_lossy(rest.skip(step as int)));
        }
        i = i + step;
    }
    assert(s@ + Seq::<char>::empty() == s@);
    s
}

/// A tooltip buffer: the text in UTF-16, padded with NULs, at least one of them.
pub fn string_to_tip(s: &str) -> (ret: [u16; 128])
    requires
        utf16(s@).len() < TIP_LEN,
    ensures
        ret@ == utf16(s@) + Seq::new((TIP_LEN - utf16(s@).len()) as nat, |i: int| 0u16),
        ret@.len() == 128,
        forall|i: int| 0 <= i < utf16(s@).len() ==> ret@[i] == utf16(s@)[i],
        forall|i: int| utf16(s@).len() <= i < 128 ==> ret@[i] == 0,
{
    let mut ret: [u16; 128] = [0u16; 128];
    let encoded: Vec<u16> = encode_utf16(s);
    let mut i: usize = 0;
    while i < encoded.len()
        invariant
            i <= encoded@.len() < 128,
            ret@.len() == 128,
            forall|j: int| 0 <= j < i ==> ret@[j] == encoded@[j],
            forall|j: int| i <= j < 128 ==> ret@[j] == 0,
        decreases encoded@.len() - i,
    {
        ret[i] = encoded[i];
        i = i + 1;
    }
    ret[encoded.len()] = 0;  // Null-terminate the string
    ret
}

/// Encoding a text piece by piece gives the same units as encoding it whole.
pub proof fn law_utf16_concat(a: Seq<char>, b: Seq<char>)
    ensures
        utf16(a + b) == utf16(a) + utf16(b),
    decreases b.len(),
{
    if b.len() == 0 {
        assert(a + b == a);
        assert(utf16(a) + utf16(b) == utf16(a));
    } else {
        law_utf16_concat(a, b.drop_last());
        assert((a + b).drop_last() == a + b.drop_last());
        assert(utf16(a + b) == utf16(a) + utf16(b));
    }
}

/// A text has at least one and at most two units per character.
pub proof fn law_utf16_len(s: Seq<char>)
    ensures
        s.len() <= utf16(s).len() <= 2 * s.len(),
    decreases s.len(),
{
    if s.len() > 0 {
        law_utf16_len(s.drop_last());
    }
}

/// The units of a text begin with those of its first character.
proof fn lemma_utf16_first(s: Seq<char>)
    requires
        s.len() > 0,
    ensures
        utf16(s) == char_units(s[0]) + utf16(s.skip(1)),
{
    let first = seq![s[0]];
    assert(first + s.skip(1) == s);
    law_utf16_concat(first, s.skip(1));
    reveal_with_fuel(utf16, 2);
    assert(utf16(first) == char_units(s[0]));
}

/// What the units of one character look like, and that they decode to it.
proof fn lemma_char_units(c: char)
    ensures
        ({
            let u = char_units(c);
            ||| u.len() == 1 && !is_high_surrogate(u[0]) && !is_low_surrogate(u[0]) && u[0] as char
                == c
            ||| u.len() == 2 && is_high_surrogate(u[0]) && is_low_surrogate(u[1]) && pair_char(
                u[0],
                u[1],
            ) == c
        }),
        c != '\0' ==> char_units(c)[0] != 0,
{
}

/// Decoding gives back every text that was encoded.
pub proof fn law_decode_undoes_encode(s: Seq<char>)
    ensures
        decode_lossy(utf16(s)) == s,
    decreases s.len(),
{
    if s.len() > 0 {
        lemma_utf16_first(s);
        lemma_char_units(s[0]);
        law_decode_undoes_encode(s.skip(1));
        let units = utf16(s);
        let head = char_units(s[0]);
        assert(units.skip(head.len() as int) == utf16(s.skip(1)));
        assert(units[0] == head[0]);
        if head.len() == 2 {
            assert(units[1] == head[1]);
        }
        assert(decode_lossy(units) == seq![s[0]] + s.skip(1));
        assert(seq![s[0]] + s.skip(1) == s);
    }
}

/// Different texts have different units.
pub proof fn law_utf16_injective(a: Seq<char>, b: Seq<char>)
    requires
        utf16(a) == utf16(b),
    ensures
        a == b,
{
    law_decode_undoes_encode(a);
    law_decode_undoes_encode(b);
}

/// A text without NUL, followed by a NUL and anything after it, is read back whole from a
/// NUL-terminated buffer.
pub proof fn law_until_nul(s: Seq<char>, tail: Seq<u16>)
    requires
        !s.contains('\0'),
        tail.len() > 0,
        tail[0] == 0,
    ensures
        until_nul(utf16(s) + tail) == utf16(s),
    decreases s.len(),
{
    if s.len() == 0 {
        assert(utf16(s) + tail == tail);
    } else {
        let rest = s.skip(1);
        let head = char_units(s[0]);
        let all = utf16(s) + tail;
        assert(s.contains(s[0]));
        assert forall|c: char| rest.contains(c) implies s.contains(c) by {
            let i = choose|i: int| 0 <= i < rest.len() && rest[i] == c;
            assert(s[i + 1] == c);
        }
        lemma_utf16_first(s);
        lemma_char_units(s[0]);
        law_until_nul(rest, tail);
        assert(all == head + (utf16(rest) + tail));
        assert(all[0] == head[0]);
        assert(until_nul(all) == seq![head[0]] + until_nul(all.skip(1)));
        if head.len() == 1 {
            assert(all.skip(1) == utf16(rest) + tail);
        } else {
            assert(all.skip(1)[0] == head[1]);
            assert(all.skip(1).skip(1) == utf16(rest) + tail);
            assert(until_nul(all.skip(1)) == seq![head[1]] + utf16(rest));
        }
        assert(until_nul(all) == utf16(s));
    }
}

/// A NUL-terminated text is read back whole: read up to the first NUL and decoded, what
/// [`wide_null`] makes of a text gives it back.
pub proof fn law_wide_null_holds_text(s: Seq<char>)
    requires
        !s.contains('\0'),
    ensures
        decode_lossy(until_nul(utf16(s).push(0))) == s,
{
    let tail = seq![0u16];
    assert(utf16(s).push(0) == utf16(s) + tail);
    law_until_nul(s, tail);
    law_decode_undoes_encode(s);
}

/// A tooltip buffer shows its text: read up to the first NUL and decoded, the buffer that
/// [`string_to_tip`] fills gives the text back.
pub proof fn law_tip_shows_text(s: Seq<char>, tip: Seq<u16>)
    requires
        !s.contains('\0'),
        utf16(s).len() < TIP_LEN,
        tip == utf16(s) + Seq::new((TIP_LEN - utf16(s).len()) as nat, |i: int| 0u16),
    ensures
        decode_lossy(until_nul(tip)) == s,
{
    law_until_nul(s, Seq::new((TIP_LEN - utf16(s).len()) as nat, |i: int| 0u16));
    law_decode_undoes_encode(s);
}

/// A character below 0x10000 is one unit, its own number. Any other is a pair of units, the
/// first of which holds the upper and the second the lower ten bits of what its number exceeds
/// 0x10000 by.
pub proof fn law_units_of_a_character(c: char)
    ensures
        c as int <= 0xFFFF ==> utf16(seq![c]).len() == 1 && utf16(seq![c])[0] as int == c as int,
        c as int > 0xFFFF ==> {
            let units = utf16(seq![c]);
            &&& units.len() == 2
            &&& 0xD800 <= units[0] <= 0xDBFF
            &&& 0xDC00 <= units[1] <= 0xDFFF
            &&& c as int == 0x10000 + (units[0] - 0xD800) * 0x400 + (units[1] - 0xDC00)
        },
{
    reveal_with_fuel(utf16, 2);
    assert(utf16(seq![c]) =~= char_units(c));
}

/// Decoding in pieces gives the same text as decoding at once, unless a surrogate pair is cut in
/// two.
pub proof fn law_decode_concat(a: Seq<u16>, b: Seq<u16>)
    requires
        !(a.len() > 0 && b.len() > 0 && 0xD800 <= a.last() <= 0xDBFF && 0xDC00 <= b[0] <= 0xDFFF),
    ensures
        decode_lossy(a + b) == decode_lossy(a) + decode_lossy(b),
    decreases a.len(),
{
    let all = a + b;
    if a.len() == 0 {
        assert(all =~= b);
        assert(decode_lossy(a) + decode_lossy(b) =~= decode_lossy(b));
    } else {
        assert(all[0] == a[0]);
        let step: int = if is_high_surrogate(a[0]) && a.len() > 1 && is_low_surrogate(a[1]) {
            2
        } else {
            1
        };
        if a.len() > 1 {
            assert(all[1] == a[1]);
        } else if b.len() > 0 {
            assert(all[1] == b[0]);
        }
        assert(all.skip(step) =~= a.skip(step) + b);
        law_decode_concat(a.skip(step), b);
        let head = decode_lossy(a).take(1);
        assert(decode_lossy(a) =~= head + decode_lossy(a.skip(step)));
        assert(decode_lossy(all) =~= head + decode_lossy(all.skip(step)));
    }
}

/// A unit that is no surrogate decodes to the character with its number; a surrogate by itself
/// to the replacement character.
pub proof fn law_decode_unit(u: u16)
    ensures
        decode_lossy(seq![u]).len() == 1,
        u < 0xD800 || u > 0xDFFF ==> decode_lossy(seq![u])[0] as int == u as int,
        0xD800 <= u <= 0xDFFF ==> decode_lossy(seq![u])[0] as int == 0xFFFD,
{
    reveal_with_fuel(decode_lossy, 2);
    assert(seq![u].skip(1) =~= Seq::<u16>::empty());
}

/// A surrogate pair decodes to the one character with the twenty bits that it holds.
pub proof fn law_decode_pair(high: u16, low: u16)
    requires
        0xD800 <= high <= 0xDBFF,
        0xDC00 <= low <= 0xDFFF,
    ensures
        decode_lossy(seq![high, low]).len() == 1,
        decode_lossy(seq![high, low])[0] as int == 0x10000 + (high - 0xD800) * 0x400 + (low
            - 0xDC00),
{
    reveal_with_fuel(decode_lossy, 2);
    assert(seq![high, low].skip(2) =~= Seq::<u16>::empty());
}

/// What is read up to the first NUL is the beginning of a buffer, holds no NUL, and ends only
/// at a NUL or with the buffer.
pub proof fn law_until_nul_stops_at_first(units: Seq<u16>)
    ensures
        until_nul(units).len() <= units.len(),
        until_nul(units) == units.take(until_nul(units).len() as int),
        forall|i: int| 0 <= i < until_nul(units).len() ==> units[i] != 0,
        until_nul(units).len() < units.len() ==> units[until_nul(units).len() as int] == 0,
    decreases units.len(),
{
    if units.len() > 0 && units[0] != 0 {
        let rest = units.skip(1);
        law_until_nul_stops_at_first(rest);
        assert forall|i: int| 0 <= i < until_nul(units).len() implies units[i] != 0 by {
            if i > 0 {
                assert(rest[i - 1] == units[i]);
            }
        }
        assert(until_nul(units) =~= units.take(until_nul(units).len() as int));
    }
}

/// A text of characters below 0x10000 has one unit for each, with the character's number.
pub proof fn law_units_of_plain_text(s: Seq<char>)
    requires
        forall|i: int| 0 <= i < s.len() ==> (#[trigger] s[i]) as u32 <= 0xFFFF,
    ensures
        utf16(s).len() == s.len(),
        forall|i: int| 0 <= i < s.len() ==> (#[trigger] utf16(s)[i]) as int == s[i] as u32 as int,
    decreases s.len(),
{
    if s.len() > 0 {
        let front = s.drop_last();
        assert forall|i: int| 0 <= i < front.len() implies (#[trigger] front[i]) as u32
            <= 0xFFFF by {
            assert(front[i] == s[i]);
        }
        assert(s[s.len() - 1] as u32 <= 0xFFFF);
        law_units_of_plain_text(front);
        assert(char_units(s.last()).len() == 1);
        assert(utf16(s).len() == utf16(front).len() + 1);
    }
}

} // verus!
