//! Helpers shared by the overlay windows: wide strings for the system, the
//! number of a display device, and the registry of global key handlers.
use vstd::prelude::*;
use crate::text::{chars_of, is_decimal_digit, parse_i32, spec_parse_i32, string_of};

verus! {

/// The UTF-16 code units of a character.
pub open spec fn utf16_units(c: char) -> Seq<u16> {
    let code = c as u32;
    if code < 0x10000 {
        seq![code as u16]
    } else {
        let v = code - 0x10000;
        seq![(0xD800 + v / 1024) as u16, (0xDC00 + v % 1024) as u16]
    }
}

/// The UTF-16 encoding of a string.
pub open spec fn utf16_encoding(s: Seq<char>) -> Seq<u16>
    decreases s.len(),
{
    if s.len() == 0 {
        Seq::empty()
    } else {
        utf16_encoding(s.drop_last()) + utf16_units(s.last())
    }
}

/// Reads UTF-16 code units back into characters, front to back; `None` when
/// a surrogate is not part of a high-low pair.
pub open spec fn utf16_decode(units: Seq<u16>) -> Option<Seq<char>>
    decreases units.len(),
{
    if units.len() == 0 {
        Some(Seq::empty())
    } else {
        let first = units[0] as u32;
        if 0xD800 <= first < 0xDC00 {
            if units.len() >= 2 && 0xDC00 <= units[1] < 0xE000 {
                let code = (0x10000 + (first - 0xD800) * 1024 + (units[1] - 0xDC00)) as u32;
                match utf16_decode(units.skip(2)) {
                    Some(rest) => Some(seq![code as char] + rest),
                    None => None,
                }
            } else {
                None
            }
        } else if 0xDC00 <= first < 0xE000 {
            None
        } else {
            match utf16_decode(units.skip(1)) {
                Some(rest) => Some(seq![first as char] + rest),
                None => None,
            }
        }
    }
}

proof fn lemma_encoding_front(s: Seq<char>)
    requires
        s.len() > 0,
    ensures
        utf16_encoding(s) == utf16_units(s[0]) + utf16_encoding(s.drop_first()),
    decreases s.len(),
{
    if s.len() == 1 {
        assert(s.drop_last() =~= Seq::<char>::empty());
        assert(s.drop_first() =~= Seq::<char>::empty());
        assert(utf16_encoding(s) =~= utf16_units(s[0]));
    } else {
        let init = s.drop_last();
        lemma_encoding_front(init);
        assert(init.drop_first() =~= s.drop_first().drop_last());
        assert(s.drop_first().last() == s.last());
        assert(init[0] == s[0]);
        assert(utf16_encoding(s) =~= utf16_units(s[0]) + utf16_encoding(s.drop_first()));
    }
}

/// Decoding the UTF-16 encoding of a string gives the string back.
pub proof fn lemma_utf16_round_trip(s: Seq<char>)
    ensures
        utf16_decode(utf16_encoding(s)) == Some(s),
    decreases s.len(),
{
    if s.len() > 0 {
        let c = s[0];
        let tail = utf16_encoding(s.drop_first());
        lemma_encoding_front(s);
        lemma_utf16_round_trip(s.drop_first());
        let units = utf16_units(c) + tail;
        let code = c as u32;
        vstd::utf8::char_is_scalar(c);
        vstd::utf8::char_u32_cast(c, code);
        assert(code <= 0x10FFFF && !(0xD800 <= code < 0xE000));
        if code < 0x10000 {
            assert(units.skip(1) =~= tail);
            assert(units[0] as u32 == code);
        } else {
            let v = code - 0x10000;
            assert(0 <= v / 1024 < 1024);
            assert(units.skip(2) =~= tail);
            assert(units[0] as int == 0xD800 + v / 1024);
            assert(units[1] as int == 0xDC00 + v % 1024);
            assert(0x10000 + (v / 1024) * 1024 + v % 1024 == code as int);
        }
        assert(utf16_decode(units) == Some(seq![c] + s.drop_first()));
        assert(seq![c] + s.drop_first() =~= s);
    } else {
        assert(utf16_encoding(s) =~= Seq::<u16>::empty());
    }
}

/// A string as the system's wide-character functions take it: UTF-16 with a
/// terminating zero; read back without the zero, it gives the string again.
pub fn to_wide(text: &str) -> (wide: Vec<u16>)
    ensures
        wide@ == utf16_encoding(text@).push(0u16),
        utf16_decode(wide@.drop_last()) == Some(text@),
{
    let chars = chars_of(text);
    let mut wide: Vec<u16> = Vec::new();
    let mut index: usize = 0;
    assert(chars@.take(0) =~= Seq::<char>::empty());
    while index < chars.len()
        invariant
            chars@ == text@,
            index <= chars@.len(),
            wide@ == utf16_encoding(chars@.take(index as int)),
        decreases chars@.len() - index,
    {
        let c = chars[index];
        let code: u32 = c as u32;
        assert(chars@.take(index + 1).drop_last() =~= chars@.take(index as int));
        assert(chars@.take(index + 1).last() == c);
        let ghost before = wide@;
        if code < 0x10000 {
            wide.push(code as u16);
            assert(wide@ =~= before + utf16_units(c));
        } else {
            let v: u32 = code - 0x10000;
            wide.push((0xD800 + v / 1024) as u16);
            wide.push((0xDC00 + v % 1024) as u16);
            assert(wide@ =~= before + utf16_units(c));
        }
        index = index + 1;
        assert(wide@ =~= utf16_encoding(chars@.take(index as int)));
    }
    assert(chars@.take(chars@.len() as int) =~= chars@);
    wide.push(0);
    proof {
        assert(wide@.drop_last() =~= utf16_encoding(text@));
        lemma_utf16_round_trip(text@);
    }
    wide
}

/// The ASCII digits of a string, in order.
pub open spec fn digits_of(s: Seq<char>) -> Seq<char>
    decreases s.len(),
{
    if s.len() == 0 {
        s
    } else if is_decimal_digit(s.last()) {
        digits_of(s.drop_last()).push(s.last())
    } else {
        digits_of(s.drop_last())
    }
}

/// The number in a display device name such as `\\.\DISPLAY2`: its digits
/// read together, 0 when there are none or they do not fit.
pub fn monitor_device_number(device: &str) -> (number: i32)
    ensures
        number == (match spec_parse_i32(digits_of(device@)) {
            Some(value) => value,
            None => 0,
        }),
{
    let chars = chars_of(device);
    let mut digits: Vec<char> = Vec::new();
    let mut index: usize = 0;
    assert(chars@.take(0) =~= Seq::<char>::empty());
    while index < chars.len()
        invariant
            chars@ == device@,
            index <= chars@.len(),
            digits@ == digits_of(chars@.take(index as int)),
        decreases chars@.len() - index,
    {
        assert(chars@.take(index + 1).drop_last() =~= chars@.take(index as int));
        if '0' <= chars[index] && chars[index] <= '9' {
            digits.push(chars[index]);
        }
        index = index + 1;
    }
    assert(chars@.take(chars@.len() as int) =~= chars@);
    let text = string_of(&digits);
    match parse_i32(text.as_str()) {
        Some(value) => value,
        None => 0,
    }
}

/// One registered key handler.
pub struct KeyHandlerEntry<H> {
    pub token: usize,
    pub virtual_key: u32,
    pub handler: H,
}

/// The handlers that run when a key goes down anywhere, each under the token
/// it was registered with.
pub struct KeyHandlers<H> {
    pub entries: Vec<KeyHandlerEntry<H>>,
    pub next_token: usize,
}

pub open spec fn tokens_below<H>(entries: Seq<KeyHandlerEntry<H>>, bound: usize) -> bool {
    forall|i: int| 0 <= i < entries.len() ==> (#[trigger] entries[i]).token < bound
}

/// The entries without the one registered under `token`, in their order.
pub open spec fn without_token<H>(entries: Seq<KeyHandlerEntry<H>>, token: usize) -> Seq<KeyHandlerEntry<H>>
    decreases entries.len(),
{
    if entries.len() == 0 {
        entries
    } else if entries.last().token != token {
        without_token(entries.drop_last(), token).push(entries.last())
    } else {
        without_token(entries.drop_last(), token)
    }
}

impl<H> KeyHandlers<H> {
    pub open spec fn well_formed(&self) -> bool {
        tokens_below(self.entries@, self.next_token) && self.next_token >= 1
    }

    pub fn new() -> (handlers: Self)
        ensures
            handlers.well_formed(),
            handlers.entries@.len() == 0,
            handlers.next_token == 1,
    {
        KeyHandlers { entries: Vec::new(), next_token: 1 }
    }

    /// Registers a handler and hands out a token that no other handler has.
    pub fn add(&mut self, virtual_key: u32, handler: H) -> (token: usize)
        requires
            old(self).well_formed(),
            old(self).next_token < usize::MAX,
        ensures
            final(self).well_formed(),
            token == old(self).next_token,
            final(self).next_token == token + 1,
            final(self).entries@ == old(self).entries@.push(KeyHandlerEntry { token, virtual_key, handler }),
            forall|i: int| 0 <= i < old(self).entries@.len() ==> (#[trigger] old(self).entries@[i]).token != token,
    {
        let token = self.next_token;
        self.next_token = token + 1;
        self.entries.push(KeyHandlerEntry { token, virtual_key, handler });
        token
    }

    /// Drops the handler with this token; says whether none are left, in
    /// which case the keyboard hook can go.
    pub fn remove(&mut self, token: usize) -> (now_empty: bool)
        requires
            old(self).well_formed(),
        ensures
            final(self).well_formed(),
            final(self).next_token == old(self).next_token,
            final(self).entries@ == without_token(old(self).entries@, token),
            now_empty == (final(self).entries@.len() == 0),
    {
        let ghost before = self.entries@;
        let total: usize = self.entries.len();
        let mut kept: Vec<KeyHandlerEntry<H>> = Vec::new();
        let mut consumed: usize = 0;
        assert(before.take(0) =~= Seq::<KeyHandlerEntry<H>>::empty());
        assert(before.skip(0) =~= before);
        while self.entries.len() > 0
            invariant
                total == before.len(),
                consumed <= before.len(),
                self.entries@ == before.skip(consumed as int),
                kept@ == without_token(before.take(consumed as int), token),
                tokens_below(before, self.next_token),
                self.next_token == old(self).next_token,
                self.next_token >= 1,
                tokens_below(kept@, self.next_token),
            decreases self.entries@.len(),
        {
            let entry = self.entries.remove(0);
            assert(before.take(consumed + 1).drop_last() =~= before.take(consumed as int));
            assert(entry == before[consumed as int]);
            if entry.token != token {
                kept.push(entry);
            }
            consumed = consumed + 1;
            assert(self.entries@ =~= before.skip(consumed as int));
        }
        assert(before.take(consumed as int) =~= before);
        self.entries = kept;
        self.entries.len() == 0
    }

    /// The positions of the handlers for a key, in the order they were added.
    pub fn matching(&self, virtual_key: u32) -> (positions: Vec<usize>)
        ensures
            positions@ == key_positions(self.entries@, virtual_key, self.entries@.len() as int),
    {
        let mut positions: Vec<usize> = Vec::new();
        let mut index: usize = 0;
        while index < self.entries.len()
            invariant
                index <= self.entries@.len(),
                positions@ == key_positions(self.entries@, virtual_key, index as int),
            decreases self.entries@.len() - index,
        {
            if self.entries[index].virtual_key == virtual_key {
                positions.push(index);
            }
            index = index + 1;
        }
        positions
    }
}

/// The positions of the entries for a key among the first `count`, in order.
pub open spec fn key_positions<H>(entries: Seq<KeyHandlerEntry<H>>, virtual_key: u32, count: int) -> Seq<usize>
    decreases count,
{
    if count <= 0 {
        Seq::empty()
    } else if entries[count - 1].virtual_key == virtual_key {
        key_positions(entries, virtual_key, count - 1).push((count - 1) as usize)
    } else {
        key_positions(entries, virtual_key, count - 1)
    }
}

} // verus!
