//! UTF-16 text for Windows API calls.
use vstd::prelude::*;
use crate::text::char_vec;

verus! {

broadcast use vstd::string::group_string_axioms;

/// The UTF-16 code units of one character.
pub open spec fn utf16_of(c: char) -> Seq<u16> {
    let v = c as u32;
    if v < 0x10000 {
        seq![v as u16]
    } else {
        let w = (v - 0x10000) as u32;
        seq![(0xD800 + w / 0x400) as u16, (0xDC00 + w % 0x400) as u16]
    }
}

/// The UTF-16 code units of a text.
pub open spec fn utf16(s: Seq<char>) -> Seq<u16>
    decreases s.len(),
{
    if s.len() == 0 {
        Seq::empty()
    } else {
        utf16(s.drop_last()) + utf16_of(s.last())
    }
}

/// `value` in UTF-16 followed by a terminating zero unit.
pub fn to_wide(value: &str) -> (r: Vec<u16>)
    ensures
        r@ == utf16(value@).push(0u16),
{
    let x = char_vec(value);
    let mut out: Vec<u16> = Vec::new();
    let mut i: usize = 0;
    assert(x@.take(0) =~= Seq::<char>::empty());
    while i < x.len()
        invariant
            x@ == value@,
            i <= x@.len(),
            out@ == utf16(x@.take(i as int)),
        decreases x.len() - i,
    {
        assert(x@.take(i + 1).drop_last() =~= x@.take(i as int));
        assert(x@.take(i + 1).last() == x@[i as int]);
        let v = x[i] as u32;
        proof {
            vstd::utf8::char_is_scalar(x@[i as int]);
        }
        if v < 0x10000 {
            out.push(v as u16);
            assert(out@ =~= utf16(x@.take(i + 1)));
        } else {
            let w = v - 0x10000;
            out.push((0xD800 + w / 0x400) as u16);
            out.push((0xDC00 + w % 0x400) as u16);
            assert(out@ =~= utf16(x@.take(i + 1)));
        }
        i = i + 1;
    }
    assert(x@.take(i as int) =~= x@);
    out.push(0);
    out
}

} // verus!
