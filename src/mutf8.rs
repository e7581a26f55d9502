use vstd::prelude::*;

verus! {

/// A continuation byte `10xxxxxx`.
pub open spec fn is_continuation(b: u8) -> bool {
    0x80 <= b <= 0xBF
}

/// Length of the modified UTF-8 sequence that starts `s`, or 0 when `s` does
/// not start with one. The null character is only written as `C0 80`, no byte
/// is `00` or at least `F0`, and characters outside the basic plane arrive as
/// two three-byte surrogate halves.
pub open spec fn mutf8_char_len(s: Seq<u8>) -> int {
    if s.len() == 0 {
        0
    } else if 0x01 <= s[0] <= 0x7F {
        1
    } else if s[0] == 0xC0 {
        if s.len() >= 2 && s[1] == 0x80 { 2 } else { 0 }
    } else if 0xC2 <= s[0] <= 0xDF {
        if s.len() >= 2 && is_continuation(s[1]) { 2 } else { 0 }
    } else if s[0] == 0xE0 {
        if s.len() >= 3 && 0xA0 <= s[1] <= 0xBF && is_continuation(s[2]) { 3 } else { 0 }
    } else if 0xE1 <= s[0] <= 0xEF {
        if s.len() >= 3 && is_continuation(s[1]) && is_continuation(s[2]) { 3 } else { 0 }
    } else {
        0
    }
}

/// `s` is a whole number of modified UTF-8 sequences.
pub open spec fn valid_mutf8(s: Seq<u8>) -> bool
    decreases s.len(),
{
    if s.len() == 0 {
        true
    } else {
        let n = mutf8_char_len(s);
        n > 0 && valid_mutf8(s.skip(n))
    }
}

fn char_len_at(s: &Vec<u8>, i: usize) -> (r: usize)
    requires
        i <= s@.len(),
    ensures
        r as int == mutf8_char_len(s@.skip(i as int)),
{
    let ghost rest = s@.skip(i as int);
    let len = s.len() - i;
    if len == 0 {
        return 0;
    }
    let b0 = s[i];
    assert(rest[0] == b0);
    if 0x01 <= b0 && b0 <= 0x7F {
        1
    } else if b0 == 0xC0 {
        if len >= 2 && s[i + 1] == 0x80 {
            assert(rest[1] == s@[i + 1]);
            2
        } else {
            assert(len >= 2 ==> rest[1] == s@[i + 1]);
            0
        }
    } else if 0xC2 <= b0 && b0 <= 0xDF {
        if len >= 2 && 0x80 <= s[i + 1] && s[i + 1] <= 0xBF {
            assert(rest[1] == s@[i + 1]);
            2
        } else {
            assert(len >= 2 ==> rest[1] == s@[i + 1]);
            0
        }
    } else if 0xE0 <= b0 && b0 <= 0xEF {
        if len < 3 {
            return 0;
        }
        let b1 = s[i + 1];
        let b2 = s[i + 2];
        assert(rest[1] == b1 && rest[2] == b2);
        let low1: u8 = if b0 == 0xE0 { 0xA0 } else { 0x80 };
        if low1 <= b1 && b1 <= 0xBF && 0x80 <= b2 && b2 <= 0xBF {
            3
        } else {
            0
        }
    } else {
        0
    }
}

/// Whether `s` is valid modified UTF-8 text.
pub fn is_valid_mutf8(s: &Vec<u8>) -> (r: bool)
    ensures
        r == valid_mutf8(s@),
{
    let mut i: usize = 0;
    assert(s@.skip(0) =~= s@);
    while i < s.len()
        invariant
            i <= s@.len(),
            valid_mutf8(s@) == valid_mutf8(s@.skip(i as int)),
        decreases s@.len() - i,
    {
        let n = char_len_at(s, i);
        if n == 0 {
            return false;
        }
        proof {
            assert(n <= s@.len() - i);
            assert(s@.skip(i as int).skip(n as int) =~= s@.skip(i + n));
        }
        i = i + n;
    }
    assert(s@.skip(i as int).len() == 0);
    true
}

} // verus!
