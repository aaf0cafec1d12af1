//! Store-native identifiers: syntax checking and generation.
//!
//! An identifier is exactly 24 hexadecimal digits.  The store assigns fresh
//! identifiers from a counter, written out as 24 lower-case hex digits with
//! leading zeros.

use vstd::prelude::*;
use vstd::string::StrSliceExecFns;

verus! {

/// A hexadecimal digit, in either case.
pub open spec fn is_hex_char(c: char) -> bool {
    ||| ('0' as u32) <= (c as u32) && (c as u32) <= ('9' as u32)
    ||| ('a' as u32) <= (c as u32) && (c as u32) <= ('f' as u32)
    ||| ('A' as u32) <= (c as u32) && (c as u32) <= ('F' as u32)
}

/// A syntactically valid store identifier: exactly 24 hex digits.
pub open spec fn valid_id(s: Seq<char>) -> bool {
    &&& s.len() == 24
    &&& forall|i: int| 0 <= i < s.len() ==> is_hex_char(#[trigger] s[i])
}

/// Decides whether `s` is a syntactically valid store identifier.
pub fn is_valid_object_id(s: &str) -> (b: bool)
    ensures
        b == valid_id(s@),
{
    let n = s.unicode_len();
    if n != 24 {
        return false;
    }
    let mut i: usize = 0;
    while i < 24
        invariant
            s@.len() == 24,
            i <= 24,
            forall|j: int| 0 <= j < i ==> is_hex_char(#[trigger] s@[j]),
        decreases 24 - i,
    {
        let v = s.get_char(i) as u32;
        let digit = ('0' as u32) <= v && v <= ('9' as u32);
        let lower = ('a' as u32) <= v && v <= ('f' as u32);
        let upper = ('A' as u32) <= v && v <= ('F' as u32);
        if !(digit || lower || upper) {
            return false;
        }
        i += 1;
    }
    true
}

/// The lower-case hex digit standing for `d`.
pub open spec fn hex_char_of(d: u64) -> char {
    if d == 0 {
        '0'
    } else if d == 1 {
        '1'
    } else if d == 2 {
        '2'
    } else if d == 3 {
        '3'
    } else if d == 4 {
        '4'
    } else if d == 5 {
        '5'
    } else if d == 6 {
        '6'
    } else if d == 7 {
        '7'
    } else if d == 8 {
        '8'
    } else if d == 9 {
        '9'
    } else if d == 10 {
        'a'
    } else if d == 11 {
        'b'
    } else if d == 12 {
        'c'
    } else if d == 13 {
        'd'
    } else if d == 14 {
        'e'
    } else {
        'f'
    }
}

/// Character `i` of the identifier generated from counter value `n`:
/// eight leading zeros, then the sixteen hex digits of `n`, most
/// significant first.
pub open spec fn id_char(n: u64, i: int) -> char {
    if i < 8 {
        '0'
    } else {
        hex_char_of((n >> (((23 - i) * 4) as u64)) & 0xf)
    }
}

/// The identifier generated from counter value `n`.
pub open spec fn id_of(n: u64) -> Seq<char> {
    Seq::new(24, |i: int| id_char(n, i))
}

/// A generated identifier is syntactically valid.
pub proof fn lemma_id_of_valid(n: u64)
    ensures
        valid_id(id_of(n)),
{
    assert forall|i: int| 0 <= i < id_of(n).len() implies is_hex_char(#[trigger] id_of(n)[i]) by {
        if i >= 8 {
            let sh = ((23 - i) * 4) as u64;
            assert((n >> sh) & 0xf < 16) by (bit_vector);
        }
    }
}

fn hex_digit_str(d: u64) -> (r: &'static str)
    requires
        d < 16,
    ensures
        r@.len() == 1,
        r@[0] == hex_char_of(d),
{
    proof {
        reveal_strlit("0");
        reveal_strlit("1");
        reveal_strlit("2");
        reveal_strlit("3");
        reveal_strlit("4");
        reveal_strlit("5");
        reveal_strlit("6");
        reveal_strlit("7");
        reveal_strlit("8");
        reveal_strlit("9");
        reveal_strlit("a");
        reveal_strlit("b");
        reveal_strlit("c");
        reveal_strlit("d");
        reveal_strlit("e");
        reveal_strlit("f");
    }
    if d == 0 {
        "0"
    } else if d == 1 {
        "1"
    } else if d == 2 {
        "2"
    } else if d == 3 {
        "3"
    } else if d == 4 {
        "4"
    } else if d == 5 {
        "5"
    } else if d == 6 {
        "6"
    } else if d == 7 {
        "7"
    } else if d == 8 {
        "8"
    } else if d == 9 {
        "9"
    } else if d == 10 {
        "a"
    } else if d == 11 {
        "b"
    } else if d == 12 {
        "c"
    } else if d == 13 {
        "d"
    } else if d == 14 {
        "e"
    } else {
        "f"
    }
}

/// Writes out the identifier generated from counter value `n`.
pub fn encode_object_id(n: u64) -> (r: String)
    ensures
        r@ == id_of(n),
        valid_id(r@),
{
    let mut s = String::new();
    let mut i: usize = 0;
    while i < 24
        invariant
            s@.len() == i,
            i <= 24,
            forall|j: int| 0 <= j < i ==> s@[j] == id_char(n, j),
        decreases 24 - i,
    {
        if i < 8 {
            s.append("0");
            proof {
                reveal_strlit("0");
            }
        } else {
            let sh: u64 = ((23 - i) as u64) * 4;
            let d: u64 = (n >> sh) & 0xf;
            proof {
                assert((n >> sh) & 0xf < 16) by (bit_vector);
            }
            let h = hex_digit_str(d);
            s.append(h);
        }
        i += 1;
    }
    proof {
        assert(s@ =~= id_of(n));
        lemma_id_of_valid(n);
    }
    s
}

} // verus!
