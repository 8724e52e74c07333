//! Small helpers shared by both programs.

use vstd::prelude::*;

use crate::utf16::{char_units, encode_into};

verus! {

/// The UTF-16 units of every character of `s` except NUL, in order.
pub open spec fn units_without_nul(s: Seq<char>) -> Seq<u16>
    decreases s.len(),
{
    if s.len() == 0 {
        Seq::empty()
    } else if s.last() == '\0' {
        units_without_nul(s.drop_last())
    } else {
        units_without_nul(s.drop_last()) + char_units(s.last())
    }
}

/// No unit of `units_without_nul(s)` is zero, so the only zero in what
/// [`wide`] returns is the terminator.
pub proof fn law_no_interior_nul(s: Seq<char>)
    ensures
        forall|i: int| 0 <= i < units_without_nul(s).len() ==> units_without_nul(s)[i] != 0,
    decreases s.len(),
{
    if s.len() > 0 {
        law_no_interior_nul(s.drop_last());
        let c = s.last();
        if c != '\0' {
            vstd::utf8::char_u32_cast(c, c as u32);
            vstd::utf8::char_u32_cast('\0', '\0' as u32);
            assert('\0' as u32 == 0);
            assert((c as u32) != 0);
            assert(forall|i: int| 0 <= i < char_units(c).len() ==> char_units(c)[i] != 0);
            let prev = units_without_nul(s.drop_last());
            assert forall|i: int| 0 <= i < units_without_nul(s).len() implies units_without_nul(
                s,
            )[i] != 0 by {
                if i >= prev.len() {
                    assert(units_without_nul(s)[i] == char_units(c)[i - prev.len()]);
                } else {
                    assert(units_without_nul(s)[i] == prev[i]);
                }
            }
        } else {
            assert(units_without_nul(s) == units_without_nul(s.drop_last()));
        }
    }
}

/// Convert a string into the NUL-terminated UTF-16 buffer Win32 expects.
///
/// Interior NULs are dropped rather than passed through: Win32 reads the first
/// one as the end of the string, so keeping them would silently truncate
/// whatever followed. (NUL is the only character whose encoding holds a zero
/// unit, so this is the same as dropping zero units.)
pub fn wide(s: &str) -> (r: Vec<u16>)
    ensures
        r@ == units_without_nul(s@).push(0),
        r@.last() == 0,
        forall|i: int| 0 <= i < r@.len() - 1 ==> r@[i] != 0,
{
    proof {
        law_no_interior_nul(s@);
    }
    let n = s.unicode_len();
    let mut out: Vec<u16> = Vec::new();
    let mut i: usize = 0;
    while i < n
        invariant
            n == s@.len(),
            i <= n,
            out@ == units_without_nul(s@.take(i as int)),
        decreases n - i,
    {
        let c = s.get_char(i);
        assert(s@.take(i + 1).drop_last() =~= s@.take(i as int));
        if c != '\0' {
            let mut pair = [0u16; 2];
            let k = encode_into(c, &mut pair, 0);
            let mut j: usize = 0;
            let ghost before = out@;
            while j < k
                invariant
                    k == char_units(c).len(),
                    k <= 2,
                    pair@.subrange(0, k as int) == char_units(c),
                    j <= k,
                    out@ == before + char_units(c).take(j as int),
                decreases k - j,
            {
                out.push(pair[j]);
                assert(char_units(c).take(j + 1) =~= char_units(c).take(j as int).push(pair@[j as int]));
                j = j + 1;
            }
            assert(char_units(c).take(k as int) =~= char_units(c));
        }
        i = i + 1;
    }
    assert(s@.take(n as int) =~= s@);
    out.push(0);
    out
}

} // verus!
