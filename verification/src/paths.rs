//! Paths in fixed buffers of wide characters.

use crate::utf16;
use vstd::prelude::*;

verus! {

/// The size of a path buffer.
pub const PATH_LEN: usize = 256;

/// The code unit of the character that separates the parts of a path.
pub const BACKSLASH: u16 = 92;

/// The position of the last backslash, or 0 where there is none.
pub open spec fn last_backslash(path: Seq<u16>) -> int
    decreases path.len(),
{
    if path.len() == 0 {
        0
    } else if path.last() == BACKSLASH {
        path.len() - 1
    } else {
        last_backslash(path.drop_last())
    }
}

/// Whether the buffer has the size of a path buffer and ends in a NUL.
pub open spec fn terminated(buffer: Seq<u16>) -> bool {
    buffer.len() == PATH_LEN && buffer[PATH_LEN - 1] == 0
}

/// The path buffer with everything behind its last backslash replaced by the
/// units, at most 255 units in all, and filled up with NULs. Without a backslash
/// the first unit of the buffer stays.
pub open spec fn beside(path: Seq<u16>, units: Seq<u16>) -> Seq<u16> {
    let kept = last_backslash(path) + 1;
    Seq::new(
        PATH_LEN as nat,
        |i: int|
            if i >= PATH_LEN - 1 {
                0
            } else if i < kept {
                path[i]
            } else if i - kept < units.len() {
                units[i - kept]
            } else {
                0
            },
    )
}

/// A path buffer with the units, at most 255 of them, and filled up with NULs.
pub open spec fn buffer_of(units: Seq<u16>) -> Seq<u16> {
    Seq::new(
        PATH_LEN as nat,
        |i: int|
            if i < units.len() && i < PATH_LEN - 1 {
                units[i]
            } else {
                0
            },
    )
}

/// The path of a file in the directory of another.
pub fn sibling_path(path: &[u16], file_name: &str) -> (r: Vec<u16>)
    requires
        path@.len() == PATH_LEN,
    ensures
        r@ == beside(path@, utf16::encoded(file_name@)),
        terminated(r@),
{
    let units = utf16::encode(file_name);
    let mut last: usize = path.len();
    assert(path@.take(last as int) =~= path@);
    while last > 0 && path[last - 1] != BACKSLASH
        invariant
            last <= path@.len(),
            last_backslash(path@) == last_backslash(path@.take(last as int)),
        decreases last,
    {
        assert(path@.take(last as int).drop_last() =~= path@.take(last - 1));
        last = last - 1;
    }
    let kept: usize = if last > 0 {
        last
    } else {
        1
    };
    assert(kept == last_backslash(path@) + 1);
    let mut r: Vec<u16> = Vec::new();
    let ghost expected = beside(path@, units@);
    let mut i: usize = 0;
    while i < PATH_LEN
        invariant
            i <= PATH_LEN,
            path@.len() == PATH_LEN,
            1 <= kept <= PATH_LEN,
            kept == last_backslash(path@) + 1,
            expected == beside(path@, units@),
            r@ == expected.take(i as int),
        decreases PATH_LEN - i,
    {
        let unit: u16 = if i >= PATH_LEN - 1 {
            0
        } else if i < kept {
            path[i]
        } else if i - kept < units.len() {
            units[i - kept]
        } else {
            0
        };
        r.push(unit);
        i = i + 1;
        assert(r@ =~= expected.take(i as int));
    }
    assert(r@ =~= expected);
    r
}

/// A path buffer with the text, cut where it does not fit.
pub fn path_buffer(s: &str) -> (r: Vec<u16>)
    ensures
        r@ == buffer_of(utf16::encoded(s@)),
        terminated(r@),
{
    let units = utf16::encode(s);
    let ghost expected = buffer_of(units@);
    let mut r: Vec<u16> = Vec::new();
    let mut i: usize = 0;
    while i < PATH_LEN
        invariant
            i <= PATH_LEN,
            expected == buffer_of(units@),
            r@ == expected.take(i as int),
        decreases PATH_LEN - i,
    {
        let unit: u16 = if i < units.len() && i < PATH_LEN - 1 {
            units[i]
        } else {
            0
        };
        r.push(unit);
        i = i + 1;
        assert(r@ =~= expected.take(i as int));
    }
    assert(r@ =~= expected);
    r
}

/// Whether the buffer holds a path: something stands before its first NUL.
pub fn holds_path(path: &[u16]) -> (r: bool)
    ensures
        r == (utf16::nul_index(path@) != 0),
{
    utf16::find_nul(path) > 0
}

/// A path that fits is the text that the buffer holds.
pub proof fn law_path_read_back(s: Seq<char>)
    requires
        !s.contains('\0'),
        utf16::encoded(s).len() < PATH_LEN,
    ensures
        utf16::wide_text(buffer_of(utf16::encoded(s))) == s,
{
    let units = utf16::encoded(s);
    let zeros = Seq::new((PATH_LEN - 1 - units.len()) as nat, |i: int| 0u16);
    assert(buffer_of(units) =~= units.push(0) + zeros);
    utf16::law_wide_text(s, zeros);
}

/// Every path buffer ends in a NUL, so it is a wide string, however long the path
/// is that it was made from.
pub proof fn law_path_buffers_end(path: Seq<u16>, units: Seq<u16>)
    ensures
        terminated(beside(path, units)),
        terminated(buffer_of(units)),
        utf16::nul_index(beside(path, units)) < PATH_LEN,
        utf16::nul_index(buffer_of(units)) < PATH_LEN,
{
    lemma_nul_before(beside(path, units), PATH_LEN - 1);
    lemma_nul_before(buffer_of(units), PATH_LEN - 1);
}

proof fn lemma_nul_before(s: Seq<u16>, k: int)
    requires
        0 <= k < s.len(),
        s[k] == 0,
    ensures
        0 <= utf16::nul_index(s) <= k,
    decreases k,
{
    if s[0] != 0 {
        lemma_nul_before(s.skip(1), k - 1);
    }
}

proof fn lemma_last_backslash(path: Seq<u16>, k: int)
    requires
        0 <= k < path.len(),
        k == 0 || path[k] == BACKSLASH,
        forall|j: int| k < j < path.len() ==> path[j] != BACKSLASH,
    ensures
        last_backslash(path) == k,
    decreases path.len(),
{
    if path.len() - 1 > k {
        let shorter = path.drop_last();
        assert forall|j: int| k < j < shorter.len() implies shorter[j] != BACKSLASH by {
            assert(shorter[j] == path[j]);
        }
        lemma_last_backslash(shorter, k);
    } else if path.last() != BACKSLASH {
        assert(path.drop_last().len() == 0);
        assert(last_backslash(path.drop_last()) == 0);
    }
}

/// A file beside another: up to and with the last backslash the path stays, the
/// name stands behind that as far as there is room before the last unit, and
/// everything else is 0. Where there is no backslash, the first unit stays.
pub proof fn law_beside(path: Seq<u16>, units: Seq<u16>, k: int, i: int)
    requires
        path.len() == 256,
        0 <= k < 256,
        k == 0 || path[k] == 92,
        forall|j: int| k < j < 256 ==> path[j] != 92,
        0 <= i < 256,
    ensures
        beside(path, units).len() == 256,
        i <= k && i < 255 ==> beside(path, units)[i] == path[i],
        k < i < 255 && i - k - 1 < units.len() ==> beside(path, units)[i] == units[i - k - 1],
        k < i && i - k - 1 >= units.len() ==> beside(path, units)[i] == 0,
        i == 255 ==> beside(path, units)[i] == 0,
{
    lemma_last_backslash(path, k);
}

/// A path buffer holds the first 255 units, each in its place, and 0 behind them.
pub proof fn law_buffer_of(units: Seq<u16>, i: int)
    requires
        0 <= i < 256,
    ensures
        buffer_of(units).len() == 256,
        i < 255 && i < units.len() ==> buffer_of(units)[i] == units[i],
        i == 255 || i >= units.len() ==> buffer_of(units)[i] == 0,
{
}

} // verus!
