//! The header of a loaded module: where the size of its code stands.

use vstd::prelude::*;

verus! {

/// Where a module says where its main header starts.
pub const E_LFANEW_OFFSET: usize = 0x3C;

/// Where the size of the code stands, counted from the start of the module: in
/// the main header behind its signature of 4 bytes, a file header of 20 bytes
/// and 4 bytes more.
pub fn size_of_code_offset(e_lfanew: u32) -> (r: usize)
    requires
        e_lfanew + 28 <= usize::MAX,
    ensures
        r == e_lfanew + 28,
{
    e_lfanew as usize + 4 + 20 + 4
}

/// The start and the size of a module's code; `None` where there is no module,
/// or no code.
pub fn code_section(base: usize, size_of_code: u32) -> (r: Option<(usize, usize)>)
    ensures
        base == 0 || size_of_code == 0 ==> r is None,
        base != 0 && size_of_code != 0 ==> r == Some((base, size_of_code as usize)),
{
    if base == 0 || size_of_code == 0 {
        None
    } else {
        Some((base, size_of_code as usize))
    }
}

} // verus!
