//! The table of frozen modules.

use vstd::prelude::*;

verus! {

/// An entry in the table of frozen modules. The entry that ends the table has
/// neither a name nor code.
#[derive(Clone, Copy, Debug)]
pub struct FrozenModule<'a> {
    /// The name of the module, with its terminating NUL.
    pub name: Option<&'a [u8]>,
    /// The code of the module.
    pub code: Option<&'a [u8]>,
    /// The length of the code.
    pub size: i32,
}

/// The value that is left of `n` in 32 bits, read as a signed number.
pub open spec fn low_32_bits(n: int) -> int {
    let low = n % 0x1_0000_0000;
    if low < 0x8000_0000 {
        low
    } else {
        low - 0x1_0000_0000
    }
}

/// A length as the C `int` that the table holds.
pub fn frozen_size(len: usize) -> (size: i32)
    ensures
        size == low_32_bits(len as int),
        len <= i32::MAX ==> size == len,
{
    let wide: u64 = len as u64;
    let low: u64 = wide % 0x1_0000_0000;
    if low < 0x8000_0000 {
        low as i32
    } else {
        (low as i64 - 0x1_0000_0000) as i32
    }
}

/// The table that replaces the bootstrap modules of the import machinery.
pub fn make_custom_frozen_modules<'a>(
    importlib_name: &'a [u8],
    importlib_data: &'a [u8],
    importlib_external_name: &'a [u8],
    importlib_external_data: &'a [u8],
) -> (table: [FrozenModule<'a>; 3])
    ensures
        table@ == seq![
            FrozenModule {
                name: Some(importlib_name),
                code: Some(importlib_data),
                size: low_32_bits(importlib_data@.len() as int) as i32,
            },
            FrozenModule {
                name: Some(importlib_external_name),
                code: Some(importlib_external_data),
                size: low_32_bits(importlib_external_data@.len() as int) as i32,
            },
            FrozenModule { name: None, code: None, size: 0 },
        ],
{
    let table = [
        FrozenModule {
            name: Some(importlib_name),
            code: Some(importlib_data),
            size: frozen_size(importlib_data.len()),
        },
        FrozenModule {
            name: Some(importlib_external_name),
            code: Some(importlib_external_data),
            size: frozen_size(importlib_external_data.len()),
        },
        FrozenModule { name: None, code: None, size: 0 },
    ];
    table
}

/// A length keeps its value as long as it fits, and is otherwise short of it by a
/// multiple of 2 to the 32nd, in the range of the C type.
pub proof fn law_size_wraps_around(len: nat)
    ensures
        -0x8000_0000 <= low_32_bits(len as int) < 0x8000_0000,
        (len - low_32_bits(len as int)) % 0x1_0000_0000 == 0,
        len < 0x8000_0000 ==> low_32_bits(len as int) == len,
{
}

} // verus!
