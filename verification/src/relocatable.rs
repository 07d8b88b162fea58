//! Relocatable binaries: which staged files get an `$ORIGIN`-relative
//! RPATH. Walking the directory and running `patchelf` stay outside.
use vstd::prelude::*;

verus! {

/// The file starts with the ELF magic `\x7fELF` (a file shorter than four
/// bytes is no ELF file).
pub fn is_elf_magic(head: &[u8]) -> (r: bool)
    ensures
        r == (head@.len() >= 4 && head@[0] == 0x7f && head@[1] == 0x45 && head@[2] == 0x4c
            && head@[3] == 0x46),
{
    head.len() >= 4 && head[0] == 0x7f && head[1] == 0x45 && head[2] == 0x4c && head[3] == 0x46
}

/// The ELF file is an executable or a shared object (`e_type`, the
/// little-endian half-word at offset 16, is `ET_EXEC` or `ET_DYN`); files
/// of 18 bytes or fewer are not.
pub fn is_dynamic_elf(bytes: &[u8]) -> (r: bool)
    ensures
        r == (bytes@.len() > 18 && bytes@[17] == 0 && (bytes@[16] == 2 || bytes@[16] == 3)),
{
    if bytes.len() > 18 {
        let e_type: u16 = (bytes[16] as u16) + (bytes[17] as u16) * 256;
        e_type == 2 || e_type == 3
    } else {
        false
    }
}

/// The RPATH a relocatable binary gets: its libraries sit in `../lib`
/// next to it.
pub const RELOCATABLE_RPATH: &'static str = "$ORIGIN/../lib";

/// The `patchelf` commands tried, in order.
pub fn patchelf_names() -> (r: Vec<&'static str>)
    ensures
        r@.len() == 2,
        r@[0]@ == "patchelf"@,
        r@[1]@ == "patchelf-stable"@,
{
    vec!["patchelf", "patchelf-stable"]
}

} // verus!
