//! Settings: what the configuration says, or a default where it says nothing.

use crate::ini_file;
use crate::ini_file::{IniFile, SectionView};
use vstd::prelude::*;

verus! {

/// What an optional configuration says.
pub open spec fn config(ini: Option<&IniFile>) -> Option<Seq<SectionView>> {
    match ini {
        Some(f) => Some(f@),
        None => None,
    }
}

/// The variable that a setting reads.
pub open spec fn setting(
    cfg: Option<Seq<SectionView>>,
    section: Seq<char>,
    name: Seq<char>,
) -> Option<ini_file::VariableView> {
    match cfg {
        Some(sections) => ini_file::lookup(sections, section, name),
        None => None,
    }
}

/// The low bits of a number, as many as an address has.
pub open spec fn word(n: int) -> int {
    n % (usize::MAX + 1)
}

/// A setting in hexadecimal, cut to the size of an address.
pub open spec fn hex_setting(
    cfg: Option<Seq<SectionView>>,
    section: Seq<char>,
    name: Seq<char>,
    default: int,
) -> int {
    match setting(cfg, section, name) {
        Some(v) => word(ini_file::dword_value(v.value, 16)),
        None => default,
    }
}

/// A setting in text, cut to what a field takes.
pub open spec fn text_setting(
    cfg: Option<Seq<SectionView>>,
    section: Seq<char>,
    name: Seq<char>,
    default: Seq<char>,
) -> Seq<char> {
    match setting(cfg, section, name) {
        Some(v) => ini_file::field(v.value),
        None => default,
    }
}

/// A setting that is on or off.
pub open spec fn flag_setting(
    cfg: Option<Seq<SectionView>>,
    section: Seq<char>,
    name: Seq<char>,
    default: bool,
) -> bool {
    match setting(cfg, section, name) {
        Some(v) => ini_file::bool_value(v.value),
        None => default,
    }
}

/// Whether the configuration has the section.
pub open spec fn has_section(cfg: Option<Seq<SectionView>>, section: Seq<char>) -> bool {
    match cfg {
        Some(sections) => ini_file::find_section(sections, section) is Some,
        None => false,
    }
}

fn to_word(n: u64) -> (r: usize)
    ensures
        r == word(n as int),
{
    if n <= usize::MAX as u64 {
        proof {
            vstd::arithmetic::div_mod::lemma_small_mod(n as nat, (usize::MAX + 1) as nat);
        }
        n as usize
    } else {
        assert(usize::MAX == 0xffff_ffff);
        (n % 0x1_0000_0000) as usize
    }
}

/// Reads a setting in hexadecimal.
pub fn ini_read_dword_hex(
    ini: Option<&IniFile>,
    section: &str,
    name: &str,
    default: usize,
) -> (r: usize)
    ensures
        r == hex_setting(config(ini), section@, name@, default as int),
{
    if let Some(f) = ini {
        if let Some(var) = f.get_dword(section, name) {
            return to_word(var.value_hex);
        }
    }
    default
}

/// Reads a setting in text.
pub fn ini_read_string(
    ini: Option<&IniFile>,
    section: &str,
    name: &str,
    default: &str,
) -> (r: String)
    ensures
        r@ == text_setting(config(ini), section@, name@, default@),
{
    if let Some(f) = ini {
        if let Some(var) = f.get_string(section, name) {
            return var.value;
        }
    }
    default.to_string()
}

/// Reads a setting that is on or off.
pub fn ini_read_bool(
    ini: Option<&IniFile>,
    section: &str,
    name: &str,
    default: bool,
) -> (r: bool)
    ensures
        r == flag_setting(config(ini), section@, name@, default),
{
    if let Some(f) = ini {
        if let Some(on) = f.get_bool(section, name) {
            return on;
        }
    }
    default
}

/// Whether the configuration has the section.
pub fn ini_has_section(ini: Option<&IniFile>, section: &str) -> (r: bool)
    ensures
        r == has_section(config(ini), section@),
{
    match ini {
        Some(f) => f.section_exists(section),
        None => false,
    }
}

/// A setting is what the configuration has, read as its kind asks: in hexadecimal
/// cut to the bits of an address, as a text that fits into a field, or as on or
/// off. It is the default exactly where the configuration does not have it, or
/// where there is no configuration.
pub proof fn law_settings(
    sections: Seq<SectionView>,
    section: Seq<char>,
    name: Seq<char>,
    number: int,
    text: Seq<char>,
    flag: bool,
)
    ensures
        match ini_file::lookup(sections, section, name) {
            Some(v) => ({
                let n = ini_file::dword_value(v.value, 16);
                let cut = hex_setting(Some(sections), section, name, number);
                &&& 0 <= cut <= usize::MAX
                &&& n <= usize::MAX ==> cut == n
                &&& (n - cut) % (usize::MAX + 1) == 0
                &&& text_setting(Some(sections), section, name, text) == ini_file::field(v.value)
                &&& flag_setting(Some(sections), section, name, flag) == ini_file::bool_value(
                    v.value,
                )
            }),
            None => hex_setting(Some(sections), section, name, number) == number && text_setting(
                Some(sections),
                section,
                name,
                text,
            ) == text && flag_setting(Some(sections), section, name, flag) == flag,
        },
        hex_setting(None, section, name, number) == number,
        text_setting(None, section, name, text) == text,
        flag_setting(None, section, name, flag) == flag,
        has_section(Some(sections), section) <==> exists|i: int|
            0 <= i < sections.len() && (#[trigger] sections[i]).name == section,
        !has_section(None, section),
{
    crate::ini_laws::law_first_section(sections, section);
    if let Some(v) = ini_file::lookup(sections, section, name) {
        let n = ini_file::dword_value(v.value, 16);
        let m = usize::MAX + 1;
        vstd::arithmetic::div_mod::lemma_mod_bound(n, m);
        if n <= usize::MAX {
            vstd::arithmetic::div_mod::lemma_small_mod(n as nat, m as nat);
        }
        vstd::arithmetic::div_mod::lemma_fundamental_div_mod(n, m);
        vstd::arithmetic::div_mod::lemma_mod_multiples_basic(n / m, m);
        assert(n - n % m == (n / m) * m) by (nonlinear_arith)
            requires
                n == m * (n / m) + n % m,
        ;
    }
}

} // verus!
