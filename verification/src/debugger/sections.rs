//! The DWARF sections of a module: its custom sections, as `wasmparser`
//! reads them, picked by name.

use vstd::prelude::*;
use crate::debugger::dwarf::DwarfError;
use crate::vm::utils::str_eq;

verus! {

/// The custom sections of a module in order, each its name and its bytes, as
/// `wasmparser` reads the module; or the message of the first error.
pub uninterp spec fn wasmparser_custom_sections(module: Seq<u8>) -> Result<Seq<(Seq<char>, Seq<u8>)>, Seq<char>>;

pub open spec fn section_views(v: Seq<(String, Vec<u8>)>) -> Seq<(Seq<char>, Seq<u8>)> {
    v.map_values(|p: (String, Vec<u8>)| (p.0@, p.1@))
}

/// `wasmparser::Parser::parse_all` over `module`: the name and data of each
/// `CustomSection` payload in order, or the `Display` text of the first error.
/// The outcome is named `wasmparser_custom_sections`.
#[verifier::external_body]
fn wasm_custom_sections(module: &[u8]) -> (r: Result<Vec<(String, Vec<u8>)>, String>)
    ensures
        match (r, wasmparser_custom_sections(module@)) {
            (Ok(v), Ok(s)) => section_views(v@) == s,
            (Err(e), Err(m)) => e@ == m,
            _ => false,
        },
{
    let mut out = Vec::new();
    for payload in wasmparser::Parser::new(0).parse_all(module) {
        match payload {
            Ok(wasmparser::Payload::CustomSection { name, data, .. }) => out.push((name.to_string(), data.to_vec())),
            Ok(_) => {},
            Err(e) => return Err(e.to_string()),
        }
    }
    Ok(out)
}

/// The bytes of the last section named `name`: a later section of a name
/// replaces an earlier one.
pub open spec fn section_bytes(sections: Seq<(Seq<char>, Seq<u8>)>, name: Seq<char>) -> Option<Seq<u8>>
    decreases sections.len(),
{
    if sections.len() == 0 {
        None
    } else if sections.last().0 == name {
        Some(sections.last().1)
    } else {
        section_bytes(sections.drop_last(), name)
    }
}

/// The bytes of a section that may be missing: empty when it is.
pub open spec fn bytes_or_empty(b: Option<Seq<u8>>) -> Seq<u8> {
    match b {
        Some(x) => x,
        None => Seq::empty(),
    }
}

/// The first of the sections that must be there which is missing, in the
/// order they are looked for.
pub open spec fn first_missing(sections: Seq<(Seq<char>, Seq<u8>)>) -> Option<Seq<char>> {
    if section_bytes(sections, ".debug_str"@) is None {
        Some(".debug_str"@)
    } else if section_bytes(sections, ".debug_abbrev"@) is None {
        Some(".debug_abbrev"@)
    } else if section_bytes(sections, ".debug_info"@) is None {
        Some(".debug_info"@)
    } else if section_bytes(sections, ".debug_line"@) is None {
        Some(".debug_line"@)
    } else {
        None
    }
}

/// The sections the debug information is read from; those that may be
/// missing are empty then.
pub struct DwarfSections {
    pub debug_str: Vec<u8>,
    pub debug_abbrev: Vec<u8>,
    pub debug_info: Vec<u8>,
    pub debug_line: Vec<u8>,
    pub debug_line_str: Vec<u8>,
    pub debug_ranges: Vec<u8>,
    pub debug_loc: Vec<u8>,
}

/// The sections of `sections` that `d` holds.
pub open spec fn sections_of(d: DwarfSections, sections: Seq<(Seq<char>, Seq<u8>)>) -> bool {
    &&& d.debug_str@ == bytes_or_empty(section_bytes(sections, ".debug_str"@))
    &&& d.debug_abbrev@ == bytes_or_empty(section_bytes(sections, ".debug_abbrev"@))
    &&& d.debug_info@ == bytes_or_empty(section_bytes(sections, ".debug_info"@))
    &&& d.debug_line@ == bytes_or_empty(section_bytes(sections, ".debug_line"@))
    &&& d.debug_line_str@ == bytes_or_empty(section_bytes(sections, ".debug_line_str"@))
    &&& d.debug_ranges@ == bytes_or_empty(section_bytes(sections, ".debug_ranges"@))
    &&& d.debug_loc@ == bytes_or_empty(section_bytes(sections, ".debug_loc"@))
}

/// The bytes of the last section named `name`, if any.
fn find_section(sections: &Vec<(String, Vec<u8>)>, name: &str) -> (r: Option<Vec<u8>>)
    ensures
        match section_bytes(section_views(sections@), name@) {
            Some(b) => r matches Some(v) && v@ == b,
            None => r is None,
        },
{
    let ghost all = section_views(sections@);
    let mut k: usize = sections.len();
    proof { assert(all.subrange(0, k as int) =~= all); }
    while k > 0
        invariant
            k <= sections@.len(),
            all == section_views(sections@),
            section_bytes(all, name@) == section_bytes(all.subrange(0, k as int), name@),
        decreases k,
    {
        let ghost t = all.subrange(0, k as int);
        proof {
            assert(t.last() == (sections@[k - 1].0@, sections@[k - 1].1@));
            assert(t.drop_last() =~= all.subrange(0, k - 1));
        }
        if str_eq(sections[k - 1].0.as_str(), name) {
            let b = sections[k - 1].1.clone();
            proof { assert(b@ =~= sections@[k - 1].1@); }
            return Some(b);
        }
        k = k - 1;
    }
    proof { assert(all.subrange(0, 0) =~= Seq::<(Seq<char>, Seq<u8>)>::empty()); }
    None
}

fn or_empty(b: Option<Vec<u8>>) -> (r: Vec<u8>)
    ensures
        r@ == bytes_or_empty(match b { Some(v) => Some(v@), None => None }),
{
    match b {
        Some(v) => v,
        None => Vec::new(),
    }
}

/// Picks the debug sections by name: an error for the first of `.debug_str`,
/// `.debug_abbrev`, `.debug_info` and `.debug_line` that is missing;
/// otherwise each section's bytes, empty for a missing `.debug_line_str`,
/// `.debug_ranges` or `.debug_loc`.
pub fn dwarf_sections(sections: Vec<(String, Vec<u8>)>) -> (r: Result<DwarfSections, DwarfError>)
    ensures
        match first_missing(section_views(sections@)) {
            Some(n) => r matches Err(DwarfError::MissingSection(m)) && m@ == n,
            None => r matches Ok(d) && sections_of(d, section_views(sections@)),
        },
{
    let debug_str = match find_section(&sections, ".debug_str") {
        Some(b) => b,
        None => return Err(DwarfError::MissingSection(".debug_str".to_owned())),
    };
    let debug_abbrev = match find_section(&sections, ".debug_abbrev") {
        Some(b) => b,
        None => return Err(DwarfError::MissingSection(".debug_abbrev".to_owned())),
    };
    let debug_info = match find_section(&sections, ".debug_info") {
        Some(b) => b,
        None => return Err(DwarfError::MissingSection(".debug_info".to_owned())),
    };
    let debug_line = match find_section(&sections, ".debug_line") {
        Some(b) => b,
        None => return Err(DwarfError::MissingSection(".debug_line".to_owned())),
    };
    let debug_line_str = or_empty(find_section(&sections, ".debug_line_str"));
    let debug_ranges = or_empty(find_section(&sections, ".debug_ranges"));
    let debug_loc = or_empty(find_section(&sections, ".debug_loc"));
    Ok(DwarfSections { debug_str, debug_abbrev, debug_info, debug_line, debug_line_str, debug_ranges, debug_loc })
}

/// The debug sections of the WebAssembly module `module`: an error when the
/// module cannot be read, else as `dwarf_sections` picks them.
pub fn parse_dwarf(module: &[u8]) -> (r: Result<DwarfSections, DwarfError>)
    ensures
        match wasmparser_custom_sections(module@) {
            Err(m) => r matches Err(DwarfError::Parse(x)) && x@ == m,
            Ok(s) => match first_missing(s) {
                Some(n) => r matches Err(DwarfError::MissingSection(x)) && x@ == n,
                None => r matches Ok(d) && sections_of(d, s),
            },
        },
{
    match wasm_custom_sections(module) {
        Ok(sections) => dwarf_sections(sections),
        Err(m) => Err(DwarfError::Parse(m)),
    }
}

} // verus!
