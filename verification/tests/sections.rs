use wasminspect::debugger::dwarf::DwarfError;
use wasminspect::debugger::sections::{dwarf_sections, parse_dwarf};

fn custom(name: &str, data: &[u8]) -> Vec<u8> {
    let mut body = vec![name.len() as u8];
    body.extend_from_slice(name.as_bytes());
    body.extend_from_slice(data);
    let mut out = vec![0u8, body.len() as u8];
    out.extend(body);
    out
}

fn module(sections: &[(&str, &[u8])]) -> Vec<u8> {
    let mut m = vec![0x00, 0x61, 0x73, 0x6d, 0x01, 0x00, 0x00, 0x00];
    for (n, d) in sections {
        m.extend(custom(n, d));
    }
    m
}

fn named(v: &[(&str, &[u8])]) -> Vec<(String, Vec<u8>)> {
    v.iter().map(|(n, d)| (n.to_string(), d.to_vec())).collect()
}

#[test]
fn sections_are_picked_by_name_later_wins() {
    let m = module(&[
        (".debug_str", &[1]),
        (".debug_abbrev", &[2]),
        (".debug_info", &[3]),
        (".debug_line", &[4]),
        (".debug_str", &[5, 6]),
    ]);
    let d = parse_dwarf(&m).ok().unwrap();
    assert_eq!(d.debug_str, vec![5, 6]);
    assert_eq!(d.debug_abbrev, vec![2]);
    assert_eq!(d.debug_info, vec![3]);
    assert_eq!(d.debug_line, vec![4]);
    assert!(d.debug_line_str.is_empty() && d.debug_ranges.is_empty() && d.debug_loc.is_empty());
}

#[test]
fn the_first_missing_section_is_reported() {
    let r = dwarf_sections(named(&[(".debug_line", &[1]), (".debug_info", &[1])]));
    assert!(matches!(r, Err(DwarfError::MissingSection(n)) if n == ".debug_str"));
    let r = dwarf_sections(named(&[(".debug_str", &[1]), (".debug_line", &[1])]));
    assert!(matches!(r, Err(DwarfError::MissingSection(n)) if n == ".debug_abbrev"));
    let r = dwarf_sections(named(&[(".debug_str", &[1]), (".debug_abbrev", &[1]), (".debug_line", &[1])]));
    assert!(matches!(r, Err(DwarfError::MissingSection(n)) if n == ".debug_info"));
}

#[test]
fn a_module_that_cannot_be_read_is_an_error() {
    assert!(matches!(parse_dwarf(&[1, 2, 3, 4]), Err(DwarfError::Parse(_))));
    assert!(matches!(parse_dwarf(&module(&[])), Err(DwarfError::MissingSection(n)) if n == ".debug_str"));
}
