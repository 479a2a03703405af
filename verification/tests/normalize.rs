use seqfetch::errors::AppError;
use seqfetch::utils::{accession_norm_filt, file_name, get_url, normalize_accession, MAX_RETRIES};
use seqfetch::args::Format;

fn strings(items: &[&str]) -> Vec<String> {
    items.iter().map(|s| s.to_string()).collect()
}

#[test]
fn normalize_trims_and_raises_case() {
    assert_eq!(normalize_accession("  nc_000001\t\n"), "NC_000001");
    assert_eq!(normalize_accession("Ab12.3"), "AB12.3");
    assert_eq!(normalize_accession(""), "");
    assert_eq!(normalize_accession(" \t "), "");
}

#[test]
fn normalize_trims_unicode_whitespace() {
    assert_eq!(normalize_accession("\u{3000}\u{00A0}x1\u{0085}\u{2003}\u{205F}"), "X1");
    assert_eq!(normalize_accession("\u{2028}a b\u{2029}"), "A B");
    assert_eq!(normalize_accession("\u{1680}\u{202F}q\u{000B}\u{000C}\r"), "Q");
}

#[test]
fn normalize_keeps_what_is_no_whitespace() {
    // U+200B and U+FEFF do not have the property White_Space.
    assert_eq!(normalize_accession("\u{200B}a\u{FEFF}"), "\u{200B}A\u{FEFF}");
    assert_eq!(normalize_accession("\u{001F}a"), "\u{001F}A");
}

#[test]
fn normalize_raises_ascii_letters_only() {
    assert_eq!(normalize_accession("az\u{e9}\u{df}`{"), "AZ\u{e9}\u{df}`{");
    assert_eq!(normalize_accession("abcdefghijklmnopqrstuvwxyz"), "ABCDEFGHIJKLMNOPQRSTUVWXYZ");
}

#[test]
fn working_set_collapses_duplicates() {
    let set = accession_norm_filt(strings(&["nc_000001 ", "NC_000001"])).unwrap();
    assert_eq!(set, strings(&["NC_000001"]));
}

#[test]
fn working_set_keeps_first_occurrence_order() {
    let set = accession_norm_filt(strings(&[" b2", "a1", "B2 ", "", "c3", "A1", "   "])).unwrap();
    assert_eq!(set, strings(&["B2", "A1", "C3"]));
}

#[test]
fn working_set_is_canonical() {
    let set = accession_norm_filt(strings(&[" x ", "y\t", "\nX", "z z"])).unwrap();
    for (i, a) in set.iter().enumerate() {
        assert!(!a.is_empty());
        assert_eq!(a.trim(), a.as_str());
        assert!(!a.chars().any(|c| c.is_ascii_lowercase()));
        assert!(!set[..i].contains(a));
    }
    assert_eq!(set.len(), 3);
}

#[test]
fn empty_list_is_refused() {
    assert_eq!(accession_norm_filt(Vec::new()), Err(AppError::EmptyAccessionList));
}

#[test]
fn blank_list_is_refused() {
    assert_eq!(
        accession_norm_filt(strings(&["", "  ", "\t\n", "\u{3000}"])),
        Err(AppError::EmptyAccessionList)
    );
}

#[test]
fn blank_entries_are_left_out() {
    let set = accession_norm_filt(strings(&["", "ab", " "])).unwrap();
    assert_eq!(set, strings(&["AB"]));
}

#[test]
fn url_is_built_from_accession_and_format() {
    assert_eq!(
        get_url("NC_000001", &Format::Fasta),
        "https://www.ncbi.nlm.nih.gov/sviewer/viewer.fcgi?id=NC_000001&db=nuccore&report=fasta&retmode=text"
    );
    assert_eq!(
        get_url("X1", &Format::Genbank),
        "https://www.ncbi.nlm.nih.gov/sviewer/viewer.fcgi?id=X1&db=nuccore&report=genbank&retmode=text"
    );
    assert_eq!(
        get_url("X1", &Format::Gff3),
        "https://www.ncbi.nlm.nih.gov/sviewer/viewer.fcgi?id=X1&db=nuccore&report=gff3&retmode=text"
    );
}

#[test]
fn url_and_file_name_are_repeatable() {
    assert_eq!(get_url("AB1", &Format::Gff3), get_url("AB1", &Format::Gff3));
    assert_eq!(file_name("AB1", &Format::Gff3), file_name("AB1", &Format::Gff3));
}

#[test]
fn file_name_is_accession_and_suffix() {
    assert_eq!(file_name("NC_000001", &Format::Fasta), "NC_000001.fasta");
    assert_eq!(file_name("NC_000001", &Format::Genbank), "NC_000001.gb");
    assert_eq!(file_name("NC_000001", &Format::Gff3), "NC_000001.gff3");
}

#[test]
fn retry_budget_is_three() {
    assert_eq!(MAX_RETRIES, 3);
}

fn has_white_space_property(c: char) -> bool {
    let n = c as u32;
    (0x09..=0x0D).contains(&n)
        || n == 0x20
        || n == 0x85
        || n == 0xA0
        || n == 0x1680
        || (0x2000..=0x200A).contains(&n)
        || n == 0x2028
        || n == 0x2029
        || n == 0x202F
        || n == 0x205F
        || n == 0x3000
}

#[test]
fn every_character_is_trimmed_or_kept() {
    for n in 0u32..=0x10FFFF {
        if let Some(c) = char::from_u32(n) {
            let raw = format!("{}k{}", c, c);
            let expected = if has_white_space_property(c) {
                "K".to_string()
            } else if ('a'..='z').contains(&c) {
                let up = char::from_u32(n - 0x20).unwrap();
                format!("{}K{}", up, up)
            } else {
                format!("{}K{}", c, c)
            };
            assert_eq!(normalize_accession(&raw), expected, "U+{:04X}", n);
        }
    }
}
