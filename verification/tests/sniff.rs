use seqfetch::args::Format;
use seqfetch::download::{validate_first_bytes, PREVIEW_CHARS};
use seqfetch::errors::AppError;

#[test]
fn genuine_bodies_pass() {
    assert_eq!(validate_first_bytes(b">NC_000001.11 Homo sapiens\nACGT", &Format::Fasta), Ok(()));
    assert_eq!(validate_first_bytes(b"LOCUS       NC_000001", &Format::Genbank), Ok(()));
    assert_eq!(validate_first_bytes(b"##gff-version 3\n", &Format::Gff3), Ok(()));
}

#[test]
fn leading_whitespace_is_set_aside() {
    assert_eq!(validate_first_bytes(b"\n\t  >seq", &Format::Fasta), Ok(()));
    assert_eq!(validate_first_bytes("\u{3000}\u{a0}LOCUS".as_bytes(), &Format::Genbank), Ok(()));
}

#[test]
fn marker_alone_passes() {
    assert_eq!(validate_first_bytes(b">", &Format::Fasta), Ok(()));
    assert_eq!(validate_first_bytes(b"LOCUS", &Format::Genbank), Ok(()));
    assert_eq!(validate_first_bytes(b"##gff-version", &Format::Gff3), Ok(()));
}

#[test]
fn body_of_another_format_is_refused() {
    assert_eq!(
        validate_first_bytes(b">seq", &Format::Genbank),
        Err(AppError::InvalidResponseError(">seq".to_string()))
    );
    assert_eq!(
        validate_first_bytes(b"LOCUS x", &Format::Gff3),
        Err(AppError::InvalidResponseError("LOCUS x".to_string()))
    );
    assert_eq!(
        validate_first_bytes(b"##gff-version 3", &Format::Fasta),
        Err(AppError::InvalidResponseError("##gff-version 3".to_string()))
    );
}

#[test]
fn partial_marker_is_refused() {
    assert_eq!(
        validate_first_bytes(b"LOCU", &Format::Genbank),
        Err(AppError::InvalidResponseError("LOCU".to_string()))
    );
    assert_eq!(
        validate_first_bytes(b"locus", &Format::Genbank),
        Err(AppError::InvalidResponseError("locus".to_string()))
    );
}

#[test]
fn error_page_is_refused_with_preview() {
    let r = validate_first_bytes(b"<html>Error</html>", &Format::Fasta);
    match r {
        Err(AppError::InvalidResponseError(preview)) => {
            assert!(preview.contains("<html>Error</html>"));
            assert_eq!(preview, "<html>Error</html>");
        }
        other => panic!("unexpected {:?}", other),
    }
}

#[test]
fn preview_leaves_leading_whitespace_out() {
    assert_eq!(
        validate_first_bytes(b"  \n<html>", &Format::Fasta),
        Err(AppError::InvalidResponseError("<html>".to_string()))
    );
}

#[test]
fn undecodable_chunk_is_refused() {
    assert_eq!(
        validate_first_bytes(&[0xff, 0xfe, 0x3e], &Format::Fasta),
        Err(AppError::InvalidResponseError("response is not valid UTF-8".to_string()))
    );
    assert_eq!(
        validate_first_bytes(&[0x3e, 0xc3], &Format::Fasta),
        Err(AppError::InvalidResponseError("response is not valid UTF-8".to_string()))
    );
    assert_eq!(
        validate_first_bytes(&[0xed, 0xa0, 0x80], &Format::Gff3),
        Err(AppError::InvalidResponseError("response is not valid UTF-8".to_string()))
    );
}

#[test]
fn empty_chunk_is_refused_with_empty_preview() {
    assert_eq!(
        validate_first_bytes(b"", &Format::Fasta),
        Err(AppError::InvalidResponseError(String::new()))
    );
    assert_eq!(
        validate_first_bytes(b" \n ", &Format::Genbank),
        Err(AppError::InvalidResponseError(String::new()))
    );
}

#[test]
fn preview_is_cut_at_two_hundred_characters() {
    let body = "x".repeat(500);
    assert_eq!(
        validate_first_bytes(body.as_bytes(), &Format::Fasta),
        Err(AppError::InvalidResponseError("x".repeat(200)))
    );
    let exact = "y".repeat(200);
    assert_eq!(
        validate_first_bytes(exact.as_bytes(), &Format::Fasta),
        Err(AppError::InvalidResponseError(exact.clone()))
    );
    let longer = "z".repeat(201);
    assert_eq!(
        validate_first_bytes(longer.as_bytes(), &Format::Fasta),
        Err(AppError::InvalidResponseError("z".repeat(200)))
    );
}

#[test]
fn preview_counts_characters_not_bytes() {
    let body = "\u{e9}".repeat(300);
    match validate_first_bytes(body.as_bytes(), &Format::Gff3) {
        Err(AppError::InvalidResponseError(preview)) => {
            assert_eq!(preview.chars().count(), PREVIEW_CHARS);
            assert_eq!(preview, "\u{e9}".repeat(200));
        }
        other => panic!("unexpected {:?}", other),
    }
}

#[test]
fn failure_texts() {
    assert_eq!(AppError::EmptyAccessionList.message(), "empty accession list");
    assert_eq!(AppError::StatusCodeError("a".to_string()).message(), "a");
    assert_eq!(AppError::InvalidResponseError("b".to_string()).message(), "b");
    assert_eq!(AppError::RequestError("c".to_string()).message(), "c");
    assert_eq!(AppError::IoError("d".to_string()).message(), "d");
}

#[test]
fn every_leading_character_is_skipped_or_checked() {
    for n in 0u32..=0x10FFFF {
        if let Some(c) = char::from_u32(n) {
            let body = format!("{}>x", c);
            let skipped = matches!(
                n,
                0x09..=0x0D | 0x20 | 0x85 | 0xA0 | 0x1680 | 0x2000..=0x200A | 0x2028 | 0x2029
                    | 0x202F | 0x205F | 0x3000
            );
            let expected = if skipped || c == '>' {
                Ok(())
            } else {
                Err(AppError::InvalidResponseError(body.clone()))
            };
            assert_eq!(validate_first_bytes(body.as_bytes(), &Format::Fasta), expected);
        }
    }
}
