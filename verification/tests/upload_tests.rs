use file_intake::validate::{prepare_file_upload, UploadError};

fn allowed(types: &[&str]) -> Vec<String> {
    types.iter().map(|t| t.to_string()).collect()
}

#[test]
fn accepts_allowed_type_and_joins_path() {
    let r = prepare_file_upload("uploads", "doc.pdf", 10, &allowed(&["pdf"]), 100);
    assert_eq!(r.unwrap(), "uploads/doc.pdf");
}

#[test]
fn extension_comparison_is_case_insensitive() {
    let r = prepare_file_upload("uploads", "photo.JPG", 10, &allowed(&["jpg"]), 100);
    assert_eq!(r.unwrap(), "uploads/photo.JPG");
}

#[test]
fn disallowed_type_is_rejected() {
    let r = prepare_file_upload("uploads", "tool.exe", 10, &allowed(&["pdf", "png"]), 100);
    match r {
        Err(UploadError::DisallowedType { ext }) => assert_eq!(ext, "exe"),
        _ => panic!("expected a disallowed-type failure"),
    }
}

#[test]
fn size_bound_is_inclusive() {
    let r = prepare_file_upload("uploads", "doc.pdf", 100, &allowed(&["pdf"]), 100);
    assert_eq!(r.unwrap(), "uploads/doc.pdf");
}

#[test]
fn one_byte_over_the_bound_is_too_large() {
    let r = prepare_file_upload("uploads", "doc.pdf", 101, &allowed(&["pdf"]), 100);
    match r {
        Err(UploadError::TooLarge { size, max_size }) => {
            assert_eq!(size, 101);
            assert_eq!(max_size, 100);
        },
        _ => panic!("expected a too-large failure"),
    }
}

#[test]
fn missing_extension_is_rejected() {
    let r = prepare_file_upload("uploads", "README", 10, &allowed(&["pdf"]), 100);
    assert!(matches!(r, Err(UploadError::NoExtension)));
}

#[test]
fn missing_extension_wins_over_size_for_generic_uploads() {
    // the generic uploader checks the extension before the size
    let r = prepare_file_upload("uploads", "README", 1000, &allowed(&["pdf"]), 100);
    assert!(matches!(r, Err(UploadError::NoExtension)));
}

#[test]
fn extension_is_the_suffix_after_the_final_period() {
    let r = prepare_file_upload("uploads", "archive.tar.gz", 10, &allowed(&["gz"]), 100);
    assert_eq!(r.unwrap(), "uploads/archive.tar.gz");
}

#[test]
fn trailing_period_gives_an_empty_extension() {
    let r = prepare_file_upload("uploads", "strange.", 10, &allowed(&["pdf"]), 100);
    match r {
        Err(UploadError::DisallowedType { ext }) => assert_eq!(ext, ""),
        _ => panic!("expected a disallowed-type failure"),
    }
}

#[test]
fn disallowed_type_wins_over_size_for_generic_uploads() {
    let r = prepare_file_upload("uploads", "tool.exe", 1000, &allowed(&["pdf"]), 100);
    assert!(matches!(r, Err(UploadError::DisallowedType { .. })));
}
