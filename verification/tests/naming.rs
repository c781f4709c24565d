use compress_queue::compressor::ghostscript_args;
use compress_queue::naming::{
    compressed_file_name, content_disposition, default_upload_filename, download_url,
    fresh_stored_input_name, output_file_name, path_under, u64_to_dec_string,
};

#[test]
fn decimal_rendering() {
    assert_eq!(u64_to_dec_string(0), "0");
    assert_eq!(u64_to_dec_string(7), "7");
    assert_eq!(u64_to_dec_string(10), "10");
    assert_eq!(u64_to_dec_string(42), "42");
    assert_eq!(u64_to_dec_string(1_234_567_890), "1234567890");
    assert_eq!(u64_to_dec_string(u64::MAX), "18446744073709551615");
}

#[test]
fn output_names() {
    assert_eq!(output_file_name(12, "report.pdf"), "12_report.pdf");
    assert_eq!(output_file_name(1, ""), "1_");
    assert_eq!(
        path_under("data/compressed", "12_report.pdf"),
        "data/compressed/12_report.pdf"
    );
}

#[test]
fn stored_input_names_are_fresh() {
    let a = fresh_stored_input_name("scan.pdf");
    assert_eq!(a.len(), 37 + "scan.pdf".len());
    assert_eq!(a.as_bytes()[36], b'-');
    assert!(a.ends_with("scan.pdf"));
    // the random token makes collisions between uploads of one file
    // practically impossible
    let b = fresh_stored_input_name("scan.pdf");
    assert_ne!(a, b);
}

#[test]
fn download_urls() {
    assert_eq!(
        download_url("http://localhost:3000", "compressed-x-scan.pdf"),
        "http://localhost:3000/download/compressed-x-scan.pdf"
    );
    assert_eq!(compressed_file_name("x-scan.pdf"), "compressed-x-scan.pdf");
}

#[test]
fn default_filename() {
    assert_eq!(default_upload_filename(), "upload.pdf");
}

#[test]
fn ghostscript_argument_list() {
    let args = ghostscript_args("in/a.pdf", "out/a.pdf");
    assert_eq!(
        args,
        vec![
            "-sDEVICE=pdfwrite",
            "-dPDFSETTINGS=/screen",
            "-dCompatibilityLevel=1.5",
            "-dNOPAUSE",
            "-dQUIET",
            "-dBATCH",
            "-sOutputFile=out/a.pdf",
            "in/a.pdf",
        ]
    );
}

#[test]
fn download_header_value() {
    assert_eq!(
        content_disposition("compressed-x-scan.pdf"),
        "attachment; filename=\"compressed-x-scan.pdf\""
    );
}
