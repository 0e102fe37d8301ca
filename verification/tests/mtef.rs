use zhitiku_desktop::mathtype::{convert_equation_native, convert_mtef_to_latex};
use zhitiku_desktop::latex::{escape_latex_char, mt_code_to_latex, render_script, fence_pair, integral_symbol, render_large_operator};
use zhitiku_desktop::mtef::partition_bytes;
use zhitiku_desktop::text::trim_white_space;

fn equation(body: &[u8]) -> Vec<u8> {
    let mut bytes = vec![5, 1, 0, 7, 0, b'T', 0, 1];
    bytes.extend_from_slice(body);
    bytes
}

#[test]
fn renders_basic_mtef_characters() {
    let bytes = [
        5, 1, 0, 7, 0, b'T', 0, 1, // header
        1, 0, // line
        2, 0, 0x81, b'x', 0, // x
        2, 0, 0x81, b'+', 0, // +
        2, 0, 0x81, b'1', 0, // 1
        0, // line end
        0, // equation end
    ];
    let converted = convert_mtef_to_latex(&bytes).expect("MTEF should parse");
    assert_eq!(converted.latex, "x+1");
    assert!(converted.unsupported_features.is_empty());
}

#[test]
fn rejects_non_mtef_five() {
    let error =
        convert_mtef_to_latex(&[3, 0, 0, 0, 0, 0, 0]).expect_err("old MTEF must be rejected");
    assert!(error.message().contains("version 3"));
}

#[test]
fn product_versions_are_reported() {
    let bytes = equation(&[1, 0, 2, 0, 0x81, b'y', 0, 0, 0]);
    let converted = convert_mtef_to_latex(&bytes).unwrap();
    assert_eq!(converted.latex, "y");
    assert_eq!(converted.product_version, 7);
    assert_eq!(converted.product_subversion, 0);
}

#[test]
fn fraction_template_renders_numerator_and_denominator() {
    // template 11 (fraction) with two lines: "a" over "b"
    let bytes = equation(&[
        1, 0, // line
        3, 0, 11, 0, 0, // template: options, selector, variation, template options
        1, 0, 2, 0, 0x81, b'a', 0, 0, // numerator line
        1, 0, 2, 0, 0x81, b'b', 0, 0, // denominator line
        0, // template end
        0, // line end
        0, // equation end
    ]);
    let converted = convert_mtef_to_latex(&bytes).unwrap();
    assert_eq!(converted.latex, "\\frac{a}{b}");
}

#[test]
fn unknown_template_is_recorded_once() {
    let bytes = equation(&[
        1, 0, 3, 0, 99, 0, 0, 1, 0, 2, 0, 0x81, b'a', 0, 0, 0, 3, 0, 99, 0, 0, 0, 0, 0,
    ]);
    let converted = convert_mtef_to_latex(&bytes).unwrap();
    assert_eq!(converted.latex, "a");
    assert_eq!(converted.unsupported_features, vec!["template selector 99".to_owned()]);
}

#[test]
fn embellishments_apply_in_order() {
    // x with a dot (2) then a prime (5)
    let bytes = equation(&[1, 0, 2, 1, 0x81, b'x', 0, 6, 0, 2, 6, 0, 5, 0, 0, 0]);
    let converted = convert_mtef_to_latex(&bytes).unwrap();
    assert_eq!(converted.latex, "\\dot{x}'");
}

#[test]
fn matrix_cells_are_separated_by_rows_and_columns() {
    let bytes = equation(&[
        5, 0, 0, 0, 0, 2, 2, 0, 0, // matrix 2x2 with one partition byte each
        1, 0, 2, 0, 0x81, b'a', 0, 0, 1, 0, 2, 0, 0x81, b'b', 0, 0, 1, 0, 2, 0, 0x81, b'c', 0, 0,
        1, 0, 2, 0, 0x81, b'd', 0, 0, 0, 0,
    ]);
    let converted = convert_mtef_to_latex(&bytes).unwrap();
    assert_eq!(converted.latex, "\\begin{matrix}a & b \\\\ c & d\\end{matrix}");
}

#[test]
fn trailing_nonzero_bytes_are_rejected() {
    let bytes = equation(&[1, 0, 2, 0, 0x81, b'x', 0, 0, 0, 7, 7]);
    let error = convert_mtef_to_latex(&bytes).unwrap_err();
    assert_eq!(
        error.message(),
        "invalid XML in MathType Equation Native at byte 0: 2 unexpected bytes follow the MTEF equation"
    );
}

#[test]
fn trailing_zero_bytes_are_accepted() {
    let bytes = equation(&[1, 0, 2, 0, 0x81, b'x', 0, 0, 0, 0, 0]);
    assert_eq!(convert_mtef_to_latex(&bytes).unwrap().latex, "x");
}

#[test]
fn unsupported_record_type_names_its_position() {
    let bytes = equation(&[1, 0, 50, 0]);
    let error = convert_mtef_to_latex(&bytes).unwrap_err();
    assert!(error.message().ends_with("unsupported MTEF record type 50 at byte 10"));
}

#[test]
fn empty_equation_is_rejected() {
    let bytes = equation(&[1, 0, 2, 0, 0x81, b' ', 0, 0, 0]);
    let error = convert_mtef_to_latex(&bytes).unwrap_err();
    assert!(error.message().contains("did not contain editable mathematical content"));
}

#[test]
fn truncated_equation_is_rejected() {
    let bytes = equation(&[1, 0, 2, 0, 0x81]);
    let error = convert_mtef_to_latex(&bytes).unwrap_err();
    assert!(error.message().ends_with("unexpected end of MTEF 16-bit value"));
}

#[test]
fn equation_native_header_is_skipped() {
    let mut stream = vec![0u8; 28];
    stream.extend_from_slice(&equation(&[1, 0, 2, 0, 0x81, b'z', 0, 0, 0]));
    assert_eq!(convert_equation_native(&stream).unwrap().latex, "z");
    let error = convert_equation_native(&[0u8; 10]).unwrap_err();
    assert!(error.message().ends_with("Equation Native is shorter than its 28-byte header"));
}

#[test]
fn special_characters_are_escaped() {
    assert_eq!(escape_latex_char('#'), "\\#");
    assert_eq!(escape_latex_char('\\'), "\\backslash ");
    assert_eq!(escape_latex_char('q'), "q");
    assert_eq!(mt_code_to_latex(0x03b1), Some("\\alpha ".to_owned()));
    assert_eq!(mt_code_to_latex(0x0041), Some("A".to_owned()));
    assert_eq!(mt_code_to_latex(0x0001), None);
    assert_eq!(mt_code_to_latex(0xd800), None);
}

#[test]
fn scripts_operators_and_fences() {
    assert_eq!(render_script(0, "i", "2", true), "_{i}^{2}");
    assert_eq!(render_script(1, "", "", true), "{}");
    assert_eq!(render_script(0, "", "", true), "{}");
    assert_eq!(fence_pair(3), ("[", "]"));
    assert_eq!(integral_symbol(2), "\\iint");
    let children = vec!["0".to_owned(), "n".to_owned(), "k".to_owned()];
    assert_eq!(render_large_operator("\\sum", 0x0030, &children), "\\sum_{0}^{n}k");
    assert_eq!(partition_bytes(2), 1);
    assert_eq!(partition_bytes(4), 2);
}

#[test]
fn white_space_trim_covers_unicode_spaces() {
    assert_eq!(trim_white_space("\u{3000} a b \t"), "a b");
    assert_eq!(trim_white_space("   "), "");
}
