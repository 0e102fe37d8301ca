use zhitiku_desktop::omml::{convert_omml_to_latex, unicode_math_text_to_latex};

#[test]
fn converts_the_three_native_word_formula_shapes_from_the_math_exam() {
    let triangle = r#"<m:oMath xmlns:m="http://schemas.openxmlformats.org/officeDocument/2006/math"><m:r><m:t>⊿</m:t></m:r><m:r><m:t>ABC</m:t></m:r></m:oMath>"#;
    let functions = r#"<m:oMath xmlns:m="http://schemas.openxmlformats.org/officeDocument/2006/math"><m:func><m:fName><m:r><m:t>sin</m:t></m:r></m:fName><m:e><m:r><m:t>α</m:t></m:r></m:e></m:func><m:func><m:fName><m:r><m:t>cos</m:t></m:r></m:fName><m:e><m:r><m:t>α</m:t></m:r></m:e></m:func><m:r><m:t>,      </m:t></m:r><m:func><m:fName><m:r><m:t>sin</m:t></m:r></m:fName><m:e><m:r><m:t>α</m:t></m:r></m:e></m:func><m:r><m:t>−</m:t></m:r><m:func><m:fName><m:r><m:t>cos</m:t></m:r></m:fName><m:e><m:r><m:t>α</m:t></m:r></m:e></m:func></m:oMath>"#;
    let point = r#"<m:oMath xmlns:m="http://schemas.openxmlformats.org/officeDocument/2006/math"><m:r><m:t>A(8,−6)</m:t></m:r></m:oMath>"#;

    assert_eq!(convert_omml_to_latex(triangle.as_bytes()).unwrap(), r"\triangle ABC");
    assert_eq!(
        convert_omml_to_latex(functions.as_bytes()).unwrap(),
        r"\sin \alpha \cos \alpha ,\quad \sin \alpha -\cos \alpha"
    );
    assert_eq!(convert_omml_to_latex(point.as_bytes()).unwrap(), "A(8,-6)");
}

#[test]
fn latex_specials_are_escaped_and_single_spaces_kept() {
    assert_eq!(unicode_math_text_to_latex("x_1 + 50% {a}"), r"x\_1 + 50\% \{a\}");
    assert_eq!(unicode_math_text_to_latex("arcsin x ≤ π"), r"\arcsin x \le \pi");
    assert_eq!(unicode_math_text_to_latex("a\\b"), r"a\backslash b");
    assert_eq!(unicode_math_text_to_latex("  ln  "), r"\quad \ln \quad".trim());
}

#[test]
fn formulas_without_visible_text_are_refused() {
    let spaces = r#"<m:oMath xmlns:m="http://schemas.openxmlformats.org/officeDocument/2006/math"><m:r><m:t>   </m:t></m:r></m:oMath>"#;
    assert_eq!(convert_omml_to_latex(spaces.as_bytes()).unwrap(), r"\quad");
    let empty = r#"<m:oMath xmlns:m="http://schemas.openxmlformats.org/officeDocument/2006/math"><m:r><m:rPr/></m:r></m:oMath>"#;
    let error = convert_omml_to_latex(empty.as_bytes()).unwrap_err();
    assert_eq!(
        error.message(),
        "invalid XML in word/document.xml OMML at byte 0: the OMML formula did not contain editable mathematical text"
    );
}
