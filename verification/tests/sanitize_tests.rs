use aitex::sanitize::clean_latex;

#[test]
fn strips_leading_prose_and_trailing_commentary() {
    let out = clean_latex("Here's the answer: $x^2+y^2=1$ I hope that helps.");
    assert_eq!(out, "$x^2+y^2=1$");
}

#[test]
fn no_dollar_signs_leaves_text_trimmed_only() {
    let out = clean_latex("no dollar signs \\alpha+\\beta");
    assert_eq!(out, "no dollar signs \\alpha+\\beta");
}

#[test]
fn collapses_blank_lines() {
    let out = clean_latex("$a$\n\n\n$b$");
    assert_eq!(out, "$a$\n$b$");
}

#[test]
fn empty_input_gives_empty_output() {
    assert_eq!(clean_latex(""), "");
}

#[test]
fn whitespace_only_input_gives_empty_output() {
    assert_eq!(clean_latex(" \t\n  \n"), "");
}

#[test]
fn trailing_commentary_after_closing_brace_is_cut() {
    let out = clean_latex("\\frac{a}{b} and that is the result");
    assert_eq!(out, "\\frac{a}{b}");
}

#[test]
fn dollar_at_position_zero_is_kept() {
    assert_eq!(clean_latex("$x$"), "$x$");
}

#[test]
fn surrounding_whitespace_is_trimmed() {
    assert_eq!(clean_latex("   $y = mx + b$   "), "$y = mx + b$");
}

#[test]
fn runs_of_newlines_collapse_everywhere() {
    assert_eq!(clean_latex("$a$\n\nmid\n\n\n\n$b$"), "$a$\nmid\n$b$");
}

#[test]
fn unicode_text_passes_through() {
    assert_eq!(clean_latex("公式：$x$"), "$x$");
}
