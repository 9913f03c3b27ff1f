use db_advisor::advisor::DbAdvisor;

#[test]
fn fence_markers_are_removed_literally() {
    let got = DbAdvisor::clean_text("```json\n{\"a\":1}\n```".as_bytes());
    assert_eq!(got, b"{\"a\":1}".to_vec());
}

#[test]
fn upper_case_fence_tag_is_removed_too() {
    let got = DbAdvisor::clean_text("```JSON\n{\"a\":1}\n```".as_bytes());
    assert_eq!(got, b"{\"a\":1}".to_vec());
}

#[test]
fn fence_marker_sharing_a_line_with_content_keeps_the_content() {
    let got = DbAdvisor::clean_text("```json{\"a\":1}```".as_bytes());
    assert_eq!(got, b"{\"a\":1}".to_vec());
}

#[test]
fn bare_heading_lines_are_dropped() {
    let got = DbAdvisor::clean_text("Diagnostic\nRisques\nhello".as_bytes());
    assert_eq!(got, b"hello".to_vec());
}

#[test]
fn heading_matching_ignores_ascii_case() {
    let got = DbAdvisor::clean_text("DIAGNOSTIC\nsql SUGGERE\nrest".as_bytes());
    assert_eq!(got, b"rest".to_vec());
}

#[test]
fn accented_headings_are_dropped() {
    let got = DbAdvisor::clean_text("Actions recommandées\nSQL suggéré\nrest".as_bytes());
    assert_eq!(got, b"rest".to_vec());
}

#[test]
fn heading_prefix_without_brace_is_dropped() {
    let got = DbAdvisor::clean_text("Diagnostic du serveur\nActions suggerees\nrest".as_bytes());
    assert_eq!(got, b"rest".to_vec());
}

#[test]
fn line_with_opening_brace_is_never_dropped() {
    let got = DbAdvisor::clean_text("Diagnostic {\"x\":1}".as_bytes());
    assert_eq!(got, b"Diagnostic {\"x\":1}".to_vec());
}

#[test]
fn surrounding_whitespace_is_trimmed() {
    let got = DbAdvisor::clean_text("  \n {\"a\":1} \r\n ".as_bytes());
    assert_eq!(got, b"{\"a\":1}".to_vec());
}
