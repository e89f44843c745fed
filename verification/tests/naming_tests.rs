use pdf_opticompress::naming::{
    choose_title, disambiguate_names, find_pattern, make_concise_filename,
};

fn cs(s: &str) -> Vec<char> {
    s.chars().collect()
}

fn st(v: &[char]) -> String {
    v.iter().collect()
}

#[test]
fn find_pattern_reports_earliest_offset() {
    assert_eq!(find_pattern(&cs("abcabc"), &cs("bc")), Some(1));
    assert_eq!(find_pattern(&cs("abcabc"), &cs("ca")), Some(2));
    assert_eq!(find_pattern(&cs("abc"), &cs("x")), None);
    assert_eq!(find_pattern(&cs("abc"), &cs("")), Some(0));
    assert_eq!(find_pattern(&cs("ab"), &cs("abc")), None);
}

#[test]
fn concise_name_cuts_at_dash_separator() {
    assert_eq!(st(&make_concise_filename(&cs("My Book - Author Name"))), "My Book");
}

#[test]
fn concise_name_cuts_at_by_separator() {
    assert_eq!(st(&make_concise_filename(&cs("Report by John"))), "Report");
}

#[test]
fn separator_priority_is_by_list_order_not_position() {
    // " - " is tried before " by ", so it wins even further right
    assert_eq!(st(&make_concise_filename(&cs("x by y - z"))), "x by y");
}

#[test]
fn concise_name_replaces_rejected_characters() {
    assert_eq!(st(&make_concise_filename(&cs("a/b:c"))), "a_b_c");
    assert_eq!(st(&make_concise_filename(&cs("Hello! (2020)"))), "Hello_ _2020_");
}

#[test]
fn concise_name_keeps_unicode_letters() {
    // std's char::is_alphanumeric accepts the accented letter
    assert_eq!(st(&make_concise_filename(&cs("Caf\u{e9} Guide"))), "Caf\u{e9} Guide");
}

#[test]
fn concise_name_trims_and_truncates() {
    assert_eq!(st(&make_concise_filename(&cs("  padded  "))), "padded");
    let long: String = "x".repeat(250);
    assert_eq!(st(&make_concise_filename(&cs(&long))), "x".repeat(100));
}

#[test]
fn title_prefers_nonblank_metadata() {
    let r = choose_title(Some(cs("A Title")), Some(cs("page text")));
    assert_eq!(st(&r), "A Title");
}

#[test]
fn blank_metadata_falls_back_to_trimmed_page_text() {
    let r = choose_title(Some(cs("   ")), Some(cs("  first page words  ")));
    assert_eq!(st(&r), "first page words");
}

#[test]
fn nothing_usable_yields_untitled() {
    assert_eq!(st(&choose_title(None, None)), "Untitled");
    assert_eq!(st(&choose_title(Some(cs(" ")), Some(cs("\t\n")))), "Untitled");
}

#[test]
fn duplicate_names_get_numbered_suffixes() {
    let names = vec![cs("a.pdf"), cs("b.pdf"), cs("a.pdf"), cs("a.pdf")];
    let out = disambiguate_names(&names);
    let rendered: Vec<String> = out.iter().map(|v| st(v)).collect();
    assert_eq!(rendered, vec!["a.pdf", "b.pdf", "a_1.pdf", "a_2.pdf"]);
}

#[test]
fn unique_names_stay_as_they_are() {
    let names = vec![cs("x.pdf"), cs("y.pdf")];
    let out = disambiguate_names(&names);
    let rendered: Vec<String> = out.iter().map(|v| st(v)).collect();
    assert_eq!(rendered, vec!["x.pdf", "y.pdf"]);
}

#[test]
fn suffix_goes_before_the_extension_or_at_the_end() {
    let names = vec![cs("n"), cs("n")];
    let out = disambiguate_names(&names);
    let rendered: Vec<String> = out.iter().map(|v| st(v)).collect();
    assert_eq!(rendered, vec!["n", "n_1"]);

    // a leading dot is not an extension separator
    let hidden = vec![cs(".pdf"), cs(".pdf")];
    let out2 = disambiguate_names(&hidden);
    let rendered2: Vec<String> = out2.iter().map(|v| st(v)).collect();
    assert_eq!(rendered2, vec![".pdf", ".pdf_1"]);
}
