use lib::console_text::{
    line_tones, token_tone, TokenTone,
    ellipsize_end, github_repo_url, is_component_id_token, normalized_token,
    split_chunks_preserve_quotes, step1_language_label, step1_language_options,
};

#[test]
fn component_ids_are_hash_and_digits_after_punctuation_is_stripped() {
    assert!(is_component_id_token("#12"));
    assert!(is_component_id_token("#12:"));
    assert!(is_component_id_token(".#0,"));
    assert!(is_component_id_token("#"));
    assert!(!is_component_id_token("#1a"));
    assert!(!is_component_id_token("12"));
    assert!(!is_component_id_token(""));
    assert!(!is_component_id_token("# 1"));
}

#[test]
fn normalized_tokens_lose_surrounding_symbols_and_are_upper_cased() {
    assert_eq!(normalized_token("[error]:"), "[ERROR]");
    assert_eq!(normalized_token("(warn)"), "WARN");
    assert_eq!(normalized_token("--x_y--"), "--X_Y--");
    assert_eq!(normalized_token("..."), "");
    assert_eq!(normalized_token("é-é"), "-");
}

#[test]
fn chunks_end_after_whitespace_outside_quotes() {
    assert_eq!(
        split_chunks_preserve_quotes("a b  \"c d\" e"),
        vec!["a ", "b ", " ", "\"c d\" ", "e"]
    );
    assert_eq!(split_chunks_preserve_quotes(""), Vec::<String>::new());
    assert_eq!(split_chunks_preserve_quotes("x "), vec!["x "]);
    assert_eq!(split_chunks_preserve_quotes("\"open quote"), vec!["\"open quote"]);
}

#[test]
fn long_values_are_cut_with_three_dots() {
    assert_eq!(ellipsize_end("abcdef", 6), "abcdef");
    assert_eq!(ellipsize_end("abcdefg", 6), "abc...");
    assert_eq!(ellipsize_end("abcdefg", 2), "...");
    assert_eq!(ellipsize_end("ééééé", 4), "é...");
}

#[test]
fn repo_values_become_github_links_unless_already_links() {
    assert_eq!(github_repo_url(" https://x.org/a "), "https://x.org/a");
    assert_eq!(github_repo_url("http://x.org"), "http://x.org");
    assert_eq!(github_repo_url("//owner/repo"), "https://github.com/owner/repo");
    assert_eq!(github_repo_url("owner/repo"), "https://github.com/owner/repo");
}

#[test]
fn language_labels_match_locales_ignoring_case() {
    assert_eq!(step1_language_options().len(), 11);
    assert_eq!(step1_language_options()[0], ("en_US", "English"));
    assert_eq!(step1_language_label("de_de"), "German");
    assert_eq!(step1_language_label("RU_RU"), "Russian");
    assert_eq!(step1_language_label("xx_XX"), "xx_XX");
}

#[test]
fn tokens_are_toned_by_level_marker_and_prefix() {
    assert_eq!(token_tone(" ERROR: "), TokenTone::Error);
    assert_eq!(token_tone("[ERROR]"), TokenTone::Default);
    assert_eq!(token_tone("fatal:"), TokenTone::Error);
    assert_eq!(token_tone("Warning"), TokenTone::Warning);
    assert_eq!(token_tone("debug"), TokenTone::Debug);
    assert_eq!(token_tone("INFO"), TokenTone::Info);
    assert_eq!(token_tone("[SENT]"), TokenTone::Sent);
    assert_eq!(token_tone("#42,"), TokenTone::Sent);
    assert_eq!(token_tone("~MOD/MOD.TP2~"), TokenTone::Sand);
    assert_eq!(token_tone("mod_installer::run"), TokenTone::Dim);
    assert_eq!(token_tone("[weidu]"), TokenTone::Dim);
    assert_eq!(token_tone("hello"), TokenTone::Default);
    assert_eq!(token_tone(""), TokenTone::Default);
}

#[test]
fn a_success_line_marks_its_two_words() {
    let tones = line_tones("SUCCESSFULLY INSTALLED Component");
    assert_eq!(tones.len(), 3);
    assert_eq!(tones[0], ("SUCCESSFULLY ".to_string(), TokenTone::Success));
    assert_eq!(tones[1], ("INSTALLED ".to_string(), TokenTone::Success));
    assert_eq!(tones[2], ("Component".to_string(), TokenTone::Default));
    let other = line_tones("installed ERROR");
    assert_eq!(other[0].1, TokenTone::Default);
    assert_eq!(other[1].1, TokenTone::Error);
    assert_eq!(line_tones(""), vec![(" ".to_string(), TokenTone::Default)]);
    assert_eq!(
        lib::palette::tone_color(TokenTone::Success),
        lib::palette::success()
    );
}

#[test]
fn console_chunks_give_the_line_back() {
    for line in ["Installing [SCS] \"a b\" 12 ", "  ", "", "one", "\"open quote never closed"] {
        let chunks = split_chunks_preserve_quotes(line);
        assert_eq!(chunks.concat(), line);
        assert!(chunks.iter().all(|c| !c.is_empty()));
        for c in &chunks[..chunks.len().saturating_sub(1)] {
            assert!(c.chars().last().unwrap().is_whitespace());
        }
    }
}
