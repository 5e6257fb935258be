use vocab_trainer::Dictionary;
use vocab_trainer::FetchError;
use vocab_trainer::VocabTrainer;
use vocab_trainer::entry::Entry;

#[test]
fn initialize_without_saved_state_gives_defaults() {
    let s = VocabTrainer::initialize(None);
    assert_eq!(s.prefered_dictionary, Dictionary::Learners);
    assert_eq!(s.current_word, None);
    assert_eq!(s.entries.len(), 0);
}

#[test]
fn initialize_with_unreadable_saved_state_gives_defaults() {
    let s = VocabTrainer::initialize(Some("X+word"));
    assert_eq!(s.prefered_dictionary, Dictionary::Learners);
    assert_eq!(s.current_word, None);
    assert_eq!(s.entries.len(), 0);
}

#[test]
fn set_current_word_replaces_the_word() {
    let mut s = VocabTrainer::initialize(None);
    s.set_current_word("gregarious".to_string());
    assert_eq!(s.current_word, Some("gregarious".to_string()));
    s.set_current_word("fugacious".to_string());
    assert_eq!(s.current_word, Some("fugacious".to_string()));
}

#[test]
fn display_word_shows_placeholder_then_word() {
    let mut s = VocabTrainer::initialize(None);
    assert_eq!(s.display_word(), "Enter a word to look up".to_string());
    s.set_current_word("gregarious".to_string());
    assert_eq!(s.display_word(), "gregarious".to_string());
}

#[test]
fn fetch_with_two_element_array_gives_two_entries_in_order() {
    let mut s = VocabTrainer::initialize(None);
    let body = r#"[
        {"meta": {"id": "gregarious"}, "hwi": {"value": "gregarious"}, "fl": "adjective"},
        {"hwi": {"value": "fugacious"}}
    ]"#;
    let r = s.fetch_definition(Ok(body.to_string()));
    assert_eq!(r, Ok(()));
    assert_eq!(s.entries.len(), 2);
    assert_eq!(s.entries[0].headword, "gregarious".to_string());
    assert_eq!(s.entries[0].functional_label, Some("adjective".to_string()));
    assert_eq!(s.entries[1].headword, "fugacious".to_string());
    assert_eq!(s.entries[1].functional_label, None);
}

#[test]
fn fetch_keeps_definition_sections_as_raw_text() {
    let mut s = VocabTrainer::initialize(None);
    let body = r#"[{"hwi": {"value": "gregarious"}, "def": [{"sseq": [["sense", 1]]}, null]}]"#;
    let r = s.fetch_definition(Ok(body.to_string()));
    assert_eq!(r, Ok(()));
    assert_eq!(s.entries.len(), 1);
    assert_eq!(
        s.entries[0].defs,
        Some(vec![r#"{"sseq": [["sense", 1]]}"#.to_string(), "null".to_string()])
    );
}

#[test]
fn fetch_keeps_raw_text_with_brackets_inside_strings() {
    let mut s = VocabTrainer::initialize(None);
    let body = r#"[{"hwi": {"value": "a"}, "def": [{"t": "}]," , "n": [0.25, 1e+2, -3]}]}]"#;
    let r = s.fetch_definition(Ok(body.to_string()));
    assert_eq!(r, Ok(()));
    assert_eq!(
        s.entries[0].defs,
        Some(vec![r#"{"t": "}]," , "n": [0.25, 1e+2, -3]}"#.to_string()])
    );
}

#[test]
fn fetch_decodes_string_escapes() {
    let mut s = VocabTrainer::initialize(None);
    let body = "[{\"hwi\": {\"value\": \"caf\\u00e9\\n\\\"\"}}]";
    let r = s.fetch_definition(Ok(body.to_string()));
    assert_eq!(r, Ok(()));
    assert_eq!(s.entries[0].headword, "caf\u{e9}\n\"".to_string());
}

#[test]
fn fetch_decodes_surrogate_pair_escapes() {
    let mut s = VocabTrainer::initialize(None);
    let body = "[{\"hwi\": {\"value\": \"\\uD83D\\uDE00\"}}]";
    let r = s.fetch_definition(Ok(body.to_string()));
    assert_eq!(r, Ok(()));
    assert_eq!(s.entries[0].headword, "\u{1F600}".to_string());
}

#[test]
fn fetch_skips_unknown_members_of_any_shape() {
    let mut s = VocabTrainer::initialize(None);
    let body = r#"[{"shortdef": ["a", "b"], "hom": 1, "odd": {"x": [true, null, -1.5e3]},
        "hwi": {"prs": [{"mw": "x"}], "value": "gregarious"}}]"#;
    let r = s.fetch_definition(Ok(body.to_string()));
    assert_eq!(r, Ok(()));
    assert_eq!(s.entries[0].headword, "gregarious".to_string());
}

#[test]
fn fetch_with_empty_array_replaces_entries_wholesale() {
    let mut s = VocabTrainer::initialize(None);
    let r = s.fetch_definition(Ok(r#"[{"hwi": {"value": "gregarious"}}]"#.to_string()));
    assert_eq!(r, Ok(()));
    assert_eq!(s.entries.len(), 1);
    let r2 = s.fetch_definition(Ok("  [ ]  ".to_string()));
    assert_eq!(r2, Ok(()));
    assert_eq!(s.entries.len(), 0);
}

#[test]
fn fetch_with_malformed_json_fails_and_keeps_entries() {
    let mut s = VocabTrainer::initialize(None);
    let good = r#"[{"hwi": {"value": "gregarious"}}, {"hwi": {"value": "fugacious"}}]"#;
    assert_eq!(s.fetch_definition(Ok(good.to_string())), Ok(()));
    let before = s.entries.clone();
    let r = s.fetch_definition(Ok("{\"hwi\": nonsense".to_string()));
    assert_eq!(r, Err(FetchError::Decode));
    assert_eq!(s.entries, before);
}

#[test]
fn fetch_rejects_schema_breaks() {
    let cases = [
        // not an array
        r#"{"hwi": {"value": "a"}}"#,
        // an element that is not an object
        r#"["gregarious"]"#,
        // headword information missing
        r#"[{"fl": "noun"}]"#,
        // headword information without a value member
        r#"[{"hwi": {"hw": "a"}}]"#,
        // headword that is not a string
        r#"[{"hwi": {"value": 3}}]"#,
        // functional label that is not a string
        r#"[{"hwi": {"value": "a"}, "fl": 3}]"#,
        // definition sections that are not an array
        r#"[{"hwi": {"value": "a"}, "def": {}}]"#,
        // a repeated member of the schema
        r#"[{"hwi": {"value": "a"}, "fl": "x", "fl": "y"}]"#,
        // trailing text after the array
        r#"[{"hwi": {"value": "a"}}] extra"#,
        // trailing comma
        r#"[{"hwi": {"value": "a"}},]"#,
        // a lone surrogate escape
        "[{\"hwi\": {\"value\": \"\\uD83D\"}}]",
        // an unpaired control character in a string
        "[{\"hwi\": {\"value\": \"a\u{0001}b\"}}]",
        // empty body
        "",
    ];
    for body in cases {
        let mut s = VocabTrainer::initialize(None);
        let r = s.fetch_definition(Ok(body.to_string()));
        assert_eq!(r, Err(FetchError::Decode), "body was: {}", body);
    }
}

#[test]
fn fetch_with_transport_failure_reports_it_and_keeps_entries() {
    let mut s = VocabTrainer::initialize(None);
    assert_eq!(
        s.fetch_definition(Ok(r#"[{"hwi": {"value": "gregarious"}}]"#.to_string())),
        Ok(())
    );
    let before = s.entries.clone();
    let r = s.fetch_definition(Err("connection refused".to_string()));
    assert_eq!(r, Err(FetchError::Transport("connection refused".to_string())));
    assert_eq!(s.entries, before);
}

#[test]
fn persist_then_initialize_reproduces_word_and_dictionary() {
    let entry = |h: &str| Entry {
        headword: h.to_string(),
        functional_label: None,
        defs: None,
    };
    let s = VocabTrainer {
        prefered_dictionary: Dictionary::Collegiate,
        current_word: Some("gregarious".to_string()),
        entries: vec![entry("a"), entry("b"), entry("c")],
    };
    let blob = s.persist();
    let restored = VocabTrainer::initialize(Some(&blob));
    assert_eq!(restored.prefered_dictionary, Dictionary::Collegiate);
    assert_eq!(restored.current_word, Some("gregarious".to_string()));
    // entries are session state: they are not saved
    assert_eq!(restored.entries.len(), 0);
}

#[test]
fn persist_writes_the_mark_and_the_word() {
    let mut s = VocabTrainer::initialize(None);
    assert_eq!(s.persist(), "L".to_string());
    s.set_current_word("gregarious".to_string());
    assert_eq!(s.persist(), "L+gregarious".to_string());
    s.prefered_dictionary = Dictionary::Collegiate;
    assert_eq!(s.persist(), "C+gregarious".to_string());
}

#[test]
fn persist_round_trip_without_a_word() {
    let s = VocabTrainer::initialize(None);
    let blob = s.persist();
    let restored = VocabTrainer::initialize(Some(&blob));
    assert_eq!(restored.prefered_dictionary, Dictionary::Learners);
    assert_eq!(restored.current_word, None);
}

#[test]
fn switching_dictionary_changes_only_the_path_segment() {
    let learners = VocabTrainer::initialize(None);
    let mut collegiate = VocabTrainer::initialize(None);
    collegiate.prefered_dictionary = Dictionary::Collegiate;
    let lu = learners.request_url("gregarious");
    let cu = collegiate.request_url("gregarious");
    assert_eq!(
        lu,
        "https://dictionaryapi.com/api/v3/references/learners/json/gregarious?key=a677e0ca-3c64-49e3-8366-ffaed5d8979a"
    );
    assert_eq!(
        cu,
        "https://dictionaryapi.com/api/v3/references/collegiate/json/gregarious?key=a677e0ca-3c64-49e3-8366-ffaed5d8979a"
    );
    // the base, the word and the key agree; only the segment differs
    let l_parts: Vec<&str> = lu.splitn(2, "learners").collect();
    let c_parts: Vec<&str> = cu.splitn(2, "collegiate").collect();
    assert_eq!(l_parts[0], c_parts[0]);
    assert_eq!(l_parts[1], c_parts[1]);
}
