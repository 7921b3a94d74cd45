use smart_organizer::rules::{
    pattern_matches, CustomRule, CustomRuleEngine, ExtensionRuleEngine, RuleEngine,
};
use std::sync::Arc;

fn sample_rules() -> CustomRuleEngine {
    CustomRuleEngine {
        rules: vec![
            CustomRule { pattern: "jpg|jpeg|png".to_string(), target_dir: "Images".to_string() },
            CustomRule { pattern: " pdf | DOC ".to_string(), target_dir: "Docs".to_string() },
            CustomRule { pattern: "png|gif".to_string(), target_dir: "Animations".to_string() },
        ],
        fallback: "Other".to_string(),
    }
}

#[test]
fn extension_engine_uses_lowercase_extension() {
    let e = ExtensionRuleEngine;
    assert_eq!(e.classify("/src/report.pdf"), "pdf");
    assert_eq!(e.classify("/src/Photo.JPG"), "jpg");
    assert_eq!(e.classify("archive.tar.gz"), "gz");
}

#[test]
fn extension_engine_without_extension() {
    let e = ExtensionRuleEngine;
    assert_eq!(e.classify("/src/README"), "no_extension");
    assert_eq!(e.classify("/src/.bashrc"), "no_extension");
    assert_eq!(e.classify("/"), "no_extension");
    assert_eq!(e.classify("/my.dir/README"), "no_extension");
}

#[test]
fn extension_engine_trailing_dot_gives_empty_folder() {
    assert_eq!(ExtensionRuleEngine.classify("notes."), "");
}

#[test]
fn extension_engine_on_file_names() {
    let e = ExtensionRuleEngine;
    assert_eq!(e.classify_file_name(Some("a.TXT")), "txt");
    assert_eq!(e.classify_file_name(None), "no_extension");
}

#[test]
fn custom_engine_first_matching_rule_wins() {
    let c = sample_rules();
    assert_eq!(c.classify("/x/a.PNG"), "Images");
    assert_eq!(c.classify("/x/b.gif"), "Animations");
}

#[test]
fn custom_engine_trims_and_ignores_case() {
    let c = sample_rules();
    assert_eq!(c.classify("/x/b.doc"), "Docs");
    assert_eq!(c.classify("/x/c.Pdf"), "Docs");
}

#[test]
fn custom_engine_fallback() {
    let c = sample_rules();
    assert_eq!(c.classify("/x/c.txt"), "Other");
    assert_eq!(c.classify("/x/noext"), "Other");
    assert_eq!(c.classify_extension("zip"), "Other");
}

#[test]
fn custom_engine_empty_token_matches_missing_extension() {
    let c = CustomRuleEngine {
        rules: vec![CustomRule { pattern: "txt|".to_string(), target_dir: "Plain".to_string() }],
        fallback: "Rest".to_string(),
    };
    assert_eq!(c.classify("/x/README"), "Plain");
    assert_eq!(c.classify("/x/a.md"), "Rest");
}

#[test]
fn pattern_tokens_are_matched_whole() {
    assert!(pattern_matches("jpg|jpeg", "jpeg"));
    assert!(!pattern_matches("jpg|jpeg", "jp"));
    assert!(pattern_matches("  MP3 ", "mp3"));
}

#[test]
fn classification_is_repeatable() {
    let c = sample_rules();
    let e = ExtensionRuleEngine;
    for p in ["/x/a.png", "/x/b", "/x/c.DOC"] {
        assert_eq!(c.classify(p), c.classify(p));
        assert_eq!(e.classify(p), e.classify(p));
    }
}

#[test]
fn boxed_and_shared_engines_forward() {
    let boxed: Box<dyn RuleEngine> = Box::new(ExtensionRuleEngine);
    assert_eq!(boxed.classify("a/b.Rs"), "rs");
    let shared = Arc::new(sample_rules());
    assert_eq!(shared.classify("a/b.jpeg"), "Images");
}
