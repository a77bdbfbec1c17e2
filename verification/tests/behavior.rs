use textfixer::defaults::{ruleset, setting_list, SettingType};
use textfixer::headers::all_caps;
use textfixer::linebreaks::{apply, Rule};
use textfixer::settings::{Setting, SettingList};
use textfixer::texthelpers::{Action, Case, Filler, Match, PunctuationKind, SymbolPredicate};
use textfixer::textfixer::Textfixer;

const SENTINEL: char = '\u{a837}';

#[test]
fn fix_empty_is_empty() {
    let fixer = Textfixer::default();
    assert_eq!(fixer.fix(""), "");
}

#[test]
fn hyphen_join_lowercase() {
    let fixer = Textfixer::default();
    assert_eq!(fixer.fix("conti-\nnuation"), "continuation");
}

#[test]
fn hyphen_kept_before_capital() {
    let fixer = Textfixer::default();
    let lines = vec!["Proper-".to_owned(), "Noun".to_owned()];
    let fixed = apply(&lines, &fixer.ruleset, &fixer.settings);
    assert_eq!(fixed, "Proper-Noun");
}

#[test]
fn hyphen_removed_before_capital_when_toggled_off() {
    let mut fixer = Textfixer::default();
    fixer.settings.list[0].enabled = false; // Smart Hyphen Removal off
    let lines = vec!["Proper-".to_owned(), "Noun".to_owned()];
    let fixed = apply(&lines, &fixer.ruleset, &fixer.settings);
    assert_eq!(fixed, "ProperNoun");
}

#[test]
fn sentence_break_preserved() {
    let fixer = Textfixer::default();
    assert_eq!(
        fixer.fix("End of sentence.\nNext sentence."),
        "End of sentence.\nNext sentence."
    );
}

#[test]
fn generic_word_join() {
    let fixer = Textfixer::default();
    assert_eq!(fixer.fix("some\nwords"), "some words");
}

#[test]
fn heading_and_clarifier_defaults() {
    let fixer = Textfixer::default();
    let fixed = fixer.fix("Dux Bellorum\n(Camarilla; 4-point Title)\nBody text.");
    assert_eq!(
        fixed,
        "# Dux Bellorum\n**Camarilla; 4-point Title**\nBody text."
    );
    assert!(!fixed.contains(SENTINEL));
}

#[test]
fn second_pass_does_not_crash_or_reintroduce_sentinels() {
    let fixer = Textfixer::default();
    let first = fixer.fix("Dux Bellorum\n(Camarilla; 4-point Title)\nBody text.");
    // Idempotence is not guaranteed in general; only totality and the absence
    // of sentinel characters are.
    let second = fixer.fix(&first);
    assert!(!second.contains(SENTINEL));
}

#[test]
fn trailing_heading_has_no_sentinel() {
    let fixer = Textfixer::default();
    let fixed = fixer.fix("Noun");
    assert_eq!(fixed, "# Noun");
    assert!(!fixed.contains(SENTINEL));
    let second = fixer.fix(&fixed);
    assert!(!second.contains(SENTINEL));
}

#[test]
fn sentinel_before_blank_line_is_removed() {
    let fixer = Textfixer::default();
    let fixed = fixer.fix("Dux (Clar)\n\nBody.");
    assert_eq!(fixed, "# Dux \n**Clar**\n\nBody.");
    assert!(!fixed.contains(SENTINEL));
}

fn exact_boundary_rule(gate: Option<(SettingType, bool)>, filler: Filler) -> Rule {
    Rule {
        setting: gate,
        previous: SymbolPredicate::new(Match::Exact('a'), Action::Leave),
        following: SymbolPredicate::new(Match::Anymatch, Action::Leave),
        filler,
    }
}

#[test]
fn earlier_rule_wins_on_shared_boundary() {
    let no_settings = SettingList { list: vec![] };
    let lines = vec!["xa".to_owned(), "b".to_owned()];

    let rules = vec![
        exact_boundary_rule(None, Filler::Space),
        exact_boundary_rule(None, Filler::Exact("ZZZ".to_owned())),
    ];
    assert_eq!(apply(&lines, &rules, &no_settings), "xa b");

    let swapped = vec![
        exact_boundary_rule(None, Filler::Exact("ZZZ".to_owned())),
        exact_boundary_rule(None, Filler::Space),
    ];
    assert_eq!(apply(&lines, &swapped, &no_settings), "xaZZZb");
}

#[test]
fn disabled_rule_falls_through() {
    let lines = vec!["xa".to_owned(), "b".to_owned()];
    let rules = vec![
        exact_boundary_rule(
            Some((SettingType::SmartHyphenRemoval, true)),
            Filler::Exact("GATED".to_owned()),
        ),
        exact_boundary_rule(None, Filler::Space),
    ];

    let off = SettingList {
        list: vec![Setting::new(SettingType::SmartHyphenRemoval, "", "", false)],
    };
    assert_eq!(apply(&lines, &rules, &off), "xa b");

    let on = SettingList {
        list: vec![Setting::new(SettingType::SmartHyphenRemoval, "", "", true)],
    };
    assert_eq!(apply(&lines, &rules, &on), "xaGATEDb");
}

#[test]
fn no_rule_preserves_break() {
    let no_settings = SettingList { list: vec![] };
    let rules: Vec<Rule> = vec![];
    let lines = vec!["left".to_owned(), "right".to_owned()];
    assert_eq!(apply(&lines, &rules, &no_settings), "left\nright");
}

#[test]
fn empty_line_preserves_break() {
    let fixer = Textfixer::default();
    assert_eq!(fixer.fix("a\n\nb"), "a\n\nb");
}

#[test]
fn lines_are_trimmed() {
    let fixer = Textfixer::default();
    assert_eq!(fixer.fix("  some  \n  words  "), "some words");
}

#[test]
fn crlf_line_endings() {
    let fixer = Textfixer::default();
    assert_eq!(fixer.fix("some\r\nwords"), "some words");
}

#[test]
fn slash_join() {
    let fixer = Textfixer::default();
    let lines = vec!["This/That/".to_owned(), "TheOther".to_owned()];
    assert_eq!(
        apply(&lines, &fixer.ruleset, &fixer.settings),
        "This/That/TheOther"
    );
}

#[test]
fn parenthetical_joins_both_directions() {
    let fixer = Textfixer::default();
    let lines = vec!["Text (aside)".to_owned(), "and more".to_owned()];
    assert_eq!(
        apply(&lines, &fixer.ruleset, &fixer.settings),
        "Text (aside) and more"
    );
    let lines = vec!["text".to_owned(), "(aside) more".to_owned()];
    assert_eq!(
        apply(&lines, &fixer.ruleset, &fixer.settings),
        "text (aside) more"
    );
}

#[test]
fn dash_aside_joins_both_directions() {
    let fixer = Textfixer::default();
    let lines = vec!["text \u{2014}".to_owned(), "more".to_owned()];
    assert_eq!(
        apply(&lines, &fixer.ruleset, &fixer.settings),
        "text \u{2014} more"
    );
    let lines = vec!["text".to_owned(), "\u{2014} more".to_owned()];
    assert_eq!(
        apply(&lines, &fixer.ruleset, &fixer.settings),
        "text \u{2014} more"
    );
}

#[test]
fn quote_attribution_dash() {
    let fixer = Textfixer::default();
    let lines = vec!["A quote.".to_owned(), "\u{2014} Author".to_owned()];
    assert_eq!(
        apply(&lines, &fixer.ruleset, &fixer.settings),
        "A quote.\n- Author"
    );
}

#[test]
fn bullet_normalization() {
    let fixer = Textfixer::default();
    let lines = vec!["Section.".to_owned(), "\u{2022}Bulletpoint".to_owned()];
    assert_eq!(
        apply(&lines, &fixer.ruleset, &fixer.settings),
        "Section.\n-Bulletpoint"
    );
}

#[test]
fn continuation_punctuation_join() {
    let fixer = Textfixer::default();
    assert_eq!(fixer.fix("end,\nnext"), "end, next");
}

#[test]
fn multi_line_heading_run() {
    let fixer = Textfixer::default();
    assert_eq!(
        fixer.fix("Dux Bellorum\nGrand Title\nBody text."),
        "# Dux Bellorum Grand Title\nBody text."
    );
}

#[test]
fn clarifier_abort_rebuilds_line() {
    let fixer = Textfixer::default();
    assert_eq!(
        fixer.fix("Heading Line\n(clarifier) more text follows"),
        "Heading Line() (clarifier) more text follows"
    );
}

#[test]
fn clarifier_without_closing_paren() {
    let fixer = Textfixer::default();
    assert_eq!(
        fixer.fix("Heading Line\n(unclosed clarifier\nBody text."),
        "# Heading Line\n**unclosed clarifier**\nBody text."
    );
}

#[test]
fn clarifier_with_one_trailing_char() {
    let fixer = Textfixer::default();
    assert_eq!(
        fixer.fix("Heading Line\n(clar)x\nBody text."),
        "# Heading Line\n**clar**\nx Body text."
    );
}

#[test]
fn clarifiers_folded_back_when_not_separated() {
    let mut fixer = Textfixer::default();
    fixer.settings.list[4].enabled = false; // Separate Clarifiers off
    assert_eq!(
        fixer.fix("Dux Bellorum\n(Camarilla; 4-point Title)\nBody text."),
        "# Dux Bellorum(Camarilla; 4-point Title)\nBody text."
    );
}

#[test]
fn markdown_headings_off() {
    let mut fixer = Textfixer::default();
    fixer.settings.list[1].enabled = false; // Section Headings off
    assert_eq!(
        fixer.fix("Dux Bellorum\nBody text."),
        "Dux Bellorum\nBody text."
    );
}

#[test]
fn simplified_headings_strip_diacritics() {
    let mut fixer = Textfixer::default();
    fixer.settings.list[3].enabled = true; // Simplified Headings on
    assert_eq!(
        fixer.fix("Cr\u{e8}me Br\u{fb}l\u{e9}e\nBody follows."),
        "# Creme Brulee\nBody follows."
    );
}

#[test]
fn simplified_headings_replace_apostrophe() {
    let mut fixer = Textfixer::default();
    fixer.settings.list[3].enabled = true; // Simplified Headings on
    assert_eq!(
        fixer.fix("Elder\u{2019}s Arsenal\nText here."),
        "# Elder s Arsenal\nText here."
    );
}

#[test]
fn bullet_subheading_rewritten() {
    let fixer = Textfixer::default();
    assert_eq!(
        fixer.fix("\u{2022}Note: text"),
        "**- \u{2022}Note:** text"
    );
}

#[test]
fn title_case_subheading_markdown() {
    let fixer = Textfixer::default();
    assert_eq!(
        fixer.fix("Followed: By a subheading or something."),
        "**- Followed:** By a subheading or something."
    );
}

#[test]
fn subheading_markdown_off_drops_colon() {
    let mut fixer = Textfixer::default();
    fixer.settings.list[2].enabled = false; // Subheadings off
    assert_eq!(fixer.fix("Speed: fast"), "Speed fast");
}

#[test]
fn match_classifies_characters() {
    assert!(Match::Anymatch.matches('\u{0}'));
    assert!(Match::Exact('x').matches('x'));
    assert!(!Match::Exact('x').matches('y'));
    assert!(Match::Letter(Case::Uppercase).matches('A'));
    assert!(!Match::Letter(Case::Uppercase).matches('a'));
    assert!(Match::Letter(Case::Lowercase).matches('a'));
    assert!(Match::Letter(Case::Anycase).matches('z'));
    assert!(!Match::Letter(Case::Anycase).matches('1'));
    assert!(Match::Whitespace.matches(' '));
    assert!(!Match::Whitespace.matches('a'));
    assert!(Match::Linebreak.matches('\n'));
    assert!(Match::Punctuation(PunctuationKind::AnyPunctuation).matches('!'));
    assert!(!Match::Punctuation(PunctuationKind::AnyPunctuation).matches('\u{2022}'));
    assert!(Match::Punctuation(PunctuationKind::EndOfSentence).matches('.'));
    assert!(Match::Punctuation(PunctuationKind::EndOfSentence).matches('?'));
    assert!(!Match::Punctuation(PunctuationKind::EndOfSentence).matches(','));
    assert!(Match::Punctuation(PunctuationKind::Continuation).matches(';'));
    assert!(Match::Punctuation(PunctuationKind::Parantheses).matches('['));
    assert!(Match::Punctuation(PunctuationKind::Hyphen).matches('-'));
    assert!(Match::Punctuation(PunctuationKind::Dash).matches('\u{2014}'));
    assert!(!Match::Punctuation(PunctuationKind::Dash).matches('-'));
    assert!(Match::Punctuation(PunctuationKind::Slash).matches('/'));
}

#[test]
fn filler_strings() {
    assert_eq!(Filler::Empty.get(), "");
    assert_eq!(Filler::Space.get(), " ");
    assert_eq!(Filler::Linebreak.get(), "\n");
    assert_eq!(Filler::Exact("ab".to_owned()).get(), "ab");
}

#[test]
fn settings_check_first_match_wins() {
    let list = SettingList {
        list: vec![
            Setting::new(SettingType::SmartHyphenRemoval, "", "", true),
            Setting::new(SettingType::SmartHyphenRemoval, "", "", false),
        ],
    };
    assert!(list.check(SettingType::SmartHyphenRemoval));
}

#[test]
fn default_catalog_contents() {
    let list = setting_list();
    assert_eq!(list.list.len(), 5);
    assert!(list.check(SettingType::SmartHyphenRemoval));
    assert!(list.check(SettingType::MarkdownSectionHeadings));
    assert!(list.check(SettingType::MarkdownSubheadings));
    assert!(!list.check(SettingType::SimplifiedHeadings));
    assert!(list.check(SettingType::SeparateHeadingClarifiers));
    assert_eq!(ruleset().len(), 14);
}

#[test]
fn merge_removes_both_boundary_characters() {
    let rule = Rule {
        setting: None,
        previous: SymbolPredicate::new(
            Match::Punctuation(PunctuationKind::Hyphen),
            Action::Remove,
        ),
        following: SymbolPredicate::new(Match::Exact('x'), Action::Remove),
        filler: Filler::Exact("+".to_owned()),
    };
    assert_eq!(rule.merge("ab-".to_owned(), "xyz"), "ab+yz");
}

#[test]
fn merge_on_empty_left_is_safe() {
    let rule = Rule {
        setting: None,
        previous: SymbolPredicate::new(Match::Anymatch, Action::Remove),
        following: SymbolPredicate::new(Match::Anymatch, Action::Leave),
        filler: Filler::Empty,
    };
    assert_eq!(rule.merge(String::new(), "abc"), "abc");
}

#[test]
fn title_case_heuristic() {
    let chars = |s: &str| s.chars().collect::<Vec<char>>();
    assert!(all_caps(&chars("Dux Bellorum")));
    assert!(all_caps(&chars("a")));
    assert!(all_caps(&chars("")));
    assert!(!all_caps(&chars("Proper-")));
    assert!(!all_caps(&chars("lowercase start of a long word")));
}

#[test]
fn set_string_and_get_string() {
    let mut fixer = Textfixer::default();
    fixer.set_string("some\nwords");
    assert_eq!(fixer.get_string(), "some words");
}
