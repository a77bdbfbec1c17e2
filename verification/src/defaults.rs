//! The fixed catalogs: the five user-facing toggles and the ordered rule
//! table. Both are built once at startup and read-only afterwards.

use vstd::prelude::*;

use crate::linebreaks::Rule;
use crate::settings::{spec_check, spec_check_from, spec_has_setting, Setting, SettingList};
use crate::texthelpers::{filler_chars, Action, Case, Filler, Match, PunctuationKind,
    SymbolPredicate};

verus! {

/// The one reserved character of the sentinel protocol: appended by the
/// heading extractor to a line that must keep its break, and consumed by the
/// last rule of the catalog, whose filler is a forced line break. It is the
/// North Indic placeholder mark, chosen for its low probability of occurring
/// in natural text; input that does contain it is outside the contract.
pub const SENTINEL: char = '\u{a837}';

/// The closed set of toggle identifiers.
#[derive(Clone, Copy, PartialEq, Eq, Structural, Debug)]
pub enum SettingType {
    SmartHyphenRemoval,
    MarkdownSectionHeadings,
    MarkdownSubheadings,
    SimplifiedHeadings,
    SeparateHeadingClarifiers,
}

/// Every kind of toggle has an entry in `list`.
pub open spec fn all_settings_present(list: Seq<Setting>) -> bool {
    forall|k: SettingType| spec_has_setting(list, k)
}

/// The default catalog: every kind present exactly once, in declaration
/// order, with its default value.
pub open spec fn default_settings(list: Seq<Setting>) -> bool {
    &&& list.len() == 5
    &&& list[0].kind == SettingType::SmartHyphenRemoval && list[0].enabled == true
    &&& list[1].kind == SettingType::MarkdownSectionHeadings && list[1].enabled == true
    &&& list[2].kind == SettingType::MarkdownSubheadings && list[2].enabled == true
    &&& list[3].kind == SettingType::SimplifiedHeadings && list[3].enabled == false
    &&& list[4].kind == SettingType::SeparateHeadingClarifiers && list[4].enabled == true
}

/// In the default catalog, lookup finds each kind at its own slot.
pub proof fn lemma_default_settings_check(list: Seq<Setting>)
    requires
        default_settings(list),
    ensures
        all_settings_present(list),
        spec_check(list, SettingType::SmartHyphenRemoval) == list[0].enabled,
        spec_check(list, SettingType::MarkdownSectionHeadings) == list[1].enabled,
        spec_check(list, SettingType::MarkdownSubheadings) == list[2].enabled,
        spec_check(list, SettingType::SimplifiedHeadings) == list[3].enabled,
        spec_check(list, SettingType::SeparateHeadingClarifiers) == list[4].enabled,
{
    assert forall|k: SettingType| spec_has_setting(list, k) by {
        match k {
            SettingType::SmartHyphenRemoval => assert(list[0].kind == k),
            SettingType::MarkdownSectionHeadings => assert(list[1].kind == k),
            SettingType::MarkdownSubheadings => assert(list[2].kind == k),
            SettingType::SimplifiedHeadings => assert(list[3].kind == k),
            SettingType::SeparateHeadingClarifiers => assert(list[4].kind == k),
        }
    }
    assert forall|k: SettingType, i: int|
        0 <= i < 4 && list[i].kind != k implies #[trigger] spec_check_from(list, k, i)
        == spec_check_from(list, k, i + 1) by {};
    assert(spec_check_from(list, SettingType::MarkdownSubheadings, 0) == spec_check_from(
        list,
        SettingType::MarkdownSubheadings,
        1,
    ));
    assert(spec_check_from(list, SettingType::MarkdownSubheadings, 1) == spec_check_from(
        list,
        SettingType::MarkdownSubheadings,
        2,
    ));
    assert(spec_check_from(list, SettingType::SimplifiedHeadings, 1) == spec_check_from(
        list,
        SettingType::SimplifiedHeadings,
        2,
    ));
    assert(spec_check_from(list, SettingType::SimplifiedHeadings, 2) == spec_check_from(
        list,
        SettingType::SimplifiedHeadings,
        3,
    ));
    assert(spec_check_from(list, SettingType::SeparateHeadingClarifiers, 2) == spec_check_from(
        list,
        SettingType::SeparateHeadingClarifiers,
        3,
    ));
    assert(spec_check_from(list, SettingType::SeparateHeadingClarifiers, 3) == spec_check_from(
        list,
        SettingType::SeparateHeadingClarifiers,
        4,
    ));
}

/// The built-in toggles, with their default values.
pub fn setting_list() -> (r: SettingList)
    ensures
        default_settings(r.list@),
        all_settings_present(r.list@),
{
    let mut list: Vec<Setting> = Vec::new();
    list.push(
        Setting::new(
            SettingType::SmartHyphenRemoval,
            "Smart Hyphen Removal",
            "Leave hyphens if they are part of a proper noun.",
            true,
        ),
    );
    list.push(
        Setting::new(
            SettingType::MarkdownSectionHeadings,
            "Section Headings",
            "Guess at and mark section headings using Markdown.",
            true,
        ),
    );
    list.push(
        Setting::new(
            SettingType::MarkdownSubheadings,
            "Subheadings",
            "Guess at and mark subheadings using Markdown.",
            true,
        ),
    );
    list.push(
        Setting::new(
            SettingType::SimplifiedHeadings,
            "Simplified Headings",
            "Strips fancy symbols from headings, for easier searching.",
            false,
        ),
    );
    list.push(
        Setting::new(
            SettingType::SeparateHeadingClarifiers,
            "Separate Clarifiers",
            "Strips heading clarifiers (in parantheses), and turns them into subheadings.",
            true,
        ),
    );
    let r = SettingList { list };
    proof {
        lemma_default_settings_check(r.list@);
    }
    r
}

/// One rule of the catalog, described field by field; the filler is described
/// by the characters it inserts.
pub open spec fn rule_is(
    r: Rule,
    setting: Option<(SettingType, bool)>,
    psym: Match,
    pact: Action,
    fsym: Match,
    fact: Action,
    fill: Seq<char>,
) -> bool {
    &&& r.setting == setting
    &&& r.previous.symbol == psym
    &&& r.previous.on_match == pact
    &&& r.following.symbol == fsym
    &&& r.following.on_match == fact
    &&& filler_chars(r.filler) == fill
}

/// The built-in rule table, in evaluation order: generic word join,
/// continuation join, sentence break kept, hyphen removal (with the gated
/// proper-noun exception), slash join, parenthetical and dash asides in both
/// directions, quote-attribution dash, bullet normalization, and the
/// sentinel-consuming forced break.
pub open spec fn default_rules(rules: Seq<Rule>) -> bool {
    &&& rules.len() == 14
    &&& rule_is(
        rules[0],
        Option::None,
        Match::Letter(Case::Lowercase),
        Action::Leave,
        Match::Letter(Case::Anycase),
        Action::Leave,
        seq![' '],
    )
    &&& rule_is(
        rules[1],
        Option::None,
        Match::Punctuation(PunctuationKind::Continuation),
        Action::Leave,
        Match::Letter(Case::Anycase),
        Action::Leave,
        seq![' '],
    )
    &&& rule_is(
        rules[2],
        Option::None,
        Match::Punctuation(PunctuationKind::EndOfSentence),
        Action::Leave,
        Match::Letter(Case::Uppercase),
        Action::Leave,
        seq!['\n'],
    )
    &&& rule_is(
        rules[3],
        Option::None,
        Match::Punctuation(PunctuationKind::Hyphen),
        Action::Remove,
        Match::Letter(Case::Lowercase),
        Action::Leave,
        Seq::empty(),
    )
    &&& rule_is(
        rules[4],
        Option::Some((SettingType::SmartHyphenRemoval, true)),
        Match::Punctuation(PunctuationKind::Hyphen),
        Action::Leave,
        Match::Letter(Case::Uppercase),
        Action::Leave,
        Seq::empty(),
    )
    &&& rule_is(
        rules[5],
        Option::Some((SettingType::SmartHyphenRemoval, false)),
        Match::Punctuation(PunctuationKind::Hyphen),
        Action::Remove,
        Match::Letter(Case::Uppercase),
        Action::Leave,
        Seq::empty(),
    )
    &&& rule_is(
        rules[6],
        Option::None,
        Match::Punctuation(PunctuationKind::Slash),
        Action::Leave,
        Match::Letter(Case::Anycase),
        Action::Leave,
        Seq::empty(),
    )
    &&& rule_is(
        rules[7],
        Option::None,
        Match::Punctuation(PunctuationKind::Parantheses),
        Action::Leave,
        Match::Letter(Case::Anycase),
        Action::Leave,
        seq![' '],
    )
    &&& rule_is(
        rules[8],
        Option::None,
        Match::Letter(Case::Anycase),
        Action::Leave,
        Match::Punctuation(PunctuationKind::Parantheses),
        Action::Leave,
        seq![' '],
    )
    &&& rule_is(
        rules[9],
        Option::None,
        Match::Punctuation(PunctuationKind::Dash),
        Action::Leave,
        Match::Letter(Case::Anycase),
        Action::Leave,
        seq![' '],
    )
    &&& rule_is(
        rules[10],
        Option::None,
        Match::Letter(Case::Anycase),
        Action::Leave,
        Match::Punctuation(PunctuationKind::Dash),
        Action::Leave,
        seq![' '],
    )
    &&& rule_is(
        rules[11],
        Option::None,
        Match::Punctuation(PunctuationKind::EndOfSentence),
        Action::Leave,
        Match::Punctuation(PunctuationKind::Dash),
        Action::Remove,
        seq!['\n', '-'],
    )
    &&& rule_is(
        rules[12],
        Option::None,
        Match::Punctuation(PunctuationKind::AnyPunctuation),
        Action::Leave,
        Match::Exact('\u{2022}'),
        Action::Remove,
        seq!['\n', '-'],
    )
    &&& rule_is(
        rules[13],
        Option::None,
        Match::Exact(SENTINEL),
        Action::Remove,
        Match::Anymatch,
        Action::Leave,
        seq!['\n'],
    )
}

/// The built-in rule table.
pub fn ruleset() -> (r: Vec<Rule>)
    ensures
        default_rules(r@),
{
    proof {
        reveal_strlit("\n-");
    }
    let mut rules: Vec<Rule> = Vec::new();
    // Text(\n)and more text
    rules.push(
        Rule {
            setting: Option::None,
            previous: SymbolPredicate::new(Match::Letter(Case::Lowercase), Action::Leave),
            following: SymbolPredicate::new(Match::Letter(Case::Anycase), Action::Leave),
            filler: Filler::Space,
        },
    );
    // Text,(\n)and more text
    rules.push(
        Rule {
            setting: Option::None,
            previous: SymbolPredicate::new(
                Match::Punctuation(PunctuationKind::Continuation),
                Action::Leave,
            ),
            following: SymbolPredicate::new(Match::Letter(Case::Anycase), Action::Leave),
            filler: Filler::Space,
        },
    );
    // Text.(\n)More text
    rules.push(
        Rule {
            setting: Option::None,
            previous: SymbolPredicate::new(
                Match::Punctuation(PunctuationKind::EndOfSentence),
                Action::Leave,
            ),
            following: SymbolPredicate::new(Match::Letter(Case::Uppercase), Action::Leave),
            filler: Filler::Linebreak,
        },
    );
    // Text with conti-(\n)nuation
    rules.push(
        Rule {
            setting: Option::None,
            previous: SymbolPredicate::new(
                Match::Punctuation(PunctuationKind::Hyphen),
                Action::Remove,
            ),
            following: SymbolPredicate::new(Match::Letter(Case::Lowercase), Action::Leave),
            filler: Filler::Empty,
        },
    );
    // Text with Proper-(\n)Noun, hyphen kept
    rules.push(
        Rule {
            setting: Option::Some((SettingType::SmartHyphenRemoval, true)),
            previous: SymbolPredicate::new(
                Match::Punctuation(PunctuationKind::Hyphen),
                Action::Leave,
            ),
            following: SymbolPredicate::new(Match::Letter(Case::Uppercase), Action::Leave),
            filler: Filler::Empty,
        },
    );
    // Text with Proper-(\n)Noun, hyphen removed
    rules.push(
        Rule {
            setting: Option::Some((SettingType::SmartHyphenRemoval, false)),
            previous: SymbolPredicate::new(
                Match::Punctuation(PunctuationKind::Hyphen),
                Action::Remove,
            ),
            following: SymbolPredicate::new(Match::Letter(Case::Uppercase), Action::Leave),
            filler: Filler::Empty,
        },
    );
    // This/That/(\n)TheOther
    rules.push(
        Rule {
            setting: Option::None,
            previous: SymbolPredicate::new(
                Match::Punctuation(PunctuationKind::Slash),
                Action::Leave,
            ),
            following: SymbolPredicate::new(Match::Letter(Case::Anycase), Action::Leave),
            filler: Filler::Empty,
        },
    );
    // Text (paranthetical)(\n)and more text
    rules.push(
        Rule {
            setting: Option::None,
            previous: SymbolPredicate::new(
                Match::Punctuation(PunctuationKind::Parantheses),
                Action::Leave,
            ),
            following: SymbolPredicate::new(Match::Letter(Case::Anycase), Action::Leave),
            filler: Filler::Space,
        },
    );
    // Text(\n)(paranthetical) and more text
    rules.push(
        Rule {
            setting: Option::None,
            previous: SymbolPredicate::new(Match::Letter(Case::Anycase), Action::Leave),
            following: SymbolPredicate::new(
                Match::Punctuation(PunctuationKind::Parantheses),
                Action::Leave,
            ),
            filler: Filler::Space,
        },
    );
    // Text - aside -(\n)and more text
    rules.push(
        Rule {
            setting: Option::None,
            previous: SymbolPredicate::new(
                Match::Punctuation(PunctuationKind::Dash),
                Action::Leave,
            ),
            following: SymbolPredicate::new(Match::Letter(Case::Anycase), Action::Leave),
            filler: Filler::Space,
        },
    );
    // Text(\n)- aside - and more text
    rules.push(
        Rule {
            setting: Option::None,
            previous: SymbolPredicate::new(Match::Letter(Case::Anycase), Action::Leave),
            following: SymbolPredicate::new(
                Match::Punctuation(PunctuationKind::Dash),
                Action::Leave,
            ),
            filler: Filler::Space,
        },
    );
    // Quote.(\n)- Author
    rules.push(
        Rule {
            setting: Option::None,
            previous: SymbolPredicate::new(
                Match::Punctuation(PunctuationKind::EndOfSentence),
                Action::Leave,
            ),
            following: SymbolPredicate::new(
                Match::Punctuation(PunctuationKind::Dash),
                Action::Remove,
            ),
            filler: Filler::Exact("\n-".to_owned()),
        },
    );
    // Section.(\n)(bullet)Bulletpoint
    rules.push(
        Rule {
            setting: Option::None,
            previous: SymbolPredicate::new(
                Match::Punctuation(PunctuationKind::AnyPunctuation),
                Action::Leave,
            ),
            following: SymbolPredicate::new(Match::Exact('\u{2022}'), Action::Remove),
            filler: Filler::Exact("\n-".to_owned()),
        },
    );
    // The sentinel is consumed; its forced break survives.
    rules.push(
        Rule {
            setting: Option::None,
            previous: SymbolPredicate::new(Match::Exact(SENTINEL), Action::Remove),
            following: SymbolPredicate::new(Match::Anymatch, Action::Leave),
            filler: Filler::Linebreak,
        },
    );
    proof {
        assert(seq![' '] =~= Seq::empty().push(' '));
        assert(seq!['\n'] =~= Seq::empty().push('\n'));
        assert(seq!['\n', '-'] =~= Seq::empty().push('\n').push('-'));
        assert("\n-"@ =~= seq!['\n', '-']);
        assert(default_rules(rules@));
    }
    rules
}

} // verus!
