//! Reflows text whose line breaks are page-layout artifacts: an ordered,
//! toggle-gated rule engine decides for each pair of adjacent lines whether
//! the break is spurious (merged away) or genuine (kept), and a heading
//! extractor recognizes multi-line heading runs and parenthetical clarifiers
//! and re-emits them as tagged lines the rule engine must not re-merge.

pub mod defaults;
pub mod headers;
pub mod linebreaks;
pub mod settings;
pub mod textfixer;
pub mod texthelpers;
