//! The whole pipeline: the raw text is split into trimmed lines, the heading
//! extractor tags heading runs and clarifiers, and the line-break resolver
//! merges or preserves every remaining break, yielding one corrected string.

use vstd::prelude::*;

use crate::defaults::{
    all_settings_present, default_rules, default_settings, ruleset, setting_list, SENTINEL,
};
use crate::headers::{self, spec_headers};
use crate::linebreaks::{self, gate_present, gates_present, spec_resolve, str_views, Rule};
use crate::settings::{spec_has_setting, Setting, SettingList};
use crate::texthelpers::{
    chars_range, chars_string, char_whitespace, find_char_from, find_from, str_chars,
    unicode_whitespace, views,
};

verus! {

// ---------------------------------------------------------------------------
// Splitting into lines.
// ---------------------------------------------------------------------------

/// One trailing carriage return removed, if present: a line of `\r\n`-ended
/// text keeps no `\r`.
pub open spec fn strip_cr(s: Seq<char>) -> Seq<char> {
    if s.len() > 0 && s[s.len() - 1] == '\r' {
        s.drop_last()
    } else {
        s
    }
}

/// The lines of `s` from position `i` on: pieces split at `\n`, each with a
/// trailing `\r` removed, and no empty piece after a final line ending.
pub open spec fn spec_lines_from(s: Seq<char>, i: int) -> Seq<Seq<char>>
    decreases s.len() - i,
    via spec_lines_from_decreases
{
    if i < 0 || i >= s.len() {
        Seq::empty()
    } else {
        let k = find_from(s, '\n', i);
        if k >= s.len() {
            seq![strip_cr(s.subrange(i, s.len() as int))]
        } else {
            seq![strip_cr(s.subrange(i, k))] + spec_lines_from(s, k + 1)
        }
    }
}

#[via_fn]
proof fn spec_lines_from_decreases(s: Seq<char>, i: int) {
    if 0 <= i && i < s.len() {
        crate::texthelpers::lemma_find_from_bounds(s, '\n', i);
    }
}

/// The lines of `s`. Empty input has no lines.
pub open spec fn spec_lines(s: Seq<char>) -> Seq<Seq<char>> {
    spec_lines_from(s, 0)
}

/// Split into lines at `\n`, dropping one `\r` before each break.
pub fn split_lines(s: &Vec<char>) -> (r: Vec<Vec<char>>)
    ensures
        views(r@) == spec_lines(s@),
{
    let n = s.len();
    let mut out: Vec<Vec<char>> = Vec::new();
    let mut i: usize = 0;
    while i < n
        invariant
            0 <= i <= n,
            n == s@.len(),
            views(out@) + spec_lines_from(s@, i as int) == spec_lines(s@),
        decreases n - i,
    {
        let ghost iv = i as int;
        let k = find_char_from(s, '\n', i);
        let piece_end = if k > i && s[k - 1] == '\r' {
            k - 1
        } else {
            k
        };
        let piece = chars_range(s, i, piece_end);
        proof {
            if k > i && s@[k - 1] == '\r' {
                assert(s@.subrange(iv, k as int).drop_last() =~= s@.subrange(iv, k - 1));
            }
            assert(piece@ == strip_cr(s@.subrange(iv, k as int)));
            crate::texthelpers::lemma_views_push(out@, piece);
            if k < n {
                assert(spec_lines_from(s@, iv) =~= seq![piece@] + spec_lines_from(s@, k + 1));
            } else {
                assert(spec_lines_from(s@, k + 1) =~= Seq::<Seq<char>>::empty());
                assert(spec_lines_from(s@, iv) =~= seq![piece@] + spec_lines_from(s@, k + 1));
            }
            assert(views(out@).push(piece@) + spec_lines_from(s@, k + 1) =~= views(out@)
                + spec_lines_from(s@, iv));
        }
        out.push(piece);
        if k < n {
            i = k + 1;
        } else {
            i = n;
            proof {
                assert(spec_lines_from(s@, n as int) =~= Seq::<Seq<char>>::empty());
                assert(views(out@) + spec_lines_from(s@, n as int) =~= views(out@)
                    + spec_lines_from(s@, k + 1));
            }
        }
    }
    proof {
        assert(views(out@) + spec_lines_from(s@, i as int) =~= views(out@));
    }
    out
}

// ---------------------------------------------------------------------------
// Trimming.
// ---------------------------------------------------------------------------

/// The first position at or after `i` whose character is not Unicode
/// whitespace, or `s.len()`.
pub open spec fn trim_start_idx(s: Seq<char>, i: int) -> int
    decreases s.len() - i,
{
    if i < 0 || i >= s.len() {
        s.len() as int
    } else if unicode_whitespace(s[i]) {
        trim_start_idx(s, i + 1)
    } else {
        i
    }
}

/// The position after the last character before `i` that is not Unicode
/// whitespace, or 0.
pub open spec fn trim_end_idx(s: Seq<char>, i: int) -> int
    decreases i,
{
    if i <= 0 || i > s.len() {
        0
    } else if unicode_whitespace(s[i - 1]) {
        trim_end_idx(s, i - 1)
    } else {
        i
    }
}

/// `s` with leading and trailing Unicode whitespace removed.
pub open spec fn spec_trim(s: Seq<char>) -> Seq<char> {
    let a = trim_start_idx(s, 0);
    let b = trim_end_idx(s, s.len() as int);
    if a < b {
        s.subrange(a, b)
    } else {
        Seq::empty()
    }
}

fn trim_start_pos(s: &Vec<char>) -> (r: usize)
    ensures
        r as int == trim_start_idx(s@, 0),
        r <= s@.len(),
{
    let n = s.len();
    let mut a: usize = 0;
    while a < n
        invariant
            0 <= a <= n,
            n == s@.len(),
            trim_start_idx(s@, 0) == trim_start_idx(s@, a as int),
        decreases n - a,
    {
        if !char_whitespace(s[a]) {
            return a;
        }
        a = a + 1;
    }
    a
}

fn trim_end_pos(s: &Vec<char>) -> (r: usize)
    ensures
        r as int == trim_end_idx(s@, s@.len() as int),
        r <= s@.len(),
{
    let n = s.len();
    let mut b: usize = n;
    while b > 0
        invariant
            0 <= b <= n,
            n == s@.len(),
            trim_end_idx(s@, n as int) == trim_end_idx(s@, b as int),
        decreases b,
    {
        if !char_whitespace(s[b - 1]) {
            return b;
        }
        b = b - 1;
    }
    b
}

/// Remove leading and trailing Unicode whitespace.
pub fn trim_chars(s: &Vec<char>) -> (r: Vec<char>)
    ensures
        r@ == spec_trim(s@),
{
    let a = trim_start_pos(s);
    let b = trim_end_pos(s);
    if a < b {
        chars_range(s, a, b)
    } else {
        Vec::new()
    }
}

// ---------------------------------------------------------------------------
// Removing leftover sentinels.
// ---------------------------------------------------------------------------

/// `s` with every sentinel character removed. The resolver consumes a
/// sentinel only as the character before a boundary, so one on the last
/// tagged line, or on a tagged line followed by an empty line, would survive
/// resolution; the sentinel is a protocol character and must never reach the
/// final output.
pub open spec fn strip_sentinels(s: Seq<char>) -> Seq<char>
    decreases s.len(),
{
    if s.len() == 0 {
        Seq::empty()
    } else if s[0] == SENTINEL {
        strip_sentinels(s.skip(1))
    } else {
        seq![s[0]] + strip_sentinels(s.skip(1))
    }
}

/// No sentinel is left after stripping.
pub proof fn lemma_strip_sentinels_clean(s: Seq<char>)
    ensures
        forall|j: int|
            0 <= j < strip_sentinels(s).len() ==> #[trigger] strip_sentinels(s)[j] != SENTINEL,
    decreases s.len(),
{
    if s.len() > 0 {
        lemma_strip_sentinels_clean(s.skip(1));
        assert forall|j: int|
            0 <= j < strip_sentinels(s).len() implies #[trigger] strip_sentinels(s)[j]
            != SENTINEL by {
            if s[0] == SENTINEL {
                assert(strip_sentinels(s)[j] == strip_sentinels(s.skip(1))[j]);
            } else if j > 0 {
                assert(strip_sentinels(s)[j] == strip_sentinels(s.skip(1))[j - 1]);
            }
        }
    }
}

/// Remove every sentinel character.
fn strip_sentinel_chars(s: &Vec<char>) -> (r: Vec<char>)
    ensures
        r@ == strip_sentinels(s@),
{
    let n = s.len();
    let mut r: Vec<char> = Vec::new();
    let mut i: usize = 0;
    proof {
        assert(s@.skip(0) =~= s@);
    }
    while i < n
        invariant
            0 <= i <= n,
            n == s@.len(),
            r@ + strip_sentinels(s@.skip(i as int)) == strip_sentinels(s@),
        decreases n - i,
    {
        proof {
            assert(s@.skip(i as int).skip(1) =~= s@.skip(i + 1));
            assert(s@.skip(i as int)[0] == s@[i as int]);
        }
        let c = s[i];
        if c != SENTINEL {
            proof {
                assert(r@.push(c) + strip_sentinels(s@.skip(i + 1)) =~= r@ + (seq![c]
                    + strip_sentinels(s@.skip(i + 1))));
            }
            r.push(c);
        }
        i = i + 1;
    }
    proof {
        assert(s@.skip(n as int) =~= Seq::<char>::empty());
        assert(r@ + Seq::<char>::empty() =~= r@);
    }
    r
}

// ---------------------------------------------------------------------------
// The pipeline.
// ---------------------------------------------------------------------------

/// The whole pipeline on the view level: split into lines, trim each line,
/// extract headings and sub-labels, resolve every line break, and remove any
/// sentinel the resolution left behind.
pub open spec fn spec_fix(s: Seq<char>, rules: Seq<Rule>, list: Seq<Setting>) -> Seq<char> {
    strip_sentinels(
        spec_resolve(
            spec_headers(spec_lines(s).map_values(|l: Seq<char>| spec_trim(l)), list),
            rules,
            list,
        ),
    )
}

/// The corrected text never holds a sentinel character.
pub proof fn lemma_fix_no_sentinel(s: Seq<char>, rules: Seq<Rule>, list: Seq<Setting>)
    ensures
        forall|j: int|
            0 <= j < spec_fix(s, rules, list).len() ==> #[trigger] spec_fix(s, rules, list)[j]
                != SENTINEL,
{
    lemma_strip_sentinels_clean(
        spec_resolve(
            spec_headers(spec_lines(s).map_values(|l: Seq<char>| spec_trim(l)), list),
            rules,
            list,
        ),
    );
}

/// Whatever the rule table, a settings catalog with every kind present serves
/// every gate.
pub proof fn lemma_gates_present(rules: Seq<Rule>, list: Seq<Setting>)
    requires
        all_settings_present(list),
    ensures
        gates_present(rules, list),
{
    assert forall|k: int| 0 <= k < rules.len() implies gate_present(#[trigger] rules[k], list) by {
        match rules[k].setting {
            Option::None => {},
            Option::Some((kind, _value)) => {
                assert(spec_has_setting(list, kind));
            },
        }
    }
}

/// Empty input yields empty output, whatever the rule table and the settings:
/// the empty text has no lines, the extractor emits none, and the resolver of
/// no lines is the empty string.
pub proof fn lemma_fix_empty(rules: Seq<Rule>, list: Seq<Setting>)
    ensures
        spec_fix(Seq::<char>::empty(), rules, list) == Seq::<char>::empty(),
{
    let no_lines = Seq::<Seq<char>>::empty();
    assert(spec_lines(Seq::<char>::empty()) =~= no_lines);
    assert(no_lines.map_values(|l: Seq<char>| spec_trim(l)) =~= no_lines);
    assert(spec_headers(no_lines, list) =~= no_lines);
}

/// The reflow engine: the rule table and the settings it is gated by.
pub struct Textfixer {
    pub instring: String,
    pub outstring: String,
    pub ruleset: Vec<Rule>,
    pub settings: SettingList,
}

impl Default for Textfixer {
    /// The engine with the built-in rule table and default toggles, and no
    /// text yet.
    fn default() -> (r: Self)
        ensures
            r.instring@ == Seq::<char>::empty(),
            r.outstring@ == Seq::<char>::empty(),
            default_rules(r.ruleset@),
            default_settings(r.settings.list@),
            all_settings_present(r.settings.list@),
    {
        Self {
            instring: String::new(),
            outstring: String::new(),
            ruleset: ruleset(),
            settings: setting_list(),
        }
    }
}

impl Textfixer {
    /// Correct `instring`: a pure function of the text and the current
    /// settings snapshot. The result never holds the sentinel character.
    pub fn fix(&self, instring: &str) -> (r: String)
        requires
            all_settings_present(self.settings.list@),
        ensures
            r@ == spec_fix(instring@, self.ruleset@, self.settings.list@),
            forall|j: int| 0 <= j < r@.len() ==> #[trigger] r@[j] != SENTINEL,
    {
        let chars = str_chars(instring);
        let raw = split_lines(&chars);
        let n = raw.len();
        let mut lines: Vec<String> = Vec::new();
        let mut i: usize = 0;
        while i < n
            invariant
                0 <= i <= n,
                n == raw@.len(),
                str_views(lines@) == views(raw@).map_values(|l: Seq<char>| spec_trim(l)).take(
                    i as int,
                ),
            decreases n - i,
        {
            let t = trim_chars(&raw[i]);
            let ts = chars_string(&t);
            proof {
                assert(views(raw@)[i as int] == raw@[i as int]@);
                assert(str_views(lines@.push(ts)) =~= str_views(lines@).push(ts@));
                assert(views(raw@).map_values(|l: Seq<char>| spec_trim(l)).take(i + 1)
                    =~= views(raw@).map_values(|l: Seq<char>| spec_trim(l)).take(i as int).push(
                    spec_trim(raw@[i as int]@),
                ));
            }
            lines.push(ts);
            i = i + 1;
        }
        proof {
            let trimmed = views(raw@).map_values(|l: Seq<char>| spec_trim(l));
            assert(trimmed.take(n as int) =~= trimmed);
            headers::lemma_all_settings_are_header_settings(self.settings.list@);
            lemma_gates_present(self.ruleset@, self.settings.list@);
        }
        let tagged = headers::apply(&lines, &self.settings);
        let resolved = linebreaks::apply(&tagged, &self.ruleset, &self.settings);
        let rc = str_chars(resolved.as_str());
        let cleaned = strip_sentinel_chars(&rc);
        proof {
            lemma_fix_no_sentinel(instring@, self.ruleset@, self.settings.list@);
        }
        chars_string(&cleaned)
    }

    /// Store the raw text and recompute the corrected text, which never holds
    /// the sentinel character.
    pub fn set_string(&mut self, instring: &str)
        requires
            all_settings_present(old(self).settings.list@),
        ensures
            final(self).instring@ == instring@,
            final(self).outstring@ == spec_fix(
                instring@,
                old(self).ruleset@,
                old(self).settings.list@,
            ),
            forall|j: int|
                0 <= j < final(self).outstring@.len() ==> #[trigger] final(self).outstring@[j]
                    != SENTINEL,
            final(self).ruleset == old(self).ruleset,
            final(self).settings == old(self).settings,
    {
        let out = self.fix(instring);
        self.instring = instring.to_owned();
        self.outstring = out;
    }

    /// The last corrected text.
    pub fn get_string(&self) -> (r: &str)
        ensures
            r@ == self.outstring@,
    {
        self.outstring.as_str()
    }
}

} // verus!
