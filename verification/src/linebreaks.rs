//! The rule table and the line-break resolver. A rule pairs two character
//! predicates — on the character ending one line and the character starting
//! the next — with a merge policy and an optional gating toggle. The resolver
//! walks the line sequence once, left to right; at each boundary the first
//! eligible matching rule decides, and no rule matching means the break is
//! preserved verbatim.

use vstd::prelude::*;

use crate::defaults::SettingType;
use crate::settings::{spec_check, spec_has_setting, SettingList};
use crate::texthelpers::{
    chars_string, chars_suffix, extend_chars, filler_chars, match_matches, str_chars,
    Action, Filler, SymbolPredicate,
};

verus! {

/// One rule: an optional gate, the two boundary predicates, and the filler
/// inserted in place of the merged break.
#[derive(Clone, Debug)]
pub struct Rule {
    pub setting: Option<(SettingType, bool)>,
    pub previous: SymbolPredicate,
    pub following: SymbolPredicate,
    pub filler: Filler,
}

/// The views of the strings of a line list.
pub open spec fn str_views(s: Seq<String>) -> Seq<Seq<char>> {
    s.map_values(|l: String| l@)
}

/// The toggle that `r` is conditioned on, when there is one, has an entry in
/// the settings.
pub open spec fn gate_present(r: Rule, list: Seq<crate::settings::Setting>) -> bool {
    match r.setting {
        Option::None => true,
        Option::Some((kind, _value)) => spec_has_setting(list, kind),
    }
}

/// Every gated rule of the table has its gate's entry in the settings.
pub open spec fn gates_present(rules: Seq<Rule>, list: Seq<crate::settings::Setting>) -> bool {
    forall|k: int| 0 <= k < rules.len() ==> gate_present(#[trigger] rules[k], list)
}

impl Rule {
    /// Whether the rule is enabled under the current settings: no gate, or a
    /// gate whose setting has the required value.
    pub open spec fn spec_eligible(self, list: Seq<crate::settings::Setting>) -> bool {
        match self.setting {
            Option::None => true,
            Option::Some((kind, value)) => spec_check(list, kind) == value,
        }
    }

    /// Whether the rule's two predicates match the boundary characters.
    pub open spec fn spec_matches(self, previous: char, following: char) -> bool {
        match_matches(self.previous.symbol, previous) && match_matches(
            self.following.symbol,
            following,
        )
    }

    /// The merge of two lines under this rule: each boundary character is
    /// dropped if its predicate says so, and the filler joins the remainders.
    pub open spec fn spec_merge(self, left: Seq<char>, right: Seq<char>) -> Seq<char> {
        let l = if self.previous.on_match == Action::Remove && left.len() > 0 {
            left.drop_last()
        } else {
            left
        };
        let r = if self.following.on_match == Action::Remove && right.len() > 0 {
            right.skip(1)
        } else {
            right
        };
        l + filler_chars(self.filler) + r
    }

    pub fn matches(&self, previous: char, following: char) -> (r: bool)
        ensures
            r == self.spec_matches(previous, following),
    {
        self.previous.symbol.matches(previous) && self.following.symbol.matches(following)
    }

    /// Merge `left` and `right` per this rule.
    pub fn merge(&self, left: String, right: &str) -> (r: String)
        ensures
            r@ == self.spec_merge(left@, right@),
    {
        let lc = str_chars(left.as_str());
        let rc = str_chars(right);
        let out = merge_chars(self, lc, &rc);
        chars_string(&out)
    }
}

/// Merge two lines, given as character vectors, per `rule`.
pub fn merge_chars(rule: &Rule, left: Vec<char>, right: &Vec<char>) -> (r: Vec<char>)
    ensures
        r@ == rule.spec_merge(left@, right@),
{
    let ghost left0 = left@;
    let mut out = left;
    if rule.previous.on_match == Action::Remove {
        let _popped = out.pop();
        proof {
            if left0.len() > 0 {
                assert(out@ =~= left0.drop_last());
            }
        }
    }
    match &rule.filler {
        Filler::Empty => {},
        Filler::Space => out.push(' '),
        Filler::Linebreak => out.push('\n'),
        Filler::Exact(filler) => {
            let fc = str_chars(filler.as_str());
            extend_chars(&mut out, &fc);
        },
    }
    proof {
        assert(seq![' '] =~= Seq::empty().push(' '));
        assert(seq!['\n'] =~= Seq::empty().push('\n'));
    }
    if rule.following.on_match == Action::Remove && right.len() > 0 {
        let tail = chars_suffix(right, 1);
        extend_chars(&mut out, &tail);
    } else {
        extend_chars(&mut out, right);
    }
    proof {
        assert(out@ =~= rule.spec_merge(left0, right@));
    }
    out
}

/// The position of the first rule, from `i` on, that is eligible under the
/// settings and matches the boundary, or `rules.len()` if none is.
pub open spec fn first_match_from(
    rules: Seq<Rule>,
    list: Seq<crate::settings::Setting>,
    previous: char,
    following: char,
    i: int,
) -> int
    decreases rules.len() - i,
{
    if i < 0 || i >= rules.len() {
        rules.len() as int
    } else if rules[i].spec_eligible(list) && rules[i].spec_matches(previous, following) {
        i
    } else {
        first_match_from(rules, list, previous, following, i + 1)
    }
}

/// What one resolver step yields: `out` extended by the current line. An empty
/// line keeps its break; otherwise the first eligible matching rule merges,
/// and no match preserves the break verbatim.
pub open spec fn spec_step(
    out: Seq<char>,
    line: Seq<char>,
    rules: Seq<Rule>,
    list: Seq<crate::settings::Setting>,
) -> Seq<char> {
    if line.len() == 0 {
        out + seq!['\n'] + line
    } else {
        let previous = last_or_nul_of(out);
        let following = line[0];
        let k = first_match_from(rules, list, previous, following, 0);
        if k < rules.len() {
            rules[k].spec_merge(out, line)
        } else {
            out + seq!['\n'] + line
        }
    }
}

/// The last character of the output built so far, or NUL when it is empty.
pub open spec fn last_or_nul_of(s: Seq<char>) -> char {
    crate::texthelpers::last_or_nul(s)
}

/// The resolver's fold over the lines from position `i` on.
pub open spec fn spec_resolve_from(
    out: Seq<char>,
    lines: Seq<Seq<char>>,
    i: int,
    rules: Seq<Rule>,
    list: Seq<crate::settings::Setting>,
) -> Seq<char>
    decreases lines.len() - i,
{
    if i < 0 || i >= lines.len() {
        out
    } else {
        spec_resolve_from(spec_step(out, lines[i], rules, list), lines, i + 1, rules, list)
    }
}

/// The resolver: the first line seeds the output, every further line is
/// merged or appended by `spec_step`. Empty input yields empty output.
pub open spec fn spec_resolve(
    lines: Seq<Seq<char>>,
    rules: Seq<Rule>,
    list: Seq<crate::settings::Setting>,
) -> Seq<char> {
    if lines.len() == 0 {
        Seq::empty()
    } else {
        spec_resolve_from(lines[0], lines, 1, rules, list)
    }
}

/// The first-match position lies between `j` and the table's length, and when
/// it is in the table it names an eligible matching rule.
pub proof fn lemma_first_match_props(
    rules: Seq<Rule>,
    list: Seq<crate::settings::Setting>,
    previous: char,
    following: char,
    j: int,
)
    requires
        0 <= j <= rules.len(),
    ensures
        ({
            let fm = first_match_from(rules, list, previous, following, j);
            &&& j <= fm <= rules.len()
            &&& (fm < rules.len() ==> rules[fm].spec_eligible(list) && rules[fm].spec_matches(
                previous,
                following,
            ))
        }),
    decreases rules.len() - j,
{
    if j < rules.len() && !(rules[j].spec_eligible(list) && rules[j].spec_matches(
        previous,
        following,
    )) {
        lemma_first_match_props(rules, list, previous, following, j + 1);
    }
}

proof fn lemma_first_match_lands(
    rules: Seq<Rule>,
    list: Seq<crate::settings::Setting>,
    previous: char,
    following: char,
    j: int,
    k: int,
)
    requires
        0 <= j <= k < rules.len(),
        rules[k].spec_eligible(list) && rules[k].spec_matches(previous, following),
        forall|m: int|
            j <= m < k ==> !((#[trigger] rules[m]).spec_eligible(list) && rules[m].spec_matches(
                previous,
                following,
            )),
    ensures
        first_match_from(rules, list, previous, following, j) == k,
    decreases k - j,
{
    if j < k {
        lemma_first_match_lands(rules, list, previous, following, j + 1, k);
    }
}

/// Rule precedence: when two or more rules could decide the same boundary,
/// the earliest declared eligible matching rule wins — the resolver step is
/// exactly that rule's merge.
pub proof fn lemma_rule_precedence(
    out: Seq<char>,
    line: Seq<char>,
    rules: Seq<Rule>,
    list: Seq<crate::settings::Setting>,
    k: int,
)
    requires
        line.len() > 0,
        0 <= k < rules.len(),
        rules[k].spec_eligible(list),
        rules[k].spec_matches(last_or_nul_of(out), line[0]),
        forall|j: int|
            0 <= j < k ==> !((#[trigger] rules[j]).spec_eligible(list) && rules[j].spec_matches(
                last_or_nul_of(out),
                line[0],
            )),
    ensures
        spec_step(out, line, rules, list) == rules[k].spec_merge(out, line),
{
    lemma_first_match_lands(rules, list, last_or_nul_of(out), line[0], 0, k);
}

proof fn lemma_first_match_shift(
    rules: Seq<Rule>,
    list: Seq<crate::settings::Setting>,
    previous: char,
    following: char,
    k: int,
    j: int,
)
    requires
        0 <= k < rules.len(),
        k <= j <= rules.len() - 1,
    ensures
        first_match_from(rules.remove(k), list, previous, following, j) == first_match_from(
            rules,
            list,
            previous,
            following,
            j + 1,
        ) - 1,
    decreases rules.len() - j,
{
    let removed = rules.remove(k);
    if j < removed.len() {
        assert(removed[j] == rules[j + 1]);
        if !(removed[j].spec_eligible(list) && removed[j].spec_matches(previous, following)) {
            lemma_first_match_shift(rules, list, previous, following, k, j + 1);
        }
    }
}

proof fn lemma_first_match_remove(
    rules: Seq<Rule>,
    list: Seq<crate::settings::Setting>,
    previous: char,
    following: char,
    k: int,
    j: int,
)
    requires
        0 <= k < rules.len(),
        !(rules[k].spec_eligible(list) && rules[k].spec_matches(previous, following)),
        0 <= j <= k,
    ensures
        ({
            let fm = first_match_from(rules, list, previous, following, j);
            let fm2 = first_match_from(rules.remove(k), list, previous, following, j);
            if fm < k {
                fm2 == fm
            } else {
                fm2 == fm - 1
            }
        }),
    decreases k - j,
{
    let removed = rules.remove(k);
    if j == k {
        assert(first_match_from(rules, list, previous, following, j) == first_match_from(
            rules,
            list,
            previous,
            following,
            j + 1,
        ));
        lemma_first_match_props(rules, list, previous, following, j + 1);
        lemma_first_match_shift(rules, list, previous, following, k, j);
    } else {
        assert(removed[j] == rules[j]);
        if !(rules[j].spec_eligible(list) && rules[j].spec_matches(previous, following)) {
            lemma_first_match_remove(rules, list, previous, following, k, j + 1);
        }
    }
}

/// A disabled rule is skipped even when its predicates match: a rule whose
/// gate is not satisfied might as well not be in the table — the boundary
/// falls through to the next eligible matching rule, or to the preserved
/// break.
pub proof fn lemma_disabled_rule_skipped(
    out: Seq<char>,
    line: Seq<char>,
    rules: Seq<Rule>,
    list: Seq<crate::settings::Setting>,
    k: int,
)
    requires
        0 <= k < rules.len(),
        !rules[k].spec_eligible(list),
    ensures
        spec_step(out, line, rules, list) == spec_step(out, line, rules.remove(k), list),
{
    let removed = rules.remove(k);
    if line.len() > 0 {
        let previous = last_or_nul_of(out);
        let following = line[0];
        lemma_first_match_remove(rules, list, previous, following, k, 0);
        lemma_first_match_props(rules, list, previous, following, 0);
        let fm = first_match_from(rules, list, previous, following, 0);
        let fm2 = first_match_from(removed, list, previous, following, 0);
        if fm < rules.len() {
            if fm < k {
                assert(removed[fm] == rules[fm]);
            } else {
                assert(fm > k);
                assert(removed[fm - 1] == rules[fm]);
            }
        }
    }
}

/// Whether `rule` is enabled under the current settings.
fn eligible(rule: &Rule, settings: &SettingList) -> (r: bool)
    requires
        gate_present(*rule, settings.list@),
    ensures
        r == rule.spec_eligible(settings.list@),
{
    match &rule.setting {
        Option::None => true,
        Option::Some(gate) => settings.check(gate.0) == gate.1,
    }
}

/// The first eligible matching rule for the boundary `previous`/`following`,
/// or `rules.len()` when no rule applies.
fn find_rule(rules: &Vec<Rule>, settings: &SettingList, previous: char, following: char) -> (r:
    usize)
    requires
        gates_present(rules@, settings.list@),
    ensures
        r == first_match_from(rules@, settings.list@, previous, following, 0),
        r <= rules@.len(),
{
    let n = rules.len();
    let mut k: usize = 0;
    while k < n
        invariant
            0 <= k <= n,
            n == rules@.len(),
            gates_present(rules@, settings.list@),
            first_match_from(rules@, settings.list@, previous, following, 0) == first_match_from(
                rules@,
                settings.list@,
                previous,
                following,
                k as int,
            ),
        decreases n - k,
    {
        assert(gate_present(rules@[k as int], settings.list@));
        if eligible(&rules[k], settings) && rules[k].matches(previous, following) {
            return k;
        }
        k = k + 1;
    }
    k
}

/// One resolver step: extend `out` with `line`, merging by the first eligible
/// matching rule, or preserving the break.
fn resolve_step(out: Vec<char>, line: &Vec<char>, rules: &Vec<Rule>, settings: &SettingList) -> (r:
    Vec<char>)
    requires
        gates_present(rules@, settings.list@),
    ensures
        r@ == spec_step(out@, line@, rules@, settings.list@),
{
    let ghost out0 = out@;
    if line.len() == 0 {
        let mut r = out;
        r.push('\n');
        proof {
            assert(r@ =~= out0 + seq!['\n'] + line@);
        }
        r
    } else {
        let previous = crate::texthelpers::last_char(&out);
        let following = line[0];
        let k = find_rule(rules, settings, previous, following);
        if k < rules.len() {
            merge_chars(&rules[k], out, line)
        } else {
            let mut r = out;
            r.push('\n');
            extend_chars(&mut r, line);
            proof {
                assert(r@ =~= out0 + seq!['\n'] + line@);
            }
            r
        }
    }
}

/// Resolve every line break of `lines`: seed with the first line, then fold
/// `spec_step` over the rest, and return the single corrected string.
pub fn apply(lines: &Vec<String>, rules: &Vec<Rule>, settings: &SettingList) -> (r: String)
    requires
        gates_present(rules@, settings.list@),
    ensures
        r@ == spec_resolve(str_views(lines@), rules@, settings.list@),
{
    let n = lines.len();
    if n == 0 {
        let r = String::new();
        proof {
            assert(r@ =~= spec_resolve(str_views(lines@), rules@, settings.list@));
        }
        return r;
    }
    let mut out = str_chars(lines[0].as_str());
    let mut i: usize = 1;
    proof {
        assert(str_views(lines@)[0] == lines@[0]@);
    }
    while i < n
        invariant
            1 <= i <= n,
            n == lines@.len(),
            gates_present(rules@, settings.list@),
            spec_resolve_from(out@, str_views(lines@), i as int, rules@, settings.list@)
                == spec_resolve(str_views(lines@), rules@, settings.list@),
        decreases n - i,
    {
        let lc = str_chars(lines[i].as_str());
        proof {
            assert(str_views(lines@)[i as int] == lines@[i as int]@);
        }
        out = resolve_step(out, &lc, rules, settings);
        i = i + 1;
    }
    chars_string(&out)
}

} // verus!
