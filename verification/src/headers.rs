//! The heading and clarifier extractor. A forward pass recognizes multi-line
//! heading runs by a title-case heuristic, captures a parenthetical clarifier
//! when one follows, reformats both per the toggles, and re-emits them as
//! sentinel-tagged lines; a post-pass turns colon-delimited lead-ins into
//! formatted sub-labels.

use vstd::prelude::*;

use crate::defaults::{all_settings_present, SettingType, SENTINEL};
use crate::settings::{spec_check, spec_has_setting, Setting, SettingList};
use crate::texthelpers::{
    ascii_lower, ascii_upper, ascii_ws, chars_prefix, chars_suffix, extend_chars,
    find_char_from, find_from, first_char, first_or_nul, is_ascii_lower_char, is_ascii_upper_char,
    is_ascii_ws_char, join_sp, last_char, last_or_nul, lemma_views_push, str_chars, views,
};

verus! {

// ---------------------------------------------------------------------------
// The title-case heuristic.
// ---------------------------------------------------------------------------

/// The first ASCII-whitespace position in `s` at or after `i`, or `s.len()`.
pub open spec fn first_ws_from(s: Seq<char>, i: int) -> int
    decreases s.len() - i,
{
    if i < 0 || i >= s.len() {
        s.len() as int
    } else if is_ascii_ws_char(s[i]) {
        i
    } else {
        first_ws_from(s, i + 1)
    }
}

pub proof fn lemma_first_ws_from_bounds(s: Seq<char>, i: int)
    requires
        0 <= i <= s.len(),
    ensures
        i <= first_ws_from(s, i) <= s.len(),
    decreases s.len() - i,
{
    if i < s.len() && !is_ascii_ws_char(s[i]) {
        lemma_first_ws_from_bounds(s, i + 1);
    }
}

/// One word looks like part of a title: it starts with an ASCII uppercase
/// letter or is at most three characters long, and it ends with an ASCII
/// lowercase letter.
pub open spec fn word_ok(w: Seq<char>) -> bool {
    (is_ascii_upper_char(first_or_nul(w)) || w.len() <= 3) && is_ascii_lower_char(last_or_nul(w))
}

/// The title-case heuristic over the words of `s` from position `i` on: every
/// ASCII-whitespace-separated word passes `word_ok`. Vacuously true of a line
/// with no words.
pub open spec fn spec_all_caps_from(s: Seq<char>, i: int) -> bool
    decreases s.len() - i,
    via spec_all_caps_from_decreases
{
    if i < 0 || i >= s.len() {
        true
    } else if is_ascii_ws_char(s[i]) {
        spec_all_caps_from(s, i + 1)
    } else {
        let e = first_ws_from(s, i + 1);
        word_ok(s.subrange(i, e)) && spec_all_caps_from(s, e)
    }
}

#[via_fn]
proof fn spec_all_caps_from_decreases(s: Seq<char>, i: int) {
    if 0 <= i && i < s.len() && !is_ascii_ws_char(s[i]) {
        lemma_first_ws_from_bounds(s, i + 1);
    }
}

/// The title-case heuristic over the whole line.
pub open spec fn spec_all_caps(s: Seq<char>) -> bool {
    spec_all_caps_from(s, 0)
}

/// The first ASCII-whitespace position at or after `from`.
pub fn find_ws_from(s: &Vec<char>, from: usize) -> (r: usize)
    requires
        from <= s@.len(),
    ensures
        r == first_ws_from(s@, from as int),
        from <= r <= s@.len(),
{
    let n = s.len();
    let mut i = from;
    while i < n
        invariant
            from <= i <= n,
            n == s@.len(),
            first_ws_from(s@, from as int) == first_ws_from(s@, i as int),
        decreases n - i,
    {
        if ascii_ws(s[i]) {
            return i;
        }
        i = i + 1;
    }
    i
}

/// Whether every whitespace-separated word of `s` passes the title-case test.
pub fn all_caps(s: &Vec<char>) -> (r: bool)
    ensures
        r == spec_all_caps(s@),
{
    let n = s.len();
    let mut i: usize = 0;
    while i < n
        invariant
            0 <= i <= n,
            n == s@.len(),
            spec_all_caps(s@) == spec_all_caps_from(s@, i as int),
        decreases n - i,
    {
        if ascii_ws(s[i]) {
            i = i + 1;
        } else {
            let e = find_ws_from(s, i + 1);
            let ghost w = s@.subrange(i as int, e as int);
            proof {
                assert(w.len() == e - i);
                assert(first_or_nul(w) == s@[i as int]);
                assert(last_or_nul(w) == s@[e - 1]);
            }
            let ok = (ascii_upper(s[i]) || e - i <= 3) && ascii_lower(s[e - 1]);
            if !ok {
                return false;
            }
            i = e;
        }
    }
    true
}

// ---------------------------------------------------------------------------
// Heading-run growth and clarifier capture.
// ---------------------------------------------------------------------------

/// Grow a heading run. Starting from the working line `line` with the cursor
/// at `i` (the next unconsumed input line), absorb whole title-case lines into
/// the heading accumulator; a line with an opening parenthesis contributes its
/// part before the parenthesis and enters clarifier mode. Yields the heading
/// accumulator, the working line, the cursor, and whether clarifier mode was
/// entered.
pub open spec fn spec_grow(lines: Seq<Seq<char>>, i: int, line: Seq<char>, heading: Seq<char>) -> (
    Seq<char>,
    Seq<char>,
    int,
    bool,
)
    decreases lines.len() - i,
{
    let first = first_or_nul(line);
    let last = last_or_nul(line);
    if !(is_ascii_upper_char(first) && !(last == '.' || last == ',' || last == '!' || last == '?')) {
        (heading, line, i, false)
    } else {
        let k = find_from(line, '(', 0);
        if k < line.len() {
            let head = line.take(k);
            let tail = line.skip(k + 1);
            if spec_all_caps(head) {
                (join_sp(heading, head), tail, i, true)
            } else {
                (heading, line, i, false)
            }
        } else if spec_all_caps(line) {
            let h2 = join_sp(heading, line);
            if 0 <= i && i < lines.len() {
                spec_grow(lines, i + 1, lines[i], h2)
            } else {
                (h2, Seq::empty(), i, false)
            }
        } else {
            (heading, line, i, false)
        }
    }
}

pub proof fn lemma_grow_bounds(lines: Seq<Seq<char>>, i: int, line: Seq<char>, heading: Seq<char>)
    requires
        0 <= i <= lines.len(),
    ensures
        i <= spec_grow(lines, i, line, heading).2 <= lines.len(),
    decreases lines.len() - i,
{
    let first = first_or_nul(line);
    let last = last_or_nul(line);
    if is_ascii_upper_char(first) && !(last == '.' || last == ',' || last == '!' || last == '?') {
        let k = find_from(line, '(', 0);
        if !(k < line.len()) && spec_all_caps(line) && 0 <= i && i < lines.len() {
            lemma_grow_bounds(lines, i + 1, lines[i], join_sp(heading, line));
        }
    }
}

/// Capture a clarifier. When clarifier mode is on, the working line up to a
/// closing parenthesis becomes the clarifier; more than one character after
/// the closing parenthesis aborts the speculative extraction and rebuilds the
/// line as ordinary text; with no closing parenthesis the whole working line
/// becomes the clarifier and the next input line is pulled. Yields heading,
/// clarifier, working line, and the cursor.
pub open spec fn spec_clarify(
    lines: Seq<Seq<char>>,
    i: int,
    line: Seq<char>,
    heading: Seq<char>,
    clarifier: Seq<char>,
    in_clar: bool,
) -> (Seq<char>, Seq<char>, Seq<char>, int) {
    if !in_clar {
        (heading, clarifier, line, i)
    } else {
        let k = find_from(line, ')', 0);
        if k < line.len() {
            let clar = line.take(k);
            let tail = line.skip(k + 1);
            if tail.len() > 1 {
                (
                    Seq::empty(),
                    Seq::empty(),
                    heading + seq!['('] + clarifier + seq![')', ' '] + line,
                    i,
                )
            } else {
                (heading, join_sp(clarifier, clar), tail, i)
            }
        } else {
            let clar2 = join_sp(clarifier, line);
            if 0 <= i && i < lines.len() {
                (heading, clar2, lines[i], i + 1)
            } else {
                (heading, clar2, Seq::empty(), i)
            }
        }
    }
}

/// Copy a line.
fn clone_chars(src: &Vec<char>) -> (r: Vec<char>)
    ensures
        r@ == src@,
{
    let r = chars_suffix(src, 0);
    proof {
        assert(src@.skip(0) =~= src@);
    }
    r
}

/// Append a word to an accumulator, space-separated.
fn join_into(acc: &mut Vec<char>, word: &Vec<char>)
    ensures
        final(acc)@ == join_sp(old(acc)@, word@),
{
    if acc.len() == 0 {
        let w = clone_chars(word);
        *acc = w;
    } else {
        acc.push(' ');
        extend_chars(acc, word);
        proof {
            assert(old(acc)@ + seq![' '] + word@ =~= old(acc)@.push(' ') + word@);
        }
    }
}

/// Grow a heading run; executable mirror of `spec_grow` seeded with an empty
/// heading accumulator.
fn grow_head(lines: &Vec<Vec<char>>, i0: usize, line0: Vec<char>) -> (res: (
    Vec<char>,
    Vec<char>,
    usize,
    bool,
))
    requires
        i0 <= lines@.len(),
    ensures
        ({
            let (h, l, i2, clar) = spec_grow(views(lines@), i0 as int, line0@, Seq::empty());
            &&& res.0@ == h
            &&& res.1@ == l
            &&& res.2 as int == i2
            &&& res.3 == clar
        }),
        i0 <= res.2 <= lines@.len(),
{
    let ghost line0v = line0@;
    let mut heading: Vec<char> = Vec::new();
    let mut line = line0;
    let mut i = i0;
    let mut entered = false;
    loop
        invariant_except_break
            i0 <= i <= lines@.len(),
            !entered,
            spec_grow(views(lines@), i0 as int, line0v, Seq::empty()) == spec_grow(
                views(lines@),
                i as int,
                line@,
                heading@,
            ),
        ensures
            i0 <= i <= lines@.len(),
            spec_grow(views(lines@), i0 as int, line0v, Seq::empty()) == (
                heading@,
                line@,
                i as int,
                entered,
            ),
        decreases lines@.len() - i,
    {
        let ghost linev = line@;
        let ghost headingv = heading@;
        let first = first_char(&line);
        let last = last_char(&line);
        if !(ascii_upper(first) && !(last == '.' || last == ',' || last == '!' || last == '?')) {
            proof {
                assert(spec_grow(views(lines@), i as int, linev, headingv) == (
                    headingv,
                    linev,
                    i as int,
                    false,
                ));
            }
            break ;
        }
        let k = find_char_from(&line, '(', 0);
        if k < line.len() {
            let head = chars_prefix(&line, k);
            let tail = chars_suffix(&line, k + 1);
            if all_caps(&head) {
                proof {
                    assert(spec_grow(views(lines@), i as int, linev, headingv) == (
                        join_sp(headingv, linev.take(k as int)),
                        linev.skip(k + 1),
                        i as int,
                        true,
                    ));
                }
                join_into(&mut heading, &head);
                line = tail;
                entered = true;
                break ;
            } else {
                proof {
                    assert(spec_grow(views(lines@), i as int, linev, headingv) == (
                        headingv,
                        linev,
                        i as int,
                        false,
                    ));
                }
                break ;
            }
        } else if all_caps(&line) {
            join_into(&mut heading, &line);
            if i < lines.len() {
                proof {
                    assert(views(lines@)[i as int] == lines@[i as int]@);
                    assert(spec_grow(views(lines@), i as int, linev, headingv) == spec_grow(
                        views(lines@),
                        i + 1,
                        views(lines@)[i as int],
                        join_sp(headingv, linev),
                    ));
                }
                line = clone_chars(&lines[i]);
                i = i + 1;
            } else {
                proof {
                    assert(spec_grow(views(lines@), i as int, linev, headingv) == (
                        join_sp(headingv, linev),
                        Seq::<char>::empty(),
                        i as int,
                        false,
                    ));
                }
                line = Vec::new();
                break ;
            }
        } else {
            proof {
                assert(spec_grow(views(lines@), i as int, linev, headingv) == (
                    headingv,
                    linev,
                    i as int,
                    false,
                ));
            }
            break ;
        }
    }
    (heading, line, i, entered)
}

/// Capture a clarifier; executable mirror of `spec_clarify` seeded with an
/// empty clarifier accumulator.
fn clarify(
    lines: &Vec<Vec<char>>,
    i0: usize,
    line0: Vec<char>,
    heading0: Vec<char>,
    in_clar: bool,
) -> (res: (Vec<char>, Vec<char>, Vec<char>, usize))
    requires
        i0 <= lines@.len(),
    ensures
        ({
            let (h, c, l, i2) = spec_clarify(
                views(lines@),
                i0 as int,
                line0@,
                heading0@,
                Seq::empty(),
                in_clar,
            );
            &&& res.0@ == h
            &&& res.1@ == c
            &&& res.2@ == l
            &&& res.3 as int == i2
        }),
        i0 <= res.3 <= lines@.len(),
{
    let ghost line0v = line0@;
    let ghost heading0v = heading0@;
    if !in_clar {
        return (heading0, Vec::new(), line0, i0);
    }
    let k = find_char_from(&line0, ')', 0);
    if k < line0.len() {
        let clar = chars_prefix(&line0, k);
        let tail = chars_suffix(&line0, k + 1);
        if tail.len() > 1 {
            let mut rebuilt = heading0;
            rebuilt.push('(');
            rebuilt.push(')');
            rebuilt.push(' ');
            extend_chars(&mut rebuilt, &line0);
            proof {
                assert(rebuilt@ =~= heading0v + seq!['('] + Seq::<char>::empty() + seq![')', ' ']
                    + line0v);
            }
            (Vec::new(), Vec::new(), rebuilt, i0)
        } else {
            let mut clarifier: Vec<char> = Vec::new();
            join_into(&mut clarifier, &clar);
            (heading0, clarifier, tail, i0)
        }
    } else {
        let mut clarifier: Vec<char> = Vec::new();
        join_into(&mut clarifier, &line0);
        if i0 < lines.len() {
            let nl = clone_chars(&lines[i0]);
            proof {
                assert(views(lines@)[i0 as int] == lines@[i0 as int]@);
            }
            (heading0, clarifier, nl, i0 + 1)
        } else {
            (heading0, clarifier, Vec::new(), i0)
        }
    }
}

// ---------------------------------------------------------------------------
// Formatting and emission.
// ---------------------------------------------------------------------------

/// What the diacritics crate's transliteration returns for a given character
/// sequence: accented and decorated letters replaced by plain ASCII ones.
pub uninterp spec fn strip_diacritics(s: Seq<char>) -> Seq<char>;

/// Relies on diacritics::remove_diacritics: a character-by-character
/// transliteration, so the result depends on the input characters alone, and
/// a fold over no characters yields the empty string.
#[verifier::external_body]
fn remove_diacritics_chars(s: &Vec<char>) -> (r: Vec<char>)
    ensures
        r@ == strip_diacritics(s@),
        s@.len() == 0 ==> r@.len() == 0,
{
    let plain: String = s.iter().collect();
    diacritics::remove_diacritics(&plain).chars().collect()
}

/// Every typographic apostrophe replaced by a space.
pub open spec fn replace_apos(s: Seq<char>) -> Seq<char> {
    s.map_values(|c: char| if c == '\u{2019}' { ' ' } else { c })
}

fn replace_apos_chars(s: &Vec<char>) -> (r: Vec<char>)
    ensures
        r@ == replace_apos(s@),
{
    let n = s.len();
    let mut r: Vec<char> = Vec::new();
    let mut j: usize = 0;
    while j < n
        invariant
            0 <= j <= n,
            n == s@.len(),
            r@ == replace_apos(s@.take(j as int)),
        decreases n - j,
    {
        let c = s[j];
        if c == '\u{2019}' {
            r.push(' ');
        } else {
            r.push(c);
        }
        proof {
            assert(r@ =~= replace_apos(s@.take(j + 1)));
        }
        j = j + 1;
    }
    proof {
        assert(s@.take(n as int) =~= s@);
    }
    r
}

/// One leading opening parenthesis removed, if present.
pub open spec fn strip_one_paren(s: Seq<char>) -> Seq<char> {
    if s.len() > 0 && s[0] == '(' {
        s.skip(1)
    } else {
        s
    }
}

/// Format the finished heading and clarifier per the toggles and emit, in
/// order: the heading with a trailing sentinel if non-empty, the clarifier
/// with a trailing sentinel if non-empty, and the remaining working line if
/// non-empty.
pub open spec fn spec_finish(
    heading: Seq<char>,
    clarifier: Seq<char>,
    line: Seq<char>,
    list: Seq<Setting>,
) -> Seq<Seq<char>> {
    let c1 = strip_one_paren(clarifier);
    let h2 = if spec_check(list, SettingType::SimplifiedHeadings) {
        replace_apos(strip_diacritics(heading))
    } else {
        heading
    };
    let c2 = if spec_check(list, SettingType::SimplifiedHeadings) {
        replace_apos(strip_diacritics(c1))
    } else {
        c1
    };
    let h3 = if !spec_check(list, SettingType::SeparateHeadingClarifiers) && c2.len() > 0 {
        h2 + seq!['('] + c2 + seq![')']
    } else {
        h2
    };
    let c3 = if !spec_check(list, SettingType::SeparateHeadingClarifiers) && c2.len() > 0 {
        Seq::<char>::empty()
    } else {
        c2
    };
    let h4 = if spec_check(list, SettingType::MarkdownSectionHeadings) && h3.len() > 0 {
        seq!['#', ' '] + h3
    } else {
        h3
    };
    let c4 = if spec_check(list, SettingType::MarkdownSectionHeadings) && h3.len() > 0 && c3.len()
        > 0 {
        seq!['*', '*'] + c3 + seq!['*', '*']
    } else {
        c3
    };
    let out1: Seq<Seq<char>> = if h4.len() > 0 {
        seq![h4.push(SENTINEL)]
    } else {
        Seq::empty()
    };
    let out2: Seq<Seq<char>> = if c4.len() > 0 {
        seq![c4.push(SENTINEL)]
    } else {
        Seq::empty()
    };
    let out3: Seq<Seq<char>> = if line.len() > 0 {
        seq![line]
    } else {
        Seq::empty()
    };
    out1 + out2 + out3
}

/// The settings the extractor reads.
pub open spec fn heading_settings_present(list: Seq<Setting>) -> bool {
    &&& spec_has_setting(list, SettingType::SimplifiedHeadings)
    &&& spec_has_setting(list, SettingType::SeparateHeadingClarifiers)
    &&& spec_has_setting(list, SettingType::MarkdownSectionHeadings)
}

/// Executable mirror of `spec_finish`: formats and pushes onto `out`.
fn finish_heading(
    heading: Vec<char>,
    clarifier: Vec<char>,
    line: Vec<char>,
    settings: &SettingList,
    out: &mut Vec<Vec<char>>,
)
    requires
        heading_settings_present(settings.list@),
    ensures
        views(final(out)@) == views(old(out)@) + spec_finish(
            heading@,
            clarifier@,
            line@,
            settings.list@,
        ),
{
    let ghost headingv = heading@;
    let ghost clarifierv = clarifier@;
    let ghost linev = line@;
    let mut heading = heading;
    let mut clarifier = clarifier;

    // Defensive trim: one leading opening parenthesis.
    if clarifier.len() > 0 && clarifier[0] == '(' {
        clarifier = chars_suffix(&clarifier, 1);
    }
    proof {
        assert(clarifier@ == strip_one_paren(clarifierv));
    }

    if settings.check(SettingType::SimplifiedHeadings) {
        heading = replace_apos_chars(&remove_diacritics_chars(&heading));
        clarifier = replace_apos_chars(&remove_diacritics_chars(&clarifier));
    }

    if !settings.check(SettingType::SeparateHeadingClarifiers) && clarifier.len() > 0 {
        let ghost h2 = heading@;
        let ghost c2 = clarifier@;
        heading.push('(');
        extend_chars(&mut heading, &clarifier);
        heading.push(')');
        clarifier = Vec::new();
        proof {
            assert(heading@ =~= h2 + seq!['('] + c2 + seq![')']);
        }
    }

    if settings.check(SettingType::MarkdownSectionHeadings) && heading.len() > 0 {
        let ghost h3 = heading@;
        let mut h: Vec<char> = Vec::new();
        h.push('#');
        h.push(' ');
        extend_chars(&mut h, &heading);
        proof {
            assert(h@ =~= seq!['#', ' '] + h3);
        }
        heading = h;
        if clarifier.len() > 0 {
            let ghost c3 = clarifier@;
            let mut c: Vec<char> = Vec::new();
            c.push('*');
            c.push('*');
            extend_chars(&mut c, &clarifier);
            c.push('*');
            c.push('*');
            proof {
                assert(c@ =~= seq!['*', '*'] + c3 + seq!['*', '*']);
            }
            clarifier = c;
        }
    }

    let ghost outv = out@;
    if heading.len() > 0 {
        heading.push(SENTINEL);
        proof {
            lemma_views_push(out@, heading);
        }
        out.push(heading);
    }
    let ghost outv1 = out@;
    if clarifier.len() > 0 {
        clarifier.push(SENTINEL);
        proof {
            lemma_views_push(out@, clarifier);
        }
        out.push(clarifier);
    }
    let ghost outv2 = out@;
    if line.len() > 0 {
        proof {
            lemma_views_push(out@, line);
        }
        out.push(line);
    }
    proof {
        assert(views(out@) =~= views(outv) + spec_finish(
            headingv,
            clarifierv,
            linev,
            settings.list@,
        ));
    }
}

// ---------------------------------------------------------------------------
// The extractor pass.
// ---------------------------------------------------------------------------

/// Process one input position: a line that does not start with an ASCII
/// uppercase letter passes through unchanged; otherwise a heading run is
/// grown, a clarifier captured, and both formatted and emitted. Yields the
/// emitted lines and the next unconsumed position.
pub open spec fn spec_process(lines: Seq<Seq<char>>, i: int, list: Seq<Setting>) -> (
    Seq<Seq<char>>,
    int,
) {
    let line = lines[i];
    if !is_ascii_upper_char(first_or_nul(line)) {
        (seq![line], i + 1)
    } else {
        let (h1, line1, i1, grown_clar) = spec_grow(lines, i + 1, line, Seq::empty());
        let in_clar = grown_clar || first_or_nul(line1) == '(';
        let (h2, c2, line2, i2) = spec_clarify(lines, i1, line1, h1, Seq::empty(), in_clar);
        (spec_finish(h2, c2, line2, list), i2)
    }
}

pub proof fn lemma_process_bounds(lines: Seq<Seq<char>>, i: int, list: Seq<Setting>)
    requires
        0 <= i < lines.len(),
    ensures
        i < spec_process(lines, i, list).1 <= lines.len(),
{
    let line = lines[i];
    if is_ascii_upper_char(first_or_nul(line)) {
        lemma_grow_bounds(lines, i + 1, line, Seq::empty());
    }
}

/// The extractor over the input lines from position `i` on.
pub open spec fn spec_headings_from(lines: Seq<Seq<char>>, i: int, list: Seq<Setting>) -> Seq<
    Seq<char>,
>
    decreases lines.len() - i,
    via spec_headings_from_decreases
{
    if i < 0 || i >= lines.len() {
        Seq::empty()
    } else {
        let pr = spec_process(lines, i, list);
        pr.0 + spec_headings_from(lines, pr.1, list)
    }
}

#[via_fn]
proof fn spec_headings_from_decreases(lines: Seq<Seq<char>>, i: int, list: Seq<Setting>) {
    if 0 <= i && i < lines.len() {
        lemma_process_bounds(lines, i, list);
    }
}

/// The extractor over the whole input.
pub open spec fn spec_headings(lines: Seq<Seq<char>>, list: Seq<Setting>) -> Seq<Seq<char>> {
    spec_headings_from(lines, 0, list)
}

/// Executable extractor pass over lines of characters.
fn headings_chars(lines: &Vec<Vec<char>>, settings: &SettingList) -> (out: Vec<Vec<char>>)
    requires
        heading_settings_present(settings.list@),
    ensures
        views(out@) == spec_headings(views(lines@), settings.list@),
{
    let n = lines.len();
    let mut out: Vec<Vec<char>> = Vec::new();
    let mut i: usize = 0;
    while i < n
        invariant
            0 <= i <= n,
            n == lines@.len(),
            heading_settings_present(settings.list@),
            views(out@) + spec_headings_from(views(lines@), i as int, settings.list@)
                == spec_headings(views(lines@), settings.list@),
        decreases n - i,
    {
        let ghost outv = views(out@);
        let ghost iv = i as int;
        let line = clone_chars(&lines[i]);
        proof {
            assert(views(lines@)[iv] == lines@[iv]@);
        }
        if !ascii_upper(first_char(&line)) {
            proof {
                lemma_views_push(out@, line);
                assert(spec_process(views(lines@), iv, settings.list@) == (
                    seq![line@],
                    iv + 1,
                ));
                assert(outv + seq![line@] =~= outv.push(line@));
            }
            out.push(line);
            i = i + 1;
        } else {
            let (h1, line1, i1, grown_clar) = grow_head(lines, i + 1, line);
            let in_clar = grown_clar || first_char(&line1) == '(';
            let (h2, c2, line2, i2) = clarify(lines, i1, line1, h1, in_clar);
            finish_heading(h2, c2, line2, settings, &mut out);
            proof {
                lemma_process_bounds(views(lines@), iv, settings.list@);
            }
            i = i2;
        }
        proof {
            assert(views(out@) + spec_headings_from(views(lines@), i as int, settings.list@)
                =~= spec_headings(views(lines@), settings.list@));
        }
    }
    out
}

// ---------------------------------------------------------------------------
// The sub-label post-pass.
// ---------------------------------------------------------------------------

/// One line of the sub-label post-pass. The part before the first colon, when
/// it starts with a bullet or passes the title-case heuristic, is rewritten as
/// a dashed, optionally emphasized lead-in; a line without a colon, or with a
/// lead-in that qualifies as neither, is unchanged.
pub open spec fn spec_subline(line: Seq<char>, list: Seq<Setting>) -> Seq<char> {
    let k = find_from(line, ':', 0);
    if k >= line.len() {
        line
    } else {
        let front = line.take(k);
        let back = line.skip(k + 1);
        let markdown = spec_check(list, SettingType::MarkdownSubheadings);
        if first_or_nul(front) == '\u{2022}' {
            let f1 = seq!['-', ' '] + front + seq![':'];
            let f2 = if markdown {
                seq!['*', '*'] + f1 + seq!['*', '*']
            } else {
                f1
            };
            f2 + back
        } else if spec_all_caps(front) {
            if markdown {
                seq!['*', '*', '-', ' '] + front + seq![':', '*', '*'] + back
            } else {
                front + back
            }
        } else {
            line
        }
    }
}

/// The post-pass over every line.
pub open spec fn spec_subheadings(lines: Seq<Seq<char>>, list: Seq<Setting>) -> Seq<Seq<char>> {
    lines.map_values(|l: Seq<char>| spec_subline(l, list))
}

/// Executable mirror of `spec_subline`.
fn subline_chars(line: Vec<char>, settings: &SettingList) -> (r: Vec<char>)
    requires
        spec_has_setting(settings.list@, SettingType::MarkdownSubheadings),
    ensures
        r@ == spec_subline(line@, settings.list@),
{
    let ghost linev = line@;
    let k = find_char_from(&line, ':', 0);
    if k >= line.len() {
        return line;
    }
    let front = chars_prefix(&line, k);
    let back = chars_suffix(&line, k + 1);
    let markdown = settings.check(SettingType::MarkdownSubheadings);
    if first_char(&front) == '\u{2022}' {
        let mut f: Vec<char> = Vec::new();
        if markdown {
            f.push('*');
            f.push('*');
        }
        f.push('-');
        f.push(' ');
        extend_chars(&mut f, &front);
        f.push(':');
        if markdown {
            f.push('*');
            f.push('*');
        }
        extend_chars(&mut f, &back);
        proof {
            if markdown {
                assert(f@ =~= seq!['*', '*'] + (seq!['-', ' '] + linev.take(k as int) + seq![':'])
                    + seq!['*', '*'] + linev.skip(k + 1));
            } else {
                assert(f@ =~= seq!['-', ' '] + linev.take(k as int) + seq![':'] + linev.skip(
                    k + 1,
                ));
            }
        }
        f
    } else if all_caps(&front) {
        if markdown {
            let mut f: Vec<char> = Vec::new();
            f.push('*');
            f.push('*');
            f.push('-');
            f.push(' ');
            extend_chars(&mut f, &front);
            f.push(':');
            f.push('*');
            f.push('*');
            extend_chars(&mut f, &back);
            proof {
                assert(f@ =~= seq!['*', '*', '-', ' '] + linev.take(k as int) + seq![':', '*', '*']
                    + linev.skip(k + 1));
            }
            f
        } else {
            let mut f = front;
            extend_chars(&mut f, &back);
            f
        }
    } else {
        line
    }
}

/// Executable post-pass over lines of characters.
fn subheadings_chars(lines: &Vec<Vec<char>>, settings: &SettingList) -> (out: Vec<Vec<char>>)
    requires
        spec_has_setting(settings.list@, SettingType::MarkdownSubheadings),
    ensures
        views(out@) == spec_subheadings(views(lines@), settings.list@),
{
    let n = lines.len();
    let mut out: Vec<Vec<char>> = Vec::new();
    let mut i: usize = 0;
    while i < n
        invariant
            0 <= i <= n,
            n == lines@.len(),
            spec_has_setting(settings.list@, SettingType::MarkdownSubheadings),
            views(out@) == spec_subheadings(views(lines@), settings.list@).take(i as int),
        decreases n - i,
    {
        let line = clone_chars(&lines[i]);
        proof {
            assert(views(lines@)[i as int] == lines@[i as int]@);
        }
        let nl = subline_chars(line, settings);
        proof {
            lemma_views_push(out@, nl);
            assert(spec_subheadings(views(lines@), settings.list@).take(i + 1)
                =~= spec_subheadings(views(lines@), settings.list@).take(i as int).push(nl@));
        }
        out.push(nl);
        i = i + 1;
    }
    proof {
        assert(spec_subheadings(views(lines@), settings.list@).take(n as int)
            =~= spec_subheadings(views(lines@), settings.list@));
    }
    out
}

// ---------------------------------------------------------------------------
// The public pass.
// ---------------------------------------------------------------------------

/// Both extractor stages: headings, then sub-labels.
pub open spec fn spec_headers(lines: Seq<Seq<char>>, list: Seq<Setting>) -> Seq<Seq<char>> {
    spec_subheadings(spec_headings(lines, list), list)
}

/// The settings the two passes read together.
pub open spec fn header_settings_present(list: Seq<Setting>) -> bool {
    heading_settings_present(list) && spec_has_setting(list, SettingType::MarkdownSubheadings)
}

pub proof fn lemma_all_settings_are_header_settings(list: Seq<Setting>)
    requires
        all_settings_present(list),
    ensures
        header_settings_present(list),
{
}

/// Run the extractor: recognize heading runs and clarifiers, re-emit them as
/// sentinel-tagged lines, then format colon-delimited lead-ins.
pub fn apply(lines: &Vec<String>, settings: &SettingList) -> (out: Vec<String>)
    requires
        header_settings_present(settings.list@),
    ensures
        crate::linebreaks::str_views(out@) == spec_headers(
            crate::linebreaks::str_views(lines@),
            settings.list@,
        ),
{
    let n = lines.len();
    let mut linesc: Vec<Vec<char>> = Vec::new();
    let mut i: usize = 0;
    while i < n
        invariant
            0 <= i <= n,
            n == lines@.len(),
            views(linesc@) == crate::linebreaks::str_views(lines@).take(i as int),
        decreases n - i,
    {
        let lc = str_chars(lines[i].as_str());
        proof {
            lemma_views_push(linesc@, lc);
            assert(crate::linebreaks::str_views(lines@).take(i + 1)
                =~= crate::linebreaks::str_views(lines@).take(i as int).push(lines@[i as int]@));
        }
        linesc.push(lc);
        i = i + 1;
    }
    proof {
        assert(crate::linebreaks::str_views(lines@).take(n as int)
            =~= crate::linebreaks::str_views(lines@));
    }
    let tagged = headings_chars(&linesc, settings);
    let formatted = subheadings_chars(&tagged, settings);
    let m = formatted.len();
    let mut out: Vec<String> = Vec::new();
    let mut j: usize = 0;
    while j < m
        invariant
            0 <= j <= m,
            m == formatted@.len(),
            crate::linebreaks::str_views(out@) == views(formatted@).take(j as int),
        decreases m - j,
    {
        let s = crate::texthelpers::chars_string(&formatted[j]);
        proof {
            assert(crate::linebreaks::str_views(out@.push(s)) =~= crate::linebreaks::str_views(
                out@,
            ).push(s@));
            assert(views(formatted@).take(j + 1) =~= views(formatted@).take(j as int).push(
                formatted@[j as int]@,
            ));
        }
        out.push(s);
        j = j + 1;
    }
    proof {
        assert(views(formatted@).take(m as int) =~= views(formatted@));
    }
    out
}

} // verus!
