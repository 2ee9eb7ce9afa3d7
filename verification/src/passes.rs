//! The passes over a text, and the pipeline that runs them in order.
//!
//! The engine rewrites the text, and every text that it returns is held against what the
//! rule is stated to give before it is handed on.

use crate::engine::{regex_accepts, regex_replaced, replace_all, ShorthandError};
use crate::rewrite::{
    chars_of, is_whitespace, lemma_no_whitespace_no_change,
    lemma_rewrite_keeps_what_is_no_letter, not_letters, rewrite, rule_rewritten, same_chars,
};
use crate::rules::{
    pattern_text, rule_plain, rule_texts, template_text, Anchor, Rule, RuleText,
};
use crate::tables::{
    cleanup_entry, cleanup_rule, lemma_cleanup_rule_is_plain, lemma_suffix_rules_are_a_rule_set,
    lemma_trailing_rules_are_a_rule_set, lemma_word_rules_are_a_rule_set, suffix_rules,
    suffix_table, trailing_rules, trailing_table, word_rules, word_table,
};
use vstd::prelude::*;

verus! {

/// Whether the engine compiles the pattern of a rule.
pub open spec fn rule_accepted(anchor: Anchor, rule: RuleText) -> bool {
    regex_accepts(pattern_text(anchor, rule.stem))
}

/// The text that the engine returns for a rule.
pub open spec fn engine_text(text: Seq<char>, anchor: Anchor, rule: RuleText) -> Seq<char> {
    regex_replaced(
        pattern_text(anchor, rule.stem),
        text,
        template_text(anchor, rule.replacement),
    )
}

/// What applying one rule gives: the rewritten text where the engine compiles the pattern
/// and returns that text, and the error otherwise.
pub open spec fn rule_outcome(text: Seq<char>, anchor: Anchor, rule: RuleText) -> Result<
    Seq<char>,
    ShorthandError,
> {
    if !rule_accepted(anchor, rule) {
        Err(ShorthandError::PatternRejected)
    } else if engine_text(text, anchor, rule) != rule_rewritten(text, anchor, rule) {
        Err(ShorthandError::EngineDisagrees)
    } else {
        Ok(rule_rewritten(text, anchor, rule))
    }
}

/// What follows an outcome: the next step on the text of a success, the same error after
/// an error.
pub open spec fn and_rule(
    before: Result<Seq<char>, ShorthandError>,
    anchor: Anchor,
    rule: RuleText,
) -> Result<Seq<char>, ShorthandError> {
    match before {
        Ok(text) => rule_outcome(text, anchor, rule),
        Err(e) => Err(e),
    }
}

/// What applying each of `rules` in turn gives, first to last, each over the whole of
/// what the rules before it left; the first error ends it.
pub open spec fn rules_outcome(text: Seq<char>, anchor: Anchor, rules: Seq<RuleText>) -> Result<
    Seq<char>,
    ShorthandError,
>
    decreases rules.len(),
{
    if rules.len() == 0 {
        Ok(text)
    } else {
        and_rule(rules_outcome(text, anchor, rules.drop_last()), anchor, rules.last())
    }
}

/// What follows an outcome when a whole table is applied to it.
pub open spec fn and_rules(
    before: Result<Seq<char>, ShorthandError>,
    anchor: Anchor,
    rules: Seq<RuleText>,
) -> Result<Seq<char>, ShorthandError> {
    match before {
        Ok(text) => rules_outcome(text, anchor, rules),
        Err(e) => Err(e),
    }
}

/// The text after each of `rules` in turn, first to last, has rewritten the whole of
/// what the rules before it left.
pub open spec fn rules_rewritten(text: Seq<char>, anchor: Anchor, rules: Seq<RuleText>) -> Seq<
    char,
>
    decreases rules.len(),
{
    if rules.len() == 0 {
        text
    } else {
        rule_rewritten(rules_rewritten(text, anchor, rules.drop_last()), anchor, rules.last())
    }
}

/// The text after the double-s repair.
pub open spec fn cleanup_text(text: Seq<char>) -> Seq<char> {
    rule_rewritten(text, Anchor::Anywhere, cleanup_rule())
}

/// The text after the trailing-letter pass and the repair that belongs to it.
pub open spec fn trailing_text(text: Seq<char>) -> Seq<char> {
    cleanup_text(rules_rewritten(text, Anchor::Anywhere, trailing_rules()))
}

/// The text after the suffix pass.
pub open spec fn suffix_text(text: Seq<char>) -> Seq<char> {
    rules_rewritten(text, Anchor::Anywhere, suffix_rules())
}

/// The text after the word pass.
pub open spec fn word_text(text: Seq<char>) -> Seq<char> {
    rules_rewritten(text, Anchor::AfterWhitespace, word_rules())
}

/// The shorthand of a text: trailing letters, repair, suffixes, words, in that order,
/// each pass reading what the pass before it wrote.
pub open spec fn shorthand_text(text: Seq<char>) -> Seq<char> {
    word_text(suffix_text(trailing_text(text)))
}

/// What the trailing-letter pass and its repair give.
pub open spec fn trailing_outcome(text: Seq<char>) -> Result<Seq<char>, ShorthandError> {
    and_rule(
        rules_outcome(text, Anchor::Anywhere, trailing_rules()),
        Anchor::Anywhere,
        cleanup_rule(),
    )
}

/// What the whole pipeline gives.
pub open spec fn shorthand_outcome(text: Seq<char>) -> Result<Seq<char>, ShorthandError> {
    and_rules(
        and_rules(trailing_outcome(text), Anchor::Anywhere, suffix_rules()),
        Anchor::AfterWhitespace,
        word_rules(),
    )
}

/// An executable result, its text taken as a sequence of characters.
pub open spec fn outcome_of(r: Result<String, ShorthandError>) -> Result<
    Seq<char>,
    ShorthandError,
> {
    match r {
        Ok(text) => Ok(text@),
        Err(e) => Err(e),
    }
}

/// Once a rule has failed, the rules after it change nothing.
pub proof fn lemma_failure_stays(text: Seq<char>, anchor: Anchor, rules: Seq<RuleText>, k: int)
    requires
        0 <= k <= rules.len(),
        rules_outcome(text, anchor, rules.take(k)) is Err,
    ensures
        rules_outcome(text, anchor, rules) == rules_outcome(text, anchor, rules.take(k)),
    decreases rules.len() - k,
{
    if k < rules.len() {
        assert(rules.take(k + 1).drop_last() =~= rules.take(k));
        lemma_failure_stays(text, anchor, rules, k + 1);
    } else {
        assert(rules.take(k) =~= rules);
    }
}

/// Where a table succeeds, its text is the text that the rules are stated to give.
pub proof fn lemma_success_is_rewritten(text: Seq<char>, anchor: Anchor, rules: Seq<RuleText>)
    ensures
        rules_outcome(text, anchor, rules) matches Ok(out) ==> out == rules_rewritten(
            text,
            anchor,
            rules,
        ),
    decreases rules.len(),
{
    if rules.len() > 0 {
        lemma_success_is_rewritten(text, anchor, rules.drop_last());
    }
}

/// Holds the text that the engine returned for a rule against what the rule is stated to
/// give, and hands it on where the two are one text.
pub fn confirm_rewrite(text: &str, rule: &Rule, anchor: Anchor, found: String) -> (r: Result<
    String,
    ShorthandError,
>)
    ensures
        found@ == rule_rewritten(text@, anchor, rule@) ==> r == Ok::<String, ShorthandError>(
            found,
        ),
        found@ != rule_rewritten(text@, anchor, rule@) ==> r == Err::<String, ShorthandError>(
            ShorthandError::EngineDisagrees,
        ),
{
    let chars = chars_of(text);
    let stem = chars_of(rule.stem);
    let replacement = chars_of(rule.replacement);
    let stated = rewrite(&chars, anchor, &stem, &replacement);
    let got = chars_of(found.as_str());
    if same_chars(&stated, &got) {
        Ok(found)
    } else {
        Err(ShorthandError::EngineDisagrees)
    }
}

/// Rewrites every match of one rule in `text`.
pub fn apply_rule(text: &str, rule: &Rule, anchor: Anchor) -> (r: Result<String, ShorthandError>)
    ensures
        outcome_of(r) == rule_outcome(text@, anchor, rule@),
{
    let pattern = rule.pattern(anchor);
    let template = rule.template(anchor);
    match replace_all(pattern.as_str(), text, template.as_str()) {
        Ok(found) => confirm_rewrite(text, rule, anchor, found),
        Err(e) => Err(e),
    }
}

/// Applies each rule in turn, first to last, as a scan of its own over the whole of the
/// text that the rules before it left. The first rule that fails ends the pass.
pub fn pattern_replacement(contents: String, replacements: &Vec<Rule>, anchor: Anchor) -> (r:
    Result<String, ShorthandError>)
    ensures
        outcome_of(r) == rules_outcome(contents@, anchor, rule_texts(replacements@)),
        r matches Ok(out) ==> out@ == rules_rewritten(
            contents@,
            anchor,
            rule_texts(replacements@),
        ),
{
    let ghost text = contents@;
    let ghost rules = rule_texts(replacements@);
    let mut result = contents;
    let mut i: usize = 0;
    while i < replacements.len()
        invariant
            i <= replacements.len(),
            text == contents@,
            rules == rule_texts(replacements@),
            rules_outcome(text, anchor, rules.take(i as int)) == Ok::<Seq<char>, ShorthandError>(
                result@,
            ),
        decreases replacements.len() - i,
    {
        proof {
            assert(rules[i as int] == replacements@[i as int]@);
            assert(rules.take(i + 1).drop_last() =~= rules.take(i as int));
            assert(rules.take(i + 1).last() == rules[i as int]);
            assert(rules_outcome(text, anchor, rules.take(i + 1)) == rule_outcome(
                result@,
                anchor,
                rules[i as int],
            ));
        }
        match apply_rule(result.as_str(), &replacements[i], anchor) {
            Ok(next) => {
                result = next;
            },
            Err(e) => {
                proof {
                    lemma_failure_stays(text, anchor, rules, i + 1);
                }
                return Err(e);
            },
        }
        i += 1;
    }
    proof {
        assert(rules.take(i as int) =~= rules);
        lemma_success_is_rewritten(text, anchor, rules);
    }
    Ok(result)
}

/// Restores `ess` where the trailing-letter pass left `Ss` at the end of a word.
pub fn cleanup_double_s(contents: String) -> (r: Result<String, ShorthandError>)
    ensures
        outcome_of(r) == rule_outcome(contents@, Anchor::Anywhere, cleanup_rule()),
        r matches Ok(out) ==> out@ == cleanup_text(contents@),
{
    let rule = cleanup_entry();
    apply_rule(contents.as_str(), &rule, Anchor::Anywhere)
}

/// The trailing-letter pass: abbreviates `ed`, `ex`, `es`, `el`, `er`, `et` at the end of
/// a word to the consonant's capital, in that order, then runs the double-s repair.
pub fn trailing_ed(contents: String) -> (r: Result<String, ShorthandError>)
    ensures
        outcome_of(r) == trailing_outcome(contents@),
        r matches Ok(out) ==> out@ == trailing_text(contents@),
{
    let table = trailing_table();
    match pattern_replacement(contents, &table, Anchor::Anywhere) {
        Ok(result) => cleanup_double_s(result),
        Err(e) => Err(e),
    }
}

/// The suffix pass: abbreviates `ing` to `G` and `tion` to `N` at the end of a word.
pub fn suffixes(contents: String) -> (r: Result<String, ShorthandError>)
    ensures
        outcome_of(r) == rules_outcome(contents@, Anchor::Anywhere, suffix_rules()),
        r matches Ok(out) ==> out@ == suffix_text(contents@),
{
    let table = suffix_table();
    pattern_replacement(contents, &table, Anchor::Anywhere)
}

/// The word pass: abbreviates the short words of the table where whitespace stands
/// before them. The whitespace is kept.
pub fn word_replacements(contents: String) -> (r: Result<String, ShorthandError>)
    ensures
        outcome_of(r) == rules_outcome(contents@, Anchor::AfterWhitespace, word_rules()),
        r matches Ok(out) ==> out@ == word_text(contents@),
{
    let table = word_table();
    pattern_replacement(contents, &table, Anchor::AfterWhitespace)
}

/// The whole pipeline: trailing letters and repair, then suffixes, then words.
pub fn run(contents: String) -> (r: Result<String, ShorthandError>)
    ensures
        outcome_of(r) == shorthand_outcome(contents@),
        r matches Ok(out) ==> out@ == shorthand_text(contents@),
{
    let trailed = match trailing_ed(contents) {
        Ok(text) => text,
        Err(e) => {
            return Err(e);
        },
    };
    let suffixed = match suffixes(trailed) {
        Ok(text) => text,
        Err(e) => {
            return Err(e);
        },
    };
    word_replacements(suffixed)
}

/// The outcome of the pipeline is a function of the text: what two runs on equal texts
/// return is equal.
pub proof fn lemma_shorthand_deterministic(
    first: Seq<char>,
    second: Seq<char>,
    first_out: Result<Seq<char>, ShorthandError>,
    second_out: Result<Seq<char>, ShorthandError>,
)
    requires
        first == second,
        first_out == shorthand_outcome(first),
        second_out == shorthand_outcome(second),
    ensures
        first_out == second_out,
{
}

/// Where the pipeline succeeds, its text is the four passes in one order: the
/// trailing-letter rules, the double-s repair, the suffix rules, the word rules, each
/// over what the one before it returned.
pub proof fn lemma_shorthand_is_the_passes_in_order(text: Seq<char>)
    ensures
        shorthand_outcome(text) matches Ok(out) ==> out == rules_rewritten(
            rules_rewritten(
                rule_rewritten(
                    rules_rewritten(text, Anchor::Anywhere, trailing_rules()),
                    Anchor::Anywhere,
                    cleanup_rule(),
                ),
                Anchor::Anywhere,
                suffix_rules(),
            ),
            Anchor::AfterWhitespace,
            word_rules(),
        ),
{
    lemma_success_is_rewritten(text, Anchor::Anywhere, trailing_rules());
    match trailing_outcome(text) {
        Ok(trailed) => {
            lemma_success_is_rewritten(trailed, Anchor::Anywhere, suffix_rules());
            match rules_outcome(trailed, Anchor::Anywhere, suffix_rules()) {
                Ok(suffixed) => {
                    lemma_success_is_rewritten(suffixed, Anchor::AfterWhitespace, word_rules());
                },
                Err(_) => {},
            }
        },
        Err(_) => {},
    }
}

/// A table of plain rules keeps every character of the text that is no letter, in its
/// order, and adds none.
pub proof fn lemma_rules_keep_what_is_no_letter(
    text: Seq<char>,
    anchor: Anchor,
    rules: Seq<RuleText>,
)
    requires
        forall|i: int| 0 <= i < rules.len() ==> rule_plain(#[trigger] rules[i]),
    ensures
        not_letters(rules_rewritten(text, anchor, rules)) == not_letters(text),
    decreases rules.len(),
{
    if rules.len() > 0 {
        let before = rules.drop_last();
        assert forall|i: int| 0 <= i < before.len() implies rule_plain(#[trigger] before[i]) by {
            assert(before[i] == rules[i]);
        }
        lemma_rules_keep_what_is_no_letter(text, anchor, before);
        assert(rule_plain(rules[rules.len() - 1]));
        lemma_rewrite_keeps_what_is_no_letter(
            rules_rewritten(text, anchor, before),
            anchor,
            rules.last(),
        );
    }
}

/// The shorthand keeps every whitespace and punctuation character of the text, and every
/// other character that is no letter, where it stood among them: the heads and tails of
/// all matches of all passes are in the output as they were in the input.
pub proof fn lemma_shorthand_keeps_what_is_no_letter(text: Seq<char>)
    ensures
        not_letters(trailing_text(text)) == not_letters(text),
        not_letters(suffix_text(text)) == not_letters(text),
        not_letters(word_text(text)) == not_letters(text),
        not_letters(shorthand_text(text)) == not_letters(text),
{
    lemma_trailing_rules_are_a_rule_set();
    lemma_suffix_rules_are_a_rule_set();
    lemma_word_rules_are_a_rule_set();
    lemma_cleanup_rule_is_plain();
    let trailing = rules_rewritten(text, Anchor::Anywhere, trailing_rules());
    lemma_rules_keep_what_is_no_letter(text, Anchor::Anywhere, trailing_rules());
    lemma_rewrite_keeps_what_is_no_letter(trailing, Anchor::Anywhere, cleanup_rule());
    lemma_rules_keep_what_is_no_letter(text, Anchor::Anywhere, suffix_rules());
    lemma_rules_keep_what_is_no_letter(text, Anchor::AfterWhitespace, word_rules());
    lemma_rules_keep_what_is_no_letter(trailing_text(text), Anchor::Anywhere, suffix_rules());
    lemma_rules_keep_what_is_no_letter(
        suffix_text(trailing_text(text)),
        Anchor::AfterWhitespace,
        word_rules(),
    );
}

/// Rules that are anchored after whitespace leave a text without whitespace as it is.
pub proof fn lemma_anchored_rules_need_whitespace(text: Seq<char>, rules: Seq<RuleText>)
    requires
        forall|i: int| 0 <= i < text.len() ==> !is_whitespace(#[trigger] text[i]),
    ensures
        rules_rewritten(text, Anchor::AfterWhitespace, rules) == text,
    decreases rules.len(),
{
    if rules.len() > 0 {
        lemma_anchored_rules_need_whitespace(text, rules.drop_last());
        lemma_no_whitespace_no_change(text, 0, rules.last());
        assert(text.subrange(0, text.len() as int) =~= text);
    }
}

/// The word pass leaves a text without whitespace as it is.
pub proof fn lemma_words_need_whitespace(text: Seq<char>)
    requires
        forall|i: int| 0 <= i < text.len() ==> !is_whitespace(#[trigger] text[i]),
    ensures
        word_text(text) == text,
{
    lemma_anchored_rules_need_whitespace(text, word_rules());
}

} // verus!
