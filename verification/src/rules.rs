//! Rules, and how a rule becomes a search pattern and a replacement template.

use crate::boundary::{word_end, word_end_text};
use vstd::prelude::*;
use vstd::string::*;

verus! {

/// One substitution: `stem` is abbreviated to `replacement`.
///
/// The stem is written into the pattern and the replacement into the template as they
/// stand. A rule of letters only (`rule_plain`) is read by the engine as the literal
/// texts it holds; of another rule the engine may make another text than the rule is
/// stated to give, and applying the rule then reports that.
#[derive(Clone, Copy, Debug)]
pub struct Rule {
    pub stem: &'static str,
    pub replacement: &'static str,
}

/// The mathematical content of a [`Rule`].
pub struct RuleText {
    pub stem: Seq<char>,
    pub replacement: Seq<char>,
}

impl View for Rule {
    type V = RuleText;

    open spec fn view(&self) -> RuleText {
        RuleText { stem: self.stem@, replacement: self.replacement@ }
    }
}

/// What must stand to the left of a stem.
#[derive(Clone, Copy, Debug, PartialEq, Eq)]
pub enum Anchor {
    /// Nothing: the stem may begin anywhere, also inside a word.
    Anywhere,
    /// One or more whitespace characters, captured as `head` and written back unchanged.
    AfterWhitespace,
}

/// The views of a sequence of rules, in order.
pub open spec fn rule_texts(rules: Seq<Rule>) -> Seq<RuleText> {
    Seq::new(rules.len(), |i: int| rules[i]@)
}

/// Whether `c` is an ASCII letter.
pub open spec fn is_letter(c: char) -> bool {
    ('a' <= c && c <= 'z') || ('A' <= c && c <= 'Z')
}

/// Whether `text` holds ASCII letters only: nothing in it is pattern or template syntax.
pub open spec fn plain_text(text: Seq<char>) -> bool {
    forall|i: int| 0 <= i < text.len() ==> is_letter(#[trigger] text[i])
}

/// Whether a rule searches for a literal word part and writes a literal abbreviation.
pub open spec fn rule_plain(rule: RuleText) -> bool {
    &&& rule.stem.len() > 0
    &&& plain_text(rule.stem)
    &&& plain_text(rule.replacement)
}

/// A rule set: every rule is plain, and no stem occurs twice.
pub open spec fn rule_set(rules: Seq<RuleText>) -> bool {
    &&& forall|i: int| 0 <= i < rules.len() ==> rule_plain(#[trigger] rules[i])
    &&& forall|i: int, j: int|
        0 <= i < j < rules.len() ==> (#[trigger] rules[i]).stem != (#[trigger] rules[j]).stem
}

/// The pattern of an anchor.
pub open spec fn anchor_pattern_text(anchor: Anchor) -> Seq<char> {
    match anchor {
        Anchor::Anywhere => ""@,
        Anchor::AfterWhitespace => "(?P<head>\\s+)"@,
    }
}

/// What writes back the text that an anchor captured.
pub open spec fn anchor_template_text(anchor: Anchor) -> Seq<char> {
    match anchor {
        Anchor::Anywhere => ""@,
        Anchor::AfterWhitespace => "${head}"@,
    }
}

/// The search pattern of a stem: anchor, stem, end of word.
pub open spec fn pattern_text(anchor: Anchor, stem: Seq<char>) -> Seq<char> {
    anchor_pattern_text(anchor) + stem + word_end_text()
}

/// The replacement template: captured head, abbreviation, captured tail.
pub open spec fn template_text(anchor: Anchor, replacement: Seq<char>) -> Seq<char> {
    anchor_template_text(anchor) + replacement + "$tail"@
}

impl Anchor {
    /// The pattern that matches this anchor.
    pub fn pattern(self) -> (p: &'static str)
        ensures
            p@ == anchor_pattern_text(self),
    {
        match self {
            Anchor::Anywhere => "",
            Anchor::AfterWhitespace => "(?P<head>\\s+)",
        }
    }

    /// The template fragment that writes this anchor's capture back.
    pub fn template(self) -> (t: &'static str)
        ensures
            t@ == anchor_template_text(self),
    {
        match self {
            Anchor::Anywhere => "",
            Anchor::AfterWhitespace => "${head}",
        }
    }
}

impl Rule {
    /// The search pattern of this rule under `anchor`.
    pub fn pattern(&self, anchor: Anchor) -> (p: String)
        ensures
            p@ == pattern_text(anchor, self@.stem),
    {
        let mut p = anchor.pattern().to_owned();
        p.append(self.stem);
        let w = word_end();
        p.append(w.as_str());
        p
    }

    /// The replacement template of this rule under `anchor`. It always ends by writing
    /// the captured tail back, and begins by writing back the head where the anchor
    /// captures one.
    pub fn template(&self, anchor: Anchor) -> (t: String)
        ensures
            t@ == template_text(anchor, self@.replacement),
    {
        let mut t = anchor.template().to_owned();
        t.append(self.replacement);
        t.append("$tail");
        t
    }
}

/// Every template ends by writing the captured tail back, and the template of a rule
/// that is anchored after whitespace begins by writing the captured head back; every
/// pattern ends with the end of a word, and that of a rule anchored after whitespace
/// begins with the group that captures the head.
pub proof fn lemma_rule_writes_captures_back(anchor: Anchor, rule: RuleText)
    ensures
        "$tail"@.is_suffix_of(template_text(anchor, rule.replacement)),
        word_end_text().is_suffix_of(pattern_text(anchor, rule.stem)),
        anchor == Anchor::AfterWhitespace ==> "${head}"@.is_prefix_of(
            template_text(anchor, rule.replacement),
        ),
        anchor == Anchor::AfterWhitespace ==> "(?P<head>\\s+)"@.is_prefix_of(
            pattern_text(anchor, rule.stem),
        ),
{
    let template = template_text(anchor, rule.replacement);
    let pattern = pattern_text(anchor, rule.stem);
    let tail = "$tail"@;
    let end = word_end_text();
    assert(template.subrange(template.len() - tail.len(), template.len() as int) =~= tail);
    assert(pattern.subrange(pattern.len() - end.len(), pattern.len() as int) =~= end);
    if anchor == Anchor::AfterWhitespace {
        let head = "${head}"@;
        let group = "(?P<head>\\s+)"@;
        assert(template.subrange(0, head.len() as int) =~= head);
        assert(pattern.subrange(0, group.len() as int) =~= group);
    }
}

} // verus!
