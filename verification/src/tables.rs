//! The rule tables of the passes.

use crate::rules::{is_letter, plain_text, rule_plain, rule_set, rule_texts, Rule, RuleText};
use vstd::prelude::*;

verus! {

/// The consonants of the trailing-letter pass, in the order of their rules.
pub open spec fn trailing_consonants() -> Seq<char> {
    seq!['d', 'x', 's', 'l', 'r', 't']
}

/// The capital of a lower-case ASCII letter.
pub open spec fn capital(c: char) -> char
    recommends
        'a' <= c <= 'z',
{
    ((c as u32) - 32) as char
}

/// The endings `e` + consonant and their abbreviations, in the order in which they are
/// applied: `d`, `x`, `s`, `l`, `r`, `t`.
pub open spec fn trailing_rules() -> Seq<RuleText> {
    seq![
        RuleText { stem: "ed"@, replacement: "D"@ },
        RuleText { stem: "ex"@, replacement: "X"@ },
        RuleText { stem: "es"@, replacement: "S"@ },
        RuleText { stem: "el"@, replacement: "L"@ },
        RuleText { stem: "er"@, replacement: "R"@ },
        RuleText { stem: "et"@, replacement: "T"@ },
    ]
}

/// The repair of what the `es` rule does to a word that ends in `ess`.
pub open spec fn cleanup_rule() -> RuleText {
    RuleText { stem: "Ss"@, replacement: "ess"@ }
}

/// The suffixes and their abbreviations.
pub open spec fn suffix_rules() -> Seq<RuleText> {
    seq![
        RuleText { stem: "ing"@, replacement: "G"@ },
        RuleText { stem: "tion"@, replacement: "N"@ },
    ]
}

/// The short words and their abbreviations.
pub open spec fn word_rules() -> Seq<RuleText> {
    seq![
        RuleText { stem: "the"@, replacement: "T"@ },
        RuleText { stem: "be"@, replacement: "B"@ },
        RuleText { stem: "to"@, replacement: "O"@ },
        RuleText { stem: "of"@, replacement: "F"@ },
        RuleText { stem: "and"@, replacement: "A"@ },
        RuleText { stem: "in"@, replacement: "n"@ },
        RuleText { stem: "that"@, replacement: "TT"@ },
        RuleText { stem: "have"@, replacement: ""@ },
        RuleText { stem: "it"@, replacement: "t"@ },
        RuleText { stem: "because"@, replacement: "BC"@ },
        RuleText { stem: "with"@, replacement: "W"@ },
        RuleText { stem: "from"@, replacement: "FM"@ },
        RuleText { stem: "when"@, replacement: "WN"@ },
        RuleText { stem: "this"@, replacement: "TS"@ },
        RuleText { stem: "are"@, replacement: "R"@ },
        RuleText { stem: "you"@, replacement: "U"@ },
        RuleText { stem: "is"@, replacement: "s"@ },
        RuleText { stem: "if"@, replacement: "f"@ },
    ]
}

/// The rules of the trailing-letter pass.
pub fn trailing_table() -> (table: Vec<Rule>)
    ensures
        rule_texts(table@) == trailing_rules(),
        rule_set(rule_texts(table@)),
{
    let table = vec![
        Rule { stem: "ed", replacement: "D" },
        Rule { stem: "ex", replacement: "X" },
        Rule { stem: "es", replacement: "S" },
        Rule { stem: "el", replacement: "L" },
        Rule { stem: "er", replacement: "R" },
        Rule { stem: "et", replacement: "T" },
    ];
    proof {
        assert(rule_texts(table@) =~= trailing_rules());
        lemma_trailing_rules_are_a_rule_set();
    }
    table
}

/// The rule of the double-s repair.
pub fn cleanup_entry() -> (rule: Rule)
    ensures
        rule@ == cleanup_rule(),
        rule_plain(rule@),
{
    proof {
        reveal_strlit("Ss");
        reveal_strlit("ess");
    }
    Rule { stem: "Ss", replacement: "ess" }
}

/// The rules of the suffix pass.
pub fn suffix_table() -> (table: Vec<Rule>)
    ensures
        rule_texts(table@) == suffix_rules(),
        rule_set(rule_texts(table@)),
{
    let table = vec![
        Rule { stem: "ing", replacement: "G" },
        Rule { stem: "tion", replacement: "N" },
    ];
    proof {
        assert(rule_texts(table@) =~= suffix_rules());
        lemma_suffix_rules_are_a_rule_set();
    }
    table
}

/// The rules of the word pass.
pub fn word_table() -> (table: Vec<Rule>)
    ensures
        rule_texts(table@) == word_rules(),
        rule_set(rule_texts(table@)),
{
    let table = vec![
        Rule { stem: "the", replacement: "T" },
        Rule { stem: "be", replacement: "B" },
        Rule { stem: "to", replacement: "O" },
        Rule { stem: "of", replacement: "F" },
        Rule { stem: "and", replacement: "A" },
        Rule { stem: "in", replacement: "n" },
        Rule { stem: "that", replacement: "TT" },
        Rule { stem: "have", replacement: "" },
        Rule { stem: "it", replacement: "t" },
        Rule { stem: "because", replacement: "BC" },
        Rule { stem: "with", replacement: "W" },
        Rule { stem: "from", replacement: "FM" },
        Rule { stem: "when", replacement: "WN" },
        Rule { stem: "this", replacement: "TS" },
        Rule { stem: "are", replacement: "R" },
        Rule { stem: "you", replacement: "U" },
        Rule { stem: "is", replacement: "s" },
        Rule { stem: "if", replacement: "f" },
    ];
    proof {
        assert(rule_texts(table@) =~= word_rules());
        lemma_word_rules_are_a_rule_set();
    }
    table
}

/// A literal of at most seven ASCII letters is plain. The literal's characters are read
/// one by one.
proof fn lemma_letters(text: &str)
    requires
        text@.len() <= 7,
        0 < text@.len() ==> is_letter(text@[0]),
        1 < text@.len() ==> is_letter(text@[1]),
        2 < text@.len() ==> is_letter(text@[2]),
        3 < text@.len() ==> is_letter(text@[3]),
        4 < text@.len() ==> is_letter(text@[4]),
        5 < text@.len() ==> is_letter(text@[5]),
        6 < text@.len() ==> is_letter(text@[6]),
    ensures
        plain_text(text@),
{
}

/// The rule of the double-s repair is plain.
pub proof fn lemma_cleanup_rule_is_plain()
    ensures
        rule_plain(cleanup_rule()),
{
    reveal_strlit("Ss");
    lemma_letters("Ss");
    reveal_strlit("ess");
    lemma_letters("ess");
}

/// The table of the trailing-letter pass is a rule set: letters only, and no stem twice.
pub proof fn lemma_trailing_rules_are_a_rule_set()
    ensures
        rule_set(trailing_rules()),
{
    reveal_strlit("ed");
    lemma_letters("ed");
    reveal_strlit("D");
    lemma_letters("D");
    reveal_strlit("ex");
    lemma_letters("ex");
    reveal_strlit("X");
    lemma_letters("X");
    reveal_strlit("es");
    lemma_letters("es");
    reveal_strlit("S");
    lemma_letters("S");
    reveal_strlit("el");
    lemma_letters("el");
    reveal_strlit("L");
    lemma_letters("L");
    reveal_strlit("er");
    lemma_letters("er");
    reveal_strlit("R");
    lemma_letters("R");
    reveal_strlit("et");
    lemma_letters("et");
    reveal_strlit("T");
    lemma_letters("T");
    let rules = trailing_rules();
    assert forall|i: int| 0 <= i < rules.len() implies rule_plain(#[trigger] rules[i]) by {}
    assert forall|i: int, j: int| 0 <= i < j < rules.len() implies (#[trigger] rules[i]).stem != (
    #[trigger] rules[j]).stem by {
        assert(rules[i].stem.len() == 2 && rules[j].stem.len() == 2);
        assert(rules[i].stem[1] != rules[j].stem[1]);
    }
}

/// The table of the suffix pass is a rule set: letters only, and no stem twice.
pub proof fn lemma_suffix_rules_are_a_rule_set()
    ensures
        rule_set(suffix_rules()),
{
    reveal_strlit("ing");
    lemma_letters("ing");
    reveal_strlit("G");
    lemma_letters("G");
    reveal_strlit("tion");
    lemma_letters("tion");
    reveal_strlit("N");
    lemma_letters("N");
    let rules = suffix_rules();
    assert forall|i: int| 0 <= i < rules.len() implies rule_plain(#[trigger] rules[i]) by {}
}

/// The table of the word pass is a rule set: letters only, and no stem twice.
pub proof fn lemma_word_rules_are_a_rule_set()
    ensures
        rule_set(word_rules()),
{
    reveal_strlit("the");
    lemma_letters("the");
    reveal_strlit("T");
    lemma_letters("T");
    reveal_strlit("be");
    lemma_letters("be");
    reveal_strlit("B");
    lemma_letters("B");
    reveal_strlit("to");
    lemma_letters("to");
    reveal_strlit("O");
    lemma_letters("O");
    reveal_strlit("of");
    lemma_letters("of");
    reveal_strlit("F");
    lemma_letters("F");
    reveal_strlit("and");
    lemma_letters("and");
    reveal_strlit("A");
    lemma_letters("A");
    reveal_strlit("in");
    lemma_letters("in");
    reveal_strlit("n");
    lemma_letters("n");
    reveal_strlit("that");
    lemma_letters("that");
    reveal_strlit("TT");
    lemma_letters("TT");
    reveal_strlit("have");
    lemma_letters("have");
    reveal_strlit("");
    lemma_letters("");
    reveal_strlit("it");
    lemma_letters("it");
    reveal_strlit("t");
    lemma_letters("t");
    reveal_strlit("because");
    lemma_letters("because");
    reveal_strlit("BC");
    lemma_letters("BC");
    reveal_strlit("with");
    lemma_letters("with");
    reveal_strlit("W");
    lemma_letters("W");
    reveal_strlit("from");
    lemma_letters("from");
    reveal_strlit("FM");
    lemma_letters("FM");
    reveal_strlit("when");
    lemma_letters("when");
    reveal_strlit("WN");
    lemma_letters("WN");
    reveal_strlit("this");
    lemma_letters("this");
    reveal_strlit("TS");
    lemma_letters("TS");
    reveal_strlit("are");
    lemma_letters("are");
    reveal_strlit("R");
    lemma_letters("R");
    reveal_strlit("you");
    lemma_letters("you");
    reveal_strlit("U");
    lemma_letters("U");
    reveal_strlit("is");
    lemma_letters("is");
    reveal_strlit("s");
    lemma_letters("s");
    reveal_strlit("if");
    lemma_letters("if");
    reveal_strlit("f");
    lemma_letters("f");
    let rules = word_rules();
    assert forall|i: int| 0 <= i < rules.len() implies rule_plain(#[trigger] rules[i]) by {}
    assert forall|i: int, j: int| 0 <= i < j < rules.len() implies (#[trigger] rules[i]).stem != (
    #[trigger] rules[j]).stem by {
        let a = rules[i].stem;
        let b = rules[j].stem;
        assert(a.len() != b.len() || a[0] != b[0] || a.last() != b.last());
    }
}

/// The rules of the trailing-letter pass follow the consonants: the stem of each is `e`
/// and its consonant, the replacement the consonant's capital.
pub proof fn lemma_trailing_rules_follow_consonants(i: int)
    requires
        0 <= i < trailing_consonants().len(),
    ensures
        trailing_rules().len() == trailing_consonants().len(),
        trailing_rules()[i].stem == seq!['e', trailing_consonants()[i]],
        trailing_rules()[i].replacement == seq![capital(trailing_consonants()[i])],
{
    reveal_strlit("ed");
    reveal_strlit("ex");
    reveal_strlit("es");
    reveal_strlit("el");
    reveal_strlit("er");
    reveal_strlit("et");
    reveal_strlit("D");
    reveal_strlit("X");
    reveal_strlit("S");
    reveal_strlit("L");
    reveal_strlit("R");
    reveal_strlit("T");
    assert(trailing_rules()[i].stem =~= seq!['e', trailing_consonants()[i]]);
    assert(trailing_rules()[i].replacement =~= seq![capital(trailing_consonants()[i])]);
}

} // verus!
