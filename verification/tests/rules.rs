use shorthand::{
    apply_rule, boundary_char, boundary_class, boundary_punctuation, chars_of, cleanup_entry,
    confirm_rewrite, pattern_replacement, replace_all, rewrite, suffix_table, trailing_table,
    whitespace_char, word_end, word_table, Anchor, Rule, ShorthandError,
};

fn stated(text: &str, anchor: Anchor, stem: &str, replacement: &str) -> String {
    let out = rewrite(&chars_of(text), anchor, &chars_of(stem), &chars_of(replacement));
    out.into_iter().collect()
}

#[test]
fn boundary_table() {
    assert_eq!(boundary_punctuation(), vec!['.', ',', ';', '?', '!', '-', ':', '$']);
}

#[test]
fn boundary_class_escapes_each_character() {
    assert_eq!(boundary_class(&vec![]), r"[\s]");
    assert_eq!(boundary_class(&vec!['-', '.']), r"[\s\-\.]");
    assert_eq!(boundary_class(&boundary_punctuation()), r"[\s\.\,\;\?\!\-\:\$]");
}

#[test]
fn word_end_pattern() {
    assert_eq!(word_end(), r"(?P<tail>s?[\s\.\,\;\?\!\-\:\$])");
    assert!(replace_all(&word_end(), "", "").is_ok());
}

#[test]
fn anchors() {
    assert_eq!(Anchor::Anywhere.pattern(), "");
    assert_eq!(Anchor::Anywhere.template(), "");
    assert_eq!(Anchor::AfterWhitespace.pattern(), r"(?P<head>\s+)");
    assert_eq!(Anchor::AfterWhitespace.template(), "${head}");
}

#[test]
fn rule_pattern_and_template() {
    let rule = Rule { stem: "tion", replacement: "N" };
    assert_eq!(rule.pattern(Anchor::Anywhere), r"tion(?P<tail>s?[\s\.\,\;\?\!\-\:\$])");
    assert_eq!(rule.template(Anchor::Anywhere), "N$tail");
    assert_eq!(
        rule.pattern(Anchor::AfterWhitespace),
        r"(?P<head>\s+)tion(?P<tail>s?[\s\.\,\;\?\!\-\:\$])"
    );
    assert_eq!(rule.template(Anchor::AfterWhitespace), "${head}N$tail");
    let dropped = Rule { stem: "have", replacement: "" };
    assert_eq!(dropped.template(Anchor::AfterWhitespace), "${head}$tail");
}

#[test]
fn replace_all_rewrites_every_match() {
    assert_eq!(replace_all("a", "banana", "o"), Ok(String::from("bonono")));
    assert_eq!(replace_all("(?P<x>n)a", "banana", "a$x"), Ok(String::from("baanan")));
    assert_eq!(replace_all("z", "banana", "o"), Ok(String::from("banana")));
}

#[test]
fn a_rejected_pattern_is_reported() {
    assert_eq!(replace_all("(", "banana", "o"), Err(ShorthandError::PatternRejected));
    let rules = vec![Rule { stem: "a", replacement: "b" }, Rule { stem: "(", replacement: "c" }];
    assert_eq!(
        pattern_replacement(String::from("a a"), &rules, Anchor::Anywhere),
        Err(ShorthandError::PatternRejected)
    );
}

#[test]
fn another_text_than_stated_is_reported() {
    let rule = Rule { stem: "ing", replacement: "G" };
    assert_eq!(
        confirm_rewrite("a thing.", &rule, Anchor::Anywhere, String::from("a thG.")),
        Ok(String::from("a thG."))
    );
    assert_eq!(
        confirm_rewrite("a thing.", &rule, Anchor::Anywhere, String::from("a thing.")),
        Err(ShorthandError::EngineDisagrees)
    );
    assert_eq!(
        confirm_rewrite("a thing.", &rule, Anchor::Anywhere, String::from("a thG")),
        Err(ShorthandError::EngineDisagrees)
    );
    let dotted = Rule { stem: "a.c", replacement: "X" };
    assert_eq!(
        apply_rule("abc a.c ", &dotted, Anchor::Anywhere),
        Err(ShorthandError::EngineDisagrees)
    );
    assert_eq!(apply_rule("xyz a.c ", &dotted, Anchor::Anywhere), Ok(String::from("xyz X ")));
}

#[test]
fn the_stated_rewrite() {
    assert_eq!(stated("a thing. things, thingy thing", Anchor::Anywhere, "ing", "G"), "a thG. thGs, thingy thing");
    assert_eq!(stated("the the  the\n\tthes thee the", Anchor::AfterWhitespace, "the", "T"), "the T  T\n\tTs thee the");
    assert_eq!(stated("I have it.", Anchor::AfterWhitespace, "have", ""), "I  it.");
    assert_eq!(stated("ss s. ", Anchor::Anywhere, "", "X"), "sXs Xs.X ");
    assert_eq!(stated("", Anchor::Anywhere, "ing", "G"), "");
}

#[test]
fn boundary_characters() {
    for c in [' ', '\n', '\t', '\r', '\u{b}', '\u{c}', '\u{85}', '\u{a0}', '\u{2009}', '.', ',', ';', '?', '!', '-', ':', '$'] {
        assert!(boundary_char(c));
    }
    for c in ['s', 'a', 'Z', '0', '9', '+', '\'', '"', '(', ')', '/', '#', '\u{200b}', '\u{e9}'] {
        assert!(!boundary_char(c));
    }
    for c in boundary_punctuation() {
        assert!(boundary_char(c) && !whitespace_char(c));
    }
    for n in 0..0x3100u32 {
        if let Some(c) = char::from_u32(n) {
            assert_eq!(whitespace_char(c), c.is_whitespace());
        }
    }
}

#[test]
fn rules_are_applied_in_order() {
    let forward = vec![Rule { stem: "a", replacement: "b" }, Rule { stem: "b", replacement: "c" }];
    let backward = vec![Rule { stem: "b", replacement: "c" }, Rule { stem: "a", replacement: "b" }];
    assert_eq!(
        pattern_replacement(String::from("a b "), &forward, Anchor::Anywhere),
        Ok(String::from("c c "))
    );
    assert_eq!(
        pattern_replacement(String::from("a b "), &backward, Anchor::Anywhere),
        Ok(String::from("b c "))
    );
    assert_eq!(
        pattern_replacement(String::from("a b "), &vec![], Anchor::Anywhere),
        Ok(String::from("a b "))
    );
}

#[test]
fn one_scan_does_not_share_a_boundary() {
    let rules = vec![Rule { stem: "the", replacement: "T" }];
    assert_eq!(
        pattern_replacement(String::from("x the the y"), &rules, Anchor::AfterWhitespace),
        Ok(String::from("x T the y"))
    );
    assert_eq!(
        pattern_replacement(String::from("x the  the y"), &rules, Anchor::AfterWhitespace),
        Ok(String::from("x T  T y"))
    );
}

#[test]
fn tables_in_order() {
    let trailing: Vec<(&str, &str)> =
        trailing_table().iter().map(|r| (r.stem, r.replacement)).collect();
    assert_eq!(
        trailing,
        vec![("ed", "D"), ("ex", "X"), ("es", "S"), ("el", "L"), ("er", "R"), ("et", "T")]
    );
    let cleanup = cleanup_entry();
    assert_eq!((cleanup.stem, cleanup.replacement), ("Ss", "ess"));
    let suffix: Vec<(&str, &str)> =
        suffix_table().iter().map(|r| (r.stem, r.replacement)).collect();
    assert_eq!(suffix, vec![("ing", "G"), ("tion", "N")]);
    let words: Vec<(&str, &str)> = word_table().iter().map(|r| (r.stem, r.replacement)).collect();
    assert_eq!(
        words,
        vec![
            ("the", "T"),
            ("be", "B"),
            ("to", "O"),
            ("of", "F"),
            ("and", "A"),
            ("in", "n"),
            ("that", "TT"),
            ("have", ""),
            ("it", "t"),
            ("because", "BC"),
            ("with", "W"),
            ("from", "FM"),
            ("when", "WN"),
            ("this", "TS"),
            ("are", "R"),
            ("you", "U"),
            ("is", "s"),
            ("if", "f"),
        ]
    );
}

#[test]
fn no_stem_twice_and_letters_only() {
    for table in [trailing_table(), suffix_table(), word_table()] {
        for (i, rule) in table.iter().enumerate() {
            assert!(!rule.stem.is_empty());
            assert!(rule.stem.chars().all(|c| c.is_ascii_alphabetic()));
            assert!(rule.replacement.chars().all(|c| c.is_ascii_alphabetic()));
            for other in &table[i + 1..] {
                assert_ne!(rule.stem, other.stem);
            }
        }
    }
}

#[test]
fn trailing_rules_follow_the_consonants() {
    let consonants = ['d', 'x', 's', 'l', 'r', 't'];
    let table = trailing_table();
    assert_eq!(table.len(), consonants.len());
    for (rule, c) in table.iter().zip(consonants) {
        assert_eq!(rule.stem, format!("e{c}"));
        assert_eq!(rule.replacement, c.to_ascii_uppercase().to_string());
    }
}

#[test]
fn each_word_alone() {
    for rule in word_table() {
        let text = format!("so {} it", rule.stem);
        let expected = format!("so {} it", rule.replacement);
        assert_eq!(
            pattern_replacement(text, &vec![rule], Anchor::AfterWhitespace),
            Ok(expected)
        );
    }
}
