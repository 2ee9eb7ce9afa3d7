use shorthand::{cleanup_double_s, run, suffixes, trailing_ed, word_replacements};

fn trailed(text: &str) -> String {
    trailing_ed(String::from(text)).unwrap()
}

fn suffixed(text: &str) -> String {
    suffixes(String::from(text)).unwrap()
}

fn worded(text: &str) -> String {
    word_replacements(String::from(text)).unwrap()
}

fn shortened(text: &str) -> String {
    run(String::from(text)).unwrap()
}

#[test]
fn trailing_letters() {
    // Several of the endings, followed by spaces, newlines and punctuation.
    let test_str = String::from(
        "John is better at running while wearing her sweater.
It's complex, yet subtle!",
    );

    let expected = String::from(
        "John is bettR at running while wearing hR sweatR.
It's complX, yT subtle!",
    );

    assert_eq!(Ok(expected), trailing_ed(test_str));
}

#[test]
fn trailing_plural() {
    let test_str = String::from("These punters dress in pastels.");

    let expected = String::from("These puntRs dress in pastLs.");

    assert_eq!(Ok(expected), trailing_ed(test_str));
}

#[test]
fn ing() {
    let test_str = String::from(
        "Testing is a fun thing to do. So is swimming; playing
basketball. Fencing.",
    );

    let expected = String::from(
        "TestG is a fun thG to do. So is swimmG; playG
basketball. FencG.",
    );

    assert_eq!(Ok(expected), suffixes(test_str));
}

#[test]
fn ing_plural() {
    let test_str = String::from("Things with clippings.");
    let expected = String::from("ThGs with clippGs.");

    assert_eq!(Ok(expected), suffixes(test_str));
}

#[test]
fn tion() {
    let test_str = String::from("The function of your junction captions me.");

    let expected = String::from("The funcN of your juncN capNs me.");

    assert_eq!(Ok(expected), suffixes(test_str));
}

#[test]
fn words() {
    let test_str = String::from(
        "Here, in this and that place, from where and when it is thoroughly
normal with all. Only if.",
    );

    let expected = String::from(
        "Here, n TS A TT place, FM where A WN t s thoroughly
normal W all. Only f.",
    );

    assert_eq!(Ok(expected), word_replacements(test_str));
}

#[test]
fn test_multiple() {
    let test_str = String::from(
        "Testing is a fun thing to do. So is swimming; playing
basketball. Fencing and formal functions. Croquet with loose rubber rods, in 
place of complexs more substantial. Label this; who are you?",
    );

    let expected = String::from(
        "TestG s a fun thG O do. So s swimmG; playG
basketball. FencG A formal funcNs. CroquT W loose rubbR rods, n 
place F complXs more substantial. LabL TS; who R U?",
    );

    let mut contents = trailing_ed(test_str).unwrap();
    contents = suffixes(contents).unwrap();
    contents = word_replacements(contents).unwrap();
    assert_eq!(expected, contents);
}

#[test]
fn run_is_the_three_passes_in_order() {
    let text = "Testing is a fun thing to do. So is swimming; playing
basketball. Fencing and formal functions. Croquet with loose rubber rods, in 
place of complexs more substantial. Label this; who are you?";
    let expected = "TestG s a fun thG O do. So s swimmG; playG
basketball. FencG A formal funcNs. CroquT W loose rubbR rods, n 
place F complXs more substantial. LabL TS; who R U?";
    assert_eq!(run(String::from(text)), Ok(String::from(expected)));
}

#[test]
fn run_twice_gives_the_same_text() {
    let text = "The bakers are thinking of the station, and of better dress.";
    let first = run(String::from(text));
    let second = run(String::from(text));
    assert_eq!(first, second);
    assert_eq!(first.unwrap(), "The bakRs R thinkG F T staN, A F bettR dress.");
}

#[test]
fn another_order_of_passes_gives_another_text() {
    let text = "to bes or not";
    assert_eq!(shortened(text), "to bS or not");
    let words_first = trailed(&suffixed(&worded(text)));
    assert_eq!(words_first, "to Bs or not");
}

#[test]
fn every_boundary_character_is_kept() {
    for tail in [" ", "\n", "\t", ".", ",", ";", "?", "!", "-", ":", "$"] {
        let text = format!("a thing{tail}b");
        assert_eq!(suffixed(&text), format!("a thG{tail}b"));
        let plural = format!("the nations{tail}");
        assert_eq!(suffixed(&plural), format!("the naNs{tail}"));
        let ending = format!("better{tail}");
        assert_eq!(trailed(&ending), format!("bettR{tail}"));
        let word = format!("all from{tail}one");
        assert_eq!(worded(&word), format!("all FM{tail}one"));
    }
}

#[test]
fn other_characters_end_no_word() {
    for text in ["thing2 ", "thing+ ", "thing' ", "thing) ", "thinga ", "thing"] {
        assert_eq!(suffixed(text), text);
    }
    assert_eq!(trailed("better+ bed"), "better+ bed");
    assert_eq!(worded("say the' and2 "), "say the' and2 ");
}

#[test]
fn leading_whitespace_is_kept() {
    assert_eq!(worded("a \n\t the cat. "), "a \n\t T cat. ");
    assert_eq!(worded("x\n\n  with. "), "x\n\n  W. ");
}

#[test]
fn a_word_needs_whitespace_before_it() {
    assert_eq!(worded("the end of the day."), "the end F T day.");
    assert_eq!(worded("bathe in,"), "bathe n,");
    assert_eq!(worded("(this) is"), "(this) is");
}

#[test]
fn a_suffix_needs_nothing_before_it() {
    assert_eq!(suffixed("ing tion "), "G N ");
    assert_eq!(suffixed("ringing, singer "), "ringG, singer ");
}

#[test]
fn have_is_dropped() {
    assert_eq!(worded("I have it."), "I  t.");
    assert_eq!(worded("who haves? that."), "who s? TT.");
}

#[test]
fn double_s_is_restored() {
    assert_eq!(cleanup_double_s(String::from("drSs in prSs. MSs")).unwrap(), "dress in press. MSs");
    assert_eq!(cleanup_double_s(String::from("bosSss!")).unwrap(), "bosesss!");
    assert_eq!(trailed("A mess, less stress."), "A mess, less stress.");
    assert_eq!(trailed("boxes and foxes."), "boxS and foxS.");
}

#[test]
fn trailing_letters_one_by_one() {
    assert_eq!(
        trailed("ended vex mixes label her pet."),
        "endD vX mixS labL hR pT."
    );
    assert_eq!(trailed("beds texts angels"), "bDs texts angels");
}

#[test]
fn empty_text_stays_empty() {
    assert_eq!(shortened(""), "");
    assert_eq!(trailed(""), "");
    assert_eq!(suffixed(""), "");
    assert_eq!(worded(""), "");
}

fn not_letters(text: &str) -> String {
    text.chars().filter(|c| !c.is_ascii_alphabetic()).collect()
}

#[test]
fn what_is_no_letter_stays_in_place() {
    let text = "Here, in this and that place - from where; and when? It is: thoroughly\n\t
normal with all$ Only if! Bless the 2 nations' messes, testing.";
    let out = shortened(text);
    assert_eq!(not_letters(&out), not_letters(text));
    assert_eq!(
        out,
        "Here, n TS A TT place - FM where; A WN? It s: thoroughly\n\t
normal W all$ Only f! Bless T 2 nations' messS, testG."
    );
}

#[test]
fn unicode_whitespace_ends_a_word() {
    assert_eq!(suffixed("thing\u{a0}thing\u{2003}thing\u{3000}"), "thG\u{a0}thG\u{2003}thG\u{3000}");
    assert_eq!(worded("a\u{2028}the\u{85}b"), "a\u{2028}T\u{85}b");
    assert_eq!(suffixed("thing\u{200b}"), "thing\u{200b}");
    assert_eq!(trailed("caf\u{e9} better\u{1680}"), "caf\u{e9} bettR\u{1680}");
}

#[test]
fn text_without_whitespace_has_no_word() {
    assert_eq!(worded("the.and,of;it"), "the.and,of;it");
    assert_eq!(worded(""), "");
}

#[test]
fn passes_run_again() {
    let once = suffixed("a thinging thing. ");
    assert_eq!(once, "a thingG thG. ");
    assert_eq!(suffixed(&once), once);
}
