//! The end of a word: an optional plural `s`, then one boundary character.

use vstd::prelude::*;
use vstd::string::*;

verus! {

/// `String::push` appends one character to the end of the string.
pub assume_specification[ String::push ](s: &mut String, ch: char)
    ensures
        final(s)@ == old(s)@.push(ch),
;

/// The punctuation that ends a word. Whitespace ends a word too.
pub open spec fn boundary_punctuation_text() -> Seq<char> {
    seq!['.', ',', ';', '?', '!', '-', ':', '$']
}

/// Each character of `chars` with a backslash before it. Before punctuation the backslash
/// lets a character class hold the character itself; before a letter or a digit it does
/// not.
pub open spec fn escaped_text(chars: Seq<char>) -> Seq<char>
    decreases chars.len(),
{
    if chars.len() == 0 {
        Seq::empty()
    } else {
        escaped_text(chars.drop_last()) + seq!['\\', chars.last()]
    }
}

/// The text of a character class: `\s` for whitespace, then each character of
/// `punctuation` behind a backslash.
pub open spec fn class_text(punctuation: Seq<char>) -> Seq<char> {
    "[\\s"@ + escaped_text(punctuation) + "]"@
}

/// The optional plural marker at the end of a word.
pub open spec fn plural_text() -> Seq<char> {
    "s?"@
}

/// The end of a word: the plural marker and one boundary character, captured together
/// as `tail`.
pub open spec fn word_end_text() -> Seq<char> {
    "(?P<tail>"@ + plural_text() + class_text(boundary_punctuation_text()) + ")"@
}

/// The boundary table.
pub fn boundary_punctuation() -> (table: Vec<char>)
    ensures
        table@ == boundary_punctuation_text(),
{
    let table = vec!['.', ',', ';', '?', '!', '-', ':', '$'];
    assert(table@ =~= boundary_punctuation_text());
    table
}

/// The text of the character class for whitespace and `punctuation`. It is the class of
/// these characters where `punctuation` holds punctuation only, as the boundary table does.
pub fn boundary_class(punctuation: &Vec<char>) -> (class: String)
    ensures
        class@ == class_text(punctuation@),
{
    let mut class = "[\\s".to_owned();
    let ghost open = class@;
    let mut i: usize = 0;
    while i < punctuation.len()
        invariant
            i <= punctuation.len(),
            class@ == open + escaped_text(punctuation@.take(i as int)),
        decreases punctuation.len() - i,
    {
        proof {
            assert(punctuation@.take(i + 1).drop_last() =~= punctuation@.take(i as int));
            assert((open + escaped_text(punctuation@.take(i as int))).push('\\').push(
                punctuation@[i as int],
            ) =~= open + escaped_text(punctuation@.take(i + 1)));
        }
        class.push('\\');
        class.push(punctuation[i]);
        i += 1;
    }
    proof {
        assert(punctuation@.take(i as int) =~= punctuation@);
    }
    class.append("]");
    class
}

/// The end-of-word pattern.
pub fn word_end() -> (w: String)
    ensures
        w@ == word_end_text(),
{
    let table = boundary_punctuation();
    let class = boundary_class(&table);
    let mut w = "(?P<tail>".to_owned();
    w.append("s?");
    w.append(class.as_str());
    w.append(")");
    w
}

/// The end-of-word pattern, written out: the group `tail`, an optional `s`, and a class
/// of whitespace and the eight punctuation characters of the table.
pub proof fn lemma_word_end_written_out()
    ensures
        word_end_text() == "(?P<tail>s?[\\s\\.\\,\\;\\?\\!\\-\\:\\$])"@,
{
    reveal_strlit("(?P<tail>s?[\\s\\.\\,\\;\\?\\!\\-\\:\\$])");
    reveal_strlit("(?P<tail>");
    reveal_strlit("s?");
    reveal_strlit("[\\s");
    reveal_strlit("]");
    reveal_strlit(")");
    let p = boundary_punctuation_text();
    reveal_with_fuel(escaped_text, 10);
    assert(escaped_text(p) =~= seq![
        '\\', '.', '\\', ',', '\\', ';', '\\', '?', '\\', '!', '\\', '-', '\\', ':', '\\', '$',
    ]) by {
        assert(p.drop_last() =~= seq!['.', ',', ';', '?', '!', '-', ':']);
        assert(p.drop_last().drop_last() =~= seq!['.', ',', ';', '?', '!', '-']);
        assert(p.drop_last().drop_last().drop_last() =~= seq!['.', ',', ';', '?', '!']);
        assert(seq!['.', ',', ';', '?', '!'].drop_last() =~= seq!['.', ',', ';', '?']);
        assert(seq!['.', ',', ';', '?'].drop_last() =~= seq!['.', ',', ';']);
        assert(seq!['.', ',', ';'].drop_last() =~= seq!['.', ',']);
        assert(seq!['.', ','].drop_last() =~= seq!['.']);
        assert(seq!['.'].drop_last() =~= Seq::<char>::empty());
    }
    assert(word_end_text() =~= "(?P<tail>s?[\\s\\.\\,\\;\\?\\!\\-\\:\\$])"@);
}

} // verus!
