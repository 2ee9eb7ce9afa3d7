//! What one rule does to a text, stated directly, and a scan that computes it.

use crate::boundary::boundary_punctuation_text;
use crate::rules::{is_letter, plain_text, rule_plain, Anchor, RuleText};
use vstd::prelude::*;
use vstd::std_specs::iter::IteratorSpec;
use vstd::string::*;

verus! {

/// Whether `c` is a whitespace character.
pub open spec fn is_whitespace(c: char) -> bool {
    let n = c as u32;
    ||| (0x09 <= n && n <= 0x0D)
    ||| n == 0x20
    ||| n == 0x85
    ||| n == 0xA0
    ||| n == 0x1680
    ||| (0x2000 <= n && n <= 0x200A)
    ||| n == 0x2028
    ||| n == 0x2029
    ||| n == 0x202F
    ||| n == 0x205F
    ||| n == 0x3000
}

/// Whether `c` is one of the punctuation characters that end a word.
pub open spec fn is_punctuation(c: char) -> bool {
    c == '.' || c == ',' || c == ';' || c == '?' || c == '!' || c == '-' || c == ':' || c == '$'
}

/// Whether `c` ends a word.
pub open spec fn is_boundary(c: char) -> bool {
    is_whitespace(c) || is_punctuation(c)
}

/// Whether `stem` stands in `text` at `at`.
pub open spec fn stem_at(text: Seq<char>, at: int, stem: Seq<char>) -> bool {
    &&& 0 <= at
    &&& at + stem.len() <= text.len()
    &&& text.subrange(at, at + stem.len()) == stem
}

/// The length of the end of word that begins at `at`: 1 for a boundary character, 2 for
/// an `s` and a boundary character, 0 where no end of word begins.
pub open spec fn tail_len(text: Seq<char>, at: int) -> int {
    if 0 <= at < text.len() && is_boundary(text[at]) {
        1
    } else if 0 <= at && at + 1 < text.len() && text[at] == 's' && is_boundary(text[at + 1]) {
        2
    } else {
        0
    }
}

/// The number of whitespace characters that stand in a row from `from` on.
pub open spec fn whitespace_run(text: Seq<char>, from: int) -> int
    decreases text.len() - from,
{
    if 0 <= from < text.len() && is_whitespace(text[from]) {
        1 + whitespace_run(text, from + 1)
    } else {
        0
    }
}

/// The length of the head that a match at `at` captures.
pub open spec fn head_len(text: Seq<char>, at: int, anchor: Anchor) -> int {
    match anchor {
        Anchor::Anywhere => 0,
        Anchor::AfterWhitespace => whitespace_run(text, at),
    }
}

/// The length of the match that begins at `at`, 0 where none begins: the head that the
/// anchor asks for, the stem, and an end of word.
pub open spec fn match_len(text: Seq<char>, at: int, anchor: Anchor, stem: Seq<char>) -> int {
    let head = head_len(text, at, anchor);
    let tail = tail_len(text, at + head + stem.len());
    if (anchor == Anchor::AfterWhitespace ==> head > 0) && stem_at(text, at + head, stem) && tail
        > 0 {
        head + stem.len() + tail
    } else {
        0
    }
}

/// The rewritten text from `from` on. Where a match begins, its head, the replacement and
/// its tail are written and the scan goes on behind the tail; elsewhere one character is
/// copied.
pub open spec fn rewritten_from(text: Seq<char>, from: int, anchor: Anchor, rule: RuleText) -> Seq<
    char,
>
    decreases text.len() - from,
{
    if from < 0 || from >= text.len() {
        Seq::empty()
    } else {
        let n = match_len(text, from, anchor, rule.stem);
        if n > 0 {
            let head = head_len(text, from, anchor);
            text.subrange(from, from + head) + rule.replacement + text.subrange(
                from + head + rule.stem.len(),
                from + n,
            ) + rewritten_from(text, from + n, anchor, rule)
        } else {
            seq![text[from]] + rewritten_from(text, from + 1, anchor, rule)
        }
    }
}

/// What one rule makes of a text: every match, found from the left and none overlapping
/// another, has its stem replaced, and its head and tail are kept as they were.
pub open spec fn rule_rewritten(text: Seq<char>, anchor: Anchor, rule: RuleText) -> Seq<char> {
    rewritten_from(text, 0, anchor, rule)
}

/// Whether `c` is a whitespace character.
pub fn whitespace_char(c: char) -> (b: bool)
    ensures
        b == is_whitespace(c),
{
    let n: u32 = c as u32;
    (0x09 <= n && n <= 0x0D) || n == 0x20 || n == 0x85 || n == 0xA0 || n == 0x1680 || (0x2000 <= n
        && n <= 0x200A) || n == 0x2028 || n == 0x2029 || n == 0x202F || n == 0x205F || n == 0x3000
}

/// Whether `c` ends a word.
pub fn boundary_char(c: char) -> (b: bool)
    ensures
        b == is_boundary(c),
{
    whitespace_char(c) || c == '.' || c == ',' || c == ';' || c == '?' || c == '!' || c == '-'
        || c == ':' || c == '$'
}

/// The characters of a text.
pub fn chars_of(text: &str) -> (chars: Vec<char>)
    ensures
        chars@ == text@,
{
    broadcast use {next_postcondition, axiom_spec_iter};

    let mut rest = text.chars();
    let mut chars: Vec<char> = Vec::new();
    loop
        invariant
            rest.obeys_prophetic_iter_laws(),
            rest.decrease() is Some,
            chars@ + rest.remaining() == text@,
        ensures
            chars@ == text@,
        decreases rest.decrease()->0,
    {
        let ghost before = chars@;
        let ghost left = rest.remaining();
        match rest.next() {
            Some(c) => {
                chars.push(c);
                proof {
                    assert(chars@ + left.drop_first() =~= before + left);
                }
            },
            None => {
                proof {
                    assert(before + left =~= before);
                }
                break ;
            },
        }
    }
    chars
}

/// Whether two texts hold the same characters.
pub fn same_chars(first: &Vec<char>, second: &Vec<char>) -> (b: bool)
    ensures
        b == (first@ == second@),
{
    if first.len() != second.len() {
        return false;
    }
    let mut i: usize = 0;
    while i < first.len()
        invariant
            first.len() == second.len(),
            i <= first.len(),
            first@.take(i as int) == second@.take(i as int),
        decreases first.len() - i,
    {
        if first[i] != second[i] {
            return false;
        }
        proof {
            assert(first@.take(i + 1) =~= first@.take(i as int).push(first@[i as int]));
            assert(second@.take(i + 1) =~= second@.take(i as int).push(second@[i as int]));
        }
        i += 1;
    }
    proof {
        assert(first@.take(i as int) =~= first@);
        assert(second@.take(i as int) =~= second@);
    }
    true
}

/// The number of whitespace characters in a row from `from` on.
pub fn whitespace_run_len(text: &Vec<char>, from: usize) -> (n: usize)
    requires
        from <= text.len(),
    ensures
        n == whitespace_run(text@, from as int),
        from + n <= text.len(),
{
    let mut i: usize = from;
    while i < text.len() && whitespace_char(text[i])
        invariant
            from <= i <= text.len(),
            whitespace_run(text@, from as int) == (i - from) + whitespace_run(text@, i as int),
        decreases text.len() - i,
    {
        i += 1;
    }
    i - from
}

/// Whether `stem` stands in `text` at `at`.
pub fn has_stem_at(text: &Vec<char>, at: usize, stem: &Vec<char>) -> (b: bool)
    requires
        at <= text.len(),
    ensures
        b == stem_at(text@, at as int, stem@),
{
    if stem.len() > text.len() - at {
        return false;
    }
    let ghost part = text@.subrange(at as int, at + stem.len());
    let mut i: usize = 0;
    while i < stem.len()
        invariant
            at + stem.len() <= text.len(),
            i <= stem.len(),
            part == text@.subrange(at as int, at + stem.len()),
            part.take(i as int) == stem@.take(i as int),
        decreases stem.len() - i,
    {
        if text[at + i] != stem[i] {
            assert(part[i as int] != stem@[i as int]);
            return false;
        }
        proof {
            assert(part.take(i + 1) =~= part.take(i as int).push(part[i as int]));
            assert(stem@.take(i + 1) =~= stem@.take(i as int).push(stem@[i as int]));
        }
        i += 1;
    }
    proof {
        assert(part.take(i as int) =~= part);
        assert(stem@.take(i as int) =~= stem@);
    }
    true
}

/// The length of the end of word that begins at `at`, 0 where none begins.
pub fn tail_len_at(text: &Vec<char>, at: usize) -> (n: usize)
    requires
        at <= text.len(),
    ensures
        n == tail_len(text@, at as int),
        at + n <= text.len(),
{
    if at < text.len() && boundary_char(text[at]) {
        1
    } else if at < text.len() && text.len() - at > 1 && text[at] == 's' && boundary_char(
        text[at + 1],
    ) {
        2
    } else {
        0
    }
}

/// The head length and the whole length of the match that begins at `at`; the whole
/// length is 0 where none begins.
pub fn match_at(text: &Vec<char>, at: usize, anchor: Anchor, stem: &Vec<char>) -> (r: (
    usize,
    usize,
))
    requires
        at <= text.len(),
    ensures
        r.1 == match_len(text@, at as int, anchor, stem@),
        r.1 > 0 ==> r.0 == head_len(text@, at as int, anchor),
        r.1 > 0 ==> r.0 + stem@.len() < r.1,
        at + r.1 <= text.len(),
{
    let head: usize = match anchor {
        Anchor::Anywhere => 0,
        Anchor::AfterWhitespace => whitespace_run_len(text, at),
    };
    let anchored = match anchor {
        Anchor::Anywhere => true,
        Anchor::AfterWhitespace => head > 0,
    };
    if !anchored || !has_stem_at(text, at + head, stem) {
        return (head, 0);
    }
    let tail = tail_len_at(text, at + head + stem.len());
    if tail == 0 {
        (head, 0)
    } else {
        (head, head + stem.len() + tail)
    }
}

/// Appends the characters of `text` from `from` up to `to`.
pub fn push_range(out: &mut Vec<char>, text: &Vec<char>, from: usize, to: usize)
    requires
        from <= to <= text.len(),
    ensures
        final(out)@ == old(out)@ + text@.subrange(from as int, to as int),
{
    let ghost before = out@;
    let mut i: usize = from;
    while i < to
        invariant
            from <= i <= to <= text.len(),
            out@ == before + text@.subrange(from as int, i as int),
        decreases to - i,
    {
        out.push(text[i]);
        proof {
            assert(text@.subrange(from as int, i as int).push(text@[i as int]) =~= text@.subrange(
                from as int,
                i + 1,
            ));
            assert(out@ =~= before + text@.subrange(from as int, i + 1));
        }
        i += 1;
    }
    proof {
        assert(before + text@.subrange(from as int, from as int) =~= before);
    }
}

/// Rewrites every match of a rule in `text`, scanning from the left.
pub fn rewrite(text: &Vec<char>, anchor: Anchor, stem: &Vec<char>, replacement: &Vec<char>) -> (out:
    Vec<char>)
    ensures
        out@ == rule_rewritten(
            text@,
            anchor,
            (RuleText { stem: stem@, replacement: replacement@ }),
        ),
{
    let ghost rule = RuleText { stem: stem@, replacement: replacement@ };
    let mut out: Vec<char> = Vec::new();
    let mut at: usize = 0;
    while at < text.len()
        invariant
            at <= text.len(),
            rule == (RuleText { stem: stem@, replacement: replacement@ }),
            out@ + rewritten_from(text@, at as int, anchor, rule) == rewritten_from(
                text@,
                0,
                anchor,
                rule,
            ),
        decreases text.len() - at,
    {
        let ghost before = out@;
        let ghost rest = rewritten_from(text@, at as int, anchor, rule);
        let (head, n) = match_at(text, at, anchor, stem);
        if n > 0 {
            push_range(&mut out, text, at, at + head);
            push_range(&mut out, replacement, 0, replacement.len());
            push_range(&mut out, text, at + head + stem.len(), at + n);
            proof {
                assert(replacement@.subrange(0, replacement@.len() as int) =~= replacement@);
                let written = text@.subrange(at as int, at + head) + rule.replacement
                    + text@.subrange(at + head + rule.stem.len(), at + n);
                let after = rewritten_from(text@, at + n, anchor, rule);
                assert(rest == written + after);
                assert(out@ =~= before + written);
                assert(out@ + after =~= before + rest);
            }
            at = at + n;
        } else {
            out.push(text[at]);
            proof {
                let after = rewritten_from(text@, at + 1, anchor, rule);
                assert(rest == seq![text@[at as int]] + after);
                assert(out@ + after =~= before + rest);
            }
            at = at + 1;
        }
    }
    proof {
        assert(rewritten_from(text@, at as int, anchor, rule) =~= Seq::<char>::empty());
        assert(out@ + Seq::<char>::empty() =~= out@);
    }
    out
}

/// What tells a character that is no ASCII letter.
pub open spec fn no_letter() -> spec_fn(char) -> bool {
    |c: char| !is_letter(c)
}

/// The characters of a text that are no ASCII letters, in their order: its whitespace,
/// its punctuation, and whatever else is no letter.
pub open spec fn not_letters(text: Seq<char>) -> Seq<char> {
    text.filter(no_letter())
}

/// The punctuation that ends a word is the punctuation of the boundary table.
pub proof fn lemma_punctuation_is_the_table(c: char)
    ensures
        is_punctuation(c) <==> boundary_punctuation_text().contains(c),
{
    let table = boundary_punctuation_text();
    if is_punctuation(c) {
        let i = if c == '.' {
            0int
        } else if c == ',' {
            1
        } else if c == ';' {
            2
        } else if c == '?' {
            3
        } else if c == '!' {
            4
        } else if c == '-' {
            5
        } else if c == ':' {
            6
        } else {
            7
        };
        assert(table[i] == c);
    }
}

/// A text of letters holds nothing else.
pub proof fn lemma_letters_leave_nothing(text: Seq<char>)
    requires
        plain_text(text),
    ensures
        not_letters(text) == Seq::<char>::empty(),
    decreases text.len(),
{
    reveal(Seq::filter);
    if text.len() > 0 {
        assert(is_letter(text[text.len() - 1]));
        assert forall|i: int| 0 <= i < text.drop_last().len() implies is_letter(
            #[trigger] text.drop_last()[i],
        ) by {
            assert(text.drop_last()[i] == text[i]);
        }
        lemma_letters_leave_nothing(text.drop_last());
    }
    assert(not_letters(text) =~= Seq::<char>::empty());
}

/// From any place on, a plain rule keeps every character that is no letter, in its
/// order, and adds none.
pub proof fn lemma_rewrite_keeps_others_from(
    text: Seq<char>,
    from: int,
    anchor: Anchor,
    rule: RuleText,
)
    requires
        rule_plain(rule),
        0 <= from <= text.len(),
    ensures
        not_letters(rewritten_from(text, from, anchor, rule)) == not_letters(
            text.subrange(from, text.len() as int),
        ),
    decreases text.len() - from,
{
    let p = no_letter();
    let len = text.len() as int;
    if from >= len {
        assert(text.subrange(from, len) =~= Seq::<char>::empty());
    } else {
        let n = match_len(text, from, anchor, rule.stem);
        if n > 0 {
            let head = head_len(text, from, anchor);
            let mid = from + head + rule.stem.len();
            let h = text.subrange(from, from + head);
            let s = text.subrange(from + head, mid);
            let t = text.subrange(mid, from + n);
            let rest_in = text.subrange(from + n, len);
            let rest_out = rewritten_from(text, from + n, anchor, rule);
            lemma_rewrite_keeps_others_from(text, from + n, anchor, rule);
            lemma_letters_leave_nothing(rule.stem);
            lemma_letters_leave_nothing(rule.replacement);
            assert(s == rule.stem);
            assert(text.subrange(from, len) =~= h + s + t + rest_in);
            Seq::filter_distributes_over_add(h + s + t, rest_in, p);
            Seq::filter_distributes_over_add(h + s, t, p);
            Seq::filter_distributes_over_add(h, s, p);
            Seq::filter_distributes_over_add(h + rule.replacement + t, rest_out, p);
            Seq::filter_distributes_over_add(h + rule.replacement, t, p);
            Seq::filter_distributes_over_add(h, rule.replacement, p);
            assert(h.filter(p) + Seq::<char>::empty() =~= h.filter(p));
        } else {
            let one = seq![text[from]];
            let rest_in = text.subrange(from + 1, len);
            let rest_out = rewritten_from(text, from + 1, anchor, rule);
            lemma_rewrite_keeps_others_from(text, from + 1, anchor, rule);
            assert(text.subrange(from, len) =~= one + rest_in);
            Seq::filter_distributes_over_add(one, rest_in, p);
            Seq::filter_distributes_over_add(one, rest_out, p);
        }
    }
}

/// A plain rule keeps every character of the text that is no letter, so every head and
/// every tail, in its order, and adds none.
pub proof fn lemma_rewrite_keeps_what_is_no_letter(text: Seq<char>, anchor: Anchor, rule: RuleText)
    requires
        rule_plain(rule),
    ensures
        not_letters(rule_rewritten(text, anchor, rule)) == not_letters(text),
{
    lemma_rewrite_keeps_others_from(text, 0, anchor, rule);
    assert(text.subrange(0, text.len() as int) =~= text);
}

/// Under the anchor after whitespace, a text without whitespace is left as it is.
pub proof fn lemma_no_whitespace_no_change(text: Seq<char>, from: int, rule: RuleText)
    requires
        0 <= from <= text.len(),
        forall|i: int| 0 <= i < text.len() ==> !is_whitespace(#[trigger] text[i]),
    ensures
        rewritten_from(text, from, Anchor::AfterWhitespace, rule) == text.subrange(
            from,
            text.len() as int,
        ),
    decreases text.len() - from,
{
    let len = text.len() as int;
    if from >= len {
        assert(text.subrange(from, len) =~= Seq::<char>::empty());
    } else {
        assert(whitespace_run(text, from) == 0);
        lemma_no_whitespace_no_change(text, from + 1, rule);
        assert(text.subrange(from, len) =~= seq![text[from]] + text.subrange(from + 1, len));
    }
}

} // verus!
