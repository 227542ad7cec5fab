//! Text for markup: the escaping of the characters that markup reserves.
use vstd::prelude::*;

verus! {

/// `text` with `to` in the place of every `from`.
pub open spec fn replace_char_spec(text: Seq<char>, from: char, to: Seq<char>) -> Seq<char>
    decreases text.len(),
{
    if text.len() == 0 {
        Seq::<char>::empty()
    } else {
        replace_char_spec(text.drop_last(), from, to) + (if text.last() == from {
            to
        } else {
            seq![text.last()]
        })
    }
}

/// What stands for one character in markup: an entity for `&`, `<`, `>`
/// and `"`, the character itself otherwise.
pub open spec fn escape_char_spec(c: char) -> Seq<char> {
    if c == '&' {
        "&amp;"@
    } else if c == '<' {
        "&lt;"@
    } else if c == '>' {
        "&gt;"@
    } else if c == '"' {
        "&quot;"@
    } else {
        seq![c]
    }
}

/// `text` with every character escaped for markup.
pub open spec fn escape_xml_spec(text: Seq<char>) -> Seq<char>
    decreases text.len(),
{
    if text.len() == 0 {
        Seq::<char>::empty()
    } else {
        escape_xml_spec(text.drop_last()) + escape_char_spec(text.last())
    }
}

/// The four replacements that escaping makes, one after the other, the
/// ampersand first.
pub open spec fn replaced_in_turn(text: Seq<char>) -> Seq<char> {
    replace_char_spec(
        replace_char_spec(
            replace_char_spec(replace_char_spec(text, '&', "&amp;"@), '<', "&lt;"@),
            '>',
            "&gt;"@,
        ),
        '"',
        "&quot;"@,
    )
}

/// Calls `str::replace` with a character as the pattern.
///
/// Trusted: the result is `text` with every occurrence of `from` replaced
/// by `to` and every other character kept, in order.
#[verifier::external_body]
fn replace_char(text: &str, from: char, to: &str) -> (r: String)
    ensures
        r@ == replace_char_spec(text@, from, to@),
{
    text.replace(from, to)
}

/// Replacing distributes over concatenation.
pub proof fn lemma_replace_concat(a: Seq<char>, b: Seq<char>, from: char, to: Seq<char>)
    ensures
        replace_char_spec(a + b, from, to) == replace_char_spec(a, from, to) + replace_char_spec(
            b,
            from,
            to,
        ),
    decreases b.len(),
{
    if b.len() == 0 {
        assert(a + b =~= a);
    } else {
        assert((a + b).drop_last() =~= a + b.drop_last());
        lemma_replace_concat(a, b.drop_last(), from, to);
    }
}

/// Replacing a character that does not occur changes nothing.
pub proof fn lemma_replace_absent(text: Seq<char>, from: char, to: Seq<char>)
    requires
        forall|i: int| 0 <= i < text.len() ==> text[i] != from,
    ensures
        replace_char_spec(text, from, to) == text,
    decreases text.len(),
{
    if text.len() > 0 {
        lemma_replace_absent(text.drop_last(), from, to);
        assert(text.drop_last() + seq![text.last()] =~= text);
    }
}

/// Replacing in a text of one character.
pub proof fn lemma_replace_single(c: char, from: char, to: Seq<char>)
    ensures
        replace_char_spec(seq![c], from, to) == (if c == from {
            to
        } else {
            seq![c]
        }),
{
    let s = seq![c];
    assert(s.drop_last() =~= Seq::<char>::empty());
    assert(replace_char_spec(s.drop_last(), from, to) =~= Seq::<char>::empty());
    assert(replace_char_spec(s, from, to) =~= (if c == from {
        to
    } else {
        seq![c]
    }));
}

/// The three later replacements leave what stands for one character as it
/// is, and turn a character that is theirs into its entity.
proof fn lemma_later_replacements(c: char)
    ensures
        replace_char_spec(
            replace_char_spec(
                replace_char_spec(
                    if c == '&' {
                        "&amp;"@
                    } else {
                        seq![c]
                    },
                    '<',
                    "&lt;"@,
                ),
                '>',
                "&gt;"@,
            ),
            '"',
            "&quot;"@,
        ) == escape_char_spec(c),
{
    reveal_strlit("&amp;");
    reveal_strlit("&lt;");
    reveal_strlit("&gt;");
    reveal_strlit("&quot;");
    if c == '&' {
        lemma_replace_absent("&amp;"@, '<', "&lt;"@);
        lemma_replace_absent("&amp;"@, '>', "&gt;"@);
        lemma_replace_absent("&amp;"@, '"', "&quot;"@);
    } else if c == '<' {
        lemma_replace_single(c, '<', "&lt;"@);
        lemma_replace_absent("&lt;"@, '>', "&gt;"@);
        lemma_replace_absent("&lt;"@, '"', "&quot;"@);
    } else if c == '>' {
        lemma_replace_single(c, '<', "&lt;"@);
        lemma_replace_single(c, '>', "&gt;"@);
        lemma_replace_absent("&gt;"@, '"', "&quot;"@);
    } else {
        lemma_replace_single(c, '<', "&lt;"@);
        lemma_replace_single(c, '>', "&gt;"@);
        lemma_replace_single(c, '"', "&quot;"@);
    }
}

/// Replacing the four reserved characters in turn escapes every character
/// of the text exactly once.
pub proof fn lemma_replaced_in_turn_escapes(text: Seq<char>)
    ensures
        replaced_in_turn(text) == escape_xml_spec(text),
    decreases text.len(),
{
    if text.len() > 0 {
        let front = text.drop_last();
        let c = text.last();
        let piece = if c == '&' {
            "&amp;"@
        } else {
            seq![c]
        };
        lemma_replaced_in_turn_escapes(front);
        let text_amp = replace_char_spec(front, '&', "&amp;"@);
        assert(replace_char_spec(text, '&', "&amp;"@) == text_amp + piece);
        lemma_replace_concat(text_amp, piece, '<', "&lt;"@);
        let text_lt = replace_char_spec(text_amp, '<', "&lt;"@);
        let piece_lt = replace_char_spec(piece, '<', "&lt;"@);
        lemma_replace_concat(text_lt, piece_lt, '>', "&gt;"@);
        let text_gt = replace_char_spec(text_lt, '>', "&gt;"@);
        let piece_gt = replace_char_spec(piece_lt, '>', "&gt;"@);
        lemma_replace_concat(text_gt, piece_gt, '"', "&quot;"@);
        lemma_later_replacements(c);
    }
}

/// Escapes `text` for use inside markup: `&`, `<`, `>` and `"` become
/// `&amp;`, `&lt;`, `&gt;` and `&quot;`.
pub fn escape_xml(text: &str) -> (r: String)
    ensures
        r@ == escape_xml_spec(text@),
{
    let step1 = replace_char(text, '&', "&amp;");
    let step2 = replace_char(step1.as_str(), '<', "&lt;");
    let step3 = replace_char(step2.as_str(), '>', "&gt;");
    let step4 = replace_char(step3.as_str(), '"', "&quot;");
    proof {
        lemma_replaced_in_turn_escapes(text@);
    }
    step4
}

} // verus!
