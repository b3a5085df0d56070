use vstd::prelude::*;
use vstd::std_specs::iter::IteratorSpec;
use vstd::string::StringExecFns;

verus! {

/// What stands in character data for one character of a text: a reference
/// for the ampersand and for the two angle brackets, the character itself
/// for any other.
pub open spec fn escaped_char(c: char) -> Seq<char> {
    if c == '&' {
        "&amp;"@
    } else if c == '<' {
        "&lt;"@
    } else if c == '>' {
        "&gt;"@
    } else {
        seq![c]
    }
}

/// A text as character data: each of its characters escaped, in order.
pub open spec fn escaped(text: Seq<char>) -> Seq<char>
    decreases text.len(),
{
    if text.len() == 0 {
        Seq::<char>::empty()
    } else {
        escaped(text.drop_last()) + escaped_char(text.last())
    }
}

/// Whether `c` may stand in an XML 1.0 document at all.
pub open spec fn is_xml_char(c: char) -> bool {
    let code = c as int;
    code == 0x9 || code == 0xA || code == 0xD || (0x20 <= code <= 0xD7FF) || (0xE000 <= code
        <= 0xFFFD) || 0x10000 <= code
}

/// Whether every character of `text` may stand in an XML 1.0 document.
pub open spec fn all_xml_chars(text: Seq<char>) -> bool {
    forall|i: int| 0 <= i < text.len() ==> is_xml_char(#[trigger] text[i])
}

/// Whether `part` stands in `text` from place `at` on.
pub open spec fn occurs_at(text: Seq<char>, at: int, part: Seq<char>) -> bool {
    0 <= at && at + part.len() <= text.len() && text.subrange(at, at + part.len()) == part
}

/// The places of `text` in which `part` stands.
pub open spec fn places(text: Seq<char>, part: Seq<char>) -> Set<int> {
    Set::new(|at: int| occurs_at(text, at, part))
}

/// Whether `part` stands in `text` in exactly one place.
pub open spec fn occurs_once(text: Seq<char>, part: Seq<char>) -> bool {
    places(text, part).finite() && places(text, part).len() == 1
}

/// A part that stands in a text in the place `place` and in no other stands
/// in it exactly once.
pub proof fn lemma_occurs_once(text: Seq<char>, part: Seq<char>, place: int)
    requires
        forall|at: int| occurs_at(text, at, part) <==> at == place,
    ensures
        occurs_once(text, part),
{
    assert(places(text, part) =~= set![place]);
}

/// Whether one of the three references that `escaped` writes stands in
/// `text` from place `at` on.
pub open spec fn reference_at(text: Seq<char>, at: int) -> bool {
    occurs_at(text, at, "&amp;"@) || occurs_at(text, at, "&lt;"@) || occurs_at(text, at, "&gt;"@)
}

/// Text that holds no angle bracket, and no ampersand but at the start of a
/// reference.
pub open spec fn is_markup_free(text: Seq<char>) -> bool {
    forall|i: int|
        0 <= i < text.len() ==> {
            &&& (#[trigger] text[i]) != '<'
            &&& text[i] != '>'
            &&& text[i] == '&' ==> reference_at(text, i)
        }
}

/// Well-formed content of an element that has no child element: characters
/// of XML only, no tag opening in it, every ampersand the start of a
/// reference, and the sequence `]]>` nowhere.
pub open spec fn is_character_data(text: Seq<char>) -> bool {
    &&& all_xml_chars(text)
    &&& forall|i: int|
        0 <= i < text.len() ==> {
            &&& (#[trigger] text[i]) != '<'
            &&& text[i] == '&' ==> reference_at(text, i)
            &&& !occurs_at(text, i, "]]>"@)
        }
}

/// Escaping goes through a text from left to right: what a text and one
/// more character give is what the text gives, and then what the character
/// gives.
pub proof fn lemma_escaped_push(text: Seq<char>, c: char)
    ensures
        escaped(text.push(c)) == escaped(text) + escaped_char(c),
{
    assert(text.push(c).drop_last() =~= text);
}

/// What stands for one character holds no markup, and is as fit for XML as
/// the character.
proof fn lemma_escaped_char_markup_free(c: char)
    ensures
        is_markup_free(escaped_char(c)),
        escaped_char(c).len() >= 1,
        is_xml_char(c) ==> all_xml_chars(escaped_char(c)),
{
    reveal_strlit("&amp;");
    reveal_strlit("&lt;");
    reveal_strlit("&gt;");
    let e = escaped_char(c);
    if c == '&' {
        assert(e.subrange(0, 5) =~= e);
    } else if c == '<' {
        assert(e.subrange(0, 4) =~= e);
    } else if c == '>' {
        assert(e.subrange(0, 4) =~= e);
    }
}

/// A part that stands in a text stands in the same place of the text with
/// more behind it.
proof fn lemma_occurs_in_front(front: Seq<char>, back: Seq<char>, at: int, part: Seq<char>)
    requires
        occurs_at(front, at, part),
    ensures
        occurs_at(front + back, at, part),
{
    assert((front + back).subrange(at, at + part.len()) =~= front.subrange(at, at + part.len()));
}

/// A part that stands in a text stands as far further on as the text that
/// is put in front is long.
proof fn lemma_occurs_behind(front: Seq<char>, back: Seq<char>, at: int, part: Seq<char>)
    requires
        occurs_at(back, at, part),
    ensures
        occurs_at(front + back, front.len() + at, part),
{
    assert((front + back).subrange(front.len() + at, front.len() + at + part.len())
        =~= back.subrange(at, at + part.len()));
}

/// Two texts without markup make one.
proof fn lemma_markup_free_concat(front: Seq<char>, back: Seq<char>)
    requires
        is_markup_free(front),
        is_markup_free(back),
    ensures
        is_markup_free(front + back),
{
    let whole = front + back;
    assert forall|i: int| 0 <= i < whole.len() implies {
        &&& (#[trigger] whole[i]) != '<'
        &&& whole[i] != '>'
        &&& whole[i] == '&' ==> reference_at(whole, i)
    } by {
        if i < front.len() {
            assert(whole[i] == front[i]);
            if front[i] == '&' {
                if occurs_at(front, i, "&amp;"@) {
                    lemma_occurs_in_front(front, back, i, "&amp;"@);
                } else if occurs_at(front, i, "&lt;"@) {
                    lemma_occurs_in_front(front, back, i, "&lt;"@);
                } else {
                    lemma_occurs_in_front(front, back, i, "&gt;"@);
                }
            }
        } else {
            let j = i - front.len();
            assert(whole[i] == back[j]);
            if back[j] == '&' {
                if occurs_at(back, j, "&amp;"@) {
                    lemma_occurs_behind(front, back, j, "&amp;"@);
                } else if occurs_at(back, j, "&lt;"@) {
                    lemma_occurs_behind(front, back, j, "&lt;"@);
                } else {
                    lemma_occurs_behind(front, back, j, "&gt;"@);
                }
            }
        }
    }
}

/// An escaped text holds no markup, whatever the text.
pub proof fn lemma_escaped_markup_free(text: Seq<char>)
    ensures
        is_markup_free(escaped(text)),
    decreases text.len(),
{
    if text.len() > 0 {
        lemma_escaped_markup_free(text.drop_last());
        lemma_escaped_char_markup_free(text.last());
        lemma_markup_free_concat(escaped(text.drop_last()), escaped_char(text.last()));
    }
}

/// An escaped text is made of characters of XML where the text is.
pub proof fn lemma_escaped_xml_chars(text: Seq<char>)
    requires
        all_xml_chars(text),
    ensures
        all_xml_chars(escaped(text)),
    decreases text.len(),
{
    if text.len() > 0 {
        let front = text.drop_last();
        assert forall|i: int| 0 <= i < front.len() implies is_xml_char(#[trigger] front[i]) by {
            assert(front[i] == text[i]);
        }
        lemma_escaped_xml_chars(front);
        lemma_escaped_char_markup_free(text.last());
        let whole = escaped(front) + escaped_char(text.last());
        assert forall|i: int| 0 <= i < whole.len() implies is_xml_char(#[trigger] whole[i]) by {
            if i < escaped(front).len() {
                assert(whole[i] == escaped(front)[i]);
            } else {
                assert(whole[i] == escaped_char(text.last())[i - escaped(front).len()]);
            }
        }
    }
}

/// Escaping makes well-formed character data of every text whose characters
/// XML admits.
pub proof fn lemma_escaped_is_character_data(text: Seq<char>)
    requires
        all_xml_chars(text),
    ensures
        is_character_data(escaped(text)),
{
    lemma_escaped_markup_free(text);
    lemma_escaped_xml_chars(text);
    reveal_strlit("]]>");
    let data = escaped(text);
    assert forall|i: int| 0 <= i < data.len() implies !occurs_at(data, i, "]]>"@) by {
        if occurs_at(data, i, "]]>"@) {
            assert(data.subrange(i, i + 3)[2] == '>');
            assert(data[i + 2] == '>');
        }
    }
}

/// Writes a text as character data.
pub fn escape_text(text: &str) -> (data: String)
    ensures
        data@ == escaped(text@),
{
    let mut data = String::new();
    for c in it: text.chars()
        invariant
            it.seq() == text@,
            data@ == escaped(text@.take(it.index() as int)),
    {
        proof {
            lemma_escaped_push(text@.take(it.index() as int), c);
            assert(text@.take(it.index() + 1) =~= text@.take(it.index() as int).push(c));
        }
        if c == '&' {
            data.append("&amp;");
        } else if c == '<' {
            data.append("&lt;");
        } else if c == '>' {
            data.append("&gt;");
        } else {
            data.push(c);
            proof {
                let before = escaped(text@.take(it.index() as int));
                assert(before.push(c) =~= before + seq![c]);
            }
        }
    }
    proof {
        assert(text@.take(text@.len() as int) =~= text@);
    }
    data
}

} // verus!
