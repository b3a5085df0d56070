use vstd::prelude::*;
use vstd::std_specs::iter::IteratorSpec;

verus! {

/// `String::push` of std: the string afterwards is the string before with the
/// one character `c` added at its end.
pub assume_specification[ String::push ](text: &mut String, c: char)
    ensures
        final(text)@ == old(text)@.push(c),
;

/// The characters of an owned text that may be absent.
pub open spec fn optional_view(text: Option<String>) -> Option<Seq<char>> {
    match text {
        Some(s) => Some(s@),
        None => None,
    }
}

/// The characters of a borrowed text that may be absent.
pub open spec fn text_view(text: Option<&str>) -> Option<Seq<char>> {
    match text {
        Some(s) => Some(s@),
        None => None,
    }
}

/// Whether `prefix` is an initial part of `text`.
pub open spec fn is_prefix(prefix: Seq<char>, text: Seq<char>) -> bool {
    prefix.len() <= text.len() && text.subrange(0, prefix.len() as int) == prefix
}

/// Tells whether `text` begins with `prefix`, stopping at the first character
/// that differs.
pub fn starts_with(text: &str, prefix: &str) -> (found: bool)
    ensures
        found == is_prefix(prefix@, text@),
{
    let mut rest = text.chars();
    let mut wanted = prefix.chars();
    let ghost mut seen: int = 0;
    loop
        invariant
            0 <= seen <= prefix@.len(),
            seen <= text@.len(),
            wanted.obeys_prophetic_iter_laws(),
            rest.obeys_prophetic_iter_laws(),
            wanted.remaining() == prefix@.skip(seen),
            rest.remaining() == text@.skip(seen),
            text@.take(seen) == prefix@.take(seen),
        decreases prefix@.len() - seen,
    {
        match wanted.next() {
            None => {
                proof {
                    assert(prefix@.take(seen) =~= prefix@);
                }
                return true;
            },
            Some(c) => {
                match rest.next() {
                    None => {
                        return false;
                    },
                    Some(d) => {
                        if c != d {
                            proof {
                                assert(text@[seen] != prefix@[seen]);
                                if is_prefix(prefix@, text@) {
                                    assert(text@.subrange(0, prefix@.len() as int)[seen]
                                        == prefix@[seen]);
                                }
                            }
                            return false;
                        }
                        proof {
                            assert(text@.take(seen + 1) =~= text@.take(seen).push(d));
                            assert(prefix@.take(seen + 1) =~= prefix@.take(seen).push(c));
                            assert(prefix@.skip(seen).drop_first() =~= prefix@.skip(seen + 1));
                            assert(text@.skip(seen).drop_first() =~= text@.skip(seen + 1));
                            seen = seen + 1;
                        }
                    },
                }
            },
        }
    }
}

/// Tells whether two strings hold the same characters.
pub fn same_text(left: &str, right: &str) -> (same: bool)
    ensures
        same == (left@ == right@),
{
    let same = starts_with(left, right) && starts_with(right, left);
    proof {
        if same {
            assert(left@ =~= left@.subrange(0, right@.len() as int));
        }
        if left@ == right@ {
            assert(left@.subrange(0, left@.len() as int) =~= left@);
        }
    }
    same
}

} // verus!
