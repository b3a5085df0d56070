use vstd::prelude::*;

verus! {

/// A form as the pairs of a name and a value that it lists, in its order.
pub type Pairs = Seq<(Seq<char>, Seq<char>)>;

/// The pairs that a byte string denotes in the
/// `application/x-www-form-urlencoded` syntax: what `form_urlencoded::parse`
/// yields for it, from first to last.
pub uninterp spec fn form_pairs(input: Seq<u8>) -> Seq<(Seq<char>, Seq<char>)>;

/// The characters of each name and each value of a list of pairs.
pub open spec fn pairs_view(pairs: Seq<(String, String)>) -> Pairs {
    pairs.map_values(|pair: (String, String)| (pair.0@, pair.1@))
}

/// `form_urlencoded::parse`, its items made owned by `Parse::into_owned` and
/// gathered in a vector. The parser takes any bytes, fails on none, and what it
/// yields depends on the bytes alone; the contract gives that list its name and
/// claims nothing of what is in it.
#[verifier::external_body]
pub(crate) fn parse_form(input: &[u8]) -> (pairs: Vec<(String, String)>)
    ensures
        pairs_view(pairs@) == form_pairs(input@),
{
    form_urlencoded::parse(input).into_owned().collect()
}

} // verus!
