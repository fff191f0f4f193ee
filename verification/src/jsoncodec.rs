use vstd::prelude::*;

verus! {

/// The JSON text produced for a list of strings. It depends on the strings
/// alone; it is pinned down only through the encoder and decoder below.
pub uninterp spec fn json_of_strings(items: Seq<Seq<char>>) -> Seq<char>;

/// The JSON text produced for a list of pairs of strings.
pub uninterp spec fn json_of_pairs(items: Seq<(Seq<char>, Seq<char>)>) -> Seq<char>;

/// The JSON text produced for a single string.
pub uninterp spec fn json_of_string(item: Seq<char>) -> Seq<char>;

pub open spec fn views_of_strings(items: Seq<String>) -> Seq<Seq<char>> {
    items.map_values(|s: String| s@)
}

pub open spec fn views_of_pairs(items: Seq<(String, String)>) -> Seq<(Seq<char>, Seq<char>)> {
    items.map_values(|p: (String, String)| (p.0@, p.1@))
}

/// Relies on `serde_json::to_string_pretty` for `Vec<String>`: the JSON text
/// is a function of the strings alone, and serializing a vector of strings
/// cannot fail.
#[verifier::external_body]
pub fn encode_strings(items: &Vec<String>) -> (r: String)
    ensures
        r@ == json_of_strings(views_of_strings(items@)),
{
    serde_json::to_string_pretty(items).unwrap_or_default()
}

/// Relies on `serde_json::from_str` for `Vec<String>`: parsing JSON text
/// that the encoder produced yields the original strings.
#[verifier::external_body]
pub fn decode_strings(s: &str) -> (r: Option<Vec<String>>)
    ensures
        match r {
            Some(v) => forall|items: Seq<Seq<char>>|
                s@ == json_of_strings(items) ==> views_of_strings(v@) == items,
            None => forall|items: Seq<Seq<char>>| s@ != json_of_strings(items),
        },
{
    serde_json::from_str::<Vec<String>>(s).ok()
}

/// Relies on `serde_json::to_string_pretty` for `Vec<(String, String)>`: the
/// JSON text is a function of the pairs alone, and serializing them cannot
/// fail.
#[verifier::external_body]
pub fn encode_pairs(items: &Vec<(String, String)>) -> (r: String)
    ensures
        r@ == json_of_pairs(views_of_pairs(items@)),
{
    serde_json::to_string_pretty(items).unwrap_or_default()
}

/// Relies on `serde_json::from_str` for `Vec<(String, String)>`: parsing
/// JSON text that the encoder produced yields the original pairs.
#[verifier::external_body]
pub fn decode_pairs(s: &str) -> (r: Option<Vec<(String, String)>>)
    ensures
        match r {
            Some(v) => forall|items: Seq<(Seq<char>, Seq<char>)>|
                s@ == json_of_pairs(items) ==> views_of_pairs(v@) == items,
            None => forall|items: Seq<(Seq<char>, Seq<char>)>| s@ != json_of_pairs(items),
        },
{
    serde_json::from_str::<Vec<(String, String)>>(s).ok()
}

/// Relies on `serde_json::to_string` for `String`: the JSON text is a
/// function of the string alone, and serializing a string cannot fail.
#[verifier::external_body]
pub fn encode_string(item: &String) -> (r: String)
    ensures
        r@ == json_of_string(item@),
{
    serde_json::to_string(item).unwrap_or_default()
}

} // verus!
