//! Names under which the node's data is stored.
use crate::text::same;
use vstd::prelude::*;

verus! {

/// The file name that holds the scorer.
pub const SCORER_PERSISTENCE_FILE_NAME: &'static str = "scorer";

/// The namespace of the scorer, primary and secondary.
pub const SCORER_PERSISTENCE_NAMESPACE: &'static str = "";

/// The key of the scorer.
pub const SCORER_PERSISTENCE_KEY: &'static str = "scorer";

/// Whether these names are those of the scorer.
pub open spec fn names_scorer(primary: Seq<char>, secondary: Seq<char>, key: Seq<char>) -> bool {
    primary == SCORER_PERSISTENCE_NAMESPACE@ && secondary == SCORER_PERSISTENCE_NAMESPACE@ && key
        == SCORER_PERSISTENCE_KEY@
}

/// The key that is used in place of `key`.
pub open spec fn remapped(primary: Seq<char>, secondary: Seq<char>, key: Seq<char>) -> Seq<char> {
    if names_scorer(primary, secondary, key) {
        SCORER_PERSISTENCE_FILE_NAME@
    } else {
        key
    }
}

/// The scorer is kept in the file `scorer`, and everything else under its own key: no two keys of a
/// namespace end up in the same place.
pub proof fn law_keys_stay_apart(
    primary: Seq<char>,
    secondary: Seq<char>,
    a: Seq<char>,
    b: Seq<char>,
)
    ensures
        remapped(""@, ""@, "scorer"@) == "scorer"@,
        primary.len() > 0 || secondary.len() > 0 ==> remapped(primary, secondary, a) == a,
        a != "scorer"@ ==> remapped(primary, secondary, a) == a,
        remapped(primary, secondary, a) == remapped(primary, secondary, b) ==> a == b,
{
    reveal_strlit("");
}

/// The key that is used in place of `key`: the file name of the scorer in place of its key, and
/// every other key itself.
pub fn remap_scorer_key<'a>(
    primary_namespace: &str,
    secondary_namespace: &str,
    key: &'a str,
) -> (r: &'a str)
    ensures
        r@ == (if names_scorer(primary_namespace@, secondary_namespace@, key@) {
            SCORER_PERSISTENCE_FILE_NAME@
        } else {
            key@
        }),
        r@ == remapped(primary_namespace@, secondary_namespace@, key@),
{
    if same(primary_namespace, SCORER_PERSISTENCE_NAMESPACE) && same(
        secondary_namespace,
        SCORER_PERSISTENCE_NAMESPACE,
    ) && same(key, SCORER_PERSISTENCE_KEY) {
        SCORER_PERSISTENCE_FILE_NAME
    } else {
        key
    }
}

} // verus!
