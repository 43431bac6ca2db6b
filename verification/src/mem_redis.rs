//! Keys of the cache.
use vstd::prelude::*;

verus! {

/// The prefix of the key that marks a document as recently written.
pub open spec fn phantom_prefix() -> Seq<char> {
    "phantom_"@
}

/// The phantom key of a document: its id behind `phantom_`.
pub open spec fn phantom_token(id: Seq<char>) -> Seq<char> {
    phantom_prefix() + id
}

/// The phantom key of the document `id`: `phantom_` followed by the id.
pub fn get_phantom_token(id: &String) -> (r: String)
    ensures
        r@ == phantom_token(id@),
{
    let mut token = "phantom_".to_string();
    token.append(id.as_str());
    token
}

/// Different documents have different phantom keys, and the id is what
/// follows the prefix.
pub proof fn law_phantom_token_injective(a: Seq<char>, b: Seq<char>)
    ensures
        phantom_token(a).take(phantom_prefix().len() as int) == phantom_prefix(),
        phantom_token(a).skip(phantom_prefix().len() as int) == a,
        phantom_token(a) == phantom_token(b) ==> a == b,
{
    assert(phantom_token(a).take(phantom_prefix().len() as int) =~= phantom_prefix());
    assert(phantom_token(a).skip(phantom_prefix().len() as int) =~= a);
    assert(phantom_token(b).skip(phantom_prefix().len() as int) =~= b);
}

} // verus!
