//! Stable identities.
//!
//! A plugin may be loaded under an identity that marks it as an experimental
//! variant. The sandbox is shown the identity without the marker, while the
//! registry goes on to know the plugin by the identity it was given.

use crate::error::PluginError;
use vstd::prelude::*;
use vstd::string::*;

verus! {

/// The marker in front of the identity of an experimental variant.
pub open spec fn unstable_marker() -> Seq<char> {
    seq!['u', 'n', 's', 't', 'a', 'b', 'l', 'e', '_']
}

/// The identity without the marker, if it begins with it; else the identity.
pub open spec fn stable_identity(id: Seq<char>) -> Seq<char> {
    if unstable_marker().is_prefix_of(id) {
        id.skip(unstable_marker().len() as int)
    } else {
        id
    }
}

/// Whether `warpgate_api::Id::new` accepts these characters as an identifier.
pub uninterp spec fn id_format_accepted(id: Seq<char>) -> bool;

#[verifier::external_type_specification]
#[verifier::external_body]
pub struct ExIdError(warpgate_api::IdError);

/// Calls `warpgate_api::Id::new`, which holds the text against the pattern
/// of an identifier. The contract names the verdict, and says that an
/// accepted identifier has the characters that were handed in.
#[verifier::external_body]
fn parse_id(id: &str) -> (r: Result<String, warpgate_api::IdError>)
    ensures
        r is Ok <==> id_format_accepted(id@),
        r matches Ok(s) ==> s@ == id@,
{
    warpgate_api::Id::new(id).map(|parsed| parsed.as_str().to_owned())
}

/// Removes the marker from the front of an identity that begins with it.
pub fn strip_unstable(id: &str) -> (r: String)
    ensures
        r@ == stable_identity(id@),
{
    let marker = "unstable_";
    proof {
        reveal_strlit("unstable_");
        assert(marker@ =~= unstable_marker());
    }
    let id_len: usize = id.unicode_len();
    let marker_len: usize = marker.unicode_len();
    if id_len < marker_len {
        return id.to_owned();
    }
    let mut i: usize = 0;
    while i < marker_len
        invariant
            i <= marker_len,
            marker_len == marker@.len(),
            id_len == id@.len(),
            marker_len <= id_len,
            marker@ == unstable_marker(),
            forall|j: int| 0 <= j < i ==> id@[j] == marker@[j],
        decreases marker_len - i,
    {
        if id.get_char(i) != marker.get_char(i) {
            assert(!unstable_marker().is_prefix_of(id@)) by {
                if unstable_marker().is_prefix_of(id@) {
                    assert(id@.subrange(0, 9)[i as int] == unstable_marker()[i as int]);
                }
            }
            return id.to_owned();
        }
        i += 1;
    }
    assert(unstable_marker().is_prefix_of(id@)) by {
        assert(id@.subrange(0, 9) =~= unstable_marker());
    }
    let rest = id.substring_char(marker_len, id_len);
    assert(rest@ =~= id@.skip(9));
    rest.to_owned()
}

/// Settles the stable identity once the identifier pattern has spoken:
/// the accepted identifier, or `InvalidId` with the candidate.
pub fn settle_stable_id(candidate: String, verdict: Result<String, warpgate_api::IdError>) -> (r:
    Result<String, PluginError>)
    ensures
        match verdict {
            Ok(accepted) => r matches Ok(s) && s@ == accepted@,
            Err(_) => r matches Err(PluginError::InvalidId { id }) && id@ == candidate@,
        },
{
    match verdict {
        Ok(accepted) => Ok(accepted),
        Err(_) => Err(PluginError::InvalidId { id: candidate }),
    }
}

/// The identity under which the sandbox knows a plugin: the identity
/// without the marker, if the identifier pattern accepts it, and
/// `InvalidId` if it does not.
pub fn stable_id(id: &str) -> (r: Result<String, PluginError>)
    ensures
        id_format_accepted(stable_identity(id@)) ==> (r matches Ok(s) && s@ == stable_identity(
            id@,
        )),
        !id_format_accepted(stable_identity(id@)) ==> (r matches Err(
            PluginError::InvalidId { id: rejected },
        ) && rejected@ == stable_identity(id@)),
{
    let candidate = strip_unstable(id);
    let verdict = parse_id(candidate.as_str());
    settle_stable_id(candidate, verdict)
}

} // verus!
