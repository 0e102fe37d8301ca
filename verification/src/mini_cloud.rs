//! The routes of the mini-program owner service that the desktop bridge may
//! call: a fixed list of owner routes and the owner routes that name one
//! record by its UUID. Nothing else, and never an arbitrary URL.
use vstd::prelude::*;

use crate::restore::{canonical_uuid, canonical_uuid_text};
use crate::text::{chars_of, lemma_slash_pieces_nonempty, same_text, slash_pieces, split_path};

verus! {

/// The owner routes that name no record.
pub open spec fn fixed_route(method: Seq<char>, path: Seq<char>) -> bool {
    ||| method == "GET"@ && path == "/mini-owner/state"@
    ||| method == "GET"@ && path == "/mini-owner/support-contact"@
    ||| method == "GET"@ && path == "/mini-owner/state?activePublications=true"@
    ||| method == "POST"@ && path == "/mini-owner/publications/search"@
    ||| method == "PUT"@ && path == "/mini-owner/bank"@
    ||| method == "POST"@ && path == "/mini-owner/invites"@
    ||| method == "POST"@ && path == "/mini-owner/assets"@
}

/// Whether the bridge may send `method` to `path`: a fixed owner route;
/// rotating an invite named by its UUID (`POST`); or, for an owner record
/// named by its UUID, deleting an invite, replacing a member, or replacing
/// or deleting a publication.
pub open spec fn spec_route_allowed(method: Seq<char>, path: Seq<char>) -> bool {
    let parts = slash_pieces(path);
    if fixed_route(method, path) {
        true
    } else if parts.len() == 5 && parts[0].len() == 0 && parts[1] == "mini-owner"@ && parts[2] == "invites"@
        && parts[4] == "rotate"@ && canonical_uuid_text(parts[3]) is Some {
        method == "POST"@
    } else if parts.len() != 4 || parts[0].len() != 0 || parts[1] != "mini-owner"@ || canonical_uuid_text(
        parts[3],
    ) is None {
        false
    } else {
        ||| method == "DELETE"@ && parts[2] == "invites"@
        ||| method == "PUT"@ && parts[2] == "members"@
        ||| (method == "PUT"@ || method == "DELETE"@) && parts[2] == "publications"@
    }
}

/// Whether `value` is a UUID.
fn is_uuid(value: &str) -> (found: bool)
    ensures
        found == canonical_uuid_text(value@) is Some,
{
    canonical_uuid(value).is_some()
}

/// Whether the bridge may send `method` to `path`.
pub fn allowed(method: &str, path: &str) -> (ok: bool)
    ensures
        ok == spec_route_allowed(method@, path@),
{
    let get = same_text(method, "GET");
    let post = same_text(method, "POST");
    let put = same_text(method, "PUT");
    let delete = same_text(method, "DELETE");
    if (get && same_text(path, "/mini-owner/state")) || (get && same_text(path, "/mini-owner/support-contact"))
        || (get && same_text(path, "/mini-owner/state?activePublications=true")) || (post && same_text(
        path,
        "/mini-owner/publications/search",
    )) || (put && same_text(path, "/mini-owner/bank")) || (post && same_text(path, "/mini-owner/invites")) || (
    post && same_text(path, "/mini-owner/assets")) {
        return true;
    }
    let parts = split_path(path);
    proof {
        lemma_slash_pieces_nonempty(path@);
    }
    if parts.len() == 5 && chars_of(parts[0].as_str()).len() == 0 && same_text(parts[1].as_str(), "mini-owner") && same_text(
        parts[2].as_str(),
        "invites",
    ) && same_text(parts[4].as_str(), "rotate") && is_uuid(parts[3].as_str()) {
        return post;
    }
    if parts.len() != 4 || chars_of(parts[0].as_str()).len() != 0 || !same_text(parts[1].as_str(), "mini-owner") || !is_uuid(
        parts[3].as_str(),
    ) {
        return false;
    }
    let kind = parts[2].as_str();
    (delete && same_text(kind, "invites")) || (put && same_text(kind, "members")) || ((put || delete) && same_text(
        kind,
        "publications",
    ))
}

} // verus!
