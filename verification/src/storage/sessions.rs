//! The multipart uploads that are in progress, in a `DashMap` by upload ID.
use crate::storage::model::{SessionView, UploadSession};
use dashmap::DashMap;
use vstd::prelude::*;

verus! {

#[verifier::external_type_specification]
#[verifier::external_body]
#[verifier::reject_recursive_types(K)]
#[verifier::reject_recursive_types(V)]
#[verifier::reject_recursive_types(S)]
pub struct ExDashMap<K, V, S>(dashmap::DashMap<K, V, S>);

/// The sessions that a map holds, by upload ID.
pub uninterp spec fn held_sessions(map: DashMap<String, UploadSession>) -> Map<
    Seq<char>,
    SessionView,
>;

/// No sessions.
pub open spec fn no_sessions() -> Map<Seq<char>, SessionView> {
    Map::empty()
}

/// Calls `DashMap::new`: a map that holds nothing.
#[verifier::external_body]
pub(crate) fn new_map() -> (map: DashMap<String, UploadSession>)
    ensures
        held_sessions(map) == no_sessions(),
{
    DashMap::new()
}

/// Calls `DashMap::get` and clones what it finds: the session with the given ID, if the map holds
/// one.
#[verifier::external_body]
pub(crate) fn find(map: &DashMap<String, UploadSession>, upload_id: &str) -> (result: Option<
    UploadSession,
>)
    ensures
        match result {
            Some(session) => held_sessions(*map).dom().contains(upload_id@) && session@
                == held_sessions(*map)[upload_id@],
            None => !held_sessions(*map).dom().contains(upload_id@),
        },
{
    map.get(upload_id).map(|entry| entry.value().clone())
}

/// Calls `DashMap::insert`: the map holds the session under the ID, in place of what it held there
/// before, and holds everything else as before.
#[verifier::external_body]
pub(crate) fn hold(
    map: &mut DashMap<String, UploadSession>,
    upload_id: &str,
    session: UploadSession,
)
    ensures
        held_sessions(*final(map)) == held_sessions(*old(map)).insert(upload_id@, session@),
{
    map.insert(upload_id.to_owned(), session);
}

/// Calls `DashMap::remove`: the map holds nothing under the ID, and everything else as before.
#[verifier::external_body]
pub(crate) fn release(map: &mut DashMap<String, UploadSession>, upload_id: &str)
    ensures
        held_sessions(*final(map)) == held_sessions(*old(map)).remove(upload_id@),
{
    map.remove(upload_id);
}

} // verus!
