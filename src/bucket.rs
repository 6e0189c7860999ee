use crate::event_handlers::{
    CreatedEvent, EventHandler, PathEventHandler, RemovedEvent, SyncError, SyncHandler,
    UpdatedEvent,
};
use crate::codec::{encoded_key, is_under_root, relative_part};
use crate::file_system::FileSystem;
use crate::context::Call;
use crate::storage::{md5_digest, Storage};
use vstd::prelude::*;

verus! {

/// Where the mirrored folder lies and which remote container receives it.
pub struct Config {
    pub root_folder: String,
    pub storage_account: String,
    pub account_key: String,
    pub root_container_name: String,
}

/// A change of the watched tree, as the watcher reports it after
/// debouncing.
pub enum ChangeEvent {
    Created(String),
    Removed(String),
    Written(String),
    /// Any other notification, such as a change of metadata.
    Other,
}

/// The handler name that a change is routed to, if any.
pub open spec fn handler_name(evt: ChangeEvent) -> Option<Seq<char>> {
    match evt {
        ChangeEvent::Created(_) => Some("create"@),
        ChangeEvent::Removed(_) => Some("remove"@),
        ChangeEvent::Written(_) => Some("update"@),
        ChangeEvent::Other => None,
    }
}

/// The path that a change concerns.
pub open spec fn changed_path(evt: ChangeEvent) -> Seq<char> {
    match evt {
        ChangeEvent::Created(p) => p@,
        ChangeEvent::Removed(p) => p@,
        ChangeEvent::Written(p) => p@,
        ChangeEvent::Other => Seq::empty(),
    }
}

/// Whether `e` binds the three mirroring handlers to their names.
pub open spec fn registers_sync_handlers<S: Storage, F: FileSystem>(
    e: &EventHandler<S, F, SyncHandler>,
) -> bool {
    &&& e.handler("create"@) == Some(SyncHandler::Created(CreatedEvent {  }))
    &&& e.handler("remove"@) == Some(SyncHandler::Removed(RemovedEvent {  }))
    &&& e.handler("update"@) == Some(SyncHandler::Updated(UpdatedEvent {  }))
}

/// Dispatches a change to the handler for its kind: creations to `create`,
/// removals to `remove`, writes to `update`; other changes are ignored.
pub fn route_event<S: Storage, F: FileSystem, H: PathEventHandler<S, F>>(
    evt: &ChangeEvent,
    evts: &mut EventHandler<S, F, H>,
) -> (r: Result<(), SyncError>)
    ensures
        match handler_name(*evt) {
            Some(name) => old(evts).dispatch_outcome(
                name,
                changed_path(*evt),
                final(evts).calls(),
                r,
            ),
            None => final(evts).calls() == old(evts).calls() && r is Ok,
        },
        forall|name: Seq<char>| #[trigger] final(evts).handler(name) == old(evts).handler(name),
        final(evts).root() == old(evts).root(),
        final(evts).spec_storage() == old(evts).spec_storage(),
        final(evts).spec_file_system() == old(evts).spec_file_system(),
{
    match evt {
        ChangeEvent::Created(p) => evts.call("create", p.as_str()),
        ChangeEvent::Removed(p) => evts.call("remove", p.as_str()),
        ChangeEvent::Written(p) => evts.call("update", p.as_str()),
        ChangeEvent::Other => Ok(()),
    }
}

/// The registry that the mirror runs with: `create`, `remove` and `update`
/// bound to their handlers, and no other name; keys are relative to
/// `root_folder`.
pub fn initialise_event_handlers<S: Storage, F: FileSystem>(
    storage: S,
    file_system: F,
    root_folder: &str,
) -> (r: EventHandler<S, F, SyncHandler>)
    ensures
        registers_sync_handlers(&r),
        forall|name: Seq<char>|
            name != "create"@ && name != "remove"@ && name != "update"@ ==> #[trigger] r.handler(
                name,
            ) is None,
        r.calls() == Seq::<Call>::empty(),
        r.spec_storage() == storage,
        r.spec_file_system() == file_system,
        r.root() == root_folder@,
{
    proof {
        reveal_strlit("create");
        reveal_strlit("remove");
        reveal_strlit("update");
        assert("create"@[0] != "remove"@[0] && "create"@[0] != "update"@[0] && "remove"@[0]
            != "update"@[0]);
    }
    let mut e = EventHandler::new(storage, file_system, root_folder);
    e.add("create", SyncHandler::Created(CreatedEvent {  }));
    e.add("remove", SyncHandler::Removed(RemovedEvent {  }));
    assert(e.handler("create"@) == Some(SyncHandler::Created(CreatedEvent {  })));
    e.add("update", SyncHandler::Updated(UpdatedEvent {  }));
    assert(e.handler("create"@) == Some(SyncHandler::Created(CreatedEvent {  })));
    assert(e.handler("remove"@) == Some(SyncHandler::Removed(RemovedEvent {  })));
    e
}

/// Dispatching `create` for a path that the local side reports to be a
/// directory makes no further call, so in particular no upload.
pub proof fn lemma_create_ignores_directories<S: Storage, F: FileSystem>(
    e: &EventHandler<S, F, SyncHandler>,
    path: Seq<char>,
    after: Seq<Call>,
    r: Result<(), SyncError>,
)
    requires
        registers_sync_handlers(e),
        e.dispatch_outcome("create"@, path, after, r),
        after.len() > e.calls().len(),
        after[e.calls().len() as int]->answer,
    ensures
        after == e.calls().push(Call::IsDir { path, answer: true }),
        r is Ok,
{
    assert(after =~= after.take(e.calls().len() as int) + after.skip(e.calls().len() as int));
}

/// Dispatching `create` for a path under the root uploads at most once, and
/// only the bytes that the read of that path returned, under the path's key;
/// it uploads exactly once where the path is reported to be a file and the
/// read succeeds.
pub proof fn lemma_create_uploads_file_once<S: Storage, F: FileSystem>(
    e: &EventHandler<S, F, SyncHandler>,
    path: Seq<char>,
    after: Seq<Call>,
    r: Result<(), SyncError>,
)
    requires
        registers_sync_handlers(e),
        e.dispatch_outcome("create"@, path, after, r),
        is_under_root(e.root(), path),
    ensures
        ({
            let made = after.skip(e.calls().len() as int);
            let key = encoded_key(relative_part(e.root(), path));
            &&& after.take(e.calls().len() as int) == e.calls()
            &&& made.len() >= 1
            &&& made[0] is IsDir
            &&& made[0]->IsDir_path == path
            &&& forall|i: int|
                0 <= i < made.len() && (#[trigger] made[i]) is Upload ==> {
                    &&& i == 2
                    &&& made[i]->Upload_blob_name == key
                    &&& made[1] is Read
                    &&& made[1]->Read_path == path
                    &&& made[1]->bytes == Some(made[i]->data)
                    &&& made[i]->checksum == md5_digest(made[i]->data)
                }
            &&& (!made[0]->answer && made[1] is Read && made[1]->bytes is Some) ==> {
                made.len() == 3 && made[2] is Upload
            }
        }),
{
}

/// Dispatching `remove` for a path under the root first deletes its key.
/// Only where the store reports no object there does a listing of the key
/// followed by `/` come next, exactly once, and after it one delete per
/// listed key, in the order listed.
pub proof fn lemma_remove_sweeps_missing_key<S: Storage, F: FileSystem>(
    e: &EventHandler<S, F, SyncHandler>,
    path: Seq<char>,
    after: Seq<Call>,
    r: Result<(), SyncError>,
)
    requires
        registers_sync_handlers(e),
        e.dispatch_outcome("remove"@, path, after, r),
        is_under_root(e.root(), path),
    ensures
        ({
            let key = encoded_key(relative_part(e.root(), path));
            let made = after.skip(e.calls().len() as int);
            &&& r is Ok
            &&& after.take(e.calls().len() as int) == e.calls()
            &&& made.len() >= 1
            &&& made[0] is Delete
            &&& made[0]->Delete_blob_name == key
            &&& !made[0]->not_found ==> made.len() == 1
            &&& made[0]->not_found ==> {
                &&& made.len() >= 2
                &&& made[1] is List
                &&& made[1]->List_prefix == key.push('/')
                &&& forall|i: int| 2 <= i < made.len() ==> #[trigger] made[i] is Delete
                &&& made[1]->listed is Some ==> {
                    let keys = made[1]->listed->0;
                    &&& made.len() == keys.len() + 2
                    &&& forall|i: int|
                        0 <= i < keys.len() ==> #[trigger] made[i + 2]->Delete_blob_name
                            == keys[i]
                }
                &&& made[1]->listed is None ==> made.len() == 2
            }
        }),
{
    let made = after.skip(e.calls().len() as int);
    let sweep = made.skip(1);
    if made[0]->not_found {
        assert forall|i: int| 2 <= i < made.len() implies #[trigger] made[i] is Delete by {
            assert(made[i] == sweep[i - 1]);
            assert(sweep[(i - 2) + 1] is Delete);
        }
        if made[1]->listed is Some {
            let keys = made[1]->listed->0;
            assert forall|i: int|
                0 <= i < keys.len() implies #[trigger] made[i + 2]->Delete_blob_name == keys[i] by {
                assert(made[i + 2] == sweep[i + 1]);
            }
        }
    }
}

/// Dispatching `update` may do exactly what dispatching `create` may do.
pub proof fn lemma_update_acts_as_create<S: Storage, F: FileSystem>(
    e: &EventHandler<S, F, SyncHandler>,
    path: Seq<char>,
    after: Seq<Call>,
    r: Result<(), SyncError>,
)
    requires
        registers_sync_handlers(e),
    ensures
        e.dispatch_outcome("update"@, path, after, r) == e.dispatch_outcome(
            "create"@,
            path,
            after,
            r,
        ),
{
}

/// Dispatching a name that has no handler makes no call at all.
pub proof fn lemma_unregistered_name_makes_no_call<S: Storage, F: FileSystem, H: PathEventHandler<
    S,
    F,
>>(
    e: &EventHandler<S, F, H>,
    name: Seq<char>,
    path: Seq<char>,
    after: Seq<Call>,
    r: Result<(), SyncError>,
)
    requires
        e.handler(name) is None,
        e.dispatch_outcome(name, path, after, r),
    ensures
        after == e.calls(),
        r is Ok,
{
}

} // verus!
