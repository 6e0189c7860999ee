use crate::codec::{blob_key, push_char};
use crate::context::{error_of, keys_of, Call, HandlerContext};
use crate::file_system::{FileSystem, LocalReadError};
use crate::storage::{content_md5, md5_digest, Storage, StorageError};
use vstd::prelude::*;

verus! {

/// Why handling a change failed.
#[derive(Debug)]
pub enum SyncError {
    /// The changed path does not lie under the root folder.
    PathOutsideRoot,
    /// The changed file could not be read.
    LocalReadError(LocalReadError),
    /// The store refused the upload.
    Storage(StorageError),
}

/// Whether `after` is `before` followed by calls `made` that mirroring the
/// file at `path` makes, returning `r`: first the question whether it is a
/// directory, and for a directory nothing more; else, where the path has a
/// key, a read of the file and, if that succeeded, one upload of its bytes
/// and their checksum under the key, whose error is returned as the store
/// gave it.
pub open spec fn upload_calls(root: Seq<char>, path: Seq<char>, made: Seq<Call>, r: Result<
    (),
    SyncError,
>) -> bool {
    &&& made.len() >= 1
    &&& made[0] is IsDir
    &&& made[0]->IsDir_path == path
    &&& if made[0]->answer {
        made.len() == 1 && r is Ok
    } else {
        match blob_key(root, path) {
            Err(_) => made.len() == 1 && r is Err && r->Err_0 is PathOutsideRoot,
            Ok(key) => {
                &&& made.len() >= 2
                &&& made[1] is Read
                &&& made[1]->Read_path == path
                &&& match made[1]->bytes {
                    None => made.len() == 2 && r is Err && r->Err_0 is LocalReadError,
                    Some(bytes) => {
                        &&& made.len() == 3
                        &&& made[2] is Upload
                        &&& made[2]->Upload_blob_name == key
                        &&& made[2]->data == bytes
                        &&& made[2]->checksum == md5_digest(bytes)
                        &&& r == upload_result(made[2]->error)
                    },
                }
            },
        }
    }
}

/// What mirroring a file returns after its upload: success, or the store's
/// own error.
pub open spec fn upload_result(error: Option<StorageError>) -> Result<(), SyncError> {
    match error {
        None => Ok(()),
        Some(e) => Err(SyncError::Storage(e)),
    }
}

/// The calls of a folder sweep: one listing of `prefix`, then, if it
/// succeeded, one delete of each listed key, in the order listed. A listed
/// key is deleted as the store returned it: keys are encoded once, when they
/// are derived from a path, and never again.
pub open spec fn is_folder_sweep(prefix: Seq<char>, calls: Seq<Call>) -> bool {
    &&& calls.len() >= 1
    &&& calls[0] is List
    &&& calls[0]->List_prefix == prefix
    &&& match calls[0]->listed {
        Some(keys) => {
            &&& calls.len() == keys.len() + 1
            &&& forall|i: int|
                0 <= i < keys.len() ==> (#[trigger] calls[i + 1]) is Delete && calls[i
                    + 1]->Delete_blob_name == keys[i]
        },
        None => calls.len() == 1,
    }
}

/// The calls `made` that mirroring the removal of `path` makes, returning
/// `r`: one delete of the path's key; where the store has no such object the
/// path was a folder, and a folder sweep of the key followed by `/` comes
/// after. Failures of the store are not returned.
pub open spec fn removal_calls(root: Seq<char>, path: Seq<char>, made: Seq<Call>, r: Result<
    (),
    SyncError,
>) -> bool {
    match blob_key(root, path) {
        Err(_) => made.len() == 0 && r is Err && r->Err_0 is PathOutsideRoot,
        Ok(key) => {
            &&& r is Ok
            &&& made.len() >= 1
            &&& made[0] is Delete
            &&& made[0]->Delete_blob_name == key
            &&& if made[0]->not_found {
                is_folder_sweep(key.push('/'), made.skip(1))
            } else {
                made.len() == 1
            }
        },
    }
}

/// Whether `after` is `before` followed by more calls.
pub open spec fn extends(before: Seq<Call>, after: Seq<Call>) -> bool {
    after.len() >= before.len() && after.take(before.len() as int) == before
}

/// Uploads the file at `path`, unless it is a directory.
fn upload_file<S: Storage, F: FileSystem>(path: &str, ctx: &mut HandlerContext<S, F>) -> (r:
    Result<(), SyncError>)
    ensures
        final(ctx).same_endpoints(old(ctx)),
        extends(old(ctx).calls(), final(ctx).calls()),
        upload_calls(
            old(ctx).root(),
            path@,
            final(ctx).calls().skip(old(ctx).calls().len() as int),
            r,
        ),
{
    let ghost before = ctx.calls();
    if ctx.is_dir(path) {
        assert(ctx.calls().skip(before.len() as int) =~= seq![ctx.calls().last()]);
        assert(ctx.calls().take(before.len() as int) =~= before);
        return Ok(());
    }
    let key = match ctx.blob_name(path) {
        Ok(k) => k,
        Err(_) => {
            assert(ctx.calls().skip(before.len() as int) =~= seq![ctx.calls().last()]);
            assert(ctx.calls().take(before.len() as int) =~= before);
            return Err(SyncError::PathOutsideRoot);
        },
    };
    let ghost asked = ctx.calls();
    let content = match ctx.read(path) {
        Ok(c) => c,
        Err(e) => {
            assert(ctx.calls().skip(before.len() as int) =~= seq![
                asked.last(),
                ctx.calls().last(),
            ]);
            assert(ctx.calls().take(before.len() as int) =~= before);
            return Err(SyncError::LocalReadError(e));
        },
    };
    let ghost read = ctx.calls();
    let checksum = content_md5(&content);
    let sent = ctx.upload(key.as_str(), content, checksum);
    let ghost error = error_of(sent);
    let r = match sent {
        Ok(()) => Ok(()),
        Err(e) => Err(SyncError::Storage(e)),
    };
    assert(r == upload_result(error));
    assert(ctx.calls().skip(before.len() as int) =~= seq![
        asked.last(),
        read.last(),
        ctx.calls().last(),
    ]);
    assert(ctx.calls().take(before.len() as int) =~= before);
    r
}

/// Deletes the object of `path`, or every object under it where it was a
/// folder.
fn remove_blobs<S: Storage, F: FileSystem>(path: &str, ctx: &mut HandlerContext<S, F>) -> (r:
    Result<(), SyncError>)
    ensures
        final(ctx).same_endpoints(old(ctx)),
        extends(old(ctx).calls(), final(ctx).calls()),
        removal_calls(
            old(ctx).root(),
            path@,
            final(ctx).calls().skip(old(ctx).calls().len() as int),
            r,
        ),
{
    let ghost before = ctx.calls();
    let key = match ctx.blob_name(path) {
        Ok(k) => k,
        Err(_) => {
            assert(ctx.calls().skip(before.len() as int) =~= Seq::<Call>::empty());
            assert(ctx.calls().take(before.len() as int) =~= before);
            return Err(SyncError::PathOutsideRoot);
        },
    };
    match ctx.delete(key.as_str()) {
        Err(StorageError::PathNotFound) => {
            let mut prefix = key.clone();
            push_char(&mut prefix, '/');
            match ctx.list_folder_blobs(prefix.as_str()) {
                Ok(blobs) => {
                    let ghost listed = ctx.calls();
                    let mut i: usize = 0;
                    while i < blobs.len()
                        invariant
                            i <= blobs@.len(),
                            ctx.same_endpoints(old(ctx)),
                            ctx.calls().len() == listed.len() + i,
                            ctx.calls().take(listed.len() as int) == listed,
                            forall|j: int|
                                0 <= j < i ==> (#[trigger] ctx.calls()[listed.len() + j])
                                    is Delete && ctx.calls()[listed.len() + j]->Delete_blob_name
                                    == blobs@[j]@,
                        decreases blobs@.len() - i,
                    {
                        let ghost prev = ctx.calls();
                        let _ = ctx.delete(blobs[i].as_str());
                        assert(ctx.calls().take(listed.len() as int) =~= prev.take(
                            listed.len() as int,
                        ));
                        assert forall|j: int| 0 <= j < i + 1 implies (#[trigger] ctx.calls()[listed.len()
                            + j]) is Delete && ctx.calls()[listed.len() + j]->Delete_blob_name
                            == blobs@[j]@ by {
                            if j < i {
                                assert(ctx.calls()[listed.len() + j] == prev[listed.len() + j]);
                            }
                        }
                        i = i + 1;
                    }
                    let ghost sweep = ctx.calls().skip(before.len() + 1int);
                    assert(sweep[0] == listed[before.len() + 1int]);
                    assert forall|k: int| 0 <= k < blobs@.len() implies (#[trigger] sweep[k
                        + 1]) is Delete && sweep[k + 1]->Delete_blob_name == keys_of(blobs@)[k] by {
                        assert(sweep[k + 1] == ctx.calls()[listed.len() + k]);
                    }
                    assert(ctx.calls().take(listed.len() as int)[before.len() as int]
                        == ctx.calls()[before.len() as int]);
                    assert(ctx.calls().take(listed.len() as int).take(before.len() as int)
                        =~= ctx.calls().take(before.len() as int));
                },
                Err(_) => {},
            }
        },
        _ => {},
    }
    assert(ctx.calls().take(before.len() as int) =~= before);
    assert(ctx.calls().skip(before.len() as int).skip(1) =~= ctx.calls().skip(
        before.len() + 1int,
    ));
    Ok(())
}

/// A reaction to a change of one local path.
pub trait PathEventHandler<S: Storage, F: FileSystem> {
    /// Whether handling `path` under the root folder `root` may add the calls
    /// `made` and return `r`. The default allows any outcome, so for a
    /// handler that keeps it `EventHandler::call` promises nothing about
    /// what the handler did.
    open spec fn outcome(
        &self,
        root: Seq<char>,
        path: Seq<char>,
        made: Seq<Call>,
        r: Result<(), SyncError>,
    ) -> bool {
        true
    }

    fn handle(&self, path: &str, ctx: &mut HandlerContext<S, F>) -> (r: Result<(), SyncError>)
        ensures
            final(ctx).same_endpoints(old(ctx)),
            extends(old(ctx).calls(), final(ctx).calls()),
            self.outcome(
                old(ctx).root(),
                path@,
                final(ctx).calls().skip(old(ctx).calls().len() as int),
                r,
            ),
    ;
}

/// Mirrors a created path: uploads a new file, ignores a new directory.
pub struct CreatedEvent {}

/// Mirrors a removed path: deletes its object, or its folder's objects.
pub struct RemovedEvent {}

/// Mirrors a written path: uploads the whole file again, as on creation.
pub struct UpdatedEvent {}

impl<S: Storage, F: FileSystem> PathEventHandler<S, F> for CreatedEvent {
    open spec fn outcome(
        &self,
        root: Seq<char>,
        path: Seq<char>,
        made: Seq<Call>,
        r: Result<(), SyncError>,
    ) -> bool {
        upload_calls(root, path, made, r)
    }

    fn handle(&self, path: &str, ctx: &mut HandlerContext<S, F>) -> (r: Result<(), SyncError>) {
        let ghost before = ctx.calls();
        let ghost root = ctx.root();
        let r = upload_file(path, ctx);
        let ghost made = ctx.calls().skip(before.len() as int);
        assert(PathEventHandler::<S, F>::outcome(self, root, path@, made, r));
        r
    }
}

impl<S: Storage, F: FileSystem> PathEventHandler<S, F> for RemovedEvent {
    open spec fn outcome(
        &self,
        root: Seq<char>,
        path: Seq<char>,
        made: Seq<Call>,
        r: Result<(), SyncError>,
    ) -> bool {
        removal_calls(root, path, made, r)
    }

    fn handle(&self, path: &str, ctx: &mut HandlerContext<S, F>) -> (r: Result<(), SyncError>) {
        let ghost before = ctx.calls();
        let ghost root = ctx.root();
        let r = remove_blobs(path, ctx);
        let ghost made = ctx.calls().skip(before.len() as int);
        assert(PathEventHandler::<S, F>::outcome(self, root, path@, made, r));
        r
    }
}

impl<S: Storage, F: FileSystem> PathEventHandler<S, F> for UpdatedEvent {
    open spec fn outcome(
        &self,
        root: Seq<char>,
        path: Seq<char>,
        made: Seq<Call>,
        r: Result<(), SyncError>,
    ) -> bool {
        upload_calls(root, path, made, r)
    }

    fn handle(&self, path: &str, ctx: &mut HandlerContext<S, F>) -> (r: Result<(), SyncError>) {
        let ghost before = ctx.calls();
        let ghost root = ctx.root();
        let r = upload_file(path, ctx);
        let ghost made = ctx.calls().skip(before.len() as int);
        assert(PathEventHandler::<S, F>::outcome(self, root, path@, made, r));
        r
    }
}

/// The handlers that the mirror registers, as one type.
pub enum SyncHandler {
    Created(CreatedEvent),
    Removed(RemovedEvent),
    Updated(UpdatedEvent),
}

impl<S: Storage, F: FileSystem> PathEventHandler<S, F> for SyncHandler {
    open spec fn outcome(
        &self,
        root: Seq<char>,
        path: Seq<char>,
        made: Seq<Call>,
        r: Result<(), SyncError>,
    ) -> bool {
        match self {
            SyncHandler::Removed(_) => removal_calls(root, path, made, r),
            _ => upload_calls(root, path, made, r),
        }
    }

    fn handle(&self, path: &str, ctx: &mut HandlerContext<S, F>) -> (r: Result<(), SyncError>) {
        match self {
            SyncHandler::Created(h) => PathEventHandler::<S, F>::handle(h, path, ctx),
            SyncHandler::Removed(h) => PathEventHandler::<S, F>::handle(h, path, ctx),
            SyncHandler::Updated(h) => PathEventHandler::<S, F>::handle(h, path, ctx),
        }
    }
}

/// The handler registered last under `name` among `entries`.
pub open spec fn latest_handler<H>(entries: Seq<(String, H)>, name: Seq<char>) -> Option<H>
    decreases entries.len(),
{
    if entries.len() == 0 {
        None
    } else if entries.last().0@ == name {
        Some(entries.last().1)
    } else {
        latest_handler(entries.drop_last(), name)
    }
}

/// Routes changes by event name to the registered handlers, with the store
/// and the watched folder they work on.
pub struct EventHandler<S, F, H> {
    event_handlers: Vec<(String, H)>,
    context: HandlerContext<S, F>,
}

impl<S: Storage, F: FileSystem, H: PathEventHandler<S, F>> EventHandler<S, F, H> {
    /// The handler bound to `name`, if any.
    pub closed spec fn handler(&self, name: Seq<char>) -> Option<H> {
        latest_handler(self.event_handlers@, name)
    }

    /// The calls that handlers have made so far, oldest first.
    pub closed spec fn calls(&self) -> Seq<Call> {
        self.context.calls()
    }

    /// The root folder that keys are relative to.
    pub closed spec fn root(&self) -> Seq<char> {
        self.context.root()
    }

    /// The store that handlers work on.
    pub closed spec fn spec_storage(&self) -> S {
        self.context.spec_storage()
    }

    /// The watched folder that handlers read from.
    pub closed spec fn spec_file_system(&self) -> F {
        self.context.spec_file_system()
    }

    /// What dispatching `name` for `path` may do: add no call for a name with
    /// no handler, else add what that handler may add.
    pub open spec fn dispatch_outcome(
        &self,
        name: Seq<char>,
        path: Seq<char>,
        after: Seq<Call>,
        r: Result<(), SyncError>,
    ) -> bool {
        match self.handler(name) {
            None => after == self.calls() && r is Ok,
            Some(h) => {
                &&& extends(self.calls(), after)
                &&& h.outcome(self.root(), path, after.skip(self.calls().len() as int), r)
            },
        }
    }

    /// A registry with no handlers, for `storage` and the watched folder
    /// `file_system`, with keys relative to `root_folder`.
    pub fn new(storage: S, file_system: F, root_folder: &str) -> (r: Self)
        ensures
            forall|name: Seq<char>| #[trigger] r.handler(name) is None,
            r.calls() == Seq::<Call>::empty(),
            r.spec_storage() == storage,
            r.spec_file_system() == file_system,
            r.root() == root_folder@,
    {
        EventHandler {
            event_handlers: Vec::new(),
            context: HandlerContext::new(storage, file_system, root_folder),
        }
    }

    /// Binds `event_handler` to `event_name`, in place of any earlier one.
    pub fn add(&mut self, event_name: &str, event_handler: H)
        ensures
            final(self).handler(event_name@) == Some(event_handler),
            forall|name: Seq<char>|
                name != event_name@ ==> #[trigger] final(self).handler(name) == old(self).handler(
                    name,
                ),
            final(self).calls() == old(self).calls(),
            final(self).root() == old(self).root(),
            final(self).spec_storage() == old(self).spec_storage(),
            final(self).spec_file_system() == old(self).spec_file_system(),
    {
        let ghost old_entries = self.event_handlers@;
        self.event_handlers.push((event_name.to_owned(), event_handler));
        assert(self.event_handlers@.drop_last() == old_entries);
    }

    /// The index of the entry that binds `event_name`, if any: the latest
    /// one under that name.
    fn latest_index(&self, event_name: &str) -> (r: Option<usize>)
        ensures
            match r {
                Some(i) => {
                    &&& i < self.event_handlers@.len()
                    &&& self.handler(event_name@) == Some(self.event_handlers@[i as int].1)
                },
                None => self.handler(event_name@) is None,
            },
    {
        let name = event_name.to_owned();
        let mut i: usize = self.event_handlers.len();
        assert(self.event_handlers@.take(i as int) == self.event_handlers@);
        while i > 0
            invariant
                i <= self.event_handlers@.len(),
                name@ == event_name@,
                latest_handler(self.event_handlers@, name@) == latest_handler(
                    self.event_handlers@.take(i as int),
                    name@,
                ),
            decreases i,
        {
            assert(self.event_handlers@.take(i as int).drop_last() == self.event_handlers@.take(
                i - 1,
            ));
            if self.event_handlers[i - 1].0 == name {
                return Some(i - 1);
            }
            i = i - 1;
        }
        assert(self.event_handlers@.take(0) == Seq::<(String, H)>::empty());
        None
    }

    /// The handler bound to `event_name`, if any.
    pub fn get(&self, event_name: &str) -> (r: Option<&H>)
        ensures
            match r {
                Some(h) => self.handler(event_name@) == Some(*h),
                None => self.handler(event_name@) is None,
            },
    {
        match self.latest_index(event_name) {
            Some(i) => Some(&self.event_handlers[i].1),
            None => None,
        }
    }

    /// Passes `path` to the handler bound to `event_name`; does nothing for
    /// a name with no handler.
    pub fn call(&mut self, event_name: &str, path: &str) -> (r: Result<(), SyncError>)
        ensures
            old(self).dispatch_outcome(event_name@, path@, final(self).calls(), r),
            forall|name: Seq<char>| #[trigger] final(self).handler(name) == old(self).handler(name),
            final(self).root() == old(self).root(),
            final(self).spec_storage() == old(self).spec_storage(),
            final(self).spec_file_system() == old(self).spec_file_system(),
    {
        match self.latest_index(event_name) {
            Some(i) => {
                let h = &self.event_handlers[i].1;
                h.handle(path, &mut self.context)
            },
            None => Ok(()),
        }
    }

    /// The store that handlers work on.
    pub fn storage(&self) -> (r: &S)
        ensures
            *r == self.spec_storage(),
    {
        self.context.storage()
    }

    /// The watched folder that handlers read from.
    pub fn file_system(&self) -> (r: &F)
        ensures
            *r == self.spec_file_system(),
    {
        self.context.file_system()
    }
}

} // verus!
