//! The folders and the remote connections that are known while the process
//! lives. The settings store is written first, by the caller; the registry
//! takes what came of that write and follows it only where it worked.

use crate::error::{result_view, unit_result_view, KvError, KvErrorView};
use crate::models::kv::{
    ConnectionView, FolderView, LocalFolder, LocalFolderInfo, RemoteConnection,
};
use crate::text::str_eq;
use crate::views::{lemma_views_push, views};
use vstd::prelude::*;

verus! {

/// A registered folder and when it was last used, in Unix seconds.
#[derive(Debug)]
pub struct FolderRecord {
    pub folder: LocalFolder,
    pub last_used: i64,
}

/// Mathematical model of a [`FolderRecord`].
pub struct FolderRecordView {
    pub folder: FolderView,
    pub last_used: i64,
}

impl View for FolderRecord {
    type V = FolderRecordView;

    open spec fn view(&self) -> FolderRecordView {
        FolderRecordView { folder: self.folder@, last_used: self.last_used }
    }
}

/// A remote connection and when it was last used, in Unix seconds.
#[derive(Debug)]
pub struct ConnectionRecord {
    pub connection: RemoteConnection,
    pub last_used: i64,
}

/// Mathematical model of a [`ConnectionRecord`].
pub struct ConnectionRecordView {
    pub connection: ConnectionView,
    pub last_used: i64,
}

impl View for ConnectionRecord {
    type V = ConnectionRecordView;

    open spec fn view(&self) -> ConnectionRecordView {
        ConnectionRecordView { connection: self.connection@, last_used: self.last_used }
    }
}

/// The folders and the remote connections that are known. No two folders
/// share an id or a path, and no two connections an account.
#[derive(Debug)]
pub struct Registry {
    folders: Vec<FolderRecord>,
    connections: Vec<ConnectionRecord>,
}

/// Mathematical model of a [`Registry`].
pub struct RegistryView {
    pub folders: Seq<FolderRecordView>,
    pub connections: Seq<ConnectionRecordView>,
}

/// `folders` without those of the id `id` or of the path `path`, the others
/// in their order.
pub open spec fn folders_without(folders: Seq<FolderRecordView>, id: i64, path: Seq<char>) -> Seq<
    FolderRecordView,
>
    decreases folders.len(),
{
    if folders.len() == 0 {
        Seq::empty()
    } else if folders.last().folder.id == id || folders.last().folder.path == path {
        folders_without(folders.drop_last(), id, path)
    } else {
        folders_without(folders.drop_last(), id, path).push(folders.last())
    }
}

/// Whether no two of `folders` share an id or a path.
pub open spec fn distinct_folders(folders: Seq<FolderRecordView>) -> bool {
    forall|i: int, j: int|
        0 <= i < j < folders.len() ==> (#[trigger] folders[i]).folder.id != (
        #[trigger] folders[j]).folder.id && folders[i].folder.path != folders[j].folder.path
}

/// Whether no two of `connections` share an account.
pub open spec fn distinct_connections(connections: Seq<ConnectionRecordView>) -> bool {
    forall|i: int, j: int|
        0 <= i < j < connections.len() ==> (#[trigger] connections[i]).connection.account_id != (
        #[trigger] connections[j]).connection.account_id
}

/// Whether the first of `connections` that is for `account` stands at
/// `position`.
pub open spec fn is_connection_at(
    connections: Seq<ConnectionRecordView>,
    account: Seq<char>,
    position: int,
) -> bool {
    &&& 0 <= position < connections.len()
    &&& connections[position].connection.account_id == account
    &&& forall|i: int|
        0 <= i < position ==> (#[trigger] connections[i]).connection.account_id != account
}

/// Whether one of `connections` is for `account`.
pub open spec fn has_connection(
    connections: Seq<ConnectionRecordView>,
    account: Seq<char>,
) -> bool {
    exists|i: int|
        0 <= i < connections.len() && (#[trigger] connections[i]).connection.account_id == account
}

/// Where the first of `connections` that is for `account` stands.
pub open spec fn connection_position(
    connections: Seq<ConnectionRecordView>,
    account: Seq<char>,
) -> int {
    choose|position: int| is_connection_at(connections, account, position)
}

/// Whether the first of `folders` that has the id `id` stands at
/// `position`.
pub open spec fn is_folder_at(folders: Seq<FolderRecordView>, id: i64, position: int) -> bool {
    &&& 0 <= position < folders.len()
    &&& folders[position].folder.id == id
    &&& forall|i: int| 0 <= i < position ==> (#[trigger] folders[i]).folder.id != id
}

/// Whether one of `folders` has the id `id`.
pub open spec fn has_folder(folders: Seq<FolderRecordView>, id: i64) -> bool {
    exists|i: int| 0 <= i < folders.len() && (#[trigger] folders[i]).folder.id == id
}

/// Where the first of `folders` that has the id `id` stands.
pub open spec fn folder_position(folders: Seq<FolderRecordView>, id: i64) -> int {
    choose|position: int| is_folder_at(folders, id, position)
}

impl RegistryView {
    /// Whether no two folders share an id or a path, and no two connections
    /// an account.
    pub open spec fn well_formed(self) -> bool {
        distinct_folders(self.folders) && distinct_connections(self.connections)
    }

    /// The registry with `folder`, last used at `now`: it takes the place of
    /// any folder of its id or of its path.
    pub open spec fn with_folder(self, folder: FolderView, now: i64) -> RegistryView {
        RegistryView {
            folders: folders_without(self.folders, folder.id, folder.path).push(
                FolderRecordView { folder, last_used: now },
            ),
            ..self
        }
    }

    /// The registry without the folder of the id `id`.
    pub open spec fn without_folder(self, id: i64) -> RegistryView {
        if has_folder(self.folders, id) {
            RegistryView {
                folders: self.folders.remove(folder_position(self.folders, id)),
                ..self
            }
        } else {
            self
        }
    }

    /// The folder of the id `id`.
    pub open spec fn folder(self, id: i64) -> Option<FolderView> {
        if has_folder(self.folders, id) {
            Some(self.folders[folder_position(self.folders, id)].folder)
        } else {
            None
        }
    }

    /// The registry with the folder of the id `id` last used at `now`.
    pub open spec fn with_folder_used(self, id: i64, now: i64) -> RegistryView {
        if has_folder(self.folders, id) {
            RegistryView {
                folders: self.folders.update(
                    folder_position(self.folders, id),
                    FolderRecordView {
                        last_used: now,
                        ..self.folders[folder_position(self.folders, id)]
                    },
                ),
                ..self
            }
        } else {
            self
        }
    }

    /// The registry with a connection of `account` by `token`, last used at
    /// `now`: the account keeps its place where it is known, and its token
    /// is replaced.
    pub open spec fn with_connection(
        self,
        account: Seq<char>,
        token: Seq<char>,
        now: i64,
    ) -> RegistryView {
        let record = ConnectionRecordView {
            connection: ConnectionView { account_id: account, api_token: token },
            last_used: now,
        };
        if has_connection(self.connections, account) {
            RegistryView {
                connections: self.connections.update(
                    connection_position(self.connections, account),
                    record,
                ),
                ..self
            }
        } else {
            RegistryView { connections: self.connections.push(record), ..self }
        }
    }

    /// The connection of `account`.
    pub open spec fn connection(self, account: Seq<char>) -> Option<ConnectionView> {
        if has_connection(self.connections, account) {
            Some(self.connections[connection_position(self.connections, account)].connection)
        } else {
            None
        }
    }

    /// The registry with the connection of `account` last used at `now`.
    pub open spec fn with_connection_used(self, account: Seq<char>, now: i64) -> RegistryView {
        if has_connection(self.connections, account) {
            RegistryView {
                connections: self.connections.update(
                    connection_position(self.connections, account),
                    ConnectionRecordView {
                        last_used: now,
                        ..self.connections[connection_position(self.connections, account)]
                    },
                ),
                ..self
            }
        } else {
            self
        }
    }

    /// The registry that knows nothing.
    pub open spec fn empty() -> RegistryView {
        RegistryView { folders: Seq::empty(), connections: Seq::empty() }
    }

    /// The registry after `folders` were added to it, one after the other.
    pub open spec fn with_folders(self, folders: Seq<FolderRecordView>) -> RegistryView
        decreases folders.len(),
    {
        if folders.len() == 0 {
            self
        } else {
            self.with_folders(folders.drop_last()).with_folder(
                folders.last().folder,
                folders.last().last_used,
            )
        }
    }

    /// The registry after `connections` were added to it, one after the
    /// other.
    pub open spec fn with_connections(self, connections: Seq<ConnectionRecordView>) -> RegistryView
        decreases connections.len(),
    {
        if connections.len() == 0 {
            self
        } else {
            self.with_connections(connections.drop_last()).with_connection(
                connections.last().connection.account_id,
                connections.last().connection.api_token,
                connections.last().last_used,
            )
        }
    }

    /// The registry without any connection.
    pub open spec fn without_connections(self) -> RegistryView {
        RegistryView { connections: Seq::empty(), ..self }
    }
}

/// What is left of the folders is part of them, in their order, and holds
/// neither the id nor the path.
pub proof fn lemma_folders_without(folders: Seq<FolderRecordView>, id: i64, path: Seq<char>)
    ensures
        forall|k: int|
            0 <= k < folders_without(folders, id, path).len() ==> {
                &&& (#[trigger] folders_without(folders, id, path)[k]).folder.id != id
                &&& folders_without(folders, id, path)[k].folder.path != path
                &&& folders.contains(folders_without(folders, id, path)[k])
            },
        forall|record: FolderRecordView|
            folders.contains(record) && record.folder.id != id && record.folder.path != path
                ==> #[trigger] folders_without(folders, id, path).contains(record),
        distinct_folders(folders) ==> distinct_folders(folders_without(folders, id, path)),
    decreases folders.len(),
{
    let left = folders_without(folders, id, path);
    if folders.len() > 0 {
        let front = folders.drop_last();
        let last = folders.last();
        lemma_folders_without(front, id, path);
        let before = folders_without(front, id, path);
        assert forall|k: int| 0 <= k < left.len() implies {
            &&& (#[trigger] left[k]).folder.id != id
            &&& left[k].folder.path != path
            &&& folders.contains(left[k])
        } by {
            if k < before.len() {
                assert(left[k] == before[k]);
                assert(front.contains(before[k]));
                let j = choose|j: int| 0 <= j < front.len() && front[j] == before[k];
                assert(folders[j] == left[k]);
            } else {
                assert(left[k] == last);
                assert(folders[folders.len() - 1] == last);
            }
        }
        assert forall|record: FolderRecordView|
            folders.contains(record) && record.folder.id != id && record.folder.path
                != path implies #[trigger] left.contains(record) by {
            let j = choose|j: int| 0 <= j < folders.len() && folders[j] == record;
            if j < front.len() {
                assert(front[j] == record);
                assert(front.contains(record));
                assert(before.contains(record));
                let i = choose|i: int| 0 <= i < before.len() && before[i] == record;
                assert(left[i] == record);
            } else {
                assert(left[left.len() - 1] == record);
            }
        }
        if distinct_folders(folders) {
            assert(distinct_folders(front)) by {
                assert forall|i: int, j: int| 0 <= i < j < front.len() implies (
                #[trigger] front[i]).folder.id != (#[trigger] front[j]).folder.id
                    && front[i].folder.path != front[j].folder.path by {
                    assert(front[i] == folders[i] && front[j] == folders[j]);
                }
            }
            assert forall|i: int, j: int| 0 <= i < j < left.len() implies (
            #[trigger] left[i]).folder.id != (#[trigger] left[j]).folder.id && left[i].folder.path
                != left[j].folder.path by {
                if j < before.len() {
                    assert(left[i] == before[i] && left[j] == before[j]);
                } else {
                    assert(left[j] == last);
                    assert(left[i] == before[i]);
                    assert(front.contains(before[i]));
                    let k = choose|k: int| 0 <= k < front.len() && front[k] == before[i];
                    assert(folders[k] == left[i]);
                    assert(folders[folders.len() - 1] == last);
                }
            }
        }
    }
}

/// Adding a folder keeps the registry well formed: the folder is there
/// once, under its id and under its path, and no other folder has either.
pub proof fn lemma_with_folder(registry: RegistryView, folder: FolderView, now: i64)
    requires
        registry.well_formed(),
    ensures
        registry.with_folder(folder, now).well_formed(),
        registry.with_folder(folder, now).folder(folder.id) == Some(folder),
{
    let left = folders_without(registry.folders, folder.id, folder.path);
    lemma_folders_without(registry.folders, folder.id, folder.path);
    let after = registry.with_folder(folder, now).folders;
    assert forall|i: int, j: int| 0 <= i < j < after.len() implies (#[trigger] after[i]).folder.id
        != (#[trigger] after[j]).folder.id && after[i].folder.path
        != after[j].folder.path by {
        assert(after[i] == left[i]);
        if j < left.len() {
            assert(after[j] == left[j]);
        }
    }
    let position = after.len() - 1;
    assert(is_folder_at(after, folder.id, position)) by {
        assert forall|i: int| 0 <= i < position implies (#[trigger] after[i]).folder.id
            != folder.id by {
            assert(after[i] == left[i]);
        }
    }
    lemma_folder_position(after, folder.id, position);
}

/// Forgetting a folder keeps the registry well formed, and the folder is
/// then not known any more.
pub proof fn lemma_without_folder(registry: RegistryView, id: i64)
    requires
        registry.well_formed(),
    ensures
        registry.without_folder(id).well_formed(),
        registry.without_folder(id).folder(id) is None,
        registry.without_folder(id).connections == registry.connections,
{
    let before = registry.folders;
    if has_folder(before, id) {
        let i = choose|i: int| 0 <= i < before.len() && (#[trigger] before[i]).folder.id == id;
        let position = lemma_first_folder_upto(before, id, i);
        lemma_folder_position(before, id, position);
        let after = before.remove(position);
        assert forall|i: int, j: int| 0 <= i < j < after.len() implies (
        #[trigger] after[i]).folder.id != (#[trigger] after[j]).folder.id && after[i].folder.path
            != after[j].folder.path by {
            let a = if i < position { i } else { i + 1 };
            let b = if j < position { j } else { j + 1 };
            assert(after[i] == before[a] && after[j] == before[b]);
        }
        assert forall|k: int| 0 <= k < after.len() implies (#[trigger] after[k]).folder.id
            != id by {
            let a = if k < position { k } else { k + 1 };
            assert(after[k] == before[a]);
            if a < position {
                assert(before[a].folder.id != id);
            } else {
                assert(before[position].folder.id != before[a].folder.id);
            }
        }
    }
}

/// Among the folders up to position `upto`, which has the id `id`, the first
/// of that id.
proof fn lemma_first_folder_upto(folders: Seq<FolderRecordView>, id: i64, upto: int) -> (first:
    int)
    requires
        0 <= upto < folders.len(),
        folders[upto].folder.id == id,
    ensures
        is_folder_at(folders, id, first),
    decreases upto,
{
    if exists|i: int| 0 <= i < upto && (#[trigger] folders[i]).folder.id == id {
        let i = choose|i: int| 0 <= i < upto && (#[trigger] folders[i]).folder.id == id;
        lemma_first_folder_upto(folders, id, i)
    } else {
        upto
    }
}

/// There is one first folder of an id at most.
pub proof fn lemma_folder_position(folders: Seq<FolderRecordView>, id: i64, position: int)
    requires
        is_folder_at(folders, id, position),
    ensures
        has_folder(folders, id),
        folder_position(folders, id) == position,
{
    let chosen = folder_position(folders, id);
    assert(is_folder_at(folders, id, chosen));
    if chosen < position {
        assert(folders[chosen].folder.id != id);
    }
    if position < chosen {
        assert(folders[position].folder.id != id);
    }
}

/// There is one first connection of an account at most.
pub proof fn lemma_connection_position(
    connections: Seq<ConnectionRecordView>,
    account: Seq<char>,
    position: int,
)
    requires
        is_connection_at(connections, account, position),
    ensures
        has_connection(connections, account),
        connection_position(connections, account) == position,
{
    let chosen = connection_position(connections, account);
    assert(is_connection_at(connections, account, chosen));
    if chosen < position {
        assert(connections[chosen].connection.account_id != account);
    }
    if position < chosen {
        assert(connections[position].connection.account_id != account);
    }
}

/// Adding a connection keeps the registry well formed, and the account is
/// then known by the token that was added last.
pub proof fn lemma_with_connection(
    registry: RegistryView,
    account: Seq<char>,
    token: Seq<char>,
    now: i64,
)
    requires
        registry.well_formed(),
    ensures
        registry.with_connection(account, token, now).well_formed(),
        registry.with_connection(account, token, now).connection(account) == Some(
            ConnectionView { account_id: account, api_token: token },
        ),
        has_connection(registry.connections, account) ==> registry.with_connection(
            account,
            token,
            now,
        ).connections.len() == registry.connections.len(),
{
    let before = registry.connections;
    let after = registry.with_connection(account, token, now).connections;
    if has_connection(before, account) {
        let i = choose|i: int|
            0 <= i < before.len() && (#[trigger] before[i]).connection.account_id == account;
        let first = lemma_first_connection_upto(before, account, i);
        lemma_connection_position(before, account, first);
        assert(is_connection_at(after, account, first)) by {
            assert forall|k: int| 0 <= k < first implies (
            #[trigger] after[k]).connection.account_id != account by {
                assert(after[k] == before[k]);
            }
        }
        lemma_connection_position(after, account, first);
        assert forall|i: int, j: int| 0 <= i < j < after.len() implies (
        #[trigger] after[i]).connection.account_id != (
        #[trigger] after[j]).connection.account_id by {
            assert(before[i].connection.account_id != before[j].connection.account_id);
        }
    } else {
        let position = after.len() - 1;
        assert(is_connection_at(after, account, position)) by {
            assert forall|k: int| 0 <= k < position implies (
            #[trigger] after[k]).connection.account_id != account by {
                assert(after[k] == before[k]);
            }
        }
        lemma_connection_position(after, account, position);
        assert forall|i: int, j: int| 0 <= i < j < after.len() implies (
        #[trigger] after[i]).connection.account_id != (
        #[trigger] after[j]).connection.account_id by {
            assert(after[i] == before[i]);
            if j < before.len() {
                assert(after[j] == before[j]);
            }
        }
    }
}

/// Among the connections up to position `upto`, which is for `account`, the
/// first for that account.
proof fn lemma_first_connection_upto(
    connections: Seq<ConnectionRecordView>,
    account: Seq<char>,
    upto: int,
) -> (first: int)
    requires
        0 <= upto < connections.len(),
        connections[upto].connection.account_id == account,
    ensures
        is_connection_at(connections, account, first),
    decreases upto,
{
    if exists|i: int|
        0 <= i < upto && (#[trigger] connections[i]).connection.account_id == account {
        let i = choose|i: int|
            0 <= i < upto && (#[trigger] connections[i]).connection.account_id == account;
        lemma_first_connection_upto(connections, account, i)
    } else {
        upto
    }
}

impl View for Registry {
    type V = RegistryView;

    closed spec fn view(&self) -> RegistryView {
        RegistryView { folders: views(self.folders@), connections: views(self.connections@) }
    }
}

impl Registry {
    #[verifier::type_invariant]
    spec fn keeps_distinct(self) -> bool {
        self@.well_formed()
    }

    /// A registry that knows nothing.
    pub fn new() -> (registry: Registry)
        ensures
            registry@.folders.len() == 0,
            registry@.connections.len() == 0,
            registry@.well_formed(),
    {
        Registry { folders: Vec::new(), connections: Vec::new() }
    }

    /// The registry of what the settings store holds: its folders and its
    /// connections, taken in one after the other as by [`Self::add_folder`]
    /// and [`Self::add_connection`], so that a later record takes the place
    /// of an earlier one of the same id, path or account.
    pub fn load(folders: Vec<FolderRecord>, connections: Vec<ConnectionRecord>) -> (registry:
        Registry)
        ensures
            registry@ == RegistryView::empty().with_folders(views(folders@)).with_connections(
                views(connections@),
            ),
    {
        let mut registry = Registry::new();
        assert(registry@ == RegistryView::empty()) by {
            assert(registry@.folders =~= Seq::<FolderRecordView>::empty());
            assert(registry@.connections =~= Seq::<ConnectionRecordView>::empty());
        }
        let mut i: usize = 0;
        assert(views(folders@).take(0) =~= Seq::<FolderRecordView>::empty());
        while i < folders.len()
            invariant
                i <= folders.len(),
                registry@ == RegistryView::empty().with_folders(views(folders@).take(i as int)),
            decreases folders.len() - i,
        {
            proof {
                let front = views(folders@).take(i + 1);
                assert(front.drop_last() =~= views(folders@).take(i as int));
                assert(front.last() == folders@[i as int]@);
            }
            let record = &folders[i];
            let _ = registry.add_folder(
                Ok(record.folder.id),
                record.folder.path.as_str(),
                record.folder.name.as_str(),
                record.last_used,
            );
            i += 1;
        }
        assert(views(folders@).take(folders@.len() as int) =~= views(folders@));
        let ghost with_folders = registry@;
        let mut k: usize = 0;
        assert(views(connections@).take(0) =~= Seq::<ConnectionRecordView>::empty());
        while k < connections.len()
            invariant
                k <= connections.len(),
                registry@ == with_folders.with_connections(views(connections@).take(k as int)),
            decreases connections.len() - k,
        {
            proof {
                let front = views(connections@).take(k + 1);
                assert(front.drop_last() =~= views(connections@).take(k as int));
                assert(front.last() == connections@[k as int]@);
            }
            let record = &connections[k];
            let _ = registry.add_connection(
                Ok(()),
                record.connection.account_id.as_str(),
                record.connection.api_token.as_str(),
                record.last_used,
            );
            k += 1;
        }
        assert(views(connections@).take(connections@.len() as int) =~= views(connections@));
        registry
    }

    /// Where the first folder of the id `id` stands.
    fn find_folder(&self, id: i64) -> (found: Option<usize>)
        ensures
            match found {
                Some(position) => is_folder_at(self@.folders, id, position as int)
                    && position < self.folders.len(),
                None => !has_folder(self@.folders, id),
            },
    {
        let mut i: usize = 0;
        while i < self.folders.len()
            invariant
                i <= self.folders.len(),
                forall|j: int| 0 <= j < i ==> (#[trigger] self@.folders[j]).folder.id != id,
            decreases self.folders.len() - i,
        {
            assert(self@.folders[i as int] == self.folders@[i as int]@);
            if self.folders[i].folder.id == id {
                return Some(i);
            }
            i += 1;
        }
        None
    }

    /// Where the first connection of `account` stands.
    fn find_connection(&self, account: &str) -> (found: Option<usize>)
        ensures
            match found {
                Some(position) => is_connection_at(self@.connections, account@, position as int)
                    && position < self.connections.len(),
                None => !has_connection(self@.connections, account@),
            },
    {
        let mut i: usize = 0;
        while i < self.connections.len()
            invariant
                i <= self.connections.len(),
                forall|j: int|
                    0 <= j < i ==> (#[trigger] self@.connections[j]).connection.account_id
                        != account@,
            decreases self.connections.len() - i,
        {
            assert(self@.connections[i as int] == self.connections@[i as int]@);
            if str_eq(self.connections[i].connection.account_id.as_str(), account) {
                return Some(i);
            }
            i += 1;
        }
        None
    }

    /// Takes note of the folder at `path` called `name`, which the settings
    /// store has saved under the id that `saved` holds, as last used at
    /// `now`. A path that is known already is not known twice afterwards.
    /// Where the store refused the write, nothing is noted.
    pub fn add_folder(
        &mut self,
        saved: Result<i64, String>,
        path: &str,
        name: &str,
        now: i64,
    ) -> (id: Result<i64, KvError>)
        ensures
            match saved {
                Ok(stored) => id == Ok::<i64, KvError>(stored) && final(self)@ == old(
                    self,
                )@.with_folder(FolderView { id: stored, path: path@, name: name@ }, now),
                Err(why) => result_view(id) == Err::<i64, KvErrorView>(
                    KvErrorView::PersistenceFailed(why@),
                ) && final(self)@ == old(self)@,
            },
    {
        let stored = match saved {
            Ok(stored) => stored,
            Err(why) => {
                return Err(KvError::PersistenceFailed(why));
            },
        };
        proof {
            use_type_invariant(&*self);
        }
        let ghost before = self@.folders;
        let mut kept: Vec<FolderRecord> = Vec::new();
        let mut i: usize = 0;
        assert(before.take(0) =~= Seq::<FolderRecordView>::empty());
        assert(views(kept@) =~= folders_without(before.take(0), stored, path@));
        while i < self.folders.len()
            invariant
                i <= self.folders.len(),
                before == views(self.folders@),
                views(kept@) == folders_without(before.take(i as int), stored, path@),
            decreases self.folders.len() - i,
        {
            proof {
                let front = before.take(i + 1);
                assert(front.drop_last() =~= before.take(i as int));
                assert(front.last() == self.folders@[i as int]@);
            }
            let record = &self.folders[i];
            if record.folder.id != stored && !str_eq(record.folder.path.as_str(), path) {
                let copy = FolderRecord {
                    folder: record.folder.clone(),
                    last_used: record.last_used,
                };
                proof {
                    lemma_views_push(kept@, copy);
                }
                kept.push(copy);
            }
            i += 1;
        }
        assert(before.take(before.len() as int) =~= before);
        let added = FolderRecord {
            folder: LocalFolder { id: stored, path: path.to_owned(), name: name.to_owned() },
            last_used: now,
        };
        proof {
            lemma_views_push(kept@, added);
            lemma_with_folder(
                old(self)@,
                FolderView { id: stored, path: path@, name: name@ },
                now,
            );
        }
        kept.push(added);
        self.folders = kept;
        Ok(stored)
    }

    /// Forgets the folder of the id `id`, once the settings store has removed
    /// it. Where the store refused, the folder stays known. What lies on the
    /// disk below the folder is never touched.
    pub fn remove_folder(&mut self, removed: Result<(), String>, id: i64) -> (outcome: Result<
        (),
        KvError,
    >)
        ensures
            match removed {
                Ok(_) => outcome is Ok && final(self)@ == old(self)@.without_folder(id),
                Err(why) => unit_result_view(outcome) == Err::<(), KvErrorView>(
                    KvErrorView::PersistenceFailed(why@),
                ) && final(self)@ == old(self)@,
            },
    {
        match removed {
            Ok(_) => {},
            Err(why) => {
                return Err(KvError::PersistenceFailed(why));
            },
        }
        proof {
            use_type_invariant(&*self);
        }
        match self.find_folder(id) {
            Some(position) => {
                proof {
                    lemma_folder_position(self@.folders, id, position as int);
                }
                let ghost before = self@.folders;
                let mut folders: Vec<FolderRecord> = Vec::new();
                std::mem::swap(&mut folders, &mut self.folders);
                let _ = folders.remove(position);
                assert(views(folders@) =~= before.remove(position as int));
                assert(distinct_folders(views(folders@))) by {
                    let after = views(folders@);
                    assert forall|i: int, j: int| 0 <= i < j < after.len() implies (
                    #[trigger] after[i]).folder.id != (#[trigger] after[j]).folder.id
                        && after[i].folder.path != after[j].folder.path by {
                        let a = if i < position { i } else { i + 1 };
                        let b = if j < position { j } else { j + 1 };
                        assert(after[i] == before[a] && after[j] == before[b]);
                    }
                }
                self.folders = folders;
            },
            None => {},
        }
        Ok(())
    }

    /// The folder of the id `id`.
    pub fn folder(&self, id: i64) -> (found: Result<LocalFolder, KvError>)
        ensures
            result_view(found) == match self@.folder(id) {
                Some(folder) => Ok::<FolderView, KvErrorView>(folder),
                None => Err::<FolderView, KvErrorView>(KvErrorView::FolderNotFound),
            },
    {
        match self.find_folder(id) {
            Some(position) => {
                proof {
                    lemma_folder_position(self@.folders, id, position as int);
                    assert(self@.folders[position as int] == self.folders@[position as int]@);
                }
                Ok(self.folders[position].folder.clone())
            },
            None => Err(KvError::FolderNotFound),
        }
    }

    /// The folders as they are shown to a caller, in the order in which
    /// they became known.
    pub fn list_folders(&self) -> (shown: Vec<LocalFolderInfo>)
        ensures
            views(shown@) == Seq::new(self@.folders.len(), |i: int| self@.folders[i].folder),
    {
        let mut shown: Vec<LocalFolderInfo> = Vec::new();
        let mut i: usize = 0;
        while i < self.folders.len()
            invariant
                i <= self.folders.len(),
                views(shown@) == Seq::new(i as nat, |k: int| self@.folders[k].folder),
            decreases self.folders.len() - i,
        {
            let info = LocalFolderInfo::from(&self.folders[i].folder);
            proof {
                lemma_views_push(shown@, info);
                assert(self@.folders[i as int] == self.folders@[i as int]@);
            }
            shown.push(info);
            i += 1;
            assert(views(shown@) =~= Seq::new(i as nat, |k: int| self@.folders[k].folder));
        }
        shown
    }

    /// Notes that the folder of the id `id` was used at `now`, once the
    /// settings store has noted it. A store that refused is no reason to
    /// stop what the folder is used for: the refusal is handed back to be
    /// logged, and the registry stays as it is.
    pub fn touch_folder(&mut self, touched: Result<(), String>, id: i64, now: i64) -> (warning:
        Option<KvError>)
        ensures
            match touched {
                Ok(_) => warning is None && final(self)@ == old(self)@.with_folder_used(id, now),
                Err(why) => warning is Some && warning.unwrap()@
                    == KvErrorView::PersistenceFailed(why@) && final(self)@ == old(self)@,
            },
    {
        match touched {
            Ok(_) => {},
            Err(why) => {
                return Some(KvError::PersistenceFailed(why));
            },
        }
        proof {
            use_type_invariant(&*self);
        }
        match self.find_folder(id) {
            Some(position) => {
                proof {
                    lemma_folder_position(self@.folders, id, position as int);
                }
                let ghost before = self@.folders;
                let mut folders: Vec<FolderRecord> = Vec::new();
                std::mem::swap(&mut folders, &mut self.folders);
                assert(before[position as int] == folders@[position as int]@);
                folders[position].last_used = now;
                assert(views(folders@) =~= before.update(
                    position as int,
                    FolderRecordView { last_used: now, ..before[position as int] },
                ));
                assert(distinct_folders(views(folders@))) by {
                    let after = views(folders@);
                    assert forall|i: int, j: int| 0 <= i < j < after.len() implies (
                    #[trigger] after[i]).folder.id != (#[trigger] after[j]).folder.id
                        && after[i].folder.path != after[j].folder.path by {
                        assert(after[i].folder == before[i].folder);
                        assert(after[j].folder == before[j].folder);
                    }
                }
                self.folders = folders;
            },
            None => {},
        }
        None
    }

    /// Takes note of the connection of `account_id` by `api_token`, which
    /// the caller has found valid and the settings store has saved, as last
    /// used at `now`. An account that is known already is not known twice
    /// afterwards: its token is replaced. Where the store refused the
    /// write, nothing is noted.
    pub fn add_connection(
        &mut self,
        saved: Result<(), String>,
        account_id: &str,
        api_token: &str,
        now: i64,
    ) -> (outcome: Result<(), KvError>)
        ensures
            match saved {
                Ok(_) => outcome is Ok && final(self)@ == old(self)@.with_connection(
                    account_id@,
                    api_token@,
                    now,
                ),
                Err(why) => unit_result_view(outcome) == Err::<(), KvErrorView>(
                    KvErrorView::PersistenceFailed(why@),
                ) && final(self)@ == old(self)@,
            },
    {
        match saved {
            Ok(_) => {},
            Err(why) => {
                return Err(KvError::PersistenceFailed(why));
            },
        }
        proof {
            use_type_invariant(&*self);
            lemma_with_connection(self@, account_id@, api_token@, now);
        }
        let record = ConnectionRecord {
            connection: RemoteConnection {
                account_id: account_id.to_owned(),
                api_token: api_token.to_owned(),
            },
            last_used: now,
        };
        let found = self.find_connection(account_id);
        let ghost before = self@.connections;
        let mut connections: Vec<ConnectionRecord> = Vec::new();
        std::mem::swap(&mut connections, &mut self.connections);
        match found {
            Some(position) => {
                proof {
                    lemma_connection_position(before, account_id@, position as int);
                }
                connections[position] = record;
                assert(views(connections@) =~= before.update(position as int, record@));
            },
            None => {
                proof {
                    lemma_views_push(connections@, record);
                }
                connections.push(record);
            },
        }
        self.connections = connections;
        Ok(())
    }

    /// The connection of `account_id`.
    pub fn connection(&self, account_id: &str) -> (found: Result<RemoteConnection, KvError>)
        ensures
            result_view(found) == match self@.connection(account_id@) {
                Some(connection) => Ok::<ConnectionView, KvErrorView>(connection),
                None => Err::<ConnectionView, KvErrorView>(KvErrorView::ConnectionNotFound),
            },
    {
        match self.find_connection(account_id) {
            Some(position) => {
                proof {
                    lemma_connection_position(self@.connections, account_id@, position as int);
                    assert(self@.connections[position as int]
                        == self.connections@[position as int]@);
                }
                Ok(self.connections[position].connection.clone())
            },
            None => Err(KvError::ConnectionNotFound),
        }
    }

    /// The connections, in the order in which their accounts became known.
    pub fn list_connections(&self) -> (shown: Vec<RemoteConnection>)
        ensures
            views(shown@) == Seq::new(
                self@.connections.len(),
                |i: int| self@.connections[i].connection,
            ),
    {
        let mut shown: Vec<RemoteConnection> = Vec::new();
        let mut i: usize = 0;
        while i < self.connections.len()
            invariant
                i <= self.connections.len(),
                views(shown@) == Seq::new(i as nat, |k: int| self@.connections[k].connection),
            decreases self.connections.len() - i,
        {
            let connection = self.connections[i].connection.clone();
            proof {
                lemma_views_push(shown@, connection);
                assert(self@.connections[i as int] == self.connections@[i as int]@);
            }
            shown.push(connection);
            i += 1;
            assert(views(shown@) =~= Seq::new(
                i as nat,
                |k: int| self@.connections[k].connection,
            ));
        }
        shown
    }

    /// Notes that the connection of `account_id` was used at `now`, once the
    /// settings store has noted it. A store that refused is no reason to
    /// stop the remote operation: the refusal is handed back to be logged,
    /// and the registry stays as it is.
    pub fn touch_connection(
        &mut self,
        touched: Result<(), String>,
        account_id: &str,
        now: i64,
    ) -> (warning: Option<KvError>)
        ensures
            match touched {
                Ok(_) => warning is None && final(self)@ == old(self)@.with_connection_used(
                    account_id@,
                    now,
                ),
                Err(why) => warning is Some && warning.unwrap()@
                    == KvErrorView::PersistenceFailed(why@) && final(self)@ == old(self)@,
            },
    {
        match touched {
            Ok(_) => {},
            Err(why) => {
                return Some(KvError::PersistenceFailed(why));
            },
        }
        proof {
            use_type_invariant(&*self);
        }
        match self.find_connection(account_id) {
            Some(position) => {
                proof {
                    lemma_connection_position(self@.connections, account_id@, position as int);
                }
                let ghost before = self@.connections;
                let mut connections: Vec<ConnectionRecord> = Vec::new();
                std::mem::swap(&mut connections, &mut self.connections);
                assert(before[position as int] == connections@[position as int]@);
                connections[position].last_used = now;
                assert(views(connections@) =~= before.update(
                    position as int,
                    ConnectionRecordView { last_used: now, ..before[position as int] },
                ));
                assert(distinct_connections(views(connections@))) by {
                    let after = views(connections@);
                    assert forall|i: int, j: int| 0 <= i < j < after.len() implies (
                    #[trigger] after[i]).connection.account_id != (
                    #[trigger] after[j]).connection.account_id by {
                        assert(after[i].connection == before[i].connection);
                        assert(after[j].connection == before[j].connection);
                    }
                }
                self.connections = connections;
            },
            None => {},
        }
        None
    }

    /// Forgets every connection, once the settings store has removed them
    /// all. Where the store refused, they all stay known. There is no way
    /// to forget one account alone.
    pub fn disconnect_all(&mut self, removed: Result<(), String>) -> (outcome: Result<(), KvError>)
        ensures
            match removed {
                Ok(_) => outcome is Ok && final(self)@ == old(self)@.without_connections(),
                Err(why) => unit_result_view(outcome) == Err::<(), KvErrorView>(
                    KvErrorView::PersistenceFailed(why@),
                ) && final(self)@ == old(self)@,
            },
    {
        match removed {
            Ok(_) => {},
            Err(why) => {
                return Err(KvError::PersistenceFailed(why));
            },
        }
        proof {
            use_type_invariant(&*self);
        }
        let connections: Vec<ConnectionRecord> = Vec::new();
        assert(views(connections@) =~= Seq::<ConnectionRecordView>::empty());
        self.connections = connections;
        Ok(())
    }
}

/// `Path::file_name` gives the final component of the path, if there is
/// one: a part of the path that is not empty. The rules by which it finds
/// the component are those of the platform.
#[verifier::external_body]
fn final_component(path: &str) -> (name: Option<String>)
    ensures
        match name {
            Some(found) => exists|from: int, to: int|
                0 <= from < to <= path@.len() && found@ == path@.subrange(from, to),
            None => true,
        },
{
    let name = std::path::Path::new(path).file_name();
    name.and_then(|name| name.to_str()).map(|name| name.to_owned())
}

/// The name under which a folder is shown, given the final component of its
/// path: the component, or `Unknown Folder` where the path has none.
pub fn folder_name_or_default(component: Option<String>) -> (name: String)
    ensures
        name@ == match component {
            Some(found) => found@,
            None => "Unknown Folder"@,
        },
{
    match component {
        Some(found) => found,
        None => "Unknown Folder".to_owned(),
    }
}

/// The name under which the folder at `path` is shown: the final component
/// of the path, or `Unknown Folder` where it has none.
pub fn extract_folder_name(path: &str) -> (name: String)
    ensures
        name@ == "Unknown Folder"@ || exists|from: int, to: int|
            0 <= from < to <= path@.len() && name@ == path@.subrange(from, to),
{
    folder_name_or_default(final_component(path))
}

} // verus!
