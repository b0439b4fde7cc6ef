//! The workspace: the store of stored requests and the set of
//! directories that refer to them.

use vstd::prelude::*;
use crate::method::Method;
use crate::model::{
    fresh_id, fresh_location, texts_of, Directory, DirectoryView, Location, LocationView,
};
use crate::postman::{directory_of, import_collection, location_of, ItemView, Postman};
use crate::table::Table;
use crate::text::{decimal_text, write_decimal};

verus! {

/// A store of stored requests as contracts see it.
pub type Store = Map<Seq<char>, LocationView>;

/// An identifier with the stored request filed under it.
pub type Filing = (Seq<char>, LocationView);

/// The store after the filings were made in their order, each in place of
/// whatever its identifier held before.
pub open spec fn filed(store: Store, filings: Seq<Filing>) -> Store
    decreases filings.len(),
{
    if filings.len() == 0 {
        store
    } else {
        filed(store, filings.drop_last()).insert(filings.last().0, filings.last().1)
    }
}

/// The request that the filings leave under `id`: that of the last
/// filing under it, if there is one.
pub open spec fn latest(filings: Seq<Filing>, id: Seq<char>) -> Option<LocationView>
    decreases filings.len(),
{
    if filings.len() == 0 {
        None
    } else if filings.last().0 == id {
        Some(filings.last().1)
    } else {
        latest(filings.drop_last(), id)
    }
}

/// The filings that the items of a collection export make.
pub open spec fn filings_of(items: Seq<ItemView>) -> Seq<Filing> {
    Seq::new(items.len(), |i: int| (items[i].id, location_of(items[i])))
}

/// The views of a list of identified stored requests.
pub open spec fn filings_in(entries: Seq<(String, Location)>) -> Seq<Filing> {
    Seq::new(entries.len(), |i: int| (entries[i].0@, entries[i].1@))
}

/// The identifiers other than `id`, in their order.
pub open spec fn without_id(ids: Seq<Seq<char>>, id: Seq<char>) -> Seq<Seq<char>> {
    ids.filter(|other: Seq<char>| other != id)
}

/// The directory with one more stored request at its end.
pub open spec fn with_location(directory: DirectoryView, id: Seq<char>) -> DirectoryView {
    DirectoryView { locations: directory.locations.push(id), ..directory }
}

/// The directory without any reference to `id`.
pub open spec fn without_location(directory: DirectoryView, id: Seq<char>) -> DirectoryView {
    DirectoryView { locations: without_id(directory.locations, id), ..directory }
}

/// A new, empty directory at the root.
pub open spec fn empty_directory(id: Seq<char>, name: Seq<char>) -> DirectoryView {
    DirectoryView { id, name, parent: Seq::empty(), leaf: false, locations: Seq::empty() }
}

/// The name that a new directory starts with: `new` and a count.
pub open spec fn default_directory_name(count: nat) -> Seq<char> {
    "new "@ + decimal_text(count)
}

/// Writes the name that a new directory starts with.
pub fn directory_name(count: usize) -> (name: String)
    ensures
        name@ == default_directory_name(count as nat),
{
    let mut name = "new ".to_owned();
    name.append(write_decimal(count).as_str());
    name
}

/// A failed import step.
#[derive(Clone, Debug, PartialEq, Eq)]
pub enum ImportError {
    /// The archive could not be read.
    Archive(String),
    /// An entry of the archive is no collection export.
    Document(String),
}

impl Directory {
    /// A new, empty directory at the root.
    pub fn empty(id: String, name: String) -> (directory: Directory)
        ensures
            directory@ == empty_directory(id@, name@),
    {
        let directory = Directory {
            id,
            name,
            parent: String::new(),
            leaf: false,
            locations: Vec::new(),
        };
        assert(directory@.locations =~= Seq::<Seq<char>>::empty());
        directory
    }

    /// Adds a reference to a stored request at the end.
    pub fn link(&mut self, id: String)
        ensures
            final(self)@ == with_location(old(self)@, id@),
    {
        let ghost before = self.locations@;
        self.locations.push(id);
        assert(texts_of(self.locations@) =~= texts_of(before).push(id@));
    }

    /// Drops every reference to a stored request.
    pub fn unlink(&mut self, id: &String)
        ensures
            final(self)@ == without_location(old(self)@, id@),
    {
        let ghost all = texts_of(self.locations@);
        let mut kept: Vec<String> = Vec::new();
        let mut i: usize = 0;
        proof {
            reveal(Seq::filter);
            assert(all.take(0) =~= Seq::<Seq<char>>::empty());
            assert(texts_of(kept@) =~= Seq::<Seq<char>>::empty());
        }
        while i < self.locations.len()
            invariant
                *self == *old(self),
                all == texts_of(self.locations@),
                i <= self.locations.len(),
                texts_of(kept@) == without_id(all.take(i as int), id@),
            decreases self.locations.len() - i,
        {
            let ghost before = all.take(i as int);
            let ghost kept_before = kept@;
            proof {
                reveal(Seq::filter);
                assert(before.push(all[i as int]).drop_last() =~= before);
                assert(all.take(i + 1) =~= before.push(all[i as int]));
            }
            if self.locations[i] != *id {
                kept.push(self.locations[i].clone());
                assert(texts_of(kept@) =~= texts_of(kept_before).push(all[i as int]));
            }
            i = i + 1;
        }
        assert(all.take(i as int) =~= all);
        self.locations = kept;
    }
}

/// The collection store and the directory set of one session.
#[derive(Clone, Debug)]
pub struct Workspace {
    /// The stored requests, each under its identifier.
    pub buffers: Table<Location>,
    /// The directories, each under its identifier.
    pub directory: Table<Directory>,
}

impl Workspace {
    /// Both tables are well formed.
    pub open spec fn wf(&self) -> bool {
        self.buffers.wf() && self.directory.wf()
    }

    /// An empty workspace.
    pub fn new() -> (workspace: Workspace)
        ensures
            workspace.wf(),
            workspace.buffers@ == Map::<Seq<char>, LocationView>::empty(),
            workspace.directory@ == Map::<Seq<char>, DirectoryView>::empty(),
    {
        Workspace { buffers: Table::new(), directory: Table::new() }
    }

    /// Adds an empty directory at the root, in place of any directory that
    /// had the identifier before.
    pub fn add_directory(&mut self, id: String, name: String)
        requires
            old(self).wf(),
        ensures
            final(self).wf(),
            final(self).buffers@ == old(self).buffers@,
            final(self).directory@ == old(self).directory@.insert(
                id@,
                empty_directory(id@, name@),
            ),
    {
        let key = id.clone();
        self.directory.insert(key, Directory::empty(id, name));
    }

    /// Adds an empty directory at the root under a freshly generated
    /// identifier, named `new` and the number of directories there were,
    /// and gives the identifier back. Nothing rules out that the
    /// identifier was taken: the directory then takes the place of the one
    /// that had it.
    pub fn new_directory(&mut self) -> (id: String)
        requires
            old(self).wf(),
        ensures
            final(self).wf(),
            id@.len() == 36,
            final(self).buffers@ == old(self).buffers@,
            final(self).directory@ == old(self).directory@.insert(
                id@,
                empty_directory(id@, default_directory_name(old(self).directory@.dom().len())),
            ),
            !old(self).directory@.contains_key(id@) ==> final(self).directory@.dom().len() == old(
                self,
            ).directory@.dom().len() + 1,
    {
        proof {
            self.directory.lemma_count();
        }
        let name = directory_name(self.directory.len());
        let id = fresh_id();
        self.add_directory(id.clone(), name);
        proof {
            assert(self.directory@.dom() =~= old(self).directory@.dom().insert(id@));
        }
        id
    }

    /// Adds the starting stored request, a GET of
    /// `https://httpbin.org/get` named `Item get`, to a directory under a
    /// freshly generated identifier, and gives the identifier back. Where
    /// there is no such directory, nothing changes.
    pub fn new_location(&mut self, directory: &String) -> (id: Option<String>)
        requires
            old(self).wf(),
        ensures
            final(self).wf(),
            id.is_some() == old(self).directory@.contains_key(directory@),
            match id {
                Some(id) => id@.len() == 36 && final(self).buffers@ == old(self).buffers@.insert(
                    id@,
                    fresh_location(id@, "Item get"@, "https://httpbin.org/get"@, Method::Get),
                ) && final(self).directory@ == old(self).directory@.insert(
                    directory@,
                    with_location(old(self).directory@[directory@], id@),
                ),
                None => final(self).buffers@ == old(self).buffers@ && final(self).directory@
                    == old(self).directory@,
            },
    {
        if !self.directory.contains_key(directory) {
            return None;
        }
        let location = Location::create(
            "Item get".to_owned(),
            "https://httpbin.org/get".to_owned(),
            Method::Get,
        );
        let id = location.id.clone();
        let added = self.add_location(directory, location);
        assert(added);
        Some(id)
    }

    /// Files a stored request under its identifier and refers to it
    /// at the end of the directory `directory`. Where there is no such
    /// directory, nothing changes and the answer is `false`.
    pub fn add_location(&mut self, directory: &String, location: Location) -> (added: bool)
        requires
            old(self).wf(),
        ensures
            final(self).wf(),
            added == old(self).directory@.contains_key(directory@),
            added ==> final(self).buffers@ == old(self).buffers@.insert(location@.id, location@)
                && final(self).directory@ == old(self).directory@.insert(
                directory@,
                with_location(old(self).directory@[directory@], location@.id),
            ),
            !added ==> final(self).buffers@ == old(self).buffers@ && final(self).directory@ == old(
                self,
            ).directory@,
    {
        match self.directory.remove(directory) {
            Some(found) => {
                let mut found = found;
                found.link(location.id.clone());
                self.directory.insert(directory.clone(), found);
                self.buffers.insert(location.id.clone(), location);
                assert(self.directory@ =~= old(self).directory@.insert(
                    directory@,
                    with_location(old(self).directory@[directory@], location@.id),
                ));
                true
            },
            None => {
                assert(self.directory@ =~= old(self).directory@);
                false
            },
        }
    }

    /// Drops every reference to a stored request from a directory.
    /// The request itself stays in the store. Where there is no such
    /// directory, nothing changes.
    pub fn unlink_location(&mut self, directory: &String, id: &String)
        requires
            old(self).wf(),
        ensures
            final(self).wf(),
            final(self).buffers@ == old(self).buffers@,
            final(self).directory@ == if old(self).directory@.contains_key(directory@) {
                old(self).directory@.insert(
                    directory@,
                    without_location(old(self).directory@[directory@], id@),
                )
            } else {
                old(self).directory@
            },
    {
        match self.directory.remove(directory) {
            Some(found) => {
                let mut found = found;
                found.unlink(id);
                self.directory.insert(directory.clone(), found);
                assert(self.directory@ =~= old(self).directory@.insert(
                    directory@,
                    without_location(old(self).directory@[directory@], id@),
                ));
            },
            None => {
                assert(self.directory@ =~= old(self).directory@);
            },
        }
    }

    /// Gives a directory another name. Where there is no such directory,
    /// nothing changes.
    pub fn rename_directory(&mut self, id: &String, name: String)
        requires
            old(self).wf(),
        ensures
            final(self).wf(),
            final(self).buffers@ == old(self).buffers@,
            final(self).directory@ == if old(self).directory@.contains_key(id@) {
                old(self).directory@.insert(
                    id@,
                    DirectoryView { name: name@, ..old(self).directory@[id@] },
                )
            } else {
                old(self).directory@
            },
    {
        match self.directory.remove(id) {
            Some(found) => {
                let mut found = found;
                found.name = name;
                self.directory.insert(id.clone(), found);
                assert(self.directory@ =~= old(self).directory@.insert(
                    id@,
                    DirectoryView { name: name@, ..old(self).directory@[id@] },
                ));
            },
            None => {
                assert(self.directory@ =~= old(self).directory@);
            },
        }
    }

    /// Deletes a directory. The stored requests that it referred to
    /// stay in the store.
    pub fn delete_directory(&mut self, id: &String)
        requires
            old(self).wf(),
        ensures
            final(self).wf(),
            final(self).buffers@ == old(self).buffers@,
            final(self).directory@ == old(self).directory@.remove(id@),
            !final(self).directory@.contains_key(id@),
            forall|location: Seq<char>| #[trigger]
                old(self).buffers@.contains_key(location) ==> final(self).buffers@.contains_key(
                    location,
                ) && final(self).buffers@[location] == old(self).buffers@[location],
    {
        let _ = self.directory.remove(id);
    }

    /// Files a directory and stored requests, in their order, each
    /// in place of whatever had its identifier before.
    pub fn merge(&mut self, directory: Directory, entries: Vec<(String, Location)>)
        requires
            old(self).wf(),
        ensures
            final(self).wf(),
            final(self).buffers@ == filed(old(self).buffers@, filings_in(entries@)),
            final(self).directory@ == old(self).directory@.insert(directory@.id, directory@),
    {
        let mut entries = entries;
        let ghost all = filings_in(entries@);
        let ghost start = self.buffers@;
        let ghost done: int = 0;
        assert(all.take(0) =~= Seq::<Filing>::empty());
        while entries.len() > 0
            invariant
                self.wf(),
                self.directory@ == old(self).directory@,
                0 <= done <= all.len(),
                filings_in(entries@) == all.skip(done),
                self.buffers@ == filed(start, all.take(done)),
            decreases entries.len(),
        {
            let ghost rest = filings_in(entries@);
            let ghost before = entries@;
            let entry = entries.remove(0);
            proof {
                assert(rest.len() == before.len());
                assert(rest[0] == all.skip(done)[0]);
                assert(rest[0] == all[done]);
                assert forall|k: int| 0 <= k < entries@.len() implies filings_in(entries@)[k]
                    == all.skip(done + 1)[k] by {
                    assert(entries@[k] == before[k + 1]);
                    assert(rest[k + 1] == all.skip(done)[k + 1]);
                }
                assert(filings_in(entries@) =~= all.skip(done + 1));
                assert(all.take(done + 1).drop_last() =~= all.take(done));
                done = done + 1;
            }
            self.buffers.insert(entry.0, entry.1);
        }
        assert(all.take(done) =~= all);
        let key = directory.id.clone();
        self.directory.insert(key, directory);
    }

    /// Imports a collection export: its directory is filed under the
    /// collection's identifier and each item under its own, in source order.
    pub fn import(&mut self, doc: &Postman)
        requires
            old(self).wf(),
        ensures
            final(self).wf(),
            final(self).buffers@ == filed(old(self).buffers@, filings_of(doc@.items)),
            final(self).directory@ == old(self).directory@.insert(doc@.id, directory_of(doc@)),
    {
        let (directory, entries) = import_collection(doc);
        assert(filings_in(entries@) =~= filings_of(doc@.items));
        self.merge(directory, entries);
    }

    /// Takes one import step: a collection export that was read is
    /// imported; a failure to read one is handed back and changes nothing.
    pub fn import_entry(&mut self, entry: Result<Postman, ImportError>) -> (outcome: Result<
        (),
        ImportError,
    >)
        requires
            old(self).wf(),
        ensures
            final(self).wf(),
            match entry {
                Ok(doc) => outcome.is_ok() && final(self).buffers@ == filed(
                    old(self).buffers@,
                    filings_of(doc@.items),
                ) && final(self).directory@ == old(self).directory@.insert(
                    doc@.id,
                    directory_of(doc@),
                ),
                Err(error) => outcome == Err::<(), ImportError>(error) && final(self).buffers@
                    == old(self).buffers@ && final(self).directory@ == old(self).directory@,
            },
    {
        match entry {
            Ok(doc) => {
                self.import(&doc);
                Ok(())
            },
            Err(error) => Err(error),
        }
    }
}

/// The store and the directory set of a workspace, as contracts see them.
pub struct WorkspaceView {
    pub buffers: Store,
    pub directory: Map<Seq<char>, DirectoryView>,
}

/// The workspace after a collection export was imported.
pub open spec fn imported(state: WorkspaceView, doc: crate::postman::PostmanView) -> WorkspaceView {
    WorkspaceView {
        buffers: filed(state.buffers, filings_of(doc.items)),
        directory: state.directory.insert(doc.id, directory_of(doc)),
    }
}

/// The workspace after the collection exports among the first `upto`
/// entries were imported, one after the other.
pub open spec fn imported_upto(
    state: WorkspaceView,
    entries: Seq<Result<Postman, ImportError>>,
    upto: int,
) -> WorkspaceView
    decreases upto,
{
    if upto <= 0 {
        state
    } else {
        match entries[upto - 1] {
            Ok(doc) => imported(imported_upto(state, entries, upto - 1), doc@),
            Err(_) => imported_upto(state, entries, upto - 1),
        }
    }
}

/// Whether the first `upto` entries were all read.
pub open spec fn all_read(entries: Seq<Result<Postman, ImportError>>, upto: int) -> bool {
    forall|i: int| 0 <= i < upto ==> (#[trigger] entries[i]).is_ok()
}

impl Workspace {
    /// The store and the directory set.
    pub open spec fn state(&self) -> WorkspaceView {
        WorkspaceView { buffers: self.buffers@, directory: self.directory@ }
    }

    /// Imports the entries of an archive in their order, and stops at the
    /// first that could not be read: its failure is handed back, the
    /// entries before it stay imported, those after it are not looked at.
    pub fn import_all(&mut self, entries: Vec<Result<Postman, ImportError>>) -> (outcome: Result<
        (),
        ImportError,
    >)
        requires
            old(self).wf(),
        ensures
            final(self).wf(),
            match outcome {
                Ok(_) => all_read(entries@, entries@.len() as int) && final(self).state()
                    == imported_upto(old(self).state(), entries@, entries@.len() as int),
                Err(error) => exists|k: int|
                    0 <= k < entries@.len() && all_read(entries@, k) && (#[trigger] entries@[k])
                        == Err::<Postman, ImportError>(error) && final(self).state()
                        == imported_upto(old(self).state(), entries@, k),
            },
    {
        let ghost all = entries@;
        let ghost start = self.state();
        let ghost done: int = 0;
        let mut pending = entries;
        while pending.len() > 0
            invariant
                self.wf(),
                all == entries@,
                start == old(self).state(),
                0 <= done <= all.len(),
                pending@ == all.skip(done),
                all_read(all, done),
                self.state() == imported_upto(start, all, done),
            decreases pending.len(),
        {
            let ghost rest = pending@;
            let entry = pending.remove(0);
            assert(entry == all[done]) by {
                assert(rest[0] == all.skip(done)[0]);
            }
            assert(pending@ =~= all.skip(done + 1));
            match entry {
                Ok(doc) => {
                    self.import(&doc);
                },
                Err(error) => {
                    assert(all[done] == Err::<Postman, ImportError>(error));
                    return Err(error);
                },
            }
            proof {
                done = done + 1;
            }
        }
        Ok(())
    }
}

/// What a run of filings leaves in a store: under an identifier that was
/// filed, the request of its last filing; under any other, what the
/// store held before.
pub proof fn lemma_filed(store: Store, filings: Seq<Filing>, id: Seq<char>)
    ensures
        filed(store, filings).contains_key(id) <==> latest(filings, id).is_some()
            || store.contains_key(id),
        latest(filings, id).is_some() ==> filed(store, filings)[id] == latest(filings, id).unwrap(),
        latest(filings, id).is_none() ==> filed(store, filings)[id] == store[id],
    decreases filings.len(),
{
    if filings.len() > 0 {
        lemma_filed(store, filings.drop_last(), id);
    }
}

/// A filing that no later filing shares its identifier with is the one
/// that the run leaves under that identifier; any filing leaves something.
pub proof fn lemma_latest(filings: Seq<Filing>, i: int)
    requires
        0 <= i < filings.len(),
    ensures
        latest(filings, filings[i].0).is_some(),
        (forall|j: int| i < j < filings.len() ==> filings[j].0 != filings[i].0) ==> latest(
            filings,
            filings[i].0,
        ) == Some(filings[i].1),
    decreases filings.len(),
{
    if i < filings.len() - 1 {
        lemma_latest(filings.drop_last(), i);
    }
}

/// Importing a collection export of N items gives one directory that
/// lists the N identifiers in source order, and leaves every item in the
/// store under its identifier: as the request it maps to, unless a
/// later item has the same identifier.
pub proof fn lemma_import_files_every_item(store: Store, doc: crate::postman::PostmanView, i: int)
    requires
        0 <= i < doc.items.len(),
    ensures
        directory_of(doc).locations.len() == doc.items.len(),
        directory_of(doc).locations[i] == doc.items[i].id,
        filed(store, filings_of(doc.items)).contains_key(doc.items[i].id),
        (forall|j: int| i < j < doc.items.len() ==> doc.items[j].id != doc.items[i].id) ==> filed(
            store,
            filings_of(doc.items),
        )[doc.items[i].id] == location_of(doc.items[i]),
{
    let filings = filings_of(doc.items);
    lemma_latest(filings, i);
    lemma_filed(store, filings, doc.items[i].id);
}

/// Importing leaves what was filed under other identifiers as it was.
pub proof fn lemma_import_keeps_others(store: Store, items: Seq<ItemView>, id: Seq<char>)
    requires
        forall|i: int| 0 <= i < items.len() ==> items[i].id != id,
    ensures
        filed(store, filings_of(items)).contains_key(id) == store.contains_key(id),
        filed(store, filings_of(items))[id] == store[id],
{
    let filings = filings_of(items);
    lemma_latest_none(filings, id);
    lemma_filed(store, filings, id);
}

/// No filing under an identifier leaves nothing under it.
pub proof fn lemma_latest_none(filings: Seq<Filing>, id: Seq<char>)
    requires
        forall|i: int| 0 <= i < filings.len() ==> filings[i].0 != id,
    ensures
        latest(filings, id).is_none(),
    decreases filings.len(),
{
    if filings.len() > 0 {
        lemma_latest_none(filings.drop_last(), id);
    }
}

/// Importing the same collection export a second time changes nothing:
/// the second import files the same requests under the same
/// identifiers, and the same directory under the collection's.
pub proof fn lemma_import_twice(
    store: Store,
    directories: Map<Seq<char>, DirectoryView>,
    doc: crate::postman::PostmanView,
)
    ensures
        filed(filed(store, filings_of(doc.items)), filings_of(doc.items)) == filed(
            store,
            filings_of(doc.items),
        ),
        directories.insert(doc.id, directory_of(doc)).insert(doc.id, directory_of(doc))
            == directories.insert(doc.id, directory_of(doc)),
{
    let filings = filings_of(doc.items);
    let once = filed(store, filings);
    let twice = filed(once, filings);
    assert forall|id: Seq<char>| #[trigger] twice.contains_key(id) <==> once.contains_key(id) by {
        lemma_filed(store, filings, id);
        lemma_filed(once, filings, id);
    }
    assert forall|id: Seq<char>| once.contains_key(id) implies #[trigger] twice[id] == once[id] by {
        lemma_filed(store, filings, id);
        lemma_filed(once, filings, id);
    }
    assert(twice =~= once);
    assert(directories.insert(doc.id, directory_of(doc)).insert(doc.id, directory_of(doc))
        =~= directories.insert(doc.id, directory_of(doc)));
}

} // verus!
