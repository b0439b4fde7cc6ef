//! Exclusive ownership: a stored request is referred to from at most one
//! place in the directory set.

use vstd::prelude::*;
use crate::model::DirectoryView;
use crate::postman::{directory_of, PostmanView};
use crate::workspace::{with_location, without_id, without_location};

verus! {

/// A directory set as contracts see it.
pub type Directories = Map<Seq<char>, DirectoryView>;

/// Whether the directory `directory` refers to `id` at position `i`.
pub open spec fn refers(directories: Directories, directory: Seq<char>, i: int, id: Seq<char>) -> bool {
    &&& directories.contains_key(directory)
    &&& 0 <= i < directories[directory].locations.len()
    &&& directories[directory].locations[i] == id
}

/// Whether any directory refers to `id`.
pub open spec fn referenced(directories: Directories, id: Seq<char>) -> bool {
    exists|directory: Seq<char>, i: int| refers(directories, directory, i, id)
}

/// No stored request is referred to twice: not from two directories, and
/// not from two positions of one.
pub open spec fn exclusive(directories: Directories) -> bool {
    forall|first: Seq<char>, i: int, second: Seq<char>, j: int|
        #![trigger directories[first].locations[i], directories[second].locations[j]]
        refers(directories, first, i, directories[first].locations[i]) && refers(
            directories,
            second,
            j,
            directories[first].locations[i],
        ) ==> first == second && i == j
}

/// Referring to a stored request that nothing refers to yet keeps
/// ownership exclusive.
pub proof fn lemma_link_keeps_exclusive(directories: Directories, directory: Seq<char>, id: Seq<char>)
    requires
        exclusive(directories),
        directories.contains_key(directory),
        !referenced(directories, id),
    ensures
        exclusive(directories.insert(directory, with_location(directories[directory], id))),
{
    let old_len = directories[directory].locations.len() as int;
    let after = directories.insert(directory, with_location(directories[directory], id));
    assert forall|first: Seq<char>, i: int, second: Seq<char>, j: int|
        #![trigger after[first].locations[i], after[second].locations[j]]
        refers(after, first, i, after[first].locations[i]) && refers(
            after,
            second,
            j,
            after[first].locations[i],
        ) implies first == second && i == j by {
        let target = after[first].locations[i];
        let first_new = first == directory && i == old_len;
        let second_new = second == directory && j == old_len;
        if !first_new {
            assert(refers(directories, first, i, target));
            assert(directories[first].locations[i] == target);
        }
        if !second_new {
            assert(refers(directories, second, j, target));
            assert(directories[second].locations[j] == target);
        }
        if first_new && !second_new {
            assert(target == id);
            assert(referenced(directories, id));
        }
        if !first_new && second_new {
            assert(target == id);
            assert(referenced(directories, id));
        }
    }
}

/// Putting a directory that refers to nothing, or to what the directory
/// of that identifier referred to before, into the set keeps ownership
/// exclusive: so do adding an empty directory and renaming one.
pub proof fn lemma_put_keeps_exclusive(
    directories: Directories,
    directory: Seq<char>,
    put: DirectoryView,
)
    requires
        exclusive(directories),
        put.locations.len() == 0 || (directories.contains_key(directory) && put.locations
            == directories[directory].locations),
    ensures
        exclusive(directories.insert(directory, put)),
{
    let after = directories.insert(directory, put);
    assert forall|first: Seq<char>, i: int, second: Seq<char>, j: int|
        #![trigger after[first].locations[i], after[second].locations[j]]
        refers(after, first, i, after[first].locations[i]) && refers(
            after,
            second,
            j,
            after[first].locations[i],
        ) implies first == second && i == j by {
        let target = after[first].locations[i];
        assert(refers(directories, first, i, target));
        assert(refers(directories, second, j, target));
        assert(directories[first].locations[i] == target);
        assert(directories[second].locations[j] == target);
    }
}

/// Deleting a directory keeps ownership exclusive.
pub proof fn lemma_delete_keeps_exclusive(directories: Directories, directory: Seq<char>)
    requires
        exclusive(directories),
    ensures
        exclusive(directories.remove(directory)),
{
    let after = directories.remove(directory);
    assert forall|first: Seq<char>, i: int, second: Seq<char>, j: int|
        #![trigger after[first].locations[i], after[second].locations[j]]
        refers(after, first, i, after[first].locations[i]) && refers(
            after,
            second,
            j,
            after[first].locations[i],
        ) implies first == second && i == j by {
        let target = after[first].locations[i];
        assert(refers(directories, first, i, target));
        assert(refers(directories, second, j, target));
        assert(directories[first].locations[i] == target);
        assert(directories[second].locations[j] == target);
    }
}

/// Dropping identifiers from a list without repeats leaves a list without
/// repeats, made of identifiers of the first.
pub proof fn lemma_without_id(ids: Seq<Seq<char>>, id: Seq<char>)
    requires
        ids.no_duplicates(),
    ensures
        without_id(ids, id).no_duplicates(),
        forall|i: int|
            0 <= i < without_id(ids, id).len() ==> ids.contains(#[trigger] without_id(ids, id)[i]),
    decreases ids.len(),
{
    reveal(Seq::filter);
    if ids.len() > 0 {
        let rest = ids.drop_last();
        let kept = without_id(rest, id);
        lemma_without_id(rest, id);
        assert forall|i: int| 0 <= i < kept.len() implies ids.contains(#[trigger] kept[i]) && kept[i]
            != ids.last() by {
            assert(rest.contains(kept[i]));
            let k = choose|k: int| 0 <= k < rest.len() && rest[k] == kept[i];
            assert(ids[k] == kept[i]);
        }
        if ids.last() != id {
            assert(without_id(ids, id) == kept.push(ids.last()));
            assert(ids[ids.len() - 1] == ids.last());
        } else {
            assert(without_id(ids, id) == kept);
        }
    }
}

/// Dropping the references to a stored request from a directory keeps
/// ownership exclusive.
pub proof fn lemma_unlink_keeps_exclusive(directories: Directories, directory: Seq<char>, id: Seq<char>)
    requires
        exclusive(directories),
        directories.contains_key(directory),
    ensures
        exclusive(directories.insert(directory, without_location(directories[directory], id))),
{
    let before = directories[directory].locations;
    let kept = without_id(before, id);
    let after = directories.insert(directory, without_location(directories[directory], id));
    assert(before.no_duplicates()) by {
        assert forall|i: int, j: int| 0 <= i < before.len() && 0 <= j < before.len() && i != j implies before[i]
            != before[j] by {
            if before[i] == before[j] {
                assert(refers(directories, directory, i, directories[directory].locations[i]));
                assert(refers(directories, directory, j, directories[directory].locations[i]));
                assert(directories[directory].locations[j] == before[j]);
            }
        }
    }
    lemma_without_id(before, id);
    assert forall|first: Seq<char>, i: int, second: Seq<char>, j: int|
        #![trigger after[first].locations[i], after[second].locations[j]]
        refers(after, first, i, after[first].locations[i]) && refers(
            after,
            second,
            j,
            after[first].locations[i],
        ) implies first == second && i == j by {
        let target = after[first].locations[i];
        if first != directory && second != directory {
            assert(refers(directories, first, i, target));
            assert(refers(directories, second, j, target));
            assert(directories[first].locations[i] == target);
            assert(directories[second].locations[j] == target);
        } else if first == directory && second == directory {
            assert(kept[i] == kept[j]);
        } else if first == directory {
            assert(before.contains(kept[i]));
            let k = choose|k: int| 0 <= k < before.len() && before[k] == kept[i];
            assert(refers(directories, directory, k, directories[directory].locations[k]));
            assert(refers(directories, second, j, directories[directory].locations[k]));
            assert(directories[second].locations[j] == target);
        } else {
            assert(before.contains(kept[j]));
            let k = choose|k: int| 0 <= k < before.len() && before[k] == kept[j];
            assert(refers(directories, first, i, directories[first].locations[i]));
            assert(refers(directories, directory, k, directories[first].locations[i]));
            assert(directories[directory].locations[k] == target);
        }
    }
}

/// Whether a directory other than `own` refers to `id`.
pub open spec fn referenced_elsewhere(directories: Directories, own: Seq<char>, id: Seq<char>) -> bool {
    exists|directory: Seq<char>, i: int| directory != own && refers(directories, directory, i, id)
}

/// Importing a collection export whose items have distinct identifiers,
/// none of them referred to from a directory other than the collection's
/// own, keeps ownership exclusive. This covers importing a collection
/// again.
pub proof fn lemma_import_keeps_exclusive(directories: Directories, doc: PostmanView)
    requires
        exclusive(directories),
        forall|i: int, j: int|
            0 <= i < j < doc.items.len() ==> doc.items[i].id != doc.items[j].id,
        forall|i: int|
            0 <= i < doc.items.len() ==> !referenced_elsewhere(
                directories,
                doc.id,
                doc.items[i].id,
            ),
    ensures
        exclusive(directories.insert(doc.id, directory_of(doc))),
{
    let after = directories.insert(doc.id, directory_of(doc));
    assert forall|first: Seq<char>, i: int, second: Seq<char>, j: int|
        #![trigger after[first].locations[i], after[second].locations[j]]
        refers(after, first, i, after[first].locations[i]) && refers(
            after,
            second,
            j,
            after[first].locations[i],
        ) implies first == second && i == j by {
        let target = after[first].locations[i];
        if first != doc.id {
            assert(refers(directories, first, i, target));
            assert(directories[first].locations[i] == target);
        }
        if second != doc.id {
            assert(refers(directories, second, j, target));
            assert(directories[second].locations[j] == target);
        }
        if first == doc.id && second != doc.id {
            assert(target == doc.items[i].id);
            assert(referenced_elsewhere(directories, doc.id, doc.items[i].id));
        }
        if first != doc.id && second == doc.id {
            assert(target == doc.items[j].id);
            assert(referenced_elsewhere(directories, doc.id, doc.items[j].id));
        }
        if first == doc.id && second == doc.id {
            assert(doc.items[i].id == doc.items[j].id);
            if i < j {
            } else if j < i {
            }
        }
    }
}

} // verus!
