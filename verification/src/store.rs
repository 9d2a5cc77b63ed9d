//! The namespace store: two identity-keyed collections, folders and files,
//! with the operations that read and mutate them.
//!
//! Folder ids are generated by the store and are fresh with respect to every
//! folder already present; file ids are supplied by the caller, and creating a
//! file with an id already in use overwrites the older file. Folder parent
//! references are plain identifier values and are not validated, so a folder
//! may point at a parent that does not exist; a file's owning folder, by
//! contrast, must exist both at creation time and as the destination of a
//! move.

use vstd::prelude::*;
use crate::strings::{contains_str, has_substr};

verus! {

/// A leaf entity belonging to exactly one folder at a time.
pub struct File {
    pub id: String,
    pub name: String,
    pub folder_id: String,
}

/// A namespace node with a display name and an optional parent reference;
/// `parent_id == None` marks a root folder.
pub struct Folder {
    pub id: String,
    pub name: String,
    pub parent_id: Option<String>,
}

/// The owning pair of collections plus all operations on them.
pub struct FileSystem {
    folders: Vec<Folder>,
    files: Vec<File>,
}

/// The view of an optional identifier: the character sequence it holds, if any.
pub open spec fn opt_view(o: Option<String>) -> Option<Seq<char>> {
    match o {
        Some(s) => Some(s@),
        None => None,
    }
}

/// A folder matches a search when its name contains the substring and its
/// parent reference is exactly equal to the requested root (`None` matches
/// only top-level folders).
pub open spec fn folder_matches(f: Folder, sub: Seq<char>, root: Option<Seq<char>>) -> bool {
    has_substr(f.name@, sub) && opt_view(f.parent_id) == root
}

/// A file matches a search when its name contains the substring and, if a
/// folder is requested, it lies in that folder; `None` matches every file
/// regardless of folder.
pub open spec fn file_matches(f: File, sub: Seq<char>, root: Option<Seq<char>>) -> bool {
    has_substr(f.name@, sub) && match root {
        Some(r) => f.folder_id@ == r,
        None => true,
    }
}

impl FileSystem {
    /// The folders, in insertion order.
    pub closed spec fn folders_seq(self) -> Seq<Folder> {
        self.folders@
    }

    /// The files, in insertion order.
    pub closed spec fn files_seq(self) -> Seq<File> {
        self.files@
    }

    /// Well-formedness: within each collection, ids are pairwise distinct.
    pub open spec fn wf(self) -> bool {
        &&& forall|i: int, j: int|
            0 <= i < j < self.folders_seq().len() ==> self.folders_seq()[i].id@
                != self.folders_seq()[j].id@
        &&& forall|i: int, j: int|
            0 <= i < j < self.files_seq().len() ==> self.files_seq()[i].id@
                != self.files_seq()[j].id@
    }

    /// Some folder in the store has id `id`.
    pub open spec fn has_folder(self, id: Seq<char>) -> bool {
        exists|i: int| 0 <= i < self.folders_seq().len() && self.folders_seq()[i].id@ == id
    }

    /// Some file in the store has id `id`.
    pub open spec fn has_file(self, id: Seq<char>) -> bool {
        exists|i: int| 0 <= i < self.files_seq().len() && self.files_seq()[i].id@ == id
    }

    /// The position of the folder with id `id`; meaningful only when
    /// `wf()` and `has_folder(id)` hold, and then unique.
    pub open spec fn folder_index(self, id: Seq<char>) -> int {
        choose|i: int| 0 <= i < self.folders_seq().len() && self.folders_seq()[i].id@ == id
    }

    /// The position of the file with id `id`; meaningful only when
    /// `wf()` and `has_file(id)` hold, and then unique.
    pub open spec fn file_index(self, id: Seq<char>) -> int {
        choose|i: int| 0 <= i < self.files_seq().len() && self.files_seq()[i].id@ == id
    }

    /// In a well-formed store, any position holding id `id` is the one and
    /// only position `folder_index(id)` denotes.
    pub proof fn lemma_folder_index_unique(self, id: Seq<char>, i: int)
        requires
            self.wf(),
            0 <= i < self.folders_seq().len(),
            self.folders_seq()[i].id@ == id,
        ensures
            self.has_folder(id),
            self.folder_index(id) == i,
    {
        assert(self.has_folder(id));
        let j = self.folder_index(id);
        if i < j {
            assert(self.folders_seq()[i].id@ != self.folders_seq()[j].id@);
        } else if j < i {
            assert(self.folders_seq()[j].id@ != self.folders_seq()[i].id@);
        }
    }

    /// In a well-formed store, any position holding id `id` is the one and
    /// only position `file_index(id)` denotes.
    pub proof fn lemma_file_index_unique(self, id: Seq<char>, i: int)
        requires
            self.wf(),
            0 <= i < self.files_seq().len(),
            self.files_seq()[i].id@ == id,
        ensures
            self.has_file(id),
            self.file_index(id) == i,
    {
        assert(self.has_file(id));
        let j = self.file_index(id);
        if i < j {
            assert(self.files_seq()[i].id@ != self.files_seq()[j].id@);
        } else if j < i {
            assert(self.files_seq()[j].id@ != self.files_seq()[i].id@);
        }
    }

    /// A store whose collections hold, position by position, the same ids as
    /// a well-formed store is well-formed itself.
    pub proof fn lemma_same_ids_wf(self, other: FileSystem)
        requires
            other.wf(),
            self.folders_seq().len() == other.folders_seq().len(),
            self.files_seq().len() == other.files_seq().len(),
            forall|i: int|
                0 <= i < self.folders_seq().len() ==> self.folders_seq()[i].id@
                    == other.folders_seq()[i].id@,
            forall|i: int|
                0 <= i < self.files_seq().len() ==> self.files_seq()[i].id@
                    == other.files_seq()[i].id@,
        ensures
            self.wf(),
    {
        assert forall|i: int, j: int|
            0 <= i < j < self.folders_seq().len() implies self.folders_seq()[i].id@
            != self.folders_seq()[j].id@ by {
            assert(other.folders_seq()[i].id@ != other.folders_seq()[j].id@);
        }
        assert forall|i: int, j: int|
            0 <= i < j < self.files_seq().len() implies self.files_seq()[i].id@
            != self.files_seq()[j].id@ by {
            assert(other.files_seq()[i].id@ != other.files_seq()[j].id@);
        }
    }

    /// An empty store: no folders, no files.
    pub fn new() -> (r: FileSystem)
        ensures
            r.wf(),
            r.folders_seq() == Seq::<Folder>::empty(),
            r.files_seq() == Seq::<File>::empty(),
    {
        let r = FileSystem { folders: Vec::new(), files: Vec::new() };
        assert(r.folders@ =~= Seq::<Folder>::empty());
        assert(r.files@ =~= Seq::<File>::empty());
        r
    }

    /// An id that no folder currently has: strictly longer than every folder
    /// id in the store, so it can equal none of them.
    fn fallback_folder_id(&self) -> (r: String)
        ensures
            !self.has_folder(r@),
    {
        let n = self.folders.len();
        let mut s = String::new();
        let mut i: usize = 0;
        while i < n
            invariant
                i <= n,
                n == self.folders@.len(),
                forall|k: int| 0 <= k < i ==> s@.len() >= self.folders@[k].id@.len(),
            decreases n - i,
        {
            s.append(self.folders[i].id.as_str());
            i += 1;
        }
        proof {
            reveal_strlit("0");
        }
        s.append("0");
        proof {
            assert forall|k: int|
                0 <= k < self.folders_seq().len() implies self.folders_seq()[k].id@ != s@ by {
                assert(s@.len() > self.folders_seq()[k].id@.len());
            }
            assert(!self.has_folder(s@));
        }
        s
    }

    /// Creates a folder with a store-generated id and returns that id.
    /// Always succeeds: the parent reference is stored unvalidated, so it
    /// need not name an existing folder. The returned id is fresh, distinct
    /// from the id of every folder already in the store.
    pub fn create_folder(&mut self, name: String, parent_folder_id: Option<String>) -> (id: String)
        requires
            old(self).wf(),
        ensures
            final(self).wf(),
            !old(self).has_folder(id@),
            final(self).folders_seq() == old(self).folders_seq().push(
                (Folder { id: id, name: name, parent_id: parent_folder_id }),
            ),
            final(self).files_seq() == old(self).files_seq(),
    {
        let drawn = random_id();
        let id = match self.find_folder(&drawn) {
            None => drawn,
            Some(_) => self.fallback_folder_id(),
        };
        let stored = id.clone();
        self.folders.push(Folder { id: stored, name, parent_id: parent_folder_id });
        proof {
            let pre = old(self).folders_seq();
            let post = self.folders_seq();
            assert forall|a: int, b: int|
                0 <= a < b < post.len() implies post[a].id@ != post[b].id@ by {
                if b < pre.len() {
                    assert(pre[a].id@ != pre[b].id@);
                } else {
                    assert(!old(self).has_folder(post[b].id@));
                    assert(pre[a].id@ != post[b].id@);
                }
            }
            assert forall|a: int, b: int|
                0 <= a < b < self.files_seq().len() implies self.files_seq()[a].id@
                != self.files_seq()[b].id@ by {
                assert(old(self).files_seq()[a].id@ != old(self).files_seq()[b].id@);
            }
        }
        id
    }

    /// The position of the folder with id `id`, if there is one.
    fn find_folder(&self, id: &String) -> (r: Option<usize>)
        requires
            self.wf(),
        ensures
            match r {
                Some(i) => self.has_folder(id@) && i == self.folder_index(id@)
                    && i < self.folders_seq().len() && self.folders_seq()[i as int].id@ == id@,
                None => !self.has_folder(id@),
            },
    {
        let n = self.folders.len();
        let mut i: usize = 0;
        while i < n
            invariant
                self.wf(),
                n == self.folders@.len(),
                i <= n,
                forall|k: int| 0 <= k < i ==> self.folders@[k].id@ != id@,
            decreases n - i,
        {
            if self.folders[i].id == *id {
                proof {
                    self.lemma_folder_index_unique(id@, i as int);
                }
                return Some(i);
            }
            i += 1;
        }
        None
    }

    /// The position of the file with id `id`, if there is one.
    fn find_file(&self, id: &String) -> (r: Option<usize>)
        requires
            self.wf(),
        ensures
            match r {
                Some(i) => self.has_file(id@) && i == self.file_index(id@)
                    && i < self.files_seq().len() && self.files_seq()[i as int].id@ == id@,
                None => !self.has_file(id@),
            },
    {
        let n = self.files.len();
        let mut i: usize = 0;
        while i < n
            invariant
                self.wf(),
                n == self.files@.len(),
                i <= n,
                forall|k: int| 0 <= k < i ==> self.files@[k].id@ != id@,
            decreases n - i,
        {
            if self.files[i].id == *id {
                proof {
                    self.lemma_file_index_unique(id@, i as int);
                }
                return Some(i);
            }
            i += 1;
        }
        None
    }

    /// Replaces the name of the folder identified by `folder_id`; fails, and
    /// changes nothing, exactly when no folder has that id.
    pub fn rename_folder(&mut self, folder_id: String, name: String) -> (r: bool)
        requires
            old(self).wf(),
        ensures
            final(self).wf(),
            r == old(self).has_folder(folder_id@),
            !r ==> final(self).folders_seq() == old(self).folders_seq(),
            r ==> final(self).folders_seq() == old(self).folders_seq().update(
                old(self).folder_index(folder_id@),
                (Folder {
                    id: old(self).folders_seq()[old(self).folder_index(folder_id@)].id,
                    name: name,
                    parent_id: old(self).folders_seq()[old(self).folder_index(folder_id@)].parent_id,
                }),
            ),
            final(self).files_seq() == old(self).files_seq(),
    {
        match self.find_folder(&folder_id) {
            Some(i) => {
                self.folders[i].name = name;
                proof {
                    self.lemma_same_ids_wf(*old(self));
                }
                true
            },
            None => false,
        }
    }

    /// Re-parents the folder identified by `source_id` under `target_id`;
    /// fails, and changes nothing, exactly when no folder has id `source_id`.
    /// The target is not validated: it need not name an existing folder.
    pub fn move_folder(&mut self, source_id: String, target_id: String) -> (r: bool)
        requires
            old(self).wf(),
        ensures
            final(self).wf(),
            r == old(self).has_folder(source_id@),
            !r ==> final(self).folders_seq() == old(self).folders_seq(),
            r ==> final(self).folders_seq() == old(self).folders_seq().update(
                old(self).folder_index(source_id@),
                (Folder {
                    id: old(self).folders_seq()[old(self).folder_index(source_id@)].id,
                    name: old(self).folders_seq()[old(self).folder_index(source_id@)].name,
                    parent_id: Some(target_id),
                }),
            ),
            final(self).files_seq() == old(self).files_seq(),
    {
        match self.find_folder(&source_id) {
            Some(i) => {
                self.folders[i].parent_id = Some(target_id);
                proof {
                    self.lemma_same_ids_wf(*old(self));
                }
                true
            },
            None => false,
        }
    }

    /// Inserts the file if `folder_id` names an existing folder, overwriting
    /// any file that already has id `id`; fails, and changes nothing, exactly
    /// when no folder has id `folder_id`.
    pub fn create_file(&mut self, id: String, name: String, folder_id: String) -> (r: bool)
        requires
            old(self).wf(),
        ensures
            final(self).wf(),
            r == old(self).has_folder(folder_id@),
            final(self).folders_seq() == old(self).folders_seq(),
            !r ==> final(self).files_seq() == old(self).files_seq(),
            r && old(self).has_file(id@) ==> final(self).files_seq()
                == old(self).files_seq().update(
                    old(self).file_index(id@),
                    (File { id: id, name: name, folder_id: folder_id }),
                ),
            r && !old(self).has_file(id@) ==> final(self).files_seq()
                == old(self).files_seq().push(
                    (File { id: id, name: name, folder_id: folder_id }),
                ),
    {
        match self.find_folder(&folder_id) {
            Some(_) => {
                match self.find_file(&id) {
                    Some(i) => {
                        self.files[i] = File { id, name, folder_id };
                    },
                    None => {
                        self.files.push(File { id, name, folder_id });
                    },
                }
                true
            },
            None => false,
        }
    }

    /// Moves the file identified by `file_id` into the folder identified by
    /// `folder_id`; fails, and changes nothing, unless both the file and the
    /// destination folder exist. This is the one move operation that
    /// validates its destination.
    pub fn move_file(&mut self, file_id: String, folder_id: String) -> (r: bool)
        requires
            old(self).wf(),
        ensures
            final(self).wf(),
            r == (old(self).has_file(file_id@) && old(self).has_folder(folder_id@)),
            final(self).folders_seq() == old(self).folders_seq(),
            !r ==> final(self).files_seq() == old(self).files_seq(),
            r ==> final(self).files_seq() == old(self).files_seq().update(
                old(self).file_index(file_id@),
                (File {
                    id: old(self).files_seq()[old(self).file_index(file_id@)].id,
                    name: old(self).files_seq()[old(self).file_index(file_id@)].name,
                    folder_id: folder_id,
                }),
            ),
    {
        match self.find_file(&file_id) {
            Some(i) => {
                match self.find_folder(&folder_id) {
                    Some(_) => {
                        self.files[i].folder_id = folder_id;
                        true
                    },
                    None => false,
                }
            },
            None => false,
        }
    }

    /// Every folder whose name contains `name` and whose parent reference is
    /// exactly `root_id`, in store order.
    #[verifier::loop_isolation(false)]
    pub fn search_folders(&self, name: String, root_id: Option<String>) -> (r: Vec<Folder>)
        ensures
            r@ == self.folders_seq().filter(
                |f: Folder| folder_matches(f, name@, opt_view(root_id)),
            ),
    {
        let ghost pred = |f: Folder| folder_matches(f, name@, opt_view(root_id));
        let n = self.folders.len();
        let mut r: Vec<Folder> = Vec::new();
        assert(r@ =~= self.folders@.take(0).filter(pred));
        let mut i: usize = 0;
        while i < n
            invariant
                n == self.folders@.len(),
                i <= n,
                r@ == self.folders@.take(i as int).filter(pred),
            decreases n - i,
        {
            let f = &self.folders[i];
            let keep = contains_str(f.name.as_str(), name.as_str()) && opt_id_eq(
                &f.parent_id,
                &root_id,
            );
            if keep {
                let fc = Folder {
                    id: f.id.clone(),
                    name: f.name.clone(),
                    parent_id: clone_opt(&f.parent_id),
                };
                assert(fc == self.folders@[i as int]);
                r.push(fc);
            }
            proof {
                assert(self.folders@.take(i + 1 as int) =~= self.folders@.take(i as int).push(
                    self.folders@[i as int],
                ));
                self.folders@.take(i as int).lemma_filter_push(self.folders@[i as int], pred);
                assert(keep == pred(self.folders@[i as int]));
            }
            i += 1;
        }
        proof {
            assert(self.folders@.take(n as int) =~= self.folders@);
        }
        r
    }

    /// Every file whose name contains `name` and, when `root_id` is given,
    /// whose owning folder is exactly that one; `None` places no constraint
    /// on the folder. In store order.
    #[verifier::loop_isolation(false)]
    pub fn search_files(&self, name: String, root_id: Option<String>) -> (r: Vec<File>)
        ensures
            r@ == self.files_seq().filter(
                |f: File| file_matches(f, name@, opt_view(root_id)),
            ),
    {
        let ghost pred = |f: File| file_matches(f, name@, opt_view(root_id));
        let n = self.files.len();
        let mut r: Vec<File> = Vec::new();
        assert(r@ =~= self.files@.take(0).filter(pred));
        let mut i: usize = 0;
        while i < n
            invariant
                n == self.files@.len(),
                i <= n,
                r@ == self.files@.take(i as int).filter(pred),
            decreases n - i,
        {
            let f = &self.files[i];
            let keep = contains_str(f.name.as_str(), name.as_str()) && match &root_id {
                Some(rid) => f.folder_id == *rid,
                None => true,
            };
            if keep {
                let fc = File {
                    id: f.id.clone(),
                    name: f.name.clone(),
                    folder_id: f.folder_id.clone(),
                };
                assert(fc == self.files@[i as int]);
                r.push(fc);
            }
            proof {
                assert(self.files@.take(i + 1 as int) =~= self.files@.take(i as int).push(
                    self.files@[i as int],
                ));
                self.files@.take(i as int).lemma_filter_push(self.files@[i as int], pred);
                assert(keep == pred(self.files@[i as int]));
            }
            i += 1;
        }
        proof {
            assert(self.files@.take(n as int) =~= self.files@);
        }
        r
    }
}

/// Filtering by predicates that agree everywhere keeps the same elements.
pub proof fn lemma_filter_congruent<A>(s: Seq<A>, p: spec_fn(A) -> bool, q: spec_fn(A) -> bool)
    requires
        forall|x: A| #[trigger] p(x) == q(x),
    ensures
        s.filter(p) == s.filter(q),
    decreases s.len(),
{
    reveal(Seq::filter);
    if s.len() != 0 {
        lemma_filter_congruent(s.drop_last(), p, q);
        assert(p(s.last()) == q(s.last()));
        if p(s.last()) {
            assert(s.filter(p) == s.drop_last().filter(p).push(s.last()));
            assert(s.filter(q) == s.drop_last().filter(q).push(s.last()));
        } else {
            assert(s.filter(p) == s.drop_last().filter(p));
            assert(s.filter(q) == s.drop_last().filter(q));
        }
    }
}

/// The empty string occurs in every name, so matching a folder against the
/// empty substring constrains nothing but its parent reference.
pub proof fn lemma_empty_substr_matches(f: Folder, root: Option<Seq<char>>)
    ensures
        folder_matches(f, Seq::<char>::empty(), root) == (opt_view(f.parent_id) == root),
{
    let e = Seq::<char>::empty();
    assert(f.name@.subrange(0, 0 + e.len() as int) =~= e);
}

/// Searching folders with an empty substring selects exactly the folders at
/// the requested root level: the substring test drops out of the filter.
pub proof fn lemma_search_folders_empty_substr(fs: FileSystem, root: Option<Seq<char>>)
    ensures
        fs.folders_seq().filter((|f: Folder| folder_matches(f, Seq::<char>::empty(), root)))
            == fs.folders_seq().filter((|f: Folder| opt_view(f.parent_id) == root)),
{
    assert forall|f: Folder|
        #[trigger] folder_matches(f, Seq::<char>::empty(), root) == (opt_view(f.parent_id)
            == root) by {
        lemma_empty_substr_matches(f, root);
    }
    lemma_filter_congruent(
        fs.folders_seq(),
        (|f: Folder| folder_matches(f, Seq::<char>::empty(), root)),
        (|f: Folder| opt_view(f.parent_id) == root),
    );
}

/// After a successful file creation — an overwrite of the file that had the
/// id, or an insertion of a fresh one — the store is well-formed, it holds a
/// file with that id, and every position holding that id holds exactly the
/// created file: with distinct ids, exactly one such file exists.
pub proof fn lemma_create_file_exactly_one(pre: FileSystem, post: FileSystem, f: File)
    requires
        pre.wf(),
        pre.has_file(f.id@) ==> post.files_seq() == pre.files_seq().update(
            pre.file_index(f.id@),
            f,
        ),
        !pre.has_file(f.id@) ==> post.files_seq() == pre.files_seq().push(f),
    ensures
        post.has_file(f.id@),
        forall|j: int|
            0 <= j < post.files_seq().len() && #[trigger] post.files_seq()[j].id@ == f.id@
                ==> post.files_seq()[j] == f,
{
    if pre.has_file(f.id@) {
        let i = pre.file_index(f.id@);
        assert(post.files_seq()[i] == f);
        assert forall|j: int|
            0 <= j < post.files_seq().len() && #[trigger] post.files_seq()[j].id@ == f.id@
                implies post.files_seq()[j] == f by {
            if j != i {
                pre.lemma_file_index_unique(f.id@, j);
            }
        }
    } else {
        let i = post.files_seq().len() - 1;
        assert(post.files_seq()[i] == f);
        assert forall|j: int|
            0 <= j < post.files_seq().len() && #[trigger] post.files_seq()[j].id@ == f.id@
                implies post.files_seq()[j] == f by {
            if j < i {
                assert(pre.files_seq()[j].id@ == f.id@);
                assert(pre.has_file(f.id@));
            }
        }
    }
}

/// Relies on uuid::Uuid::new_v4 and its Display implementation: a random
/// version-4 UUID rendered in the hyphenated form of 36 ASCII characters.
/// Nothing is assumed of which value comes back beyond its length.
#[verifier::external_body]
fn random_id() -> (r: String)
    ensures
        r@.len() == 36,
{
    uuid::Uuid::new_v4().to_string()
}

/// The two optional identifiers hold the same value: both absent, or both
/// present and equal.
fn opt_id_eq(a: &Option<String>, b: &Option<String>) -> (r: bool)
    ensures
        r == (opt_view(*a) == opt_view(*b)),
{
    match (a, b) {
        (None, None) => true,
        (Some(x), Some(y)) => *x == *y,
        _ => false,
    }
}

/// A copy of an optional identifier with the same value.
fn clone_opt(o: &Option<String>) -> (r: Option<String>)
    ensures
        r == *o,
{
    match o {
        Some(s) => Some(s.clone()),
        None => None,
    }
}

} // verus!
