//! What is kept on disk, all inside one data directory:
//!
//! - `dataset.jsonl`: one JSON object per line, one line per labeled prompt;
//! - `pending.json`: the last scored prompt, waiting for its label;
//! - `weights.json`: the current classifier;
//! - `models/`: the cache of the embedding model.

use crate::dataset::row_line;
use crate::dataset::rows_in;
use crate::dataset::split_rows;
use crate::dataset::Framed;
use crate::dataset::FramedView;
use crate::error::Failure;
use crate::error::TriageError;
use crate::single::Single;
use std::path::PathBuf;
use vstd::prelude::*;

verus! {

/// A prompt that has been embedded and scored but not labeled yet.
/// `p` is the probability of "trivial" the model gave at that time; it is
/// kept so that accuracy can be computed later without scoring again.
#[derive(Clone, Debug)]
pub struct Scored {
    pub id: String,
    pub ts: u64,
    pub prompt: String,
    pub embedding: Vec<Single>,
    pub p: Single,
}

/// A scored prompt as mathematical values.
#[verifier::ext_equal]
pub struct ScoredView {
    pub id: Seq<char>,
    pub ts: u64,
    pub prompt: Seq<char>,
    pub embedding: Seq<Single>,
    pub p: Single,
}

impl View for Scored {
    type V = ScoredView;

    open spec fn view(&self) -> ScoredView {
        ScoredView {
            id: self.id@,
            ts: self.ts,
            prompt: self.prompt@,
            embedding: self.embedding@,
            p: self.p,
        }
    }
}

/// A scored prompt plus the user's label (`true` = trivial).
#[derive(Clone, Debug)]
pub struct Row {
    pub scored: Scored,
    pub label: bool,
}

/// A row as mathematical values.
#[verifier::ext_equal]
pub struct RowView {
    pub scored: ScoredView,
    pub label: bool,
}

impl View for Row {
    type V = RowView;

    open spec fn view(&self) -> RowView {
        RowView { scored: self.scored@, label: self.label }
    }
}

/// Rows as mathematical values.
pub open spec fn row_views(rows: Seq<Row>) -> Seq<RowView> {
    rows.map_values(|r: Row| r@)
}

/// A file-system path of the platform.
#[verifier::external_type_specification]
#[verifier::external_body]
pub struct ExPathBuf(PathBuf);

/// The components of a path, each by the bytes that encode it.
pub uninterp spec fn path_parts(path: PathBuf) -> Seq<Seq<u8>>;

/// A name that is one ordinary path component on every platform: lower-case
/// letters, dots and hyphens, with a letter first.
pub open spec fn is_plain_name(name: Seq<char>) -> bool {
    &&& name.len() > 0
    &&& 'a' <= name[0] <= 'z'
    &&& forall|i: int|
        0 <= i < name.len() ==> 'a' <= #[trigger] name[i] <= 'z' || name[i] == '.' || name[i] == '-'
}

/// The bytes of an ASCII name.
pub open spec fn name_bytes(name: Seq<char>) -> Seq<u8> {
    name.map_values(|c: char| c as u8)
}

/// Calls `Path::join`: a plain name becomes one more component at the end. This
/// is how paths are put together on Unix, for every directory; on Windows it is
/// so too, but for a bare `\\server`, to which a name adds the share of one
/// longer prefix.
#[verifier::external_body]
pub(crate) fn join(dir: &PathBuf, name: &str) -> (r: PathBuf)
    requires
        is_plain_name(name@),
    ensures
        path_parts(r) == path_parts(*dir).push(name_bytes(name@)),
{
    dir.join(name)
}

/// The path of the entry `name` in the directory `dir`.
pub open spec fn inside(dir: Seq<Seq<u8>>, name: Seq<char>) -> Seq<Seq<u8>> {
    dir.push(name_bytes(name))
}

/// `dirs::data_dir` may answer with `found`: the components of the user's data
/// directory, or `None` where there is none. More than one answer is possible.
pub uninterp spec fn may_be_data_dir(found: Option<Seq<Seq<u8>>>) -> bool;

/// The components of a path that may be missing.
pub open spec fn parts_of(path: Option<PathBuf>) -> Option<Seq<Seq<u8>>> {
    match path {
        Some(p) => Some(path_parts(p)),
        None => None,
    }
}

/// Calls `dirs::data_dir`: the user's data directory, if the system has one.
/// The result is an answer that this call may give. Which one is left unsaid,
/// for it rests on the environment.
#[verifier::external_body]
pub(crate) fn user_data_dir() -> (r: Option<PathBuf>)
    ensures
        may_be_data_dir(parts_of(r)),
{
    dirs::data_dir()
}

/// Handle on the data directory. Every path is built under `dir`.
#[derive(Debug)]
pub struct Store {
    pub dir: PathBuf,
}

impl Store {
    /// Resolves the data directory: the one that was chosen, or else
    /// `prompt-triage` in the user's data directory, if there is one.
    pub fn open(chosen: Option<PathBuf>) -> (r: Result<Store, TriageError>)
        ensures
            match chosen {
                Some(dir) => r matches Ok(store) && store.dir == dir,
                None => exists|found: Option<Seq<Seq<u8>>>| #[trigger]
                    may_be_data_dir(found) && match found {
                        Some(data) => r matches Ok(store) && path_parts(store.dir) == inside(
                            data,
                            "prompt-triage"@,
                        ),
                        None => r matches Err(e) && e@ == Failure::NoDataDir,
                    },
            },
    {
        match chosen {
            Some(dir) => Store::resolve(Some(dir), None),
            None => Store::resolve(None, user_data_dir()),
        }
    }

    /// Resolves the data directory, where the user's data directory is
    /// `data_dir`.
    pub fn resolve(chosen: Option<PathBuf>, data_dir: Option<PathBuf>) -> (r: Result<Store, TriageError>)
        ensures
            match (chosen, data_dir) {
                (Some(dir), _) => r matches Ok(store) && store.dir == dir,
                (None, Some(data)) => r matches Ok(store) && path_parts(store.dir) == inside(
                    path_parts(data),
                    "prompt-triage"@,
                ),
                (None, None) => r matches Err(e) && e@ == Failure::NoDataDir,
            },
    {
        match chosen {
            Some(dir) => Ok(Store { dir }),
            None => match data_dir {
                Some(data) => {
                    proof {
                        lemma_names_are_plain();
                    }
                    Ok(Store { dir: join(&data, "prompt-triage") })
                },
                None => Err(TriageError::NoDataDir),
            },
        }
    }

    /// Where the embedding model is cached.
    pub fn models_dir(&self) -> (r: PathBuf)
        ensures
            path_parts(r) == inside(path_parts(self.dir), "models"@),
    {
        proof {
            lemma_names_are_plain();
        }
        join(&self.dir, "models")
    }

    /// Where the labeled rows are kept.
    pub fn dataset_path(&self) -> (r: PathBuf)
        ensures
            path_parts(r) == inside(path_parts(self.dir), "dataset.jsonl"@),
    {
        proof {
            lemma_names_are_plain();
        }
        join(&self.dir, "dataset.jsonl")
    }

    /// Where the prompt that waits for its label is kept.
    pub fn pending_path(&self) -> (r: PathBuf)
        ensures
            path_parts(r) == inside(path_parts(self.dir), "pending.json"@),
    {
        proof {
            lemma_names_are_plain();
        }
        join(&self.dir, "pending.json")
    }

    /// Where the current weights are kept.
    pub fn weights_path(&self) -> (r: PathBuf)
        ensures
            path_parts(r) == inside(path_parts(self.dir), "weights.json"@),
    {
        proof {
            lemma_names_are_plain();
        }
        join(&self.dir, "weights.json")
    }

    /// The rows in the bytes of the dataset file, oldest first, each as the
    /// text of its line. A missing file is an empty dataset.
    pub fn read_dataset(file: Option<&[u8]>) -> (r: Framed)
        ensures
            match file {
                Some(bytes) => r@ == rows_in(bytes@),
                None => r@ == (FramedView { entries: Seq::empty(), broken: None }),
            },
    {
        match file {
            Some(bytes) => split_rows(bytes),
            None => {
                let r = Framed { entries: Vec::new(), broken: None };
                assert(r@.entries =~= Seq::empty());
                r
            },
        }
    }

    /// What is appended to the dataset file for a row whose JSON is `line`.
    pub fn append_row(line: &str) -> (r: String)
        ensures
            r@ == line@.push('\n'),
    {
        row_line(line)
    }
}

/// The names in use are plain.
proof fn lemma_names_are_plain()
    ensures
        is_plain_name("prompt-triage"@),
        is_plain_name("models"@),
        is_plain_name("dataset.jsonl"@),
        is_plain_name("pending.json"@),
        is_plain_name("weights.json"@),
{
    reveal_strlit("prompt-triage");
    reveal_strlit("models");
    reveal_strlit("dataset.jsonl");
    reveal_strlit("pending.json");
    reveal_strlit("weights.json");
}

/// Everything is kept directly inside the one data directory, each thing under
/// a name of its own.
pub proof fn law_one_directory_holds_it_all(dir: Seq<Seq<u8>>)
    ensures
        inside(dir, "models"@).drop_last() == dir,
        inside(dir, "dataset.jsonl"@).drop_last() == dir,
        inside(dir, "pending.json"@).drop_last() == dir,
        inside(dir, "weights.json"@).drop_last() == dir,
        inside(dir, "models"@) != inside(dir, "dataset.jsonl"@),
        inside(dir, "models"@) != inside(dir, "pending.json"@),
        inside(dir, "models"@) != inside(dir, "weights.json"@),
        inside(dir, "dataset.jsonl"@) != inside(dir, "pending.json"@),
        inside(dir, "dataset.jsonl"@) != inside(dir, "weights.json"@),
        inside(dir, "pending.json"@) != inside(dir, "weights.json"@),
{
    reveal_strlit("models");
    reveal_strlit("dataset.jsonl");
    reveal_strlit("pending.json");
    reveal_strlit("weights.json");
    let a = name_bytes("models"@);
    let b = name_bytes("dataset.jsonl"@);
    let c = name_bytes("pending.json"@);
    let d = name_bytes("weights.json"@);
    assert(a[0] == 109u8);
    assert(b[0] == 100u8);
    assert(c[0] == 112u8);
    assert(d[0] == 119u8);
    assert(dir.push(a).last() == a);
    assert(dir.push(b).last() == b);
    assert(dir.push(c).last() == c);
    assert(dir.push(d).last() == d);
    assert(dir.push(a).drop_last() =~= dir);
    assert(dir.push(b).drop_last() =~= dir);
    assert(dir.push(c).drop_last() =~= dir);
    assert(dir.push(d).drop_last() =~= dir);
}

/// A name adds one component to a directory, and its bytes are the characters of
/// the name.
pub proof fn law_names_are_added_at_the_end(dir: Seq<Seq<u8>>, name: Seq<char>)
    requires
        is_plain_name(name),
    ensures
        inside(dir, name).len() == dir.len() + 1,
        forall|i: int| 0 <= i < dir.len() ==> #[trigger] inside(dir, name)[i] == dir[i],
        inside(dir, name).last().len() == name.len(),
        forall|i: int|
            0 <= i < name.len() ==> #[trigger] inside(dir, name).last()[i] as int == name[i] as int,
{
    let last = inside(dir, name).last();
    assert(last == name_bytes(name));
    assert forall|i: int| 0 <= i < name.len() implies #[trigger] last[i] as int == name[i] as int by {
        assert(name[i] as u32 <= 127);
    }
}

/// `path` has the components of `dir` and one more, with these bytes.
pub open spec fn is_entry(path: PathBuf, dir: PathBuf, name: Seq<u8>) -> bool {
    let n = path_parts(dir).len() as int;
    &&& path_parts(path).len() == n + 1
    &&& forall|i: int| 0 <= i < n ==> #[trigger] path_parts(path)[i] == path_parts(dir)[i]
    &&& path_parts(path)[n] == name
}

/// The bytes of the names in use.
proof fn lemma_name_bytes()
    ensures
        name_bytes("prompt-triage"@) == seq![112u8, 114, 111, 109, 112, 116, 45, 116, 114, 105, 97, 103, 101],
        name_bytes("models"@) == seq![109u8, 111, 100, 101, 108, 115],
        name_bytes("dataset.jsonl"@) == seq![100u8, 97, 116, 97, 115, 101, 116, 46, 106, 115, 111, 110, 108],
        name_bytes("pending.json"@) == seq![112u8, 101, 110, 100, 105, 110, 103, 46, 106, 115, 111, 110],
        name_bytes("weights.json"@) == seq![119u8, 101, 105, 103, 104, 116, 115, 46, 106, 115, 111, 110],
{
    reveal_strlit("prompt-triage");
    reveal_strlit("models");
    reveal_strlit("dataset.jsonl");
    reveal_strlit("pending.json");
    reveal_strlit("weights.json");
}

/// Where everything is kept: directly in the data directory, under the names
/// `models`, `dataset.jsonl`, `pending.json` and `weights.json`.
pub proof fn law_paths(
    store: Store,
    models: PathBuf,
    dataset: PathBuf,
    pending: PathBuf,
    weights: PathBuf,
)
    requires
        call_ensures(Store::models_dir, (&store,), models),
        call_ensures(Store::dataset_path, (&store,), dataset),
        call_ensures(Store::pending_path, (&store,), pending),
        call_ensures(Store::weights_path, (&store,), weights),
    ensures
        is_entry(models, store.dir, seq![109u8, 111, 100, 101, 108, 115]),
        is_entry(dataset, store.dir, seq![100u8, 97, 116, 97, 115, 101, 116, 46, 106, 115, 111, 110, 108]),
        is_entry(pending, store.dir, seq![112u8, 101, 110, 100, 105, 110, 103, 46, 106, 115, 111, 110]),
        is_entry(weights, store.dir, seq![119u8, 101, 105, 103, 104, 116, 115, 46, 106, 115, 111, 110]),
{
    lemma_name_bytes();
}

/// The data directory is the one that was chosen; where none was, it is
/// `prompt-triage` in the user's data directory; and without that it is a failure.
pub proof fn law_resolve(
    chosen: Option<PathBuf>,
    data_dir: Option<PathBuf>,
    r: Result<Store, TriageError>,
)
    requires
        call_ensures(Store::resolve, (chosen, data_dir), r),
    ensures
        chosen matches Some(dir) ==> (r matches Ok(store) && store.dir == dir),
        chosen is None ==> (data_dir matches Some(data) ==> r is Ok && is_entry(
            (r->Ok_0).dir,
            data,
            seq![112u8, 114, 111, 109, 112, 116, 45, 116, 114, 105, 97, 103, 101],
        )),
        chosen is None && data_dir is None ==> r == Err::<Store, TriageError>(
            TriageError::NoDataDir,
        ),
{
    lemma_name_bytes();
}

/// The same, where the system is asked for the user's data directory: that is the
/// directory of an answer that it may give.
pub proof fn law_open(chosen: Option<PathBuf>, r: Result<Store, TriageError>)
    requires
        call_ensures(Store::open, (chosen,), r),
    ensures
        chosen matches Some(dir) ==> (r matches Ok(store) && store.dir == dir),
        chosen is None ==> match r {
            Ok(store) => {
                let parts = path_parts(store.dir);
                &&& parts.len() > 0
                &&& parts.last() == seq![112u8, 114, 111, 109, 112, 116, 45, 116, 114, 105, 97, 103, 101]
                &&& may_be_data_dir(Some(parts.drop_last()))
            },
            Err(e) => e is NoDataDir && may_be_data_dir(None),
        },
{
    lemma_name_bytes();
    if let (None, Ok(store)) = (chosen, r) {
        let data = choose|data: Seq<Seq<u8>>| #[trigger]
            may_be_data_dir(Some(data)) && path_parts(store.dir) == inside(data, "prompt-triage"@);
        assert(path_parts(store.dir).drop_last() =~= data);
    }
}

/// What is read of a missing file is nothing, and what is appended for a row is
/// its text and one newline.
pub proof fn law_read_and_append(line: &str, read: Framed, appended: String)
    requires
        call_ensures(Store::read_dataset, (None::<&[u8]>,), read),
        call_ensures(Store::append_row, (line,), appended),
    ensures
        read.entries@.len() == 0,
        read.broken is None,
        appended@.len() == line@.len() + 1,
        forall|i: int| 0 <= i < line@.len() ==> #[trigger] appended@[i] == line@[i],
        appended@[line@.len() as int] as u32 == 10,
{
    assert(read@.entries.len() == read.entries@.len());
}

/// What is read of a file is what its bytes are cut into.
pub proof fn law_read_dataset(bytes: &[u8], read: Framed, cut: Framed)
    requires
        call_ensures(Store::read_dataset, (Some(bytes),), read),
        call_ensures(split_rows, (bytes,), cut),
    ensures
        read.broken == cut.broken,
        read.entries@.len() == cut.entries@.len(),
        forall|i: int|
            0 <= i < cut.entries@.len() ==> (#[trigger] read.entries@[i]).number
                == cut.entries@[i].number && read.entries@[i].text@ == cut.entries@[i].text@,
{
    assert(read@.entries.len() == read.entries@.len());
    assert(cut@.entries.len() == cut.entries@.len());
    assert forall|i: int| 0 <= i < cut.entries@.len() implies (#[trigger] read.entries@[i]).number
        == cut.entries@[i].number && read.entries@[i].text@ == cut.entries@[i].text@ by {
        assert(read@.entries[i] == read.entries@[i]@);
        assert(cut@.entries[i] == cut.entries@[i]@);
    }
}

} // verus!
