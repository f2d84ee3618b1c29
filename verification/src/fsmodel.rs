//! The directory model the engine works on: a tree of named directories
//! and files, read once at the boundary. A text file holds its lines; a
//! columnar checkpoint file holds its decoded batches — decoding the
//! columnar format is the boundary's job, the engine's logic starts at
//! the decoded rows.

use vstd::prelude::*;

verus! {

/// One add row of a checkpoint batch: the columnar file's `add` struct
/// column, with the embedded statistics still JSON text.
#[derive(Debug)]
pub struct CheckpointAdd {
    pub path: String,
    pub size: u64,
    pub modification_time: u64,
    pub stats: String,
}

/// Ghost model of [`CheckpointAdd`].
pub struct CheckpointAddV {
    pub path: Seq<char>,
    pub size: u64,
    pub modification_time: u64,
    pub stats: Seq<char>,
}

impl DeepView for CheckpointAdd {
    type V = CheckpointAddV;

    open spec fn deep_view(&self) -> CheckpointAddV {
        CheckpointAddV {
            path: self.path@,
            size: self.size,
            modification_time: self.modification_time,
            stats: self.stats@,
        }
    }
}

/// One decoded checkpoint batch: add rows and removed paths, in row
/// order.
#[derive(Debug)]
pub struct CheckpointBatch {
    pub adds: Vec<CheckpointAdd>,
    pub removes: Vec<String>,
}

/// Ghost model of [`CheckpointBatch`].
pub struct CheckpointBatchV {
    pub adds: Seq<CheckpointAddV>,
    pub removes: Seq<Seq<char>>,
}

impl DeepView for CheckpointBatch {
    type V = CheckpointBatchV;

    open spec fn deep_view(&self) -> CheckpointBatchV {
        CheckpointBatchV { adds: self.adds.deep_view(), removes: self.removes.deep_view() }
    }
}

/// What one file holds.
#[derive(Debug)]
pub enum FileData {
    /// A text file, split into lines.
    Lines(Vec<String>),
    /// A columnar checkpoint file, decoded into batches.
    Batches(Vec<CheckpointBatch>),
}

/// Ghost model of [`FileData`].
pub enum FileDataV {
    Lines(Seq<Seq<char>>),
    Batches(Seq<CheckpointBatchV>),
}

impl DeepView for FileData {
    type V = FileDataV;

    open spec fn deep_view(&self) -> FileDataV {
        match *self {
            FileData::Lines(ref v) => FileDataV::Lines(v.deep_view()),
            FileData::Batches(ref v) => FileDataV::Batches(v.deep_view()),
        }
    }
}

/// One named file.
#[derive(Debug)]
pub struct FsFile {
    pub name: String,
    pub data: FileData,
}

/// Ghost model of [`FsFile`].
pub struct FsFileV {
    pub name: Seq<char>,
    pub data: FileDataV,
}

impl DeepView for FsFile {
    type V = FsFileV;

    open spec fn deep_view(&self) -> FsFileV {
        FsFileV { name: self.name@, data: self.data.deep_view() }
    }
}

/// One named directory: its files and child directories, in the order
/// the boundary listed them.
#[derive(Debug)]
pub struct FsDir {
    pub name: String,
    pub files: Vec<FsFile>,
    pub dirs: Vec<FsDir>,
}

/// Ghost model of [`FsDir`].
pub struct FsDirV {
    pub name: Seq<char>,
    pub files: Seq<FsFileV>,
    pub dirs: Seq<FsDirV>,
}

pub open spec fn fs_dir_model(d: FsDir) -> FsDirV
    decreases d, 2int,
{
    FsDirV {
        name: d.name@,
        files: d.files.deep_view(),
        dirs: fs_dir_seq_model(d.dirs@),
    }
}

pub open spec fn fs_dir_seq_model(s: Seq<FsDir>) -> Seq<FsDirV>
    decreases s, 1int,
{
    if s.len() == 0 {
        Seq::empty()
    } else {
        fs_dir_seq_model(s.drop_last()).push(fs_dir_model(s.last()))
    }
}

pub broadcast proof fn lemma_fs_dir_seq_model(s: Seq<FsDir>)
    ensures
        (#[trigger] fs_dir_seq_model(s)).len() == s.len(),
        forall|i: int| 0 <= i < s.len() ==> fs_dir_seq_model(s)[i] == fs_dir_model(s[i]),
    decreases s.len(),
{
    if s.len() > 0 {
        lemma_fs_dir_seq_model(s.drop_last());
    }
}

impl DeepView for FsDir {
    type V = FsDirV;

    open spec fn deep_view(&self) -> FsDirV {
        fs_dir_model(*self)
    }
}

impl FsDir {
    /// The file with the given name, if any; keyed by first occurrence.
    pub fn file_named<'a>(&'a self, name: &str) -> (r: Option<&'a FsFile>)
        ensures
            match r {
                Some(f) => spec_file_named(self.deep_view().files, name@) == Some(f.deep_view()),
                None => spec_file_named(self.deep_view().files, name@) is None,
            },
    {
        broadcast use crate::state::lemma_deep_of, crate::state::lemma_vec_deep_view;

        let ghost fv = self.deep_view().files;
        proof {
            assert(fv =~= crate::state::deep_of(self.files@));
            assert(fv.skip(0) =~= fv);
        }
        let n = self.files.len();
        for i in 0..n
            invariant
                n == self.files.len(),
                fv == crate::state::deep_of(self.files@),
                forall|k: int| 0 <= k < i ==> fv[k].name != name@,
                spec_file_named(fv, name@) == spec_file_named(fv.skip(i as int), name@),
        {
            proof {
                assert(fv[i as int] == self.files@[i as int].deep_view());
            }
            if crate::json::str_eq(self.files[i].name.as_str(), name) {
                proof {
                    assert(fv.skip(i as int)[0] == fv[i as int]);
                }
                return Some(&self.files[i]);
            }
            proof {
                assert(fv.skip(i as int).drop_first() =~= fv.skip(i as int + 1));
            }
        }
        proof {
            assert(fv.skip(n as int).len() == 0);
        }
        None
    }
}

/// The file with the given name among `files`, first occurrence.
pub open spec fn spec_file_named(files: Seq<FsFileV>, name: Seq<char>) -> Option<FsFileV>
    decreases files.len(),
{
    if files.len() == 0 {
        None
    } else if files[0].name == name {
        Some(files[0])
    } else {
        spec_file_named(files.drop_first(), name)
    }
}

} // verus!
