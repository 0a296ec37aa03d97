//! Scanning a music folder: which walked entries are audio files, the
//! record kept for each, and the collection that keeps each real path once
//! and stops at `MAX_FILES` files.
use vstd::prelude::*;
use crate::cover::{file_name_in, last_dot, path_extension, path_extension_exec};
use crate::text::{chars_of, owned, slice_chars, spec_lowercase, str_eq, string_of, to_lowercase};

verus! {

/// The most files a scan returns.
pub const MAX_FILES: usize = 10000;

/// The deepest folder level a scan walks into.
pub const MAX_DEPTH: usize = 20;

/// An audio file found by a scan.
pub struct ScannedFile {
    /// The file name without its extension.
    pub name: String,
    /// The real (canonical) path of the file.
    pub path: String,
    /// The size in bytes.
    pub size: u64,
    /// The modification time in milliseconds since the Unix epoch (0 when
    /// unknown).
    pub mtime_ms: u64,
}

/// The extensions of audio files, with their dot.
pub open spec fn audio_extensions() -> Seq<Seq<char>> {
    seq![".mp3"@, ".flac"@, ".wav"@, ".ogg"@, ".m4a"@, ".aac"@, ".wma"@, ".opus"@, ".aiff"@, ".ape"@]
}

/// The path names an audio file: its extension, lower-cased, is one of
/// `audio_extensions`.
pub open spec fn is_audio_spec(path: Seq<char>) -> bool {
    match path_extension(path) {
        None => false,
        Some(e) => audio_extensions().contains(seq!['.'] + spec_lowercase(e)),
    }
}

/// Whether the path names an audio file.
pub fn is_audio_path(path: &str) -> (r: bool)
    ensures
        r == is_audio_spec(path@),
{
    match path_extension_exec(path) {
        None => false,
        Some(e) => {
            let l = to_lowercase(e.as_str());
            let mut d = chars_of(".");
            crate::text::push_str(&mut d, l.as_str());
            let dotted = string_of(d.as_slice());
            let s = dotted.as_str();
            proof {
                reveal_strlit(".");
                assert(dotted@ =~= seq!['.'] + spec_lowercase(e@));
            }
            let list = [".mp3", ".flac", ".wav", ".ogg", ".m4a", ".aac", ".wma", ".opus", ".aiff", ".ape"];
            let ghost exts = audio_extensions();
            assert(forall|j: int| 0 <= j < 10 ==> #[trigger] list@[j]@ == exts[j]);
            let mut i: usize = 0;
            while i < 10
                invariant
                    i <= 10,
                    s@ == dotted@,
                    dotted@ == seq!['.'] + spec_lowercase(e@),
                    path_extension(path@) == Some(e@),
                    exts == audio_extensions(),
                    forall|j: int| 0 <= j < 10 ==> #[trigger] list@[j]@ == exts[j],
                    forall|j: int| 0 <= j < i ==> exts[j] != dotted@,
                decreases 10 - i,
            {
                if str_eq(s, list[i]) {
                    assert(exts[i as int] == dotted@);
                    return true;
                }
                i = i + 1;
            }
            assert(!exts.contains(dotted@));
            false
        },
    }
}

/// The file name without its extension (`Path::file_stem`), empty when the
/// path has no file name.
pub open spec fn file_stem_spec(p: Seq<char>) -> Seq<char> {
    match file_name_in(p, p.len() as int) {
        None => Seq::empty(),
        Some((a, b)) => {
            let k = last_dot(p, a, b);
            if k <= a {
                p.subrange(a, b)
            } else {
                p.subrange(a, k)
            }
        },
    }
}

/// The file name without its extension.
pub fn file_stem(path: &str) -> (r: String)
    ensures
        r@ == file_stem_spec(path@),
{
    let p = chars_of(path);
    match crate::cover::file_name_range(p.as_slice(), p.len()) {
        None => {
            proof {
                reveal_strlit("");
            }
            owned("")
        },
        Some((a, b)) => {
            let k1 = crate::cover::after_last_dot(p.as_slice(), a, b);
            if k1 - a <= 1 {
                string_of(slice_chars(p.as_slice(), a, b).as_slice())
            } else {
                string_of(slice_chars(p.as_slice(), a, k1 - 1).as_slice())
            }
        },
    }
}

/// What the walk reports for one entry.
pub struct ScanEntry {
    /// The entry's path as walked.
    pub path: String,
    /// The walk saw a regular file.
    pub is_file: bool,
    /// The entry's metadata when it could be read: whether it is a regular
    /// file, its length and its modification time in milliseconds.
    pub metadata: Option<(bool, u64, u64)>,
    /// The canonical path (the walked path when it cannot be resolved).
    pub real_path: String,
}

/// What one step of the scan did.
#[derive(PartialEq, Eq, Structural, Clone, Copy, Debug)]
pub enum ScanStep {
    /// The limit is reached; the scan ends.
    Stop,
    /// The entry is not kept.
    Skip,
    /// The entry was kept.
    Added,
}

/// The files found so far.
pub struct ScanCollector {
    files: Vec<ScannedFile>,
}

/// A kept file as its name, real path, size and modification time.
pub type FileView = (Seq<char>, Seq<char>, u64, u64);

/// What the scan keeps of an entry, given the files kept before it.
pub open spec fn scan_step_spec(kept: Seq<FileView>, e: ScanEntry) -> (Seq<FileView>, ScanStep) {
    if kept.len() >= MAX_FILES {
        (kept, ScanStep::Stop)
    } else if !e.is_file || !is_audio_spec(e.path@) {
        (kept, ScanStep::Skip)
    } else {
        match e.metadata {
            None => (kept, ScanStep::Skip),
            Some((is_file, len, mtime)) => if !is_file || len == 0 || (exists|i: int|
                0 <= i < kept.len() && #[trigger] kept[i].1 == e.real_path@) {
                (kept, ScanStep::Skip)
            } else {
                (kept.push((file_stem_spec(e.path@), e.real_path@, len, mtime)), ScanStep::Added)
            },
        }
    }
}

impl ScanCollector {
    /// The files kept so far.
    pub closed spec fn view(&self) -> Seq<FileView> {
        Seq::new(
            self.files@.len(),
            |i: int| (self.files@[i].name@, self.files@[i].path@, self.files@[i].size, self.files@[i].mtime_ms),
        )
    }

    /// At most `MAX_FILES` files, each real path once.
    pub open spec fn inv(&self) -> bool {
        &&& self.view().len() <= MAX_FILES
        &&& forall|i: int, j: int|
            0 <= i < self.view().len() && 0 <= j < self.view().len() && i != j ==> (#[trigger] self.view()[i]).1
                != (#[trigger] self.view()[j]).1
    }

    /// No files yet.
    pub fn new() -> (r: ScanCollector)
        ensures
            r.inv(),
            r.view() == Seq::<FileView>::empty(),
    {
        let r = ScanCollector { files: Vec::new() };
        assert(r.view() =~= Seq::<FileView>::empty());
        r
    }

    /// Takes one walked entry (see `scan_step_spec`).
    pub fn step(&mut self, entry: ScanEntry) -> (r: ScanStep)
        requires
            old(self).inv(),
        ensures
            final(self).inv(),
            (final(self).view(), r) == scan_step_spec(old(self).view(), entry),
    {
        let ghost before = self.view();
        if self.files.len() >= MAX_FILES {
            return ScanStep::Stop;
        }
        if !entry.is_file || !is_audio_path(entry.path.as_str()) {
            return ScanStep::Skip;
        }
        let (is_file, len, mtime) = match entry.metadata {
            None => {
                return ScanStep::Skip;
            },
            Some(m) => m,
        };
        if !is_file || len == 0 {
            return ScanStep::Skip;
        }
        let mut i: usize = 0;
        while i < self.files.len()
            invariant
                i <= self.files.len(),
                self.inv(),
                before.len() < MAX_FILES,
                entry.is_file,
                is_audio_spec(entry.path@),
                entry.metadata == Some((is_file, len, mtime)),
                is_file,
                len > 0,
                before == self.view(),
                before.len() == self.files.len(),
                forall|j: int| 0 <= j < i ==> before[j].1 != entry.real_path@,
            decreases self.files.len() - i,
        {
            assert(before[i as int].1 == self.files@[i as int].path@);
            if self.files[i].path == entry.real_path {
                assert(before[i as int].1 == entry.real_path@);
                return ScanStep::Skip;
            }
            i = i + 1;
        }
        let name = file_stem(entry.path.as_str());
        let f = ScannedFile { name, path: entry.real_path, size: len, mtime_ms: mtime };
        self.files.push(f);
        proof {
            assert(self.view() =~= before.push((file_stem_spec(entry.path@), entry.real_path@, len, mtime)));
        }
        ScanStep::Added
    }

    /// The files found.
    pub fn into_files(self) -> (r: Vec<ScannedFile>)
        ensures
            Seq::new(r@.len(), |i: int| (r@[i].name@, r@[i].path@, r@[i].size, r@[i].mtime_ms)) == self.view(),
    {
        let r = self.files;
        assert(Seq::new(r@.len(), |i: int| (r@[i].name@, r@[i].path@, r@[i].size, r@[i].mtime_ms)) =~= self.view());
        r
    }
}

/// The refusal of a folder that does not exist or is not a folder.
pub fn check_folder(exists: bool, is_dir: bool) -> (r: Result<(), String>)
    ensures
        !exists ==> (r matches Err(m) && m@ == "FOLDER_NOT_FOUND"@),
        exists && !is_dir ==> (r matches Err(m) && m@ == "NOT_A_DIRECTORY"@),
        exists && is_dir ==> r is Ok,
{
    if !exists {
        return Err(owned("FOLDER_NOT_FOUND"));
    }
    if !is_dir {
        return Err(owned("NOT_A_DIRECTORY"));
    }
    Ok(())
}

} // verus!
