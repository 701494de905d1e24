//! Bookkeeping of the local file manager: its base directory and the
//! temporary files it must delete when cleaning up.
use vstd::prelude::*;

verus! {

/// Temporary files awaiting deletion, in the order they were handed out.
#[derive(Debug)]
pub struct TrackedFiles {
    paths: Vec<String>,
}

impl View for TrackedFiles {
    type V = Seq<Seq<char>>;

    closed spec fn view(&self) -> Seq<Seq<char>> {
        self.paths.deep_view()
    }
}

impl TrackedFiles {
    pub fn new() -> (r: TrackedFiles)
        ensures
            r@ == Seq::<Seq<char>>::empty(),
    {
        let r = TrackedFiles { paths: Vec::new() };
        assert(r@ =~= Seq::<Seq<char>>::empty());
        r
    }

    /// Remembers `path` for deletion.
    pub fn track(&mut self, path: String)
        ensures
            final(self)@ == old(self)@.push(path@),
    {
        let ghost before = self@;
        self.paths.push(path);
        assert(self@ =~= before.push(path@));
    }

    /// Hands out every tracked path and forgets them.
    pub fn drain(&mut self) -> (r: Vec<String>)
        ensures
            r.deep_view() == old(self)@,
            final(self)@ == Seq::<Seq<char>>::empty(),
    {
        let mut taken: Vec<String> = Vec::new();
        std::mem::swap(&mut self.paths, &mut taken);
        assert(self@ =~= Seq::<Seq<char>>::empty());
        taken
    }
}

/// A file manager over a local directory. The file operations themselves
/// belong to the caller; this keeps the directory and the temporary files.
#[derive(Debug)]
pub struct LocalFileManager {
    pub base_dir: String,
    temp_files: TrackedFiles,
}

impl LocalFileManager {
    /// The base directory.
    pub closed spec fn dir(&self) -> Seq<char> {
        self.base_dir@
    }

    /// The temporary files not yet cleaned up.
    pub closed spec fn pending(&self) -> Seq<Seq<char>> {
        self.temp_files@
    }

    pub fn new(base_dir: String) -> (r: LocalFileManager)
        ensures
            r.dir() == base_dir@,
            r.pending() == Seq::<Seq<char>>::empty(),
    {
        LocalFileManager { base_dir, temp_files: TrackedFiles::new() }
    }

    /// Remembers a temporary file for deletion.
    pub fn track(&mut self, path: String)
        ensures
            final(self).pending() == old(self).pending().push(path@),
            final(self).dir() == old(self).dir(),
    {
        self.temp_files.track(path);
    }

    /// Hands out every tracked temporary file and forgets them.
    pub fn drain_tracked(&mut self) -> (r: Vec<String>)
        ensures
            r.deep_view() == old(self).pending(),
            final(self).pending() == Seq::<Seq<char>>::empty(),
            final(self).dir() == old(self).dir(),
    {
        self.temp_files.drain()
    }
}

} // verus!
