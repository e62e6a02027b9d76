//! Picking the regular files out of a directory listing.
use vstd::prelude::*;

verus! {

/// What a directory entry is.
#[derive(PartialEq, Eq, Structural, Debug, Clone, Copy)]
pub enum EntryKind {
    File,
    Dir,
    Other,
}

/// One entry of a directory listing.
#[derive(Debug)]
pub struct Listed {
    pub path: String,
    pub kind: EntryKind,
}

/// The paths of the regular files among `entries`, in their order. An entry
/// that could not be read is `None`.
pub open spec fn files_of(entries: Seq<Option<Listed>>) -> Seq<String>
    decreases entries.len(),
{
    if entries.len() == 0 {
        Seq::empty()
    } else {
        let before = files_of(entries.drop_last());
        match entries.last() {
            Some(e) => if e.kind == EntryKind::File {
                before.push(e.path)
            } else {
                before
            },
            None => before,
        }
    }
}

/// The paths of the regular files in a listing, in its order; entries that
/// could not be read and entries of other kinds are passed over.
pub fn find_files(entries: &Vec<Option<Listed>>) -> (r: Vec<String>)
    ensures
        r@ == files_of(entries@),
{
    let mut files: Vec<String> = Vec::new();
    let mut i: usize = 0;
    while i < entries.len()
        invariant
            0 <= i <= entries@.len(),
            files@ == files_of(entries@.subrange(0, i as int)),
        decreases entries@.len() - i,
    {
        assert(entries@.subrange(0, i + 1).drop_last() =~= entries@.subrange(0, i as int));
        match &entries[i] {
            Some(e) => {
                if e.kind == EntryKind::File {
                    files.push(e.path.clone());
                }
            },
            None => {},
        }
        i = i + 1;
    }
    assert(entries@.subrange(0, i as int) =~= entries@);
    files
}

} // verus!
