//! A dynamic library that is opened when it is first needed and kept from then on.

use libloading::Library;
use std::sync::Arc;
use vstd::prelude::*;

verus! {

/// Declares `libloading::Library`, a handle on an opened dynamic library.
#[verifier::external_type_specification]
#[verifier::external_body]
pub struct ExLibrary(libloading::Library);

/// Declares `std::path::PathBuf`, the place of a library on disk.
#[verifier::external_type_specification]
#[verifier::external_body]
pub struct ExPathBuf(std::path::PathBuf);

/// Holds at most one opened library. The first one put in stays.
#[derive(Debug)]
pub struct LibraryCell {
    lib: Option<Arc<Library>>,
}

impl View for LibraryCell {
    type V = Option<Arc<Library>>;

    closed spec fn view(&self) -> Option<Arc<Library>> {
        self.lib
    }
}

impl Clone for LibraryCell {
    /// A cell that holds the same library.
    fn clone(&self) -> (cell: LibraryCell)
        ensures
            cell@ == self@,
    {
        match &self.lib {
            Some(lib) => LibraryCell { lib: Some(Arc::clone(lib)) },
            None => LibraryCell { lib: None },
        }
    }
}

impl LibraryCell {
    /// A cell with no library.
    pub fn new() -> (cell: LibraryCell)
        ensures
            cell@ is None,
    {
        LibraryCell { lib: None }
    }

    /// The library, if one has been put in.
    pub fn get(&self) -> (lib: Option<&Arc<Library>>)
        ensures
            self@ is None ==> lib is None,
            self@ matches Some(held) ==> lib == Some(&held),
    {
        self.lib.as_ref()
    }

    /// Puts `lib` in, unless the cell holds a library already.
    pub fn set(&mut self, lib: Library)
        ensures
            old(self)@ is Some ==> final(self)@ == old(self)@,
            old(self)@ is None ==> final(self)@ == Some(Arc::new(lib)),
    {
        if self.lib.is_none() {
            self.lib = Some(Arc::new(lib));
        }
    }
}

/// `prefix` followed by `reason`.
pub(crate) fn message(prefix: &str, reason: &String) -> (text: String)
    ensures
        text@ == prefix@ + reason@,
{
    let mut text = prefix.to_string();
    text.append(reason.as_str());
    text
}

/// A new cell gives no library, and a copy of a cell gives the very library that the cell gives.
pub proof fn law_copy_gives_the_same_library<'a>(
    empty: &'a LibraryCell,
    nothing: Option<&'a Arc<Library>>,
    cell: &'a LibraryCell,
    copy: LibraryCell,
    held: Option<&'a Arc<Library>>,
    copied: Option<&'a Arc<Library>>,
)
    requires
        call_ensures(LibraryCell::new, (), *empty),
        call_ensures(LibraryCell::get, (empty,), nothing),
        call_ensures(LibraryCell::clone, (cell,), copy),
        call_ensures(LibraryCell::get, (cell,), held),
        call_ensures(LibraryCell::get, (&copy,), copied),
    ensures
        nothing is None,
        held == copied,
        held is Some <==> cell@ is Some,
{
}

} // verus!
