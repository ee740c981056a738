//! The file that the index is built in, until it is complete.
use std::path::PathBuf;

use vstd::prelude::*;

verus! {

/// `std::path::PathBuf`, a path on the file system, carried through as it is.
#[verifier::external_type_specification]
#[verifier::external_body]
pub struct ExPathBuf(PathBuf);

/// Where a file stands: its directory, and its name there.
#[derive(Debug)]
pub struct Place {
    pub dir: PathBuf,
    pub name: String,
}

/// A directory, and a name there.
pub type PlaceView = (PathBuf, Seq<char>);

impl View for Place {
    type V = PlaceView;

    open spec fn view(&self) -> PlaceView {
        (self.dir, self.name@)
    }
}

/// Keeps the place of a temporary file that is to be removed, unless it is promoted.
#[derive(Debug)]
pub struct TempFileGuard {
    pub path: Option<Place>,
}

impl View for TempFileGuard {
    type V = Option<PlaceView>;

    open spec fn view(&self) -> Option<PlaceView> {
        match self.path {
            Some(place) => Some(place@),
            None => None,
        }
    }
}

impl TempFileGuard {
    /// Guards the temporary file at `path`.
    pub fn new(path: Place) -> (guard: Self)
        ensures
            guard@ == Some(path@),
            guard.path == Some(path),
    {
        TempFileGuard { path: Some(path) }
    }

    /// Gives the file up, so that it can be renamed: returns its place, and guards nothing
    /// from then on.
    pub fn promote(&mut self) -> (path: Place)
        requires
            old(self)@ is Some,
        ensures
            old(self)@ == Some(path@),
            old(self).path == Some(path),
            final(self)@ is None,
            final(self).path is None,
    {
        self.path.take().unwrap()
    }
}

/// The name of the temporary file that stands in for `file_name`.
pub open spec fn temp_name(file_name: Seq<char>) -> Seq<char> {
    "_"@ + file_name + ".tmp"@
}

/// Names the temporary file that stands in for `file_name` until the index is complete.
pub fn temp_file_name(file_name: &str) -> (name: String)
    ensures
        name@ == temp_name(file_name@),
{
    let mut name = String::new();
    name.append("_");
    name.append(file_name);
    name.append(".tmp");
    assert(name@ =~= temp_name(file_name@));
    name
}

/// Files with different names have temporary files with different names.
pub proof fn law_temp_names_differ(a: Seq<char>, b: Seq<char>)
    requires
        a != b,
    ensures
        temp_name(a) != temp_name(b),
{
    reveal_strlit("_");
    reveal_strlit(".tmp");
    if temp_name(a) == temp_name(b) {
        assert(temp_name(a).len() == a.len() + 5 && temp_name(b).len() == b.len() + 5);
        assert(temp_name(a).subrange(1, 1 + a.len() as int) =~= a);
        assert(temp_name(b).subrange(1, 1 + b.len() as int) =~= b);
        assert(a.len() == b.len());
    }
}

/// The place of the temporary file that stands in for the file at `place`: the same
/// directory, under the name for temporary files.
pub open spec fn temp_place(place: PlaceView) -> PlaceView {
    (place.0, temp_name(place.1))
}

impl Place {
    /// Places the temporary file that stands in for the file here until the index is complete.
    pub fn temp(self) -> (temp: Place)
        ensures
            temp@ == temp_place(self@),
            temp.dir == self.dir,
            temp.name@ == temp_name(self.name@),
    {
        let name = temp_file_name(self.name.as_str());
        Place { dir: self.dir, name }
    }
}

/// Files at different places, be it in different directories or under different names, have
/// temporary files at different places.
pub proof fn law_temp_places_differ(a: PlaceView, b: PlaceView)
    requires
        a != b,
    ensures
        temp_place(a) != temp_place(b),
{
    if a.1 != b.1 {
        law_temp_names_differ(a.1, b.1);
    }
}

/// Two guards made for the temporary files of different targets never guard the same file.
pub proof fn law_guarded_files_differ(
    a: PlaceView,
    x: TempFileGuard,
    b: PlaceView,
    y: TempFileGuard,
)
    requires
        a != b,
        x@ == Some(temp_place(a)),
        y@ == Some(temp_place(b)),
    ensures
        x@ != y@,
        x.path != y.path,
{
    law_temp_places_differ(a, b);
}

/// The temporary file is never the file itself: its name is longer.
pub proof fn law_temp_name_is_another(file_name: Seq<char>)
    ensures
        temp_name(file_name) != file_name,
{
    reveal_strlit("_");
    reveal_strlit(".tmp");
    assert(temp_name(file_name).len() == file_name.len() + 5);
}

/// The name of the temporary file is the name of the file, behind an underscore and in front
/// of the ending for temporary files.
pub proof fn law_temp_names_hold_the_name(file_name: Seq<char>)
    ensures
        temp_name(file_name).len() == file_name.len() + 5,
        temp_name(file_name)[0] == '_',
        temp_name(file_name).subrange(1, 1 + file_name.len() as int) == file_name,
        temp_name(file_name).skip(1 + file_name.len() as int) == ".tmp"@,
{
    reveal_strlit("_");
    reveal_strlit(".tmp");
    assert(temp_name(file_name).subrange(1, 1 + file_name.len() as int) =~= file_name);
    assert(temp_name(file_name).skip(1 + file_name.len() as int) =~= ".tmp"@);
}

} // verus!
