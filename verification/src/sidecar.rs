//! The sidecar: the edit of one photo, kept next to the original. For
//! IMG_0001.HEIC the sidecar is IMG_0001.HEIC.gamut.json. A sidecar holds the
//! working state and any number of named versions of it.

use crate::crop::Crop;
use crate::edit::{a_copy_compares_as_the_edit, equal_edits, PhotoEdit};
use crate::path::{beside, beside_spec};
use crate::text::{is, join, joined, lowercase, texts, to_lowercase, trim, trimmed, trimmed_twice};
use vstd::prelude::*;
use vstd::string::*;

verus! {

/// The sidecar format version this build writes. Version 2 added the
/// presence sliders and the look to the edit, version 3 the masks.
pub const VERSION: u32 = 3;

pub open spec fn suffix_spec() -> Seq<char> {
    ".gamut.json"@
}

/// What is appended to the photo's file name.
pub fn suffix() -> (r: &'static str)
    ensures
        r@ == suffix_spec(),
{
    ".gamut.json"
}

/// One named version of a photo: an edit and a crop kept under a name.
#[derive(Debug)]
pub struct NamedVersion {
    pub name: String,
    pub edit: PhotoEdit,
    pub crop: Crop,
}

impl NamedVersion {
    /// The same version to the bit.
    pub open spec fn copy_of(self, other: NamedVersion) -> bool {
        self.name@ == other.name@ && self.edit.copy_of(other.edit) && self.crop == other.crop
    }

    pub open spec fn equals(self, other: NamedVersion) -> bool {
        self.name@ == other.name@ && self.edit.equals(other.edit) && self.crop.equals(other.crop)
    }
}

impl Clone for NamedVersion {
    fn clone(&self) -> (r: Self)
        ensures
            r.copy_of(*self),
    {
        NamedVersion { name: self.name.clone(), edit: self.edit.clone(), crop: self.crop }
    }
}

impl PartialEq for NamedVersion {
    fn eq(&self, other: &Self) -> (r: bool) {
        self.name == other.name && self.edit == other.edit && self.crop == other.crop
    }
}

impl vstd::std_specs::cmp::PartialEqSpecImpl for NamedVersion {
    open spec fn obeys_eq_spec() -> bool {
        true
    }

    open spec fn eq_spec(&self, other: &Self) -> bool {
        self.equals(*other)
    }
}

impl Default for NamedVersion {
    fn default() -> (r: Self)
        ensures
            r.name@.len() == 0,
            r.edit.adjust.at_rest(),
            r.edit.masks@.len() == 0,
            r.crop == Crop::default_spec(),
    {
        NamedVersion { name: String::new(), edit: PhotoEdit::default(), crop: Crop::default() }
    }
}

/// Why a version could not be saved, renamed or found.
#[derive(Clone, Debug, PartialEq, Eq)]
pub enum VersionError {
    /// The name is empty.
    EmptyName,
    /// Another version already has this name; case does not tell names
    /// apart.
    NameTaken(String),
    /// No version has this name. Holds the names that exist.
    NotFound { name: String, existing: Vec<String> },
}

impl VersionError {
    pub open spec fn message_spec(self) -> Seq<char> {
        match self {
            VersionError::EmptyName => "a version needs a name"@,
            VersionError::NameTaken(name) => "a version named "@ + name@ + " already exists"@,
            VersionError::NotFound { name, existing } => if existing@.len() == 0 {
                "no version named "@ + name@ + ": this photo has no versions"@
            } else {
                "no version named "@ + name@ + ": the versions are "@ + joined(
                    texts(existing@),
                    ", "@,
                )
            },
        }
    }

    /// What the window says.
    pub fn message(&self) -> (r: String)
        ensures
            r@ == self.message_spec(),
    {
        match self {
            VersionError::EmptyName => "a version needs a name".to_owned(),
            VersionError::NameTaken(name) => {
                let mut text: String = "a version named ".to_owned();
                text.append(name.as_str());
                text.append(" already exists");
                text
            },
            VersionError::NotFound { name, existing } => {
                let mut text: String = "no version named ".to_owned();
                text.append(name.as_str());
                if existing.len() == 0 {
                    text.append(": this photo has no versions");
                } else {
                    text.append(": the versions are ");
                    let names: String = join(existing, ", ");
                    text.append(names.as_str());
                }
                text
            },
        }
    }
}

/// The names of the versions.
pub open spec fn names_of(versions: Seq<NamedVersion>) -> Seq<Seq<char>> {
    versions.map_values(|v: NamedVersion| v.name@)
}

/// What a name is looked up by: trimmed and in lower case.
pub open spec fn key(name: Seq<char>) -> Seq<char> {
    lowercase(trimmed(name))
}

/// Where the first version stands whose name is `wanted` in lower case.
pub open spec fn place_of(versions: Seq<NamedVersion>, wanted: Seq<char>) -> Option<int>
    decreases versions.len(),
{
    if versions.len() == 0 {
        None
    } else {
        match place_of(versions.drop_last(), wanted) {
            Some(index) => Some(index),
            None => if lowercase(versions.last().name@) == wanted {
                Some(versions.len() - 1)
            } else {
                None
            },
        }
    }
}

/// Names as the versions keep them: none empty, none with white space around
/// it, no two the same in lower case.
pub open spec fn names_apart(versions: Seq<NamedVersion>) -> bool {
    &&& forall|i: int|
        0 <= i < versions.len() ==> (#[trigger] versions[i]).name@.len() > 0 && trimmed(
            versions[i].name@,
        ) == versions[i].name@
    &&& forall|i: int, j: int|
        0 <= i < j < versions.len() ==> lowercase((#[trigger] versions[i]).name@) != lowercase(
            (#[trigger] versions[j]).name@,
        )
}

/// The error of a name that no version has.
pub open spec fn not_found_spec(
    error: VersionError,
    versions: Seq<NamedVersion>,
    name: Seq<char>,
) -> bool {
    error matches VersionError::NotFound { name: missing, existing } && missing@ == trimmed(name)
        && texts(existing@) == names_of(versions)
}

/// The saved state of one photo. The top-level edit and crop are the working
/// state; `versions` holds the named ones.
#[derive(Debug)]
pub struct Sidecar {
    pub version: u32,
    pub edit: PhotoEdit,
    pub crop: Crop,
    pub versions: Vec<NamedVersion>,
    /// The version the working state was last switched to, saved as or
    /// updated into: the one [`Sidecar::is_dirty`] compares against.
    pub active_version: Option<String>,
}

/// What an optional text holds.
pub open spec fn named(name: Option<String>) -> Option<Seq<char>> {
    match name {
        Some(text) => Some(text@),
        None => None,
    }
}

impl Sidecar {
    /// The place of the version the working state belongs to.
    pub open spec fn active_place(self) -> Option<int> {
        match self.active_version {
            Some(name) => place_of(self.versions@, key(name@)),
            None => None,
        }
    }

    /// Whether the working state holds work its active version does not.
    pub open spec fn dirty(self) -> bool {
        match self.active_place() {
            Some(index) => !(self.versions@[index].edit.equals(self.edit)
                && self.versions@[index].crop.equals(self.crop)),
            None => false,
        }
    }

    /// The same sidecar to the bit.
    pub open spec fn copy_of(self, other: Sidecar) -> bool {
        &&& self.version == other.version
        &&& self.edit.copy_of(other.edit)
        &&& self.crop == other.crop
        &&& versions_copied(self.versions@, other.versions@)
        &&& named(self.active_version) == named(other.active_version)
    }

    pub open spec fn equals(self, other: Sidecar) -> bool {
        &&& self.version == other.version
        &&& self.edit.equals(other.edit)
        &&& self.crop.equals(other.crop)
        &&& self.versions@.len() == other.versions@.len()
        &&& forall|i: int|
            0 <= i < self.versions@.len() ==> (#[trigger] self.versions@[i]).equals(
                other.versions@[i],
            )
        &&& named(self.active_version) == named(other.active_version)
    }

    pub fn new(edit: PhotoEdit, crop: Crop) -> (r: Self)
        ensures
            r.version == VERSION,
            r.edit == edit,
            r.crop == crop,
            r.versions@.len() == 0,
            r.active_version is None,
    {
        Sidecar { version: VERSION, edit, crop, versions: Vec::new(), active_version: None }
    }

    fn place(&self, wanted: &str) -> (r: Option<usize>)
        ensures
            match r {
                Some(index) => place_of(self.versions@, wanted@) == Some(index as int) && index
                    < self.versions@.len(),
                None => place_of(self.versions@, wanted@) is None,
            },
    {
        let mut i: usize = 0;
        while i < self.versions.len()
            invariant
                0 <= i <= self.versions@.len(),
                place_of(self.versions@.take(i as int), wanted@) is None,
            decreases self.versions.len() - i,
        {
            let now: String = to_lowercase(self.versions[i].name.as_str());
            assert(self.versions@.take(i + 1).drop_last() =~= self.versions@.take(i as int));
            if is(now.as_str(), wanted) {
                proof {
                    place_of_more(self.versions@, i + 1, wanted@);
                }
                return Some(i);
            }
            i += 1;
        }
        assert(self.versions@.take(i as int) =~= self.versions@);
        None
    }

    /// The index of the version with this name, compared without case.
    pub fn find_version(&self, name: &str) -> (r: Option<usize>)
        ensures
            match r {
                Some(index) => place_of(self.versions@, key(name@)) == Some(index as int) && index
                    < self.versions@.len(),
                None => place_of(self.versions@, key(name@)) is None,
            },
    {
        let name: String = trim(name);
        let wanted: String = to_lowercase(name.as_str());
        self.place(wanted.as_str())
    }

    fn not_found(&self, name: &str) -> (r: VersionError)
        ensures
            not_found_spec(r, self.versions@, name@),
    {
        let mut existing: Vec<String> = Vec::new();
        let mut i: usize = 0;
        while i < self.versions.len()
            invariant
                0 <= i <= self.versions@.len(),
                texts(existing@) == names_of(self.versions@.take(i as int)),
            decreases self.versions.len() - i,
        {
            let ghost before = existing@;
            let name: String = self.versions[i].name.clone();
            existing.push(name);
            i += 1;
            assert(texts(existing@) =~= texts(before).push(name@));
            assert(names_of(self.versions@.take(i as int)) =~= names_of(
                self.versions@.take(i - 1),
            ).push(self.versions@[i - 1].name@));
        }
        assert(self.versions@.take(i as int) =~= self.versions@);
        VersionError::NotFound { name: trim(name), existing }
    }

    /// The version with this name, or the names that exist.
    pub fn version(&self, name: &str) -> (r: Result<&NamedVersion, VersionError>)
        ensures
            match r {
                Ok(version) => place_of(self.versions@, key(name@)) is Some && *version
                    == self.versions@[place_of(self.versions@, key(name@))->0],
                Err(error) => place_of(self.versions@, key(name@)) is None && not_found_spec(
                    error,
                    self.versions@,
                    name@,
                ),
            },
    {
        match self.find_version(name) {
            Some(index) => Ok(&self.versions[index]),
            None => Err(self.not_found(name)),
        }
    }

    /// Keeps the working state under a new name and makes it the active
    /// version.
    pub fn save_version(&mut self, name: &str) -> (r: Result<(), VersionError>)
        ensures
            r is Ok <==> trimmed(name@).len() > 0 && place_of(old(self).versions@, key(name@))
                is None,
            r is Ok ==> saved(*final(self), *old(self), name@),
            r matches Err(error) ==> {
                &&& *final(self) == *old(self)
                &&& if trimmed(name@).len() == 0 {
                    error is EmptyName
                } else {
                    error matches VersionError::NameTaken(taken) && taken@ == trimmed(name@)
                }
            },
    {
        let kept: String = trim(name);
        if kept.as_str().is_empty() {
            return Err(VersionError::EmptyName);
        }
        proof {
            trimmed_twice(name@);
        }
        if self.find_version(kept.as_str()).is_some() {
            return Err(VersionError::NameTaken(kept));
        }
        self.versions.push(
            NamedVersion { name: kept.clone(), edit: self.edit.clone(), crop: self.crop },
        );
        self.active_version = Some(kept);
        assert(self.versions@.drop_last() =~= old(self).versions@);
        Ok(())
    }

    /// Copies a version into the working state and makes it the active
    /// version. A switch never writes into a version: what the working state
    /// held is gone unless [`Sidecar::update_version`] or
    /// [`Sidecar::save_version`] kept it first, which is what
    /// [`Sidecar::is_dirty`] is there to ask about.
    pub fn switch_to(&mut self, name: &str) -> (r: Result<(), VersionError>)
        ensures
            final(self).versions == old(self).versions,
            final(self).version == old(self).version,
            match r {
                Ok(()) => switched(*final(self), *old(self), name@),
                Err(error) => {
                    &&& place_of(old(self).versions@, key(name@)) is None
                    &&& not_found_spec(error, old(self).versions@, name@)
                    &&& *final(self) == *old(self)
                },
            },
    {
        let target: usize = match self.find_version(name) {
            Some(index) => index,
            None => {
                return Err(self.not_found(name));
            },
        };
        let version: NamedVersion = self.versions[target].clone();
        self.edit = version.edit;
        self.crop = version.crop;
        self.active_version = Some(version.name);
        Ok(())
    }

    /// Copies the working state into the version with this name and makes it
    /// the active version. The only way a version changes after it is saved.
    pub fn update_version(&mut self, name: &str) -> (r: Result<(), VersionError>)
        ensures
            final(self).edit == old(self).edit,
            final(self).crop == old(self).crop,
            final(self).version == old(self).version,
            match r {
                Ok(()) => updated(*final(self), *old(self), name@),
                Err(error) => {
                    &&& place_of(old(self).versions@, key(name@)) is None
                    &&& not_found_spec(error, old(self).versions@, name@)
                    &&& *final(self) == *old(self)
                },
            },
    {
        let index: usize = match self.find_version(name) {
            Some(index) => index,
            None => {
                return Err(self.not_found(name));
            },
        };
        self.versions[index].edit = self.edit.clone();
        self.versions[index].crop = self.crop;
        self.active_version = Some(self.versions[index].name.clone());
        assert(self.versions@ =~= old(self).versions@.update(
            index as int,
            self.versions@[index as int],
        ));
        Ok(())
    }

    /// Whether the working state holds work its active version does not:
    /// true when an active version exists and the working edit or crop
    /// differs from it. With no active version there is nothing to be behind.
    pub fn is_dirty(&self) -> (r: bool)
        ensures
            r == self.dirty(),
    {
        match &self.active_version {
            Some(active) => match self.find_version(active.as_str()) {
                Some(index) => {
                    let version: &NamedVersion = &self.versions[index];
                    version.edit != self.edit || version.crop != self.crop
                },
                None => false,
            },
            None => false,
        }
    }

    /// Gives a version another name.
    pub fn rename_version(&mut self, name: &str, new_name: &str) -> (r: Result<(), VersionError>)
        ensures
            final(self).edit == old(self).edit,
            final(self).crop == old(self).crop,
            final(self).version == old(self).version,
            match r {
                Ok(()) => renamed(*final(self), *old(self), name@, new_name@),
                Err(error) => {
                    &&& *final(self) == *old(self)
                    &&& if trimmed(new_name@).len() == 0 {
                        error is EmptyName
                    } else if place_of(old(self).versions@, key(name@)) is None {
                        not_found_spec(error, old(self).versions@, name@)
                    } else {
                        &&& error matches VersionError::NameTaken(taken) && taken@ == trimmed(
                            new_name@,
                        )
                        &&& place_of(old(self).versions@, key(new_name@)) is Some
                        &&& place_of(old(self).versions@, key(new_name@)) != place_of(
                            old(self).versions@,
                            key(name@),
                        )
                    }
                },
            },
    {
        let kept: String = trim(new_name);
        if kept.as_str().is_empty() {
            return Err(VersionError::EmptyName);
        }
        let index: usize = match self.find_version(name) {
            Some(index) => index,
            None => {
                return Err(self.not_found(name));
            },
        };
        proof {
            trimmed_twice(new_name@);
        }
        if let Some(other) = self.find_version(kept.as_str()) {
            if other != index {
                return Err(VersionError::NameTaken(kept));
            }
        }
        let held: bool = match &self.active_version {
            Some(active) => *active == self.versions[index].name,
            None => false,
        };
        if held {
            self.active_version = Some(kept.clone());
        }
        self.versions[index].name = kept;
        Ok(())
    }

    /// Takes a version away. The working state stays.
    pub fn delete_version(&mut self, name: &str) -> (r: Result<(), VersionError>)
        ensures
            final(self).edit == old(self).edit,
            final(self).crop == old(self).crop,
            final(self).version == old(self).version,
            match r {
                Ok(()) => deleted(*final(self), *old(self), name@),
                Err(error) => {
                    &&& place_of(old(self).versions@, key(name@)) is None
                    &&& not_found_spec(error, old(self).versions@, name@)
                    &&& *final(self) == *old(self)
                },
            },
    {
        let index: usize = match self.find_version(name) {
            Some(index) => index,
            None => {
                return Err(self.not_found(name));
            },
        };
        let removed: NamedVersion = self.versions.remove(index);
        let held: bool = match &self.active_version {
            Some(active) => *active == removed.name,
            None => false,
        };
        if held {
            self.active_version = None;
        }
        Ok(())
    }

    /// The sidecar path for a photo: its full file name plus [`suffix`].
    pub fn path_for(photo: &str) -> (r: String)
        ensures
            r@ == beside_spec(photo@, suffix_spec()),
    {
        beside(photo, suffix())
    }
}

impl Clone for Sidecar {
    fn clone(&self) -> (r: Self)
        ensures
            r.copy_of(*self),
    {
        let mut versions: Vec<NamedVersion> = Vec::new();
        let mut i: usize = 0;
        while i < self.versions.len()
            invariant
                0 <= i <= self.versions@.len(),
                versions_copied(versions@, self.versions@.take(i as int)),
            decreases self.versions.len() - i,
        {
            let version: NamedVersion = self.versions[i].clone();
            versions.push(version);
            i += 1;
        }
        assert(self.versions@.take(i as int) =~= self.versions@);
        let active_version: Option<String> = match &self.active_version {
            Some(name) => Some(name.clone()),
            None => None,
        };
        Sidecar {
            version: self.version,
            edit: self.edit.clone(),
            crop: self.crop,
            versions,
            active_version,
        }
    }
}

impl PartialEq for Sidecar {
    fn eq(&self, other: &Self) -> (r: bool) {
        let same_active: bool = match (&self.active_version, &other.active_version) {
            (Some(a), Some(b)) => *a == *b,
            (None, None) => true,
            _ => false,
        };
        if self.version != other.version || self.edit != other.edit || self.crop != other.crop
            || self.versions.len() != other.versions.len() || !same_active {
            return false;
        }
        let mut i: usize = 0;
        while i < self.versions.len()
            invariant
                0 <= i <= self.versions@.len() == other.versions@.len(),
                forall|k: int|
                    0 <= k < i ==> (#[trigger] self.versions@[k]).equals(other.versions@[k]),
            decreases self.versions.len() - i,
        {
            if self.versions[i] != other.versions[i] {
                assert(!self.versions@[i as int].equals(other.versions@[i as int]));
                return false;
            }
            i += 1;
        }
        true
    }
}

impl vstd::std_specs::cmp::PartialEqSpecImpl for Sidecar {
    open spec fn obeys_eq_spec() -> bool {
        true
    }

    open spec fn eq_spec(&self, other: &Self) -> bool {
        self.equals(*other)
    }
}

impl Default for Sidecar {
    fn default() -> (r: Self)
        ensures
            r.version == VERSION,
            r.edit.adjust.at_rest(),
            r.edit.masks@.len() == 0,
            r.crop == Crop::default_spec(),
            r.versions@.len() == 0,
            r.active_version is None,
    {
        Sidecar::new(PhotoEdit::default(), Crop::default())
    }
}

/// Two lists of versions that are the same to the bit.
pub open spec fn versions_copied(a: Seq<NamedVersion>, b: Seq<NamedVersion>) -> bool {
    a.len() == b.len() && forall|i: int| 0 <= i < a.len() ==> (#[trigger] a[i]).copy_of(b[i])
}

/// `after` is `before` with a version brought into the working state.
pub open spec fn switched(after: Sidecar, before: Sidecar, name: Seq<char>) -> bool {
    place_of(before.versions@, key(name)) matches Some(index) && {
        let version = before.versions@[index];
        &&& after.versions == before.versions
        &&& after.edit.copy_of(version.edit)
        &&& after.crop == version.crop
        &&& named(after.active_version) == Some(version.name@)
    }
}

/// `after` is `before` with its working state written into a version.
pub open spec fn updated(after: Sidecar, before: Sidecar, name: Seq<char>) -> bool {
    place_of(before.versions@, key(name)) matches Some(index) && {
        &&& after.edit == before.edit
        &&& after.crop == before.crop
        &&& after.versions@.len() == before.versions@.len()
        &&& after.versions@ == before.versions@.update(index, after.versions@[index])
        &&& after.versions@[index].name@ == before.versions@[index].name@
        &&& after.versions@[index].edit.copy_of(before.edit)
        &&& after.versions@[index].crop == before.crop
        &&& named(after.active_version) == Some(before.versions@[index].name@)
    }
}

/// `after` is `before` with a version under another name.
pub open spec fn renamed(
    after: Sidecar,
    before: Sidecar,
    name: Seq<char>,
    new_name: Seq<char>,
) -> bool {
    place_of(before.versions@, key(name)) matches Some(index) && {
        let version = before.versions@[index];
        &&& trimmed(new_name).len() > 0
        &&& place_of(before.versions@, key(new_name)) is None || place_of(
            before.versions@,
            key(new_name),
        ) == Some(index)
        &&& after.edit == before.edit
        &&& after.crop == before.crop
        &&& after.versions@.len() == before.versions@.len()
        &&& after.versions@ == before.versions@.update(index, after.versions@[index])
        &&& after.versions@[index].name@ == trimmed(new_name)
        &&& after.versions@[index].edit == version.edit
        &&& after.versions@[index].crop == version.crop
        &&& named(after.active_version) == if named(before.active_version) == Some(version.name@) {
            Some(trimmed(new_name))
        } else {
            named(before.active_version)
        }
    }
}

/// `after` is `before` without a version.
pub open spec fn deleted(after: Sidecar, before: Sidecar, name: Seq<char>) -> bool {
    place_of(before.versions@, key(name)) matches Some(index) && {
        &&& after.edit == before.edit
        &&& after.crop == before.crop
        &&& after.versions@ == before.versions@.remove(index)
        &&& named(after.active_version) == if named(before.active_version) == Some(
            before.versions@[index].name@,
        ) {
            None
        } else {
            named(before.active_version)
        }
    }
}

/// What [`place_of`] finds.
pub proof fn place_is_the_first(versions: Seq<NamedVersion>, wanted: Seq<char>)
    ensures
        match place_of(versions, wanted) {
            Some(index) => {
                &&& 0 <= index < versions.len()
                &&& lowercase(versions[index].name@) == wanted
                &&& forall|i: int| 0 <= i < index ==> lowercase((#[trigger] versions[i]).name@) != wanted
            },
            None => forall|i: int|
                0 <= i < versions.len() ==> lowercase((#[trigger] versions[i]).name@) != wanted,
        },
    decreases versions.len(),
{
    if versions.len() > 0 {
        let rest = versions.drop_last();
        place_is_the_first(rest, wanted);
        match place_of(rest, wanted) {
            Some(index) => {
                assert(rest[index] == versions[index]);
                assert forall|i: int| 0 <= i < index implies lowercase(
                    (#[trigger] versions[i]).name@,
                ) != wanted by {
                    assert(rest[i] == versions[i]);
                }
            },
            None => {
                assert forall|i: int| 0 <= i < rest.len() implies lowercase(
                    (#[trigger] versions[i]).name@,
                ) != wanted by {
                    assert(rest[i] == versions[i]);
                }
            },
        }
    }
}

/// Names that are apart name one version each: a version's own name finds it.
pub proof fn a_name_finds_its_version(versions: Seq<NamedVersion>, index: int)
    requires
        names_apart(versions),
        0 <= index < versions.len(),
    ensures
        place_of(versions, key(versions[index].name@)) == Some(index),
{
    let wanted = key(versions[index].name@);
    place_is_the_first(versions, wanted);
    assert(lowercase(versions[index].name@) == wanted);
    match place_of(versions, wanted) {
        Some(found) => {
            if found < index {
                assert(lowercase(versions[found].name@) != lowercase(versions[index].name@));
            }
        },
        None => {},
    }
}

/// What was saved is not behind: right after a save nothing is unsaved. (An
/// edit that is not equal to itself, one that holds a number that is none, is
/// always unsaved.)
pub proof fn a_saved_state_is_not_dirty(after: Sidecar, before: Sidecar, name: Seq<char>)
    requires
        saved(after, before, name),
        place_of(before.versions@, key(name)) is None,
        before.edit.equals(before.edit),
        before.crop.equals(before.crop),
    ensures
        !after.dirty(),
{
    trimmed_twice(name);
    let n = before.versions@.len() as int;
    let wanted = key(name);
    if lowercase(after.versions@[n].name@) == wanted {
        assert(place_of(after.versions@, wanted) == Some(n));
        a_copy_compares_as_the_edit(after.versions@[n].edit, before.edit, before.edit);
    }
}

/// Right after an update nothing is unsaved.
pub proof fn an_updated_state_is_not_dirty(after: Sidecar, before: Sidecar, name: Seq<char>)
    requires
        updated(after, before, name),
        names_apart(before.versions@),
        before.edit.equals(before.edit),
        before.crop.equals(before.crop),
    ensures
        !after.dirty(),
{
    let wanted = key(name);
    place_is_the_first(before.versions@, wanted);
    let index = place_of(before.versions@, wanted)->0;
    assert(names_apart(after.versions@)) by {
        an_update_keeps_the_names_apart(after, before, name);
    }
    a_name_finds_its_version(after.versions@, index);
    a_copy_compares_as_the_edit(after.versions@[index].edit, before.edit, before.edit);
}

/// Right after a switch nothing is unsaved: the working state is the version.
pub proof fn a_switched_state_is_not_dirty(after: Sidecar, before: Sidecar, name: Seq<char>)
    requires
        switched(after, before, name),
        names_apart(before.versions@),
        forall|i: int|
            0 <= i < before.versions@.len() ==> (#[trigger] before.versions@[i]).equals(
                before.versions@[i],
            ),
    ensures
        !after.dirty(),
{
    place_is_the_first(before.versions@, key(name));
    let index = place_of(before.versions@, key(name))->0;
    a_name_finds_its_version(before.versions@, index);
    let version = before.versions@[index];
    assert(version.equals(version));
    a_copy_compares_as_the_edit(after.edit, version.edit, version.edit);
}

/// A version comes back as it was saved, whatever the working state became in
/// between: a save, any change of the working state, a switch.
pub proof fn a_switch_brings_back_what_was_saved(
    saved_state: Sidecar,
    before: Sidecar,
    worked: Sidecar,
    after: Sidecar,
    name: Seq<char>,
)
    requires
        saved(saved_state, before, name),
        place_of(before.versions@, key(name)) is None,
        worked.versions@ == saved_state.versions@,
        switched(after, worked, name),
    ensures
        after.edit.copy_of(saved_state.versions@.last().edit),
        saved_state.versions@.last().edit.copy_of(before.edit),
        after.crop == before.crop,
        after.versions@ == saved_state.versions@,
{
    trimmed_twice(name);
    let n = before.versions@.len() as int;
    assert(place_of(saved_state.versions@, key(name)) == Some(n));
}

/// A save keeps the names apart.
pub proof fn a_save_keeps_the_names_apart(after: Sidecar, before: Sidecar, name: Seq<char>)
    requires
        names_apart(before.versions@),
        trimmed(name).len() > 0,
        place_of(before.versions@, key(name)) is None,
        saved(after, before, name),
    ensures
        names_apart(after.versions@),
{
    trimmed_twice(name);
    place_is_the_first(before.versions@, key(name));
    let n = before.versions@.len() as int;
    assert forall|i: int| 0 <= i < n implies #[trigger] after.versions@[i]
        == before.versions@[i] by {
        assert(after.versions@.drop_last()[i] == after.versions@[i]);
    }
}

/// An update keeps the names apart.
pub proof fn an_update_keeps_the_names_apart(after: Sidecar, before: Sidecar, name: Seq<char>)
    requires
        names_apart(before.versions@),
        updated(after, before, name),
    ensures
        names_apart(after.versions@),
{
    place_is_the_first(before.versions@, key(name));
    let index = place_of(before.versions@, key(name))->0;
    assert forall|i: int| 0 <= i < after.versions@.len() implies (
    #[trigger] after.versions@[i]).name@ == before.versions@[i].name@ by {
        assert(after.versions@[i] == before.versions@.update(index, after.versions@[index])[i]);
    }
    assert forall|i: int, j: int| 0 <= i < j < after.versions@.len() implies lowercase(
        (#[trigger] after.versions@[i]).name@,
    ) != lowercase((#[trigger] after.versions@[j]).name@) by {
        assert(lowercase(before.versions@[i].name@) != lowercase(before.versions@[j].name@));
    }
    assert forall|i: int| 0 <= i < after.versions@.len() implies (
    #[trigger] after.versions@[i]).name@.len() > 0 && trimmed(after.versions@[i].name@)
        == after.versions@[i].name@ by {
        assert(before.versions@[i].name@.len() > 0);
    }
}

/// A rename keeps the names apart.
pub proof fn a_rename_keeps_the_names_apart(
    after: Sidecar,
    before: Sidecar,
    name: Seq<char>,
    new_name: Seq<char>,
)
    requires
        names_apart(before.versions@),
        renamed(after, before, name, new_name),
    ensures
        names_apart(after.versions@),
{
    trimmed_twice(new_name);
    place_is_the_first(before.versions@, key(name));
    place_is_the_first(before.versions@, key(new_name));
    let index = place_of(before.versions@, key(name))->0;
    let (was, now) = (before.versions@, after.versions@);
    assert forall|i: int| 0 <= i < now.len() && i != index implies #[trigger] now[i]
        == was[i] by {
        assert(now[i] == was.update(index, now[index])[i]);
    }
    assert forall|i: int| 0 <= i < now.len() && i != index implies lowercase(
        (#[trigger] now[i]).name@,
    ) != lowercase(now[index].name@) by {
        assert(now[i] == was[i]);
        match place_of(was, key(new_name)) {
            Some(found) => {
                if i < index {
                    assert(lowercase(was[i].name@) != lowercase(was[index].name@));
                } else {
                    assert(lowercase(was[index].name@) != lowercase(was[i].name@));
                }
            },
            None => {
                assert(lowercase(was[i].name@) != key(new_name));
            },
        }
    }
    assert forall|i: int, j: int| 0 <= i < j < now.len() implies lowercase(
        (#[trigger] now[i]).name@,
    ) != lowercase((#[trigger] now[j]).name@) by {
        if i != index && j != index {
            assert(lowercase(was[i].name@) != lowercase(was[j].name@));
        }
    }
    assert forall|i: int| 0 <= i < now.len() implies (#[trigger] now[i]).name@.len() > 0
        && trimmed(now[i].name@) == now[i].name@ by {
        if i != index {
            assert(was[i].name@.len() > 0);
        }
    }
}

/// A deletion keeps the names apart.
pub proof fn a_deletion_keeps_the_names_apart(after: Sidecar, before: Sidecar, name: Seq<char>)
    requires
        names_apart(before.versions@),
        deleted(after, before, name),
    ensures
        names_apart(after.versions@),
{
    place_is_the_first(before.versions@, key(name));
    let index = place_of(before.versions@, key(name))->0;
    let (was, now) = (before.versions@, after.versions@);
    assert forall|i: int, j: int| 0 <= i < j < now.len() implies lowercase(
        (#[trigger] now[i]).name@,
    ) != lowercase((#[trigger] now[j]).name@) by {
        let a = if i < index {
            i
        } else {
            i + 1
        };
        let b = if j < index {
            j
        } else {
            j + 1
        };
        assert(now[i] == was[a] && now[j] == was[b]);
        assert(lowercase(was[a].name@) != lowercase(was[b].name@));
    }
    assert forall|i: int| 0 <= i < now.len() implies (#[trigger] now[i]).name@.len() > 0
        && trimmed(now[i].name@) == now[i].name@ by {
        let a = if i < index {
            i
        } else {
            i + 1
        };
        assert(now[i] == was[a]);
        assert(was[a].name@.len() > 0);
    }
}

/// A renamed version keeps the comparison: the working state is unsaved after
/// the rename of any version when it was before.
pub proof fn a_rename_keeps_the_comparison(
    after: Sidecar,
    before: Sidecar,
    name: Seq<char>,
    new_name: Seq<char>,
)
    requires
        names_apart(before.versions@),
        renamed(after, before, name, new_name),
        before.active_version matches Some(active) ==> exists|i: int|
            0 <= i < before.versions@.len() && #[trigger] before.versions@[i].name@ == active@,
    ensures
        after.dirty() == before.dirty(),
{
    a_rename_keeps_the_names_apart(after, before, name, new_name);
    place_is_the_first(before.versions@, key(name));
    let index = place_of(before.versions@, key(name))->0;
    let (was, now) = (before.versions@, after.versions@);
    if before.active_version is Some {
        let active = before.active_version->0@;
        let i = choose|i: int| 0 <= i < was.len() && #[trigger] was[i].name@ == active;
        a_name_finds_its_version(was, i);
        a_name_finds_its_version(now, i);
        if i != index {
            assert(now[i] == was.update(index, now[index])[i]);
            if was[index].name@ == active {
                if i < index {
                    assert(lowercase(was[i].name@) != lowercase(was[index].name@));
                } else {
                    assert(lowercase(was[index].name@) != lowercase(was[i].name@));
                }
            }
        }
    }
}

proof fn place_of_more(versions: Seq<NamedVersion>, count: int, wanted: Seq<char>)
    requires
        0 <= count <= versions.len(),
        place_of(versions.take(count), wanted) is Some,
    ensures
        place_of(versions, wanted) == place_of(versions.take(count), wanted),
    decreases versions.len() - count,
{
    if count < versions.len() {
        assert(versions.take(count + 1).drop_last() =~= versions.take(count));
        place_of_more(versions, count + 1, wanted);
    } else {
        assert(versions.take(count) =~= versions);
    }
}

/// `after` is `before` with its working state kept under a new name.
pub open spec fn saved(after: Sidecar, before: Sidecar, name: Seq<char>) -> bool {
    let n = before.versions@.len();
    &&& after.version == before.version
    &&& after.edit == before.edit
    &&& after.crop == before.crop
    &&& after.versions@.len() == n + 1
    &&& after.versions@.drop_last() == before.versions@
    &&& after.versions@[n as int].name@ == trimmed(name)
    &&& after.versions@[n as int].edit.copy_of(before.edit)
    &&& after.versions@[n as int].crop == before.crop
    &&& named(after.active_version) == Some(trimmed(name))
}

/// Equality of sidecars is symmetric and transitive.
pub proof fn equal_sidecars(a: Sidecar, b: Sidecar, c: Sidecar)
    ensures
        a.equals(b) ==> b.equals(a),
        a.equals(b) && b.equals(c) ==> a.equals(c),
{
    equal_edits(a.edit, b.edit, c.edit);
    if a.equals(b) {
        assert forall|i: int| 0 <= i < b.versions@.len() implies (
        #[trigger] b.versions@[i]).equals(a.versions@[i]) by {
            assert(a.versions@[i].equals(b.versions@[i]));
            equal_edits(a.versions@[i].edit, b.versions@[i].edit, b.versions@[i].edit);
        }
        if b.equals(c) {
            assert forall|i: int| 0 <= i < a.versions@.len() implies (
            #[trigger] a.versions@[i]).equals(c.versions@[i]) by {
                assert(b.versions@[i].equals(c.versions@[i]));
                equal_edits(a.versions@[i].edit, b.versions@[i].edit, c.versions@[i].edit);
            }
        }
    }
}

/// A copy of a sidecar that equals itself equals it and itself.
pub proof fn a_copy_equals_the_sidecar(copy: Sidecar, sidecar: Sidecar)
    requires
        copy.copy_of(sidecar),
        sidecar.equals(sidecar),
    ensures
        sidecar.equals(copy),
        copy.equals(copy),
{
    a_copy_compares_as_the_edit(copy.edit, sidecar.edit, sidecar.edit);
    a_copy_compares_as_the_edit(copy.edit, sidecar.edit, copy.edit);
    assert forall|i: int| 0 <= i < sidecar.versions@.len() implies {
        &&& (#[trigger] sidecar.versions@[i]).equals(copy.versions@[i])
        &&& copy.versions@[i].equals(copy.versions@[i])
    } by {
        let (one, other) = (copy.versions@[i], sidecar.versions@[i]);
        assert(one.copy_of(other));
        assert(other.equals(other));
        a_copy_compares_as_the_edit(one.edit, other.edit, other.edit);
        a_copy_compares_as_the_edit(one.edit, other.edit, one.edit);
    }
}

/// Unsaved work shows: with an active version the working state is unsaved
/// when its edit or its crop is not the version's, and only then; without one
/// nothing is unsaved.
pub proof fn unsaved_work_shows(sidecar: Sidecar, index: int)
    requires
        0 <= index < sidecar.versions@.len(),
        sidecar.active_place() == Some(index),
    ensures
        sidecar.dirty() <==> !sidecar.versions@[index].edit.equals(sidecar.edit)
            || !sidecar.versions@[index].crop.equals(sidecar.crop),
        sidecar.active_version is Some,
{
}

/// Without an active version there is nothing to be behind.
pub proof fn without_a_version_nothing_is_unsaved(sidecar: Sidecar)
    requires
        sidecar.active_version is None,
    ensures
        !sidecar.dirty(),
        sidecar.active_place() is None,
{
}

/// White space around a name and its case make no difference to what it
/// finds.
pub proof fn a_name_is_found_without_its_white_space(versions: Seq<NamedVersion>, name: Seq<char>)
    ensures
        place_of(versions, key(trimmed(name))) == place_of(versions, key(name)),
        key(name) == lowercase(trimmed(name)),
{
    trimmed_twice(name);
}

/// A save keeps every version there was, adds the working state at the end
/// under the name and makes it the active one; the working state stays.
pub proof fn a_save_adds_the_working_state(
    after: Sidecar,
    before: Sidecar,
    name: Seq<char>,
    i: int,
)
    requires
        saved(after, before, name),
        0 <= i < before.versions@.len(),
    ensures
        after.versions@.len() == before.versions@.len() + 1,
        after.versions@[i] == before.versions@[i],
        after.versions@.last().name@ == trimmed(name),
        after.versions@.last().edit.copy_of(before.edit),
        after.versions@.last().crop == before.crop,
        after.active_version is Some && after.active_version->0@ == trimmed(name),
        after.edit == before.edit,
        after.crop == before.crop,
{
    assert(after.versions@.drop_last()[i] == before.versions@[i]);
}

/// An update writes the working state into the version of that name, under
/// the name it has, and leaves every other version.
pub proof fn an_update_writes_into_one_version(
    after: Sidecar,
    before: Sidecar,
    name: Seq<char>,
    i: int,
)
    requires
        updated(after, before, name),
        0 <= i < before.versions@.len(),
    ensures
        after.versions@.len() == before.versions@.len(),
        place_of(before.versions@, key(name)) != Some(i) ==> after.versions@[i]
            == before.versions@[i],
        place_of(before.versions@, key(name)) == Some(i) ==> {
            &&& after.versions@[i].name@ == before.versions@[i].name@
            &&& after.versions@[i].edit.copy_of(before.edit)
            &&& after.versions@[i].crop == before.crop
            &&& after.active_version is Some && after.active_version->0@
                == before.versions@[i].name@
        },
        after.edit == before.edit,
        after.crop == before.crop,
{
    place_is_the_first(before.versions@, key(name));
    let index = place_of(before.versions@, key(name))->0;
    assert(after.versions@[i] == before.versions@.update(index, after.versions@[index])[i]);
}

/// A switch brings the version of that name into the working state, makes it
/// the active one and writes into no version.
pub proof fn a_switch_writes_into_no_version(
    after: Sidecar,
    before: Sidecar,
    name: Seq<char>,
    i: int,
)
    requires
        switched(after, before, name),
        place_of(before.versions@, key(name)) == Some(i),
    ensures
        after.versions@ == before.versions@,
        after.edit.copy_of(before.versions@[i].edit),
        after.crop == before.versions@[i].crop,
        after.active_version is Some && after.active_version->0@ == before.versions@[i].name@,
{
}

/// A rename changes one name: the version keeps what it holds, every other
/// version stays, the working state stays, and the active version stays active
/// under its new name.
pub proof fn a_rename_changes_one_name(
    after: Sidecar,
    before: Sidecar,
    name: Seq<char>,
    new_name: Seq<char>,
    i: int,
)
    requires
        renamed(after, before, name, new_name),
        0 <= i < before.versions@.len(),
    ensures
        after.versions@.len() == before.versions@.len(),
        place_of(before.versions@, key(name)) != Some(i) ==> after.versions@[i]
            == before.versions@[i],
        place_of(before.versions@, key(name)) == Some(i) ==> {
            &&& after.versions@[i].name@ == trimmed(new_name)
            &&& after.versions@[i].edit == before.versions@[i].edit
            &&& after.versions@[i].crop == before.versions@[i].crop
            &&& before.active_version is Some && before.active_version->0@
                == before.versions@[i].name@ ==> after.active_version is Some
                && after.active_version->0@ == trimmed(new_name)
            &&& before.active_version is Some && before.active_version->0@
                != before.versions@[i].name@ ==> after.active_version is Some
                && after.active_version->0@ == before.active_version->0@
        },
        before.active_version is None ==> after.active_version is None,
        trimmed(new_name).len() > 0,
        after.edit == before.edit,
        after.crop == before.crop,
{
    place_is_the_first(before.versions@, key(name));
    let index = place_of(before.versions@, key(name))->0;
    assert(after.versions@[i] == before.versions@.update(index, after.versions@[index])[i]);
}

/// A deletion takes one version away and leaves the others in their order;
/// the working state stays, and no version is active any more when the active
/// one went.
pub proof fn a_deletion_takes_one_version_away(
    after: Sidecar,
    before: Sidecar,
    name: Seq<char>,
    index: int,
    i: int,
)
    requires
        deleted(after, before, name),
        place_of(before.versions@, key(name)) == Some(index),
        0 <= index < before.versions@.len(),
        0 <= i < before.versions@.len(),
        i != index,
    ensures
        after.versions@.len() == before.versions@.len() - 1,
        i < index ==> after.versions@[i] == before.versions@[i],
        i > index ==> after.versions@[i - 1] == before.versions@[i],
        before.active_version is Some && before.active_version->0@
            == before.versions@[index].name@ ==> after.active_version is None,
        before.active_version is Some && before.active_version->0@
            != before.versions@[index].name@ ==> after.active_version is Some
            && after.active_version->0@ == before.active_version->0@,
        before.active_version is None ==> after.active_version is None,
        after.edit == before.edit,
        after.crop == before.crop,
{
}

/// Equal sidecars agree in the working state, in the active version and in
/// every version.
pub proof fn equal_sidecars_agree(a: Sidecar, b: Sidecar, i: int)
    requires
        a.equals(b),
        0 <= i < a.versions@.len(),
    ensures
        a.version == b.version,
        a.edit.equals(b.edit),
        a.crop.equals(b.crop),
        a.versions@.len() == b.versions@.len(),
        a.versions@[i].name@ == b.versions@[i].name@,
        a.versions@[i].edit.equals(b.versions@[i].edit),
        a.versions@[i].crop.equals(b.versions@[i].crop),
        a.active_version is Some <==> b.active_version is Some,
        a.active_version is Some ==> a.active_version->0@ == b.active_version->0@,
{
    assert(a.versions@[i].equals(b.versions@[i]));
}

/// A copy of a sidecar has everything of it to the bit.
pub proof fn a_copied_sidecar_is_the_sidecar(a: Sidecar, b: Sidecar, i: int)
    requires
        a.copy_of(b),
        0 <= i < b.versions@.len(),
    ensures
        a.version == b.version,
        a.edit.copy_of(b.edit),
        a.crop == b.crop,
        a.versions@.len() == b.versions@.len(),
        a.versions@[i].name@ == b.versions@[i].name@,
        a.versions@[i].edit.copy_of(b.versions@[i].edit),
        a.versions@[i].crop == b.versions@[i].crop,
        a.active_version is Some <==> b.active_version is Some,
        a.active_version is Some ==> a.active_version->0@ == b.active_version->0@,
{
    assert(a.versions@[i].copy_of(b.versions@[i]));
}

/// Sidecars that agree in the working state, the versions and the active one
/// are equal.
pub proof fn sidecars_that_agree_are_equal(a: Sidecar, b: Sidecar)
    requires
        a.version == b.version,
        a.edit.equals(b.edit),
        a.crop.equals(b.crop),
        a.versions@.len() == b.versions@.len(),
        forall|i: int|
            0 <= i < a.versions@.len() ==> (#[trigger] a.versions@[i]).name@ == b.versions@[i].name@
                && a.versions@[i].edit.equals(b.versions@[i].edit) && a.versions@[i].crop.equals(
                b.versions@[i].crop,
            ),
        a.active_version is None <==> b.active_version is None,
        a.active_version is Some && b.active_version is Some ==> a.active_version->0@
            == b.active_version->0@,
    ensures
        a.equals(b),
{
}

/// A name that no version has, whatever the case of its letters and the white
/// space around it, can be saved under and renamed to; one that a version has
/// finds that version.
pub proof fn a_name_is_free_when_no_version_has_it(versions: Seq<NamedVersion>, name: Seq<char>)
    ensures
        (forall|i: int|
            0 <= i < versions.len() ==> lowercase((#[trigger] versions[i]).name@) != lowercase(
                trimmed(name),
            )) <==> place_of(versions, key(name)) is None,
{
    place_is_the_first(versions, key(name));
}

} // verus!
