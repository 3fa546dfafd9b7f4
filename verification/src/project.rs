//! The project: the media list, the one track, the crop and the edit of a
//! video. Media paths are written relative to the folder the project file is
//! in, with forward slashes, so a project folder moves as a whole.

use crate::crop::Crop;
use crate::edit::PhotoEdit;
use crate::path::{
    absolute, beside, beside_spec, body, body_is_inside, components, extension_spec, firm,
    has_drive, has_extension, has_no_sep, has_share, head, is_absolute, name_end, names_are_names,
    names_of_a_name, parent, parent_drops_the_last_part, parent_keeps_the_head, parent_spec,
    part_of, part_views, parts_of, parts_of_path, pieces, plain, popped, prefix_len, push, pushed,
    pushing_a_plain_name_adds_a_part, shows_root, splits, verbatim, verbatim_drive,
    verbatim_share, written_names_read_back, Part, PartKind, PartView,
};
use crate::text::{
    ascii_lowercase, chars, is, join, joined, same_ignoring_ascii_case, text_of, texts,
};
use crate::timeline::{Clip, Track};
use vstd::prelude::*;
use vstd::string::*;

verus! {

/// The project format version this build writes.
pub const VERSION: u32 = 1;

pub open spec fn extension_text() -> Seq<char> {
    "gamut"@
}

/// The extension of a project file.
pub fn extension() -> (r: &'static str)
    ensures
        r@ == extension_text(),
{
    "gamut"
}

/// One media file the track refers to.
#[derive(Debug, PartialEq, Eq)]
pub struct MediaRef {
    /// The path relative to the project file's folder, with forward
    /// slashes; an absolute path when the file is on another drive.
    pub path: String,
}

impl Clone for MediaRef {
    fn clone(&self) -> (r: Self)
        ensures
            r.path@ == self.path@,
    {
        MediaRef { path: self.path.clone() }
    }
}

impl Default for MediaRef {
    fn default() -> (r: Self)
        ensures
            r.path@.len() == 0,
    {
        MediaRef { path: String::new() }
    }
}

/// The paths of a media list.
pub open spec fn media_paths(media: Seq<MediaRef>) -> Seq<Seq<char>> {
    media.map_values(|m: MediaRef| m.path@)
}

/// The saved state of a video project.
#[derive(Debug)]
pub struct Project {
    pub version: u32,
    pub media: Vec<MediaRef>,
    pub track: Track,
    pub crop: Crop,
    pub edit: PhotoEdit,
}

impl Default for Project {
    fn default() -> (r: Self)
        ensures
            r.version == VERSION,
            r.media@.len() == 0,
            r.track.clips@.len() == 0,
            r.crop == Crop::default_spec(),
            r.edit.adjust.at_rest(),
            r.edit.masks@.len() == 0,
    {
        Project {
            version: VERSION,
            media: Vec::new(),
            track: Track::default(),
            crop: Crop::default(),
            edit: PhotoEdit::default(),
        }
    }
}

impl Project {
    /// The same project to the bit.
    pub open spec fn copy_of(self, other: Project) -> bool {
        &&& self.version == other.version
        &&& media_paths(self.media@) == media_paths(other.media@)
        &&& self.track.clips@ == other.track.clips@
        &&& self.crop == other.crop
        &&& self.edit.copy_of(other.edit)
    }

    pub open spec fn equals(self, other: Project) -> bool {
        &&& self.version == other.version
        &&& media_paths(self.media@) == media_paths(other.media@)
        &&& self.track.clips@ == other.track.clips@
        &&& self.crop.equals(other.crop)
        &&& self.edit.equals(other.edit)
    }
}

impl Clone for Project {
    fn clone(&self) -> (r: Self)
        ensures
            r.copy_of(*self),
    {
        let mut media: Vec<MediaRef> = Vec::new();
        let mut i: usize = 0;
        while i < self.media.len()
            invariant
                0 <= i <= self.media@.len(),
                media@.len() == i,
                forall|k: int| 0 <= k < i ==> media@[k].path@ == self.media@[k].path@,
            decreases self.media.len() - i,
        {
            let one: MediaRef = self.media[i].clone();
            media.push(one);
            i += 1;
        }
        assert(media_paths(media@) =~= media_paths(self.media@));
        Project {
            version: self.version,
            media,
            track: self.track.clone(),
            crop: self.crop,
            edit: self.edit.clone(),
        }
    }
}

impl PartialEq for Project {
    fn eq(&self, other: &Self) -> (r: bool) {
        if self.version != other.version || self.media.len() != other.media.len() || self.track
            != other.track || self.crop != other.crop || self.edit != other.edit {
            assert(media_paths(self.media@).len() == self.media@.len());
            assert(media_paths(other.media@).len() == other.media@.len());
            return false;
        }
        let mut i: usize = 0;
        while i < self.media.len()
            invariant
                0 <= i <= self.media@.len() == other.media@.len(),
                forall|k: int| 0 <= k < i ==> self.media@[k].path@ == other.media@[k].path@,
            decreases self.media.len() - i,
        {
            if self.media[i].path != other.media[i].path {
                assert(media_paths(self.media@)[i as int] != media_paths(other.media@)[i as int]);
                return false;
            }
            i += 1;
        }
        assert(media_paths(self.media@) =~= media_paths(other.media@));
        true
    }
}

impl vstd::std_specs::cmp::PartialEqSpecImpl for Project {
    open spec fn obeys_eq_spec() -> bool {
        true
    }

    open spec fn eq_spec(&self, other: &Self) -> bool {
        self.equals(*other)
    }
}

/// The first place in a list of paths where one stands.
pub open spec fn path_place(paths: Seq<Seq<char>>, path: Seq<char>) -> Option<int>
    decreases paths.len(),
{
    if paths.len() == 0 {
        None
    } else {
        match path_place(paths.drop_last(), path) {
            Some(index) => Some(index),
            None => if paths.last() == path {
                Some(paths.len() - 1)
            } else {
                None
            },
        }
    }
}

proof fn path_place_of_more(paths: Seq<Seq<char>>, count: int, path: Seq<char>)
    requires
        0 <= count <= paths.len(),
        path_place(paths.take(count), path) is Some,
    ensures
        path_place(paths, path) == path_place(paths.take(count), path),
    decreases paths.len() - count,
{
    if count < paths.len() {
        assert(paths.take(count + 1).drop_last() =~= paths.take(count));
        path_place_of_more(paths, count + 1, path);
    } else {
        assert(paths.take(count) =~= paths);
    }
}

impl Project {
    /// The project file for a video opened on its own: the video's full
    /// file name plus `.gamut`, next to the video.
    pub fn path_for(video: &str) -> (r: String)
        ensures
            r@ == beside_spec(video@, ".gamut"@),
    {
        beside(video, ".gamut")
    }

    /// Whether a path has the project extension.
    pub fn is_project_path(path: &str) -> (r: bool)
        ensures
            r == (extension_spec(path@) matches Some(found) && ascii_lowercase(found)
                == ascii_lowercase(extension_text())),
    {
        has_extension(path, extension())
    }

    /// Adds a media file, written relative to `project_dir`, and returns
    /// its index. A file already in the list keeps its index.
    pub fn add_media(&mut self, project_dir: &str, media: &str) -> (r: usize)
        ensures
            final(self).version == old(self).version,
            final(self).track == old(self).track,
            final(self).crop == old(self).crop,
            final(self).edit == old(self).edit,
            ({
                let path = relative_spec(project_dir@, media@);
                match path_place(media_paths(old(self).media@), path) {
                    Some(index) => r == index && final(self).media == old(self).media,
                    None => {
                        &&& r == old(self).media@.len()
                        &&& media_paths(final(self).media@) == media_paths(old(self).media@).push(
                            path,
                        )
                    },
                }
            }),
            r < final(self).media@.len(),
            final(self).media@[r as int].path@ == relative_spec(project_dir@, media@),
    {
        let path: String = relative_path(project_dir, media);
        let ghost paths = media_paths(self.media@);
        let mut i: usize = 0;
        while i < self.media.len()
            invariant
                0 <= i <= self.media@.len(),
                paths == media_paths(self.media@),
                *self == *old(self),
                path@ == relative_spec(project_dir@, media@),
                path_place(paths.take(i as int), path@) is None,
            decreases self.media.len() - i,
        {
            assert(paths.take(i + 1).drop_last() =~= paths.take(i as int));
            assert(paths.take(i + 1).last() == self.media@[i as int].path@);
            if self.media[i].path == path {
                proof {
                    path_place_of_more(paths, i + 1, path@);
                }
                return i;
            }
            i += 1;
        }
        assert(paths.take(i as int) =~= paths);
        let media: MediaRef = MediaRef { path };
        self.media.push(media);
        assert(media_paths(self.media@) =~= paths.push(media.path@));
        self.media.len() - 1
    }

    /// The absolute path of the media at `index` for a project in
    /// `project_dir`.
    pub fn media_path(&self, project_dir: &str, index: usize) -> (r: Option<String>)
        ensures
            match r {
                Some(path) => index < self.media@.len() && path@ == resolved(
                    project_dir@,
                    self.media@[index as int].path@,
                ),
                None => index >= self.media@.len(),
            },
    {
        if index < self.media.len() {
            Some(resolve_path(project_dir, self.media[index].path.as_str()))
        } else {
            None
        }
    }
}

/// Whether two paths start on the same drive or share, or both on none.
pub open spec fn same_root(from: Seq<PartView>, to: Seq<PartView>) -> bool {
    let a = from.len() > 0 && from[0].kind == PartKind::Prefix;
    let b = to.len() > 0 && to[0].kind == PartKind::Prefix;
    if a && b {
        ascii_lowercase(from[0].text) == ascii_lowercase(to[0].text)
    } else {
        !a && !b
    }
}

/// How many parts two paths share at their start; case does not count.
pub open spec fn shared(from: Seq<PartView>, to: Seq<PartView>) -> nat
    decreases from.len(),
{
    if from.len() > 0 && to.len() > 0 && ascii_lowercase(from[0].text) == ascii_lowercase(
        to[0].text,
    ) {
        1 + shared(from.drop_first(), to.drop_first())
    } else {
        0
    }
}

/// The texts of parts.
pub open spec fn part_texts(parts: Seq<PartView>) -> Seq<Seq<char>> {
    parts.map_values(|p: PartView| p.text)
}

/// So many steps up.
pub open spec fn climbed(count: nat) -> Seq<Seq<char>> {
    Seq::new(count, |i: int| seq!['.', '.'])
}

/// The way from one folder to a file: up to where the two diverge, then down.
pub open spec fn way(from: Seq<PartView>, to: Seq<PartView>) -> Seq<Seq<char>> {
    let common = shared(from, to);
    climbed((from.len() - common) as nat) + part_texts(to.skip(common as int))
}

/// The text with forward slashes.
pub open spec fn slashed(path: Seq<char>) -> Seq<char> {
    path.map_values(
        |c: char|
            if c == '\\' {
                '/'
            } else {
                c
            },
    )
}

/// A file written relative to a folder.
pub open spec fn relative_spec(from_dir: Seq<char>, to_file: Seq<char>) -> Seq<char> {
    let (from, to) = (components(from_dir), components(to_file));
    if !same_root(from, to) {
        slashed(to_file)
    } else if way(from, to).len() == 0 {
        seq!['.']
    } else {
        joined(way(from, to), seq!['/'])
    }
}

/// A path after one part of a relative one.
pub open spec fn stepped(s: Seq<char>, part: PartView) -> Seq<char> {
    match part.kind {
        PartKind::Parent => popped(s),
        PartKind::Current => s,
        _ => pushed(s, part.text),
    }
}

/// A path after the parts of a relative one.
pub open spec fn walked(s: Seq<char>, parts: Seq<PartView>) -> Seq<char>
    decreases parts.len(),
{
    if parts.len() == 0 {
        s
    } else {
        stepped(walked(s, parts.drop_last()), parts.last())
    }
}

/// A path of a project file as a path of its own.
pub open spec fn resolved(project_dir: Seq<char>, relative: Seq<char>) -> Seq<char> {
    if absolute(relative) {
        relative
    } else {
        walked(project_dir, components(relative))
    }
}

fn same_text(a: &Part, b: &Part) -> (r: bool)
    ensures
        r == (ascii_lowercase(a@.text) == ascii_lowercase(b@.text)),
{
    let (a, b): (Vec<char>, Vec<char>) = (chars(a.text.as_str()), chars(b.text.as_str()));
    same_ignoring_ascii_case(&a, &b)
}

/// `to_file` written relative to `from_dir` with forward slashes, walking
/// up with `..` where the two diverge. Both paths are taken as given, so a
/// caller passes absolute paths. When they share no root (another drive)
/// the file's own path comes back with forward slashes.
pub fn relative_path(from_dir: &str, to_file: &str) -> (r: String)
    ensures
        r@ == relative_spec(from_dir@, to_file@),
{
    let from: Vec<Part> = parts_of_path(from_dir);
    let to: Vec<Part> = parts_of_path(to_file);
    let ghost (a, b) = (components(from_dir@), components(to_file@));
    proof {
        assert(a.len() == from@.len() && b.len() == to@.len());
        if a.len() > 0 {
            assert(a[0] == from@[0]@);
        }
        if b.len() > 0 {
            assert(b[0] == to@[0]@);
        }
    }
    let from_prefix: bool = from.len() > 0 && from[0].kind == PartKind::Prefix;
    let to_prefix: bool = to.len() > 0 && to[0].kind == PartKind::Prefix;
    let one_root: bool = if from_prefix && to_prefix {
        same_text(&from[0], &to[0])
    } else {
        !from_prefix && !to_prefix
    };
    if !one_root {
        return slashes(to_file);
    }
    let mut common: usize = 0;
    assert(a.skip(0) =~= a && b.skip(0) =~= b);
    while common < from.len() && common < to.len() && same_text(&from[common], &to[common])
        invariant
            common <= from@.len() == a.len(),
            common <= to@.len() == b.len(),
            a == part_views(from@),
            b == part_views(to@),
            shared(a, b) == common + shared(a.skip(common as int), b.skip(common as int)),
        decreases from.len() - common,
    {
        proof {
            assert(a.skip(common as int)[0] == from@[common as int]@);
            assert(b.skip(common as int)[0] == to@[common as int]@);
            assert(a.skip(common as int).drop_first() =~= a.skip(common + 1));
            assert(b.skip(common as int).drop_first() =~= b.skip(common + 1));
        }
        common += 1;
    }
    proof {
        if common < a.len() && common < b.len() {
            assert(a.skip(common as int)[0] == from@[common as int]@);
            assert(b.skip(common as int)[0] == to@[common as int]@);
        }
        assert(shared(a, b) == common);
    }
    let mut parts: Vec<String> = Vec::new();
    let mut i: usize = common;
    while i < from.len()
        invariant
            common <= i <= from@.len(),
            texts(parts@) == climbed((i - common) as nat),
        decreases from.len() - i,
    {
        let ghost before = parts@;
        let up: String = "..".to_owned();
        proof {
            reveal_strlit("..");
            assert(up@ =~= seq!['.', '.']);
        }
        parts.push(up);
        i += 1;
        assert(texts(parts@) =~= texts(before).push(up@));
        assert(climbed((i - common) as nat) =~= climbed((i - 1 - common) as nat).push(
            seq!['.', '.'],
        ));
    }
    let ghost ups = texts(parts@);
    let mut i: usize = common;
    assert(b.subrange(common as int, common as int) =~= Seq::empty());
    while i < to.len()
        invariant
            common <= i <= to@.len() == b.len(),
            b == part_views(to@),
            texts(parts@) == ups + part_texts(b.subrange(common as int, i as int)),
        decreases to.len() - i,
    {
        let ghost before = parts@;
        let name: String = to[i].text.clone();
        parts.push(name);
        i += 1;
        proof {
            assert(b[i - 1] == to@[i - 1]@);
            assert(texts(parts@) =~= texts(before).push(name@));
            assert(part_texts(b.subrange(common as int, i as int)) =~= part_texts(
                b.subrange(common as int, i - 1),
            ).push(name@));
            assert(texts(parts@) =~= ups + part_texts(b.subrange(common as int, i as int)));
        }
    }
    proof {
        assert(b.subrange(common as int, i as int) =~= b.skip(common as int));
        assert(texts(parts@) == way(a, b));
        assert(texts(parts@).len() == parts@.len());
        reveal_strlit(".");
        reveal_strlit("/");
        assert("."@ =~= seq!['.']);
        assert("/"@ =~= seq!['/']);
    }
    if parts.len() == 0 {
        return ".".to_owned();
    }
    join(&parts, "/")
}

/// A media path from a project file back to an absolute path.
pub fn resolve_path(project_dir: &str, relative: &str) -> (r: String)
    ensures
        r@ == resolved(project_dir@, relative@),
{
    if is_absolute(relative) {
        return relative.to_owned();
    }
    let parts: Vec<Part> = parts_of_path(relative);
    let ghost all = components(relative@);
    let mut out: String = project_dir.to_owned();
    let mut i: usize = 0;
    while i < parts.len()
        invariant
            0 <= i <= parts@.len(),
            all == part_views(parts@),
            out@ == walked(project_dir@, all.take(i as int)),
        decreases parts.len() - i,
    {
        assert(all.take(i + 1).drop_last() =~= all.take(i as int));
        assert(all.take(i + 1).last() == parts@[i as int]@);
        match parts[i].kind {
            PartKind::Parent => {
                if let Some(up) = parent(out.as_str()) {
                    out = up;
                }
            },
            PartKind::Current => {},
            _ => {
                out = push(out.as_str(), parts[i].text.as_str());
            },
        }
        i += 1;
    }
    assert(all.take(i as int) =~= all);
    out
}

fn slashes(path: &str) -> (r: String)
    ensures
        r@ == slashed(path@),
{
    let all: Vec<char> = chars(path);
    let mut out: Vec<char> = Vec::new();
    let mut i: usize = 0;
    while i < all.len()
        invariant
            0 <= i <= all@.len(),
            out@ == slashed(all@.take(i as int)),
        decreases all.len() - i,
    {
        out.push(
            if all[i] == '\\' {
                '/'
            } else {
                all[i]
            },
        );
        i += 1;
        assert(out@ =~= slashed(all@.take(i as int)));
    }
    assert(all@.take(i as int) =~= all@);
    assert(out@.subrange(0, out@.len() as int) =~= out@);
    text_of(&out, 0, out.len())
}

/// Rewrites the media paths for a project file in `new_dir`.
pub fn rebase(project: &mut Project, old_dir: &str, new_dir: &str)
    ensures
        final(project).version == old(project).version,
        final(project).track == old(project).track,
        final(project).crop == old(project).crop,
        final(project).edit == old(project).edit,
        final(project).media@.len() == old(project).media@.len(),
        forall|i: int|
            0 <= i < old(project).media@.len() ==> (#[trigger] final(project).media@[i]).path@
                == relative_spec(new_dir@, resolved(old_dir@, old(project).media@[i].path@)),
{
    let mut media: Vec<MediaRef> = Vec::new();
    let mut i: usize = 0;
    while i < project.media.len()
        invariant
            0 <= i <= project.media@.len(),
            media@.len() == i,
            *project == *old(project),
            forall|k: int|
                0 <= k < i ==> (#[trigger] media@[k]).path@ == relative_spec(
                    new_dir@,
                    resolved(old_dir@, project.media@[k].path@),
                ),
        decreases project.media.len() - i,
    {
        let place: String = resolve_path(old_dir, project.media[i].path.as_str());
        media.push(MediaRef { path: relative_path(new_dir, place.as_str()) });
        i += 1;
    }
    project.media = media;
}

/// The folder a project file is in; the path is absolute where it could be
/// made so.
pub fn dir_of(path: &str) -> (r: String)
    ensures
        match parent_spec(path@) {
            Some(folder) => r@ == folder,
            None => r@ == "."@,
        },
{
    match parent(path) {
        Some(folder) => folder,
        None => ".".to_owned(),
    }
}

/// A project file with the folder its media paths are relative to.
#[derive(Debug)]
pub struct LoadedProject {
    pub path: String,
    pub dir: String,
    pub project: Project,
}

impl Clone for LoadedProject {
    fn clone(&self) -> (r: Self)
        ensures
            r.path@ == self.path@,
            r.dir@ == self.dir@,
            r.project.copy_of(self.project),
    {
        LoadedProject {
            path: self.path.clone(),
            dir: self.dir.clone(),
            project: self.project.clone(),
        }
    }
}

impl PartialEq for LoadedProject {
    fn eq(&self, other: &Self) -> (r: bool) {
        self.path == other.path && self.dir == other.dir && self.project == other.project
    }
}

impl vstd::std_specs::cmp::PartialEqSpecImpl for LoadedProject {
    open spec fn obeys_eq_spec() -> bool {
        true
    }

    open spec fn eq_spec(&self, other: &Self) -> bool {
        &&& self.path@ == other.path@
        &&& self.dir@ == other.dir@
        &&& self.project.equals(other.project)
    }
}

/// A new project for one video: the whole clip on the track, saved next to
/// the video as `<name>.gamut`. `video` is absolute where it could be made
/// so, and `crop` is the story crop fitted to the picture.
pub fn for_video(video: &str, duration: i64, crop: Crop) -> (r: LoadedProject)
    ensures
        r.path@ == beside_spec(video@, ".gamut"@),
        match parent_spec(r.path@) {
            Some(folder) => r.dir@ == folder,
            None => r.dir@ == "."@,
        },
        media_paths(r.project.media@) == seq![relative_spec(r.dir@, video@)],
        r.project.track.clips@.len() == 1,
        r.project.track.clips@[0].media == 0,
        r.project.track.clips@[0].source_in == 0,
        r.project.track.clips@[0].source_out == if duration > 0 {
            duration
        } else {
            0
        },
        r.project.crop == crop,
        r.project.version == VERSION,
        r.project.edit.adjust.at_rest(),
        r.project.edit.masks@.len() == 0,
{
    let path: String = Project::path_for(video);
    let dir: String = dir_of(path.as_str());
    let mut project: Project = Project::default();
    assert(media_paths(project.media@) =~= Seq::empty());
    let index: usize = project.add_media(dir.as_str(), video);
    assert(media_paths(project.media@) =~= seq![relative_spec(dir@, video@)]);
    project.track = Track::one(Clip::whole(index, duration));
    project.crop = crop;
    LoadedProject { path, dir, project }
}

/// The parts of two paths have the same texts; case does not count.
pub open spec fn same_texts(a: Seq<PartView>, b: Seq<PartView>) -> bool {
    a.len() == b.len() && forall|i: int|
        0 <= i < a.len() ==> ascii_lowercase((#[trigger] a[i]).text) == ascii_lowercase(b[i].text)
}

/// Whether the parts from one on are plain names: they lead down, and stand
/// for themselves where they are written.
pub open spec fn leads_down(parts: Seq<PartView>, from: int) -> bool {
    forall|i: int|
        from <= i < parts.len() ==> (#[trigger] parts[i]).kind == PartKind::Normal && plain(
            parts[i].text,
        )
}

/// Whether a file can be written relative to a folder and found again: both
/// are absolute and start at the same root, written in both or in neither,
/// and the names that lead down to the file from where the two diverge are
/// plain and stay apart from the prefix.
pub open spec fn reachable(dir: Seq<char>, file: Seq<char>) -> bool {
    let common = shared(components(dir), components(file)) as int;
    &&& absolute(dir) && absolute(file)
    &&& same_root(components(dir), components(file))
    &&& shows_root(dir) == shows_root(file)
    &&& leads_down(components(file), common)
    &&& common < components(file).len() ==> firm(dir)
}

proof fn shared_is_inside(from: Seq<PartView>, to: Seq<PartView>)
    ensures
        shared(from, to) <= from.len(),
        shared(from, to) <= to.len(),
        forall|i: int|
            0 <= i < shared(from, to) ==> ascii_lowercase((#[trigger] from[i]).text)
                == ascii_lowercase(to[i].text),
    decreases from.len(),
{
    if from.len() > 0 && to.len() > 0 && ascii_lowercase(from[0].text) == ascii_lowercase(
        to[0].text,
    ) {
        shared_is_inside(from.drop_first(), to.drop_first());
        assert forall|i: int| 0 <= i < shared(from, to) implies ascii_lowercase(
            (#[trigger] from[i]).text,
        ) == ascii_lowercase(to[i].text) by {
            if i > 0 {
                assert(from.drop_first()[i - 1] == from[i]);
                assert(to.drop_first()[i - 1] == to[i]);
            }
        }
    }
}

proof fn shared_goes_on(from: Seq<PartView>, to: Seq<PartView>, count: int)
    requires
        0 <= count <= from.len(),
        count <= to.len(),
        forall|i: int|
            0 <= i < count ==> ascii_lowercase((#[trigger] from[i]).text) == ascii_lowercase(
                to[i].text,
            ),
    ensures
        shared(from, to) == count + shared(from.skip(count), to.skip(count)),
    decreases count,
{
    if count == 0 {
        assert(from.skip(0) =~= from && to.skip(0) =~= to);
    } else {
        let (a, b) = (from.drop_first(), to.drop_first());
        assert(ascii_lowercase(from[0].text) == ascii_lowercase(to[0].text));
        assert forall|i: int| 0 <= i < count - 1 implies ascii_lowercase((#[trigger] a[i]).text)
            == ascii_lowercase(b[i].text) by {
            assert(a[i] == from[i + 1] && b[i] == to[i + 1]);
        }
        shared_goes_on(a, b, count - 1);
        assert(a.skip(count - 1) =~= from.skip(count));
        assert(b.skip(count - 1) =~= to.skip(count));
    }
}

/// An absolute path starts with its prefix and its root, and neither comes
/// again. Where the root is not written there is nothing behind the prefix.
proof fn parts_of_an_absolute_path(path: Seq<char>)
    requires
        absolute(path),
    ensures
        components(path)[0].kind == PartKind::Prefix,
        shows_root(path) ==> components(path).len() >= 2 && components(path)[1] == (PartView {
            kind: PartKind::Root,
            text: seq!['\\'],
        }),
        !shows_root(path) ==> components(path).len() == 1,
        forall|i: int|
            2 <= i < components(path).len() ==> (#[trigger] components(path)[i]).kind
                != PartKind::Prefix && components(path)[i].kind != PartKind::Root,
{
    body_is_inside(path);
    names_are_names(path.skip(body(path)), verbatim(path));
    if shows_root(path) {
        assert(head(path).len() == 2);
    } else {
        assert(body(path) == path.len());
        assert(path.skip(body(path)) =~= Seq::empty());
        assert(has_no_sep(Seq::<char>::empty(), verbatim(path)));
        names_of_a_name(Seq::<char>::empty(), verbatim(path));
        assert(head(path).len() == 1);
    }
}

/// Two paths that start at the same root share at least the prefix and the
/// root.
proof fn the_root_is_shared(from: Seq<PartView>, to: Seq<PartView>)
    requires
        from.len() >= 2,
        to.len() >= 2,
        from[0].kind == PartKind::Prefix,
        to[0].kind == PartKind::Prefix,
        same_root(from, to),
        from[1] == to[1],
    ensures
        shared(from, to) >= 2,
{
    assert forall|i: int| 0 <= i < 2 implies ascii_lowercase((#[trigger] from[i]).text)
        == ascii_lowercase(to[i].text) by {
        if i == 1 {
            assert(from[1] == to[1]);
        }
    }
    shared_goes_on(from, to, 2);
}

/// After `count` parts of the way from a folder to a file.
proof fn the_way_leads_there(dir: Seq<char>, file: Seq<char>, parts: Seq<PartView>, count: int)
    requires
        reachable(dir, file),
        shows_root(dir),
        parts == way_parts(components(dir), components(file)),
        0 <= count <= parts.len(),
    ensures
        absolute(walked(dir, parts.take(count))),
        shows_root(walked(dir, parts.take(count))),
        firm(walked(dir, parts.take(count))) == firm(dir),
        ({
            let (from, to) = (components(dir), components(file));
            let common = shared(from, to) as int;
            let ups = from.len() - common;
            components(walked(dir, parts.take(count))) == if count <= ups {
                from.take(from.len() - count)
            } else {
                from.take(common) + to.subrange(common, common + count - ups)
            }
        }),
    decreases count,
{
    let (from, to) = (components(dir), components(file));
    parts_of_an_absolute_path(dir);
    parts_of_an_absolute_path(file);
    shared_is_inside(from, to);
    let common = shared(from, to) as int;
    the_root_is_shared(from, to);
    let ups = from.len() - common;
    if count == 0 {
        assert(parts.take(0) =~= Seq::empty());
        assert(from.take(from.len() as int) =~= from);
    } else {
        the_way_leads_there(dir, file, parts, count - 1);
        let before = walked(dir, parts.take(count - 1));
        assert(parts.take(count).drop_last() =~= parts.take(count - 1));
        assert(parts.take(count).last() == parts[count - 1]);
        if count <= ups {
            assert(parts[count - 1].kind == PartKind::Parent);
            let now = from.take(from.len() - (count - 1));
            parent_drops_the_last_part(before);
            parent_keeps_the_head(before);
            if parent_spec(before) is None {
                let last = components(before)[components(before).len() - 1];
                assert(last == from[from.len() - count]);
                assert(false);
            }
            assert(now.drop_last() =~= from.take(from.len() - count));
        } else {
            let at = common + (count - 1 - ups);
            assert(parts[count - 1] == to[at]);
            assert(to[at].kind == PartKind::Normal && plain(to[at].text));
            pushing_a_plain_name_adds_a_part(before, to[at].text);
            if count - 1 == ups {
                assert(from.take(common) + to.subrange(common, common) =~= from.take(common));
            }
            assert(to.subrange(common, at + 1) =~= to.subrange(common, at).push(to[at]));
            assert((from.take(common) + to.subrange(common, at)).push(to[at]) =~= from.take(common)
                + to.subrange(common, at + 1));
        }
    }
}

/// The parts of the way from a folder to a file.
spec fn way_parts(from: Seq<PartView>, to: Seq<PartView>) -> Seq<PartView> {
    let common = shared(from, to);
    Seq::new(
        (from.len() - common) as nat,
        |i: int| PartView { kind: PartKind::Parent, text: seq!['.', '.'] },
    ) + to.skip(common as int)
}

/// A file written relative to a folder of the same drive resolves back to
/// the file: the parts of the folder it shares, which are the file's own but
/// for the case of their letters, and the file's parts behind them.
pub proof fn a_relative_path_resolves_back(dir: Seq<char>, file: Seq<char>)
    requires
        reachable(dir, file),
    ensures
        ({
            let common = shared(components(dir), components(file)) as int;
            components(resolved(dir, relative_spec(dir, file))) == components(dir).take(common)
                + components(file).skip(common)
        }),
        same_texts(components(resolved(dir, relative_spec(dir, file))), components(file)),
        absolute(resolved(dir, relative_spec(dir, file))),
{
    let (from, to) = (components(dir), components(file));
    shared_is_inside(from, to);
    parts_of_an_absolute_path(dir);
    parts_of_an_absolute_path(file);
    let common = shared(from, to) as int;
    if shows_root(dir) {
        the_root_is_shared(from, to);
    } else {
        shared_goes_on(from, to, 1);
    }
    let parts = way_parts(from, to);
    let texts = way(from, to);
    let rel = relative_spec(dir, file);
    assert(texts.len() == parts.len());
    if texts.len() == 0 {
        the_folder_itself();
        assert(walked(dir, components(rel)) == dir) by {
            let one = components(rel);
            assert(one.drop_last() =~= Seq::empty());
            assert(walked(dir, one.drop_last()) == dir);
        }
        assert(from.take(common) + to.skip(common) =~= from);
    } else {
        assert forall|i: int| 0 <= i < texts.len() implies plain(#[trigger] texts[i]) || texts[i]
            == seq!['.', '.'] by {
            let ups = from.len() - common;
            if i >= ups {
                assert(texts[i] == to[common + i - ups].text);
            }
        }
        written_names_read_back(texts, rel);
        assert(components(rel) =~= parts) by {
            assert forall|i: int| 0 <= i < texts.len() implies part_of(
                #[trigger] texts[i],
                false,
            )[0] == parts[i] by {
                let ups = from.len() - common;
                if i >= ups {
                    let part = to[common + i - ups];
                    assert(texts[i] == part.text);
                    assert(part.kind == PartKind::Normal && plain(part.text));
                } else {
                    assert(texts[i] == seq!['.', '.']);
                    assert(texts[i].len() == 2);
                    assert(texts[i] != seq!['.']) by {
                        assert(seq!['.'].len() == 1);
                    }
                }
            }
        }
        the_way_leads_there(dir, file, parts, parts.len() as int);
        assert(parts.take(parts.len() as int) =~= parts);
        let ups = from.len() - common;
        if parts.len() == ups {
            assert(from.take(common) + to.skip(common) =~= from.take(common));
        } else {
            assert(to.subrange(common, common + parts.len() - ups) =~= to.skip(common));
        }
    }
    let there = from.take(common) + to.skip(common);
    assert forall|i: int| 0 <= i < there.len() implies ascii_lowercase((#[trigger] there[i]).text)
        == ascii_lowercase(to[i].text) by {
        if i < common {
            assert(there[i] == from[i]);
        } else {
            assert(there[i] == to[i]);
        }
    }
}

/// The folder itself is written as a dot, which leads nowhere.
proof fn the_folder_itself()
    ensures
        !absolute(seq!['.']),
        components(seq!['.']) == seq![PartView { kind: PartKind::Current, text: seq!['.'] }],
{
    let dot = seq!['.'];
    assert(prefix_len(dot) == 0);
    assert(body(dot) == 0);
    assert(dot.skip(0) =~= dot);
    names_of_a_name(dot, false);
    assert(components(dot) =~= seq![PartView { kind: PartKind::Current, text: seq!['.'] }]);
}

/// Whether no forward slash stands in a text.
pub open spec fn has_no_slash(t: Seq<char>) -> bool {
    forall|i: int| 0 <= i < t.len() ==> #[trigger] t[i] != '/'
}

proof fn slashed_keeps_the_pieces(t: Seq<char>, v: bool)
    requires
        v ==> has_no_slash(t),
    ensures
        pieces(slashed(t), false) == pieces(t, v),
    decreases t.len(),
{
    if t.len() > 0 {
        let rest = t.drop_last();
        if v {
            assert(t[t.len() - 1] != '/');
            assert forall|i: int| 0 <= i < rest.len() implies #[trigger] rest[i] != '/' by {
                assert(rest[i] == t[i]);
            }
        }
        slashed_keeps_the_pieces(rest, v);
        assert(slashed(t).drop_last() =~= slashed(rest));
    } else {
        assert(slashed(t) =~= t);
    }
}

proof fn slashed_keeps_the_name_ends(s: Seq<char>, from: int, v: bool)
    requires
        v ==> has_no_slash(s),
    ensures
        name_end(slashed(s), from, false) == name_end(s, from, v),
    decreases s.len() - from,
{
    if 0 <= from < s.len() {
        if v {
            assert(s[from] != '/');
        }
        if !splits(s[from], v) {
            slashed_keeps_the_name_ends(s, from + 1, v);
        }
    }
}

/// The parts of pieces without a `.` are the same in a verbatim path and in
/// any other.
proof fn parts_without_dots(list: Seq<Seq<char>>)
    requires
        forall|i: int|
            0 <= i < parts_of(list, true).len() ==> (#[trigger] parts_of(list, true)[i]).kind
                != PartKind::Current,
    ensures
        parts_of(list, false) == parts_of(list, true),
    decreases list.len(),
{
    if list.len() > 0 {
        let rest = list.drop_last();
        let n = parts_of(rest, true).len();
        let last = part_of(list.last(), true);
        assert forall|i: int| 0 <= i < n implies (#[trigger] parts_of(rest, true)[i]).kind
            != PartKind::Current by {
            assert(parts_of(list, true)[i] == parts_of(rest, true)[i]);
        }
        parts_without_dots(rest);
        if last.len() > 0 {
            assert(parts_of(list, true)[n as int] == last[0]);
        }
    }
}

/// Whether a path reads alike in forward slashes. A verbatim one does where
/// it starts with a drive or a name, shows its root, and holds neither a
/// slash nor a `.` as a part: in forward slashes it is not verbatim any more.
pub open spec fn reads_alike_slashed(path: Seq<char>) -> bool {
    verbatim(path) ==> {
        &&& !verbatim_share(path)
        &&& prefix_len(path) > 4
        &&& shows_root(path)
        &&& has_no_slash(path)
        &&& forall|i: int|
            0 <= i < components(path).len() ==> (#[trigger] components(path)[i]).kind
                != PartKind::Current
    }
}

/// A file on another drive is written whole, and resolves back to itself from
/// any folder: the same parts, the prefix with forward slashes.
pub proof fn a_file_on_another_drive_resolves_back(dir: Seq<char>, file: Seq<char>)
    requires
        absolute(file),
        reads_alike_slashed(file),
        !same_root(components(dir), components(file)),
    ensures
        resolved(dir, relative_spec(dir, file)) == slashed(file),
        absolute(slashed(file)),
        components(slashed(file)).len() == components(file).len(),
        components(slashed(file))[0].text == slashed(components(file)[0].text),
        components(slashed(file)).skip(1) == components(file).skip(1),
{
    let s = slashed(file);
    let v = verbatim(file);
    let t = file.skip(body(file));
    body_is_inside(file);
    assert(has_drive(s) == has_drive(file));
    assert(!verbatim(s));
    if v {
        a_slashed_verbatim_prefix(file);
        assert forall|i: int| 0 <= i < t.len() implies #[trigger] t[i] != '/' by {
            assert(t[i] == file[body(file) + i]);
        }
        let list = pieces(t, true);
        assert forall|i: int| 0 <= i < parts_of(list, true).len() implies (#[trigger] parts_of(
            list,
            true,
        )[i]).kind != PartKind::Current by {
            assert(components(file)[head(file).len() + i] == parts_of(list, true)[i]);
        }
        parts_without_dots(list);
    } else {
        slashed_keeps_the_name_ends(file, 2, false);
        slashed_keeps_the_name_ends(file, name_end(file, 2, false) + 1, false);
        assert(has_share(s) == has_share(file));
        assert(prefix_len(s) == prefix_len(file));
    }
    assert(body(s) == body(file));
    assert(s.skip(body(s)) =~= slashed(t));
    slashed_keeps_the_pieces(t, v);
    assert(s.take(prefix_len(s)) =~= slashed(file.take(prefix_len(file))));
    assert(components(s).skip(1) =~= components(file).skip(1));
}

/// The prefix of a verbatim path in forward slashes is a share of the same
/// length.
proof fn a_slashed_verbatim_prefix(file: Seq<char>)
    requires
        verbatim(file),
        !verbatim_share(file),
        prefix_len(file) > 4,
        has_no_slash(file),
    ensures
        prefix_len(slashed(file)) == prefix_len(file),
        !verbatim(slashed(file)),
        !has_drive(slashed(file)),
{
    let s = slashed(file);
    body_is_inside(file);
    assert(s[0] == '/' && s[1] == '/' && s[2] == '?' && s[3] == '/');
    assert(name_end(s, 3, false) == 3);
    assert(name_end(s, 2, false) == 3);
    slashed_keeps_the_name_ends(file, 4, true);
    if verbatim_drive(file) {
        assert(file[4] != '/' && file[5] != '/');
        assert(!splits(file[4], true) && !splits(file[5], true));
        if file.len() > 6 {
            assert(file[6] != '/');
        }
        assert(name_end(file, 6, true) == 6);
        assert(name_end(file, 5, true) == 6);
        assert(name_end(file, 4, true) == 6);
    }
}

/// A project folder moves as a whole: the path of a file relative to the
/// project depends only on what lies under a folder that holds both.
pub proof fn a_project_folder_moves_as_a_whole(
    dir: Seq<char>,
    file: Seq<char>,
    moved_dir: Seq<char>,
    moved_file: Seq<char>,
    depth: int,
    moved_depth: int,
)
    requires
        same_root(components(dir), components(file)),
        same_root(components(moved_dir), components(moved_file)),
        0 <= depth <= components(dir).len(),
        depth <= components(file).len(),
        0 <= moved_depth <= components(moved_dir).len(),
        moved_depth <= components(moved_file).len(),
        same_texts(components(dir).take(depth), components(file).take(depth)),
        same_texts(
            components(moved_dir).take(moved_depth),
            components(moved_file).take(moved_depth),
        ),
        components(dir).skip(depth) == components(moved_dir).skip(moved_depth),
        components(file).skip(depth) == components(moved_file).skip(moved_depth),
    ensures
        relative_spec(dir, file) == relative_spec(moved_dir, moved_file),
{
    let (from, to) = (components(dir), components(file));
    let (moved_from, moved_to) = (components(moved_dir), components(moved_file));
    assert forall|i: int| 0 <= i < depth implies ascii_lowercase((#[trigger] from[i]).text)
        == ascii_lowercase(to[i].text) by {
        assert(from.take(depth)[i] == from[i] && to.take(depth)[i] == to[i]);
    }
    assert forall|i: int| 0 <= i < moved_depth implies ascii_lowercase(
        (#[trigger] moved_from[i]).text,
    ) == ascii_lowercase(moved_to[i].text) by {
        assert(moved_from.take(moved_depth)[i] == moved_from[i] && moved_to.take(moved_depth)[i]
            == moved_to[i]);
    }
    shared_goes_on(from, to, depth);
    shared_goes_on(moved_from, moved_to, moved_depth);
    let rest = shared(from.skip(depth), to.skip(depth)) as int;
    shared_is_inside(from.skip(depth), to.skip(depth));
    assert(to.skip(depth + rest) =~= to.skip(depth).skip(rest));
    assert(moved_to.skip(moved_depth + rest) =~= moved_to.skip(moved_depth).skip(rest));
    assert(from.len() - depth == moved_from.len() - moved_depth) by {
        assert(from.skip(depth).len() == moved_from.skip(moved_depth).len());
    }
}

/// A media path rewritten for another folder leads to the same file: from a
/// folder of the same drive to the parts of the file, case aside.
pub proof fn a_rebased_path_leads_to_the_same_file(
    old_dir: Seq<char>,
    new_dir: Seq<char>,
    path: Seq<char>,
)
    requires
        reachable(new_dir, resolved(old_dir, path)),
    ensures
        same_texts(
            components(resolved(new_dir, relative_spec(new_dir, resolved(old_dir, path)))),
            components(resolved(old_dir, path)),
        ),
{
    a_relative_path_resolves_back(new_dir, resolved(old_dir, path));
}

/// Two paths share their parts up to where they diverge: the parts before it
/// are the same but for the case of their letters, and the next ones differ,
/// unless one of the paths ends there.
pub proof fn two_paths_share_up_to_where_they_diverge(from: Seq<PartView>, to: Seq<PartView>, i: int)
    ensures
        shared(from, to) <= from.len() && shared(from, to) <= to.len(),
        0 <= i < shared(from, to) ==> ascii_lowercase(from[i].text) == ascii_lowercase(to[i].text),
        shared(from, to) < from.len() && shared(from, to) < to.len() ==> ascii_lowercase(
            from[shared(from, to) as int].text,
        ) != ascii_lowercase(to[shared(from, to) as int].text),
    decreases from.len(),
{
    if from.len() > 0 && to.len() > 0 && ascii_lowercase(from[0].text) == ascii_lowercase(
        to[0].text,
    ) {
        two_paths_share_up_to_where_they_diverge(from.drop_first(), to.drop_first(), i - 1);
    }
}

/// The way from a folder to a file goes up once for each part of the folder
/// that is not the file's, and then down through the parts of the file that
/// are not the folder's.
pub proof fn the_way_goes_up_and_then_down(from: Seq<PartView>, to: Seq<PartView>, i: int)
    ensures
        way(from, to).len() == from.len() - shared(from, to) + to.len() - shared(from, to),
        0 <= i < from.len() - shared(from, to) ==> way(from, to)[i] == seq!['.', '.'],
        from.len() - shared(from, to) <= i < way(from, to).len() ==> way(from, to)[i] == to[shared(
            from,
            to,
        ) + i - (from.len() - shared(from, to))].text,
{
    shared_is_inside(from, to);
}

/// A file in the folder of a project is written by its name alone.
pub proof fn a_file_in_the_folder_is_written_by_its_name(dir: Seq<char>, name: Seq<char>)
    requires
        absolute(dir),
        shows_root(dir),
        firm(dir),
        plain(name),
    ensures
        relative_spec(dir, pushed(dir, name)) == name,
{
    pushing_a_plain_name_adds_a_part(dir, name);
    let (from, to) = (components(dir), components(pushed(dir, name)));
    assert(to == from.push(PartView { kind: PartKind::Normal, text: name }));
    shared_goes_on(from, to, from.len() as int);
    assert(from.skip(from.len() as int) =~= Seq::empty());
    assert(shared(from, to) == from.len());
    parts_of_an_absolute_path(dir);
    assert(same_root(from, to)) by {
        if from.len() > 0 {
            assert(to[0] == from[0]);
        } else {
            assert(to[0].kind == PartKind::Normal);
        }
    }
    assert(way(from, to) =~= seq![name]);
}

/// A path is found where it first stands in a list, and nowhere when it is
/// not there.
pub proof fn a_path_is_found_where_it_first_stands(paths: Seq<Seq<char>>, path: Seq<char>, i: int)
    ensures
        path_place(paths, path) matches Some(index) ==> 0 <= index < paths.len(),
        path_place(paths, path) matches Some(index) ==> paths[index] == path,
        path_place(paths, path) matches Some(index) ==> (0 <= i < index ==> paths[i] != path),
        path_place(paths, path) is None ==> (0 <= i < paths.len() ==> paths[i] != path),
    decreases paths.len(),
{
    if paths.len() > 0 {
        a_path_is_found_where_it_first_stands(paths.drop_last(), path, i);
        if 0 <= i < paths.len() - 1 {
            assert(paths.drop_last()[i] == paths[i]);
        }
    }
}

/// Two paths start at one root when their prefixes are the same but for the
/// case of their letters, or when neither has one.
pub proof fn one_root_is_one_prefix(from: Seq<PartView>, to: Seq<PartView>)
    requires
        from.len() > 0,
        to.len() > 0,
    ensures
        from[0].kind == PartKind::Prefix && to[0].kind == PartKind::Prefix ==> (same_root(from, to)
            <==> ascii_lowercase(from[0].text) == ascii_lowercase(to[0].text)),
        from[0].kind != PartKind::Prefix && to[0].kind != PartKind::Prefix ==> same_root(from, to),
        (from[0].kind == PartKind::Prefix) != (to[0].kind == PartKind::Prefix) ==> !same_root(
            from,
            to,
        ),
{
}

/// An absolute path of a project file stands for itself, and forward slashes
/// change nothing else of a path.
pub proof fn an_absolute_path_stands_for_itself(dir: Seq<char>, path: Seq<char>, i: int)
    requires
        0 <= i < path.len(),
    ensures
        absolute(path) ==> resolved(dir, path) == path,
        slashed(path).len() == path.len(),
        path[i] == '\\' ==> slashed(path)[i] == '/',
        path[i] != '\\' ==> slashed(path)[i] == path[i],
{
}

/// Equal projects agree in their media, their track, their crop and their
/// edit.
pub proof fn equal_projects_agree(a: Project, b: Project, i: int)
    requires
        a.equals(b),
        0 <= i < a.media@.len(),
    ensures
        a.version == b.version,
        a.media@.len() == b.media@.len(),
        a.media@[i].path@ == b.media@[i].path@,
        a.track.clips@ == b.track.clips@,
        a.crop.equals(b.crop),
        a.edit.equals(b.edit),
{
    assert(media_paths(a.media@)[i] == a.media@[i].path@);
    assert(media_paths(b.media@).len() == b.media@.len());
    assert(media_paths(b.media@)[i] == b.media@[i].path@);
}

/// A copy of a project holds what the project holds, to the bit.
pub proof fn a_copied_project_is_the_project(a: Project, b: Project, i: int)
    requires
        a.copy_of(b),
        0 <= i < b.media@.len(),
    ensures
        a.version == b.version,
        a.media@.len() == b.media@.len(),
        a.media@[i].path@ == b.media@[i].path@,
        a.track.clips@ == b.track.clips@,
        a.crop == b.crop,
        a.edit.copy_of(b.edit),
{
    assert(media_paths(a.media@).len() == a.media@.len());
    assert(media_paths(a.media@)[i] == a.media@[i].path@);
    assert(media_paths(b.media@)[i] == b.media@[i].path@);
}

} // verus!
