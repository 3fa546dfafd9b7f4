use gamut::crop::{Crop, CropAspect, CropRect};
use gamut::project::{
    dir_of, for_video, rebase, relative_path, resolve_path, Project, VERSION,
};
use gamut::timeline::TICKS;

/// A path with one kind of separator: two that differ only in those are the
/// same path.
fn slashed(path: &str) -> String {
    path.replace('\\', "/")
}

#[test]
fn a_project_next_to_a_video_in_another_folder_resolves_back() {
    let project_dir = "C:/work/projects";
    let video = "C:/work/footage/day1/clip.mov";
    let mut project = Project::default();
    let index = project.add_media(project_dir, video);
    assert_eq!(project.media[index].path, "../footage/day1/clip.mov");
    let back = project.media_path(project_dir, index).expect("media");
    assert_eq!(slashed(&back), video);
    assert_eq!(project.add_media(project_dir, video), index);
    assert_eq!(project.media.len(), 1);
}

#[test]
fn relative_paths_cover_the_same_folder_a_subfolder_and_another_drive() {
    assert_eq!(relative_path("C:/a/b", "C:/a/b/c.mp4"), "c.mp4");
    assert_eq!(relative_path("C:/a/b", "C:/a/b/sub/c.mp4"), "sub/c.mp4");
    assert_eq!(relative_path("C:/a/b", "c:/A/x/c.mp4"), "../x/c.mp4");
    assert_eq!(relative_path("C:/a/b", "D:/x/c.mp4"), "D:/x/c.mp4");
    assert_eq!(slashed(&resolve_path("C:/a/b", "../x/c.mp4")), "C:/a/x/c.mp4");
    assert_eq!(slashed(&resolve_path("C:/a/b", "D:/x/c.mp4")), "D:/x/c.mp4");
}

#[test]
fn the_project_file_sits_next_to_the_video_with_its_full_name() {
    assert_eq!(
        slashed(&Project::path_for("C:/clips/IMG_0001.MOV")),
        "C:/clips/IMG_0001.MOV.gamut"
    );
    assert!(Project::is_project_path("a.GAMUT"));
    assert!(!Project::is_project_path("a.mp4"));
}

#[test]
fn the_extension_before_the_rebrand_is_not_a_project_path() {
    // In pieces so a scan of the repository for the old name stays empty.
    let old = ["clip.mp4.s", "late"].concat();
    assert!(!Project::is_project_path(&old));
}

#[test]
fn a_missing_media_has_no_path() {
    assert_eq!(Project::default().media_path("C:/a", 0), None);
    assert_eq!(Project::default().version, VERSION);
}

#[test]
fn a_rebased_project_finds_its_files_from_the_new_folder() {
    let mut project = Project::default();
    project.add_media("C:/work/a", "C:/work/footage/one.mov");
    project.add_media("C:/work/a", "D:/other/two.mov");
    rebase(&mut project, "C:/work/a", "C:/work/deep/b");
    assert_eq!(project.media[0].path, "../../footage/one.mov");
    assert_eq!(project.media[1].path, "D:/other/two.mov");
    let back = project.media_path("C:/work/deep/b", 0).expect("media");
    assert_eq!(slashed(&back), "C:/work/footage/one.mov");
}

#[test]
fn a_video_on_its_own_is_a_project_of_one_clip() {
    let crop = Crop {
        aspect: CropAspect::Story9x16,
        rect: CropRect::full(),
    };
    let loaded = for_video("C:/clips/a.mp4", 5 * TICKS, crop);
    assert_eq!(loaded.project.track.clips.len(), 1);
    assert_eq!(loaded.project.track.clips[0].source_out, 5 * TICKS);
    assert_eq!(loaded.project.media[0].path, "a.mp4");
    assert_eq!(slashed(&dir_of("C:/clips/a.mp4")), "C:/clips");
}

#[test]
fn a_clone_of_a_project_equals_it() {
    let loaded = gamut::project::for_video(
        "/films/a.mp4",
        gamut::timeline::TICKS,
        gamut::crop::Crop::default(),
    );
    assert_eq!(loaded, loaded.clone());
    let mut other = loaded.project.clone();
    assert_eq!(other, loaded.project);
    other.add_media("/films", "/films/b.mp4");
    assert_ne!(other, loaded.project);
    let mut cut = loaded.project.clone();
    cut.track.clips.clear();
    assert_ne!(cut, loaded.project);
}

#[test]
fn a_verbatim_path_is_taken_by_the_letter() {
    // Another share is another root.
    assert_eq!(
        relative_path(r"\\?\UNC\srv\one\a", r"\\?\UNC\srv\two\x.mp4"),
        "//?/UNC/srv/two/x.mp4"
    );
    assert_eq!(
        relative_path(r"\\?\UNC\srv\one\a", r"\\?\UNC\srv\one\x.mp4"),
        "../x.mp4"
    );
    // A drive walks up and down, and comes back verbatim.
    assert_eq!(
        relative_path(r"\\?\C:\a\b", r"\\?\C:\a\c\x.mp4"),
        "../c/x.mp4"
    );
    assert_eq!(
        resolve_path(r"\\?\C:\a\b", "../c/x.mp4"),
        r"\\?\C:\a\c\x.mp4"
    );
    // A slash is a character of a name and a dot is a part.
    assert_eq!(
        Project::path_for(r"\\?\C:\a/b\x.mp4"),
        r"\\?\C:\a/b\x.mp4.gamut"
    );
    assert_eq!(dir_of(r"\\?\C:\a\b/x.mp4"), r"\\?\C:\a");
    assert_eq!(
        relative_path(r"\\?\C:\a", r"\\?\C:\a\.\x.mp4"),
        "./x.mp4"
    );
    // In forward slashes it is a share of that name.
    assert_eq!(relative_path("//?/C:/a", "//?/C:/a/./x.mp4"), "x.mp4");
    // A device is a root of its own.
    assert_eq!(relative_path(r"\\.\ONE\a", r"\\.\TWO\x"), "//./TWO/x");
}

#[test]
fn a_name_with_a_colon_resolves_back() {
    let path = relative_path("C:/a/b", "C:/a/take:2/x.mp4");
    assert_eq!(path, "../take:2/x.mp4");
    assert_eq!(
        slashed(&resolve_path("C:/a/b", &path)),
        "C:/a/take:2/x.mp4"
    );
}

#[test]
fn a_dot_behind_a_drive_is_no_part() {
    assert_eq!(relative_path("C:", "C:./a.mp4"), "a.mp4");
    assert_eq!(relative_path("C:./x", "C:a.mp4"), "../a.mp4");
    assert_eq!(dir_of("C:./a.mp4"), "C:.");
    assert_eq!(dir_of("C:."), ".", "a drive has no parent");
    // At the very beginning it is one.
    assert_eq!(relative_path("./x", "./y/a.mp4"), "../y/a.mp4");
    assert_eq!(relative_path("x", "./a.mp4"), ".././a.mp4");
}
