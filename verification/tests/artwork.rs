use playa::artwork::{
    copy_local_target, delete_image, delete_unused_images, download_image, select_unused,
    sweep_artworks, ArtworkCandidate, ArtworkError, DeleteStatus,
};
use playa::paths::{join_path, path_extension};

fn candidate(name: &str, mime: Option<&str>, is_file: bool) -> ArtworkCandidate {
    ArtworkCandidate {
        filename: name.to_string(),
        pathname: format!("/data/artworks/{}", name),
        mime: mime.map(|s| s.to_string()),
        is_file,
    }
}

#[test]
fn sweep_removes_unkept_images_only() {
    // a.png is kept, b.jpg is an unkept image, c.txt is not an image: the
    // sweep picks b.jpg alone.
    let cands = vec![
        candidate("a.png", Some("image/png"), true),
        candidate("b.jpg", Some("image/jpeg"), true),
        candidate("c.txt", None, true),
    ];
    let keep = vec!["a.png".to_string()];
    let picked = select_unused(&cands, &keep);
    assert_eq!(picked, vec![1]);
}

#[test]
fn sweep_ignores_directories_and_unsniffable_files() {
    let cands = vec![
        candidate("subdir", Some("image/png"), false),
        candidate("broken.png", None, true),
        candidate("loose.webp", Some("image/webp"), true),
    ];
    let picked = select_unused(&cands, &vec![]);
    assert_eq!(picked, vec![2]);
}

#[test]
fn sweep_with_everything_kept_picks_nothing() {
    let cands = vec![
        candidate("a.png", Some("image/png"), true),
        candidate("b.gif", Some("image/gif"), true),
    ];
    let keep = vec!["a.png".to_string(), "b.gif".to_string()];
    let picked = select_unused(&cands, &keep);
    assert!(picked.is_empty());
}

#[test]
fn local_copy_takes_the_source_extension() {
    assert_eq!(copy_local_target("/pics/photo.jpeg", "cover"), Some("cover.jpeg".to_string()));
    assert_eq!(copy_local_target("relative.png", "backdrop"), Some("backdrop.png".to_string()));
    assert_eq!(copy_local_target("/pics/no_extension", "cover"), None);
    assert_eq!(copy_local_target("/pics/.hidden", "cover"), None);
    assert_eq!(copy_local_target("/pics/trailing.", "cover"), None);
}

#[test]
fn path_extension_reads_the_final_component() {
    assert_eq!(path_extension("/a/b/c.txt"), Some("txt".to_string()));
    assert_eq!(path_extension("archive.tar.gz"), Some("gz".to_string()));
    assert_eq!(path_extension("/dotted.dir/plain"), None);
    assert_eq!(path_extension(""), None);
    assert_eq!(path_extension("/a/b/"), None);
}

#[test]
fn join_path_inserts_one_separator() {
    assert_eq!(join_path("/data/artworks", "cover.png"), "/data/artworks/cover.png");
}

#[test]
fn deleting_nothing_succeeds_trivially() {
    let r = delete_image("/data/artworks", None);
    assert!(matches!(r, DeleteStatus::NothingToDelete));
    assert_eq!(r.message(), "Nothing to delete");
}

#[test]
fn deleting_a_missing_asset_reports_the_trash_failure() {
    // The round trip's second half: deleting targets exactly
    // `<dir>/<filename>`; with no such file the trash refuses, and the
    // refusal is reported, not raised.
    let r = delete_image("/no/such/artworks/dir", Some("cover.png"));
    match r {
        DeleteStatus::TrashFailed(m) => assert!(!m.is_empty()),
        DeleteStatus::Deleted => panic!("deleted a file that does not exist"),
        DeleteStatus::NothingToDelete => panic!("a filename was given"),
    }
}

#[test]
fn download_with_an_invalid_url_reports_a_fetch_error() {
    let r = download_image("/data/artworks", "not a url at all", "cover");
    match r {
        Err(ArtworkError::Fetch(m)) => assert!(!m.is_empty()),
        _ => panic!("fetching an invalid url did not fail as a fetch error"),
    }
}

#[test]
fn error_messages_match_the_front_end_strings() {
    assert_eq!(ArtworkError::UnsupportedFormat.message(), "Invalid image format");
    assert_eq!(ArtworkError::Fetch("boom".to_string()).message(), "boom");
}

#[test]
fn sweeping_nothing_deletes_nothing() {
    let outcome = sweep_artworks(&vec![], &vec![]);
    assert_eq!(outcome.deleted, 0);
    assert!(outcome.warning.is_none());
    let kept = vec![candidate("a.png", Some("image/png"), true)];
    let outcome = sweep_artworks(&kept, &vec!["a.png".to_string()]);
    assert_eq!(outcome.deleted, 0);
    assert!(outcome.warning.is_none());
}

#[test]
fn sweep_reports_a_trash_refusal() {
    // The one sweepable candidate points at a file that does not exist, so
    // the trash refuses; the sweep reports it and counts no deletion.
    let cands = vec![candidate("ghost.png", Some("image/png"), true)];
    let outcome = sweep_artworks(&cands, &vec![]);
    assert_eq!(outcome.deleted, 0);
    assert!(outcome.warning.is_some());
}

#[test]
fn sweeping_a_missing_directory_fails() {
    let (r, _) = delete_unused_images("/no/such/artworks/dir", &vec![]);
    assert!(matches!(r, Err(ArtworkError::ReadDir(_))));
}
