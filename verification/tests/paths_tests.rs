use picview::paths::check_file_path;
use picview::paths::ends_with_ci;
use picview::paths::find_last_slash;
use picview::paths::has_image_extension;
use picview::paths::join_path;
use picview::paths::parent_dir;
use picview::paths::str_le;

#[test]
fn lexicographic_order_on_names() {
    assert!(str_le("a.jpg", "b.jpg"));
    assert!(!str_le("b.jpg", "a.jpg"));
    assert!(str_le("a.jpg", "a.jpg"));
    assert!(str_le("a", "a.jpg"));
    assert!(!str_le("a.jpg", "a"));
    assert!(str_le("", "anything"));
}

#[test]
fn case_insensitive_suffix() {
    assert!(ends_with_ci("photo.JPG", ".jpg"));
    assert!(ends_with_ci("photo.jpg", ".JPG"));
    assert!(ends_with_ci("photo.jpeg", ".jpeg"));
    assert!(!ends_with_ci("photo.jpeg", ".jpg"));
    assert!(!ends_with_ci("jpg", ".jpg"));
}

#[test]
fn recognized_image_extensions() {
    assert!(has_image_extension("a.jpg"));
    assert!(has_image_extension("b.PNG"));
    assert!(has_image_extension("c.Gif"));
    assert!(has_image_extension("d.webp"));
    assert!(!has_image_extension("notes.txt"));
    assert!(!has_image_extension("archive.tar"));
    assert!(!has_image_extension("jpg"));
}

#[test]
fn file_path_shape() {
    assert!(check_file_path(&"/a.jpg".to_string()));
    assert!(check_file_path(&"/pics/b.jpg".to_string()));
    assert!(!check_file_path(&"a.jpg".to_string()));
    assert!(!check_file_path(&"/pics/".to_string()));
    assert!(!check_file_path(&"".to_string()));
}

#[test]
fn last_slash_position() {
    assert_eq!(find_last_slash("/pics/b.jpg"), Some(5));
    assert_eq!(find_last_slash("/a.jpg"), Some(0));
    assert_eq!(find_last_slash("a.jpg"), None);
}

#[test]
fn parent_and_join_round_trip() {
    assert_eq!(parent_dir(&"/pics/b.jpg".to_string()), "/pics");
    assert_eq!(parent_dir(&"/a.jpg".to_string()), "/");
    assert_eq!(
        join_path(&"/pics".to_string(), &"b.jpg".to_string()),
        "/pics/b.jpg"
    );
    assert_eq!(join_path(&"/".to_string(), &"a.jpg".to_string()), "/a.jpg");
    let p = "/pics/nested/c.png".to_string();
    let joined = join_path(&parent_dir(&p), &"c.png".to_string());
    assert_eq!(joined, p);
}
