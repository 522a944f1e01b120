use picview::ImageData;
use picview::LoadError;
use picview::image_cache::ImageCache;

fn img(marker: u8) -> ImageData {
    ImageData {
        width: 1,
        height: 1,
        pixels: vec![marker, marker, marker, 255],
    }
}

#[test]
fn insert_and_hit_return_identical_content() {
    let mut c = ImageCache::with_capacity(4);
    c.insert("/pics/a.jpg".to_string(), img(7));
    let first = c.get_or_load(&"/pics/a.jpg".to_string()).unwrap();
    let second = c.get_or_load(&"/pics/a.jpg".to_string()).unwrap();
    assert_eq!(first.pixels, second.pixels);
    assert_eq!(first.pixels[0], 7);
    assert_eq!(c.len(), 1);
}

#[test]
fn capacity_is_never_exceeded() {
    let mut c = ImageCache::with_capacity(2);
    c.insert("/p/a.jpg".to_string(), img(1));
    c.insert("/p/b.jpg".to_string(), img(2));
    c.insert("/p/c.jpg".to_string(), img(3));
    assert_eq!(c.len(), 2);
}

#[test]
fn eviction_removes_exactly_the_least_recently_used() {
    let mut c = ImageCache::with_capacity(2);
    c.insert("/p/a.jpg".to_string(), img(1));
    c.insert("/p/b.jpg".to_string(), img(2));
    // Touch a, making b the least recently used entry.
    let _ = c.get_or_load(&"/p/a.jpg".to_string()).unwrap();
    c.insert("/p/c.jpg".to_string(), img(3));
    assert_eq!(c.len(), 2);
    assert_eq!(c.entries[0].path, "/p/a.jpg");
    assert_eq!(c.entries[1].path, "/p/c.jpg");
}

#[test]
fn reinserting_a_cached_path_keeps_the_stored_content() {
    let mut c = ImageCache::with_capacity(2);
    c.insert("/p/a.jpg".to_string(), img(1));
    c.insert("/p/a.jpg".to_string(), img(9));
    assert_eq!(c.len(), 1);
    let h = c.get_or_load(&"/p/a.jpg".to_string()).unwrap();
    assert_eq!(h.pixels[0], 1);
}

#[test]
fn evicted_handle_stays_valid() {
    let mut c = ImageCache::with_capacity(1);
    c.insert("/p/a.jpg".to_string(), img(4));
    let h = c.get_or_load(&"/p/a.jpg".to_string()).unwrap();
    c.insert("/p/b.jpg".to_string(), img(5));
    assert_eq!(c.len(), 1);
    assert_eq!(c.entries[0].path, "/p/b.jpg");
    // The handle taken before the eviction still refers to its content.
    assert_eq!(h.pixels[0], 4);
}

#[test]
fn non_image_file_fails_with_decode_error() {
    let mut c = ImageCache::with_capacity(2);
    let r = c.get_or_load(&"/etc/passwd".to_string());
    match r {
        Err(LoadError::Decode { path, cause }) => {
            assert_eq!(path, "/etc/passwd");
            assert!(!cause.is_empty());
        }
        _ => panic!("expected a decode failure"),
    }
    assert_eq!(c.len(), 0);
}

#[test]
fn failed_load_leaves_cache_untouched() {
    let mut c = ImageCache::with_capacity(2);
    c.insert("/p/a.jpg".to_string(), img(1));
    let r = c.get_or_load(&"/no/such/directory/anywhere.png".to_string());
    assert!(matches!(r, Err(LoadError::NotFound)));
    assert_eq!(c.len(), 1);
    assert_eq!(c.entries[0].path, "/p/a.jpg");
    let h = c.get_or_load(&"/p/a.jpg".to_string()).unwrap();
    assert_eq!(h.pixels[0], 1);
}
