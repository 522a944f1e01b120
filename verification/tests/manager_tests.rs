use picview::ImageData;
use picview::LoadError;
use picview::playback_manager::LoadRequest;
use picview::playback_manager::PlaybackManager;
use picview::playback_manager::UpdateResult;

fn img(marker: u8) -> ImageData {
    ImageData {
        width: 1,
        height: 1,
        pixels: vec![marker, marker, marker, 255],
    }
}

fn names(list: &[&str]) -> Vec<String> {
    list.iter().map(|s| s.to_string()).collect()
}

/// A manager whose cache already holds the three images of `/pics`, so that
/// loads resolve as hits without touching any filesystem.
fn pics_manager() -> PlaybackManager {
    let mut m = PlaybackManager::new();
    m.cache.insert("/pics/a.jpg".to_string(), img(1));
    m.cache.insert("/pics/b.jpg".to_string(), img(2));
    m.cache.insert("/pics/c.jpg".to_string(), img(3));
    m
}

fn position_of_current(m: &PlaybackManager) -> Option<usize> {
    let p = m.current_path().unwrap();
    m.index.as_ref().unwrap().position_of(&p)
}

#[test]
fn browse_directory_forward_and_back() {
    let mut m = pics_manager();
    m.request_load(LoadRequest::LoadSpecific("/pics/b.jpg".to_string()));
    let r = m.update();
    match r {
        UpdateResult::NeedsDirectory(d) => {
            assert_eq!(d, "/pics");
            m.set_directory_listing(&d, Some(names(&["a.jpg", "b.jpg", "c.jpg"])));
        }
        _ => panic!("expected a directory listing request"),
    }
    assert!(matches!(m.update(), UpdateResult::Loaded));
    assert_eq!(m.current_path().unwrap(), "/pics/b.jpg");
    assert_eq!(position_of_current(&m), Some(1));
    assert_eq!(m.image_handle().unwrap().pixels[0], 2);

    m.request_load(LoadRequest::LoadNext);
    assert!(matches!(m.update(), UpdateResult::Loaded));
    assert_eq!(m.current_path().unwrap(), "/pics/c.jpg");
    assert_eq!(position_of_current(&m), Some(2));

    // At the last entry a further step is a no-op, not a wraparound.
    m.request_load(LoadRequest::LoadNext);
    assert!(matches!(m.update(), UpdateResult::NothingChanged));
    assert_eq!(m.current_path().unwrap(), "/pics/c.jpg");

    m.request_load(LoadRequest::LoadPrevious);
    assert!(matches!(m.update(), UpdateResult::Loaded));
    m.request_load(LoadRequest::LoadPrevious);
    assert!(matches!(m.update(), UpdateResult::Loaded));
    assert_eq!(m.current_path().unwrap(), "/pics/a.jpg");
    assert_eq!(position_of_current(&m), Some(0));
    assert_eq!(m.image_handle().unwrap().pixels[0], 1);

    // And at the first entry stepping back is a no-op too.
    m.request_load(LoadRequest::LoadPrevious);
    assert!(matches!(m.update(), UpdateResult::NothingChanged));
    assert_eq!(m.current_path().unwrap(), "/pics/a.jpg");
}

#[test]
fn missing_file_fails_and_display_is_kept() {
    let mut m = pics_manager();
    m.request_load(LoadRequest::LoadSpecific("/pics/b.jpg".to_string()));
    if let UpdateResult::NeedsDirectory(d) = m.update() {
        m.set_directory_listing(&d, Some(names(&["a.jpg", "b.jpg", "c.jpg"])));
    }
    assert!(matches!(m.update(), UpdateResult::Loaded));

    m.request_load(LoadRequest::LoadSpecific("/missing.jpg".to_string()));
    let r = m.update();
    match r {
        UpdateResult::NeedsDirectory(d) => {
            assert_eq!(d, "/");
            m.set_directory_listing(&d, Some(names(&[])));
        }
        _ => panic!("expected a directory listing request"),
    }
    let r = m.update();
    assert!(matches!(r, UpdateResult::Failed(LoadError::NotFound)));
    // The displayed image is unchanged by the failed navigation.
    assert_eq!(m.current_path().unwrap(), "/pics/b.jpg");
    assert_eq!(m.image_handle().unwrap().pixels[0], 2);
}

#[test]
fn missing_file_with_nothing_displayed() {
    let mut m = PlaybackManager::new();
    m.request_load(LoadRequest::LoadSpecific("/missing.jpg".to_string()));
    if let UpdateResult::NeedsDirectory(d) = m.update() {
        m.set_directory_listing(&d, Some(names(&[])));
    } else {
        panic!("expected a directory listing request");
    }
    assert!(matches!(
        m.update(),
        UpdateResult::Failed(LoadError::NotFound)
    ));
    assert!(m.current_path().is_none());
    assert!(m.image_handle().is_none());
}

#[test]
fn second_request_before_a_tick_wins() {
    let mut m = pics_manager();
    m.set_directory_listing(&"/pics".to_string(), Some(names(&["a.jpg", "b.jpg", "c.jpg"])));
    m.request_load(LoadRequest::LoadSpecific("/pics/a.jpg".to_string()));
    m.request_load(LoadRequest::LoadSpecific("/pics/c.jpg".to_string()));
    assert!(matches!(m.update(), UpdateResult::Loaded));
    // Only the later request was performed; the earlier one left no trace.
    assert_eq!(m.current_path().unwrap(), "/pics/c.jpg");
    assert!(matches!(m.update(), UpdateResult::NothingChanged));
    assert_eq!(m.current_path().unwrap(), "/pics/c.jpg");
}

#[test]
fn unlistable_directory_fails_once_with_unreadable() {
    let mut m = PlaybackManager::new();
    m.request_load(LoadRequest::LoadSpecific("/locked/a.jpg".to_string()));
    match m.update() {
        UpdateResult::NeedsDirectory(d) => {
            assert_eq!(d, "/locked");
            m.set_directory_listing(&d, None);
        }
        _ => panic!("expected a directory listing request"),
    }
    assert!(matches!(
        m.update(),
        UpdateResult::Failed(LoadError::Unreadable)
    ));
    // The failure was surfaced once; the next tick has nothing pending.
    assert!(matches!(m.update(), UpdateResult::NothingChanged));
}

#[test]
fn needs_directory_keeps_the_request_pending() {
    let mut m = PlaybackManager::new();
    m.request_load(LoadRequest::LoadSpecific("/x/a.jpg".to_string()));
    assert!(matches!(m.update(), UpdateResult::NeedsDirectory(_)));
    assert!(!m.should_sleep());
}

#[test]
fn pathless_name_is_not_found() {
    let mut m = PlaybackManager::new();
    m.request_load(LoadRequest::LoadSpecific("nameonly".to_string()));
    assert!(matches!(
        m.update(),
        UpdateResult::Failed(LoadError::NotFound)
    ));
}

#[test]
fn navigation_without_an_index_is_a_no_op() {
    let mut m = pics_manager();
    m.request_load(LoadRequest::LoadNext);
    assert!(matches!(m.update(), UpdateResult::NothingChanged));
    assert!(m.current_path().is_none());
}

#[test]
fn sleep_signal_follows_pending_work() {
    let mut m = PlaybackManager::new();
    assert!(m.should_sleep());
    m.request_load(LoadRequest::LoadNext);
    assert!(!m.should_sleep());
    m.update();
    assert!(m.should_sleep());
}

#[test]
fn small_cache_still_browses_correctly() {
    let mut m = PlaybackManager::with_cache_capacity(1);
    m.cache.insert("/pics/a.jpg".to_string(), img(1));
    m.cache.insert("/pics/b.jpg".to_string(), img(2));
    assert_eq!(m.cache.len(), 1);
    m.set_directory_listing(&"/pics".to_string(), Some(names(&["a.jpg", "b.jpg"])));
    m.request_load(LoadRequest::LoadSpecific("/pics/b.jpg".to_string()));
    assert!(matches!(m.update(), UpdateResult::Loaded));
    let handle = m.image_handle().unwrap();
    // Evicting the displayed entry from the cache must not invalidate the
    // published handle.
    m.cache.insert("/pics/z.jpg".to_string(), img(9));
    assert_eq!(handle.pixels[0], 2);
    assert_eq!(m.image_handle().unwrap().pixels[0], 2);
}
