use desktop_entry_daemon::catalog::EntryCache;
use desktop_entry_daemon::icon::{classify_icon, IconPayload};
use desktop_entry_daemon::lifetime::Lifetime;
use desktop_entry_daemon::manager::{Contents, EntryManager, EntryManagerError};
use desktop_entry_daemon::validation::ValidationError;

const ENTRY: &str = "[Desktop Entry]\nType=Application\nName=Demo\nExec=demo\n";

fn manager() -> EntryManager {
    let (m, removal) = EntryManager::new(
        "/run/user/1000/ded/process".to_string(),
        "/home/u/.cache/ded/".to_string(),
        "/home/u/.config/ded/cache.ron".to_string(),
        None,
    );
    assert!(!removal.changed);
    m
}

fn text_of(c: &Contents) -> String {
    match c {
        Contents::Text(t) => t.clone(),
        Contents::Bytes(_) => panic!("expected text"),
    }
}

#[test]
fn directories_are_joined_under_the_roots() {
    let m = manager();
    assert_eq!(m.temp_entry_dir, "/run/user/1000/ded/process/applications");
    assert_eq!(m.temp_icon_dir, "/run/user/1000/ded/process/icons");
    assert_eq!(m.persistent_entry_dir, "/home/u/.cache/ded/applications");
    assert_eq!(m.persistent_icon_dir, "/home/u/.cache/ded/icons");
    assert_eq!(m.config_file, "/home/u/.config/ded/cache.ron");
}

#[test]
fn entry_is_stored_under_the_transient_root() {
    let mut m = manager();
    let f = m
        .register_entry(ENTRY, "org.demo.App", Lifetime::Process(7), false, false)
        .unwrap();
    assert_eq!(f.path, "/run/user/1000/ded/process/applications/org.demo.App.desktop");
    assert_eq!(text_of(&f.contents), ENTRY);
    assert_eq!(m.cache.entries.len(), 1);
    assert!(m.cache.entries[0].0 == Lifetime::Process(7));
    assert_eq!(m.cache.entries[0].1[0].appid, "org.demo.App");
    assert_eq!(m.cache.entries[0].1[0].path, f.path);
}

#[test]
fn persistent_entry_is_stored_under_the_persistent_root() {
    let mut m = manager();
    let l = Lifetime::Persistent("owner".to_string());
    let f = m.register_entry(ENTRY, "demo", l, false, false).unwrap();
    assert_eq!(f.path, "/home/u/.cache/ded/applications/demo.desktop");
}

#[test]
fn second_registration_of_an_id_collides() {
    let mut m = manager();
    let first = m
        .register_entry(ENTRY, "demo", Lifetime::Session("a".to_string()), false, false)
        .unwrap();
    let entries_before = m.cache.entries.len();
    let r = m.register_entry("[Desktop Entry]\nName=Other\n", "demo", Lifetime::Process(3), false, false);
    match r {
        Err(EntryManagerError::PathCollision(p)) => assert_eq!(p, first.path),
        other => panic!("unexpected {:?}", other),
    }
    assert_eq!(m.cache.entries.len(), entries_before);
    assert_eq!(m.cache.entries[0].1.len(), 1);
}

#[test]
fn existing_file_at_destination_collides() {
    let mut m = manager();
    let r = m.register_entry(ENTRY, "demo", Lifetime::Process(1), false, true);
    assert!(matches!(r, Err(EntryManagerError::PathCollision(_))));
    assert!(m.cache.entries.is_empty());
}

#[test]
fn entry_with_empty_key_is_not_valid() {
    let mut m = manager();
    let r = m.register_entry("[Desktop Entry]\n  =value\n", "demo", Lifetime::Process(1), false, false);
    assert!(matches!(
        r,
        Err(EntryManagerError::EntryValidation(ValidationError::NotValid(_)))
    ));
    assert!(m.cache.entries.is_empty());
}

#[test]
fn entry_known_elsewhere_is_a_duplicate() {
    let mut m = manager();
    let r = m.register_entry(ENTRY, "firefox", Lifetime::Process(1), true, false);
    assert!(matches!(
        r,
        Err(EntryManagerError::EntryValidation(ValidationError::DuplicateAppID))
    ));
    assert!(m.cache.entries.is_empty());
}

#[test]
fn entries_of_one_lifetime_keep_their_order() {
    let mut m = manager();
    m.register_entry(ENTRY, "a", Lifetime::Process(5), false, false).unwrap();
    m.register_entry(ENTRY, "b", Lifetime::Process(5), false, false).unwrap();
    assert_eq!(m.cache.entries.len(), 1);
    let ids: Vec<&str> = m.cache.entries[0].1.iter().map(|h| h.appid.as_str()).collect();
    assert_eq!(ids, vec!["a", "b"]);
}

fn png(width: u32, height: u32) -> Vec<u8> {
    let img = image::DynamicImage::ImageRgba8(image::RgbaImage::new(width, height));
    let mut out = std::io::Cursor::new(Vec::new());
    img.write_to(&mut out, image::ImageOutputFormat::Png).unwrap();
    out.into_inner()
}

#[test]
fn large_square_icon_is_scaled_to_512() {
    let mut m = manager();
    let payload = classify_icon(&png(1024, 1024)).unwrap();
    let f = m.register_icon("big", payload, Lifetime::Process(2), false).unwrap();
    assert_eq!(f.path, "/run/user/1000/ded/process/icons/hicolor/512x512/apps/big.png");
    match f.contents {
        Contents::Bytes(b) => {
            let img = image::load_from_memory(&b).unwrap();
            assert_eq!((img.width(), img.height()), (512, 512));
        }
        Contents::Text(_) => panic!("expected bytes"),
    }
    assert_eq!(m.cache.icons[0].1[0].icon_name, "big");
}

#[test]
fn small_square_icon_keeps_its_size() {
    let payload = classify_icon(&png(256, 256)).unwrap();
    match payload {
        IconPayload::Raster { side, png } => {
            assert_eq!(side, 256);
            let img = image::load_from_memory(&png).unwrap();
            assert_eq!((img.width(), img.height()), (256, 256));
        }
        IconPayload::Scalable { .. } => panic!("expected raster"),
    }
}

#[test]
fn scalable_icon_is_stored_verbatim() {
    let mut m = manager();
    let svg = "<svg xmlns=\"http://www.w3.org/2000/svg\" width=\"1\" height=\"1\"/>";
    let payload = classify_icon(svg.as_bytes()).unwrap();
    let l = Lifetime::Persistent("o".to_string());
    let f = m.register_icon("vec", payload, l, false).unwrap();
    assert_eq!(f.path, "/home/u/.cache/ded/icons/hicolor/scalable/apps/vec.svg");
    assert_eq!(text_of(&f.contents), svg);
}

#[test]
fn icon_collision_leaves_catalog_alone() {
    let mut m = manager();
    let payload = classify_icon(&png(16, 16)).unwrap();
    m.register_icon("i", payload, Lifetime::Process(2), false).unwrap();
    let again = classify_icon(&png(16, 16)).unwrap();
    let r = m.register_icon("i", again, Lifetime::Process(9), false);
    match r {
        Err(EntryManagerError::PathCollision(p)) => {
            assert_eq!(p, "/run/user/1000/ded/process/icons/hicolor/16x16/apps/i.png")
        }
        other => panic!("unexpected {:?}", other),
    }
    assert_eq!(m.cache.icons.len(), 1);
}

#[test]
fn snapshot_with_repeated_lifetime_is_refused() {
    let c = EntryCache::from_parts(
        vec![(Lifetime::Process(1), vec![]), (Lifetime::Process(1), vec![])],
        vec![],
    );
    assert!(c.is_none());
    let ok = EntryCache::from_parts(vec![(Lifetime::Process(1), vec![])], vec![]);
    assert!(ok.is_some());
}
