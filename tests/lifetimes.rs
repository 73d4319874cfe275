use desktop_entry_daemon::catalog::EntryCache;
use desktop_entry_daemon::handle::{DesktopHandle, IconHandle};
use desktop_entry_daemon::icon::{raster_side, settle_icon, IconPayload, IconValidationError};
use desktop_entry_daemon::icon::classify_icon;
use desktop_entry_daemon::lifetime::Lifetime;
use desktop_entry_daemon::manager::EntryManager;
use desktop_entry_daemon::placement::{join, raster_icon_leaf};
use desktop_entry_daemon::validation::{keyless_line, validate_desktop_entry, ValidationError};

const ENTRY: &str = "[Desktop Entry]\nName=Demo\n";

fn manager_from(loaded: Option<EntryCache>) -> (EntryManager, desktop_entry_daemon::catalog::Removal) {
    EntryManager::new("/tmp/t".to_string(), "/p".to_string(), "/c.ron".to_string(), loaded)
}

fn handle(id: &str) -> DesktopHandle {
    DesktopHandle { appid: id.to_string(), path: format!("/d/{}.desktop", id) }
}

#[test]
fn from_pid_gives_a_process_lifetime() {
    assert!(Lifetime::from_pid(42).unwrap() == Lifetime::Process(42));
    assert!(Lifetime::Session("a".to_string()) != Lifetime::Persistent("a".to_string()));
    assert!(Lifetime::Session("a".to_string()) == Lifetime::Session("a".to_string()));
}

#[test]
fn removing_one_process_keeps_the_other() {
    let (mut m, _) = manager_from(None);
    let a = m.register_entry(ENTRY, "one", Lifetime::Process(1), false, false).unwrap();
    let b = m.register_entry(ENTRY, "two", Lifetime::Process(2), false, false).unwrap();
    let removal = m.remove_lifetime(Lifetime::Process(1));
    assert!(removal.changed);
    assert_eq!(removal.entries.len(), 1);
    assert_eq!(removal.entries[0].path, a.path);
    assert!(removal.icons.is_empty());
    assert_eq!(m.cache.entries.len(), 1);
    assert!(m.cache.entries[0].0 == Lifetime::Process(2));
    assert_eq!(m.cache.entries[0].1[0].path, b.path);
    // the snapshot lists rebuild the same catalog
    let entries = m.cache.entries.clone();
    let icons = m.cache.icons.clone();
    let reloaded = EntryCache::from_parts(entries, icons).unwrap();
    assert_eq!(reloaded.entries.len(), 1);
    assert!(reloaded.entries[0].0 == Lifetime::Process(2));
    assert_eq!(reloaded.entries[0].1[0].path, b.path);
}

#[test]
fn removing_an_absent_lifetime_changes_nothing() {
    let (mut m, _) = manager_from(None);
    m.register_entry(ENTRY, "one", Lifetime::Process(1), false, false).unwrap();
    let removal = m.remove_lifetime(Lifetime::Session("x".to_string()));
    assert!(!removal.changed);
    assert!(removal.entries.is_empty());
    assert_eq!(m.cache.entries.len(), 1);
}

#[test]
fn startup_drops_session_lifetimes() {
    let loaded = EntryCache::from_parts(
        vec![
            (Lifetime::Session("s".to_string()), vec![handle("gone_a"), handle("gone_b")]),
            (Lifetime::Persistent("p".to_string()), vec![handle("kept")]),
        ],
        vec![(
            Lifetime::Session("s".to_string()),
            vec![IconHandle { icon_name: "i".to_string(), icon_path: "/i.png".to_string() }],
        )],
    )
    .unwrap();
    let (mut m, removal) = manager_from(Some(loaded));
    assert!(removal.changed);
    let mut gone: Vec<String> = removal.entries.iter().map(|h| h.path.clone()).collect();
    gone.sort();
    assert_eq!(gone, vec!["/d/gone_a.desktop".to_string(), "/d/gone_b.desktop".to_string()]);
    assert_eq!(removal.icons.len(), 1);
    assert_eq!(m.cache.entries.len(), 1);
    assert!(m.cache.entries[0].0 == Lifetime::Persistent("p".to_string()));
    assert_eq!(m.cache.entries[0].1[0].appid, "kept");
    assert!(m.cache.icons.is_empty());
    let again = m.reset_session();
    assert!(!again.changed);
}

#[test]
fn reconcile_removes_only_dead_processes() {
    let (mut m, _) = manager_from(None);
    m.register_entry(ENTRY, "one", Lifetime::Process(10), false, false).unwrap();
    m.register_entry(ENTRY, "two", Lifetime::Process(20), false, false).unwrap();
    m.register_entry(ENTRY, "three", Lifetime::Session("s".to_string()), false, false).unwrap();
    m.register_change_handler(10);
    m.register_change_handler(30);
    let mut watched = m.watched_pids();
    watched.sort();
    assert_eq!(watched, vec![10, 20, 30]);
    let alive: Vec<bool> = watched.iter().map(|p| *p == 20).collect();
    let removal = m.reconcile(&watched, &alive);
    assert!(removal.changed);
    assert_eq!(removal.entries.len(), 1);
    assert_eq!(removal.entries[0].appid, "one");
    assert_eq!(m.cache.entries.len(), 2);
    assert!(m.cache.entries.iter().all(|(l, _)| *l != Lifetime::Process(10)));
    assert!(m.change_handlers.is_empty());
    assert!(m.refresh_wanted());
}

#[test]
fn change_handlers_are_kept_once() {
    let (mut m, _) = manager_from(None);
    assert!(m.refresh_wanted());
    m.register_change_handler(4);
    m.register_change_handler(4);
    assert_eq!(m.change_handlers, vec![4]);
    assert!(!m.refresh_wanted());
}

#[test]
fn raster_side_rules() {
    assert!(matches!(raster_side(10, 11), Err(IconValidationError::NotSquare)));
    assert_eq!(raster_side(1024, 1024).unwrap(), 512);
    assert_eq!(raster_side(512, 512).unwrap(), 512);
    assert_eq!(raster_side(256, 256).unwrap(), 256);
}

#[test]
fn non_square_image_is_refused() {
    let img = image::DynamicImage::ImageRgb8(image::RgbImage::new(20, 10));
    let mut out = std::io::Cursor::new(Vec::new());
    img.write_to(&mut out, image::ImageOutputFormat::Png).unwrap();
    let r = classify_icon(&out.into_inner());
    assert!(matches!(r, Err(IconValidationError::NotSquare)));
}

#[test]
fn unrecognized_payload_is_refused() {
    let r = classify_icon(&[0xff, 0xfe, 0x00, 0x80, 0x81]);
    assert!(matches!(r, Err(IconValidationError::NoTypeFound)));
    let r = settle_icon(None, &[0xc3, 0x28]);
    assert!(matches!(r, Err(IconValidationError::NoTypeFound)));
}

#[test]
fn text_payload_without_image_is_scalable() {
    match settle_icon(None, "<svg/>".as_bytes()) {
        Ok(IconPayload::Scalable { text }) => assert_eq!(text, "<svg/>"),
        _ => panic!("expected scalable"),
    }
}

#[test]
fn icon_messages() {
    assert_eq!(IconValidationError::NotSquare.message(), "Icon is not square!");
    assert_eq!(
        IconValidationError::NoTypeFound.message(),
        "Icon specified does not match binary image data nor UTF-8 encoded .svg data."
    );
    assert_eq!(ValidationError::DuplicateAppID.message(), "Duplicate app id");
    assert_eq!(
        ValidationError::NotValid("x".to_string()).message(),
        "Desktop entry failed validation: x"
    );
}

#[test]
fn path_pieces() {
    assert_eq!(join("/a", "b"), "/a/b");
    assert_eq!(join("/a/", "b"), "/a/b");
    assert_eq!(join("", "b"), "b");
    assert_eq!(raster_icon_leaf(48, "n"), "hicolor/48x48/apps/n.png");
    assert_eq!(raster_icon_leaf(0, "n"), "hicolor/0x0/apps/n.png");
    assert_eq!(raster_icon_leaf(4294967295, "n"), "hicolor/4294967295x4294967295/apps/n.png");
}

#[test]
fn keyless_lines_are_found() {
    assert!(keyless_line("=x"));
    assert!(keyless_line("[A]\n \t=x\n"));
    assert!(keyless_line("a=b\n\u{3000}=c"));
    assert!(!keyless_line("a=b\n[x]=y\n#=z\n"));
    assert!(!keyless_line(""));
}

#[test]
fn validation_returns_text_unchanged() {
    assert_eq!(validate_desktop_entry(ENTRY, "demo", false).unwrap(), ENTRY);
    assert!(matches!(
        validate_desktop_entry("=bad", "demo", false),
        Err(ValidationError::NotValid(_))
    ));
}

#[test]
fn text_that_is_not_svg_is_refused() {
    let r = classify_icon("<svg width=\"1\"".as_bytes());
    assert!(matches!(r, Err(IconValidationError::NoTypeFound)));
    let r = settle_icon(None, "<!-- never closed".as_bytes());
    assert!(matches!(r, Err(IconValidationError::NoTypeFound)));
}

#[test]
fn svg_with_nested_elements_is_scalable() {
    let svg = "<?xml version=\"1.0\"?>\n<svg xmlns=\"http://www.w3.org/2000/svg\" viewBox=\"0 0 8 8\"><!-- dot --><circle cx=\"4\" cy=\"4\" r=\"3\"/></svg>\n";
    match classify_icon(svg.as_bytes()) {
        Ok(IconPayload::Scalable { text }) => assert_eq!(text, svg),
        _ => panic!("expected scalable"),
    }
}

#[test]
fn square_icon_at_the_cap_keeps_its_size() {
    let img = image::DynamicImage::ImageLuma16(image::ImageBuffer::new(512, 512));
    let mut out = std::io::Cursor::new(Vec::new());
    img.write_to(&mut out, image::ImageOutputFormat::Png).unwrap();
    match classify_icon(&out.into_inner()) {
        Ok(IconPayload::Raster { side, png }) => {
            assert_eq!(side, 512);
            let back = image::load_from_memory(&png).unwrap();
            assert_eq!((back.width(), back.height()), (512, 512));
        }
        _ => panic!("expected raster"),
    }
}
