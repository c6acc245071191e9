use carapace::asset::{decode_image, image_from_decode, index_key, DecodedImage, AssetError, AssetResolver, EntryKind, FontData, ListedEntry};
use std::hash::{Hash, Hasher};
use std::sync::Arc;

fn file(rel: &str) -> ListedEntry {
    ListedEntry { rel: rel.to_string(), path: format!("/skin/assets/{rel}"), kind: EntryKind::File }
}

fn png_2x2() -> Vec<u8> {
    let mut img = image::RgbaImage::new(2, 2);
    img.put_pixel(0, 0, image::Rgba([255, 0, 0, 255]));
    let mut bytes = Vec::new();
    img.write_to(&mut std::io::Cursor::new(&mut bytes), image::ImageFormat::Png).unwrap();
    bytes
}

#[test]
fn resolves_and_decodes_png() {
    let img = decode_image(&png_2x2()).unwrap();
    assert_eq!((img.width, img.height), (2, 2));
    assert_eq!(&img.rgba[0..4], &[255, 0, 0, 255]);
    assert_eq!(img.rgba.len(), 16);
}

#[test]
fn recursive_keying_works() {
    let listing = vec![
        ListedEntry { rel: "sub".to_string(), path: "/skin/assets/sub".to_string(), kind: EntryKind::Dir },
        file("red.png"),
        file("sub/red.png"),
    ];
    let r = AssetResolver::resolve(&listing);
    assert_eq!(r.locate("sub/red.png").unwrap(), "/skin/assets/sub/red.png");
    assert!(matches!(r.locate("sub"), Err(AssetError::Unresolved(_))));
}

#[test]
fn unresolved_and_traversal_error() {
    let r = AssetResolver::resolve(&vec![file("red.png"), file("../secret")]);
    assert!(matches!(r.locate("nope.png"), Err(AssetError::Unresolved(_))));
    assert!(matches!(r.locate("../secret"), Err(AssetError::Unresolved(n)) if n == "../secret"));
    assert!(matches!(r.locate("a..b"), Err(AssetError::Unresolved(_))));
}

#[test]
fn corrupt_image_is_decode_error() {
    assert!(matches!(decode_image(b"hello"), Err(AssetError::Decode(_))));
}

#[test]
fn bytes_are_cached_and_empty_resolver_is_inert() {
    // The byte cache sits with the file reads in app/; the library's part is the inert index.
    assert!(matches!(AssetResolver::empty().locate("red.png"), Err(AssetError::Unresolved(_))));
}

#[test]
fn symlink_escaping_the_skin_dir_is_not_resolved() {
    let listing = vec![
        file("red.png"),
        ListedEntry {
            rel: "leak.txt".to_string(),
            path: "/tmp/secret.txt".to_string(),
            kind: EntryKind::Symlink,
        },
    ];
    let r = AssetResolver::resolve(&listing);
    assert!(matches!(r.locate("leak.txt"), Err(AssetError::Unresolved(_))));
    assert!(r.locate("red.png").is_ok());
}

#[test]
fn backslash_paths_are_keyed_with_slashes() {
    assert_eq!(index_key("sub\\dir\\a.png"), "sub/dir/a.png");
    let r = AssetResolver::resolve(&vec![file("sub\\a.png")]);
    assert!(r.locate("sub/a.png").is_ok());
    assert!(r.locate("sub\\a.png").is_err());
}

#[test]
fn a_later_listing_entry_replaces_an_earlier_key() {
    let listing = vec![
        ListedEntry { rel: "a\\b".to_string(), path: "first".to_string(), kind: EntryKind::File },
        ListedEntry { rel: "a/b".to_string(), path: "second".to_string(), kind: EntryKind::File },
    ];
    let r = AssetResolver::resolve(&listing);
    assert_eq!(r.locate("a/b").unwrap(), "second");
}

#[test]
fn font_returns_raw_bytes_and_caches() {
    // The font cache sits with the file reads in app/; the library gives the id it keys on.
    let bytes: Arc<[u8]> = Arc::from(&b"\x00\x01\x00\x00FAKEFONTBYTES"[..]);
    let a = FontData::new(bytes.clone());
    let b = FontData::new(Arc::from(&b"\x00\x01\x00\x00FAKEFONTBYTES"[..]));
    assert_eq!(&a.bytes[0..4], &[0x00, 0x01, 0x00, 0x00]);
    assert_eq!(a.id, b.id, "the id is content-addressed");
    let c = FontData::new(Arc::from(&b"other"[..]));
    assert_ne!(a.id, c.id);
}

#[test]
fn font_id_is_the_std_hash_of_the_bytes() {
    let bytes: Arc<[u8]> = Arc::from(&b"\x00\x01\x00\x00FAKEFONTBYTES"[..]);
    let mut h = std::collections::hash_map::DefaultHasher::new();
    bytes.hash(&mut h);
    assert_eq!(FontData::new(bytes).id, h.finish());
}

#[test]
fn decode_outcome_becomes_an_image_or_a_decode_error() {
    let img = image_from_decode(Ok((vec![1, 2, 3, 4], 1, 1))).unwrap();
    assert_eq!(img, DecodedImage { rgba: vec![1, 2, 3, 4], width: 1, height: 1 });
    match image_from_decode(Err("truncated".to_string())) {
        Err(AssetError::Decode(m)) => assert_eq!(m, "truncated"),
        other => panic!("expected a decode error, got {other:?}"),
    }
}

#[test]
fn every_listed_file_resolves_and_a_later_file_wins_its_key() {
    let listing = vec![
        file("a.png"),
        ListedEntry { rel: "b.png".to_string(), path: "/elsewhere/b.png".to_string(), kind: EntryKind::File },
        ListedEntry { rel: "dir\\b.png".to_string(), path: "/skin/assets/dir/b.png".to_string(), kind: EntryKind::File },
        ListedEntry { rel: "b.png".to_string(), path: "/skin/assets/b.png".to_string(), kind: EntryKind::File },
    ];
    let r = AssetResolver::resolve(&listing);
    assert_eq!(r.locate("a.png").unwrap(), "/skin/assets/a.png");
    assert_eq!(r.locate("b.png").unwrap(), "/skin/assets/b.png");
    assert_eq!(r.locate("dir/b.png").unwrap(), "/skin/assets/dir/b.png");
}
