use space_thumbnails::cache::{CacheKey, FileSample};
use space_thumbnails::providers::thumbnail_file::get_cache_path;

fn hex(bytes: &[u8]) -> String {
    let mut out = String::new();
    for b in bytes {
        out.push_str(&format!("{:02x}", b));
    }
    out
}

fn big() -> Vec<u8> {
    (0..10000u32).map(|i| ((i * 7 + 3) % 256) as u8).collect()
}

#[test]
fn key_of_empty_content_is_the_digest_of_its_length() {
    let key = CacheKey::for_content(b"");
    assert_eq!(
        key.file_name(),
        "af5570f5a1810b7af78caf4bc70a660f0df51e42baf91d4de5b2328de0e83dfc.png"
    );
    assert_eq!(key.digest().len(), 32);
}

#[test]
fn key_of_short_content_covers_length_and_bytes() {
    let key = CacheKey::for_content(b"hello");
    assert_eq!(
        hex(key.digest()),
        "fe745503750fdbf3e6ef676d16d85ee0d63626c594222f7e991908bdffef7ac9"
    );
    assert_eq!(key.file_name(), format!("{}.png", hex(key.digest())));
    assert_eq!(key.file_name().len(), 68);
}

#[test]
fn key_of_long_content_covers_both_ends() {
    let content = big();
    let key = CacheKey::for_content(&content);
    assert_eq!(
        hex(key.digest()),
        "db4ddbf709065e55a175694cfe79cf52bc67d9b8ad7234e4a8601f9d61377f51"
    );
    // A change in the middle is not seen, a change at either end is.
    let mut middle = content.clone();
    middle[5000] ^= 1;
    assert_eq!(CacheKey::for_content(&middle).digest(), key.digest());
    let mut head = content.clone();
    head[4095] ^= 1;
    assert_ne!(CacheKey::for_content(&head).digest(), key.digest());
    let mut tail = content.clone();
    tail[10000 - 4096] ^= 1;
    assert_ne!(CacheKey::for_content(&tail).digest(), key.digest());
}

#[test]
fn content_of_exactly_the_threshold_has_no_tail() {
    let content: Vec<u8> = (0..8192u32).map(|i| (i % 251) as u8).collect();
    let key = CacheKey::for_content(&content);
    assert_eq!(
        hex(key.digest()),
        "b43677c28dcaaf3baf009c6edc7cea67a7fc2f4caf924d5b67e0004da0b18280"
    );
    match FileSample::of_content(&content) {
        FileSample::Content { len, head, tail } => {
            assert_eq!(len, 8192);
            assert_eq!(head, content[..4096].to_vec());
            assert!(tail.is_empty());
        }
        _ => panic!("a content sample was expected"),
    }
    let longer: Vec<u8> = (0..8193u32).map(|i| (i % 251) as u8).collect();
    match FileSample::of_content(&longer) {
        FileSample::Content { len, head, tail } => {
            assert_eq!(len, 8193);
            assert_eq!(head, longer[..4096].to_vec());
            assert_eq!(tail, longer[8193 - 4096..].to_vec());
        }
        _ => panic!("a content sample was expected"),
    }
}

#[test]
fn same_content_gives_the_same_key() {
    let a = CacheKey::for_content(b"the same bytes");
    let b = CacheKey::for_content(&b"the same bytes".to_vec());
    assert_eq!(a.digest(), b.digest());
    assert_eq!(a.file_name(), b.file_name());
}

#[test]
fn one_changed_byte_in_the_head_changes_the_key() {
    let content = big();
    let key = CacheKey::for_content(&content);
    for at in [0usize, 1, 100, 4095] {
        let mut changed = content.clone();
        changed[at] = changed[at].wrapping_add(1);
        assert_ne!(CacheKey::for_content(&changed).digest(), key.digest());
    }
    let mut longer = content.clone();
    longer.push(0);
    assert_ne!(CacheKey::for_content(&longer).digest(), key.digest());
}

#[test]
fn unreadable_file_is_named_by_its_path_in_lower_case() {
    let key = CacheKey::for_sample(&FileSample::Path("C:\\Users\\Me\\File.OBJ".to_string()));
    assert_eq!(
        hex(key.digest()),
        "176a9be3c5e9b38879c9a43d1509d50983e937d68914baa837e2be8684550f76"
    );
    let same = CacheKey::for_sample(&FileSample::Path("c:\\users\\me\\file.obj".to_string()));
    assert_eq!(same.digest(), key.digest());
    let lossy =
        CacheKey::for_sample(&FileSample::LossyPath("C:\\Users\\Me\\\u{fffd}.OBJ".to_string()));
    assert_eq!(
        hex(lossy.digest()),
        "a96463d7b5ccf8563a10aeccdba7a485b414e35e94dfd6dff6bd81ba6599712a"
    );
}

#[test]
fn sample_is_hashed_as_given() {
    let sample = FileSample::Content { len: 3, head: b"ab".to_vec(), tail: b"c".to_vec() };
    let key = CacheKey::for_sample(&sample);
    assert_eq!(
        hex(key.digest()),
        "ce91dc5eec0139adf091900d225971d6ad246a845bad791b5693a9d0d55dd391"
    );
}

#[test]
fn cache_path_needs_the_local_data_directory() {
    let sample = FileSample::of_content(b"hello");
    assert!(get_cache_path(None, &sample).is_none());
    let path = get_cache_path(Some("C:\\Users\\Me\\AppData\\Local"), &sample).unwrap();
    assert_eq!(path.root, "C:\\Users\\Me\\AppData\\Local");
    assert_eq!(path.product, "space-thumbnails");
    assert_eq!(path.folder, "cache");
    assert_eq!(
        path.file_name,
        "fe745503750fdbf3e6ef676d16d85ee0d63626c594222f7e991908bdffef7ac9.png"
    );
}
