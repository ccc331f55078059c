use good_web_game::error::GameError;
use good_web_game::filesystem::{File, Filesystem};

fn entries(list: &[(&str, &[u8])]) -> Vec<(String, Vec<u8>)> {
    list.iter().map(|(p, b)| (p.to_string(), b.to_vec())).collect()
}

fn never_loads(path: String) -> Result<File, GameError> {
    panic!("the file {} should have come from the cache", path)
}

#[test]
fn cached_files_are_found_with_or_without_a_leading_slash() {
    let mut fs = Filesystem::new(None, entries(&[("img/a.png", &[1, 2]), ("b.txt", &[3])]));
    assert_eq!(fs.open("img/a.png", never_loads).unwrap().bytes, vec![1, 2]);
    assert_eq!(fs.open("/img/a.png", never_loads).unwrap().bytes, vec![1, 2]);
    assert_eq!(fs.open("/b.txt", never_loads).unwrap().bytes, vec![3]);
    // opening does not consume the cached file
    assert_eq!(fs.open("b.txt", never_loads).unwrap().bytes, vec![3]);
}

#[test]
fn later_archive_entries_replace_earlier_ones() {
    let mut fs = Filesystem::new(None, entries(&[("a", &[1]), ("b", &[2]), ("a", &[9, 9])]));
    assert_eq!(fs.open("a", never_loads).unwrap().bytes, vec![9, 9]);
    assert_eq!(fs.open("b", never_loads).unwrap().bytes, vec![2]);
}

#[test]
fn empty_archive_entries_are_not_cached() {
    let mut fs = Filesystem::new(None, entries(&[("dir/", &[]), ("e", &[])]));
    let mut asked = Vec::new();
    let r = fs.open("/e", |p: String| {
        asked.push(p);
        Ok(File { bytes: vec![7] })
    });
    assert_eq!(r.unwrap().bytes, vec![7]);
    assert_eq!(asked, vec!["e".to_string()]);
}

#[test]
fn missing_files_are_loaded_relative_to_the_root() {
    let mut fs = Filesystem::new(Some("resources".to_string()), Vec::new());
    let mut asked = Vec::new();
    let r = fs.open("/sounds/boom.ogg", |p: String| {
        asked.push(p);
        Ok(File { bytes: vec![1, 2, 3] })
    });
    assert_eq!(r.unwrap().bytes, vec![1, 2, 3]);
    assert_eq!(asked, vec!["resources/sounds/boom.ogg".to_string()]);
}

#[test]
fn load_errors_are_passed_on() {
    let mut fs = Filesystem::new(None, Vec::new());
    let r = fs.open("nothing.txt", |p: String| {
        Err(GameError::ResourceLoadError(format!("Couldn't load file {}", p)))
    });
    match r {
        Err(GameError::ResourceLoadError(msg)) => assert_eq!(msg, "Couldn't load file nothing.txt"),
        _ => panic!("expected a load error"),
    }
}

#[test]
fn cloned_files_have_the_same_bytes() {
    let f = File { bytes: vec![4, 5] };
    assert_eq!(f.clone().bytes, vec![4, 5]);
}

#[test]
fn paths_are_compared_component_by_component() {
    let mut fs = Filesystem::new(None, entries(&[("img/a.png", &[5])]));
    assert_eq!(fs.open("img//a.png", never_loads).unwrap().bytes, vec![5]);
    assert_eq!(fs.open("img/./a.png", never_loads).unwrap().bytes, vec![5]);
}

fn tar_of(files: &[(&str, &[u8])]) -> Vec<u8> {
    let mut builder = tar::Builder::new(Vec::new());
    for (path, data) in files {
        let mut header = tar::Header::new_gnu();
        header.set_size(data.len() as u64);
        header.set_mode(0o644);
        builder.append_data(&mut header, path, *data).unwrap();
    }
    builder.into_inner().unwrap()
}

#[test]
fn an_embedded_archive_fills_the_cache() {
    let archive = tar_of(&[("img/a.png", &[1, 2]), ("empty.txt", &[]), ("img/a.png", &[7])]);
    let mut fs = Filesystem::from_archive(Some("res".to_string()), Some(&archive)).unwrap();
    // the later entry wins, the empty one is not cached
    assert_eq!(fs.open("/img/a.png", never_loads).unwrap().bytes, vec![7]);
    let mut asked = Vec::new();
    let r = fs.open("empty.txt", |p: String| {
        asked.push(p);
        Ok(File { bytes: vec![] })
    });
    assert!(r.is_ok());
    assert_eq!(asked, vec!["res/empty.txt".to_string()]);
}

#[test]
fn no_archive_means_an_empty_cache() {
    let mut fs = Filesystem::from_archive(None, None).unwrap();
    let r = fs.open("a", |p: String| Err(GameError::ResourceLoadError(p)));
    assert!(matches!(r, Err(GameError::ResourceLoadError(p)) if p == "a"));
}

#[test]
fn a_malformed_archive_is_an_io_error() {
    let garbage = vec![0x41u8; 1024];
    assert!(matches!(
        Filesystem::from_archive(None, Some(&garbage)),
        Err(GameError::IOError(_))
    ));
}

#[test]
fn entries_whose_names_are_not_text_cannot_be_reached_by_text() {
    let mut builder = tar::Builder::new(Vec::new());
    let mut header = tar::Header::new_old();
    header.set_size(1);
    header.set_mode(0o644);
    header.as_old_mut().name[..3].copy_from_slice(b"a\xffb");
    header.set_cksum();
    builder.append(&header, &[5u8][..]).unwrap();
    let archive = builder.into_inner().unwrap();
    let mut fs = Filesystem::from_archive(None, Some(&archive)).unwrap();
    let mut asked = Vec::new();
    let r = fs.open("a\u{FFFD}b", |p: String| {
        asked.push(p);
        Err(GameError::FilesystemError("not on disk".to_string()))
    });
    assert!(r.is_err());
    assert_eq!(asked, vec!["a\u{FFFD}b".to_string()]);
}
