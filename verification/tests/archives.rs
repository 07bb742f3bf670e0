use basalt_cli::build::archive::{Archive, ArchiveEntry, ENTRY_MODE};
use basalt_cli::build::error::BuildError;
use tokio::io::AsyncReadExt;
use tokio_stream::StreamExt;

fn tar_runtime() -> tokio::runtime::Runtime {
    tokio::runtime::Builder::new_current_thread().enable_all().build().unwrap()
}

/// The archive that `tokio_tar::Builder` writes for the same entries.
fn reference_archive(entries: &[(&str, &[u8])]) -> Vec<u8> {
    tar_runtime().block_on(async {
        let mut builder = tokio_tar::Builder::new(Vec::new());
        for (path, content) in entries {
            let mut header = tokio_tar::Header::new_gnu();
            header.set_path(path).unwrap();
            header.set_size(content.len() as u64);
            header.set_mode(0o644);
            header.set_cksum();
            builder.append(&header, *content).await.unwrap();
        }
        builder.into_inner().await.unwrap()
    })
}

/// Path and content of every entry, as `tokio_tar::Archive` reads them.
fn listed_entries(bytes: &[u8]) -> Vec<(String, Vec<u8>)> {
    tar_runtime().block_on(async {
        let mut archive = tokio_tar::Archive::new(bytes);
        let mut entries = archive.entries().unwrap();
        let mut found = Vec::new();
        while let Some(entry) = entries.next().await {
            let mut entry = entry.unwrap();
            let path = entry.path().unwrap().to_str().unwrap().to_owned();
            let mut content = Vec::new();
            entry.read_to_end(&mut content).await.unwrap();
            found.push((path, content));
        }
        found
    })
}

#[test]
fn empty_archive_is_the_termination() {
    let archive = Archive::new();
    assert_eq!(archive.len(), 0);
    assert_eq!(archive.to_bytes(), vec![0u8; 1024]);
    assert_eq!(archive.to_bytes(), reference_archive(&[]));
}

#[test]
fn archive_of_one_entry_is_header_content_padding_termination() {
    let mut archive = Archive::new();
    archive.append("config.toml", b"hello".to_vec(), ENTRY_MODE).unwrap();
    let bytes = archive.to_bytes();
    assert_eq!(bytes.len(), 512 + 512 + 1024);
    assert_eq!(&bytes[0..11], b"config.toml");
    assert_eq!(&bytes[512..517], b"hello");
    assert!(bytes[517..].iter().all(|b| *b == 0));
}

#[test]
fn archive_agrees_with_the_tar_builder() {
    let entries: Vec<(&str, &[u8])> = vec![
        ("config.toml", b"port = 9550\n"),
        ("Dockerfile", b"FROM basalt\n"),
        (".dockerignore", b"./Dockerfile\n./.dockerignore"),
        ("install.sh", b""),
        ("scripts/on_submit.js", &[7u8; 1300]),
    ];
    let mut archive = Archive::new();
    for (path, content) in &entries {
        archive.append(path, content.to_vec(), ENTRY_MODE).unwrap();
    }
    assert_eq!(archive.to_bytes(), reference_archive(&entries));
}

#[test]
fn content_of_a_whole_number_of_blocks_gets_no_padding() {
    let mut archive = Archive::new();
    archive.append("a", vec![1u8; 512], ENTRY_MODE).unwrap();
    archive.append("b", vec![2u8; 1024], ENTRY_MODE).unwrap();
    archive.append("c", vec![3u8; 1], ENTRY_MODE).unwrap();
    let bytes = archive.to_bytes();
    assert_eq!(bytes.len(), (512 + 512) + (512 + 1024) + (512 + 512) + 1024);
    assert_eq!(&bytes[1024..1025], b"b");
    assert_eq!(
        bytes,
        reference_archive(&[("a", &[1u8; 512]), ("b", &[2u8; 1024]), ("c", &[3u8; 1])])
    );
}

#[test]
fn entries_are_listed_in_the_order_they_were_appended() {
    let mut archive = Archive::new();
    archive.append("z.txt", b"last letter first".to_vec(), ENTRY_MODE).unwrap();
    archive.append("a.txt", b"first letter last".to_vec(), ENTRY_MODE).unwrap();
    let found = listed_entries(&archive.to_bytes());
    assert_eq!(
        found,
        vec![
            (String::from("z.txt"), b"last letter first".to_vec()),
            (String::from("a.txt"), b"first letter last".to_vec()),
        ]
    );
}

#[test]
fn an_entry_keeps_what_it_was_made_of() {
    let entry = ArchiveEntry::new("install.sh", b"echo hi\n".to_vec(), 0o755).unwrap();
    assert_eq!(entry.path(), "install.sh");
    assert_eq!(entry.content(), &b"echo hi\n".to_vec());
    assert_eq!(entry.mode(), 0o755);
    assert_eq!(entry.header().len(), 512);
    assert_eq!(&entry.header()[124..136], b"00000000010\0");
    let mut out = vec![9u8];
    entry.write_to(&mut out);
    assert_eq!(out.len(), 1 + 512 + 512);
    assert_eq!(out[0], 9);
    assert_eq!(&out[513..521], b"echo hi\n");
}

#[test]
fn a_refused_path_leaves_the_archive_as_it_was() {
    let mut archive = Archive::new();
    archive.append("config.toml", b"x".to_vec(), ENTRY_MODE).unwrap();
    let before = archive.to_bytes();
    match archive.append("/absolute.js", b"y".to_vec(), ENTRY_MODE) {
        Err(BuildError::Archive { path, .. }) => assert_eq!(path, "/absolute.js"),
        other => panic!("expected an archive error, got {:?}", other),
    }
    assert_eq!(archive.len(), 1);
    assert_eq!(archive.to_bytes(), before);
}

#[test]
fn push_keeps_order() {
    let mut archive = Archive::new();
    archive.push(ArchiveEntry::new("one", b"1".to_vec(), ENTRY_MODE).unwrap()).unwrap();
    archive.push(ArchiveEntry::new("two", b"2".to_vec(), ENTRY_MODE).unwrap()).unwrap();
    archive.push(ArchiveEntry::new("three", b"3".to_vec(), ENTRY_MODE).unwrap()).unwrap();
    assert_eq!(archive.len(), 3);
    assert_eq!(archive.entry(0).path(), "one");
    assert_eq!(archive.entry(1).path(), "two");
    assert_eq!(archive.entry(2).path(), "three");
    let names: Vec<String> = listed_entries(&archive.to_bytes()).into_iter().map(|e| e.0).collect();
    assert_eq!(names, vec!["one", "two", "three"]);
}

#[test]
fn a_path_that_is_taken_is_refused() {
    let mut archive = Archive::new();
    archive.append("one", b"1".to_vec(), ENTRY_MODE).unwrap();
    archive.append("two", b"2".to_vec(), ENTRY_MODE).unwrap();
    assert!(archive.holds("one"));
    assert!(archive.holds("two"));
    assert!(!archive.holds("three"));
    let before = archive.to_bytes();
    match archive.append("one", b"other".to_vec(), ENTRY_MODE) {
        Err(BuildError::Archive { path, cause }) => {
            assert_eq!(path, "one");
            assert_eq!(cause, "the path is already in the archive");
        }
        other => panic!("expected an archive error, got {:?}", other),
    }
    let again = ArchiveEntry::new("two", b"other".to_vec(), ENTRY_MODE).unwrap();
    assert!(matches!(archive.push(again), Err(BuildError::Archive { path, .. }) if path == "two"));
    assert_eq!(archive.len(), 2);
    assert_eq!(archive.to_bytes(), before);
}
