use basalt_cli::build::error::BuildError;
use basalt_cli::build::tar_helpers::make_header;

/// The block that the archive format asks for, written out field by field.
fn expected_block(name: &[u8], size: u64, mode: u32) -> Vec<u8> {
    let mut block = vec![0u8; 512];
    block[..name.len()].copy_from_slice(name);
    block[100..107].copy_from_slice(format!("{:07o}", mode % 0o10000000).as_bytes());
    if size < 8_589_934_592 {
        block[124..135].copy_from_slice(format!("{:011o}", size).as_bytes());
    } else {
        block[124] = 0x80;
        block[128..136].copy_from_slice(&size.to_be_bytes());
    }
    block[136..147].copy_from_slice(b"00000000000");
    block[257..265].copy_from_slice(b"ustar  \0");
    let mut sum: u32 = 0;
    for (i, b) in block.iter().enumerate() {
        sum += if (148..156).contains(&i) { 32 } else { *b as u32 };
    }
    block[148..155].copy_from_slice(format!("{:07o}", sum).as_bytes());
    block
}

#[test]
fn header_of_a_plain_name() {
    let header = make_header("config.toml", 5, 0o644).unwrap();
    assert_eq!(header.as_bytes().to_vec(), expected_block(b"config.toml", 5, 0o644));
}

#[test]
fn header_fields_stand_where_the_format_puts_them() {
    let header = make_header("install.sh", 1234, 0o644).unwrap();
    let block = header.as_bytes();
    assert_eq!(&block[0..10], b"install.sh");
    assert!(block[10..100].iter().all(|b| *b == 0));
    assert_eq!(&block[100..108], b"0000644\0");
    assert_eq!(&block[124..136], b"00000002322\0");
    assert_eq!(&block[136..148], b"00000000000\0");
    assert_eq!(&block[257..265], b"ustar  \0");
    assert_eq!(block[156], 0);
}

#[test]
fn header_declares_the_size_it_was_given() {
    for size in [0u64, 1, 7, 8, 511, 512, 513, 4096, 8_589_934_591] {
        let header = make_header("Dockerfile", size, 0o644).unwrap();
        assert_eq!(header.size().unwrap(), size);
        assert_eq!(header.entry_size().unwrap(), size);
        assert_eq!(header.as_bytes().to_vec(), expected_block(b"Dockerfile", size, 0o644));
    }
}

#[test]
fn header_of_a_size_beyond_eleven_octal_digits() {
    for size in [8_589_934_592u64, 1 << 40, u64::MAX] {
        let header = make_header("big", size, 0o644).unwrap();
        assert_eq!(header.as_bytes().to_vec(), expected_block(b"big", size, 0o644));
    }
    let header = make_header("big", 8_589_934_592, 0o644).unwrap();
    assert_eq!(header.size().unwrap(), 8_589_934_592);
}

#[test]
fn header_holds_the_mode() {
    let header = make_header("entrypoint.sh", 0, 0o755).unwrap();
    assert_eq!(header.mode().unwrap(), 0o755);
    assert_eq!(header.as_bytes().to_vec(), expected_block(b"entrypoint.sh", 0, 0o755));
    let wide = make_header("entrypoint.sh", 0, u32::MAX).unwrap();
    assert_eq!(wide.as_bytes().to_vec(), expected_block(b"entrypoint.sh", 0, u32::MAX));
}

#[test]
fn header_checksum_is_the_one_of_its_block() {
    let header = make_header(".dockerignore", 29, 0o644).unwrap();
    let block = header.as_bytes();
    let mut sum: u32 = 0;
    for (i, b) in block.iter().enumerate() {
        sum += if (148..156).contains(&i) { 32 } else { *b as u32 };
    }
    assert_eq!(header.cksum().unwrap(), sum);
}

#[test]
fn header_of_a_path_with_directories() {
    let header = make_header("scripts/on_submit.js", 10, 0o644).unwrap();
    assert_eq!(header.as_bytes().to_vec(), expected_block(b"scripts/on_submit.js", 10, 0o644));
    assert_eq!(header.path().unwrap().to_str().unwrap(), "scripts/on_submit.js");
}

#[test]
fn header_of_a_name_that_fills_the_field() {
    let name = "a".repeat(100);
    let header = make_header(&name, 1, 0o644).unwrap();
    assert_eq!(header.as_bytes().to_vec(), expected_block(name.as_bytes(), 1, 0o644));
}

#[test]
fn header_refuses_a_name_that_is_too_long() {
    let name = "a".repeat(101);
    match make_header(&name, 1, 0o644) {
        Err(BuildError::Archive { path, .. }) => assert_eq!(path, name),
        other => panic!("expected an archive error, got {:?}", other.map(|_| ())),
    }
}

#[test]
fn header_refuses_an_absolute_path() {
    match make_header("/etc/passwd", 1, 0o644) {
        Err(BuildError::Archive { path, cause }) => {
            assert_eq!(path, "/etc/passwd");
            assert!(!cause.is_empty());
        }
        other => panic!("expected an archive error, got {:?}", other.map(|_| ())),
    }
}

#[test]
fn header_refuses_a_path_that_climbs() {
    assert!(matches!(make_header("../outside.js", 1, 0o644), Err(BuildError::Archive { .. })));
    assert!(matches!(make_header("a/../b.js", 1, 0o644), Err(BuildError::Archive { .. })));
}

#[test]
fn header_refuses_the_empty_path() {
    assert!(matches!(make_header("", 0, 0o644), Err(BuildError::Archive { .. })));
}

#[test]
fn header_is_the_same_on_every_call() {
    let first = make_header("install.sh", 77, 0o644).unwrap();
    let second = make_header("install.sh", 77, 0o644).unwrap();
    assert_eq!(first.as_bytes().to_vec(), second.as_bytes().to_vec());
    let other = make_header("install.sh", 78, 0o644).unwrap();
    assert_ne!(first.as_bytes().to_vec(), other.as_bytes().to_vec());
}

#[test]
fn a_plain_path_is_stored_as_it_is() {
    for path in ["a.b/c-d_e", "...", ".hidden", "..x", "a/.b/..c", "x/y/z/0/1/2", "A/B"] {
        let header = make_header(path, 3, 0o644).unwrap();
        assert_eq!(header.as_bytes().to_vec(), expected_block(path.as_bytes(), 3, 0o644));
        assert_eq!(header.path_bytes().as_ref(), path.as_bytes());
    }
    let longest = format!("{}/{}", "d".repeat(49), "f".repeat(50));
    let header = make_header(&longest, 3, 0o644).unwrap();
    assert_eq!(header.as_bytes().to_vec(), expected_block(longest.as_bytes(), 3, 0o644));
}

#[test]
fn a_stored_name_is_relative_and_has_no_zero_byte() {
    for path in ["a", "./a", "a//b", "a/./b", "a/", "./", ".", "caf\u{e9}/x.js", "a b"] {
        let header = make_header(path, 0, 0o644).unwrap();
        let block = header.as_bytes();
        let end = block[..100].iter().position(|b| *b == 0).unwrap_or(100);
        assert!(end > 0);
        assert_ne!(block[0], b'/');
        assert!(block[end..100].iter().all(|b| *b == 0));
    }
    assert!(make_header("a\0b", 0, 0o644).is_err());
}
