use model_loader::archive::{Archive, ArchiveError};
use std::io::{Cursor, Write};
use zip::write::SimpleFileOptions;
use zip::{CompressionMethod, ZipWriter};

fn archive_of(entries: &[(&str, &[u8])], method: CompressionMethod) -> Vec<u8> {
    let mut writer = ZipWriter::new(Cursor::new(Vec::new()));
    for (name, data) in entries {
        writer.start_file(*name, SimpleFileOptions::default().compression_method(method)).unwrap();
        writer.write_all(data).unwrap();
    }
    writer.finish().unwrap().into_inner()
}

#[test]
fn a_buffer_that_is_no_archive_is_corrupt() {
    assert_eq!(Archive::new(b"plain text").err(), Some(ArchiveError::Corrupt));
    assert_eq!(Archive::new(&[]).err(), Some(ArchiveError::Corrupt));
}

#[test]
fn names_come_in_directory_order() {
    let buffer = archive_of(
        &[("zebra.obj", b"z"), ("apple.mtl", b"a"), ("middle.png", b"m")],
        CompressionMethod::Stored,
    );
    let archive = Archive::new(&buffer).unwrap();
    assert_eq!(archive.list_names(), vec!["zebra.obj", "apple.mtl", "middle.png"]);
}

#[test]
fn an_empty_archive_has_no_names() {
    let buffer = archive_of(&[], CompressionMethod::Stored);
    let archive = Archive::new(&buffer).unwrap();
    assert!(archive.list_names().is_empty());
    assert!(archive.filter_by_suffix(".obj").is_empty());
}

#[test]
fn filter_keeps_the_order_of_the_matches() {
    let buffer = archive_of(
        &[("b.obj", b""), ("a.mtl", b""), ("a.obj", b""), ("obj", b""), ("c.obj.txt", b"")],
        CompressionMethod::Stored,
    );
    let archive = Archive::new(&buffer).unwrap();
    assert_eq!(archive.filter_by_suffix(".obj"), vec!["b.obj", "a.obj"]);
    assert_eq!(archive.filter_by_suffix(".mtl"), vec!["a.mtl"]);
    assert!(archive.filter_by_suffix(".png").is_empty());
    assert_eq!(archive.filter_by_suffix("").len(), 5);
}

#[test]
fn read_gives_the_stored_bytes() {
    let buffer = archive_of(&[("a.txt", b"first"), ("b.txt", b"second")], CompressionMethod::Stored);
    let mut archive = Archive::new(&buffer).unwrap();
    assert_eq!(archive.open("b.txt").unwrap(), b"second");
    assert_eq!(archive.open("a.txt").unwrap(), b"first");
}

#[test]
fn read_inflates_compressed_entries() {
    let text = [b'x'; 4096];
    let buffer = archive_of(&[("big.txt", &text)], CompressionMethod::Deflated);
    assert!(buffer.len() < text.len());
    let mut archive = Archive::new(&buffer).unwrap();
    assert_eq!(archive.open("big.txt").unwrap(), text);
}

#[test]
fn an_entry_can_be_read_again() {
    let buffer = archive_of(&[("a.txt", b"first"), ("b.txt", b"second")], CompressionMethod::Stored);
    let mut archive = Archive::new(&buffer).unwrap();
    assert_eq!(archive.open("a.txt").unwrap(), b"first");
    assert_eq!(archive.open("b.txt").unwrap(), b"second");
    assert_eq!(archive.open("a.txt").unwrap(), b"first");
    assert_eq!(archive.list_names(), vec!["a.txt", "b.txt"]);
}

#[test]
fn a_name_that_is_not_there_is_not_found() {
    let buffer = archive_of(&[("a.txt", b"first")], CompressionMethod::Stored);
    let mut archive = Archive::new(&buffer).unwrap();
    assert_eq!(archive.open("b.txt").unwrap_err(), ArchiveError::NotFound);
    assert_eq!(archive.open("A.TXT").unwrap_err(), ArchiveError::NotFound);
    assert_eq!(archive.open("").unwrap_err(), ArchiveError::NotFound);
}

#[test]
fn damaged_entry_data_is_corrupt() {
    let text = [b'x'; 4096];
    let mut buffer = archive_of(&[("big.txt", &text)], CompressionMethod::Stored);
    let start = buffer.windows(4).position(|w| w == b"xxxx").unwrap();
    buffer[start + 100] = b'y';
    let mut archive = Archive::new(&buffer).unwrap();
    assert_eq!(archive.open("big.txt").unwrap_err(), ArchiveError::Corrupt);
}
