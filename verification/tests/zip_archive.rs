use std::io::{Cursor, Write};

use codex_plus_core::plugin_marketplace::{exact_extraction_plan, ZipEntryInfo, ZipPathError};
use codex_plus_core::zip_archive::{open_zip, zip_entry_contents, zip_entry_list, ZipReadError};
use zip::write::SimpleFileOptions;
use zip::ZipWriter;

fn archive(entries: &[(&str, Option<&[u8]>)]) -> Vec<u8> {
    let mut writer = ZipWriter::new(Cursor::new(Vec::new()));
    let options = SimpleFileOptions::default().compression_method(zip::CompressionMethod::Stored);
    for (name, contents) in entries {
        match contents {
            None => writer.add_directory(*name, options).unwrap(),
            Some(data) => {
                writer.start_file(*name, options).unwrap();
                writer.write_all(data).unwrap();
            }
        }
    }
    writer.finish().unwrap().into_inner()
}

#[test]
fn zip_entries_are_listed_in_order() {
    let bytes = archive(&[("plugins-main/", None), ("plugins-main/a.txt", Some(b"hello"))]);
    let entries = zip_entry_list(&bytes).unwrap();
    assert_eq!(
        entries,
        vec![
            ZipEntryInfo { name: "plugins-main/".to_string(), is_dir: true },
            ZipEntryInfo { name: "plugins-main/a.txt".to_string(), is_dir: false },
        ]
    );
}

#[test]
fn bytes_that_hold_no_archive_are_refused() {
    assert_eq!(zip_entry_list(b"not a zip archive"), Err(ZipReadError::Unreadable));
    assert_eq!(zip_entry_list(&[]), Err(ZipReadError::Unreadable));
}

#[test]
fn exact_plan_fails_at_the_first_refused_entry() {
    let entries = vec![
        ZipEntryInfo { name: "ok.txt".to_string(), is_dir: false },
        ZipEntryInfo { name: "".to_string(), is_dir: false },
        ZipEntryInfo { name: "../evil".to_string(), is_dir: false },
    ];
    assert_eq!(exact_extraction_plan("/dest", &entries), Err(ZipPathError::EmptyPath));
    let entries = vec![
        ZipEntryInfo { name: "../evil".to_string(), is_dir: false },
        ZipEntryInfo { name: "".to_string(), is_dir: false },
    ];
    assert_eq!(exact_extraction_plan("/dest", &entries), Err(ZipPathError::EscapesDestination));
}

#[test]
fn zip_entry_contents_are_read_by_index() {
    let bytes = archive(&[("root/", None), ("root/a.txt", Some(b"hello")), ("root/b.bin", Some(&[0u8, 1, 2]))]);
    let mut opened = open_zip(&bytes).unwrap();
    assert_eq!(zip_entry_contents(&mut opened, 1).unwrap(), b"hello".to_vec());
    assert_eq!(zip_entry_contents(&mut opened, 2).unwrap(), vec![0u8, 1, 2]);
    assert_eq!(zip_entry_contents(&mut opened, 0).unwrap(), Vec::<u8>::new());
    assert_eq!(zip_entry_contents(&mut opened, 3), Err(ZipReadError::Entry(3)));
    assert!(matches!(open_zip(b"nope"), Err(ZipReadError::Unreadable)));
}
