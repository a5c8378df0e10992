use opfs::memory::{DirectoryHandle, FileHandle, MemoryError, MemoryStore, WritableFileStream};
use opfs::range::ByteRange;
use opfs::{
    CreateWritableOptions, DirectoryEntry, FileSystemRemoveOptions, GetDirectoryHandleOptions,
    GetFileHandleOptions, WriteCommandType, WriteParams,
};

fn make_file(fs: &mut MemoryStore, dir: DirectoryHandle, name: &str, content: &[u8]) -> FileHandle {
    let h = dir
        .get_file_handle_with_options(fs, name, &GetFileHandleOptions { create: true })
        .unwrap();
    let mut w = h.create_writable_with_options(fs, &CreateWritableOptions { keep_existing_data: false });
    w.write_at_cursor_pos(content.to_vec()).unwrap();
    w.close(fs).unwrap();
    h
}

#[test]
fn round_trip_write_close_read() {
    let mut fs = MemoryStore::new();
    let root = fs.root();
    let h = make_file(&mut fs, root, "data.bin", &[10, 20, 30, 40]);
    assert_eq!(h.read(&fs), vec![10u8, 20, 30, 40]);
    assert_eq!(h.size(&fs), 4);
}

#[test]
fn nothing_visible_before_close() {
    let mut fs = MemoryStore::new();
    let root = fs.root();
    let h = make_file(&mut fs, root, "f", b"old");
    let mut w = h.create_writable_with_options(&fs, &CreateWritableOptions { keep_existing_data: false });
    w.write_at_cursor_pos(b"new!".to_vec()).unwrap();
    assert_eq!(h.read(&fs), b"old".to_vec());
    w.close(&mut fs).unwrap();
    assert_eq!(h.read(&fs), b"new!".to_vec());
}

#[test]
fn keep_existing_data_preserves_content() {
    let mut fs = MemoryStore::new();
    let root = fs.root();
    let h = make_file(&mut fs, root, "f", &[1, 2, 3]);
    let mut w = h.create_writable_with_options(&fs, &CreateWritableOptions { keep_existing_data: true });
    assert_eq!(w.cursor, 0);
    w.close(&mut fs).unwrap();
    assert_eq!(h.read(&fs), vec![1u8, 2, 3]);
}

#[test]
fn discarding_stream_starts_empty() {
    let mut fs = MemoryStore::new();
    let root = fs.root();
    let h = make_file(&mut fs, root, "f", &[1, 2, 3]);
    let mut w = h.create_writable_with_options(&fs, &CreateWritableOptions { keep_existing_data: false });
    w.close(&mut fs).unwrap();
    assert_eq!(h.read(&fs), Vec::<u8>::new());
}

#[test]
fn seek_then_write_overwrites_and_extends() {
    let mut fs = MemoryStore::new();
    let root = fs.root();
    let h = make_file(&mut fs, root, "f", &[1, 2, 3, 4, 5, 6]);
    let mut w = h.create_writable_with_options(&fs, &CreateWritableOptions { keep_existing_data: true });
    w.seek(2).unwrap();
    w.write_at_cursor_pos(vec![9, 9]).unwrap();
    assert_eq!(w.cursor, 4);
    w.close(&mut fs).unwrap();
    assert_eq!(h.read(&fs), vec![1u8, 2, 9, 9, 5, 6]);
}

#[test]
fn seek_past_end_zero_fills_on_write() {
    let mut fs = MemoryStore::new();
    let root = fs.root();
    let h = make_file(&mut fs, root, "f", &[1]);
    let mut w = h.create_writable_with_options(&fs, &CreateWritableOptions { keep_existing_data: true });
    w.seek(3).unwrap();
    w.write_at_cursor_pos(vec![7]).unwrap();
    w.close(&mut fs).unwrap();
    assert_eq!(h.read(&fs), vec![1u8, 0, 0, 7]);
}

#[test]
fn truncate_growth_zero_fills() {
    let mut fs = MemoryStore::new();
    let root = fs.root();
    let h = make_file(&mut fs, root, "f", &[1, 2, 3]);
    let mut w = h.create_writable_with_options(&fs, &CreateWritableOptions { keep_existing_data: true });
    w.truncate(6).unwrap();
    w.close(&mut fs).unwrap();
    assert_eq!(h.read(&fs), vec![1u8, 2, 3, 0, 0, 0]);
}

#[test]
fn truncate_shrink_discards_and_clamps_cursor() {
    let mut fs = MemoryStore::new();
    let root = fs.root();
    let h = make_file(&mut fs, root, "f", &[1, 2, 3, 4, 5]);
    let mut w = h.create_writable_with_options(&fs, &CreateWritableOptions { keep_existing_data: true });
    w.seek(5).unwrap();
    w.truncate(2).unwrap();
    assert_eq!(w.cursor, 2);
    w.truncate(4).unwrap();
    assert_eq!(w.cursor, 2);
    w.close(&mut fs).unwrap();
    assert_eq!(h.read(&fs), vec![1u8, 2, 0, 0]);
}

#[test]
fn write_with_params_all_commands() {
    let mut fs = MemoryStore::new();
    let root = fs.root();
    let h = make_file(&mut fs, root, "f", &[1, 2, 3, 4]);
    let mut w = h.create_writable_with_options(&fs, &CreateWritableOptions { keep_existing_data: true });
    w.write_with_params(&WriteParams {
        command_type: WriteCommandType::Seek,
        data: None,
        position: Some(1),
        size: None,
    })
    .unwrap();
    assert_eq!(w.cursor, 1);
    w.write_with_params(&WriteParams {
        command_type: WriteCommandType::Write,
        data: Some(vec![8, 8]),
        position: None,
        size: None,
    })
    .unwrap();
    assert_eq!(w.cursor, 3);
    w.write_with_params(&WriteParams {
        command_type: WriteCommandType::Write,
        data: Some(vec![5]),
        position: Some(0),
        size: None,
    })
    .unwrap();
    assert_eq!(w.cursor, 1);
    w.write_with_params(&WriteParams {
        command_type: WriteCommandType::Truncate,
        data: None,
        position: None,
        size: Some(3),
    })
    .unwrap();
    w.close(&mut fs).unwrap();
    assert_eq!(h.read(&fs), vec![5u8, 8, 8]);
}

#[test]
fn closed_stream_rejects_everything() {
    let mut fs = MemoryStore::new();
    let root = fs.root();
    let h = make_file(&mut fs, root, "f", &[1]);
    let mut w = h.create_writable_with_options(&fs, &CreateWritableOptions { keep_existing_data: true });
    w.close(&mut fs).unwrap();
    assert_eq!(w.write_at_cursor_pos(vec![1]), Err(MemoryError::AlreadyClosed));
    assert_eq!(w.seek(0), Err(MemoryError::AlreadyClosed));
    assert_eq!(w.truncate(0), Err(MemoryError::AlreadyClosed));
    assert_eq!(w.close(&mut fs), Err(MemoryError::AlreadyClosed));
    assert_eq!(h.read(&fs), vec![1u8]);
}

#[test]
fn missing_file_without_create_fails() {
    let mut fs = MemoryStore::new();
    let root = fs.root();
    let r = root.get_file_handle_with_options(&mut fs, "nope", &GetFileHandleOptions { create: false });
    assert_eq!(r, Err(MemoryError::NotFound));
    let r = root.get_directory_handle_with_options(
        &mut fs,
        "nope",
        &GetDirectoryHandleOptions { create: false },
    );
    assert_eq!(r, Err(MemoryError::NotFound));
    assert_eq!(root.remove_entry(&mut fs, "nope"), Err(MemoryError::NotFound));
}

#[test]
fn wrong_kind_is_type_mismatch() {
    let mut fs = MemoryStore::new();
    let root = fs.root();
    make_file(&mut fs, root, "plain", b"x");
    root.get_directory_handle_with_options(&mut fs, "sub", &GetDirectoryHandleOptions { create: true })
        .unwrap();
    let r = root.get_directory_handle_with_options(
        &mut fs,
        "plain",
        &GetDirectoryHandleOptions { create: false },
    );
    assert_eq!(r, Err(MemoryError::TypeMismatch));
    let r = root.get_file_handle_with_options(&mut fs, "sub", &GetFileHandleOptions { create: true });
    assert_eq!(r, Err(MemoryError::TypeMismatch));
}

#[test]
fn existing_lookup_returns_same_file() {
    let mut fs = MemoryStore::new();
    let root = fs.root();
    let h1 = make_file(&mut fs, root, "f", b"abc");
    let h2 = root
        .get_file_handle_with_options(&mut fs, "f", &GetFileHandleOptions { create: true })
        .unwrap();
    assert_eq!(h1, h2);
    assert_eq!(h2.read(&fs), b"abc".to_vec());
}

#[test]
fn remove_non_empty_dir_needs_recursive() {
    let mut fs = MemoryStore::new();
    let root = fs.root();
    let sub = root
        .get_directory_handle_with_options(&mut fs, "sub", &GetDirectoryHandleOptions { create: true })
        .unwrap();
    make_file(&mut fs, sub, "inner", b"x");
    assert_eq!(root.remove_entry(&mut fs, "sub"), Err(MemoryError::NotEmpty));
    assert_eq!(
        root.remove_entry_with_options(&mut fs, "sub", &FileSystemRemoveOptions { recursive: false }),
        Err(MemoryError::NotEmpty)
    );
    root.remove_entry_with_options(&mut fs, "sub", &FileSystemRemoveOptions { recursive: true })
        .unwrap();
    assert_eq!(
        root.get_directory_handle_with_options(
            &mut fs,
            "sub",
            &GetDirectoryHandleOptions { create: false }
        ),
        Err(MemoryError::NotFound)
    );
}

#[test]
fn remove_empty_dir_and_file() {
    let mut fs = MemoryStore::new();
    let root = fs.root();
    root.get_directory_handle_with_options(&mut fs, "d", &GetDirectoryHandleOptions { create: true })
        .unwrap();
    make_file(&mut fs, root, "f", b"x");
    root.remove_entry(&mut fs, "d").unwrap();
    root.remove_entry(&mut fs, "f").unwrap();
    assert_eq!(root.entries(&fs).len(), 0);
}

#[test]
fn enumeration_lists_each_child_once_with_kind() {
    let mut fs = MemoryStore::new();
    let root = fs.root();
    make_file(&mut fs, root, "a", b"1");
    root.get_directory_handle_with_options(&mut fs, "b", &GetDirectoryHandleOptions { create: true })
        .unwrap();
    make_file(&mut fs, root, "c", b"3");
    let listed = root.entries(&fs);
    assert_eq!(listed.len(), 3);
    let mut names: Vec<String> = listed.iter().map(|e| e.0.clone()).collect();
    names.sort();
    assert_eq!(names, vec!["a".to_string(), "b".to_string(), "c".to_string()]);
    for (name, entry) in &listed {
        match entry {
            DirectoryEntry::File(_) => assert!(name == "a" || name == "c"),
            DirectoryEntry::Directory(_) => assert!(name == "b"),
        }
    }
}

#[test]
fn example_scenario() {
    let mut fs = MemoryStore::new();
    let root = fs.root();
    let file = root
        .get_file_handle_with_options(&mut fs, "example.txt", &GetFileHandleOptions { create: true })
        .unwrap();
    let mut writer =
        file.create_writable_with_options(&fs, &CreateWritableOptions { keep_existing_data: false });
    let text = b"Hello, World! This is a test file.";
    writer.write_at_cursor_pos(text.to_vec()).unwrap();
    writer.close(&mut fs).unwrap();
    assert_eq!(file.read(&fs), text.to_vec());
    assert_eq!(file.size(&fs), text.len());
    assert_eq!(file.read_range(&fs, &ByteRange::half_open(0, 5)), b"Hello".to_vec());
    assert_eq!(
        file.read_range(&fs, &ByteRange::from_start(7)),
        b"World! This is a test file.".to_vec()
    );
    assert_eq!(file.read_range(&fs, &ByteRange::closed(7, 12)), b"World!".to_vec());
}

#[test]
fn two_handles_share_one_file() {
    let mut fs = MemoryStore::new();
    let root = fs.root();
    let h1 = make_file(&mut fs, root, "f", b"one");
    let h2 = root
        .get_file_handle_with_options(&mut fs, "f", &GetFileHandleOptions { create: false })
        .unwrap();
    let mut w: WritableFileStream =
        h1.create_writable_with_options(&fs, &CreateWritableOptions { keep_existing_data: false });
    w.write_at_cursor_pos(b"two".to_vec()).unwrap();
    w.close(&mut fs).unwrap();
    assert_eq!(h2.read(&fs), b"two".to_vec());
}

#[test]
fn nested_directories_resolve() {
    let mut fs = MemoryStore::new();
    let root = fs.root();
    let a = root
        .get_directory_handle_with_options(&mut fs, "a", &GetDirectoryHandleOptions { create: true })
        .unwrap();
    let b = a
        .get_directory_handle_with_options(&mut fs, "b", &GetDirectoryHandleOptions { create: true })
        .unwrap();
    make_file(&mut fs, b, "deep", b"down");
    let again = a
        .get_directory_handle_with_options(&mut fs, "b", &GetDirectoryHandleOptions { create: false })
        .unwrap();
    let f = again
        .get_file_handle_with_options(&mut fs, "deep", &GetFileHandleOptions { create: false })
        .unwrap();
    assert_eq!(f.read(&fs), b"down".to_vec());
}
