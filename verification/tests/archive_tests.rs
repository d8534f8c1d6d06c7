use std::io::Write;
use viv_board::archive::{read_board_zip, write_board_zip, MediaEntry};
use viv_board::errors::ArchiveError;
use viv_board::extract::{assemble_load_result, plan_extraction};

fn entry(id: &str, source_path: &str) -> MediaEntry {
    MediaEntry { id: id.to_string(), source_path: source_path.to_string() }
}

/// A zip container built directly with the zip crate, for shaping archives
/// the library's writer would never produce.
fn raw_zip(files: &[(&str, &[u8])], dirs: &[&str]) -> Vec<u8> {
    let mut w = zip::ZipWriter::new(std::io::Cursor::new(Vec::new()));
    let options = zip::write::SimpleFileOptions::default()
        .compression_method(zip::CompressionMethod::Stored);
    for name in dirs {
        w.add_directory(*name, options).unwrap();
    }
    for (name, data) in files {
        w.start_file(*name, options).unwrap();
        w.write_all(data).unwrap();
    }
    w.finish().unwrap().into_inner()
}

#[test]
fn round_trip_json_and_media() {
    let json = "{\"title\":\"board\",\"items\":[1,2,3]}";
    let media = vec![entry("img1", "/assets/photo.png"), entry("clip", "/assets/video.mp4")];
    let data = vec![Some(vec![1u8, 2, 3]), Some(vec![9u8, 8])];
    let written = write_board_zip(json, &media, &data).unwrap();
    assert!(written.skipped_ids.is_empty());

    let (loaded_json, raw) = read_board_zip(written.bytes).unwrap();
    assert_eq!(loaded_json, json);
    assert_eq!(raw.len(), 2);
    assert_eq!(raw[0].id, "img1");
    assert_eq!(raw[0].file_name, "img1.png");
    assert_eq!(raw[0].data, vec![1u8, 2, 3]);
    assert_eq!(raw[1].id, "clip");
    assert_eq!(raw[1].file_name, "clip.mp4");
    assert_eq!(raw[1].data, vec![9u8, 8]);

    let (loaded, writes) = plan_extraction("/staging", raw);
    assert_eq!(loaded.len(), 2);
    assert_eq!(loaded[0].id, "img1");
    assert_eq!(loaded[0].temp_path, "/staging/img1.png");
    assert_eq!(writes[0].path, "/staging/img1.png");
    assert_eq!(writes[0].data, vec![1u8, 2, 3]);
    assert_eq!(loaded[1].temp_path, "/staging/clip.mp4");

    let result = assemble_load_result(loaded_json, loaded);
    assert_eq!(result.json, json);
    assert_eq!(result.media.len(), 2);
}

#[test]
fn id_with_dots_recovers_exactly() {
    let media = vec![entry("abc.def", "/somewhere/x.png")];
    let data = vec![Some(vec![42u8])];
    let written = write_board_zip("{}", &media, &data).unwrap();
    let (_, raw) = read_board_zip(written.bytes).unwrap();
    assert_eq!(raw.len(), 1);
    assert_eq!(raw[0].file_name, "abc.def.png");
    assert_eq!(raw[0].id, "abc.def");
}

#[test]
fn missing_extension_becomes_bin() {
    let media = vec![entry("plain", "/somewhere/noext")];
    let data = vec![Some(vec![0u8])];
    let written = write_board_zip("{}", &media, &data).unwrap();
    let (_, raw) = read_board_zip(written.bytes).unwrap();
    assert_eq!(raw[0].file_name, "plain.bin");
    assert_eq!(raw[0].id, "plain");
}

#[test]
fn extension_is_lower_cased() {
    let media = vec![entry("shot", "/camera/IMG.JPG")];
    let data = vec![Some(vec![7u8])];
    let written = write_board_zip("{}", &media, &data).unwrap();
    let (_, raw) = read_board_zip(written.bytes).unwrap();
    assert_eq!(raw[0].file_name, "shot.jpg");
}

#[test]
fn multi_dot_source_takes_last_extension() {
    let media = vec![entry("tarball", "/tmp/archive.tar.gz")];
    let data = vec![Some(vec![1u8])];
    let written = write_board_zip("{}", &media, &data).unwrap();
    let (_, raw) = read_board_zip(written.bytes).unwrap();
    assert_eq!(raw[0].file_name, "tarball.gz");
}

#[test]
fn hidden_file_has_no_extension() {
    let media = vec![entry("dots", "/home/user/.bashrc")];
    let data = vec![Some(vec![1u8])];
    let written = write_board_zip("{}", &media, &data).unwrap();
    let (_, raw) = read_board_zip(written.bytes).unwrap();
    assert_eq!(raw[0].file_name, "dots.bin");
}

#[test]
fn missing_source_is_skipped_and_save_succeeds() {
    let media = vec![
        entry("one", "/a/1.png"),
        entry("two", "/a/2.png"),
        entry("three", "/a/3.png"),
    ];
    let data = vec![Some(vec![1u8]), None, Some(vec![3u8])];
    let written = write_board_zip("{\"k\":0}", &media, &data).unwrap();
    assert_eq!(written.skipped_ids, vec!["two".to_string()]);

    let (json, raw) = read_board_zip(written.bytes).unwrap();
    assert_eq!(json, "{\"k\":0}");
    assert_eq!(raw.len(), 2);
    assert_eq!(raw[0].id, "one");
    assert_eq!(raw[1].id, "three");
}

#[test]
fn missing_board_json_is_a_format_error() {
    let bytes = raw_zip(&[("media/x.png", &[1u8, 2])], &[]);
    let err = read_board_zip(bytes).unwrap_err();
    assert!(matches!(err, ArchiveError::FormatError(_)));
}

#[test]
fn garbage_bytes_are_a_format_error() {
    let err = read_board_zip(vec![0u8, 1, 2, 3]).unwrap_err();
    assert!(matches!(err, ArchiveError::FormatError(_)));
}

#[test]
fn non_utf8_board_is_a_format_error() {
    let bytes = raw_zip(&[("board.json", &[0xffu8, 0xfe])], &[]);
    let err = read_board_zip(bytes).unwrap_err();
    assert!(matches!(err, ArchiveError::FormatError(_)));
}

#[test]
fn directory_marker_entry_is_ignored() {
    let bytes = raw_zip(&[("board.json", b"{}")], &["media"]);
    let (json, raw) = read_board_zip(bytes).unwrap();
    assert_eq!(json, "{}");
    assert!(raw.is_empty());
}

#[test]
fn unrelated_entries_are_ignored() {
    let bytes = raw_zip(
        &[("board.json", b"{}"), ("notes.txt", b"hi"), ("media/pic.png", &[5u8])],
        &[],
    );
    let (_, raw) = read_board_zip(bytes).unwrap();
    assert_eq!(raw.len(), 1);
    assert_eq!(raw[0].id, "pic");
}

#[test]
fn loading_twice_plans_the_same_paths() {
    let media = vec![entry("img", "/a/b.png")];
    let data = vec![Some(vec![1u8, 2])];
    let written = write_board_zip("{}", &media, &data).unwrap();
    let bytes = written.bytes;

    let (_, raw1) = read_board_zip(bytes.clone()).unwrap();
    let (_, raw2) = read_board_zip(bytes).unwrap();
    let (loaded1, writes1) = plan_extraction("/stage", raw1);
    let (loaded2, writes2) = plan_extraction("/stage", raw2);
    assert_eq!(loaded1.len(), loaded2.len());
    assert_eq!(loaded1[0].temp_path, loaded2[0].temp_path);
    assert_eq!(writes1[0].path, writes2[0].path);
    assert_eq!(writes1[0].data, writes2[0].data);
}

#[test]
fn board_bytes_are_exact() {
    let json = "  {\"spaced\": true}\n";
    let written = write_board_zip(json, &Vec::new(), &Vec::new()).unwrap();
    let (loaded, _) = read_board_zip(written.bytes).unwrap();
    assert_eq!(loaded, json);
}

#[test]
fn duplicate_media_ids_abort_the_save() {
    // Ids are the caller's responsibility; a collision cannot silently
    // produce a container with two entries of one name.
    let media = vec![entry("same", "/a/x.png"), entry("same", "/b/y.png")];
    let data = vec![Some(vec![1u8]), Some(vec![2u8])];
    let err = write_board_zip("{}", &media, &data).unwrap_err();
    assert!(matches!(err, ArchiveError::IoError(_)));
}

#[test]
fn media_file_name_without_dot_is_its_own_id() {
    let bytes = raw_zip(&[("board.json", b"{}"), ("media/nodot", &[3u8])], &[]);
    let (_, raw) = read_board_zip(bytes).unwrap();
    assert_eq!(raw[0].id, "nodot");
    assert_eq!(raw[0].file_name, "nodot");
}

#[test]
fn nested_media_name_splits_on_last_dot() {
    let bytes = raw_zip(&[("board.json", b"{}"), ("media/sub/file.png", &[3u8])], &[]);
    let (_, raw) = read_board_zip(bytes).unwrap();
    assert_eq!(raw[0].id, "sub/file");
    assert_eq!(raw[0].file_name, "sub/file.png");
}

#[test]
fn empty_board_json_round_trips() {
    let written = write_board_zip("", &Vec::new(), &Vec::new()).unwrap();
    let (loaded, raw) = read_board_zip(written.bytes).unwrap();
    assert_eq!(loaded, "");
    assert!(raw.is_empty());
}

#[test]
fn non_ascii_board_json_round_trips() {
    let json = "{\"titre\":\"pièce jointe — média\"}";
    let written = write_board_zip(json, &Vec::new(), &Vec::new()).unwrap();
    let (loaded, _) = read_board_zip(written.bytes).unwrap();
    assert_eq!(loaded, json);
}

#[test]
fn error_messages_name_their_cause() {
    let cancelled = ArchiveError::Cancelled;
    assert_eq!(cancelled.message(), "user cancelled file dialog");
    let io = ArchiveError::IoError("disk full".to_string());
    assert_eq!(io.message(), "I/O error: disk full");
    let format = ArchiveError::FormatError("bad header".to_string());
    assert_eq!(format.message(), "not a valid board archive: bad header");
    let lock = ArchiveError::LockError;
    assert_eq!(lock.message(), "failed to lock session state");
}
