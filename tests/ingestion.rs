use hello_web::naming::join_path;
use hello_web::pipeline::{Action, Event, Ingestion, Phase, UploadError};
use hello_web::upload::{text_record, FileResponse, MultipartResponse, Part};

fn text_part(name: &str, value: &[u8]) -> Part {
    let mut p = Part::new(name.to_string(), None, None, None);
    p.push_chunk(value);
    p
}

fn file_part(name: &str, filename: Option<&str>, ext: Option<&str>, bytes: &[u8]) -> Part {
    let mut p = Part::new(
        name.to_string(),
        Some("application/octet-stream".to_string()),
        filename.map(|f| f.to_string()),
        ext.map(|e| e.to_string()),
    );
    p.push_chunk(bytes);
    p
}

fn expect_write(a: Action) -> (String, Vec<u8>) {
    match a {
        Action::Write(w) => (w.path, w.bytes),
        _ => panic!("expected a write request"),
    }
}

fn expect_finish(a: Action) -> Vec<MultipartResponse> {
    match a {
        Action::Finish(v) => v,
        _ => panic!("expected the records"),
    }
}

fn expect_file(r: &MultipartResponse) -> FileResponse {
    match r {
        MultipartResponse::FILE(f) => f.clone(),
        _ => panic!("expected a file record"),
    }
}

#[test]
fn username_and_avatar_scenario() {
    let png: Vec<u8> = vec![0x89, 0x50, 0x4e, 0x47, 0x0d, 0x0a, 0x1a, 0x0a];
    let mut ing = Ingestion::new("uploads".to_string());
    assert!(matches!(ing.step(Event::Part(text_part("username", b"alice"))), Action::ReadNext));
    let (path, bytes) = expect_write(ing.step(Event::Part(file_part("avatar", Some("pic.png"), Some("png"), &png))));
    assert_eq!(path, "uploads/pic.png");
    assert_eq!(bytes, png);
    assert!(ing.phase == Phase::Writing);
    assert!(matches!(ing.step(Event::Written), Action::ReadNext));
    let records = expect_finish(ing.step(Event::StreamEnded));
    assert_eq!(records.len(), 2);
    match &records[0] {
        MultipartResponse::TEXT(t) => {
            assert_eq!(t.name, "username");
            assert_eq!(t.value, "alice");
        }
        _ => panic!("expected a text record"),
    }
    let f = expect_file(&records[1]);
    assert_eq!(f.name, "avatar");
    assert_eq!(f.file_name, "pic.png");
    assert_eq!(f.ext, "png");
    assert_eq!(f.size(), png.len());
    assert_eq!(f.value, png);
    assert!(ing.phase == Phase::Ended);
}

#[test]
fn text_only_stream_keeps_order_and_writes_nothing() {
    let mut ing = Ingestion::new("d".to_string());
    let fields = [("a", "1"), ("b", "two"), ("a", "three")];
    for (n, v) in fields.iter() {
        assert!(matches!(ing.step(Event::Part(text_part(n, v.as_bytes()))), Action::ReadNext));
    }
    let records = expect_finish(ing.step(Event::StreamEnded));
    assert_eq!(records.len(), 3);
    for (i, (n, v)) in fields.iter().enumerate() {
        match &records[i] {
            MultipartResponse::TEXT(t) => {
                assert_eq!(t.name, *n);
                assert_eq!(t.value, *v);
            }
            _ => panic!("expected a text record"),
        }
    }
}

#[test]
fn empty_stream_gives_no_records() {
    let mut ing = Ingestion::new("d".to_string());
    assert!(expect_finish(ing.step(Event::StreamEnded)).is_empty());
}

#[test]
fn declared_filename_is_kept_when_already_safe() {
    let mut ing = Ingestion::new("/srv/in".to_string());
    let (path, bytes) = expect_write(ing.step(Event::Part(file_part("doc", Some("report.pdf"), Some("pdf"), b"%PDF-1.4"))));
    assert_eq!(path, "/srv/in/report.pdf");
    assert_eq!(bytes, b"%PDF-1.4".to_vec());
}

#[test]
fn file_without_filename_gets_a_fresh_identifier() {
    let mut names = Vec::new();
    for _ in 0..2 {
        let mut ing = Ingestion::new("d".to_string());
        let (path, _) = expect_write(ing.step(Event::Part(file_part("blob", None, None, b"xyz"))));
        assert!(matches!(ing.step(Event::Written), Action::ReadNext));
        let records = expect_finish(ing.step(Event::StreamEnded));
        let f = expect_file(&records[0]);
        assert_eq!(path, format!("d/{}", f.file_name));
        assert_eq!(f.file_name.len(), 36);
        assert_eq!(f.ext, "");
        for (i, c) in f.file_name.chars().enumerate() {
            if i == 8 || i == 13 || i == 18 || i == 23 {
                assert_eq!(c, '-');
            } else {
                assert!(c.is_ascii_hexdigit() && !c.is_ascii_uppercase());
            }
        }
        names.push(f.file_name);
    }
    assert_ne!(names[0], names[1]);
}

#[test]
fn traversal_in_filename_stays_inside_directory() {
    let mut ing = Ingestion::new("dest".to_string());
    let (path, _) = expect_write(ing.step(Event::Part(file_part("f", Some("../../etc/passwd"), None, b"root"))));
    let rest = path.strip_prefix("dest/").unwrap();
    assert!(!rest.contains('/'));
    assert!(!rest.contains('\\'));
    assert_ne!(rest, "..");
    assert_ne!(rest, ".");
    assert_eq!(rest, "....etcpasswd");
}

#[test]
fn dots_only_filename_is_emptied() {
    let mut ing = Ingestion::new("dest".to_string());
    let (path, _) = expect_write(ing.step(Event::Part(file_part("f", Some(".."), None, b""))));
    assert_eq!(path, "dest/");
}

#[test]
fn write_failure_aborts_without_records() {
    let mut ing = Ingestion::new("d".to_string());
    assert!(matches!(ing.step(Event::Part(text_part("t", b"x"))), Action::ReadNext));
    expect_write(ing.step(Event::Part(file_part("f", Some("a.bin"), None, b"1"))));
    assert!(matches!(ing.step(Event::Written), Action::ReadNext));
    expect_write(ing.step(Event::Part(file_part("g", Some("b.bin"), None, b"2"))));
    match ing.step(Event::WriteFailed("disk full".to_string())) {
        Action::Abort(e) => {
            assert!(matches!(e, UploadError::Persistence(_)));
            assert_eq!(e.message(), "disk full");
        }
        _ => panic!("expected an abort"),
    }
    assert!(ing.phase == Phase::Failed);
    match ing.step(Event::StreamEnded) {
        Action::Abort(UploadError::Malformed) => {}
        _ => panic!("a failed ingestion must not hand out records"),
    }
}

#[test]
fn stream_failure_aborts() {
    let mut ing = Ingestion::new("d".to_string());
    assert!(matches!(ing.step(Event::Part(text_part("t", b"x"))), Action::ReadNext));
    match ing.step(Event::StreamFailed("truncated".to_string())) {
        Action::Abort(e) => {
            assert!(matches!(e, UploadError::Stream(_)));
            assert_eq!(e.message(), "truncated");
        }
        _ => panic!("expected an abort"),
    }
}

#[test]
fn out_of_order_event_is_malformed() {
    let mut ing = Ingestion::new("d".to_string());
    match ing.step(Event::Written) {
        Action::Abort(e) => {
            assert!(matches!(e, UploadError::Malformed));
            assert_eq!(e.message(), "malformed multipart stream");
        }
        _ => panic!("expected an abort"),
    }
    let mut ing = Ingestion::new("d".to_string());
    expect_write(ing.step(Event::Part(file_part("f", Some("a"), None, b""))));
    assert!(matches!(ing.step(Event::Part(text_part("t", b"x"))), Action::Abort(UploadError::Malformed)));
}

#[test]
fn invalid_utf8_text_becomes_empty() {
    let t = text_record("bin".to_string(), &[0xff, 0xfe, 0x00]);
    assert_eq!(t.name, "bin");
    assert_eq!(t.value, "");
    let t = text_record("ok".to_string(), "héllo".as_bytes());
    assert_eq!(t.value, "héllo");
}

#[test]
fn binary_without_content_type_is_text() {
    let mut ing = Ingestion::new("d".to_string());
    assert!(matches!(ing.step(Event::Part(text_part("blob", &[0xc3, 0x28]))), Action::ReadNext));
    let records = expect_finish(ing.step(Event::StreamEnded));
    match &records[0] {
        MultipartResponse::TEXT(t) => assert_eq!(t.value, ""),
        _ => panic!("expected a text record"),
    }
}

#[test]
fn chunks_are_concatenated_in_order() {
    let mut p = Part::new("f".to_string(), Some("text/plain".to_string()), Some("a.txt".to_string()), None);
    p.push_chunk(b"ab");
    p.push_chunk(b"");
    p.push_chunk(b"cde");
    assert_eq!(p.bytes, b"abcde".to_vec());
    assert!(p.is_file());
    let mut ing = Ingestion::new("d".to_string());
    let (_, bytes) = expect_write(ing.step(Event::Part(p)));
    assert_eq!(bytes, b"abcde".to_vec());
}

#[test]
fn paths_are_joined_with_a_slash() {
    assert_eq!(join_path(&"./tmp".to_string(), &"x.png".to_string()), "./tmp/x.png");
    assert_eq!(join_path(&"".to_string(), &"".to_string()), "/");
}

#[test]
fn declared_filename_is_sanitized() {
    let name = hello_web::upload::resolve_stored_name(&Some("a/b\\c:d*.txt".to_string()), "unused".to_string());
    assert_eq!(name, "abcd.txt");
    let name = hello_web::upload::resolve_stored_name(&None, "given-id".to_string());
    assert_eq!(name, "given-id");
}

#[test]
fn plan_file_builds_record_and_request() {
    let (f, w) = hello_web::upload::plan_file(
        "field".to_string(),
        "stored.bin".to_string(),
        None,
        vec![1, 2, 3],
        &"dir".to_string(),
    );
    assert_eq!(f.name, "field");
    assert_eq!(f.file_name, "stored.bin");
    assert_eq!(f.ext, "");
    assert_eq!(f.value, vec![1, 2, 3]);
    assert_eq!(w.path, "dir/stored.bin");
    assert_eq!(w.bytes, vec![1, 2, 3]);
}

#[test]
fn step_with_uses_the_given_identifier() {
    let mut ing = Ingestion::new("d".to_string());
    let (path, bytes) = expect_write(ing.step_with(Event::Part(file_part("f", None, Some("bin"), b"\x00\x01")), "id-1".to_string()));
    assert_eq!(path, "d/id-1");
    assert_eq!(bytes, vec![0u8, 1]);
    assert!(matches!(ing.step_with(Event::Written, String::new()), Action::ReadNext));
    let records = expect_finish(ing.step_with(Event::StreamEnded, String::new()));
    let f = expect_file(&records[0]);
    assert_eq!(f.file_name, "id-1");
    assert_eq!(f.ext, "bin");
    assert!(ing.records.is_empty());
}

#[test]
fn text_part_ignores_filename_metadata() {
    let mut p = Part::new("t".to_string(), None, Some("x.txt".to_string()), None);
    p.push_chunk(b"hi");
    assert!(!p.is_file());
    assert!(!hello_web::upload::needs_identifier(&p));
    let mut ing = Ingestion::new("d".to_string());
    assert!(matches!(ing.step(Event::Part(p)), Action::ReadNext));
}
