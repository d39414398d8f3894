use backend::worker::{classify_exit, last_result_payload, lossy_text, WorkerError, WorkerMeshDecoder};

#[test]
fn the_last_result_line_carries_the_payload() {
    let out = b"P 0.5\nR {\"a\":1}\nlog\nR {\"b\":2}\n";
    assert_eq!(last_result_payload(out).as_deref(), Some("{\"b\":2}"));
    assert_eq!(last_result_payload(b"E boom\n"), None);
}

#[test]
fn exits_are_classified() {
    assert_eq!(classify_exit(true, Some(0), b"ok".to_vec(), b"").unwrap(), b"ok".to_vec());
    match classify_exit(false, Some(2), vec![], b"  erreur \n") {
        Err(WorkerError::Failed { code, stderr }) => {
            assert_eq!(code, 2);
            assert_eq!(stderr, "erreur");
        }
        other => panic!("{other:?}"),
    }
    assert!(matches!(
        classify_exit(false, None, vec![], b"segfault"),
        Err(WorkerError::Crashed { .. })
    ));
    assert_eq!(WorkerMeshDecoder::new().timeout_secs, 120);
}

#[test]
fn lossy_text_keeps_valid_utf8() {
    assert_eq!(lossy_text("déjà vu".as_bytes()), "déjà vu");
    assert_eq!(lossy_text(&[b'a', 0xff, b'b']), "a\u{fffd}b");
}
