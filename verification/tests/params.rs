use nmount::{AsIovec, MntParam, MntParams};

fn text(s: &str) -> MntParam {
    MntParam::try_from(s).unwrap()
}

#[test]
fn try_from_accepts_clean_text() {
    let p = text("rw");
    assert_eq!(p.as_iov().as_slice(), b"rw\0");
}

#[test]
fn try_from_rejects_interior_nul() {
    let r = MntParam::try_from("a\0b");
    match r {
        Err(nmount::LibMountError::NulError(i)) => assert_eq!(i, 1),
        other => panic!("expected a nul-byte error, got {:?}", other),
    }
}

#[test]
fn try_from_reports_first_nul() {
    let r = MntParam::try_from("abc\0d\0e");
    match r {
        Err(nmount::LibMountError::NulError(i)) => assert_eq!(i, 3),
        other => panic!("expected a nul-byte error, got {:?}", other),
    }
}

#[test]
fn trailing_position_nul_is_still_interior() {
    let r = MntParam::try_from("abc\0");
    match r {
        Err(nmount::LibMountError::NulError(i)) => assert_eq!(i, 3),
        other => panic!("expected a nul-byte error, got {:?}", other),
    }
}

#[test]
fn buffer_keeps_bytes_verbatim() {
    let p = MntParam::Buffer(vec![1, 0, 2, 0]);
    assert_eq!(p.as_iov().as_slice(), &[1, 0, 2, 0]);
}

#[test]
fn non_ascii_text_encodes_as_utf8() {
    let p = text("caf\u{e9}");
    assert_eq!(p.as_iov().as_slice(), b"caf\xc3\xa9\0");
}

#[test]
fn nul_after_non_ascii_reports_byte_index() {
    match MntParam::try_from("\u{e9}\0") {
        Err(nmount::LibMountError::NulError(i)) => assert_eq!(i, 2),
        other => panic!("expected a nul-byte error, got {:?}", other),
    }
}

#[test]
fn empty_text_is_just_the_terminator() {
    let p = text("");
    assert_eq!(p.as_iov().as_slice(), b"\0");
}

#[test]
fn insert_adds_and_replaces() {
    let mut params = MntParams::new();
    assert_eq!(params.len(), 0);
    params.insert(text("ro"), text("yes"));
    params.insert(text("from"), text("/a"));
    assert_eq!(params.len(), 2);
    params.insert(text("ro"), text("no"));
    assert_eq!(params.len(), 2);
    let got = params.get(&text("ro")).unwrap();
    assert_eq!(got, &text("no"));
}

#[test]
fn get_misses_absent_keys() {
    let mut params = MntParams::new();
    params.insert(text("ro"), text("yes"));
    assert!(params.get(&text("rw")).is_none());
    assert!(params.get(&MntParam::Buffer(b"ro\0".to_vec())).is_none());
}

#[test]
fn check_wf_sees_duplicates() {
    let mut params = MntParams::new();
    params.insert(text("a"), text("1"));
    params.insert(text("b"), text("2"));
    assert!(params.check_wf());
    params.entries.push((text("a"), text("3")));
    assert!(!params.check_wf());
}

#[test]
fn encode_is_two_descriptors_per_entry() {
    let mut params = MntParams::new();
    params.insert(text("ro"), MntParam::Buffer(vec![7, 0, 9]));
    params.insert(text("from"), text("/somewhere"));
    let iovs = params.as_iovec();
    assert_eq!(iovs.len(), 4);
}

#[test]
fn encode_round_trips_contents() {
    let mut params = MntParams::new();
    let expected: Vec<(&[u8], &[u8])> = vec![
        (b"ro\0", &[7, 0, 9]),
        (b"from\0", b"/somewhere\0"),
        (b"limit\0", b"16\0"),
    ];
    params.insert(text("ro"), MntParam::Buffer(vec![7, 0, 9]));
    params.insert(text("from"), text("/somewhere"));
    params.insert(text("limit"), text("16"));
    let iovs = params.as_iovec();
    assert_eq!(iovs.len(), 2 * expected.len());
    // Copy each descriptor's bytes out and compare; order between pairs is
    // unspecified, so search for each expected pair.
    for (k, v) in expected {
        let mut found = false;
        for i in 0..iovs.len() / 2 {
            let key_bytes: Vec<u8> = iovs[2 * i].clone();
            let val_bytes: Vec<u8> = iovs[2 * i + 1].clone();
            if key_bytes.as_slice() == k {
                assert_eq!(val_bytes.as_slice(), v);
                found = true;
            }
        }
        assert!(found, "no descriptor pair for key {:?}", k);
    }
}

#[test]
fn encode_of_empty_set_is_empty() {
    let params = MntParams::new();
    assert_eq!(params.as_iovec().len(), 0);
}
