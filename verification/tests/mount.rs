use nmount::{
    AsIovec, LibMountError, MntParam, MntParams, effective_flags, mount_devfs, mount_fdescfs, mount_nullfs,
    mount_procfs, mount_result, nmount_request, unmount_request,
};

fn text(s: &str) -> MntParam {
    MntParam::try_from(s).unwrap()
}

#[test]
fn effective_flags_default_to_zero() {
    assert_eq!(effective_flags(None), 0);
    assert_eq!(effective_flags(Some(0)), 0);
    assert_eq!(effective_flags(Some(5)), 5);
}

#[test]
fn nmount_request_keeps_params_and_flags() {
    let mut params = MntParams::new();
    params.insert(text("fstype"), text("procfs"));
    let call = nmount_request(params.clone(), Some(3));
    assert_eq!(call.params, params);
    assert_eq!(call.flags, 3);
    assert_eq!(nmount_request(params, None).flags, 0);
}

#[test]
fn builder_overrides_caller_options() {
    let mut options = MntParams::new();
    options.insert(text("fspath"), text("/ignored"));
    let call = mount_nullfs("/src", "/dst", Some(options), None).unwrap();
    let fspath = call.params.get(&text("fspath")).unwrap();
    assert_eq!(fspath, &text("/dst"));
    let target = call.params.get(&text("target")).unwrap();
    assert_eq!(target, &text("/src"));
    let fstype = call.params.get(&text("fstype")).unwrap();
    assert_eq!(fstype, &text("nullfs"));
}

#[test]
fn builder_keeps_other_options() {
    let mut options = MntParams::new();
    options.insert(text("ro"), text("yes"));
    let call = mount_devfs("/dev", Some(options), None).unwrap();
    assert_eq!(call.params.len(), 3);
    assert_eq!(call.params.get(&text("ro")).unwrap(), &text("yes"));
    assert_eq!(call.params.get(&text("fstype")).unwrap(), &text("devfs"));
}

#[test]
fn builder_default_flags_match_zero_flags() {
    let c1 = mount_procfs("/proc", None, None).unwrap();
    let c2 = mount_procfs("/proc", None, Some(0)).unwrap();
    assert_eq!(c1, c2);
    assert_eq!(c1.flags, 0);
    let c3 = mount_fdescfs("/dev/fd", None, None).unwrap();
    let c4 = mount_fdescfs("/dev/fd", None, Some(0)).unwrap();
    assert_eq!(c3, c4);
}

#[test]
fn builder_rejects_nul_in_mount_point() {
    let r = mount_procfs("/pr\0oc", None, None);
    match r {
        Err(LibMountError::NulError(i)) => assert_eq!(i, 3),
        other => panic!("expected a nul-byte error, got {:?}", other),
    }
}

#[test]
fn builder_checks_mount_point_before_target() {
    let r = mount_nullfs("/s\0rc", "/d\0st", None, None);
    match r {
        Err(LibMountError::NulError(i)) => assert_eq!(i, 2),
        other => panic!("expected a nul-byte error, got {:?}", other),
    }
    let r2 = mount_nullfs("/s\0rc", "/dst", None, None);
    match r2 {
        Err(LibMountError::NulError(i)) => assert_eq!(i, 2),
        other => panic!("expected a nul-byte error, got {:?}", other),
    }
}

#[test]
fn procfs_scenario_builds_and_encodes() {
    let call = mount_procfs("/proc", None, None).unwrap();
    assert_eq!(call.flags, 0);
    assert_eq!(call.params.len(), 2);
    let iovs = call.params.as_iovec();
    assert_eq!(iovs.len(), 4);
    let mut pairs: Vec<(Vec<u8>, Vec<u8>)> = Vec::new();
    for i in 0..2 {
        pairs.push((iovs[2 * i].clone(), iovs[2 * i + 1].clone()));
    }
    assert!(pairs.contains(&(b"fstype\0".to_vec(), b"procfs\0".to_vec())));
    assert!(pairs.contains(&(b"fspath\0".to_vec(), b"/proc\0".to_vec())));
    // A successful foreign call then yields plain success.
    assert_eq!(mount_result(0, 0), Ok(()));
}

#[test]
fn unmount_request_terminates_path() {
    let call = unmount_request("/mnt/data", Some(5)).unwrap();
    assert_eq!(call.path.as_slice(), b"/mnt/data\0");
    assert_eq!(call.flags, 5);
    assert_eq!(unmount_request("/mnt", None).unwrap().flags, 0);
}

#[test]
fn unmount_request_rejects_nul() {
    match unmount_request("/m\0nt", None) {
        Err(LibMountError::NulError(i)) => assert_eq!(i, 2),
        other => panic!("expected a nul-byte error, got {:?}", other),
    }
}

#[test]
fn negative_status_maps_to_os_error() {
    let errno = libc::EBUSY;
    let err = mount_result(-1, errno).unwrap_err();
    match err {
        LibMountError::IOError(code) => assert_eq!(code, errno),
        other => panic!("expected an OS error, got {:?}", other),
    }
    assert_eq!(
        err.message(),
        std::io::Error::from_raw_os_error(errno).to_string()
    );
}

#[test]
fn nonnegative_status_is_success() {
    assert_eq!(mount_result(0, 0), Ok(()));
    assert_eq!(mount_result(1, 0), Ok(()));
}

#[test]
fn nul_error_message_is_fixed() {
    let err = MntParam::try_from("a\0").unwrap_err();
    assert_eq!(err.message(), "nul byte found in provided data");
}
