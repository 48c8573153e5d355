use vstd::prelude::*;
use vstd::utf8::{encode_utf8, is_ascii_chars, is_ascii_chars_encode_utf8};

use crate::error::LibMountError;
use crate::param::{
    MntParam, MntParamV, is_first_nul, lemma_first_nul_unique, lemma_nul_byte_iff_nul_char,
    make_cstring,
};
use crate::params::MntParams;

verus! {

/// The flags a mount or unmount call runs with: absent flags mean zero.
pub open spec fn spec_flags(flags: Option<i32>) -> i32 {
    match flags {
        Some(v) => v,
        None => 0,
    }
}

/// Resolves optional flags to the value the kernel call receives.
pub fn effective_flags(flags: Option<i32>) -> (r: i32)
    ensures
        r == spec_flags(flags),
{
    match flags {
        Some(v) => v,
        None => 0,
    }
}

/// Interprets the status a foreign mount or unmount entry point returned:
/// a negative status is a failure carrying `errno`, the platform error code
/// captured right after the call; any other status is success.
pub fn mount_result(status: i32, errno: i32) -> (r: Result<(), LibMountError>)
    ensures
        status >= 0 ==> r == Ok::<(), LibMountError>(()),
        status < 0 ==> r == Err::<(), LibMountError>(LibMountError::IOError(errno)),
{
    if status < 0 {
        Err(LibMountError::IOError(errno))
    } else {
        Ok(())
    }
}

/// A prepared mount call: the assembled parameter set, which must stay alive
/// and unmoved while the foreign call runs, and the effective flags.
#[derive(Debug, PartialEq, Eq, Clone)]
pub struct MountCall {
    pub params: MntParams,
    pub flags: i32,
}

/// A prepared unmount call: the nul-terminated path and the effective flags.
#[derive(Debug, PartialEq, Eq, Clone)]
pub struct UnmountCall {
    pub path: Vec<u8>,
    pub flags: i32,
}

/// Pairs a caller-assembled parameter set with its effective flags, ready for
/// the foreign mount entry point.
pub fn nmount_request(params: MntParams, flags: Option<i32>) -> (r: MountCall)
    ensures
        r.params == params,
        r.flags == spec_flags(flags),
{
    MountCall { params, flags: effective_flags(flags) }
}

/// Prepares an unmount of `dir`: rejects an interior nul byte in the path
/// before any foreign call could run.
pub fn unmount_request(dir: &str, flags: Option<i32>) -> (r: Result<UnmountCall, LibMountError>)
    ensures
        ({
            let b = encode_utf8(dir@);
            &&& (r is Ok <==> !b.contains(0u8))
            &&& (r is Ok <==> !dir@.contains('\0'))
            &&& (r matches Ok(c) ==> c.path@ == b.push(0u8) && c.flags == spec_flags(flags))
            &&& (r matches Err(e) ==> ({
                &&& b.contains(0u8)
                &&& e matches LibMountError::NulError(i) && is_first_nul(b, i as int)
            }))
        }),
{
    proof {
        lemma_nul_byte_iff_nul_char(dir@);
    }
    match make_cstring(dir) {
        Ok(path) => Ok(UnmountCall { path, flags: effective_flags(flags) }),
        Err(e) => Err(e),
    }
}

/// The text parameter a string becomes: its encoding plus the trailing nul.
pub open spec fn text_param(s: Seq<char>) -> MntParamV {
    MntParamV::CString(encode_utf8(s).push(0u8))
}

/// The fixed key under which a builder records the filesystem type.
pub open spec fn key_fstype() -> MntParamV {
    text_param("fstype"@)
}

/// The fixed key under which a builder records the mount point.
pub open spec fn key_fspath() -> MntParamV {
    text_param("fspath"@)
}

/// The fixed key under which the bind-style builder records the source path.
pub open spec fn key_target() -> MntParamV {
    text_param("target"@)
}

/// Nul-free ASCII text, as every fixed filesystem-type name is.
pub open spec fn ascii_no_nul(s: Seq<char>) -> bool {
    &&& is_ascii_chars(s)
    &&& forall|i: int| 0 <= i < s.len() ==> s[i] != '\0'
}

/// Nul-free ASCII text encodes byte-for-byte, without a nul byte.
pub proof fn lemma_ascii_no_nul_bytes(s: Seq<char>)
    requires
        ascii_no_nul(s),
    ensures
        encode_utf8(s).len() == s.len(),
        forall|i: int| 0 <= i < s.len() ==> encode_utf8(s)[i] == (s[i] as u8),
        !encode_utf8(s).contains(0u8),
{
    is_ascii_chars_encode_utf8(s);
    assert forall|i: int| 0 <= i < s.len() implies encode_utf8(s)[i] == (s[i] as u8)
        && encode_utf8(s)[i] != 0u8 by {
        assert(s[i] as u8 == encode_utf8(s)[i]);
        assert(s[i] != '\0');
    }
    if encode_utf8(s).contains(0u8) {
        let i = choose|i: int| 0 <= i < encode_utf8(s).len() && encode_utf8(s)[i] == 0u8;
        assert(false);
    }
}

/// The caller-supplied options a builder starts from; absent options mean an
/// empty set.
pub open spec fn opt_params_view(options: Option<MntParams>) -> Map<MntParamV, MntParamV> {
    match options {
        Some(o) => o@,
        None => Map::empty(),
    }
}

/// The options' invariant, where options were supplied.
pub open spec fn opt_params_wf(options: Option<MntParams>) -> bool {
    match options {
        Some(o) => o.wf(),
        None => true,
    }
}

/// The views of an optional source path.
pub open spec fn target_view(target: Option<&str>) -> Option<Seq<char>> {
    match target {
        Some(t) => Some(t@),
        None => None,
    }
}

/// The parameter set a builder assembles: the caller's options, then the
/// fixed keys inserted after them — `fstype`, `fspath` and, for a bind-style
/// mount, `target` — so that the fixed keys always win.
pub open spec fn built_map(
    options: Option<MntParams>,
    fstype: Seq<char>,
    target: Option<Seq<char>>,
    mount_point: Seq<char>,
) -> Map<MntParamV, MntParamV> {
    let base = opt_params_view(options).insert(key_fstype(), text_param(fstype)).insert(
        key_fspath(),
        text_param(mount_point),
    );
    match target {
        Some(t) => base.insert(key_target(), text_param(t)),
        None => base,
    }
}

/// What every builder's result satisfies: success exactly when neither the
/// mount point nor the source path holds an interior nul byte, the assembled
/// set denoting `built_map`, the flags defaulted, and a rejected string
/// reported with the index of its first nul byte, the mount point checked
/// first.
pub open spec fn builder_spec(
    r: Result<MountCall, LibMountError>,
    options: Option<MntParams>,
    fstype: Seq<char>,
    target: Option<Seq<char>>,
    mount_point: Seq<char>,
    flags: Option<i32>,
) -> bool {
    let mp = encode_utf8(mount_point);
    let tg_bad = match target {
        Some(t) => encode_utf8(t).contains(0u8),
        None => false,
    };
    &&& (r is Ok <==> !mp.contains(0u8) && !tg_bad)
    &&& (r is Ok <==> !mount_point.contains('\0') && (match target {
        Some(t) => !t.contains('\0'),
        None => true,
    }))
    &&& (r matches Ok(c) ==> {
        &&& c.params@ == built_map(options, fstype, target, mount_point)
        &&& c.params.wf()
        &&& c.flags == spec_flags(flags)
    })
    &&& (mp.contains(0u8) ==> (r matches Err(e) && e matches LibMountError::NulError(i)
        && is_first_nul(mp, i as int)))
    &&& (!mp.contains(0u8) && tg_bad ==> (match target {
        Some(t) => r matches Err(e) && e matches LibMountError::NulError(i) && is_first_nul(
            encode_utf8(t),
            i as int,
        ),
        None => true,
    }))
}

/// Turns a string known to be nul-free into its text parameter.
fn text_param_exec(s: &str) -> (r: MntParam)
    requires
        !encode_utf8(s@).contains(0u8),
    ensures
        r@ == text_param(s@),
{
    match MntParam::try_from(s) {
        Ok(p) => p,
        Err(_) => MntParam::Buffer(Vec::new()),  // unreachable: the input holds no nul byte
    }
}

/// Assembles the call every typed builder makes: the caller's options, then
/// the fixed keys inserted after them, then the defaulted flags.
fn build_mount_call(
    fstype: &str,
    target: Option<&str>,
    mount_point: &str,
    options: Option<MntParams>,
    flags: Option<i32>,
) -> (r: Result<MountCall, LibMountError>)
    requires
        ascii_no_nul(fstype@),
        opt_params_wf(options),
    ensures
        builder_spec(r, options, fstype@, target_view(target), mount_point@, flags),
{
    proof {
        lemma_nul_byte_iff_nul_char(mount_point@);
        match target {
            Some(t) => lemma_nul_byte_iff_nul_char(t@),
            None => (),
        }
        lemma_ascii_no_nul_bytes(fstype@);
        reveal_strlit("fstype");
        reveal_strlit("fspath");
        reveal_strlit("target");
        assert(ascii_no_nul("fstype"@));
        assert(ascii_no_nul("fspath"@));
        assert(ascii_no_nul("target"@));
        lemma_ascii_no_nul_bytes("fstype"@);
        lemma_ascii_no_nul_bytes("fspath"@);
        lemma_ascii_no_nul_bytes("target"@);
    }
    let mp = match MntParam::try_from(mount_point) {
        Ok(p) => p,
        Err(e) => {
            return Err(e);
        },
    };
    let tg = match target {
        Some(t) => match MntParam::try_from(t) {
            Ok(p) => Some(p),
            Err(e) => {
                return Err(e);
            },
        },
        None => None,
    };
    let mut params = match options {
        Some(o) => o,
        None => MntParams::new(),
    };
    params.insert(text_param_exec("fstype"), text_param_exec(fstype));
    params.insert(text_param_exec("fspath"), mp);
    match tg {
        Some(tp) => {
            params.insert(text_param_exec("target"), tp);
        },
        None => {},
    }
    Ok(MountCall { params, flags: effective_flags(flags) })
}

/// Binds `target` onto `mount_point` ("nullfs"): assembles the parameter set
/// and flags for the foreign mount entry point.
pub fn mount_nullfs(
    target: &str,
    mount_point: &str,
    options: Option<MntParams>,
    flags: Option<i32>,
) -> (r: Result<MountCall, LibMountError>)
    requires
        opt_params_wf(options),
    ensures
        builder_spec(r, options, "nullfs"@, Some(target@), mount_point@, flags),
{
    proof {
        reveal_strlit("nullfs");
        assert(ascii_no_nul("nullfs"@));
    }
    build_mount_call("nullfs", Some(target), mount_point, options, flags)
}

/// Mounts a process filesystem at `mount_point` ("procfs").
pub fn mount_procfs(
    mount_point: &str,
    options: Option<MntParams>,
    flags: Option<i32>,
) -> (r: Result<MountCall, LibMountError>)
    requires
        opt_params_wf(options),
    ensures
        builder_spec(r, options, "procfs"@, None, mount_point@, flags),
{
    proof {
        reveal_strlit("procfs");
        assert(ascii_no_nul("procfs"@));
    }
    build_mount_call("procfs", None, mount_point, options, flags)
}

/// Mounts a device filesystem at `mount_point` ("devfs").
pub fn mount_devfs(
    mount_point: &str,
    options: Option<MntParams>,
    flags: Option<i32>,
) -> (r: Result<MountCall, LibMountError>)
    requires
        opt_params_wf(options),
    ensures
        builder_spec(r, options, "devfs"@, None, mount_point@, flags),
{
    proof {
        reveal_strlit("devfs");
        assert(ascii_no_nul("devfs"@));
    }
    build_mount_call("devfs", None, mount_point, options, flags)
}

/// Mounts a file-descriptor filesystem at `mount_point` ("fdescfs").
pub fn mount_fdescfs(
    mount_point: &str,
    options: Option<MntParams>,
    flags: Option<i32>,
) -> (r: Result<MountCall, LibMountError>)
    requires
        opt_params_wf(options),
    ensures
        builder_spec(r, options, "fdescfs"@, None, mount_point@, flags),
{
    proof {
        reveal_strlit("fdescfs");
        assert(ascii_no_nul("fdescfs"@));
    }
    build_mount_call("fdescfs", None, mount_point, options, flags)
}

/// The three fixed keys are pairwise distinct parameters.
proof fn lemma_fixed_keys_distinct()
    ensures
        key_fstype() != key_fspath(),
        key_fstype() != key_target(),
        key_fspath() != key_target(),
{
    reveal_strlit("fstype");
    reveal_strlit("fspath");
    reveal_strlit("target");
    assert(ascii_no_nul("fstype"@));
    assert(ascii_no_nul("fspath"@));
    assert(ascii_no_nul("target"@));
    lemma_ascii_no_nul_bytes("fstype"@);
    lemma_ascii_no_nul_bytes("fspath"@);
    lemma_ascii_no_nul_bytes("target"@);
    let bf = encode_utf8("fstype"@).push(0u8);
    let bp = encode_utf8("fspath"@).push(0u8);
    let bt = encode_utf8("target"@).push(0u8);
    assert(bf[2] == 't' as u8 && bp[2] == 'p' as u8);
    assert(bf[0] == 'f' as u8 && bt[0] == 't' as u8);
    assert(bp[0] == 'f' as u8);
    assert(bf != bp && bf != bt && bp != bt);
}

/// Override precedence: whatever the caller's options hold, the set a builder
/// assembles maps `fstype`, `fspath` and — where given — `target` to the
/// builder's own arguments, never to an option the caller supplied.
pub proof fn lemma_override_precedence(
    options: Option<MntParams>,
    fstype: Seq<char>,
    target: Option<Seq<char>>,
    mount_point: Seq<char>,
)
    ensures
        built_map(options, fstype, target, mount_point).contains_key(key_fstype()),
        built_map(options, fstype, target, mount_point)[key_fstype()] == text_param(fstype),
        built_map(options, fstype, target, mount_point).contains_key(key_fspath()),
        built_map(options, fstype, target, mount_point)[key_fspath()] == text_param(mount_point),
        target matches Some(t) ==> built_map(options, fstype, target, mount_point).contains_key(
            key_target(),
        ) && built_map(options, fstype, target, mount_point)[key_target()] == text_param(t),
{
    lemma_fixed_keys_distinct();
}

/// Default flags: a builder run without flags behaves as one run with zero
/// flags — it succeeds or fails the same way, assembles the same mapping, and
/// reports the same error.
pub proof fn lemma_default_flags(
    r1: Result<MountCall, LibMountError>,
    r2: Result<MountCall, LibMountError>,
    options: Option<MntParams>,
    fstype: Seq<char>,
    target: Option<Seq<char>>,
    mount_point: Seq<char>,
)
    requires
        builder_spec(r1, options, fstype, target, mount_point, None),
        builder_spec(r2, options, fstype, target, mount_point, Some(0)),
    ensures
        r1 is Ok <==> r2 is Ok,
        r1 matches Ok(c1) ==> (r2 matches Ok(c2) && c1.params@ == c2.params@ && c1.flags
            == c2.flags),
        r1 matches Err(e1) ==> (r2 matches Err(e2) && e1 == e2),
{
    let mp = encode_utf8(mount_point);
    if r1 is Err {
        let e1 = r1->Err_0;
        let e2 = r2->Err_0;
        let i1 = e1->NulError_0;
        let i2 = e2->NulError_0;
        if mp.contains(0u8) {
            lemma_first_nul_unique(mp, i1 as int, i2 as int);
        } else {
            match target {
                Some(t) => {
                    lemma_first_nul_unique(encode_utf8(t), i1 as int, i2 as int);
                },
                None => {},
            }
        }
    }
}

} // verus!
