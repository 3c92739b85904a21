use sysctl_mib::error::CtlError;
use sysctl_mib::namespace::build_schema;
use sysctl_mib::path::tokenize;
use sysctl_mib::resolve::ResolvedTarget;
use sysctl_mib::resolve::resolve;
use sysctl_mib::shape::ValueShape;

fn resolve_str(input: &str) -> Result<ResolvedTarget, CtlError> {
    let schema = build_schema();
    let path = tokenize(input)?;
    resolve(&schema, &path)
}

#[test]
fn kern_ostype_is_a_readonly_string() {
    let t = resolve_str("kern.ostype").unwrap();
    assert_eq!(t.addr, vec![1, 1]);
    assert_eq!(t.shape, ValueShape::CString);
    assert!(!t.mutable);
}

#[test]
fn vm_uvmexp_is_a_readonly_record() {
    let t = resolve_str("vm.uvmexp").unwrap();
    assert_eq!(t.addr, vec![2, 4]);
    assert_eq!(t.shape, ValueShape::OpaqueRecord);
    assert!(!t.mutable);
}

#[test]
fn unknown_segment_fails_at_its_depth() {
    assert_eq!(
        resolve_str("kern.nonexistent"),
        Err(CtlError::UnknownName { depth: 1, segment: b"nonexistent".to_vec() })
    );
}

#[test]
fn unknown_domain_fails_at_depth_zero() {
    assert_eq!(
        resolve_str("nope.anything"),
        Err(CtlError::UnknownName { depth: 0, segment: b"nope".to_vec() })
    );
}

#[test]
fn bare_interior_node_is_incomplete() {
    assert_eq!(resolve_str("kern"), Err(CtlError::IncompletePath));
    assert_eq!(resolve_str("net.inet.tcp"), Err(CtlError::IncompletePath));
}

#[test]
fn extra_segments_after_a_leaf_are_rejected() {
    assert_eq!(resolve_str("kern.ostype.extra"), Err(CtlError::TrailingSegments));
}

#[test]
fn hostname_is_writable() {
    let t = resolve_str("kern.hostname").unwrap();
    assert_eq!(t.addr, vec![1, 10]);
    assert_eq!(t.shape, ValueShape::CString);
    assert!(t.mutable);
}

#[test]
fn subtree_default_mutability_is_inherited() {
    // The whole fs domain defaults to writable.
    let t = resolve_str("fs.posix.setuid").unwrap();
    assert_eq!(t.addr, vec![3, 1, 1]);
    assert!(t.mutable);
    // kern.watchdog sets a writable default for its two leaves.
    let w = resolve_str("kern.watchdog.period").unwrap();
    assert_eq!(w.addr, vec![1, 64, 1]);
    assert!(w.mutable);
}

#[test]
fn leaf_annotation_overrides_subtree_default() {
    // vfs.ffs defaults to writable, but dirhash_mem is a kernel-maintained
    // counter and stays read-only.
    let t = resolve_str("vfs.ffs.dirhash_mem").unwrap();
    assert_eq!(t.addr, vec![10, 1, 19]);
    assert!(!t.mutable);
    let u = resolve_str("vfs.ffs.max_softdeps").unwrap();
    assert_eq!(u.addr, vec![10, 1, 5]);
    assert!(u.mutable);
}

#[test]
fn inet_statistics_leaves_are_readonly_overrides() {
    let t = resolve_str("net.inet.udp.stats").unwrap();
    assert_eq!(t.addr, vec![4, 2, 17, 5]);
    assert_eq!(t.shape, ValueShape::OpaqueRecord);
    assert!(!t.mutable);
    let u = resolve_str("net.inet.tcp.rfc1323").unwrap();
    assert_eq!(u.addr, vec![4, 2, 6, 1]);
    assert!(u.mutable);
}

#[test]
fn route_dump_resolves_family_and_table_symbolically() {
    let t = resolve_str("net.route.0.inet.dump.0").unwrap();
    assert_eq!(t.addr, vec![4, 17, 0, 2, 1, 0]);
    let u = resolve_str("net.route.0.inet6.iflist").unwrap();
    assert_eq!(u.addr, vec![4, 17, 0, 24, 3]);
}

#[test]
fn unknown_address_family_fails_at_its_depth() {
    assert_eq!(
        resolve_str("net.route.0.bogus.dump.0"),
        Err(CtlError::UnknownName { depth: 3, segment: b"bogus".to_vec() })
    );
}

#[test]
fn hardware_domain_addresses() {
    let t = resolve_str("hw.ncpu").unwrap();
    assert_eq!(t.addr, vec![6, 3]);
    let u = resolve_str("hw.physmem").unwrap();
    assert_eq!(u.addr, vec![6, 19]);
    assert_eq!(u.shape, ValueShape::Int64);
    let v = resolve_str("kern.consdev").unwrap();
    assert_eq!(v.addr, vec![1, 75]);
    assert_eq!(v.shape, ValueShape::DeviceId);
    let w = resolve_str("kern.cp_time2").unwrap();
    assert_eq!(w.addr, vec![1, 71]);
    assert_eq!(w.shape, ValueShape::U64Array);
}

#[test]
fn writable_domains_cover_every_leaf() {
    assert!(resolve_str("ddb.radix").unwrap().mutable);
    assert!(resolve_str("machdep.allowaperture").unwrap().mutable);
    assert_eq!(resolve_str("machdep.allowaperture").unwrap().addr, vec![7, 5]);
}

#[test]
fn address_length_equals_path_depth() {
    for (path, depth) in [
        ("kern.ostype", 2),
        ("fs.posix.setuid", 3),
        ("net.inet.tcp.sack", 4),
        ("net.route.0.inet.dump.0", 6),
    ] {
        let t = resolve_str(path).unwrap();
        assert_eq!(t.addr.len(), depth, "{path}");
    }
}
