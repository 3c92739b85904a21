use sysctl_mib::codec::TypedValue;
use sysctl_mib::error::CtlError;
use sysctl_mib::error::ErrnoClass;
use sysctl_mib::error::classify_errno;
use sysctl_mib::invoke::Invocation;
use sysctl_mib::invoke::KernelReply;
use sysctl_mib::invoke::KernelRequest;
use sysctl_mib::invoke::Op;
use sysctl_mib::invoke::Outcome;
use sysctl_mib::invoke::prepare;
use sysctl_mib::namespace::build_schema;
use sysctl_mib::path::tokenize;
use sysctl_mib::resolve::resolve;

/// Drives one invocation against a stub kernel, logging every request so a
/// test can count and inspect the calls that would reach the kernel.
fn run<F>(
    mut inv: Invocation,
    log: &mut Vec<KernelRequest>,
    mut kernel: F,
) -> Result<Option<TypedValue>, CtlError>
where
    F: FnMut(&KernelRequest) -> KernelReply,
{
    loop {
        let req = inv.request();
        let reply = kernel(&req);
        log.push(req);
        match inv.advance(reply) {
            Outcome::Pending(next) => inv = next,
            Outcome::Done(r) => return r,
        }
    }
}

#[test]
fn two_phase_read_of_kern_ostype() {
    let schema = build_schema();
    let inv = prepare(&schema, "kern.ostype").unwrap();
    let mut log = Vec::new();
    let r = run(inv, &mut log, |req| {
        assert_eq!(req.addr, vec![1, 1]);
        match req.out_len {
            // Size probe: null output pointer, kernel reports the size.
            None => KernelReply::Success { out: Vec::new(), size: 8 },
            Some(n) => {
                assert_eq!(n, 8);
                KernelReply::Success { out: b"OpenBSD\0".to_vec(), size: 8 }
            },
        }
    });
    assert_eq!(r, Ok(Some(TypedValue::Text(b"OpenBSD".to_vec()))));
    assert_eq!(log.len(), 2, "a string read is exactly one two-phase sequence");
    assert_eq!(log[0].out_len, None);
    assert_eq!(log[0].input, None);
    assert_eq!(log[1].out_len, Some(8));
}

#[test]
fn fixed_width_read_skips_the_probe() {
    let schema = build_schema();
    let inv = prepare(&schema, "hw.ncpu").unwrap();
    let mut log = Vec::new();
    let r = run(inv, &mut log, |req| {
        assert_eq!(req.addr, vec![6, 3]);
        assert_eq!(req.out_len, Some(4));
        KernelReply::Success { out: vec![4, 0, 0, 0], size: 4 }
    });
    assert_eq!(r, Ok(Some(TypedValue::Int32(4))));
    assert_eq!(log.len(), 1);
}

#[test]
fn string_write_issues_one_two_phase_sequence() {
    let schema = build_schema();
    let inv = prepare(&schema, "kern.hostname=myhost").unwrap();
    let mut log = Vec::new();
    let r = run(inv, &mut log, |req| {
        assert_eq!(req.addr, vec![1, 10]);
        KernelReply::Success { out: Vec::new(), size: 8 }
    });
    assert_eq!(r, Ok(None));
    assert_eq!(log.len(), 2, "string shapes still require output sizing on write");
    // The probe carries neither buffer; the set carries the encoded value.
    assert_eq!(log[0].out_len, None);
    assert_eq!(log[0].input, None);
    assert_eq!(log[1].out_len, None);
    assert_eq!(log[1].input, Some(b"myhost\0".to_vec()));
}

#[test]
fn write_to_readonly_leaf_issues_zero_kernel_calls() {
    let schema = build_schema();
    let mut calls: usize = 0;
    {
        let mut kernel = |_req: &KernelRequest| {
            calls += 1;
            KernelReply::Success { out: Vec::new(), size: 0 }
        };
        // The counting stub only runs when an invocation exists; a write to
        // a read-only leaf must never produce one.
        match prepare(&schema, "kern.ostype=NotBSD") {
            Err(CtlError::NotWritable) => {},
            Ok(inv) => {
                let mut log = Vec::new();
                let _ = run(inv, &mut log, &mut kernel);
                panic!("a write to a read-only leaf must not start");
            },
            other => panic!("expected NotWritable, got {other:?}"),
        }
        // The same holds when starting from an explicit operation.
        let target = resolve(&schema, &tokenize("vm.uvmexp").unwrap()).unwrap();
        match Invocation::start(target, Op::Write(TypedValue::Record(vec![0]))) {
            Err(CtlError::NotWritable) => {},
            Ok(inv) => {
                let mut log = Vec::new();
                let _ = run(inv, &mut log, &mut kernel);
                panic!("a write to a read-only leaf must not start");
            },
            other => panic!("expected NotWritable, got {other:?}"),
        }
    }
    assert_eq!(calls, 0);
}

#[test]
fn scalar_write_then_read_round_trips() {
    let schema = build_schema();
    // A stub kernel that stores what a write hands it and returns it on read.
    let mut stored: Vec<u8> = vec![0, 0, 0, 0];
    let inv = prepare(&schema, "kern.maxproc=1234").unwrap();
    let mut log = Vec::new();
    let r = run(inv, &mut log, |req| {
        assert_eq!(req.addr, vec![1, 6]);
        if let Some(input) = &req.input {
            stored = input.clone();
        }
        KernelReply::Success { out: Vec::new(), size: 4 }
    });
    assert_eq!(r, Ok(None));
    assert_eq!(log.len(), 1, "a fixed-width pure write is a single call");

    let inv = prepare(&schema, "kern.maxproc").unwrap();
    let mut log = Vec::new();
    let r = run(inv, &mut log, |req| {
        assert_eq!(req.out_len, Some(4));
        KernelReply::Success { out: stored.clone(), size: 4 }
    });
    assert_eq!(r, Ok(Some(TypedValue::Int32(1234))));
}

#[test]
fn write_with_readback_returns_the_previous_value() {
    let schema = build_schema();
    let target = resolve(&schema, &tokenize("kern.maxproc").unwrap()).unwrap();
    let inv = Invocation::start(target, Op::WriteRead(TypedValue::Int32(99))).unwrap();
    let mut log = Vec::new();
    let r = run(inv, &mut log, |req| {
        assert_eq!(req.out_len, Some(4));
        assert_eq!(req.input, Some(vec![99, 0, 0, 0]));
        KernelReply::Success { out: vec![7, 0, 0, 0], size: 4 }
    });
    assert_eq!(r, Ok(Some(TypedValue::Int32(7))));
    assert_eq!(log.len(), 1);
}

#[test]
fn kernel_failure_aborts_with_the_preserved_code() {
    let schema = build_schema();
    let inv = prepare(&schema, "kern.ostype").unwrap();
    let mut log = Vec::new();
    let r = run(inv, &mut log, |_req| KernelReply::Failure { code: 1 });
    assert_eq!(r, Err(CtlError::KernelRejected { code: 1 }));
    assert_eq!(log.len(), 1, "the first failure is terminal");
}

#[test]
fn probe_failure_is_terminal_for_the_whole_operation() {
    let schema = build_schema();
    let inv = prepare(&schema, "kern.version").unwrap();
    let mut log = Vec::new();
    let r = run(inv, &mut log, |req| {
        match req.out_len {
            None => KernelReply::Failure { code: 12 },
            Some(_) => panic!("no second call may follow a failed probe"),
        }
    });
    assert_eq!(r, Err(CtlError::KernelRejected { code: 12 }));
    assert_eq!(log.len(), 1);
}

#[test]
fn buffer_of_the_wrong_width_is_a_shape_mismatch() {
    let schema = build_schema();
    let inv = prepare(&schema, "hw.ncpu").unwrap();
    let mut log = Vec::new();
    let r = run(inv, &mut log, |_req| {
        KernelReply::Success { out: vec![1, 2, 3], size: 3 }
    });
    assert_eq!(r, Err(CtlError::ShapeMismatch));
}

#[test]
fn literal_must_fit_the_leaf_shape() {
    let schema = build_schema();
    assert_eq!(prepare(&schema, "kern.maxproc=abc"), Err(CtlError::MalformedPath));
    assert_eq!(prepare(&schema, "kern.maxproc=99999999999"), Err(CtlError::MalformedPath));
}

#[test]
fn local_errors_surface_through_prepare() {
    let schema = build_schema();
    assert_eq!(prepare(&schema, "kern..x"), Err(CtlError::MalformedPath));
    assert_eq!(prepare(&schema, "kern"), Err(CtlError::IncompletePath));
    assert_eq!(prepare(&schema, "kern.ostype.more"), Err(CtlError::TrailingSegments));
    assert_eq!(
        prepare(&schema, "kern.bogus"),
        Err(CtlError::UnknownName { depth: 1, segment: b"bogus".to_vec() })
    );
}

#[test]
fn kernel_rejections_carry_a_classification() {
    let e = CtlError::KernelRejected { code: 13 };
    assert_eq!(e.kernel_class(), Some(ErrnoClass::PermissionDenied));
    assert_eq!(CtlError::NotWritable.kernel_class(), None);
    assert_eq!(CtlError::MalformedPath.kernel_class(), None);
}

#[test]
fn kernel_error_codes_classify() {
    assert_eq!(classify_errno(1), ErrnoClass::PermissionDenied);
    assert_eq!(classify_errno(13), ErrnoClass::PermissionDenied);
    assert_eq!(classify_errno(2), ErrnoClass::NotFound);
    assert_eq!(classify_errno(22), ErrnoClass::InvalidArgument);
    assert_eq!(classify_errno(16), ErrnoClass::Busy);
    assert_eq!(classify_errno(12), ErrnoClass::OutOfMemory);
    assert_eq!(classify_errno(9999), ErrnoClass::Other);
    assert_eq!(classify_errno(0), ErrnoClass::Other);
}
