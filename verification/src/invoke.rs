//! The invoker: a state machine that plans the one- or two-phase kernel
//! call protocol for a resolved target and interprets the kernel's replies.
//!
//! The machine never performs the privileged call itself; the embedding
//! program asks it for the next [`KernelRequest`], performs the call through
//! the single chokepoint it owns, and feeds the [`KernelReply`] back. A
//! request can only be obtained from a started invocation, so everything
//! [`Invocation::start`] rejects — above all a write to a read-only target —
//! provably causes zero kernel calls. The first failure aborts the whole
//! operation: no partial state is exposed.

use vstd::prelude::*;
use vstd::string::StringSliceAdditionalSpecFns;

use crate::codec::TypedValue;
use crate::codec::ValueModel;
use crate::codec::decode;
use crate::codec::encode;
use crate::codec::spec_decode;
use crate::codec::spec_encode;
use crate::error::CtlError;
use crate::error::ErrorModel;
use crate::error::res_view;
use crate::literal::from_literal;
use crate::literal::spec_from_literal;
use crate::path::Path;
use crate::path::spec_tokenize;
use crate::path::tokenize;
use crate::resolve::ResolvedTarget;
use crate::resolve::TargetModel;
use crate::resolve::resolve;
use crate::resolve::spec_resolve;
use crate::schema::Schema;
use crate::shape::ValueShape;
use crate::shape::spec_fixed_width;

verus! {

/// What a caller asks of a target: read its value, set it, or set it and
/// read back the previous value.
pub enum Op {
    Read,
    Write(TypedValue),
    WriteRead(TypedValue),
}

/// The mathematical model of an [`Op`].
pub ghost enum OpModel {
    Read,
    Write(ValueModel),
    WriteRead(ValueModel),
}

impl View for Op {
    type V = OpModel;

    open spec fn view(&self) -> OpModel {
        match self {
            Op::Read => OpModel::Read,
            Op::Write(v) => OpModel::Write(v@),
            Op::WriteRead(v) => OpModel::WriteRead(v@),
        }
    }
}

/// Where the protocol stands: about to ask the kernel for the required
/// buffer size, or about to perform the real transfer with a known size.
#[derive(Clone, Copy, Debug, PartialEq, Eq, Structural)]
pub enum Phase {
    SizeProbe,
    FetchSet { out_size: usize },
}

/// One kernel call, as the embedding program must issue it: the address
/// array, the size of the output buffer to pass (`None` means a null output
/// pointer with a length holder, the size-probe form), and the encoded bytes
/// to write, if any.
pub struct KernelRequest {
    pub addr: Vec<i32>,
    pub out_len: Option<usize>,
    pub input: Option<Vec<u8>>,
}

/// The mathematical model of a [`KernelRequest`].
pub ghost struct ReqModel {
    pub addr: Seq<i32>,
    pub out_len: Option<usize>,
    pub input: Option<Seq<u8>>,
}

impl View for KernelRequest {
    type V = ReqModel;

    open spec fn view(&self) -> ReqModel {
        ReqModel {
            addr: self.addr@,
            out_len: self.out_len,
            input: match &self.input {
                Some(b) => Some(b@),
                None => None,
            },
        }
    }
}

/// What the kernel answered: `out` holds the returned bytes truncated to
/// the length the kernel reported, and `size` that reported length (the
/// required buffer size, after a probe); or the platform error number.
pub enum KernelReply {
    Success { out: Vec<u8>, size: usize },
    Failure { code: i32 },
}

/// The mathematical model of a [`KernelReply`].
pub ghost enum ReplyModel {
    Success { out: Seq<u8>, size: usize },
    Failure { code: i32 },
}

impl View for KernelReply {
    type V = ReplyModel;

    open spec fn view(&self) -> ReplyModel {
        match self {
            KernelReply::Success { out, size } => ReplyModel::Success { out: out@, size: *size },
            KernelReply::Failure { code } => ReplyModel::Failure { code: *code },
        }
    }
}

/// One in-flight operation against one resolved target.
#[derive(Debug, PartialEq, Eq)]
pub struct Invocation {
    pub target: ResolvedTarget,
    pub wants_out: bool,
    pub input: Option<Vec<u8>>,
    pub phase: Phase,
}

/// The mathematical model of an [`Invocation`].
pub ghost struct InvModel {
    pub target: TargetModel,
    pub wants_out: bool,
    pub input: Option<Seq<u8>>,
    pub phase: Phase,
}

impl View for Invocation {
    type V = InvModel;

    open spec fn view(&self) -> InvModel {
        InvModel {
            target: self.target@,
            wants_out: self.wants_out,
            input: match &self.input {
                Some(b) => Some(b@),
                None => None,
            },
            phase: self.phase,
        }
    }
}

/// What feeding a reply to the machine produces: another call to make, or
/// the operation's result.
pub enum Outcome {
    Pending(Invocation),
    Done(Result<Option<TypedValue>, CtlError>),
}

/// The mathematical model of an [`Outcome`].
pub ghost enum OutcomeModel {
    Pending(InvModel),
    Done(Result<Option<ValueModel>, ErrorModel>),
}

impl View for Outcome {
    type V = OutcomeModel;

    open spec fn view(&self) -> OutcomeModel {
        match self {
            Outcome::Pending(inv) => OutcomeModel::Pending(inv@),
            Outcome::Done(r) => OutcomeModel::Done(
                match r {
                    Ok(Some(v)) => Ok(Some(v@)),
                    Ok(None) => Ok(None),
                    Err(e) => Err(e@),
                },
            ),
        }
    }
}

/// The phase an operation begins in: fixed-size scalars skip the size probe,
/// every variable-length shape starts with one.
pub open spec fn spec_initial_phase(shape: ValueShape) -> Phase {
    match spec_fixed_width(shape) {
        Some(w) => Phase::FetchSet { out_size: w },
        None => Phase::SizeProbe,
    }
}

/// What [`Invocation::start`] returns. A write against a target whose
/// mutability is false fails with `NotWritable` before anything else is
/// considered; a value that does not encode under the target's shape fails
/// with the encoder's error; otherwise the machine starts in
/// [`spec_initial_phase`] with the encoded input, wanting output exactly for
/// `Read` and `WriteRead`.
pub open spec fn spec_start(t: TargetModel, op: OpModel) -> Result<InvModel, ErrorModel> {
    if !(op is Read) && !t.mutable {
        Err(ErrorModel::NotWritable)
    } else {
        match op {
            OpModel::Read => Ok(
                InvModel {
                    target: t,
                    wants_out: true,
                    input: None,
                    phase: spec_initial_phase(t.shape),
                },
            ),
            OpModel::Write(v) => match spec_encode(t.shape, v) {
                Err(e) => Err(e),
                Ok(b) => Ok(
                    InvModel {
                        target: t,
                        wants_out: false,
                        input: Some(b),
                        phase: spec_initial_phase(t.shape),
                    },
                ),
            },
            OpModel::WriteRead(v) => match spec_encode(t.shape, v) {
                Err(e) => Err(e),
                Ok(b) => Ok(
                    InvModel {
                        target: t,
                        wants_out: true,
                        input: Some(b),
                        phase: spec_initial_phase(t.shape),
                    },
                ),
            },
        }
    }
}

/// The kernel call to issue in the machine's current state: a size probe
/// passes a null output pointer and no input; the real transfer passes an
/// output buffer when output is wanted, and the encoded input when writing.
pub open spec fn spec_request(m: InvModel) -> ReqModel {
    match m.phase {
        Phase::SizeProbe => ReqModel { addr: m.target.addr, out_len: None, input: None },
        Phase::FetchSet { out_size } => ReqModel {
            addr: m.target.addr,
            out_len: if m.wants_out {
                Some(out_size)
            } else {
                None
            },
            input: m.input,
        },
    }
}

/// What [`Invocation::advance`] returns for each state and reply: a kernel
/// failure ends the operation with `KernelRejected` in either phase; a
/// successful probe moves to the transfer phase with the kernel-reported
/// size; a successful transfer decodes the returned bytes when output was
/// wanted and confirms with no value otherwise.
pub open spec fn spec_advance(m: InvModel, reply: ReplyModel) -> OutcomeModel {
    match m.phase {
        Phase::SizeProbe => match reply {
            ReplyModel::Success { out, size } => OutcomeModel::Pending(
                InvModel { phase: Phase::FetchSet { out_size: size }, ..m },
            ),
            ReplyModel::Failure { code } => OutcomeModel::Done(
                Err(ErrorModel::KernelRejected { code }),
            ),
        },
        Phase::FetchSet { out_size } => match reply {
            ReplyModel::Success { out, size } => if m.wants_out {
                match spec_decode(m.target.shape, out) {
                    Ok(v) => OutcomeModel::Done(Ok(Some(v))),
                    Err(e) => OutcomeModel::Done(Err(e)),
                }
            } else {
                OutcomeModel::Done(Ok(None))
            },
            ReplyModel::Failure { code } => OutcomeModel::Done(
                Err(ErrorModel::KernelRejected { code }),
            ),
        },
    }
}

impl Invocation {
    /// Starts an operation against a resolved target, per [`spec_start`].
    /// A statically illegal write is rejected here, before any request for
    /// a kernel call can exist.
    pub fn start(target: ResolvedTarget, op: Op) -> (r: Result<Invocation, CtlError>)
        ensures
            res_view(r) == spec_start(target@, op@),
    {
        let writes = match &op {
            Op::Read => false,
            _ => true,
        };
        if writes && !target.mutable {
            return Err(CtlError::NotWritable);
        }
        let phase = match target.shape.fixed_width() {
            Some(w) => Phase::FetchSet { out_size: w },
            None => Phase::SizeProbe,
        };
        match op {
            Op::Read => Ok(Invocation { target, wants_out: true, input: None, phase }),
            Op::Write(v) => match encode(target.shape, &v) {
                Err(e) => Err(e),
                Ok(b) => Ok(Invocation { target, wants_out: false, input: Some(b), phase }),
            },
            Op::WriteRead(v) => match encode(target.shape, &v) {
                Err(e) => Err(e),
                Ok(b) => Ok(Invocation { target, wants_out: true, input: Some(b), phase }),
            },
        }
    }

    /// The kernel call to issue now, per [`spec_request`].
    pub fn request(&self) -> (r: KernelRequest)
        ensures
            r@ == spec_request(self@),
    {
        match self.phase {
            Phase::SizeProbe => KernelRequest {
                addr: copy_i32s(&self.target.addr),
                out_len: None,
                input: None,
            },
            Phase::FetchSet { out_size } => KernelRequest {
                addr: copy_i32s(&self.target.addr),
                out_len: if self.wants_out {
                    Some(out_size)
                } else {
                    None
                },
                input: match &self.input {
                    Some(b) => Some(copy_u8s(b)),
                    None => None,
                },
            },
        }
    }

    /// Feeds the kernel's reply to the machine, per [`spec_advance`].
    pub fn advance(self, reply: KernelReply) -> (r: Outcome)
        ensures
            r@ == spec_advance(self@, reply@),
    {
        match self.phase {
            Phase::SizeProbe => match reply {
                KernelReply::Success { out, size } => Outcome::Pending(
                    Invocation { phase: Phase::FetchSet { out_size: size }, ..self },
                ),
                KernelReply::Failure { code } => Outcome::Done(
                    Err(CtlError::KernelRejected { code }),
                ),
            },
            Phase::FetchSet { out_size: _ } => match reply {
                KernelReply::Success { out, size: _ } => {
                    if self.wants_out {
                        match decode(self.target.shape, out.as_slice()) {
                            Ok(v) => Outcome::Done(Ok(Some(v))),
                            Err(e) => Outcome::Done(Err(e)),
                        }
                    } else {
                        Outcome::Done(Ok(None))
                    }
                },
                KernelReply::Failure { code } => Outcome::Done(
                    Err(CtlError::KernelRejected { code }),
                ),
            },
        }
    }
}

/// A write attempt against a target whose mutability is false fails with
/// `NotWritable` and issues zero kernel calls: it never yields an
/// invocation, and every kernel request is obtained from one.
pub proof fn law_not_writable_no_kernel_call(t: TargetModel, op: OpModel)
    requires
        !(op is Read),
        !t.mutable,
    ensures
        spec_start(t, op) == Err::<InvModel, ErrorModel>(ErrorModel::NotWritable),
{
}

/// What [`prepare`] returns: the composition of tokenizer, resolver,
/// literal conversion and machine start. An input without `=value` becomes a
/// read; one with it becomes a write of the literal, converted under the
/// resolved leaf's shape.
pub open spec fn spec_prepare(s: Schema, input: Seq<u8>) -> Result<InvModel, ErrorModel> {
    match spec_tokenize(input) {
        Err(e) => Err(e),
        Ok(p) => match spec_resolve(s, p) {
            Err(e) => Err(e),
            Ok(t) => match p.value {
                None => spec_start(t, OpModel::Read),
                Some(lit) => match spec_from_literal(t.shape, lit) {
                    Err(e) => Err(e),
                    Ok(v) => spec_start(t, OpModel::Write(v)),
                },
            },
        },
    }
}

/// Takes an input string all the way to a started invocation: tokenize,
/// resolve, convert the literal if the assignment form was used, and start
/// the machine, per [`spec_prepare`]. Every local error — malformed path,
/// unknown name, incomplete or overlong path, non-writable target, literal
/// not fitting the leaf's shape — is raised here, before any kernel call.
pub fn prepare(s: &Schema, input: &str) -> (r: Result<Invocation, CtlError>)
    ensures
        res_view(r) == spec_prepare(*s, input.spec_bytes()),
{
    let path: Path = match tokenize(input) {
        Err(e) => {
            return Err(e);
        },
        Ok(p) => p,
    };
    let target: ResolvedTarget = match resolve(s, &path) {
        Err(e) => {
            return Err(e);
        },
        Ok(t) => t,
    };
    match path.value {
        None => Invocation::start(target, Op::Read),
        Some(lit) => {
            let v: TypedValue = match from_literal(target.shape, lit.as_slice()) {
                Err(e) => {
                    return Err(e);
                },
                Ok(v) => v,
            };
            Invocation::start(target, Op::Write(v))
        },
    }
}

/// A fresh vector with the same four-byte codes.
fn copy_i32s(v: &Vec<i32>) -> (r: Vec<i32>)
    ensures
        r@ == v@,
{
    let mut r: Vec<i32> = Vec::new();
    let mut i: usize = 0;
    while i < v.len()
        invariant
            0 <= i <= v@.len(),
            r@ == v@.take(i as int),
        decreases v@.len() - i,
    {
        r.push(v[i]);
        proof {
            assert(v@.take(i + 1 as int) =~= v@.take(i as int).push(v@[i as int]));
        }
        i = i + 1;
    }
    proof {
        assert(v@.take(v@.len() as int) =~= v@);
    }
    r
}

/// A fresh vector with the same bytes.
fn copy_u8s(v: &Vec<u8>) -> (r: Vec<u8>)
    ensures
        r@ == v@,
{
    let mut r: Vec<u8> = Vec::new();
    let mut i: usize = 0;
    while i < v.len()
        invariant
            0 <= i <= v@.len(),
            r@ == v@.take(i as int),
        decreases v@.len() - i,
    {
        r.push(v[i]);
        proof {
            assert(v@.take(i + 1 as int) =~= v@.take(i as int).push(v@[i as int]));
        }
        i = i + 1;
    }
    proof {
        assert(v@.take(v@.len() as int) =~= v@);
    }
    r
}

} // verus!
