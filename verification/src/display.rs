//! Virtual outputs: what is asked of the host, and how it is given back.

use vstd::prelude::*;

use crate::error::{done_view, plain_error, DetailView, Error, ErrorCode, ErrorView};
use crate::id::{IdempotencyKey, TraceId};

pub mod hyprland;
pub mod testing;

verus! {

/// The name of an output. It is never empty.
#[derive(Debug, PartialEq, Eq, Hash)]
pub struct OutputId(String);

impl View for OutputId {
    type V = Seq<char>;

    closed spec fn view(&self) -> Seq<char> {
        self.0@
    }
}

impl Clone for OutputId {
    fn clone(&self) -> (r: Self)
        ensures
            r@ == self@,
    {
        proof {
            use_type_invariant(self);
        }
        OutputId(self.0.clone())
    }
}

impl OutputId {
    #[verifier::type_invariant]
    spec fn non_empty(self) -> bool {
        self.0@.len() > 0
    }

    /// The output called `name`; an empty name is refused.
    pub fn new(name: &str) -> (r: Result<Self, Error>)
        ensures
            r is Ok <==> name@.len() > 0,
            r matches Ok(id) ==> id@ == name@,
            r matches Err(e) ==> e@ == plain_error(
                ErrorCode::InvalidArgument,
                "output id must not be empty"@,
            ),
    {
        if name.is_empty() {
            return Err(
                Error::new(
                    ErrorCode::InvalidArgument,
                    "output id must not be empty",
                    TraceId::unattributed(),
                ),
            );
        }
        Ok(OutputId(name.to_owned()))
    }

    /// The name.
    pub fn as_str(&self) -> (r: &str)
        ensures
            r@ == self@,
            r@.len() > 0,
    {
        proof {
            use_type_invariant(self);
        }
        self.0.as_str()
    }
}

/// What an output should be like.
#[derive(Debug, PartialEq, Eq)]
pub struct OutputRequest {
    pub preferred_name: String,
    pub width_px: u32,
    pub height_px: u32,
    pub refresh_millihz: u32,
    pub idempotency_key: IdempotencyKey,
}

/// Whether an operation on the host outlives the process.
#[derive(Debug, Clone, Copy, PartialEq, Eq, Hash, Structural)]
pub enum HostOpKind {
    Runtime,
    PersistentConfiguration,
}

/// An operation on the host.
#[derive(Debug, PartialEq, Eq)]
pub struct HostOp {
    pub kind: HostOpKind,
    pub description: String,
}

impl HostOp {
    /// An operation that ends with the process.
    pub fn runtime(description: &str) -> (r: Self)
        ensures
            r.kind == HostOpKind::Runtime,
            r.description@ == description@,
    {
        HostOp { kind: HostOpKind::Runtime, description: description.to_owned() }
    }
}

/// Whether every operation ends with the process.
pub open spec fn runtime_only(ops: Seq<HostOp>) -> bool {
    forall|i: int| 0 <= i < ops.len() ==> (#[trigger] ops[i]).kind == HostOpKind::Runtime
}

/// Refuses operations that change the host's configuration for good; the error
/// shows the first one.
pub fn assert_runtime_only(ops: &[HostOp]) -> (r: Result<(), Error>)
    ensures
        r is Ok <==> runtime_only(ops@),
        r matches Err(e) ==> exists|i: int|
            {
                &&& 0 <= i < ops@.len()
                &&& (#[trigger] ops@[i]).kind == HostOpKind::PersistentConfiguration
                &&& runtime_only(ops@.take(i))
                &&& e@ == plain_error(
                    ErrorCode::HostRefused,
                    "schorl must not modify persistent host compositor configuration"@,
                ).with("operation"@, DetailView::Text(ops@[i].description@))
            },
{
    let mut i: usize = 0;
    while i < ops.len()
        invariant
            i <= ops.len(),
            runtime_only(ops@.take(i as int)),
        decreases ops.len() - i,
    {
        let op = &ops[i];
        if op.kind == HostOpKind::PersistentConfiguration {
            assert(ops@[i as int].kind == HostOpKind::PersistentConfiguration);
            return Err(
                Error::new(
                    ErrorCode::HostRefused,
                    "schorl must not modify persistent host compositor configuration",
                    TraceId::unattributed(),
                ).with_detail("operation", op.description.clone()),
            );
        }
        proof {
            let done = ops@.take(i as int + 1);
            assert forall|j: int| 0 <= j < done.len() implies (#[trigger] done[j]).kind
                == HostOpKind::Runtime by {
                if j < i {
                    assert(ops@.take(i as int)[j].kind == HostOpKind::Runtime);
                }
            }
        }
        i = i + 1;
    }
    assert(ops@.take(i as int) =~= ops@);
    Ok(())
}

/// An output that was to be given back, and what the host answered.
pub struct ReleaseView {
    pub output: Seq<char>,
    pub outcome: Result<(), ErrorView>,
}

/// Gives outputs back to the host.
pub trait OutputRelease {
    /// The outputs that were to be given back so far, in order, each with its answer.
    open spec fn asked(&self) -> Seq<ReleaseView> {
        arbitrary()
    }

    fn release(&mut self, id: &OutputId) -> (r: Result<(), Error>)
        ensures
            final(self).asked() == old(self).asked().push(
                ReleaseView { output: id@, outcome: done_view(r) },
            ),
    ;
}

/// An output that schorl holds until it gives it back.
#[derive(Debug)]
pub struct VirtualOutput {
    id: OutputId,
    held: bool,
}

impl VirtualOutput {
    /// The name of the output.
    pub closed spec fn name(&self) -> Seq<char> {
        self.id@
    }

    /// Whether it has yet to be given back.
    pub closed spec fn held(&self) -> bool {
        self.held
    }

    /// The output called `id`, now held.
    pub fn new(id: OutputId) -> (r: Self)
        ensures
            r.name() == id@,
            r.held(),
    {
        VirtualOutput { id, held: true }
    }

    /// The name of the output.
    pub fn id(&self) -> (r: &OutputId)
        ensures
            r@ == self.name(),
    {
        &self.id
    }

    /// Whether it has yet to be given back.
    pub fn is_held(&self) -> (r: bool)
        ensures
            r == self.held(),
    {
        self.held
    }

    /// Gives the output back, once, and says whether the host took it.
    pub fn release<R: OutputRelease>(self, through: &mut R) -> (r: Result<(), Error>)
        ensures
            self.held() ==> final(through).asked() == old(through).asked().push(
                ReleaseView { output: self.name(), outcome: done_view(r) },
            ),
            self.held() ==> done_view(r) == final(through).asked().last().outcome,
            !self.held() ==> r is Ok && *final(through) == *old(through),
    {
        if self.held {
            through.release(&self.id)
        } else {
            Ok(())
        }
    }

    /// Gives the output back where it is still held: what a scope does when it
    /// ends, on every path. A refusal cannot be told from here.
    pub fn release_at_scope_end<R: OutputRelease>(&mut self, through: &mut R)
        ensures
            !final(self).held(),
            final(self).name() == old(self).name(),
            old(self).held() ==> {
                &&& final(through).asked().len() == old(through).asked().len() + 1
                &&& final(through).asked().drop_last() == old(through).asked()
                &&& final(through).asked().last().output == old(self).name()
            },
            !old(self).held() ==> *final(through) == *old(through),
    {
        if self.held {
            self.held = false;
            let _ = through.release(&self.id);
            assert(through.asked().drop_last() =~= old(through).asked());
        }
    }
}

/// Makes outputs.
pub trait VirtualOutputProvider {
    /// Makes an output, which is held by whoever asked for it.
    fn create(&mut self, request: &OutputRequest) -> (r: Result<VirtualOutput, Error>)
        ensures
            r matches Ok(output) ==> output.held(),
    ;

    fn declared_host_ops(&self) -> (r: Vec<HostOp>);
}

} // verus!
