use vstd::prelude::*;

use crate::deps::SpecTag;
use crate::scopes::ScopeKind;
use crate::token::TypeToken;

verus! {

/// One step of an in-progress resolution: either a dependency strategy being
/// resolved, or a concrete type under construction.
#[derive(Clone, Copy, PartialEq, Eq, Structural, Debug)]
pub enum InjectionStackFrame {
    Resolve { iface: TypeToken, tag: SpecTag },
    Build { instance_type: TypeToken, scope: ScopeKind },
}

/// The call stack of one top-level resolution, threaded through the engine
/// purely for diagnostics.  Frames are ordered outermost first; pushing adds
/// a new innermost frame.
pub struct InjectionContext {
    pub frames: Vec<InjectionStackFrame>,
}

impl View for InjectionContext {
    type V = Seq<InjectionStackFrame>;

    open spec fn view(&self) -> Seq<InjectionStackFrame> {
        self.frames@
    }
}

impl InjectionContext {
    /// The empty context a top-level resolution starts from.
    pub fn new_root() -> (c: InjectionContext)
        ensures
            c@ == Seq::<InjectionStackFrame>::empty(),
    {
        let c = InjectionContext { frames: Vec::new() };
        proof {
            assert(c@ =~= Seq::<InjectionStackFrame>::empty());
        }
        c
    }

    /// This context extended with a frame for a dependency strategy being
    /// resolved against the given interface.
    pub fn push_resolve(&self, iface: TypeToken, tag: SpecTag) -> (c: InjectionContext)
        ensures
            c@ == self@.push(InjectionStackFrame::Resolve { iface, tag }),
    {
        let mut frames = clone_frames(&self.frames);
        frames.push(InjectionStackFrame::Resolve { iface, tag });
        InjectionContext { frames }
    }

    /// This context extended with a frame for a concrete type under
    /// construction.
    pub fn push_build(&self, instance_type: TypeToken, scope: ScopeKind) -> (c: InjectionContext)
        ensures
            c@ == self@.push(InjectionStackFrame::Build { instance_type, scope }),
    {
        let mut frames = clone_frames(&self.frames);
        frames.push(InjectionStackFrame::Build { instance_type, scope });
        InjectionContext { frames }
    }

    /// A snapshot of this context, innermost frame first, as carried by
    /// errors.
    pub fn to_stack(&self) -> (s: InjectionStack)
        ensures
            s@ == self@.reverse(),
    {
        let mut frames: Vec<InjectionStackFrame> = Vec::new();
        let mut i: usize = self.frames.len();
        while i > 0
            invariant
                i <= self.frames.len(),
                frames@.len() == self.frames@.len() - i,
                forall|k: int|
                    0 <= k < frames@.len() ==> frames@[k] == self.frames@[self.frames@.len() - 1
                        - k],
            decreases i,
        {
            i = i - 1;
            frames.push(self.frames[i]);
        }
        let s = InjectionStack { frames };
        proof {
            assert(s@ =~= self@.reverse());
        }
        s
    }
}

/// A finished snapshot of a resolution stack, innermost frame first; frame
/// `0` is the point where the error arose.
#[derive(PartialEq, Eq, Debug)]
pub struct InjectionStack {
    pub frames: Vec<InjectionStackFrame>,
}

impl View for InjectionStack {
    type V = Seq<InjectionStackFrame>;

    open spec fn view(&self) -> Seq<InjectionStackFrame> {
        self.frames@
    }
}

impl Clone for InjectionStack {
    fn clone(&self) -> (r: Self)
        ensures
            r@ == self@,
    {
        InjectionStack { frames: clone_frames(&self.frames) }
    }
}

fn clone_frames(v: &Vec<InjectionStackFrame>) -> (r: Vec<InjectionStackFrame>)
    ensures
        r@ == v@,
{
    let mut r: Vec<InjectionStackFrame> = Vec::new();
    let mut i: usize = 0;
    while i < v.len()
        invariant
            i <= v.len(),
            r@ == v@.take(i as int),
        decreases v.len() - i,
    {
        r.push(v[i]);
        proof {
            assert(r@ =~= v@.take(i + 1));
        }
        i = i + 1;
    }
    proof {
        assert(r@ =~= v@);
    }
    r
}

} // verus!
