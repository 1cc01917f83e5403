use vstd::prelude::*;

use crate::context::InjectionStack;
use crate::context::InjectionStackFrame;
use crate::scopes::ScopeKind;
use crate::token::TypeToken;

verus! {

/// A required interface had no matching binding.
#[derive(PartialEq, Eq, Debug)]
pub struct UnregisteredTypeError {
    pub type_id: TypeToken,
    pub stack: InjectionStack,
}

/// A single-valued dependency matched two or more bindings.
#[derive(PartialEq, Eq, Debug)]
pub struct AmbiguousTypeError {
    pub type_id: TypeToken,
    pub stack: InjectionStack,
}

/// A component caches a dependency that lives shorter than the component
/// itself (found by validation only).
#[derive(PartialEq, Eq, Debug)]
pub struct ScopeInversionError {
    pub instance_type: TypeToken,
    pub instance_scope: ScopeKind,
    pub dependency_type: TypeToken,
    pub dependency_scope: ScopeKind,
    pub stack: InjectionStack,
}

/// Resolution exceeded the depth any acyclic graph over the registered
/// builders could need, so the graph must contain a dependency cycle.
#[derive(PartialEq, Eq, Debug)]
pub struct CyclicDependencyError {
    pub stack: InjectionStack,
}

/// Everything that can go wrong while resolving or validating a dependency.
#[derive(PartialEq, Eq, Debug)]
pub enum InjectionError {
    Unregistered(UnregisteredTypeError),
    Ambiguous(AmbiguousTypeError),
    ScopeInversion(ScopeInversionError),
    Cyclic(CyclicDependencyError),
}

/// The mathematical value of an [`InjectionError`]: the same data with the
/// diagnostic stack as a sequence of frames.
#[verifier::ext_equal]
pub enum InjectionErrorV {
    Unregistered { type_id: TypeToken, stack: Seq<InjectionStackFrame> },
    Ambiguous { type_id: TypeToken, stack: Seq<InjectionStackFrame> },
    ScopeInversion {
        instance_type: TypeToken,
        instance_scope: ScopeKind,
        dependency_type: TypeToken,
        dependency_scope: ScopeKind,
        stack: Seq<InjectionStackFrame>,
    },
    Cyclic { stack: Seq<InjectionStackFrame> },
}

impl View for InjectionError {
    type V = InjectionErrorV;

    open spec fn view(&self) -> InjectionErrorV {
        match self {
            InjectionError::Unregistered(e) => InjectionErrorV::Unregistered {
                type_id: e.type_id,
                stack: e.stack@,
            },
            InjectionError::Ambiguous(e) => InjectionErrorV::Ambiguous {
                type_id: e.type_id,
                stack: e.stack@,
            },
            InjectionError::ScopeInversion(e) => InjectionErrorV::ScopeInversion {
                instance_type: e.instance_type,
                instance_scope: e.instance_scope,
                dependency_type: e.dependency_type,
                dependency_scope: e.dependency_scope,
                stack: e.stack@,
            },
            InjectionError::Cyclic(e) => InjectionErrorV::Cyclic { stack: e.stack@ },
        }
    }
}

/// The type identity an error complains about, used to sort and deduplicate
/// validation reports.  Cyclic errors name no single type and sort last.
pub open spec fn error_key(e: InjectionErrorV) -> int {
    match e {
        InjectionErrorV::Unregistered { type_id, .. } => type_id.id as int,
        InjectionErrorV::Ambiguous { type_id, .. } => type_id.id as int,
        InjectionErrorV::ScopeInversion { dependency_type, .. } => dependency_type.id as int,
        InjectionErrorV::Cyclic { .. } => usize::MAX as int,
    }
}

impl InjectionError {
    /// The error for an interface with no binding, recorded at the given
    /// point of resolution.
    pub fn unregistered(type_id: TypeToken, stack: InjectionStack) -> (e: InjectionError)
        ensures
            e@ == (InjectionErrorV::Unregistered { type_id, stack: stack@ }),
    {
        InjectionError::Unregistered(UnregisteredTypeError { type_id, stack })
    }

    /// The error for an interface with two or more bindings where exactly one
    /// was required.
    pub fn ambiguous(type_id: TypeToken, stack: InjectionStack) -> (e: InjectionError)
        ensures
            e@ == (InjectionErrorV::Ambiguous { type_id, stack: stack@ }),
    {
        InjectionError::Ambiguous(AmbiguousTypeError { type_id, stack })
    }

    /// The error for a dependency whose instances would outlive the scope
    /// they were resolved from.
    pub fn scope_inversion(
        instance_type: TypeToken,
        instance_scope: ScopeKind,
        dependency_type: TypeToken,
        dependency_scope: ScopeKind,
        stack: InjectionStack,
    ) -> (e: InjectionError)
        ensures
            e@ == (InjectionErrorV::ScopeInversion {
                instance_type,
                instance_scope,
                dependency_type,
                dependency_scope,
                stack: stack@,
            }),
    {
        InjectionError::ScopeInversion(
            ScopeInversionError {
                instance_type,
                instance_scope,
                dependency_type,
                dependency_scope,
                stack,
            },
        )
    }

    /// The error for a resolution that exceeded every acyclic graph's depth.
    pub fn cyclic(stack: InjectionStack) -> (e: InjectionError)
        ensures
            e@ == (InjectionErrorV::Cyclic { stack: stack@ }),
    {
        InjectionError::Cyclic(CyclicDependencyError { stack })
    }

    /// The error key used by validation to sort and deduplicate.
    pub fn key(&self) -> (k: usize)
        ensures
            k == error_key(self@),
    {
        match self {
            InjectionError::Unregistered(e) => e.type_id.id,
            InjectionError::Ambiguous(e) => e.type_id.id,
            InjectionError::ScopeInversion(e) => e.dependency_type.id,
            InjectionError::Cyclic(_) => usize::MAX,
        }
    }
}

/// The combined outcome of validating a whole dependency graph: every error
/// found, sorted and deduplicated by the offending type identity.
#[derive(PartialEq, Eq, Debug)]
pub struct ValidationError {
    pub errors: Vec<InjectionError>,
}

impl View for ValidationError {
    type V = Seq<InjectionErrorV>;

    open spec fn view(&self) -> Seq<InjectionErrorV> {
        self.errors@.map_values(|e: InjectionError| e@)
    }
}

/// Lets a caller drop expected validation errors for types it registers
/// dynamically, after the static graph was checked.
pub trait ValidationErrorExt {
    /// The value of the result this operation is applied to.
    spec fn spec_errors(&self) -> Option<Seq<InjectionErrorV>>;

    /// Removes every error naming the given type; a report emptied this way
    /// becomes success.
    fn ignore(self, type_id: TypeToken) -> (r: Self) where Self: Sized;
}

pub open spec fn keeps_error(e: InjectionErrorV, type_id: TypeToken) -> bool {
    match e {
        InjectionErrorV::Unregistered { type_id: t, .. } => t != type_id,
        InjectionErrorV::Ambiguous { type_id: t, .. } => t != type_id,
        InjectionErrorV::ScopeInversion { dependency_type: t, .. } => t != type_id,
        InjectionErrorV::Cyclic { .. } => true,
    }
}

impl ValidationErrorExt for Result<(), ValidationError> {
    open spec fn spec_errors(&self) -> Option<Seq<InjectionErrorV>> {
        match self {
            Ok(_) => None,
            Err(v) => Some(v@),
        }
    }

    fn ignore(self, type_id: TypeToken) -> (r: Self)
        ensures
            (match self.spec_errors() {
                None => r is Ok,
                Some(errs) => {
                    let kept = errs.filter(|e: InjectionErrorV| keeps_error(e, type_id));
                    if kept.len() == 0 {
                        r is Ok
                    } else {
                        r matches Err(v) && v@ == kept
                    }
                },
            }),
    {
        match self {
            Ok(u) => Ok(u),
            Err(v) => {
                let kept = filter_errors(v.errors, type_id);
                if kept.len() == 0 {
                    Ok(())
                } else {
                    Err(ValidationError { errors: kept })
                }
            },
        }
    }
}

fn error_names(e: &InjectionError, type_id: TypeToken) -> (r: bool)
    ensures
        r == !keeps_error(e@, type_id),
{
    match e {
        InjectionError::Unregistered(u) => u.type_id.id == type_id.id,
        InjectionError::Ambiguous(u) => u.type_id.id == type_id.id,
        InjectionError::ScopeInversion(u) => u.dependency_type.id == type_id.id,
        InjectionError::Cyclic(_) => false,
    }
}

fn filter_errors(mut v: Vec<InjectionError>, type_id: TypeToken) -> (r: Vec<InjectionError>)
    ensures
        r@.map_values(|e: InjectionError| e@) == v@.map_values(|e: InjectionError| e@).filter(
            |e: InjectionErrorV| keeps_error(e, type_id),
        ),
    decreases v@.len(),
{
    let ghost pre = v@.map_values(|e: InjectionError| e@);
    if v.len() == 0 {
        proof {
            reveal_with_fuel(Seq::<_>::filter, 1);
            assert(pre =~= Seq::<InjectionErrorV>::empty());
            assert(pre.filter(|e: InjectionErrorV| keeps_error(e, type_id)) =~= pre);
        }
        v
    } else {
        let last = v.pop().unwrap();
        let ghost shorter = v@.map_values(|e: InjectionError| e@);
        proof {
            assert(pre.drop_last() =~= shorter);
            reveal_with_fuel(Seq::<_>::filter, 2);
        }
        let mut r = filter_errors(v, type_id);
        if !error_names(&last, type_id) {
            r.push(last);
        }
        proof {
            assert(r@.map_values(|e: InjectionError| e@) =~= pre.filter(
                |e: InjectionErrorV| keeps_error(e, type_id),
            ));
        }
        r
    }
}

} // verus!
