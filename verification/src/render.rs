use vstd::prelude::*;

use crate::catalog::Registry;
use crate::context::InjectionStack;
use crate::context::InjectionStackFrame;
use crate::errors::InjectionError;
use crate::errors::InjectionErrorV;
use crate::errors::ValidationError;
use crate::scopes::ScopeKind;
use crate::token::TypeToken;
use vstd::string::StringExecFns;

verus! {

/// The character of one decimal digit.
pub open spec fn digit_char(d: int) -> char {
    if d == 0 {
        '0'
    } else if d == 1 {
        '1'
    } else if d == 2 {
        '2'
    } else if d == 3 {
        '3'
    } else if d == 4 {
        '4'
    } else if d == 5 {
        '5'
    } else if d == 6 {
        '6'
    } else if d == 7 {
        '7'
    } else if d == 8 {
        '8'
    } else {
        '9'
    }
}

/// The decimal rendering of a number, most significant digit first.
pub open spec fn sp_decimal(n: nat) -> Seq<char>
    decreases n,
{
    if n < 10 {
        seq![digit_char(n as int)]
    } else {
        sp_decimal(n / 10).push(digit_char((n % 10) as int))
    }
}

fn digit_str(d: usize) -> (s: String)
    requires
        d < 10,
    ensures
        s@ == seq![digit_char(d as int)],
{
    proof {
        reveal_strlit("0");
        reveal_strlit("1");
        reveal_strlit("2");
        reveal_strlit("3");
        reveal_strlit("4");
        reveal_strlit("5");
        reveal_strlit("6");
        reveal_strlit("7");
        reveal_strlit("8");
        reveal_strlit("9");
    }
    let s = match d {
        0 => String::from_str("0"),
        1 => String::from_str("1"),
        2 => String::from_str("2"),
        3 => String::from_str("3"),
        4 => String::from_str("4"),
        5 => String::from_str("5"),
        6 => String::from_str("6"),
        7 => String::from_str("7"),
        8 => String::from_str("8"),
        _ => String::from_str("9"),
    };
    proof {
        assert(s@ =~= seq![digit_char(d as int)]);
    }
    s
}

/// Renders a number in decimal.
fn fmt_usize(n: usize) -> (s: String)
    ensures
        s@ == sp_decimal(n as nat),
    decreases n,
{
    if n < 10 {
        digit_str(n)
    } else {
        let mut s = fmt_usize(n / 10);
        let d = digit_str(n % 10);
        s.append(d.as_str());
        proof {
            assert(s@ =~= sp_decimal((n / 10) as nat).push(digit_char((n % 10) as int)));
        }
        s
    }
}

/// The printable name a registry holds for a token; empty if none was
/// registered.
pub open spec fn sp_name_of(reg: Registry, t: TypeToken) -> Seq<char> {
    if t.id < reg.type_names@.len() {
        reg.type_names@[t.id as int]@
    } else {
        Seq::empty()
    }
}

fn name_str(reg: &Registry, t: TypeToken) -> (s: String)
    ensures
        s@ == sp_name_of(*reg, t),
{
    if t.id < reg.type_names.len() {
        String::from_str(reg.type_names[t.id].as_str())
    } else {
        let s = String::new();
        proof {
            assert(s@ =~= sp_name_of(*reg, t));
        }
        s
    }
}

/// The printable name of a scope kind.
pub open spec fn sp_scope_name(s: ScopeKind) -> Seq<char> {
    match s {
        ScopeKind::Agnostic => "Agnostic"@,
        ScopeKind::Transient => "Transient"@,
        ScopeKind::Cached(_) => "Cached"@,
        ScopeKind::Singleton => "Singleton"@,
    }
}

fn scope_name_str(s: ScopeKind) -> (r: String)
    ensures
        r@ == sp_scope_name(s),
{
    match s {
        ScopeKind::Agnostic => String::from_str("Agnostic"),
        ScopeKind::Transient => String::from_str("Transient"),
        ScopeKind::Cached(_) => String::from_str("Cached"),
        ScopeKind::Singleton => String::from_str("Singleton"),
    }
}

/// One numbered line of a rendered resolution stack, indented two spaces,
/// ending in a newline.
pub open spec fn sp_frame_line(reg: Registry, idx: nat, f: InjectionStackFrame) -> Seq<char> {
    "  "@ + sp_decimal(idx) + (match f {
        InjectionStackFrame::Resolve { iface, .. } => ": Resolve: "@ + sp_name_of(reg, iface),
        InjectionStackFrame::Build { instance_type, scope } => ": Build:   "@ + sp_name_of(
            reg,
            instance_type,
        ) + " <"@ + sp_scope_name(scope) + ">"@,
    }) + "\n"@
}

fn frame_line(reg: &Registry, idx: usize, f: &InjectionStackFrame) -> (s: String)
    ensures
        s@ == sp_frame_line(*reg, idx as nat, *f),
{
    let mut s = String::from_str("  ");
    let num = fmt_usize(idx);
    s.append(num.as_str());
    match f {
        InjectionStackFrame::Resolve { iface, .. } => {
            s.append(": Resolve: ");
            let name = name_str(reg, *iface);
            s.append(name.as_str());
        },
        InjectionStackFrame::Build { instance_type, scope } => {
            s.append(": Build:   ");
            let name = name_str(reg, *instance_type);
            s.append(name.as_str());
            s.append(" <");
            let sn = scope_name_str(*scope);
            s.append(sn.as_str());
            s.append(">");
        },
    }
    s.append("\n");
    proof {
        assert(s@ =~= sp_frame_line(*reg, idx as nat, *f));
    }
    s
}

/// A rendered resolution stack from frame `i` on: one line per frame,
/// numbered from 0 at the innermost frame, innermost first.
pub open spec fn sp_stack_text(reg: Registry, frames: Seq<InjectionStackFrame>, i: int) -> Seq<
    char,
>
    decreases frames.len() - i,
{
    if i < 0 || i >= frames.len() {
        Seq::empty()
    } else {
        sp_frame_line(reg, i as nat, frames[i]) + sp_stack_text(reg, frames, i + 1)
    }
}

impl InjectionStack {
    /// Renders the stack as text: one line per frame, numbered from 0 at
    /// the innermost frame, each indented two spaces.
    pub fn render(&self, reg: &Registry) -> (s: String)
        ensures
            s@ == sp_stack_text(*reg, self@, 0),
    {
        let mut s = String::new();
        let mut i: usize = 0;
        proof {
            assert(s@ =~= Seq::<char>::empty());
            assert(Seq::<char>::empty() + sp_stack_text(*reg, self@, 0) =~= sp_stack_text(
                *reg,
                self@,
                0,
            ));
        }
        while i < self.frames.len()
            invariant
                i <= self.frames@.len(),
                sp_stack_text(*reg, self@, 0) =~= s@ + sp_stack_text(*reg, self@, i as int),
            decreases self.frames@.len() - i,
        {
            let line = frame_line(reg, i, &self.frames[i]);
            let ghost pre = s@;
            s.append(line.as_str());
            proof {
                assert(sp_stack_text(*reg, self@, i as int) =~= sp_frame_line(
                    *reg,
                    i as nat,
                    self@[i as int],
                ) + sp_stack_text(*reg, self@, i + 1));
                assert(sp_stack_text(*reg, self@, 0) =~= s@ + sp_stack_text(*reg, self@, i + 1));
            }
            i = i + 1;
        }
        proof {
            assert(sp_stack_text(*reg, self@, i as int) =~= Seq::<char>::empty());
            assert(s@ =~= sp_stack_text(*reg, self@, 0));
        }
        s
    }
}

/// The one-line human-readable message of an error.
pub open spec fn sp_error_message(reg: Registry, e: InjectionErrorV) -> Seq<char> {
    match e {
        InjectionErrorV::Unregistered { type_id, .. } => "Unregistered type: $"@ + sp_name_of(
            reg,
            type_id,
        ),
        InjectionErrorV::Ambiguous { type_id, .. } => "Ambiguous type: $"@ + sp_name_of(
            reg,
            type_id,
        ),
        InjectionErrorV::ScopeInversion { instance_type, dependency_type, .. } => {
            "Scope inversion: $"@ + sp_name_of(reg, dependency_type) + " injected into $"@
                + sp_name_of(reg, instance_type)
        },
        InjectionErrorV::Cyclic { .. } => "Cyclic dependency"@,
    }
}

/// The diagnostic stack an error carries.
pub open spec fn sp_error_stack(e: InjectionErrorV) -> Seq<InjectionStackFrame> {
    match e {
        InjectionErrorV::Unregistered { stack, .. } => stack,
        InjectionErrorV::Ambiguous { stack, .. } => stack,
        InjectionErrorV::ScopeInversion { stack, .. } => stack,
        InjectionErrorV::Cyclic { stack } => stack,
    }
}

impl InjectionError {
    /// Renders the error's one-line message.
    pub fn message(&self, reg: &Registry) -> (s: String)
        ensures
            s@ == sp_error_message(*reg, self@),
    {
        let mut s: String;
        match self {
            InjectionError::Unregistered(e) => {
                s = String::from_str("Unregistered type: $");
                let name = name_str(reg, e.type_id);
                s.append(name.as_str());
            },
            InjectionError::Ambiguous(e) => {
                s = String::from_str("Ambiguous type: $");
                let name = name_str(reg, e.type_id);
                s.append(name.as_str());
            },
            InjectionError::ScopeInversion(e) => {
                s = String::from_str("Scope inversion: $");
                let dep = name_str(reg, e.dependency_type);
                s.append(dep.as_str());
                s.append(" injected into $");
                let inst = name_str(reg, e.instance_type);
                s.append(inst.as_str());
            },
            InjectionError::Cyclic(_) => {
                s = String::from_str("Cyclic dependency");
            },
        }
        proof {
            assert(s@ =~= sp_error_message(*reg, self@));
        }
        s
    }

    /// Renders the error: its message, then the resolution stack at the
    /// point of failure, innermost frame first.
    pub fn render(&self, reg: &Registry) -> (s: String)
        ensures
            s@ == sp_error_message(*reg, self@) + "\n"@ + sp_stack_text(
                *reg,
                sp_error_stack(self@),
                0,
            ),
    {
        let mut s = self.message(reg);
        s.append("\n");
        let stack = match self {
            InjectionError::Unregistered(e) => &e.stack,
            InjectionError::Ambiguous(e) => &e.stack,
            InjectionError::ScopeInversion(e) => &e.stack,
            InjectionError::Cyclic(e) => &e.stack,
        };
        let rendered = stack.render(reg);
        s.append(rendered.as_str());
        proof {
            assert(s@ =~= sp_error_message(*reg, self@) + "\n"@ + sp_stack_text(
                *reg,
                sp_error_stack(self@),
                0,
            ));
        }
        s
    }
}

/// The numbered list of messages from error `i` on.
pub open spec fn sp_validation_lines(reg: Registry, errs: Seq<InjectionErrorV>, i: int) -> Seq<
    char,
>
    decreases errs.len() - i,
{
    if i < 0 || i >= errs.len() {
        Seq::empty()
    } else {
        sp_decimal(i as nat) + ": "@ + sp_error_message(reg, errs[i]) + "\n"@
            + sp_validation_lines(reg, errs, i + 1)
    }
}

impl ValidationError {
    /// Renders the whole report: a header line, then each error's message
    /// on a numbered line.
    pub fn render(&self, reg: &Registry) -> (s: String)
        ensures
            s@ == "DI graph validation failed:\n"@ + sp_validation_lines(*reg, self@, 0),
    {
        let mut s = String::from_str("DI graph validation failed:\n");
        let mut i: usize = 0;
        proof {
            assert(s@ + sp_validation_lines(*reg, self@, 0) =~= "DI graph validation failed:\n"@
                + sp_validation_lines(*reg, self@, 0));
        }
        while i < self.errors.len()
            invariant
                i <= self.errors@.len(),
                "DI graph validation failed:\n"@ + sp_validation_lines(*reg, self@, 0) =~= s@
                    + sp_validation_lines(*reg, self@, i as int),
            decreases self.errors@.len() - i,
        {
            let num = fmt_usize(i);
            let msg = self.errors[i].message(reg);
            let ghost pre = s@;
            s.append(num.as_str());
            s.append(": ");
            s.append(msg.as_str());
            s.append("\n");
            proof {
                assert(self@[i as int] == self.errors@[i as int]@);
                assert(sp_validation_lines(*reg, self@, i as int) =~= sp_decimal(i as nat) + ": "@
                    + sp_error_message(*reg, self@[i as int]) + "\n"@ + sp_validation_lines(
                    *reg,
                    self@,
                    i + 1,
                ));
                assert("DI graph validation failed:\n"@ + sp_validation_lines(*reg, self@, 0)
                    =~= s@ + sp_validation_lines(*reg, self@, i + 1));
            }
            i = i + 1;
        }
        proof {
            assert(sp_validation_lines(*reg, self@, i as int) =~= Seq::<char>::empty());
            assert(s@ =~= "DI graph validation failed:\n"@ + sp_validation_lines(*reg, self@, 0));
        }
        s
    }
}

} // verus!
