//! Expansion of parsed modifiers into guard-check statements.
//!
//! Each modifier becomes one statement.  The reserved name `non_reentrant`
//! becomes a scoped reentrancy-lock acquisition (its arguments, if any, are
//! ignored); every other name becomes a guarded call of the function of that
//! name.  The statements are prepended to the annotated function's body in
//! declaration order, and every other part of the function is kept unchanged.

use vstd::prelude::*;

use crate::parser::{modifier_of, views_of, ModifierSpec, ModifierSpecView};

verus! {

/// The reserved modifier name that asks for the reentrancy lock.
pub open spec fn reserved_name() -> Seq<char> {
    "non_reentrant"@
}

/// One statement of the expanded function.
pub enum Stmt {
    /// Acquisition of a scoped reentrancy lock, held to the end of the body.
    ReentrancyLock,
    /// A call of the guard function `name` with the raw argument fragments
    /// `arguments`, rejecting the call and aborting on failure.
    GuardCall { name: String, arguments: Vec<String> },
    /// A statement of the original body, kept verbatim.
    Source { text: String },
}

/// The mathematical value of a `Stmt`.
#[verifier::ext_equal]
pub enum StmtView {
    ReentrancyLock,
    GuardCall { name: Seq<char>, arguments: Seq<Seq<char>> },
    Source { text: Seq<char> },
}

impl View for Stmt {
    type V = StmtView;

    open spec fn view(&self) -> StmtView {
        match self {
            Stmt::ReentrancyLock => StmtView::ReentrancyLock,
            Stmt::GuardCall { name, arguments } => StmtView::GuardCall {
                name: name@,
                arguments: views_of(arguments@),
            },
            Stmt::Source { text } => StmtView::Source { text: text@ },
        }
    }
}

/// The guard-check statement that a parsed modifier expands to.
pub open spec fn expansion_of(m: ModifierSpecView) -> StmtView {
    if m.name == reserved_name() {
        StmtView::ReentrancyLock
    } else {
        StmtView::GuardCall { name: m.name, arguments: m.arguments }
    }
}

/// The reserved name never expands to a call of a function named
/// `non_reentrant`: it always expands to the lock acquisition, whatever
/// arguments were attached to it, and no expanded guard call bears the
/// reserved name.
pub proof fn lemma_reserved_never_called(m: ModifierSpecView)
    ensures
        m.name == reserved_name() ==> expansion_of(m) == StmtView::ReentrancyLock,
        expansion_of(m) matches StmtView::GuardCall { name, arguments } ==> name
            != reserved_name(),
{
}

/// The structural facts of the annotated function that expansion must keep:
/// everything but the statement list reappears unchanged in the output.
pub struct FunctionSignatureSnapshot {
    pub attrs: Vec<String>,
    pub visibility: String,
    pub is_async: bool,
    pub name: String,
    pub generics: String,
    pub parameters: String,
    pub return_type: String,
    pub where_clause: String,
    pub body: Vec<String>,
}

/// The expanded function: the snapshot's signature facts, unchanged, around
/// the new statement list.
pub struct ExpandedFunction {
    pub attrs: Vec<String>,
    pub visibility: String,
    pub is_async: bool,
    pub name: String,
    pub generics: String,
    pub parameters: String,
    pub return_type: String,
    pub where_clause: String,
    pub statements: Vec<Stmt>,
}

/// Expand one parsed modifier into its guard-check statement.
pub fn expand_modifier(m: &ModifierSpec) -> (s: Stmt)
    ensures
        s@ == expansion_of(m@),
{
    let reserved = "non_reentrant".to_owned();
    if m.name == reserved {
        Stmt::ReentrancyLock
    } else {
        Stmt::GuardCall { name: m.name.clone(), arguments: clone_strings(&m.arguments) }
    }
}

fn clone_strings(v: &Vec<String>) -> (r: Vec<String>)
    ensures
        r@ == v@,
{
    let mut r: Vec<String> = Vec::new();
    let mut k: usize = 0;
    while k < v.len()
        invariant
            k <= v@.len(),
            r@ == v@.take(k as int),
        decreases v@.len() - k,
    {
        r.push(v[k].clone());
        proof {
            assert(r@ =~= v@.take(k as int + 1));
        }
        k += 1;
    }
    proof {
        assert(v@.take(v@.len() as int) =~= v@);
    }
    r
}

/// Rebuild the function around the guard checks: the signature facts are kept
/// unchanged, and the statement list is the checks, in declaration order,
/// followed by the original body, in its original order.
pub fn expand_function(modifiers: Vec<ModifierSpec>, func: FunctionSignatureSnapshot) -> (e:
    ExpandedFunction)
    ensures
        e.attrs == func.attrs,
        e.visibility == func.visibility,
        e.is_async == func.is_async,
        e.name == func.name,
        e.generics == func.generics,
        e.parameters == func.parameters,
        e.return_type == func.return_type,
        e.where_clause == func.where_clause,
        e.statements@.len() == modifiers@.len() + func.body@.len(),
        forall|i: int| 0 <= i < modifiers@.len() ==> #[trigger] e.statements@[i]@ == expansion_of(
            modifiers@[i]@,
        ),
        forall|i: int| 0 <= i < func.body@.len() ==> e.statements@[modifiers@.len() + i]@ == (
        StmtView::Source { text: func.body@[i]@ }),
{
    let mut statements: Vec<Stmt> = Vec::new();
    let mut k: usize = 0;
    while k < modifiers.len()
        invariant
            k <= modifiers@.len(),
            statements@.len() == k,
            forall|i: int| 0 <= i < k ==> #[trigger] statements@[i]@ == expansion_of(
                modifiers@[i]@,
            ),
        decreases modifiers@.len() - k,
    {
        let s = expand_modifier(&modifiers[k]);
        statements.push(s);
        k += 1;
    }
    let mut k2: usize = 0;
    while k2 < func.body.len()
        invariant
            k2 <= func.body@.len(),
            statements@.len() == modifiers@.len() + k2,
            forall|i: int| 0 <= i < modifiers@.len() ==> #[trigger] statements@[i]@ == expansion_of(
                modifiers@[i]@,
            ),
            forall|i: int| 0 <= i < k2 ==> statements@[modifiers@.len() + i]@ == (StmtView::Source {
                text: func.body@[i]@,
            }),
        decreases func.body@.len() - k2,
    {
        let s = Stmt::Source { text: func.body[k2].clone() };
        statements.push(s);
        k2 += 1;
    }
    ExpandedFunction {
        attrs: func.attrs,
        visibility: func.visibility,
        is_async: func.is_async,
        name: func.name,
        generics: func.generics,
        parameters: func.parameters,
        return_type: func.return_type,
        where_clause: func.where_clause,
        statements,
    }
}

/// Parse the attribute's literals and expand the function in one step: the
/// statement list of the result starts with the guard checks of the parsed
/// modifiers, in declaration order, and continues with the original body;
/// every signature fact of the snapshot is kept unchanged.
pub fn modifiers(args: &Vec<String>, input: FunctionSignatureSnapshot) -> (e: ExpandedFunction)
    ensures
        e.attrs == input.attrs,
        e.visibility == input.visibility,
        e.is_async == input.is_async,
        e.name == input.name,
        e.generics == input.generics,
        e.parameters == input.parameters,
        e.return_type == input.return_type,
        e.where_clause == input.where_clause,
        e.statements@.len() == args@.len() + input.body@.len(),
        forall|i: int| 0 <= i < args@.len() ==> #[trigger] e.statements@[i]@ == expansion_of(
            modifier_of(args@[i]@),
        ),
        forall|i: int| 0 <= i < input.body@.len() ==> e.statements@[args@.len() + i]@ == (
        StmtView::Source { text: input.body@[i]@ }),
{
    let parsed = crate::parser::parse_modifier_list(args);
    expand_function(parsed, input)
}

} // verus!
