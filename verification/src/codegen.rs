//! Rendering of the expanded function as replacement source text.
//!
//! A reentrancy-lock statement renders as a scoped guard binding; a guard
//! call renders as a call of the named function with its raw argument
//! fragments spliced in verbatim, followed by the reject-and-abort handling
//! of a failure; an original statement renders as its own text.

use vstd::prelude::*;

use crate::expand::{ExpandedFunction, Stmt, StmtView};
use crate::parser::views_of;

verus! {

/// The source text of the scoped reentrancy-lock acquisition.
pub open spec fn lock_source() -> Seq<char> {
    "let __guard = rustic::reentrancy_guard::ReentrancyGuard::new();"@
}

/// The argument fragments from index `i` on, joined with `", "`.
pub open spec fn joined_arguments(args: Seq<Seq<char>>, i: int) -> Seq<char>
    decreases args.len() - i,
{
    if i < 0 || i >= args.len() {
        Seq::empty()
    } else if i == args.len() - 1 {
        args[i]
    } else {
        args[i] + ", "@ + joined_arguments(args, i + 1)
    }
}

/// The source text of a guard call: bind the guard's result, and on failure
/// report the message through the rejection primitive and abort.
pub open spec fn guard_call_source(name: Seq<char>, arguments: Seq<Seq<char>>) -> Seq<char> {
    "let r: Result<(), String> = "@ + name + "("@ + joined_arguments(arguments, 0) + ");\nif let Err(e) = r {\n    ic_cdk::api::call::reject(&e);\n    panic!(\""@
        + name + " failed: {}\", e);\n}"@
}

/// The source text of one statement of the expanded function.
pub open spec fn statement_source(s: StmtView) -> Seq<char> {
    match s {
        StmtView::ReentrancyLock => lock_source(),
        StmtView::GuardCall { name, arguments } => guard_call_source(name, arguments),
        StmtView::Source { text } => text,
    }
}

fn join_arguments_from(args: &Vec<String>, i: usize) -> (r: String)
    requires
        i <= args@.len(),
    ensures
        r@ == joined_arguments(views_of(args@), i as int),
    decreases args@.len() - i,
{
    if i >= args.len() {
        let r = String::new();
        return r;
    }
    let mut r = args[i].clone();
    if i + 1 < args.len() {
        r.append(", ");
        let rest = join_arguments_from(args, i + 1);
        r.append(rest.as_str());
        proof {
            assert(r@ =~= joined_arguments(views_of(args@), i as int));
        }
    }
    r
}

/// Render one statement of the expanded function as source text.
pub fn render_statement(s: &Stmt) -> (r: String)
    ensures
        r@ == statement_source(s@),
{
    match s {
        Stmt::ReentrancyLock => {
            "let __guard = rustic::reentrancy_guard::ReentrancyGuard::new();".to_owned()
        },
        Stmt::GuardCall { name, arguments } => {
            let mut r = "let r: Result<(), String> = ".to_owned();
            r.append(name.as_str());
            r.append("(");
            let joined = join_arguments_from(arguments, 0);
            r.append(joined.as_str());
            r.append(");\nif let Err(e) = r {\n    ic_cdk::api::call::reject(&e);\n    panic!(\"");
            r.append(name.as_str());
            r.append(" failed: {}\", e);\n}");
            proof {
                assert(r@ =~= statement_source(s@));
            }
            r
        },
        Stmt::Source { text } => text.clone(),
    }
}

/// The views of the statements of an expanded function.
pub open spec fn statement_views(stmts: Seq<Stmt>) -> Seq<StmtView> {
    stmts.map_values(|s: Stmt| s@)
}

/// The source text of the statements from index `i` on, one per line.
pub open spec fn statements_source(stmts: Seq<StmtView>, i: int) -> Seq<char>
    decreases stmts.len() - i,
{
    if i < 0 || i >= stmts.len() {
        Seq::empty()
    } else {
        statement_source(stmts[i]) + "\n"@ + statements_source(stmts, i + 1)
    }
}

/// The source text of the outer attributes from index `i` on, one per line.
pub open spec fn lines_source(parts: Seq<Seq<char>>, i: int) -> Seq<char>
    decreases parts.len() - i,
{
    if i < 0 || i >= parts.len() {
        Seq::empty()
    } else {
        parts[i] + "\n"@ + lines_source(parts, i + 1)
    }
}

/// The asyncness marker of the rendered signature.
pub open spec fn async_marker(is_async: bool) -> Seq<char> {
    if is_async {
        "async "@
    } else {
        ""@
    }
}

/// The full replacement source of an expanded function: its outer attributes,
/// then a signature made of exactly the preserved facts, then the statement
/// list inside braces.
pub open spec fn function_source(e: ExpandedFunction) -> Seq<char> {
    lines_source(views_of(e.attrs@), 0) + e.visibility@ + " "@ + async_marker(e.is_async) + "fn "@
        + e.name@ + e.generics@ + "("@ + e.parameters@ + ") "@ + e.return_type@ + " "@
        + e.where_clause@ + " {\n"@ + statements_source(statement_views(e.statements@), 0) + "}\n"@
}

fn render_lines_from(parts: &Vec<String>, i: usize) -> (r: String)
    requires
        i <= parts@.len(),
    ensures
        r@ == lines_source(views_of(parts@), i as int),
    decreases parts@.len() - i,
{
    if i >= parts.len() {
        let r = String::new();
        return r;
    }
    let mut r = parts[i].clone();
    r.append("\n");
    let rest = render_lines_from(parts, i + 1);
    r.append(rest.as_str());
    proof {
        assert(r@ =~= lines_source(views_of(parts@), i as int));
    }
    r
}

fn render_statements_from(stmts: &Vec<Stmt>, i: usize) -> (r: String)
    requires
        i <= stmts@.len(),
    ensures
        r@ == statements_source(statement_views(stmts@), i as int),
    decreases stmts@.len() - i,
{
    if i >= stmts.len() {
        let r = String::new();
        return r;
    }
    let mut r = render_statement(&stmts[i]);
    r.append("\n");
    let rest = render_statements_from(stmts, i + 1);
    r.append(rest.as_str());
    proof {
        assert(r@ =~= statements_source(statement_views(stmts@), i as int));
    }
    r
}

/// Render the whole expanded function as replacement source text.
pub fn render_function(e: &ExpandedFunction) -> (r: String)
    ensures
        r@ == function_source(*e),
{
    let mut r = render_lines_from(&e.attrs, 0);
    r.append(e.visibility.as_str());
    r.append(" ");
    if e.is_async {
        r.append("async ");
    }
    r.append("fn ");
    r.append(e.name.as_str());
    r.append(e.generics.as_str());
    r.append("(");
    r.append(e.parameters.as_str());
    r.append(") ");
    r.append(e.return_type.as_str());
    r.append(" ");
    r.append(e.where_clause.as_str());
    r.append(" {\n");
    let stmts = render_statements_from(&e.statements, 0);
    r.append(stmts.as_str());
    r.append("}\n");
    proof {
        reveal_strlit("");
        assert(""@ =~= Seq::<char>::empty());
        assert(r@ =~= function_source(*e));
    }
    r
}

} // verus!
