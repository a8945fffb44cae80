use crate::color::NamedColors;
use crate::eval::{eat_spec, eat_stmts, stmts_model, ExprStream, Spanned, SpannedError, StmtModel};
use crate::scope::Scope;
use crate::selector::Selector;
use crate::serializer::{css_text, serialize, OutputStyle};
use vstd::prelude::*;

verus! {

/// Evaluates a parsed stylesheet at the root, in a fresh scope, and lays
/// it out in the given style; the first error stops the compilation and
/// comes back with its span. Rules nested more than `max_depth` levels deep
/// are refused.
pub fn compile_exprs(
    exprs: Vec<Spanned>,
    style: &OutputStyle,
    max_depth: usize,
    names: &NamedColors,
) -> (r: Result<String, SpannedError>)
    requires
        names.wf(),
    ensures
        ({
            let e = eat_spec(
                exprs@,
                seq![Map::empty()],
                Seq::empty(),
                None,
                max_depth as nat,
                names.pairs(),
                seq![],
            );
            match r {
                Ok(css) => e.result is Ok && css@ == css_text(
                    e.result->Ok_0,
                    names.pairs(),
                    style.is_compressed(),
                ),
                Err(x) => e.result == Err::<Seq<StmtModel>, SpannedError>(x),
            }
        }),
{
    let mut toks = ExprStream::new(exprs);
    let mut scope = Scope::new();
    let root = Selector::new();
    let stmts = eat_stmts(&mut toks, &mut scope, &root, max_depth, names)?;
    Ok(serialize(&stmts, style, names))
}

} // verus!
