use crate::color::{
    alpha_of, channel_of, clamp, hsl_channel, hsl_of, inverted, is_percent, norm_degrees, Color,
    ColorFormat,
    NamedColors,
};
use crate::number::{Number, SCALE};
use crate::scope::{insert_var_spec, lookup_spec, Scope};
use crate::selector::{replace_spec, zip_spec, Selector, SelectorPart};
use crate::value::{binop_spec, SassError, Value, ValueModel};
use vstd::prelude::*;

verus! {

/// A value expression, as the parser hands it over.
pub enum ValueExpr {
    Literal(Value),
    /// `$name`
    Variable(String),
    /// `&`
    ParentSelector,
    Add(Box<ValueExpr>, Box<ValueExpr>),
    Sub(Box<ValueExpr>, Box<ValueExpr>),
    /// A call of a built-in function.
    Call(Builtin, Vec<ValueExpr>),
}

/// The built-in color functions.
pub enum Builtin {
    Rgb,
    Rgba,
    Hsl,
    Hsla,
    Hue,
    Saturation,
    Lightness,
    Alpha,
    /// `invert(color)` or `invert(color, weight)`; a unitless weight counts
    /// as a percentage.
    Invert,
}

/// `property: value` before evaluation.
pub struct Declaration {
    pub property: String,
    pub value: ValueExpr,
}

/// An evaluated declaration.
pub struct Style {
    pub property: String,
    pub value: Value,
}

/// An at-rule, such as `@charset "UTF-8";` or `@media print { ... }`.
pub struct AtRule {
    pub name: String,
    pub params: String,
    pub body: Option<Vec<Stmt>>,
}

/// A rule set: its rules are styled by `super_selector` zipped with
/// `selector`.
pub struct RuleSet {
    pub super_selector: Selector,
    pub selector: Selector,
    pub rules: Vec<Stmt>,
}

/// A statement of the evaluated stylesheet.
pub enum Stmt {
    RuleSet(RuleSet),
    Style(Style),
    AtRule(AtRule),
    MultilineComment(String),
}

/// Where an item stands in the source: byte offsets, `end` exclusive.
#[derive(Clone, Copy, Debug, PartialEq, Eq)]
pub struct Span {
    pub start: usize,
    pub end: usize,
}

/// An item with its place in the source.
pub struct Spanned {
    pub expr: Expr,
    pub span: Span,
}

/// An error, with the span of the item at which it arose.
#[derive(Clone, Copy, Debug, PartialEq, Eq)]
pub struct SpannedError {
    pub kind: SassError,
    pub span: Span,
}

/// One item of a block, as the parser hands it over.
pub enum Expr {
    AtRule(AtRule),
    Style(Declaration),
    /// The declarations of a nested property group.
    Styles(Vec<Declaration>),
    /// The statements of an included mixin, already expanded.
    Include(Vec<Stmt>),
    MixinDecl(String),
    FunctionDecl(String),
    Debug(ValueExpr),
    Warn(ValueExpr),
    /// The selector of a nested rule; its block follows.
    Selector(Selector),
    VariableDecl(String, ValueExpr),
    MultilineComment(String),
    /// The `}` that closes the current block.
    BlockEnd,
}

/// What a statement is, with strings and selectors as sequences.
pub enum StmtModel {
    RuleSet(Seq<Seq<SelectorPart>>, Seq<Seq<SelectorPart>>, Seq<StmtModel>),
    Style(Seq<char>, ValueModel),
    AtRule(Seq<char>, Seq<char>, Option<Seq<StmtModel>>),
    Comment(Seq<char>),
}

pub open spec fn stmt_model(s: Stmt) -> StmtModel
    decreases s,
{
    match s {
        Stmt::RuleSet(r) => StmtModel::RuleSet(
            r.super_selector@,
            r.selector@,
            Seq::new(
                r.rules@.len(),
                |i: int|
                    if 0 <= i < r.rules@.len() {
                        stmt_model(r.rules@[i])
                    } else {
                        StmtModel::Comment(seq![])
                    },
            ),
        ),
        Stmt::Style(st) => StmtModel::Style(st.property@, st.value@),
        Stmt::AtRule(a) => StmtModel::AtRule(
            a.name@,
            a.params@,
            match a.body {
                Some(b) => Some(
                    Seq::new(
                        b@.len(),
                        |i: int|
                            if 0 <= i < b@.len() {
                                stmt_model(b@[i])
                            } else {
                                StmtModel::Comment(seq![])
                            },
                    ),
                ),
                None => None,
            },
        ),
        Stmt::MultilineComment(c) => StmtModel::Comment(c@),
    }
}

pub open spec fn stmts_model(s: Seq<Stmt>) -> Seq<StmtModel> {
    s.map_values(|x: Stmt| stmt_model(x))
}

pub type ScopeModel = Seq<Map<Seq<char>, ValueModel>>;

pub type SelectorModel = Seq<Seq<SelectorPart>>;

/// The value of an expression; at the root `&` is null.
pub open spec fn eval_spec(
    e: ValueExpr,
    sc: ScopeModel,
    sup: SelectorModel,
    names: Map<Seq<char>, u32>,
) -> Result<ValueModel, SassError>
    decreases e, 0int,
{
    match e {
        ValueExpr::Literal(v) => Ok(v@),
        ValueExpr::Variable(n) => match lookup_spec(sc, n@) {
            Some(v) => Ok(v),
            None => Err(SassError::UndefinedVariable),
        },
        ValueExpr::ParentSelector => if sup.len() == 0 {
            Ok(ValueModel::Null)
        } else {
            Ok(ValueModel::Selector(sup))
        },
        ValueExpr::Add(a, b) => match eval_spec(*a, sc, sup, names) {
            Err(x) => Err(x),
            Ok(x) => match eval_spec(*b, sc, sup, names) {
                Err(y) => Err(y),
                Ok(y) => binop_spec(x, y, false, names),
            },
        },
        ValueExpr::Sub(a, b) => match eval_spec(*a, sc, sup, names) {
            Err(x) => Err(x),
            Ok(x) => match eval_spec(*b, sc, sup, names) {
                Err(y) => Err(y),
                Ok(y) => binop_spec(x, y, true, names),
            },
        },
        ValueExpr::Call(f, args) => match eval_args(args@, args@.len() as int, sc, sup, names) {
            Err(x) => Err(x),
            Ok(vals) => call_spec(f, vals),
        },
    }
}

/// The values of the first `k` arguments, evaluated in order.
pub open spec fn eval_args(
    args: Seq<ValueExpr>,
    k: int,
    sc: ScopeModel,
    sup: SelectorModel,
    names: Map<Seq<char>, u32>,
) -> Result<Seq<ValueModel>, SassError>
    decreases args, k,
{
    if k <= 0 || k > args.len() {
        Ok(seq![])
    } else {
        match eval_args(args, k - 1, sc, sup, names) {
            Err(x) => Err(x),
            Ok(prev) => match eval_spec(args[k - 1], sc, sup, names) {
                Err(x) => Err(x),
                Ok(v) => Ok(prev.push(v)),
            },
        }
    }
}

pub open spec fn all_numbers(vals: Seq<ValueModel>) -> bool {
    forall|i: int| 0 <= i < vals.len() ==> (#[trigger] vals[i]) is Number
}

pub open spec fn rgb_color(vals: Seq<ValueModel>) -> Color {
    Color {
        red: channel_of(vals[0]->Number_0 as int, is_percent(vals[0]->Number_1)) as u8,
        green: channel_of(vals[1]->Number_0 as int, is_percent(vals[1]->Number_1)) as u8,
        blue: channel_of(vals[2]->Number_0 as int, is_percent(vals[2]->Number_1)) as u8,
        alpha: if vals.len() == 4 {
            alpha_of(vals[3]->Number_0 as int, is_percent(vals[3]->Number_1)) as i64
        } else {
            SCALE
        },
        format: ColorFormat::Computed,
        hsl: None,
    }
}

pub open spec fn hsl_color(vals: Seq<ValueModel>) -> Color {
    let (h, s, l) = (
        vals[0]->Number_0 as int,
        vals[1]->Number_0 as int,
        vals[2]->Number_0 as int,
    );
    Color {
        red: hsl_channel(h, s, l, 120) as u8,
        green: hsl_channel(h, s, l, 0) as u8,
        blue: hsl_channel(h, s, l, -120) as u8,
        alpha: if vals.len() == 4 {
            alpha_of(vals[3]->Number_0 as int, is_percent(vals[3]->Number_1)) as i64
        } else {
            SCALE
        },
        format: ColorFormat::Computed,
        hsl: Some(
            (
                norm_degrees(h) as i64,
                clamp(s, 0, 100 * (SCALE as int)) as i64,
                clamp(l, 0, 100 * (SCALE as int)) as i64,
            ),
        ),
    }
}

/// A built-in function applied to evaluated arguments: `rgb`/`hsl` take
/// three numbers, `rgba`/`hsla` four; `hue`, `saturation`, `lightness` and
/// `alpha` take one color.
pub open spec fn call_spec(f: Builtin, vals: Seq<ValueModel>) -> Result<ValueModel, SassError> {
    match f {
        Builtin::Rgb => if vals.len() == 3 && all_numbers(vals) {
            Ok(ValueModel::Color(rgb_color(vals)))
        } else {
            Err(SassError::InvalidArguments)
        },
        Builtin::Rgba => if vals.len() == 4 && all_numbers(vals) {
            Ok(ValueModel::Color(rgb_color(vals)))
        } else {
            Err(SassError::InvalidArguments)
        },
        Builtin::Hsl => if vals.len() == 3 && all_numbers(vals) {
            Ok(ValueModel::Color(hsl_color(vals)))
        } else {
            Err(SassError::InvalidArguments)
        },
        Builtin::Hsla => if vals.len() == 4 && all_numbers(vals) {
            Ok(ValueModel::Color(hsl_color(vals)))
        } else {
            Err(SassError::InvalidArguments)
        },
        Builtin::Invert => if (vals.len() == 1 || (vals.len() == 2 && vals[1] is Number))
            && vals[0] is Color {
            Ok(
                ValueModel::Color(
                    inverted(
                        vals[0]->Color_0,
                        if vals.len() == 2 {
                            vals[1]->Number_0 as int
                        } else {
                            100 * (SCALE as int)
                        },
                    ),
                ),
            )
        } else {
            Err(SassError::InvalidArguments)
        },
        _ => if vals.len() == 1 && vals[0] is Color {
            let c = vals[0]->Color_0;
            match f {
                Builtin::Hue => Ok(ValueModel::Number(hsl_of(c).0, "deg"@)),
                Builtin::Saturation => Ok(ValueModel::Number(hsl_of(c).1, "%"@)),
                Builtin::Lightness => Ok(ValueModel::Number(hsl_of(c).2, "%"@)),
                _ => Ok(ValueModel::Number(c.alpha, seq![])),
            }
        } else {
            Err(SassError::InvalidArguments)
        },
    }
}

/// The styles of a list of declarations, evaluated in order.
pub open spec fn decls_spec(
    ds: Seq<Declaration>,
    sc: ScopeModel,
    sup: SelectorModel,
    names: Map<Seq<char>, u32>,
) -> Result<Seq<StmtModel>, SassError>
    decreases ds.len(),
{
    if ds.len() == 0 {
        Ok(seq![])
    } else {
        match decls_spec(ds.drop_last(), sc, sup, names) {
            Err(e) => Err(e),
            Ok(prev) => match eval_spec(ds.last().value, sc, sup, names) {
                Err(e) => Err(e),
                Ok(v) => Ok(prev.push(StmtModel::Style(ds.last().property@, v))),
            },
        }
    }
}

/// The outcome of reading a block: its statements or the first error, how
/// many items were read, and the scope after them.
pub struct Eaten {
    pub result: Result<Seq<StmtModel>, SpannedError>,
    pub consumed: nat,
    pub scope: ScopeModel,
}

pub open spec fn spanned(kind: SassError, span: Span) -> SpannedError {
    SpannedError { kind, span }
}

pub open spec fn failed(e: SpannedError, sc: ScopeModel) -> Eaten {
    Eaten { result: Err(e), consumed: 0, scope: sc }
}

/// Counts one more item read in front of `r`.
pub open spec fn after(r: Eaten, n: nat) -> Eaten {
    Eaten { result: r.result, consumed: r.consumed + n, scope: r.scope }
}

/// How a nested rule's selector is formed: nested in the enclosing one, or
/// (under `@at-root`, with the nesting depth and whether a rule encloses
/// it) replacing it at the outermost level.
pub open spec fn child_selector(sup: SelectorModel, sel: SelectorModel, root: Option<(usize, bool)>) -> SelectorModel {
    match root {
        None => zip_spec(sup, sel),
        Some((n, some)) => if n > 1 || some {
            zip_spec(sup, sel)
        } else {
            replace_spec(sup, sel)
        },
    }
}

/// The rule set that a nested rule becomes: nested, it keeps its own
/// selector under the enclosing one; under `@at-root` it holds the formed
/// selector, under the enclosing one only below the outermost level.
pub open spec fn rule_set_model(
    sup: SelectorModel,
    sel: SelectorModel,
    root: Option<(usize, bool)>,
    rules: Seq<StmtModel>,
) -> StmtModel {
    match root {
        None => StmtModel::RuleSet(sup, sel, rules),
        Some((n, some)) => StmtModel::RuleSet(
            if n > 1 {
                sup
            } else {
                Seq::empty()
            },
            child_selector(sup, sel, root),
            rules,
        ),
    }
}

pub open spec fn child_root(root: Option<(usize, bool)>) -> Option<(usize, bool)> {
    match root {
        None => None,
        Some((n, some)) => Some(((n + 1) as usize, true)),
    }
}

/// Reading the items of a block up to its end, `acc` holding the
/// statements read so far. Styles are evaluated in the current scope,
/// variable declarations write to it, and a nested rule's block is read in
/// a frame of its own under the child selector. Mixin and function
/// declarations, `@debug` and `@warn` are not taken here, nor a nested rule
/// once `depth` levels are used up. An error carries the span of the item at
/// which it arose.
#[verifier::opaque]
pub open spec fn eat_spec(
    es: Seq<Spanned>,
    sc: ScopeModel,
    sup: SelectorModel,
    root: Option<(usize, bool)>,
    depth: nat,
    names: Map<Seq<char>, u32>,
    acc: Seq<StmtModel>,
) -> Eaten
    decreases es.len(),
{
    if es.len() == 0 {
        Eaten { result: Ok(acc), consumed: 0, scope: sc }
    } else {
        let rest = es.drop_first();
        match es[0].expr {
            Expr::BlockEnd => Eaten { result: Ok(acc), consumed: 1, scope: sc },
            Expr::AtRule(a) => after(
                eat_spec(rest, sc, sup, root, depth, names, acc.push(stmt_model(Stmt::AtRule(a)))),
                1,
            ),
            Expr::Style(d) => match eval_spec(d.value, sc, sup, names) {
                Err(e) => failed(spanned(e, es[0].span), sc),
                Ok(v) => after(
                    eat_spec(rest, sc, sup, root, depth, names, acc.push(StmtModel::Style(d.property@, v))),
                    1,
                ),
            },
            Expr::Styles(ds) => match decls_spec(ds@, sc, sup, names) {
                Err(e) => failed(spanned(e, es[0].span), sc),
                Ok(ms) => after(eat_spec(rest, sc, sup, root, depth, names, acc + ms), 1),
            },
            Expr::Include(ss) => after(
                eat_spec(rest, sc, sup, root, depth, names, acc + stmts_model(ss@)),
                1,
            ),
            Expr::Selector(sel) => if depth == 0 || (root is Some && root->Some_0.0 == usize::MAX) {
                failed(spanned(SassError::NestingTooDeep, es[0].span), sc)
            } else {
                let inner = eat_spec(
                    rest,
                    sc.push(Map::empty()),
                    child_selector(sup, sel@, root),
                    child_root(root),
                    (depth - 1) as nat,
                    names,
                    seq![],
                );
                match inner.result {
                    Err(e) => failed(e, inner.scope.drop_last()),
                    Ok(rules) => if inner.consumed < es.len() {
                        after(
                            eat_spec(
                                es.skip(1 + inner.consumed as int),
                                inner.scope.drop_last(),
                                sup,
                                root,
                                depth,
                                names,
                                acc.push(rule_set_model(sup, sel@, root, rules)),
                            ),
                            (1 + inner.consumed) as nat,
                        )
                    } else {
                        // A block never reads more items than remain.
                        failed(spanned(SassError::UnsupportedConstruct, es[0].span), sc)
                    },
                }
            },
            Expr::VariableDecl(n, e) => match eval_spec(e, sc, sup, names) {
                Err(x) => failed(spanned(x, es[0].span), sc),
                Ok(v) => after(eat_spec(rest, insert_var_spec(sc, n@, v), sup, root, depth, names, acc), 1),
            },
            Expr::MultilineComment(c) => after(
                eat_spec(rest, sc, sup, root, depth, names, acc.push(StmtModel::Comment(c@))),
                1,
            ),
            _ => failed(spanned(SassError::UnsupportedConstruct, es[0].span), sc),
        }
    }
}

proof fn lemma_eat_consumed(
    es: Seq<Spanned>,
    sc: ScopeModel,
    sup: SelectorModel,
    root: Option<(usize, bool)>,
    depth: nat,
    names: Map<Seq<char>, u32>,
    acc: Seq<StmtModel>,
)
    ensures
        eat_spec(es, sc, sup, root, depth, names, acc).result is Ok ==> eat_spec(
            es,
            sc,
            sup,
            root,
            depth,
            names,
            acc,
        ).consumed <= es.len(),
    decreases es.len(),
{
    reveal(eat_spec);
    if es.len() > 0 {
        let rest = es.drop_first();
        match es[0].expr {
            Expr::AtRule(a) => lemma_eat_consumed(
                rest,
                sc,
                sup,
                root,
                depth,
                names,
                acc.push(stmt_model(Stmt::AtRule(a))),
            ),
            Expr::Style(d) => {
                if let Ok(v) = eval_spec(d.value, sc, sup, names) {
                    lemma_eat_consumed(
                        rest,
                        sc,
                        sup,
                        root,
                        depth,
                        names,
                        acc.push(StmtModel::Style(d.property@, v)),
                    );
                }
            },
            Expr::Styles(ds) => {
                if let Ok(ms) = decls_spec(ds@, sc, sup, names) {
                    lemma_eat_consumed(rest, sc, sup, root, depth, names, acc + ms);
                }
            },
            Expr::Include(ss) => lemma_eat_consumed(rest, sc, sup, root, depth, names, acc + stmts_model(ss@)),
            Expr::Selector(sel) => {
                if !(depth == 0 || (root is Some && root->Some_0.0 == usize::MAX)) {
                    let inner = eat_spec(
                        rest,
                        sc.push(Map::empty()),
                        child_selector(sup, sel@, root),
                        child_root(root),
                        (depth - 1) as nat,
                        names,
                        seq![],
                    );
                    if let Ok(rules) = inner.result {
                        if inner.consumed < es.len() {
                            lemma_eat_consumed(
                                es.skip(1 + inner.consumed as int),
                                inner.scope.drop_last(),
                                sup,
                                root,
                                depth,
                                names,
                                acc.push(rule_set_model(sup, sel@, root, rules)),
                            );
                        }
                    }
                }
            },
            Expr::VariableDecl(n, e) => {
                if let Ok(v) = eval_spec(e, sc, sup, names) {
                    lemma_eat_consumed(rest, insert_var_spec(sc, n@, v), sup, root, depth, names, acc);
                }
            },
            Expr::MultilineComment(c) => lemma_eat_consumed(
                rest,
                sc,
                sup,
                root,
                depth,
                names,
                acc.push(StmtModel::Comment(c@)),
            ),
            _ => {},
        }
    }
}

/// The items of a stylesheet, read front to back.
pub struct ExprStream {
    items: Vec<Spanned>,
}

pub open spec fn reversed<T>(s: Seq<T>) -> Seq<T> {
    Seq::new(s.len(), |i: int| s[s.len() - 1 - i])
}

impl ExprStream {
    /// The items not read yet.
    pub closed spec fn rest(&self) -> Seq<Spanned> {
        reversed(self.items@)
    }

    pub fn new(exprs: Vec<Spanned>) -> (r: ExprStream)
        ensures
            r.rest() == exprs@,
    {
        let ghost all = exprs@;
        let mut exprs = exprs;
        let mut items: Vec<Spanned> = Vec::new();
        while exprs.len() > 0
            invariant
                all == exprs@ + reversed(items@),
            decreases exprs@.len(),
        {
            let ghost before = exprs@;
            let e = exprs.pop().unwrap();
            items.push(e);
            assert(reversed(items@) =~= seq![e] + reversed(items@.drop_last()));
            assert(before =~= exprs@.push(e));
            assert(all =~= exprs@ + reversed(items@));
        }
        assert(all =~= reversed(items@));
        ExprStream { items }
    }

    /// Takes the next item.
    pub fn next(&mut self) -> (r: Option<Spanned>)
        ensures
            old(self).rest().len() == 0 ==> r is None && final(self).rest() == old(self).rest(),
            old(self).rest().len() > 0 ==> r == Some(old(self).rest()[0]) && final(self).rest()
                == old(self).rest().drop_first(),
    {
        let r = self.items.pop();
        assert(self.rest() =~= old(self).rest().skip(if r is Some { 1int } else { 0 }));
        r
    }
}

/// Evaluates a value expression.
pub fn eval(e: &ValueExpr, scope: &Scope, sup: &Selector, names: &NamedColors) -> (r: Result<
    Value,
    SassError,
>)
    requires
        names.wf(),
    ensures
        match r {
            Ok(v) => eval_spec(*e, scope@, sup@, names.pairs()) == Ok::<ValueModel, SassError>(v@),
            Err(x) => eval_spec(*e, scope@, sup@, names.pairs()) == Err::<ValueModel, SassError>(x),
        },
    decreases e, 0int,
{
    match e {
        ValueExpr::Literal(v) => Ok(v.copy()),
        ValueExpr::Variable(n) => match scope.lookup(n.as_str()) {
            Some(v) => Ok(v),
            None => Err(SassError::UndefinedVariable),
        },
        ValueExpr::ParentSelector => {
            if sup.is_empty() {
                Ok(Value::Null)
            } else {
                Ok(Value::Selector(sup.copy()))
            }
        },
        ValueExpr::Add(a, b) => {
            let x = eval(a, scope, sup, names)?;
            let y = eval(b, scope, sup, names)?;
            Value::binop(&x, &y, false, names)
        },
        ValueExpr::Sub(a, b) => {
            let x = eval(a, scope, sup, names)?;
            let y = eval(b, scope, sup, names)?;
            Value::binop(&x, &y, true, names)
        },
        ValueExpr::Call(f, args) => {
            let vals = eval_arg_list(args, scope, sup, names)?;
            call_builtin(f, &vals)
        },
    }
}

fn eval_arg_list(args: &Vec<ValueExpr>, scope: &Scope, sup: &Selector, names: &NamedColors) -> (r:
    Result<Vec<Value>, SassError>)
    requires
        names.wf(),
    ensures
        match r {
            Ok(v) => eval_args(args@, args@.len() as int, scope@, sup@, names.pairs()) == Ok::<
                Seq<ValueModel>,
                SassError,
            >(v@.map_values(|x: Value| x@)),
            Err(x) => eval_args(args@, args@.len() as int, scope@, sup@, names.pairs()) == Err::<
                Seq<ValueModel>,
                SassError,
            >(x),
        },
    decreases args, 1int,
{
    let mut out: Vec<Value> = Vec::new();
    let mut i: usize = 0;
    assert(out@.map_values(|x: Value| x@) =~= Seq::<ValueModel>::empty());
    while i < args.len()
        invariant
            0 <= i <= args@.len(),
            names.wf(),
            eval_args(args@, i as int, scope@, sup@, names.pairs()) == Ok::<Seq<ValueModel>, SassError>(
                out@.map_values(|x: Value| x@),
            ),
        decreases args@.len() - i,
    {
        match eval(&args[i], scope, sup, names) {
            Err(x) => {
                proof {
                    lemma_args_error(args@, i as int + 1, scope@, sup@, names.pairs());
                }
                return Err(x);
            },
            Ok(v) => {
                let ghost prev = out@;
                out.push(v);
                assert(out@.map_values(|x: Value| x@) =~= prev.map_values(|x: Value| x@).push(v@));
            },
        }
        i += 1;
    }
    Ok(out)
}

proof fn lemma_args_error(
    args: Seq<ValueExpr>,
    k: int,
    sc: ScopeModel,
    sup: SelectorModel,
    names: Map<Seq<char>, u32>,
)
    requires
        0 < k <= args.len(),
        eval_args(args, k, sc, sup, names) is Err,
    ensures
        eval_args(args, args.len() as int, sc, sup, names) == eval_args(args, k, sc, sup, names),
    decreases args.len() - k,
{
    if k < args.len() {
        lemma_args_error(args, k + 1, sc, sup, names);
    }
}

fn number_arg(v: &Value) -> (r: Option<&Number>)
    ensures
        r is Some <==> v@ is Number,
        r is Some ==> v@ == ValueModel::Number(r->Some_0.value, r->Some_0.unit@),
{
    match v {
        Value::Number(n) => Some(n),
        _ => None,
    }
}

fn call_builtin(f: &Builtin, vals: &Vec<Value>) -> (r: Result<Value, SassError>)
    ensures
        match r {
            Ok(v) => call_spec(*f, vals@.map_values(|x: Value| x@)) == Ok::<ValueModel, SassError>(
                v@,
            ),
            Err(x) => call_spec(*f, vals@.map_values(|x: Value| x@)) == Err::<ValueModel, SassError>(
                x,
            ),
        },
{
    let ghost m = vals@.map_values(|x: Value| x@);
    let n = vals.len();
    match f {
        Builtin::Rgb | Builtin::Rgba | Builtin::Hsl | Builtin::Hsla => {
            let want: usize = match f {
                Builtin::Rgb | Builtin::Hsl => 3,
                _ => 4,
            };
            if n != want {
                return Err(SassError::InvalidArguments);
            }
            let mut i: usize = 0;
            let mut all = true;
            while i < n
                invariant
                    n == vals@.len(),
                    m == vals@.map_values(|x: Value| x@),
                    0 <= i <= n,
                    all ==> forall|j: int| 0 <= j < i ==> (#[trigger] m[j]) is Number,
                    !all ==> !all_numbers(m),
                decreases n - i,
            {
                if number_arg(&vals[i]).is_none() {
                    assert(!(m[i as int] is Number));
                    all = false;
                }
                i += 1;
            }
            if !all {
                return Err(SassError::InvalidArguments);
            }
            assert(all_numbers(m));
            let a = number_arg(&vals[0]).unwrap();
            let b = number_arg(&vals[1]).unwrap();
            let c = number_arg(&vals[2]).unwrap();
            let one = Number::from_int(1);
            let alpha = if n == 4 {
                number_arg(&vals[3]).unwrap()
            } else {
                &one
            };
            proof {
                reveal_strlit("%");
            }
            let color = match f {
                Builtin::Rgb | Builtin::Rgba => Color::from_rgba(a, b, c, alpha),
                _ => Color::from_hsla(a, b, c, alpha),
            };
            Ok(Value::Color(color))
        },
        Builtin::Invert => {
            if n != 1 && n != 2 {
                return Err(SassError::InvalidArguments);
            }
            let weight: i64 = if n == 2 {
                match number_arg(&vals[1]) {
                    Some(w) => w.value,
                    None => {
                        return Err(SassError::InvalidArguments);
                    },
                }
            } else {
                100 * SCALE
            };
            match &vals[0] {
                Value::Color(c) => Ok(Value::Color(c.invert(weight))),
                _ => Err(SassError::InvalidArguments),
            }
        },
        _ => {
            if n != 1 {
                return Err(SassError::InvalidArguments);
            }
            match &vals[0] {
                Value::Color(c) => {
                    let r = match f {
                        Builtin::Hue => c.hue(),
                        Builtin::Saturation => c.saturation(),
                        Builtin::Lightness => c.lightness(),
                        _ => Number { value: c.alpha, unit: String::new() },
                    };
                    Ok(Value::Number(r))
                },
                _ => Err(SassError::InvalidArguments),
            }
        },
    }
}

fn eval_decls(ds: &Vec<Declaration>, scope: &Scope, sup: &Selector, names: &NamedColors) -> (r:
    Result<Vec<Stmt>, SassError>)
    requires
        names.wf(),
    ensures
        match r {
            Ok(v) => decls_spec(ds@, scope@, sup@, names.pairs()) == Ok::<Seq<StmtModel>, SassError>(
                stmts_model(v@),
            ),
            Err(x) => decls_spec(ds@, scope@, sup@, names.pairs()) == Err::<Seq<StmtModel>, SassError>(
                x,
            ),
        },
{
    let mut out: Vec<Stmt> = Vec::new();
    let mut i: usize = 0;
    assert(ds@.take(0) =~= Seq::<Declaration>::empty());
    assert(stmts_model(out@) =~= Seq::<StmtModel>::empty());
    while i < ds.len()
        invariant
            0 <= i <= ds@.len(),
            names.wf(),
            decls_spec(ds@.take(i as int), scope@, sup@, names.pairs()) == Ok::<
                Seq<StmtModel>,
                SassError,
            >(stmts_model(out@)),
        decreases ds@.len() - i,
    {
        assert(ds@.take(i + 1).drop_last() =~= ds@.take(i as int));
        let d = &ds[i];
        match eval(&d.value, scope, sup, names) {
            Err(x) => {
                proof {
                    lemma_decls_error(ds@, i as int, scope@, sup@, names.pairs());
                }
                return Err(x);
            },
            Ok(v) => {
                let ghost prev = out@;
                out.push(Stmt::Style(Style { property: d.property.clone(), value: v }));
                assert(stmts_model(out@) =~= stmts_model(prev).push(stmt_model(out@.last())));
            },
        }
        i += 1;
    }
    assert(ds@.take(ds@.len() as int) =~= ds@);
    Ok(out)
}

proof fn lemma_decls_error(
    ds: Seq<Declaration>,
    i: int,
    sc: ScopeModel,
    sup: SelectorModel,
    names: Map<Seq<char>, u32>,
)
    requires
        0 <= i < ds.len(),
        decls_spec(ds.take(i), sc, sup, names) is Ok,
        eval_spec(ds[i].value, sc, sup, names) is Err,
    ensures
        decls_spec(ds, sc, sup, names) == Err::<Seq<StmtModel>, SassError>(
            eval_spec(ds[i].value, sc, sup, names)->Err_0,
        ),
    decreases ds.len() - i,
{
    assert(ds.take(i + 1).drop_last() =~= ds.take(i));
    if i + 1 < ds.len() {
        lemma_decls_error_extends(ds, i + 1, sc, sup, names);
    } else {
        assert(ds.take(i + 1) =~= ds);
    }
}

proof fn lemma_decls_error_extends(
    ds: Seq<Declaration>,
    k: int,
    sc: ScopeModel,
    sup: SelectorModel,
    names: Map<Seq<char>, u32>,
)
    requires
        0 < k <= ds.len(),
        decls_spec(ds.take(k), sc, sup, names) is Err,
    ensures
        decls_spec(ds, sc, sup, names) == decls_spec(ds.take(k), sc, sup, names),
    decreases ds.len() - k,
{
    if k < ds.len() {
        assert(ds.take(k + 1).drop_last() =~= ds.take(k));
        lemma_decls_error_extends(ds, k + 1, sc, sup, names);
    } else {
        assert(ds.take(k) =~= ds);
    }
}

} // verus!

verus! {

/// The statement that a nested rule becomes.
fn rule_set(
    sup: &Selector,
    sel: Selector,
    formed: Selector,
    root: Option<(usize, bool)>,
    rules: Vec<Stmt>,
) -> (r: Stmt)
    requires
        formed@ == child_selector(sup@, sel@, root),
    ensures
        stmt_model(r) == rule_set_model(sup@, sel@, root, stmts_model(rules@)),
{
    let rs = match root {
        None => RuleSet { super_selector: sup.copy(), selector: sel, rules },
        Some((n, _)) => RuleSet {
            super_selector: if n > 1 {
                sup.copy()
            } else {
                Selector::new()
            },
            selector: formed,
            rules,
        },
    };
    let ghost rm = Seq::new(
        rs.rules@.len(),
        |i: int|
            if 0 <= i < rs.rules@.len() {
                stmt_model(rs.rules@[i])
            } else {
                StmtModel::Comment(seq![])
            },
    );
    assert(rm =~= stmts_model(rs.rules@));
    let ghost sv = rs.super_selector@;
    let ghost fv = rs.selector@;
    let r = Stmt::RuleSet(rs);
    assert(stmt_model(r) is RuleSet);
    assert(stmt_model(r)->RuleSet_0 == sv);
    assert(stmt_model(r)->RuleSet_1 == fv);
    assert(stmt_model(r)->RuleSet_2 =~= rm);
    r
}

/// Reads the items of a block up to its end.
#[verifier::rlimit(100)]
fn eat_block(
    toks: &mut ExprStream,
    scope: &mut Scope,
    sup: &Selector,
    root: Option<(usize, bool)>,
    depth: usize,
    names: &NamedColors,
) -> (r: Result<Vec<Stmt>, SpannedError>)
    requires
        names.wf(),
        old(scope)@.len() > 0,
    ensures
        final(scope)@.len() == old(scope)@.len(),
        ({
            let e = eat_spec(old(toks).rest(), old(scope)@, sup@, root, depth as nat, names.pairs(), seq![]);
            match r {
                Ok(v) => {
                    &&& e.result == Ok::<Seq<StmtModel>, SpannedError>(stmts_model(v@))
                    &&& e.consumed <= old(toks).rest().len()
                    &&& final(toks).rest() == old(toks).rest().skip(e.consumed as int)
                    &&& final(scope)@ == e.scope
                },
                Err(x) => e.result == Err::<Seq<StmtModel>, SpannedError>(x) && final(scope)@
                    == e.scope,
            }
        }),
    decreases old(toks).rest().len(),
{
    let ghost es0 = toks.rest();
    let ghost sc0 = scope@;
    let mut stmts: Vec<Stmt> = Vec::new();
    let ghost mut consumed: nat = 0;
    proof {
        lemma_eat_consumed(es0, sc0, sup@, root, depth as nat, names.pairs(), seq![]);
        assert(es0.skip(0) =~= es0);
        assert(stmts_model(stmts@) =~= Seq::<StmtModel>::empty());
    }
    loop
        invariant
            names.wf(),
            scope@.len() == sc0.len(),
            sc0.len() > 0,
            consumed <= es0.len(),
            toks.rest() == es0.skip(consumed as int),
            es0 == old(toks).rest(),
            sc0 == old(scope)@,
            eat_spec(es0, sc0, sup@, root, depth as nat, names.pairs(), seq![]).result is Ok ==> eat_spec(
                es0,
                sc0,
                sup@,
                root,
                depth as nat,
                names.pairs(),
                seq![],
            ).consumed <= es0.len(),
            ({
                let total = eat_spec(es0, sc0, sup@, root, depth as nat, names.pairs(), seq![]);
                let now = eat_spec(toks.rest(), scope@, sup@, root, depth as nat, names.pairs(), stmts_model(stmts@));
                &&& total.result == now.result
                &&& total.scope == now.scope
                &&& total.consumed == consumed + now.consumed
            }),
        decreases es0.len() - consumed,
    {
        let ghost es = toks.rest();
        let ghost sc = scope@;
        let ghost acc = stmts_model(stmts@);
        let item = toks.next();
        let ghost rest = toks.rest();
        proof {
            if es.len() > 0 {
                assert(rest =~= es0.skip(consumed + 1 as int));
            }
        }
        match item {
            None => {
                assert(eat_spec(es, sc, sup@, root, depth as nat, names.pairs(), acc) == Eaten {
                    result: Ok(acc),
                    consumed: 0,
                    scope: sc,
                }) by {
                    reveal(eat_spec);
                }
                return Ok(stmts);
            },
            Some(it) => {
                let Spanned { expr: e, span } = it;
                match e {
                    Expr::BlockEnd => {
                        assert(eat_spec(es, sc, sup@, root, depth as nat, names.pairs(), acc) == Eaten {
                            result: Ok(acc),
                            consumed: 1,
                            scope: sc,
                        }) by {
                            reveal(eat_spec);
                        }
                        return Ok(stmts);
                    },
                    Expr::AtRule(a) => {
                        let ghost m = stmt_model(Stmt::AtRule(a));
                        stmts.push(Stmt::AtRule(a));
                        assert(stmts_model(stmts@) =~= acc.push(m));
                        assert(eat_spec(es, sc, sup@, root, depth as nat, names.pairs(), acc) == after(
                            eat_spec(rest, sc, sup@, root, depth as nat, names.pairs(), acc.push(m)),
                            1,
                        )) by {
                            reveal(eat_spec);
                        }
                    },
                    Expr::Style(d) => {
                        match eval(&d.value, scope, sup, names) {
                            Err(x) => {
                                assert(eat_spec(es, sc, sup@, root, depth as nat, names.pairs(), acc) == failed(spanned(x, span), sc)) by {
                                    reveal(eat_spec);
                                }
                                return Err(SpannedError { kind: x, span });
                            },
                            Ok(v) => {
                                let ghost m = StmtModel::Style(d.property@, v@);
                                stmts.push(Stmt::Style(Style { property: d.property, value: v }));
                                assert(stmts_model(stmts@) =~= acc.push(m));
                                assert(eat_spec(es, sc, sup@, root, depth as nat, names.pairs(), acc) == after(
                                    eat_spec(rest, sc, sup@, root, depth as nat, names.pairs(), acc.push(m)),
                                    1,
                                )) by {
                                    reveal(eat_spec);
                                }
                            },
                        }
                    },
                    Expr::Styles(ds) => {
                        match eval_decls(&ds, scope, sup, names) {
                            Err(x) => {
                                assert(eat_spec(es, sc, sup@, root, depth as nat, names.pairs(), acc) == failed(spanned(x, span), sc)) by {
                                    reveal(eat_spec);
                                }
                                return Err(SpannedError { kind: x, span });
                            },
                            Ok(v) => {
                                let ghost vm = stmts_model(v@);
                                let mut v = v;
                                stmts.append(&mut v);
                                assert(stmts_model(stmts@) =~= acc + vm);
                                assert(eat_spec(es, sc, sup@, root, depth as nat, names.pairs(), acc) == after(
                                    eat_spec(rest, sc, sup@, root, depth as nat, names.pairs(), acc + vm),
                                    1,
                                )) by {
                                    reveal(eat_spec);
                                }
                            },
                        }
                    },
                    Expr::Include(ss) => {
                        let ghost sm = stmts_model(ss@);
                        let mut ss = ss;
                        stmts.append(&mut ss);
                        assert(stmts_model(stmts@) =~= acc + sm);
                        assert(eat_spec(es, sc, sup@, root, depth as nat, names.pairs(), acc) == after(
                            eat_spec(rest, sc, sup@, root, depth as nat, names.pairs(), acc + sm),
                            1,
                        )) by {
                            reveal(eat_spec);
                        }
                    },
                    Expr::Selector(sel) => {
                        let deep = depth == 0 || match root {
                            Some((n, _)) => n == usize::MAX,
                            None => false,
                        };
                        if deep {
                            assert(eat_spec(es, sc, sup@, root, depth as nat, names.pairs(), acc) == failed(spanned(SassError::NestingTooDeep, span), sc)) by {
                                reveal(eat_spec);
                            }
                            return Err(SpannedError { kind: SassError::NestingTooDeep, span });
                        }
                        let formed = match root {
                            None => sup.zip(&sel),
                            Some((n, some)) => {
                                if n > 1 || some {
                                    sup.zip(&sel)
                                } else {
                                    Selector::replace(sup.copy(), sel.copy())
                                }
                            },
                        };
                        let inner_root = match root {
                            None => None,
                            Some((n, _)) => Some((n + 1, true)),
                        };
                        let ghost inner = eat_spec(
                            rest,
                            sc.push(Map::empty()),
                            child_selector(sup@, sel@, root),
                            child_root(root),
                            (depth - 1) as nat,
                            names.pairs(),
                            seq![],
                        );
                        scope.push_frame();
                        let res = eat_block(toks, scope, &formed, inner_root, depth - 1, names);
                        scope.pop_frame();
                        proof {
                            lemma_eat_consumed(
                                rest,
                                sc.push(Map::empty()),
                                child_selector(sup@, sel@, root),
                                child_root(root),
                                (depth - 1) as nat,
                                names.pairs(),
                                seq![],
                            );
                        }
                        match res {
                            Err(x) => {
                                assert(eat_spec(es, sc, sup@, root, depth as nat, names.pairs(), acc) == failed(
                                    x,
                                    inner.scope.drop_last(),
                                )) by {
                                    reveal(eat_spec);
                                }
                                return Err(x);
                            },
                            Ok(rules) => {
                                let ghost sel_view = sel@;
                                assert(eat_spec(es, sc, sup@, root, depth as nat, names.pairs(), acc) == after(
                                    eat_spec(
                                        es.skip(1 + inner.consumed as int),
                                        inner.scope.drop_last(),
                                        sup@,
                                        root,
                                        depth as nat,
                                        names.pairs(),
                                        acc.push(rule_set_model(sup@, sel@, root, inner.result->Ok_0)),
                                    ),
                                    (1 + inner.consumed) as nat,
                                )) by {
                                    reveal(eat_spec);
                                }
                                let rs = rule_set(sup, sel, formed, root, rules);
                                stmts.push(rs);
                                assert(stmts_model(stmts@) =~= acc.push(
                                    rule_set_model(sup@, sel_view, root, inner.result->Ok_0),
                                ));
                                assert(toks.rest() =~= es.skip(1 + inner.consumed as int));
                                assert(toks.rest() =~= es0.skip((consumed + 1 + inner.consumed) as int));
                                proof {
                                    consumed = (consumed + 1 + inner.consumed) as nat;
                                }
                            },
                        }
                    },
                    Expr::VariableDecl(n, x) => {
                        match eval(&x, scope, sup, names) {
                            Err(err) => {
                                assert(eat_spec(es, sc, sup@, root, depth as nat, names.pairs(), acc) == failed(spanned(err, span), sc)) by {
                                    reveal(eat_spec);
                                }
                                return Err(SpannedError { kind: err, span });
                            },
                            Ok(v) => {
                                assert(eat_spec(es, sc, sup@, root, depth as nat, names.pairs(), acc) == after(
                                    eat_spec(
                                        rest,
                                        insert_var_spec(sc, n@, v@),
                                        sup@,
                                        root,
                                        depth as nat,
                                        names.pairs(),
                                        acc,
                                    ),
                                    1,
                                )) by {
                                    reveal(eat_spec);
                                }
                                scope.insert_var(n.as_str(), v);
                            },
                        }
                    },
                    Expr::MultilineComment(c) => {
                        let ghost m = StmtModel::Comment(c@);
                        stmts.push(Stmt::MultilineComment(c));
                        assert(stmts_model(stmts@) =~= acc.push(m));
                        assert(eat_spec(es, sc, sup@, root, depth as nat, names.pairs(), acc) == after(
                            eat_spec(rest, sc, sup@, root, depth as nat, names.pairs(), acc.push(m)),
                            1,
                        )) by {
                            reveal(eat_spec);
                        }
                    },
                    _ => {
                        assert(eat_spec(es, sc, sup@, root, depth as nat, names.pairs(), acc) == failed(spanned(SassError::UnsupportedConstruct, span), sc)) by {
                            reveal(eat_spec);
                        }
                        return Err(SpannedError { kind: SassError::UnsupportedConstruct, span });
                    },
                }
                proof {
                    if !(e is Selector) {
                        consumed = (consumed + 1) as nat;
                    }
                }
            },
        }
    }
}

/// Reads the statements of a block up to its end: nested rules keep their
/// own selector under `super_selector`, and their blocks are read under the
/// two zipped, each in a frame of its own. Rules nested more than
/// `max_depth` levels deep are refused with `NestingTooDeep`.
pub fn eat_stmts(
    toks: &mut ExprStream,
    scope: &mut Scope,
    super_selector: &Selector,
    max_depth: usize,
    names: &NamedColors,
) -> (r: Result<Vec<Stmt>, SpannedError>)
    requires
        names.wf(),
        old(scope)@.len() > 0,
    ensures
        final(scope)@.len() == old(scope)@.len(),
        ({
            let e = eat_spec(
                old(toks).rest(),
                old(scope)@,
                super_selector@,
                None,
                max_depth as nat,
                names.pairs(),
                seq![],
            );
            &&& final(scope)@ == e.scope
            &&& match r {
                Ok(v) => {
                    &&& e.result == Ok::<Seq<StmtModel>, SpannedError>(stmts_model(v@))
                    &&& final(toks).rest() == old(toks).rest().skip(e.consumed as int)
                },
                Err(x) => e.result == Err::<Seq<StmtModel>, SpannedError>(x),
            }
        }),
{
    eat_block(toks, scope, super_selector, None, max_depth, names)
}

/// Reads the statements of an `@at-root` block up to its end. At the
/// outermost level (`nesting` at most 1, no enclosing rule read yet) a
/// nested rule's selector replaces `super_selector`; deeper it is zipped
/// with it. Rules nested more than `max_depth` levels deep are refused.
pub fn eat_stmts_at_root(
    toks: &mut ExprStream,
    scope: &mut Scope,
    super_selector: &Selector,
    nesting: usize,
    is_some: bool,
    max_depth: usize,
    names: &NamedColors,
) -> (r: Result<Vec<Stmt>, SpannedError>)
    requires
        names.wf(),
        old(scope)@.len() > 0,
    ensures
        final(scope)@.len() == old(scope)@.len(),
        ({
            let e = eat_spec(
                old(toks).rest(),
                old(scope)@,
                super_selector@,
                Some((nesting, is_some)),
                max_depth as nat,
                names.pairs(),
                seq![],
            );
            &&& final(scope)@ == e.scope
            &&& match r {
                Ok(v) => {
                    &&& e.result == Ok::<Seq<StmtModel>, SpannedError>(stmts_model(v@))
                    &&& final(toks).rest() == old(toks).rest().skip(e.consumed as int)
                },
                Err(x) => e.result == Err::<Seq<StmtModel>, SpannedError>(x),
            }
        }),
{
    eat_block(toks, scope, super_selector, Some((nesting, is_some)), max_depth, names)
}

} // verus!
