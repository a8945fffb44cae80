use crate::color::NamedColors;
use crate::eval::{stmt_model, stmts_model, Stmt, StmtModel};
use crate::number::push_char;
use crate::selector::{selector_text, zip_spec};
use crate::value::value_text;
use vstd::prelude::*;

verus! {

/// How the CSS text is laid out.
pub enum OutputStyle {
    /// One declaration per line, two spaces of indent per level, a blank
    /// line between top-level groups.
    Expanded,
    /// No optional whitespace, no semicolon after the last declaration of a
    /// block.
    Compressed,
}

impl OutputStyle {
    pub open spec fn is_compressed(&self) -> bool {
        self is Compressed
    }
}

/// The indent of a nested level, two spaces deeper while that fits.
pub open spec fn deeper(indent: nat) -> nat {
    if indent + 2 <= usize::MAX {
        indent + 2
    } else {
        indent
    }
}

pub open spec fn spaces(n: nat) -> Seq<char> {
    Seq::new(n, |i: int| ' ')
}

/// A declaration or a comment inside a block; empty where it is invisible
/// (a null value, or a comment under the compressed style).
pub open spec fn entry_text(s: StmtModel, names: Map<Seq<char>, u32>, compressed: bool, indent: nat) -> Seq<char> {
    match s {
        StmtModel::Style(p, v) => if v is Null {
            seq![]
        } else if compressed {
            p + seq![':'] + value_text(v, names, true)
        } else {
            spaces(indent) + p + seq![':', ' '] + value_text(v, names, false) + seq![';', '\n']
        },
        StmtModel::Comment(c) => if compressed {
            seq![]
        } else {
            spaces(indent) + c + seq!['\n']
        },
        _ => seq![],
    }
}

/// The declarations and comments of a block, in order; compressed, they
/// are separated by semicolons.
pub open spec fn entries_text(
    items: Seq<StmtModel>,
    names: Map<Seq<char>, u32>,
    compressed: bool,
    indent: nat,
) -> Seq<char>
    decreases items.len(),
{
    if items.len() == 0 {
        seq![]
    } else {
        let prev = entries_text(items.drop_last(), names, compressed, indent);
        let e = entry_text(items.last(), names, compressed, indent);
        if e.len() == 0 {
            prev
        } else if compressed && prev.len() > 0 {
            prev + seq![';'] + e
        } else {
            prev + e
        }
    }
}

pub open spec fn at_head(name: Seq<char>, params: Seq<char>) -> Seq<char> {
    if params.len() == 0 {
        seq!['@'] + name
    } else {
        seq!['@'] + name + seq![' '] + params
    }
}

/// Rule sets and block at-rules end a group: in the expanded style a blank
/// line follows them.
pub open spec fn is_group_end(s: StmtModel) -> bool {
    s is RuleSet || (s is AtRule && s->AtRule_2 is Some)
}

/// Declarations and at-rules without a block are followed by a semicolon
/// when another statement comes after them in the compressed style.
pub open spec fn requires_semicolon(s: StmtModel) -> bool {
    s is Style || (s is AtRule && s->AtRule_2 is None)
}

/// The CSS text of one statement at the given indent; a rule set prints its
/// own declarations under its full selector, then its nested rules.
pub open spec fn stmt_text(s: StmtModel, names: Map<Seq<char>, u32>, compressed: bool, indent: nat) -> Seq<char>
    decreases s, 0int,
{
    match s {
        StmtModel::RuleSet(sup, sel, rules) => {
            let own = entries_text(rules, names, compressed, deeper(indent));
            let full = zip_spec(sup, sel);
            let head = if own.len() == 0 {
                seq![]
            } else if compressed {
                selector_text(full, true) + seq!['{'] + own + seq!['}']
            } else {
                spaces(indent) + selector_text(full, false) + seq![' ', '{', '\n'] + own + spaces(indent)
                    + seq!['}', '\n']
            };
            head + nested_text(rules, rules.len() as int, names, compressed, indent)
        },
        StmtModel::AtRule(n, p, body) => match body {
            None => if compressed {
                at_head(n, p)
            } else {
                spaces(indent) + at_head(n, p) + seq![';', '\n']
            },
            Some(b) => if compressed {
                at_head(n, p) + seq!['{'] + fold_text(b, b.len() as int, names, compressed, deeper(indent)).0
                    + seq!['}']
            } else {
                spaces(indent) + at_head(n, p) + seq![' ', '{', '\n'] + fold_text(
                    b,
                    b.len() as int,
                    names,
                    compressed,
                    deeper(indent),
                ).0 + spaces(indent) + seq!['}', '\n']
            },
        },
        _ => entry_text(s, names, compressed, indent),
    }
}

/// The nested rule sets and at-rules among the first `k` items of a block.
pub open spec fn nested_text(
    items: Seq<StmtModel>,
    k: int,
    names: Map<Seq<char>, u32>,
    compressed: bool,
    indent: nat,
) -> Seq<char>
    decreases items, k,
{
    if k <= 0 || k > items.len() {
        seq![]
    } else {
        let prev = nested_text(items, k - 1, names, compressed, indent);
        let s = items[k - 1];
        if s is RuleSet || s is AtRule {
            prev + stmt_text(s, names, compressed, indent)
        } else {
            prev
        }
    }
}

/// The first `k` statements of a sequence, laid out one after another:
/// invisible ones are skipped, a blank line follows each group end in the
/// expanded style, and a semicolon separates a statement that requires one
/// from the next in the compressed style. Also gives whether the last
/// visible statement ended a group and whether it requires a semicolon.
pub open spec fn fold_text(
    items: Seq<StmtModel>,
    k: int,
    names: Map<Seq<char>, u32>,
    compressed: bool,
    indent: nat,
) -> (Seq<char>, bool, bool)
    decreases items, k,
{
    if k <= 0 || k > items.len() {
        (seq![], false, false)
    } else {
        let (t, ge, semi) = fold_text(items, k - 1, names, compressed, indent);
        let s = items[k - 1];
        let g = stmt_text(s, names, compressed, indent);
        if g.len() == 0 {
            (t, ge, semi)
        } else {
            let sep = if compressed {
                if semi {
                    seq![';']
                } else {
                    seq![]
                }
            } else if ge {
                seq!['\n']
            } else {
                seq![]
            };
            (t + sep + g, is_group_end(s), requires_semicolon(s))
        }
    }
}

/// The CSS text of a stylesheet's statements.
pub open spec fn css_text(items: Seq<StmtModel>, names: Map<Seq<char>, u32>, compressed: bool) -> Seq<char> {
    fold_text(items, items.len() as int, names, compressed, 0).0
}

fn write_spaces(out: &mut String, n: usize)
    ensures
        final(out)@ == old(out)@ + spaces(n as nat),
{
    let mut i: usize = 0;
    while i < n
        invariant
            0 <= i <= n,
            out@ == old(out)@ + spaces(i as nat),
        decreases n - i,
    {
        push_char(out, ' ');
        i += 1;
        assert(out@ =~= old(out)@ + spaces(i as nat));
    }
}

fn write_entry(out: &mut String, s: &Stmt, names: &NamedColors, compressed: bool, indent: usize)
    requires
        names.wf(),
    ensures
        final(out)@ == old(out)@ + entry_text(stmt_model(*s), names.pairs(), compressed, indent as nat),
{
    match s {
        Stmt::Style(st) => {
            if !st.value.is_null() {
                if compressed {
                    out.append(st.property.as_str());
                    push_char(out, ':');
                    st.value.write_css(out, names, true);
                } else {
                    write_spaces(out, indent);
                    out.append(st.property.as_str());
                    out.append(": ");
                    st.value.write_css(out, names, false);
                    out.append(";\n");
                    proof {
                        reveal_strlit(": ");
                        reveal_strlit(";\n");
                    }
                }
            }
        },
        Stmt::MultilineComment(c) => {
            if !compressed {
                write_spaces(out, indent);
                out.append(c.as_str());
                push_char(out, '\n');
            }
        },
        _ => {},
    }
    assert(out@ =~= old(out)@ + entry_text(stmt_model(*s), names.pairs(), compressed, indent as nat));
}

proof fn lemma_children(s: Stmt)
    ensures
        s is RuleSet ==> stmt_model(s)->RuleSet_2 == stmts_model(s->RuleSet_0.rules@),
        s is AtRule && s->AtRule_0.body is Some ==> stmt_model(s)->AtRule_2 == Some(
            stmts_model(s->AtRule_0.body->Some_0@),
        ),
{
    match s {
        Stmt::RuleSet(rs) => {
            assert(stmt_model(s)->RuleSet_2 =~= stmts_model(rs.rules@));
        },
        Stmt::AtRule(a) => {
            if let Some(b) = a.body {
                assert(stmt_model(s)->AtRule_2->Some_0 =~= stmts_model(b@));
            }
        },
        _ => {},
    }
}

fn deeper_indent(indent: usize) -> (r: usize)
    ensures
        r == deeper(indent as nat),
{
    if indent <= usize::MAX - 2 {
        indent + 2
    } else {
        indent
    }
}

fn write_at_head(out: &mut String, name: &String, params: &String)
    ensures
        final(out)@ == old(out)@ + at_head(name@, params@),
{
    push_char(out, '@');
    out.append(name.as_str());
    if params.as_str().unicode_len() > 0 {
        push_char(out, ' ');
        out.append(params.as_str());
    }
    assert(out@ =~= old(out)@ + at_head(name@, params@));
}

fn write_entries(out: &mut String, items: &Vec<Stmt>, names: &NamedColors, compressed: bool, indent: usize)
    requires
        names.wf(),
    ensures
        final(out)@ == old(out)@ + entries_text(stmts_model(items@), names.pairs(), compressed, indent as nat),
{
    let ghost m = stmts_model(items@);
    let mut i: usize = 0;
    let mut any = false;
    assert(m.take(0) =~= Seq::<StmtModel>::empty());
    while i < items.len()
        invariant
            0 <= i <= items@.len(),
            m == stmts_model(items@),
            names.wf(),
            out@ == old(out)@ + entries_text(m.take(i as int), names.pairs(), compressed, indent as nat),
            any == (entries_text(m.take(i as int), names.pairs(), compressed, indent as nat).len() > 0),
        decreases items@.len() - i,
    {
        assert(m.take(i + 1).drop_last() =~= m.take(i as int));
        assert(m.take(i + 1).last() == stmt_model(items@[i as int]));
        let mut e = String::new();
        write_entry(&mut e, &items[i], names, compressed, indent);
        assert(e@ =~= entry_text(stmt_model(items@[i as int]), names.pairs(), compressed, indent as nat));
        if e.as_str().unicode_len() > 0 {
            if compressed && any {
                push_char(out, ';');
            }
            out.append(e.as_str());
            any = true;
        }
        i += 1;
        assert(out@ =~= old(out)@ + entries_text(m.take(i as int), names.pairs(), compressed, indent as nat));
    }
    assert(m.take(items@.len() as int) =~= m);
}

fn write_stmt(out: &mut String, s: &Stmt, names: &NamedColors, compressed: bool, indent: usize)
    requires
        names.wf(),
    ensures
        final(out)@ == old(out)@ + stmt_text(stmt_model(*s), names.pairs(), compressed, indent as nat),
    decreases s, 0int,
{
    proof {
        lemma_children(*s);
    }
    match s {
        Stmt::RuleSet(rs) => {
            let inner = deeper_indent(indent);
            let mut own = String::new();
            write_entries(&mut own, &rs.rules, names, compressed, inner);
            if own.as_str().unicode_len() > 0 {
                let full = rs.super_selector.zip(&rs.selector);
                if compressed {
                    full.write_css(out, true);
                    push_char(out, '{');
                    out.append(own.as_str());
                    push_char(out, '}');
                } else {
                    write_spaces(out, indent);
                    full.write_css(out, false);
                    out.append(" {\n");
                    out.append(own.as_str());
                    write_spaces(out, indent);
                    out.append("}\n");
                    proof {
                        reveal_strlit(" {\n");
                        reveal_strlit("}\n");
                    }
                }
            }
            let ghost mid = out@;
            write_nested(out, &rs.rules, names, compressed, indent);
            assert(out@ =~= old(out)@ + stmt_text(stmt_model(*s), names.pairs(), compressed, indent as nat));
        },
        Stmt::AtRule(a) => {
            match &a.body {
                None => {
                    if !compressed {
                        write_spaces(out, indent);
                    }
                    write_at_head(out, &a.name, &a.params);
                    if !compressed {
                        out.append(";\n");
                        proof {
                            reveal_strlit(";\n");
                        }
                    }
                },
                Some(b) => {
                    let inner = deeper_indent(indent);
                    if !compressed {
                        write_spaces(out, indent);
                    }
                    write_at_head(out, &a.name, &a.params);
                    if compressed {
                        push_char(out, '{');
                    } else {
                        out.append(" {\n");
                        proof {
                            reveal_strlit(" {\n");
                        }
                    }
                    write_fold(out, b, names, compressed, inner);
                    if compressed {
                        push_char(out, '}');
                    } else {
                        write_spaces(out, indent);
                        out.append("}\n");
                        proof {
                            reveal_strlit("}\n");
                        }
                    }
                },
            }
            assert(out@ =~= old(out)@ + stmt_text(stmt_model(*s), names.pairs(), compressed, indent as nat));
        },
        _ => {
            write_entry(out, s, names, compressed, indent);
        },
    }
}

fn write_nested(out: &mut String, items: &Vec<Stmt>, names: &NamedColors, compressed: bool, indent: usize)
    requires
        names.wf(),
    ensures
        final(out)@ == old(out)@ + nested_text(
            stmts_model(items@),
            items@.len() as int,
            names.pairs(),
            compressed,
            indent as nat,
        ),
    decreases items, 1int,
{
    let ghost m = stmts_model(items@);
    let mut i: usize = 0;
    while i < items.len()
        invariant
            0 <= i <= items@.len(),
            m == stmts_model(items@),
            names.wf(),
            out@ == old(out)@ + nested_text(m, i as int, names.pairs(), compressed, indent as nat),
        decreases items@.len() - i,
    {
        assert(m[i as int] == stmt_model(items@[i as int]));
        match &items[i] {
            Stmt::RuleSet(_) | Stmt::AtRule(_) => {
                write_stmt(out, &items[i], names, compressed, indent);
            },
            _ => {},
        }
        i += 1;
        assert(out@ =~= old(out)@ + nested_text(m, i as int, names.pairs(), compressed, indent as nat));
    }
}

/// Lays out a sequence of statements; gives whether the last visible one
/// ended a group and whether it requires a semicolon.
fn write_fold(out: &mut String, items: &Vec<Stmt>, names: &NamedColors, compressed: bool, indent: usize) -> (r: (bool, bool))
    requires
        names.wf(),
    ensures
        ({
            let f = fold_text(stmts_model(items@), items@.len() as int, names.pairs(), compressed, indent as nat);
            &&& final(out)@ == old(out)@ + f.0
            &&& r == (f.1, f.2)
        }),
    decreases items, 1int,
{
    let ghost m = stmts_model(items@);
    let mut i: usize = 0;
    let mut prev_was_group_end = false;
    let mut prev_requires_semicolon = false;
    while i < items.len()
        invariant
            0 <= i <= items@.len(),
            m == stmts_model(items@),
            names.wf(),
            ({
                let f = fold_text(m, i as int, names.pairs(), compressed, indent as nat);
                &&& out@ == old(out)@ + f.0
                &&& prev_was_group_end == f.1
                &&& prev_requires_semicolon == f.2
            }),
        decreases items@.len() - i,
    {
        let s = &items[i];
        assert(m[i as int] == stmt_model(*s));
        let mut group = String::new();
        write_stmt(&mut group, s, names, compressed, indent);
        assert(group@ =~= stmt_text(stmt_model(*s), names.pairs(), compressed, indent as nat));
        if group.as_str().unicode_len() > 0 {
            let ge = stmt_is_group_end(s);
            let semi = stmt_requires_semicolon(s);
            visit_group(out, &group, compressed, prev_was_group_end, prev_requires_semicolon);
            prev_was_group_end = ge;
            prev_requires_semicolon = semi;
        }
        i += 1;
    }
    (prev_was_group_end, prev_requires_semicolon)
}

fn stmt_is_group_end(s: &Stmt) -> (r: bool)
    ensures
        r == is_group_end(stmt_model(*s)),
{
    match s {
        Stmt::RuleSet(_) => true,
        Stmt::AtRule(a) => a.body.is_some(),
        _ => false,
    }
}

fn stmt_requires_semicolon(s: &Stmt) -> (r: bool)
    ensures
        r == requires_semicolon(stmt_model(*s)),
{
    match s {
        Stmt::Style(_) => true,
        Stmt::AtRule(a) => a.body.is_none(),
        _ => false,
    }
}

/// Appends a visible statement's text, after the separator that the
/// previous visible statement calls for.
pub fn visit_group(
    out: &mut String,
    group: &String,
    compressed: bool,
    prev_was_group_end: bool,
    prev_requires_semicolon: bool,
)
    ensures
        final(out)@ == old(out)@ + (if compressed {
            if prev_requires_semicolon {
                seq![';']
            } else {
                seq![]
            }
        } else if prev_was_group_end {
            seq!['\n']
        } else {
            seq![]
        }) + group@,
{
    if compressed {
        if prev_requires_semicolon {
            push_char(out, ';');
        }
    } else if prev_was_group_end {
        push_char(out, '\n');
    }
    out.append(group.as_str());
    assert(out@ =~= old(out)@ + (if compressed {
        if prev_requires_semicolon {
            seq![';']
        } else {
            seq![]
        }
    } else if prev_was_group_end {
        seq!['\n']
    } else {
        seq![]
    }) + group@);
}

/// The CSS text of a sequence of statements in the given style.
pub fn serialize(stmts: &Vec<Stmt>, style: &OutputStyle, names: &NamedColors) -> (r: String)
    requires
        names.wf(),
    ensures
        r@ == css_text(stmts_model(stmts@), names.pairs(), style.is_compressed()),
{
    let compressed = match style {
        OutputStyle::Compressed => true,
        OutputStyle::Expanded => false,
    };
    let mut out = String::new();
    write_fold(&mut out, stmts, names, compressed, 0);
    assert(out@ =~= css_text(stmts_model(stmts@), names.pairs(), compressed));
    out
}

} // verus!
