use crate::color::{color_text, shifted, Color, NamedColors};
use crate::number::{fixed_text, push_char, sum_spec, write_fixed, ArithError, Number};
use crate::selector::{selector_text, Selector, SelectorPart};
use vstd::prelude::*;

verus! {

/// A runtime value.
pub enum Value {
    Null,
    Bool(bool),
    /// An unquoted string, such as an identifier.
    Ident(String),
    Quoted(String),
    Number(Number),
    Color(Color),
    /// The value of `&`: the enclosing selector.
    Selector(Selector),
}

/// What a value is, with strings and selectors as sequences.
pub enum ValueModel {
    Null,
    Bool(bool),
    Ident(Seq<char>),
    Quoted(Seq<char>),
    /// A fixed-point value and its unit.
    Number(i64, Seq<char>),
    Color(Color),
    Selector(Seq<Seq<SelectorPart>>),
}

impl View for Value {
    type V = ValueModel;

    open spec fn view(&self) -> ValueModel {
        match self {
            Value::Null => ValueModel::Null,
            Value::Bool(b) => ValueModel::Bool(*b),
            Value::Ident(s) => ValueModel::Ident(s@),
            Value::Quoted(s) => ValueModel::Quoted(s@),
            Value::Number(n) => ValueModel::Number(n.value, n.unit@),
            Value::Color(c) => ValueModel::Color(*c),
            Value::Selector(s) => ValueModel::Selector(s@),
        }
    }
}

/// Why evaluation failed.
#[derive(Debug, Clone, Copy, PartialEq, Eq)]
pub enum SassError {
    /// A variable was read that no frame of the scope holds.
    UndefinedVariable,
    /// Two numbers whose units cannot be combined.
    IncompatibleUnits,
    /// An operator applied to values it does not take (two colors, say).
    UndefinedOperation,
    /// A number left the fixed-point range.
    Overflow,
    /// A construct that this evaluator does not take where it stands.
    UnsupportedConstruct,
    /// Rules nested deeper than the nesting counter can count.
    NestingTooDeep,
    /// A built-in function called with arguments it does not take.
    InvalidArguments,
}

/// The CSS text of a value.
pub open spec fn value_text(v: ValueModel, names: Map<Seq<char>, u32>, compressed: bool) -> Seq<
    char,
> {
    match v {
        ValueModel::Null => seq![],
        ValueModel::Bool(b) => if b {
            "true"@
        } else {
            "false"@
        },
        ValueModel::Ident(s) => s,
        ValueModel::Quoted(s) => seq!['"'] + s + seq!['"'],
        ValueModel::Number(v, u) => fixed_text(v as int) + u,
        ValueModel::Color(c) => color_text(c, names),
        ValueModel::Selector(s) => selector_text(s, compressed),
    }
}

/// The text a value contributes to a concatenation: a quoted string its
/// contents, any other value its CSS text.
pub open spec fn plain_text(v: ValueModel, names: Map<Seq<char>, u32>) -> Seq<char> {
    match v {
        ValueModel::Quoted(s) => s,
        _ => value_text(v, names, false),
    }
}

pub open spec fn arith_error(e: ArithError) -> SassError {
    match e {
        ArithError::IncompatibleUnits => SassError::IncompatibleUnits,
        ArithError::Overflow => SassError::Overflow,
    }
}

/// `a + b` (or, with `negate`, `a - b`). Numbers add by the unit rules; a
/// color takes a unitless number on each channel; two colors, a number and
/// a color, or a color and a number with a unit do not combine. Any other
/// pair joins as text: `+` concatenates (quoted when the left side is), `-`
/// puts a hyphen between the two CSS texts.
pub open spec fn binop_spec(a: ValueModel, b: ValueModel, negate: bool, names: Map<Seq<char>, u32>) -> Result<
    ValueModel,
    SassError,
> {
    match (a, b) {
        (ValueModel::Number(xv, xu), ValueModel::Number(yv, yu)) => match sum_spec(
            xv as int,
            xu,
            yv as int,
            yu,
            negate,
        ) {
            Ok((v, u)) => Ok(ValueModel::Number(v, u)),
            Err(e) => Err(arith_error(e)),
        },
        (ValueModel::Color(c), ValueModel::Number(v, u)) => if u.len() == 0 {
            Ok(ValueModel::Color(shifted(c, v as int, negate)))
        } else {
            Err(SassError::UndefinedOperation)
        },
        (ValueModel::Color(_), ValueModel::Color(_)) => Err(SassError::UndefinedOperation),
        (ValueModel::Number(_, _), ValueModel::Color(_)) => Err(SassError::UndefinedOperation),
        _ => if negate {
            Ok(ValueModel::Ident(value_text(a, names, false) + seq!['-'] + value_text(b, names, false)))
        } else if a is Quoted {
            Ok(ValueModel::Quoted(plain_text(a, names) + plain_text(b, names)))
        } else {
            Ok(ValueModel::Ident(plain_text(a, names) + plain_text(b, names)))
        },
    }
}

fn map_arith(e: ArithError) -> (r: SassError)
    ensures
        r == arith_error(e),
{
    match e {
        ArithError::IncompatibleUnits => SassError::IncompatibleUnits,
        ArithError::Overflow => SassError::Overflow,
    }
}

impl Value {
    pub fn copy(&self) -> (r: Value)
        ensures
            r@ == self@,
    {
        match self {
            Value::Null => Value::Null,
            Value::Bool(b) => Value::Bool(*b),
            Value::Ident(s) => Value::Ident(s.clone()),
            Value::Quoted(s) => Value::Quoted(s.clone()),
            Value::Number(n) => Value::Number(n.copy()),
            Value::Color(c) => Value::Color(c.copy()),
            Value::Selector(s) => Value::Selector(s.copy()),
        }
    }

    pub fn is_null(&self) -> (r: bool)
        ensures
            r == (self@ is Null),
    {
        match self {
            Value::Null => true,
            _ => false,
        }
    }

    /// Appends the value's CSS text.
    pub fn write_css(&self, out: &mut String, names: &NamedColors, compressed: bool)
        requires
            names.wf(),
        ensures
            final(out)@ == old(out)@ + value_text(self@, names.pairs(), compressed),
    {
        match self {
            Value::Null => {
                assert(out@ =~= old(out)@ + value_text(self@, names.pairs(), compressed));
            },
            Value::Bool(b) => {
                if *b {
                    out.append("true");
                } else {
                    out.append("false");
                }
            },
            Value::Ident(s) => out.append(s.as_str()),
            Value::Quoted(s) => {
                push_char(out, '"');
                out.append(s.as_str());
                push_char(out, '"');
                assert(out@ =~= old(out)@ + value_text(self@, names.pairs(), compressed));
            },
            Value::Number(n) => {
                write_fixed(out, n.value);
                out.append(n.unit.as_str());
                assert(out@ =~= old(out)@ + value_text(self@, names.pairs(), compressed));
            },
            Value::Color(c) => c.write_css(out, names),
            Value::Selector(s) => s.write_css(out, compressed),
        }
    }

    /// The value's CSS text.
    pub fn to_css(&self, names: &NamedColors, compressed: bool) -> (r: String)
        requires
            names.wf(),
        ensures
            r@ == value_text(self@, names.pairs(), compressed),
    {
        let mut out = String::new();
        self.write_css(&mut out, names, compressed);
        assert(out@ =~= value_text(self@, names.pairs(), compressed));
        out
    }

    fn write_plain(&self, out: &mut String, names: &NamedColors)
        requires
            names.wf(),
        ensures
            final(out)@ == old(out)@ + plain_text(self@, names.pairs()),
    {
        match self {
            Value::Quoted(s) => out.append(s.as_str()),
            _ => self.write_css(out, names, false),
        }
    }

    /// `a + b`, or `a - b` where `negate` holds.
    pub fn binop(a: &Value, b: &Value, negate: bool, names: &NamedColors) -> (r: Result<
        Value,
        SassError,
    >)
        requires
            names.wf(),
        ensures
            match r {
                Ok(v) => binop_spec(a@, b@, negate, names.pairs()) == Ok::<ValueModel, SassError>(
                    v@,
                ),
                Err(e) => binop_spec(a@, b@, negate, names.pairs()) == Err::<ValueModel, SassError>(
                    e,
                ),
            },
    {
        match (a, b) {
            (Value::Number(x), Value::Number(y)) => {
                return match x.add_or_sub(y, negate) {
                    Ok(n) => Ok(Value::Number(n)),
                    Err(e) => Err(map_arith(e)),
                };
            },
            (Value::Color(c), Value::Number(n)) => {
                if n.unit.as_str().unicode_len() == 0 {
                    return Ok(Value::Color(c.shift(n.value, negate)));
                } else {
                    return Err(SassError::UndefinedOperation);
                }
            },
            (Value::Color(_), Value::Color(_)) => {
                return Err(SassError::UndefinedOperation);
            },
            (Value::Number(_), Value::Color(_)) => {
                return Err(SassError::UndefinedOperation);
            },
            _ => {},
        }
        let mut out = String::new();
        if negate {
            a.write_css(&mut out, names, false);
            push_char(&mut out, '-');
            b.write_css(&mut out, names, false);
            assert(out@ =~= value_text(a@, names.pairs(), false) + seq!['-'] + value_text(
                b@,
                names.pairs(),
                false,
            ));
            Ok(Value::Ident(out))
        } else {
            a.write_plain(&mut out, names);
            b.write_plain(&mut out, names);
            assert(out@ =~= plain_text(a@, names.pairs()) + plain_text(b@, names.pairs()));
            if let Value::Quoted(_) = a {
                Ok(Value::Quoted(out))
            } else {
                Ok(Value::Ident(out))
            }
        }
    }
}

} // verus!
