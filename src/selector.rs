use crate::number::push_char;
use vstd::prelude::*;

verus! {

/// The combinators between compound selectors.
pub enum Combinator {
    /// `a b`
    Descendant,
    /// `a > b`
    Child,
    /// `a + b`
    NextSibling,
    /// `a ~ b`
    FollowingSibling,
}

/// One piece of a complex selector.
pub enum SelectorPart {
    /// A compound selector as written, such as `a.b:hover`, or the part of
    /// one that follows or precedes a `&`.
    Compound(String),
    Combinator(Combinator),
    /// `&`, where the enclosing selector goes.
    Parent,
}

/// A comma-separated list of complex selectors, each a sequence of parts.
pub struct Selector {
    pub complexes: Vec<Vec<SelectorPart>>,
}

impl View for Selector {
    type V = Seq<Seq<SelectorPart>>;

    open spec fn view(&self) -> Seq<Seq<SelectorPart>> {
        self.complexes@.map_values(|c: Vec<SelectorPart>| c@)
    }
}

pub open spec fn has_parent(c: Seq<SelectorPart>) -> bool {
    exists|i: int| 0 <= i < c.len() && c[i] is Parent
}

pub type Complexes = Seq<Seq<SelectorPart>>;

/// Each tail with `p` put in front of it.
pub open spec fn prefixed(p: Seq<SelectorPart>, tails: Complexes) -> Complexes {
    tails.map_values(|x: Seq<SelectorPart>| p + x)
}

/// Each tail with each of `ps` in front of it, the first of `ps` first.
pub open spec fn prefixed_all(ps: Complexes, tails: Complexes) -> Complexes
    decreases ps.len(),
{
    if ps.len() == 0 {
        seq![]
    } else {
        prefixed_all(ps.drop_last(), tails) + prefixed(ps.last(), tails)
    }
}

/// The complexes that `c` becomes when each of its `&`s is replaced by one
/// of the parents `ps`, chosen independently: the cartesian product over
/// the `&` positions, the first position varying slowest. Where `pinned`
/// holds a parent, the first `&` takes that one alone.
pub open spec fn fill(c: Seq<SelectorPart>, ps: Complexes, pinned: Option<Seq<SelectorPart>>) -> Complexes
    decreases c.len(),
{
    if c.len() == 0 {
        seq![seq![]]
    } else if c[0] is Parent {
        let rest = fill(c.drop_first(), ps, None);
        match pinned {
            Some(p) => prefixed(p, rest),
            None => prefixed_all(ps, rest),
        }
    } else {
        prefixed(seq![c[0]], fill(c.drop_first(), ps, pinned))
    }
}

/// The complexes for parent `p` (one of `ps`) and a child complex `c`: the
/// descendant join where `c` holds no `&`; otherwise the substitutions
/// whose first `&` takes `p`.
pub open spec fn join_rows(p: Seq<SelectorPart>, c: Seq<SelectorPart>, ps: Complexes) -> Complexes {
    if has_parent(c) {
        fill(c, ps, Some(p))
    } else {
        seq![p + seq![SelectorPart::Combinator(Combinator::Descendant)] + c]
    }
}

/// The rows of parent `p` for each child complex, in child order.
pub open spec fn child_rows(p: Seq<SelectorPart>, cs: Complexes, ps: Complexes) -> Complexes
    decreases cs.len(),
{
    if cs.len() == 0 {
        seq![]
    } else {
        child_rows(p, cs.drop_last(), ps) + join_rows(p, cs.last(), ps)
    }
}

/// The rows of the first `k` parents, parent-major.
pub open spec fn zip_rows(k: int, ps: Complexes, cs: Complexes) -> Complexes
    decreases k,
{
    if k <= 0 || k > ps.len() {
        seq![]
    } else {
        zip_rows(k - 1, ps, cs) + child_rows(ps[k - 1], cs, ps)
    }
}

/// The selector of a nested rule: at the root the child stands alone.
pub open spec fn zip_spec(ps: Complexes, cs: Complexes) -> Complexes {
    if ps.len() == 0 {
        cs
    } else {
        zip_rows(ps.len() as int, ps, cs)
    }
}

/// Each child complex in turn: one with `&`s becomes all its substitutions
/// by the parents; one without stays as it is.
pub open spec fn replace_rows(ps: Complexes, cs: Complexes) -> Complexes
    decreases cs.len(),
{
    if cs.len() == 0 {
        seq![]
    } else {
        replace_rows(ps, cs.drop_last()) + if has_parent(cs.last()) {
            fill(cs.last(), ps, None)
        } else {
            seq![cs.last()]
        }
    }
}

/// The selector of a rule that replaces the enclosing one rather than
/// nesting in it: only its `&`s refer to the enclosing selector.
pub open spec fn replace_spec(ps: Complexes, cs: Complexes) -> Complexes {
    if ps.len() == 0 {
        cs
    } else {
        replace_rows(ps, cs)
    }
}

pub open spec fn rows_of(v: Seq<Vec<SelectorPart>>) -> Complexes {
    v.map_values(|c: Vec<SelectorPart>| c@)
}


pub open spec fn combinator_text(c: Combinator, compressed: bool) -> Seq<char> {
    match c {
        Combinator::Descendant => seq![' '],
        Combinator::Child => if compressed {
            seq!['>']
        } else {
            seq![' ', '>', ' ']
        },
        Combinator::NextSibling => if compressed {
            seq!['+']
        } else {
            seq![' ', '+', ' ']
        },
        Combinator::FollowingSibling => if compressed {
            seq!['~']
        } else {
            seq![' ', '~', ' ']
        },
    }
}

pub open spec fn part_text(p: SelectorPart, compressed: bool) -> Seq<char> {
    match p {
        SelectorPart::Compound(t) => t@,
        SelectorPart::Combinator(c) => combinator_text(c, compressed),
        SelectorPart::Parent => seq!['&'],
    }
}

pub open spec fn complex_text(c: Seq<SelectorPart>, compressed: bool) -> Seq<char>
    decreases c.len(),
{
    if c.len() == 0 {
        seq![]
    } else {
        complex_text(c.drop_last(), compressed) + part_text(c.last(), compressed)
    }
}

pub open spec fn list_separator(compressed: bool) -> Seq<char> {
    if compressed {
        seq![',']
    } else {
        seq![',', ' ']
    }
}

/// The complexes, separated by commas (and a space unless compressed).
pub open spec fn selector_text(s: Seq<Seq<SelectorPart>>, compressed: bool) -> Seq<char>
    decreases s.len(),
{
    if s.len() == 0 {
        seq![]
    } else if s.len() == 1 {
        complex_text(s[0], compressed)
    } else {
        selector_text(s.drop_last(), compressed) + list_separator(compressed) + complex_text(
            s.last(),
            compressed,
        )
    }
}

impl Combinator {
    pub fn copy(&self) -> (r: Combinator)
        ensures
            r == *self,
    {
        match self {
            Combinator::Descendant => Combinator::Descendant,
            Combinator::Child => Combinator::Child,
            Combinator::NextSibling => Combinator::NextSibling,
            Combinator::FollowingSibling => Combinator::FollowingSibling,
        }
    }
}

impl SelectorPart {
    pub fn copy(&self) -> (r: SelectorPart)
        ensures
            r == *self,
    {
        match self {
            SelectorPart::Compound(t) => SelectorPart::Compound(t.clone()),
            SelectorPart::Combinator(c) => SelectorPart::Combinator(c.copy()),
            SelectorPart::Parent => SelectorPart::Parent,
        }
    }
}

/// Appends copies of the parts of `c` to `out`.
fn extend_parts(out: &mut Vec<SelectorPart>, c: &Vec<SelectorPart>)
    ensures
        final(out)@ == old(out)@ + c@,
{
    let mut i: usize = 0;
    while i < c.len()
        invariant
            0 <= i <= c@.len(),
            out@ == old(out)@ + c@.take(i as int),
        decreases c@.len() - i,
    {
        out.push(c[i].copy());
        i += 1;
        assert(c@.take(i as int) =~= c@.take(i - 1) + seq![c@[i - 1]]);
    }
    assert(c@.take(c@.len() as int) =~= c@);
}

fn copy_complex(c: &Vec<SelectorPart>) -> (r: Vec<SelectorPart>)
    ensures
        r@ == c@,
{
    let mut r: Vec<SelectorPart> = Vec::new();
    extend_parts(&mut r, c);
    assert(r@ =~= c@);
    r
}

fn complex_has_parent(c: &Vec<SelectorPart>) -> (r: bool)
    ensures
        r == has_parent(c@),
{
    let mut i: usize = 0;
    while i < c.len()
        invariant
            0 <= i <= c@.len(),
            forall|j: int| 0 <= j < i ==> !(c@[j] is Parent),
        decreases c@.len() - i,
    {
        if let SelectorPart::Parent = &c[i] {
            return true;
        }
        i += 1;
    }
    false
}

/// Appends `p` followed by each tail to `out`.
fn push_prefixed(out: &mut Vec<Vec<SelectorPart>>, p: &Vec<SelectorPart>, tails: &Vec<Vec<SelectorPart>>)
    ensures
        rows_of(final(out)@) == rows_of(old(out)@) + prefixed(p@, rows_of(tails@)),
{
    let mut i: usize = 0;
    while i < tails.len()
        invariant
            0 <= i <= tails@.len(),
            rows_of(out@) == rows_of(old(out)@) + prefixed(p@, rows_of(tails@.take(i as int))),
        decreases tails@.len() - i,
    {
        let ghost prev = out@;
        let mut row = copy_complex(p);
        extend_parts(&mut row, &tails[i]);
        out.push(row);
        assert(rows_of(out@) =~= rows_of(prev).push(p@ + tails@[i as int]@));
        assert(prefixed(p@, rows_of(tails@.take(i + 1))) =~= prefixed(p@, rows_of(tails@.take(i as int))).push(
            p@ + tails@[i as int]@,
        ));
        i += 1;
    }
    assert(tails@.take(tails@.len() as int) =~= tails@);
}

fn push_prefixed_all(out: &mut Vec<Vec<SelectorPart>>, ps: &Vec<Vec<SelectorPart>>, tails: &Vec<Vec<SelectorPart>>)
    ensures
        rows_of(final(out)@) == rows_of(old(out)@) + prefixed_all(rows_of(ps@), rows_of(tails@)),
{
    let mut i: usize = 0;
    while i < ps.len()
        invariant
            0 <= i <= ps@.len(),
            rows_of(out@) == rows_of(old(out)@) + prefixed_all(rows_of(ps@.take(i as int)), rows_of(tails@)),
        decreases ps@.len() - i,
    {
        assert(rows_of(ps@.take(i + 1)).drop_last() =~= rows_of(ps@.take(i as int)));
        assert(rows_of(ps@.take(i + 1)).last() == ps@[i as int]@);
        push_prefixed(out, &ps[i], tails);
        i += 1;
    }
    assert(ps@.take(ps@.len() as int) =~= ps@);
}

/// The substitutions of `c` from position `i` on.
fn fill_from(c: &Vec<SelectorPart>, i: usize, ps: &Vec<Vec<SelectorPart>>, pinned: Option<&Vec<SelectorPart>>) -> (r: Vec<Vec<SelectorPart>>)
    requires
        i <= c@.len(),
    ensures
        rows_of(r@) == fill(c@.skip(i as int), rows_of(ps@), match pinned {
            Some(p) => Some(p@),
            None => None,
        }),
    decreases c@.len() - i,
{
    let ghost pin = match pinned {
        Some(p) => Some(p@),
        None => None::<Seq<SelectorPart>>,
    };
    if i == c.len() {
        let mut r: Vec<Vec<SelectorPart>> = Vec::new();
        r.push(Vec::new());
        assert(rows_of(r@) =~= seq![Seq::<SelectorPart>::empty()]);
        return r;
    }
    assert(c@.skip(i as int).drop_first() =~= c@.skip(i + 1));
    assert(c@.skip(i as int)[0] == c@[i as int]);
    let mut out: Vec<Vec<SelectorPart>> = Vec::new();
    if let SelectorPart::Parent = &c[i] {
        let rest = fill_from(c, i + 1, ps, None);
        match pinned {
            Some(p) => push_prefixed(&mut out, p, &rest),
            None => push_prefixed_all(&mut out, ps, &rest),
        }
    } else {
        let rest = fill_from(c, i + 1, ps, pinned);
        let mut head: Vec<SelectorPart> = Vec::new();
        head.push(c[i].copy());
        assert(head@ =~= seq![c@[i as int]]);
        push_prefixed(&mut out, &head, &rest);
    }
    assert(rows_of(out@) =~= fill(c@.skip(i as int), rows_of(ps@), pin));
    out
}

fn push_join(out: &mut Vec<Vec<SelectorPart>>, p: &Vec<SelectorPart>, c: &Vec<SelectorPart>, ps: &Vec<Vec<SelectorPart>>)
    ensures
        rows_of(final(out)@) == rows_of(old(out)@) + join_rows(p@, c@, rows_of(ps@)),
{
    if complex_has_parent(c) {
        let mut rows = fill_from(c, 0, ps, Some(p));
        assert(c@.skip(0) =~= c@);
        let ghost prev = out@;
        let ghost rv = rows@;
        out.append(&mut rows);
        assert(rows_of(out@) =~= rows_of(prev) + rows_of(rv));
    } else {
        let ghost prev = out@;
        let mut row = copy_complex(p);
        row.push(SelectorPart::Combinator(Combinator::Descendant));
        extend_parts(&mut row, c);
        assert(row@ =~= p@ + seq![SelectorPart::Combinator(Combinator::Descendant)] + c@);
        let ghost rowv = row@;
        out.push(row);
        assert(rows_of(out@) =~= rows_of(prev).push(rowv));
    }
}

impl Selector {
    /// The empty selector, that of the stylesheet's root.
    pub fn new() -> (r: Selector)
        ensures
            r@ == Seq::<Seq<SelectorPart>>::empty(),
    {
        let r = Selector { complexes: Vec::new() };
        assert(r@ =~= Seq::<Seq<SelectorPart>>::empty());
        r
    }

    pub fn copy(&self) -> (r: Selector)
        ensures
            r@ == self@,
    {
        let mut complexes: Vec<Vec<SelectorPart>> = Vec::new();
        let mut i: usize = 0;
        while i < self.complexes.len()
            invariant
                0 <= i <= self@.len(),
                self@.len() == self.complexes@.len(),
                complexes@.map_values(|c: Vec<SelectorPart>| c@) == self@.take(i as int),
            decreases self@.len() - i,
        {
            let ghost prev = complexes@;
            let c = copy_complex(&self.complexes[i]);
            complexes.push(c);
            assert(complexes@.map_values(|c: Vec<SelectorPart>| c@) =~= prev.map_values(
                |c: Vec<SelectorPart>| c@,
            ).push(c@));
            assert(self@.take(i + 1) =~= self@.take(i as int).push(self@[i as int]));
            i += 1;
            assert(complexes@.map_values(|c: Vec<SelectorPart>| c@) =~= self@.take(i as int));
        }
        let r = Selector { complexes };
        assert(r@ =~= self@);
        r
    }

    pub fn is_empty(&self) -> (r: bool)
        ensures
            r == (self@.len() == 0),
    {
        self.complexes.len() == 0
    }

    /// The selector of a rule nested in this one: every complex of `self`
    /// joined with every complex of `child`, parent-major; unchanged at the
    /// root.

    /// The selector of a rule nested in this one: for each complex of
    /// `self` in turn and each complex of `child`, their descendant join,
    /// or the child's substitutions whose first `&` takes that parent.
    pub fn zip(&self, child: &Selector) -> (r: Selector)
        ensures
            r@ == zip_spec(self@, child@),
    {
        if self.complexes.len() == 0 {
            return child.copy();
        }
        let mut out: Vec<Vec<SelectorPart>> = Vec::new();
        let mut k: usize = 0;
        assert(rows_of(out@) =~= Seq::<Seq<SelectorPart>>::empty());
        while k < self.complexes.len()
            invariant
                0 <= k <= self@.len(),
                self@.len() == self.complexes@.len(),
                self@ == rows_of(self.complexes@),
                child@ == rows_of(child.complexes@),
                rows_of(out@) == zip_rows(k as int, self@, child@),
            decreases self@.len() - k,
        {
            let ghost before = rows_of(out@);
            let mut j: usize = 0;
            assert(child@.take(0) =~= Seq::<Seq<SelectorPart>>::empty());
            while j < child.complexes.len()
                invariant
                    0 <= k < self@.len(),
                    0 <= j <= child@.len(),
                    self@.len() == self.complexes@.len(),
                    child@.len() == child.complexes@.len(),
                    self@ == rows_of(self.complexes@),
                    child@ == rows_of(child.complexes@),
                    rows_of(out@) == before + child_rows(self@[k as int], child@.take(j as int), self@),
                decreases child@.len() - j,
            {
                assert(child@.take(j + 1).drop_last() =~= child@.take(j as int));
                push_join(&mut out, &self.complexes[k], &child.complexes[j], &self.complexes);
                j += 1;
            }
            assert(child@.take(child@.len() as int) =~= child@);
            k += 1;
        }
        let r = Selector { complexes: out };
        r
    }

    /// The selector of a rule that replaces `outer` instead of nesting in
    /// it: `&`s in `this` still stand for `outer`.
    pub fn replace(outer: Selector, this: Selector) -> (r: Selector)
        ensures
            r@ == replace_spec(outer@, this@),
    {
        if outer.complexes.len() == 0 {
            return this;
        }
        let mut out: Vec<Vec<SelectorPart>> = Vec::new();
        let mut j: usize = 0;
        assert(this@.take(0) =~= Seq::<Seq<SelectorPart>>::empty());
        assert(rows_of(out@) =~= Seq::<Seq<SelectorPart>>::empty());
        while j < this.complexes.len()
            invariant
                0 <= j <= this@.len(),
                this@.len() == this.complexes@.len(),
                this@ == rows_of(this.complexes@),
                outer@ == rows_of(outer.complexes@),
                rows_of(out@) == replace_rows(outer@, this@.take(j as int)),
            decreases this@.len() - j,
        {
            assert(this@.take(j + 1).drop_last() =~= this@.take(j as int));
            let ghost prev = out@;
            if complex_has_parent(&this.complexes[j]) {
                let mut rows = fill_from(&this.complexes[j], 0, &outer.complexes, None);
                assert(this.complexes@[j as int]@.skip(0) =~= this.complexes@[j as int]@);
                let ghost rv = rows@;
                out.append(&mut rows);
                assert(rows_of(out@) =~= rows_of(prev) + rows_of(rv));
            } else {
                out.push(copy_complex(&this.complexes[j]));
                assert(rows_of(out@) =~= rows_of(prev) + seq![this@[j as int]]);
            }
            j += 1;
        }
        assert(this@.take(this@.len() as int) =~= this@);
        Selector { complexes: out }
    }

    /// Appends the selector's CSS text.
    pub fn write_css(&self, out: &mut String, compressed: bool)
        ensures
            final(out)@ == old(out)@ + selector_text(self@, compressed),
    {
        let mut i: usize = 0;
        while i < self.complexes.len()
            invariant
                0 <= i <= self@.len(),
                self@.len() == self.complexes@.len(),
                out@ == old(out)@ + selector_text(self@.take(i as int), compressed),
            decreases self@.len() - i,
        {
            assert(self@.take(i + 1).drop_last() =~= self@.take(i as int));
            if i > 0 {
                push_char(out, ',');
                if !compressed {
                    push_char(out, ' ');
                }
            }
            let ghost mid = out@;
            write_complex(out, &self.complexes[i], compressed);
            proof {
                if i == 0 {
                    assert(self@.take(1)[0] == self@[0]);
                    assert(out@ =~= old(out)@ + selector_text(self@.take(1), compressed));
                } else {
                    assert(out@ =~= old(out)@ + selector_text(self@.take(i + 1), compressed));
                }
            }
            i += 1;
        }
        assert(self@.take(self@.len() as int) =~= self@);
    }

    pub fn to_css(&self, compressed: bool) -> (r: String)
        ensures
            r@ == selector_text(self@, compressed),
    {
        let mut out = String::new();
        self.write_css(&mut out, compressed);
        assert(out@ =~= selector_text(self@, compressed));
        out
    }
}

fn write_complex(out: &mut String, c: &Vec<SelectorPart>, compressed: bool)
    ensures
        final(out)@ == old(out)@ + complex_text(c@, compressed),
{
    let mut i: usize = 0;
    while i < c.len()
        invariant
            0 <= i <= c@.len(),
            out@ == old(out)@ + complex_text(c@.take(i as int), compressed),
        decreases c@.len() - i,
    {
        assert(c@.take(i + 1).drop_last() =~= c@.take(i as int));
        match &c[i] {
            SelectorPart::Compound(t) => out.append(t.as_str()),
            SelectorPart::Combinator(k) => {
                if !compressed {
                    match k {
                        Combinator::Descendant => {},
                        _ => push_char(out, ' '),
                    }
                }
                match k {
                    Combinator::Descendant => push_char(out, ' '),
                    Combinator::Child => push_char(out, '>'),
                    Combinator::NextSibling => push_char(out, '+'),
                    Combinator::FollowingSibling => push_char(out, '~'),
                }
                if !compressed {
                    match k {
                        Combinator::Descendant => {},
                        _ => push_char(out, ' '),
                    }
                }
            },
            SelectorPart::Parent => push_char(out, '&'),
        }
        assert(out@ =~= old(out)@ + complex_text(c@.take(i + 1), compressed));
        i += 1;
    }
    assert(c@.take(c@.len() as int) =~= c@);
}

proof fn lemma_fill_no_parent(c: Seq<SelectorPart>, ps: Complexes, pinned: Option<Seq<SelectorPart>>)
    requires
        !has_parent(c),
    ensures
        fill(c, ps, pinned) == seq![c],
    decreases c.len(),
{
    if c.len() > 0 {
        assert(!(c[0] is Parent));
        assert(!has_parent(c.drop_first())) by {
            if has_parent(c.drop_first()) {
                let i = choose|i: int| 0 <= i < c.drop_first().len() && c.drop_first()[i] is Parent;
                assert(c[i + 1] is Parent);
            }
        }
        lemma_fill_no_parent(c.drop_first(), ps, pinned);
        assert(seq![c[0]] + c.drop_first() =~= c);
        assert(prefixed(seq![c[0]], seq![c.drop_first()]) =~= seq![c]);
    } else {
        assert(c =~= Seq::<SelectorPart>::empty());
    }
}

/// Nesting a rule whose selector is `&` followed by parts without another
/// `&` (such as `&.b` or `&:hover`) appends those parts to each enclosing
/// complex selector, in the enclosing order: nothing is reordered.
pub proof fn lemma_parent_suffix(ps: Complexes, s: Seq<SelectorPart>)
    requires
        ps.len() > 0,
        !has_parent(s),
    ensures
        zip_spec(ps, seq![seq![SelectorPart::Parent] + s]) == ps.map_values(
            |p: Seq<SelectorPart>| p + s,
        ),
{
    let c = seq![SelectorPart::Parent] + s;
    assert(c[0] is Parent);
    assert(c.drop_first() =~= s);
    lemma_fill_no_parent(s, ps, None);
    assert forall|p: Seq<SelectorPart>| #[trigger] join_rows(p, c, ps) == seq![p + s] by {
        assert(prefixed(p, seq![s]) =~= seq![p + s]);
    }
    lemma_zip_single(ps, c, s, ps.len() as int);
    assert(zip_rows(ps.len() as int, ps, seq![c]) =~= ps.map_values(|p: Seq<SelectorPart>| p + s));
}

proof fn lemma_zip_single(ps: Complexes, c: Seq<SelectorPart>, s: Seq<SelectorPart>, k: int)
    requires
        0 <= k <= ps.len(),
        forall|p: Seq<SelectorPart>| #[trigger] join_rows(p, c, ps) == seq![p + s],
    ensures
        zip_rows(k, ps, seq![c]) =~= ps.take(k).map_values(|p: Seq<SelectorPart>| p + s),
    decreases k,
{
    if k > 0 {
        lemma_zip_single(ps, c, s, k - 1);
        let cs = seq![c];
        assert(cs.drop_last() =~= Seq::<Seq<SelectorPart>>::empty());
        assert(child_rows(ps[k - 1], cs, ps) == child_rows(ps[k - 1], cs.drop_last(), ps) + join_rows(ps[k - 1], c, ps));
        assert(child_rows(ps[k - 1], cs, ps) =~= seq![ps[k - 1] + s]);
        assert(ps.take(k).map_values(|p: Seq<SelectorPart>| p + s) =~= ps.take(k - 1).map_values(
            |p: Seq<SelectorPart>| p + s,
        ).push(ps[k - 1] + s));
    }
}

} // verus!
