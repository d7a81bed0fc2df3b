//! Choosing how each variant renders, from its field shape and its directives.
use vstd::prelude::*;
use crate::directive::{
    ignored, is_ignored, parse_annotation, parse_spec, Directive, Keyword, Parsed, TestSpec,
};
use crate::model::{Annotation, Field, Shape, Variant};

verus! {

/// What the directives of one variant amount to, taken in order.
pub struct Summary {
    /// The last template.
    pub template: Option<String>,
    /// The last new name.
    pub rename: Option<String>,
    /// The last rendering function.
    pub with: Option<String>,
    /// How many templates and rendering functions there are.
    pub n_rule: nat,
    /// How many new names there are.
    pub n_rename: nat,
    /// The first unusable `rename` or `with` value.
    pub bad: Option<Keyword>,
    /// The example tests, in order.
    pub tests: Seq<TestSpec>,
}

pub open spec fn empty_summary() -> Summary {
    Summary {
        template: None,
        rename: None,
        with: None,
        n_rule: 0,
        n_rename: 0,
        bad: None,
        tests: Seq::empty(),
    }
}

/// Adds one parsed annotation to a summary.
pub open spec fn step(s: Summary, p: Parsed) -> Summary {
    match p {
        Parsed::Directive(Directive::Template(t)) => Summary {
            template: Some(t),
            n_rule: s.n_rule + 1,
            ..s
        },
        Parsed::Directive(Directive::Rename(n)) => Summary {
            rename: Some(n),
            n_rename: s.n_rename + 1,
            ..s
        },
        Parsed::Directive(Directive::With(f)) => Summary { with: Some(f), n_rule: s.n_rule + 1, ..s },
        Parsed::Directive(Directive::BadValue(k)) => Summary {
            bad: if s.bad is Some {
                s.bad
            } else {
                Some(k)
            },
            ..s
        },
        Parsed::Directive(Directive::Test(ts)) => Summary { tests: s.tests.push(ts), ..s },
        _ => s,
    }
}

pub open spec fn summarize(anns: Seq<Annotation>) -> Summary
    decreases anns.len(),
{
    if anns.len() == 0 {
        empty_summary()
    } else {
        step(summarize(anns.drop_last()), parse_spec(anns.last()))
    }
}

/// Whether one of the annotations is a `test` directive off the grammar.
pub open spec fn has_broken_test(anns: Seq<Annotation>) -> bool {
    exists|i: int| 0 <= i < anns.len() && parse_spec(#[trigger] anns[i]) is BrokenTest
}

/// The directives of a variant, gathered.
pub struct DirectiveSet {
    pub template: Option<String>,
    pub rename: Option<String>,
    pub with: Option<String>,
    pub n_rule: usize,
    pub n_rename: usize,
    pub bad: Option<Keyword>,
    pub tests: Vec<TestSpec>,
}

impl View for DirectiveSet {
    type V = Summary;

    open spec fn view(&self) -> Summary {
        Summary {
            template: self.template,
            rename: self.rename,
            with: self.with,
            n_rule: self.n_rule as nat,
            n_rename: self.n_rename as nat,
            bad: self.bad,
            tests: self.tests@,
        }
    }
}

/// A `test` directive off the grammar, on the named variant: the whole
/// generation is abandoned.
#[derive(Clone, Debug, PartialEq, Eq)]
pub struct BrokenTestDirective {
    pub variant: String,
}

/// Gathers the directives of a variant, or reports a broken `test` directive.
pub fn collect_directives(v: &Variant) -> (r: Result<DirectiveSet, BrokenTestDirective>)
    ensures
        r is Err <==> has_broken_test(v.annotations@),
        r is Ok ==> r->Ok_0@ == summarize(v.annotations@),
        r is Err ==> r->Err_0.variant == v.name,
{
    let anns = &v.annotations;
    let n = anns.len();
    let mut acc = DirectiveSet {
        template: None,
        rename: None,
        with: None,
        n_rule: 0,
        n_rename: 0,
        bad: None,
        tests: Vec::new(),
    };
    let mut i: usize = 0;
    while i < n
        invariant
            anns@ == v.annotations@,
            n == anns@.len(),
            i <= n,
            acc.n_rule <= i,
            acc.n_rename <= i,
            acc@ == summarize(anns@.subrange(0, i as int)),
            forall|j: int| 0 <= j < i ==> !(parse_spec(#[trigger] anns@[j]) is BrokenTest),
        decreases n - i,
    {
        let p = parse_annotation(&anns[i]);
        assert(anns@.subrange(0, i + 1).drop_last() =~= anns@.subrange(0, i as int));
        match p {
            Parsed::Directive(Directive::Template(t)) => {
                acc.template = Some(t);
                acc.n_rule = acc.n_rule + 1;
            },
            Parsed::Directive(Directive::Rename(nm)) => {
                acc.rename = Some(nm);
                acc.n_rename = acc.n_rename + 1;
            },
            Parsed::Directive(Directive::With(f)) => {
                acc.with = Some(f);
                acc.n_rule = acc.n_rule + 1;
            },
            Parsed::Directive(Directive::BadValue(k)) => {
                if acc.bad.is_none() {
                    acc.bad = Some(k);
                }
            },
            Parsed::Directive(Directive::Test(ts)) => {
                acc.tests.push(ts);
            },
            Parsed::Ignored => {},
            Parsed::BrokenTest => {
                assert(parse_spec(anns@[i as int]) is BrokenTest);
                return Err(BrokenTestDirective { variant: v.name.clone() });
            },
        }
        i = i + 1;
    }
    assert(anns@.subrange(0, n as int) =~= anns@);
    Ok(acc)
}

/// A variant that cannot get a working arm.
#[derive(Clone, Copy, Debug, PartialEq, Eq)]
pub enum Diagnostic {
    /// `rename` given something other than a string literal.
    BadRename,
    /// `with` given something other than a string literal naming a function.
    BadWith,
    /// More than one template or rendering function, or more than one new name.
    Conflict,
    /// Named fields and no template.
    MissingTemplate,
}

/// How a variant renders.
#[derive(Clone, Debug, PartialEq, Eq)]
pub enum Rule {
    /// A unit variant: its new name where it has one, else its declared name.
    Name(String),
    /// A unit variant with a template: the template as it stands.
    Verbatim(String),
    /// Positional fields and no template: the declared name, then the shown
    /// values separated by spaces, in double quotes.
    Spaced { name: String, shown: Vec<usize> },
    /// Positional fields and a template: the shown values by position.
    Positional { template: String, shown: Vec<usize> },
    /// Named fields and a template: the shown values by name.
    Named { template: String, shown: Vec<String> },
    /// A function of the user's renders the value.
    Delegate(String),
}

/// The positions of the fields that are not ignored, in order.
pub open spec fn shown_indices(fs: Seq<Field>) -> Seq<usize>
    decreases fs.len(),
{
    if fs.len() == 0 {
        Seq::empty()
    } else if ignored(fs.last()) {
        shown_indices(fs.drop_last())
    } else {
        shown_indices(fs.drop_last()).push((fs.len() - 1) as usize)
    }
}

/// The names of the fields that are not ignored, in order.
pub open spec fn shown_names(fs: Seq<Field>) -> Seq<String>
    decreases fs.len(),
{
    if fs.len() == 0 {
        Seq::empty()
    } else if ignored(fs.last()) {
        shown_names(fs.drop_last())
    } else {
        shown_names(fs.drop_last()).push(fs.last().name)
    }
}

/// The name a unit variant renders under when nothing else decides: its new
/// name where it has one, else its declared name.
pub open spec fn display_name(v: Variant, s: Summary) -> Seq<char> {
    match s.rename {
        Some(n) => n@,
        None => v.name@,
    }
}

pub open spec fn bad_diagnostic(k: Keyword) -> Diagnostic {
    match k {
        Keyword::Rename => Diagnostic::BadRename,
        Keyword::With => Diagnostic::BadWith,
    }
}

/// Whether `r` is the rendering rule of `v` under the directives `s`.
pub open spec fn is_rule_of(v: Variant, s: Summary, r: Result<Rule, Diagnostic>) -> bool {
    if s.bad is Some {
        r == Err::<Rule, Diagnostic>(bad_diagnostic(s.bad->Some_0))
    } else if s.n_rule > 1 || s.n_rename > 1 {
        r == Err::<Rule, Diagnostic>(Diagnostic::Conflict)
    } else if s.with is Some {
        r == Ok::<Rule, Diagnostic>(Rule::Delegate(s.with->Some_0))
    } else {
        match (v.shape, s.template) {
            (Shape::Unit, None) => match r {
                Ok(Rule::Name(n)) => n@ == display_name(v, s),
                _ => false,
            },
            (Shape::Unit, Some(t)) => r == Ok::<Rule, Diagnostic>(Rule::Verbatim(t)),
            (Shape::Positional(fs), None) => match r {
                Ok(Rule::Spaced { name, shown }) => name@ == v.name@ && shown@
                    == shown_indices(fs@),
                _ => false,
            },
            (Shape::Positional(fs), Some(t)) => match r {
                Ok(Rule::Positional { template, shown }) => template == t && shown@
                    == shown_indices(fs@),
                _ => false,
            },
            (Shape::Named(_), None) => r == Err::<Rule, Diagnostic>(Diagnostic::MissingTemplate),
            (Shape::Named(fs), Some(t)) => match r {
                Ok(Rule::Named { template, shown }) => template == t && shown@ == shown_names(
                    fs@,
                ),
                _ => false,
            },
        }
    }
}

/// The positions of the fields that are not ignored.
pub fn shown_index_list(fs: &Vec<Field>) -> (r: Vec<usize>)
    ensures
        r@ == shown_indices(fs@),
{
    let n = fs.len();
    let mut r: Vec<usize> = Vec::new();
    let mut i: usize = 0;
    while i < n
        invariant
            n == fs@.len(),
            i <= n,
            r@ == shown_indices(fs@.subrange(0, i as int)),
        decreases n - i,
    {
        assert(fs@.subrange(0, i + 1).drop_last() =~= fs@.subrange(0, i as int));
        if !is_ignored(&fs[i]) {
            r.push(i);
        }
        i = i + 1;
    }
    assert(fs@.subrange(0, n as int) =~= fs@);
    r
}

/// The names of the fields that are not ignored.
pub fn shown_name_list(fs: &Vec<Field>) -> (r: Vec<String>)
    ensures
        r@ == shown_names(fs@),
{
    let n = fs.len();
    let mut r: Vec<String> = Vec::new();
    let mut i: usize = 0;
    while i < n
        invariant
            n == fs@.len(),
            i <= n,
            r@ == shown_names(fs@.subrange(0, i as int)),
        decreases n - i,
    {
        assert(fs@.subrange(0, i + 1).drop_last() =~= fs@.subrange(0, i as int));
        if !is_ignored(&fs[i]) {
            r.push(fs[i].name.clone());
        }
        i = i + 1;
    }
    assert(fs@.subrange(0, n as int) =~= fs@);
    r
}

/// Chooses the rendering rule of a variant, or the diagnostic that replaces
/// its arm.
pub fn select_rule(v: &Variant, ds: &DirectiveSet) -> (r: Result<Rule, Diagnostic>)
    ensures
        is_rule_of(*v, ds@, r),
{
    if let Some(k) = ds.bad {
        return Err(
            match k {
                Keyword::Rename => Diagnostic::BadRename,
                Keyword::With => Diagnostic::BadWith,
            },
        );
    }
    if ds.n_rule > 1 || ds.n_rename > 1 {
        return Err(Diagnostic::Conflict);
    }
    if let Some(f) = &ds.with {
        return Ok(Rule::Delegate(f.clone()));
    }
    match (&v.shape, &ds.template) {
        (Shape::Unit, None) => Ok(
            Rule::Name(
                match &ds.rename {
                    Some(n) => n.clone(),
                    None => v.name.clone(),
                },
            ),
        ),
        (Shape::Unit, Some(t)) => Ok(Rule::Verbatim(t.clone())),
        (Shape::Positional(fs), None) => Ok(
            Rule::Spaced { name: v.name.clone(), shown: shown_index_list(fs) },
        ),
        (Shape::Positional(fs), Some(t)) => Ok(
            Rule::Positional { template: t.clone(), shown: shown_index_list(fs) },
        ),
        (Shape::Named(_), None) => Err(Diagnostic::MissingTemplate),
        (Shape::Named(fs), Some(t)) => Ok(
            Rule::Named { template: t.clone(), shown: shown_name_list(fs) },
        ),
    }
}

} // verus!
