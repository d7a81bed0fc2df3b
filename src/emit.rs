//! Writing the generated source text: one match arm per variant, one example
//! test per `test` directive.
use vstd::prelude::*;
use crate::classify::{
    bad_diagnostic, display_name, is_rule_of, shown_indices, shown_names, Diagnostic,
    DirectiveSet, Rule, Summary,
};
use crate::directive::{TestArgs, TestSpec};
use crate::model::{Delim, Field, Shape, Variant};
use crate::text::{decimal, push_char, push_decimal, push_quoted, push_str, quoted};

verus! {

/// `p_0, p_1, ..., ` for the first `n` positions.
pub open spec fn bindings(n: nat) -> Seq<char>
    decreases n,
{
    if n == 0 {
        Seq::empty()
    } else {
        bindings((n - 1) as nat) + "p_"@ + decimal((n - 1) as nat) + ", "@
    }
}

/// `a, b, ..., ` for the field names.
pub open spec fn field_bindings(fs: Seq<Field>) -> Seq<char>
    decreases fs.len(),
{
    if fs.len() == 0 {
        Seq::empty()
    } else {
        field_bindings(fs.drop_last()) + fs.last().name@ + ", "@
    }
}

/// The pattern that binds every field of the variant, ignored ones included.
pub open spec fn binding_pattern(e: Seq<char>, v: Variant) -> Seq<char> {
    match v.shape {
        Shape::Unit => e + "::"@ + v.name@,
        Shape::Positional(fs) => e + "::"@ + v.name@ + "("@ + bindings(fs@.len()) + ")"@,
        Shape::Named(fs) => e + "::"@ + v.name@ + "{"@ + field_bindings(fs@) + "}"@,
    }
}

/// The pattern that matches the variant and binds nothing.
pub open spec fn wildcard_pattern(e: Seq<char>, v: Variant) -> Seq<char> {
    match v.shape {
        Shape::Unit => e + "::"@ + v.name@,
        Shape::Positional(_) => e + "::"@ + v.name@ + "(..)"@,
        Shape::Named(_) => e + "::"@ + v.name@ + "{..}"@,
    }
}

/// `k` placeholders separated by single spaces.
pub open spec fn placeholders(k: nat) -> Seq<char>
    decreases k,
{
    if k == 0 {
        Seq::empty()
    } else if k == 1 {
        "{}"@
    } else {
        placeholders((k - 1) as nat) + " {}"@
    }
}

/// The template of the default positional rule: the name, then the `k`
/// values in double quotes.
pub open spec fn spaced_template(k: nat) -> Seq<char> {
    "{} \""@ + placeholders(k) + "\""@
}

/// `p_i, ` for each shown position.
pub open spec fn index_args(shown: Seq<usize>) -> Seq<char>
    decreases shown.len(),
{
    if shown.len() == 0 {
        Seq::empty()
    } else {
        index_args(shown.drop_last()) + "p_"@ + decimal(shown.last() as nat) + ", "@
    }
}

/// `a = a, ` for each shown name.
pub open spec fn name_args(shown: Seq<String>) -> Seq<char>
    decreases shown.len(),
{
    if shown.len() == 0 {
        Seq::empty()
    } else {
        name_args(shown.drop_last()) + shown.last()@ + " = "@ + shown.last()@ + ", "@
    }
}

pub open spec fn message_text(d: Diagnostic) -> Seq<char> {
    match d {
        Diagnostic::BadRename => "`rename` must be followed by a string literal, eg #[expand_to(rename = \"example\")]"@,
        Diagnostic::BadWith => "`with` must be followed by a string literal naming a function, eg #[expand_to(with = \"my_custom_function\")]"@,
        Diagnostic::Conflict => "a variant takes at most one template or `with`, and at most one `rename`"@,
        Diagnostic::MissingTemplate => "Named fields require an explicit expansion attribute"@,
    }
}

/// The expression that reports a diagnostic at compile time.
pub open spec fn diagnostic_expr(d: Diagnostic) -> Seq<char> {
    "compile_error!("@ + quoted(message_text(d)) + ")"@
}

pub open spec fn literal_expr(s: Seq<char>) -> Seq<char> {
    quoted(s) + ".to_string()"@
}

pub open spec fn spaced_expr(name: Seq<char>, shown: Seq<usize>) -> Seq<char> {
    "format!("@ + quoted(spaced_template(shown.len())) + ", "@ + quoted(name) + ", "@ + index_args(
        shown,
    ) + ")"@
}

pub open spec fn positional_expr(t: Seq<char>, shown: Seq<usize>) -> Seq<char> {
    "format!("@ + quoted(t) + ", "@ + index_args(shown) + ")"@
}

pub open spec fn named_expr(t: Seq<char>, shown: Seq<String>) -> Seq<char> {
    "format!("@ + quoted(t) + ", "@ + name_args(shown) + ")"@
}

pub open spec fn delegate_expr(f: Seq<char>) -> Seq<char> {
    "format!(\"{}\", "@ + f + "(self))"@
}

pub open spec fn arm(pattern: Seq<char>, expr: Seq<char>) -> Seq<char> {
    "            "@ + pattern + " => "@ + expr + ",\n"@
}

/// The match arm of variant `v` of union `e` under the directives `s`.
pub open spec fn arm_spec(e: Seq<char>, v: Variant, s: Summary) -> Seq<char> {
    if s.bad is Some {
        arm(wildcard_pattern(e, v), diagnostic_expr(bad_diagnostic(s.bad->Some_0)))
    } else if s.n_rule > 1 || s.n_rename > 1 {
        arm(wildcard_pattern(e, v), diagnostic_expr(Diagnostic::Conflict))
    } else if s.with is Some {
        arm(wildcard_pattern(e, v), delegate_expr(s.with->Some_0@))
    } else {
        match (v.shape, s.template) {
            (Shape::Unit, None) => arm(binding_pattern(e, v), literal_expr(display_name(v, s))),
            (Shape::Unit, Some(t)) => arm(binding_pattern(e, v), literal_expr(t@)),
            (Shape::Positional(fs), None) => arm(
                binding_pattern(e, v),
                spaced_expr(v.name@, shown_indices(fs@)),
            ),
            (Shape::Positional(fs), Some(t)) => arm(
                binding_pattern(e, v),
                positional_expr(t@, shown_indices(fs@)),
            ),
            (Shape::Named(_), None) => arm(
                wildcard_pattern(e, v),
                diagnostic_expr(Diagnostic::MissingTemplate),
            ),
            (Shape::Named(fs), Some(t)) => arm(
                binding_pattern(e, v),
                named_expr(t@, shown_names(fs@)),
            ),
        }
    }
}

fn message(d: Diagnostic) -> (r: &'static str)
    ensures
        r@ == message_text(d),
{
    match d {
        Diagnostic::BadRename => "`rename` must be followed by a string literal, eg #[expand_to(rename = \"example\")]",
        Diagnostic::BadWith => "`with` must be followed by a string literal naming a function, eg #[expand_to(with = \"my_custom_function\")]",
        Diagnostic::Conflict => "a variant takes at most one template or `with`, and at most one `rename`",
        Diagnostic::MissingTemplate => "Named fields require an explicit expansion attribute",
    }
}

fn push_bindings(out: &mut String, n: usize)
    ensures
        final(out)@ == old(out)@ + bindings(n as nat),
{
    let mut piece = String::new();
    let mut i: usize = 0;
    while i < n
        invariant
            i <= n,
            piece@ == bindings(i as nat),
        decreases n - i,
    {
        push_str(&mut piece, "p_");
        push_decimal(&mut piece, i);
        push_str(&mut piece, ", ");
        i = i + 1;
    }
    push_str(out, piece.as_str());
}

fn push_field_bindings(out: &mut String, fs: &Vec<Field>)
    ensures
        final(out)@ == old(out)@ + field_bindings(fs@),
{
    let n = fs.len();
    let mut piece = String::new();
    let mut i: usize = 0;
    while i < n
        invariant
            n == fs@.len(),
            i <= n,
            piece@ == field_bindings(fs@.subrange(0, i as int)),
        decreases n - i,
    {
        assert(fs@.subrange(0, i + 1).drop_last() =~= fs@.subrange(0, i as int));
        push_str(&mut piece, fs[i].name.as_str());
        push_str(&mut piece, ", ");
        i = i + 1;
    }
    assert(fs@.subrange(0, n as int) =~= fs@);
    push_str(out, piece.as_str());
}

fn push_head(out: &mut String, e: &str, v: &Variant)
    ensures
        final(out)@ == old(out)@ + e@ + "::"@ + v.name@,
{
    push_str(out, e);
    push_str(out, "::");
    push_str(out, v.name.as_str());
}

fn push_binding_pattern(out: &mut String, e: &str, v: &Variant)
    ensures
        final(out)@ == old(out)@ + binding_pattern(e@, *v),
{
    let ghost start = out@;
    let mut p = String::new();
    push_head(&mut p, e, v);
    match &v.shape {
        Shape::Unit => {},
        Shape::Positional(fs) => {
            push_str(&mut p, "(");
            push_bindings(&mut p, fs.len());
            push_str(&mut p, ")");
        },
        Shape::Named(fs) => {
            push_str(&mut p, "{");
            push_field_bindings(&mut p, fs);
            push_str(&mut p, "}");
        },
    }
    assert(p@ =~= binding_pattern(e@, *v));
    push_str(out, p.as_str());
}

fn push_wildcard_pattern(out: &mut String, e: &str, v: &Variant)
    ensures
        final(out)@ == old(out)@ + wildcard_pattern(e@, *v),
{
    let mut p = String::new();
    push_head(&mut p, e, v);
    match &v.shape {
        Shape::Unit => {},
        Shape::Positional(_) => {
            push_str(&mut p, "(..)");
        },
        Shape::Named(_) => {
            push_str(&mut p, "{..}");
        },
    }
    assert(p@ =~= wildcard_pattern(e@, *v));
    push_str(out, p.as_str());
}

fn push_index_args(out: &mut String, shown: &Vec<usize>)
    ensures
        final(out)@ == old(out)@ + index_args(shown@),
{
    let n = shown.len();
    let mut piece = String::new();
    let mut i: usize = 0;
    while i < n
        invariant
            n == shown@.len(),
            i <= n,
            piece@ == index_args(shown@.subrange(0, i as int)),
        decreases n - i,
    {
        assert(shown@.subrange(0, i + 1).drop_last() =~= shown@.subrange(0, i as int));
        push_str(&mut piece, "p_");
        push_decimal(&mut piece, shown[i]);
        push_str(&mut piece, ", ");
        i = i + 1;
    }
    assert(shown@.subrange(0, n as int) =~= shown@);
    push_str(out, piece.as_str());
}

fn push_name_args(out: &mut String, shown: &Vec<String>)
    ensures
        final(out)@ == old(out)@ + name_args(shown@),
{
    let n = shown.len();
    let mut piece = String::new();
    let mut i: usize = 0;
    while i < n
        invariant
            n == shown@.len(),
            i <= n,
            piece@ == name_args(shown@.subrange(0, i as int)),
        decreases n - i,
    {
        assert(shown@.subrange(0, i + 1).drop_last() =~= shown@.subrange(0, i as int));
        push_str(&mut piece, shown[i].as_str());
        push_str(&mut piece, " = ");
        push_str(&mut piece, shown[i].as_str());
        push_str(&mut piece, ", ");
        i = i + 1;
    }
    assert(shown@.subrange(0, n as int) =~= shown@);
    push_str(out, piece.as_str());
}

/// The template of the default positional rule for `k` shown values.
pub fn spaced_template_text(k: usize) -> (r: String)
    ensures
        r@ == spaced_template(k as nat),
{
    let mut p = String::new();
    let mut i: usize = 0;
    while i < k
        invariant
            i <= k,
            p@ == placeholders(i as nat),
        decreases k - i,
    {
        if i == 0 {
            push_str(&mut p, "{}");
            assert(p@ =~= placeholders(1));
        } else {
            push_str(&mut p, " {}");
        }
        i = i + 1;
    }
    let mut r = String::new();
    push_str(&mut r, "{} \"");
    push_str(&mut r, p.as_str());
    push_str(&mut r, "\"");
    assert(r@ =~= spaced_template(k as nat));
    r
}

/// The expression that renders a variant under its rule.
pub fn rule_expr(r: &Rule) -> (s: String)
    ensures
        s@ == match *r {
            Rule::Name(n) => literal_expr(n@),
            Rule::Verbatim(t) => literal_expr(t@),
            Rule::Spaced { name, shown } => spaced_expr(name@, shown@),
            Rule::Positional { template, shown } => positional_expr(template@, shown@),
            Rule::Named { template, shown } => named_expr(template@, shown@),
            Rule::Delegate(f) => delegate_expr(f@),
        },
{
    let mut s = String::new();
    match r {
        Rule::Name(n) => {
            push_quoted(&mut s, n.as_str());
            push_str(&mut s, ".to_string()");
            assert(s@ =~= literal_expr(n@));
        },
        Rule::Verbatim(t) => {
            push_quoted(&mut s, t.as_str());
            push_str(&mut s, ".to_string()");
            assert(s@ =~= literal_expr(t@));
        },
        Rule::Spaced { name, shown } => {
            let fmt = spaced_template_text(shown.len());
            push_str(&mut s, "format!(");
            push_quoted(&mut s, fmt.as_str());
            push_str(&mut s, ", ");
            push_quoted(&mut s, name.as_str());
            push_str(&mut s, ", ");
            push_index_args(&mut s, shown);
            push_str(&mut s, ")");
            assert(s@ =~= spaced_expr(name@, shown@));
        },
        Rule::Positional { template, shown } => {
            push_str(&mut s, "format!(");
            push_quoted(&mut s, template.as_str());
            push_str(&mut s, ", ");
            push_index_args(&mut s, shown);
            push_str(&mut s, ")");
            assert(s@ =~= positional_expr(template@, shown@));
        },
        Rule::Named { template, shown } => {
            push_str(&mut s, "format!(");
            push_quoted(&mut s, template.as_str());
            push_str(&mut s, ", ");
            push_name_args(&mut s, shown);
            push_str(&mut s, ")");
            assert(s@ =~= named_expr(template@, shown@));
        },
        Rule::Delegate(f) => {
            push_str(&mut s, "format!(\"{}\", ");
            push_str(&mut s, f.as_str());
            push_str(&mut s, "(self))");
            assert(s@ =~= delegate_expr(f@));
        },
    }
    s
}

/// The expression that reports a diagnostic.
pub fn diagnostic_text(d: Diagnostic) -> (s: String)
    ensures
        s@ == diagnostic_expr(d),
{
    let mut s = String::new();
    push_str(&mut s, "compile_error!(");
    push_quoted(&mut s, message(d));
    push_str(&mut s, ")");
    assert(s@ =~= diagnostic_expr(d));
    s
}

/// Writes the match arm of variant `v` of union `e`, given its rule or the
/// diagnostic that replaces it.
pub fn emit_arm(e: &str, v: &Variant, ds: &DirectiveSet, r: &Result<Rule, Diagnostic>) -> (s:
    String)
    requires
        is_rule_of(*v, ds@, *r),
    ensures
        s@ == arm_spec(e@, *v, ds@),
{
    let mut pat = String::new();
    let expr = match r {
        Ok(Rule::Delegate(_)) => {
            push_wildcard_pattern(&mut pat, e, v);
            rule_expr(r.as_ref().unwrap())
        },
        Ok(rule) => {
            push_binding_pattern(&mut pat, e, v);
            rule_expr(rule)
        },
        Err(d) => {
            push_wildcard_pattern(&mut pat, e, v);
            diagnostic_text(*d)
        },
    };
    let mut s = String::new();
    push_str(&mut s, "            ");
    push_str(&mut s, pat.as_str());
    push_str(&mut s, " => ");
    push_str(&mut s, expr.as_str());
    push_str(&mut s, ",\n");
    assert(s@ =~= arm(pat@, expr@));
    s
}

} // verus!
