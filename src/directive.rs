//! The `expand_to` directive grammar.
use vstd::prelude::*;
use crate::model::{Annotation, Delim, Field, Tok};
use crate::text::{is_ident, is_identifier, same_text};

verus! {

/// The keywords of the `<keyword> = <value>` directives.
#[derive(Clone, Copy, Debug, PartialEq, Eq)]
pub enum Keyword {
    Rename,
    With,
}

/// The arguments of an example test, as written: `(...)` or `{...}`.
#[derive(Clone, Debug, PartialEq, Eq)]
pub struct TestArgs {
    pub delim: Delim,
    pub text: String,
}

/// An example test: constructor arguments, if any, and the expected rendering.
#[derive(Clone, Debug, PartialEq, Eq)]
pub struct TestSpec {
    pub args: Option<TestArgs>,
    pub expected: String,
}

/// A recognized directive.
#[derive(Clone, Debug, PartialEq, Eq)]
pub enum Directive {
    /// `expand_to("...")`: a template, by its value.
    Template(String),
    /// `expand_to(rename = "...")`.
    Rename(String),
    /// `expand_to(with = "...")`: the name of the rendering function.
    With(String),
    /// `rename` or `with` given a value other than a string literal, or,
    /// for `with`, one that does not name a function.
    BadValue(Keyword),
    /// `expand_to(test = ... => "...")`.
    Test(TestSpec),
}

/// What one annotation amounts to.
#[derive(Clone, Debug, PartialEq, Eq)]
pub enum Parsed {
    Directive(Directive),
    /// Not a directive: left to whoever else reads it.
    Ignored,
    /// A `test` directive that does not follow the grammar.
    BrokenTest,
}

pub open spec fn is_word(t: Tok, w: Seq<char>) -> bool {
    match t {
        Tok::Ident(s) => s@ == w,
        _ => false,
    }
}

pub open spec fn is_punct(t: Tok, c: char) -> bool {
    match t {
        Tok::Punct(p, _) => p == c,
        _ => false,
    }
}

/// `=` glued to the next character, the first half of `=>`.
pub open spec fn is_joint_eq(t: Tok) -> bool {
    match t {
        Tok::Punct(p, joint) => p == '=' && joint,
        _ => false,
    }
}

pub open spec fn keyword_of(t: Tok) -> Option<Keyword> {
    if is_word(t, "rename"@) {
        Some(Keyword::Rename)
    } else if is_word(t, "with"@) {
        Some(Keyword::With)
    } else {
        None
    }
}

/// `<keyword> = <value>`: usable only as one string literal.
pub open spec fn keyword_directive(k: Keyword, value: Tok) -> Directive {
    match value {
        Tok::Str(v) => match k {
            Keyword::Rename => Directive::Rename(v),
            Keyword::With => if is_ident(v@) {
                Directive::With(v)
            } else {
                Directive::BadValue(Keyword::With)
            },
        },
        _ => Directive::BadValue(k),
    }
}

/// `test = <group>? => <string>`, where `t[0]` is the word `test`.
pub open spec fn test_of(t: Seq<Tok>) -> Option<TestSpec> {
    if t.len() == 5 && is_punct(t[1], '=') && is_joint_eq(t[2]) && is_punct(t[3], '>')
        && t[4] is Str {
        Some(TestSpec { args: None, expected: t[4]->Str_0 })
    } else if t.len() == 6 && is_punct(t[1], '=') && is_joint_eq(t[3]) && is_punct(t[4], '>')
        && t[5] is Str && t[2] is Group && (t[2]->Group_0 == Delim::Paren || t[2]->Group_0
        == Delim::Brace) {
        Some(
            TestSpec {
                args: Some(TestArgs { delim: t[2]->Group_0, text: t[2]->Group_1 }),
                expected: t[5]->Str_0,
            },
        )
    } else {
        None
    }
}

/// The meaning of the tokens inside `expand_to(...)`.
pub open spec fn parse_args(t: Seq<Tok>) -> Parsed {
    if t.len() == 1 && t[0] is Str {
        Parsed::Directive(Directive::Template(t[0]->Str_0))
    } else if t.len() >= 3 && keyword_of(t[0]) is Some && is_punct(t[1], '=') {
        if t.len() == 3 {
            Parsed::Directive(keyword_directive(keyword_of(t[0])->Some_0, t[2]))
        } else {
            Parsed::Directive(Directive::BadValue(keyword_of(t[0])->Some_0))
        }
    } else if t.len() >= 1 && is_word(t[0], "test"@) {
        match test_of(t) {
            Some(ts) => Parsed::Directive(Directive::Test(ts)),
            None => Parsed::BrokenTest,
        }
    } else {
        Parsed::Ignored
    }
}

/// The meaning of an annotation: only `expand_to(...)` carries directives.
pub open spec fn parse_spec(a: Annotation) -> Parsed {
    if a.path@ == "expand_to"@ && a.args is Some {
        parse_args(a.args->Some_0@)
    } else {
        Parsed::Ignored
    }
}

/// `expand_to(ignore)`.
pub open spec fn is_ignore_flag(a: Annotation) -> bool {
    &&& a.path@ == "expand_to"@
    &&& a.args is Some
    &&& a.args->Some_0@.len() == 1
    &&& is_word(a.args->Some_0@[0], "ignore"@)
}

/// A field is left out of the rendered values when it carries `expand_to(ignore)`.
pub open spec fn ignored(f: Field) -> bool {
    exists|i: int| 0 <= i < f.annotations@.len() && is_ignore_flag(#[trigger] f.annotations@[i])
}

fn word_is(t: &Tok, w: &str) -> (r: bool)
    ensures
        r == is_word(*t, w@),
{
    match t {
        Tok::Ident(s) => same_text(s.as_str(), w),
        _ => false,
    }
}

fn punct_is(t: &Tok, c: char) -> (r: bool)
    ensures
        r == is_punct(*t, c),
{
    match t {
        Tok::Punct(p, _) => *p == c,
        _ => false,
    }
}

fn parse_test(t: &Vec<Tok>) -> (r: Option<TestSpec>)
    ensures
        r == test_of(t@),
{
    let n = t.len();
    if n == 5 {
        if let (Tok::Punct('=', true), Tok::Str(e)) = (&t[2], &t[4]) {
            if punct_is(&t[1], '=') && punct_is(&t[3], '>') {
                return Some(TestSpec { args: None, expected: e.clone() });
            }
        }
    } else if n == 6 {
        if let (Tok::Group(d, text), Tok::Punct('=', true), Tok::Str(e)) = (&t[2], &t[3], &t[5]) {
            let delim_ok = match d {
                Delim::Paren => true,
                Delim::Brace => true,
                _ => false,
            };
            if punct_is(&t[1], '=') && punct_is(&t[4], '>') && delim_ok {
                return Some(
                    TestSpec {
                        args: Some(TestArgs { delim: *d, text: text.clone() }),
                        expected: e.clone(),
                    },
                );
            }
        }
    }
    None
}

/// Parses one annotation into the directive it carries, if any.
pub fn parse_annotation(a: &Annotation) -> (r: Parsed)
    ensures
        r == parse_spec(*a),
{
    if !same_text(a.path.as_str(), "expand_to") {
        return Parsed::Ignored;
    }
    let t = match &a.args {
        Some(t) => t,
        None => {
            return Parsed::Ignored;
        },
    };
    let n = t.len();
    if n == 1 {
        if let Tok::Str(s) = &t[0] {
            return Parsed::Directive(Directive::Template(s.clone()));
        }
    }
    if n >= 3 && punct_is(&t[1], '=') {
        let key = if word_is(&t[0], "rename") {
            Some(Keyword::Rename)
        } else if word_is(&t[0], "with") {
            Some(Keyword::With)
        } else {
            None
        };
        if let Some(k) = key {
            if n > 3 {
                return Parsed::Directive(Directive::BadValue(k));
            }
            match &t[2] {
                Tok::Str(v) => {
                    return Parsed::Directive(
                        match k {
                            Keyword::Rename => Directive::Rename(v.clone()),
                            Keyword::With => if is_identifier(v.as_str()) {
                                Directive::With(v.clone())
                            } else {
                                Directive::BadValue(Keyword::With)
                            },
                        },
                    );
                },
                _ => {
                    return Parsed::Directive(Directive::BadValue(k));
                },
            }
        }
    }
    if n >= 1 && word_is(&t[0], "test") {
        return match parse_test(t) {
            Some(ts) => Parsed::Directive(Directive::Test(ts)),
            None => Parsed::BrokenTest,
        };
    }
    Parsed::Ignored
}

/// Whether the field carries `expand_to(ignore)`.
pub fn is_ignored(f: &Field) -> (r: bool)
    ensures
        r == ignored(*f),
{
    let n = f.annotations.len();
    let mut i: usize = 0;
    while i < n
        invariant
            n == f.annotations@.len(),
            i <= n,
            forall|j: int| 0 <= j < i ==> !is_ignore_flag(#[trigger] f.annotations@[j]),
        decreases n - i,
    {
        let a = &f.annotations[i];
        if same_text(a.path.as_str(), "expand_to") {
            if let Some(t) = &a.args {
                if t.len() == 1 && word_is(&t[0], "ignore") {
                    return true;
                }
            }
        }
        i = i + 1;
    }
    false
}

} // verus!
