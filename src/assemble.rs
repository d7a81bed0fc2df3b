//! The whole generated unit: the rendering impl and the example tests.
use vstd::prelude::*;
use crate::classify::{
    collect_directives, has_broken_test, select_rule, summarize, BrokenTestDirective,
};
use crate::directive::{TestArgs, TestSpec};
use crate::emit::{arm_spec, emit_arm};
use crate::model::{Delim, UnionDef, Variant};
use crate::text::{decimal, push_decimal, push_quoted, push_str, quoted};

verus! {

/// The constructor arguments of an example test, as written.
pub open spec fn args_text(a: Option<TestArgs>) -> Seq<char> {
    match a {
        None => Seq::empty(),
        Some(ta) => if ta.delim == Delim::Paren {
            "("@ + ta.text@ + ")"@
        } else {
            "{"@ + ta.text@ + "}"@
        },
    }
}

/// The name of example test `i` of variant `vn`.
pub open spec fn test_name(vn: Seq<char>, i: nat) -> Seq<char> {
    vn + "_"@ + decimal(i)
}

/// Example test `i` of variant `vn` of union `e`: build the value, render it,
/// compare with the expected text.
pub open spec fn test_text(e: Seq<char>, vn: Seq<char>, i: nat, t: TestSpec) -> Seq<char> {
    "    #[test]\n    fn "@ + test_name(vn, i) + "() {\n        let v = "@ + e + "::"@ + vn
        + args_text(t.args) + ";\n        assert_eq!(Expand::expand(&v), "@ + quoted(t.expected@)
        + ");\n    }\n"@
}

/// The example tests of one variant, numbered from zero in order.
pub open spec fn tests_text(e: Seq<char>, vn: Seq<char>, ts: Seq<TestSpec>) -> Seq<char>
    decreases ts.len(),
{
    if ts.len() == 0 {
        Seq::empty()
    } else {
        tests_text(e, vn, ts.drop_last()) + test_text(
            e,
            vn,
            (ts.len() - 1) as nat,
            ts.last(),
        )
    }
}

/// The match arms of all variants, in declaration order.
pub open spec fn union_arms(e: Seq<char>, vs: Seq<Variant>) -> Seq<char>
    decreases vs.len(),
{
    if vs.len() == 0 {
        Seq::empty()
    } else {
        union_arms(e, vs.drop_last()) + arm_spec(e, vs.last(), summarize(vs.last().annotations@))
    }
}

/// The example tests of all variants, in declaration order.
pub open spec fn union_tests(e: Seq<char>, vs: Seq<Variant>) -> Seq<char>
    decreases vs.len(),
{
    if vs.len() == 0 {
        Seq::empty()
    } else {
        union_tests(e, vs.drop_last()) + tests_text(
            e,
            vs.last().name@,
            summarize(vs.last().annotations@).tests,
        )
    }
}

/// The generated unit for union `e`.
pub open spec fn unit_text(e: Seq<char>, arms: Seq<char>, tests: Seq<char>) -> Seq<char> {
    "impl Expand for "@ + e
        + " {\n    fn expand(&self) -> String {\n        #[allow(unused)]\n        #[allow(clippy::useless_format)]\n        match self {\n"@
        + arms + "        }\n    }\n}\n\n#[cfg(test)]\n#[allow(non_snake_case)]\nmod _GENERATED_TESTS_FOR_"@
        + e + " {\n    use super::*;\n\n"@ + tests + "}\n"@
}

/// Whether variant `i` is the first with a broken `test` directive.
pub open spec fn first_broken(vs: Seq<Variant>, i: int) -> bool {
    &&& 0 <= i < vs.len()
    &&& has_broken_test(vs[i].annotations@)
    &&& forall|j: int| 0 <= j < i ==> !has_broken_test(#[trigger] vs[j].annotations@)
}

/// Writes example test `i` of variant `vn` of union `e`.
pub fn emit_test(e: &str, vn: &str, i: usize, t: &TestSpec) -> (s: String)
    ensures
        s@ == test_text(e@, vn@, i as nat, *t),
{
    let mut s = String::new();
    push_str(&mut s, "    #[test]\n    fn ");
    push_str(&mut s, vn);
    push_str(&mut s, "_");
    push_decimal(&mut s, i);
    push_str(&mut s, "() {\n        let v = ");
    push_str(&mut s, e);
    push_str(&mut s, "::");
    push_str(&mut s, vn);
    let ghost before_args = s@;
    match &t.args {
        None => {},
        Some(ta) => {
            match ta.delim {
                Delim::Paren => {
                    push_str(&mut s, "(");
                    push_str(&mut s, ta.text.as_str());
                    push_str(&mut s, ")");
                },
                _ => {
                    push_str(&mut s, "{");
                    push_str(&mut s, ta.text.as_str());
                    push_str(&mut s, "}");
                },
            }
        },
    }
    assert(s@ =~= before_args + args_text(t.args));
    push_str(&mut s, ";\n        assert_eq!(Expand::expand(&v), ");
    push_quoted(&mut s, t.expected.as_str());
    push_str(&mut s, ");\n    }\n");
    assert(s@ =~= test_text(e@, vn@, i as nat, *t));
    s
}

/// Writes the example tests of variant `vn` of union `e`.
pub fn emit_tests(e: &str, vn: &str, ts: &Vec<TestSpec>) -> (s: String)
    ensures
        s@ == tests_text(e@, vn@, ts@),
{
    let n = ts.len();
    let mut s = String::new();
    let mut i: usize = 0;
    while i < n
        invariant
            n == ts@.len(),
            i <= n,
            s@ == tests_text(e@, vn@, ts@.subrange(0, i as int)),
        decreases n - i,
    {
        assert(ts@.subrange(0, i + 1).drop_last() =~= ts@.subrange(0, i as int));
        let t = emit_test(e, vn, i, &ts[i]);
        push_str(&mut s, t.as_str());
        i = i + 1;
    }
    assert(ts@.subrange(0, n as int) =~= ts@);
    s
}

/// Puts the arms and the tests of union `e` together.
pub fn assemble(e: &str, arms: &str, tests: &str) -> (s: String)
    ensures
        s@ == unit_text(e@, arms@, tests@),
{
    let mut s = String::new();
    push_str(&mut s, "impl Expand for ");
    push_str(&mut s, e);
    push_str(
        &mut s,
        " {\n    fn expand(&self) -> String {\n        #[allow(unused)]\n        #[allow(clippy::useless_format)]\n        match self {\n",
    );
    push_str(&mut s, arms);
    push_str(
        &mut s,
        "        }\n    }\n}\n\n#[cfg(test)]\n#[allow(non_snake_case)]\nmod _GENERATED_TESTS_FOR_",
    );
    push_str(&mut s, e);
    push_str(&mut s, " {\n    use super::*;\n\n");
    push_str(&mut s, tests);
    push_str(&mut s, "}\n");
    assert(s@ =~= unit_text(e@, arms@, tests@));
    s
}

/// Generates the rendering impl and the example tests of a tagged union, or
/// reports the first variant with a broken `test` directive.
pub fn generate(def: &UnionDef) -> (r: Result<String, BrokenTestDirective>)
    ensures
        r is Err <==> exists|i: int| first_broken(def.variants@, i),
        r is Err ==> exists|i: int|
            first_broken(def.variants@, i) && r->Err_0.variant == def.variants@[i].name,
        r is Ok ==> r->Ok_0@ == unit_text(
            def.name@,
            union_arms(def.name@, def.variants@),
            union_tests(def.name@, def.variants@),
        ),
{
    let e = def.name.as_str();
    let vs = &def.variants;
    let n = vs.len();
    let mut arms = String::new();
    let mut tests = String::new();
    let mut i: usize = 0;
    while i < n
        invariant
            e@ == def.name@,
            vs@ == def.variants@,
            n == vs@.len(),
            i <= n,
            arms@ == union_arms(e@, vs@.subrange(0, i as int)),
            tests@ == union_tests(e@, vs@.subrange(0, i as int)),
            forall|j: int| 0 <= j < i ==> !has_broken_test(#[trigger] vs@[j].annotations@),
        decreases n - i,
    {
        let v = &vs[i];
        assert(vs@.subrange(0, i + 1).drop_last() =~= vs@.subrange(0, i as int));
        assert(vs@.subrange(0, i + 1).last() == vs@[i as int]);
        let ds = match collect_directives(v) {
            Ok(ds) => ds,
            Err(b) => {
                assert(first_broken(def.variants@, i as int));
                return Err(b);
            },
        };
        let rule = select_rule(v, &ds);
        let a = emit_arm(e, v, &ds, &rule);
        push_str(&mut arms, a.as_str());
        let t = emit_tests(e, v.name.as_str(), &ds.tests);
        push_str(&mut tests, t.as_str());
        i = i + 1;
    }
    assert(vs@.subrange(0, n as int) =~= vs@);
    assert forall|i: int| !first_broken(def.variants@, i) by {}
    Ok(assemble(e, arms.as_str(), tests.as_str()))
}

} // verus!
