//! Properties of the generated code, stated over the specification functions
//! that the generating functions are proved against.
use vstd::prelude::*;
use crate::assemble::{test_name, tests_text, test_text, union_arms, union_tests};
use crate::classify::{display_name, is_rule_of, shown_indices, summarize, Diagnostic, Rule, Summary};
use crate::directive::ignored;
use crate::emit::{
    placeholders, spaced_template, arm, arm_spec, binding_pattern, diagnostic_expr, literal_expr, spaced_expr, wildcard_pattern,
};
use crate::model::{Annotation, Field, Shape, Variant};
use crate::text::{decimal, digit_char, escaped, escaping_reads_back, unescaped};

verus! {

/// A template or a rendering function is counted, and so is a new name.
pub proof fn lemma_summary_counts(anns: Seq<Annotation>)
    ensures
        summarize(anns).template is Some ==> summarize(anns).n_rule >= 1,
        summarize(anns).with is Some ==> summarize(anns).n_rule >= 1,
        summarize(anns).rename is Some ==> summarize(anns).n_rename >= 1,
    decreases anns.len(),
{
    if anns.len() > 0 {
        lemma_summary_counts(anns.drop_last());
    }
}

/// The arms of two lists of variants are the arms of each, one after the other.
pub proof fn lemma_arms_concat(e: Seq<char>, a: Seq<Variant>, b: Seq<Variant>)
    ensures
        union_arms(e, a + b) == union_arms(e, a) + union_arms(e, b),
    decreases b.len(),
{
    if b.len() == 0 {
        assert(a + b =~= a);
        assert(union_arms(e, b) =~= Seq::empty());
        assert(union_arms(e, a) + union_arms(e, b) =~= union_arms(e, a));
    } else {
        assert((a + b).drop_last() =~= a + b.drop_last());
        assert((a + b).last() == b.last());
        lemma_arms_concat(e, a, b.drop_last());
        let x = arm_spec(e, b.last(), summarize(b.last().annotations@));
        assert(union_arms(e, a) + union_arms(e, b.drop_last()) + x =~= union_arms(e, a) + (
        union_arms(e, b.drop_last()) + x));
    }
}

/// The tests of two lists of variants are the tests of each, one after the other.
pub proof fn lemma_tests_concat(e: Seq<char>, a: Seq<Variant>, b: Seq<Variant>)
    ensures
        union_tests(e, a + b) == union_tests(e, a) + union_tests(e, b),
    decreases b.len(),
{
    if b.len() == 0 {
        assert(a + b =~= a);
        assert(union_tests(e, b) =~= Seq::empty());
        assert(union_tests(e, a) + union_tests(e, b) =~= union_tests(e, a));
    } else {
        assert((a + b).drop_last() =~= a + b.drop_last());
        assert((a + b).last() == b.last());
        lemma_tests_concat(e, a, b.drop_last());
        let x = tests_text(e, b.last().name@, summarize(b.last().annotations@).tests);
        assert(union_tests(e, a) + union_tests(e, b.drop_last()) + x =~= union_tests(e, a) + (
        union_tests(e, b.drop_last()) + x));
    }
}

/// The arm of one variant stands between the arms of the variants before it
/// and those after it.
pub proof fn lemma_arm_in_place(e: Seq<char>, pre: Seq<Variant>, v: Variant, post: Seq<Variant>)
    ensures
        union_arms(e, pre + seq![v] + post) == union_arms(e, pre) + arm_spec(
            e,
            v,
            summarize(v.annotations@),
        ) + union_arms(e, post),
{
    lemma_arms_concat(e, pre + seq![v], post);
    lemma_arms_concat(e, pre, seq![v]);
    assert(seq![v].drop_last() =~= Seq::<Variant>::empty());
    assert(seq![v].last() == v);
    assert(union_arms(e, seq![v].drop_last()) == Seq::<char>::empty());
    assert(union_arms(e, seq![v]) =~= arm_spec(e, v, summarize(v.annotations@)));
}

/// The arm of variant `i` stands between the arms of the variants before it
/// and those after it.
pub proof fn lemma_arm_at(e: Seq<char>, vs: Seq<Variant>, i: int)
    requires
        0 <= i < vs.len(),
    ensures
        union_arms(e, vs) == union_arms(e, vs.take(i)) + arm_spec(
            e,
            vs[i],
            summarize(vs[i].annotations@),
        ) + union_arms(e, vs.skip(i + 1)),
{
    assert(vs =~= vs.take(i) + seq![vs[i]] + vs.skip(i + 1));
    lemma_arm_in_place(e, vs.take(i), vs[i], vs.skip(i + 1));
}

/// Test `k` of a list of example tests stands in its text, whatever comes
/// around it.
pub proof fn lemma_test_in_list(e: Seq<char>, vn: Seq<char>, ts: Seq<crate::directive::TestSpec>, k: int)
    requires
        0 <= k < ts.len(),
    ensures
        exists|a: Seq<char>, b: Seq<char>|
            tests_text(e, vn, ts) == #[trigger] (a + test_text(e, vn, k as nat, ts[k]) + b),
    decreases ts.len(),
{
    let x = test_text(e, vn, k as nat, ts[k]);
    if k == ts.len() - 1 {
        let a = tests_text(e, vn, ts.drop_last());
        assert(tests_text(e, vn, ts) =~= a + x + Seq::empty());
    } else {
        lemma_test_in_list(e, vn, ts.drop_last(), k);
        let (a, b) = choose|a: Seq<char>, b: Seq<char>|
            tests_text(e, vn, ts.drop_last()) == #[trigger] (a + test_text(
                e,
                vn,
                k as nat,
                ts.drop_last()[k],
            ) + b);
        let y = test_text(e, vn, (ts.len() - 1) as nat, ts.last());
        assert(tests_text(e, vn, ts) =~= a + x + (b + y));
    }
}

/// A unit variant with no template and no rendering function renders its
/// declared name, or its new name where it has one: its arm, in its place
/// among the arms of the union, is a string literal whose body reads back as
/// exactly that name.
pub proof fn unit_renders_its_name(e: Seq<char>, vs: Seq<Variant>, i: int)
    requires
        0 <= i < vs.len(),
        vs[i].shape == Shape::Unit,
        summarize(vs[i].annotations@).bad is None,
        summarize(vs[i].annotations@).n_rule == 0,
        summarize(vs[i].annotations@).n_rename <= 1,
    ensures
        union_arms(e, vs) == union_arms(e, vs.take(i)) + arm(
            e + "::"@ + vs[i].name@,
            literal_expr(
                match summarize(vs[i].annotations@).rename {
                    Some(n) => n@,
                    None => vs[i].name@,
                },
            ),
        ) + union_arms(e, vs.skip(i + 1)),
        forall|r: Result<Rule, Diagnostic>|
            is_rule_of(vs[i], summarize(vs[i].annotations@), r) ==> (r matches Ok(Rule::Name(n))
                && n@ == display_name(vs[i], summarize(vs[i].annotations@))),
        unescaped(escaped(display_name(vs[i], summarize(vs[i].annotations@)))) == display_name(
            vs[i],
            summarize(vs[i].annotations@),
        ),
{
    lemma_summary_counts(vs[i].annotations@);
    lemma_arm_at(e, vs, i);
    escaping_reads_back(display_name(vs[i], summarize(vs[i].annotations@)));
}

/// Whether `shown` lists, in increasing order, exactly the positions of `fs`
/// whose fields are not ignored.
pub open spec fn lists_shown(fs: Seq<Field>, shown: Seq<usize>) -> bool {
    &&& forall|a: int, b: int| 0 <= a < b < shown.len() ==> shown[a] < shown[b]
    &&& forall|j: int| 0 <= j < shown.len() ==> shown[j] < fs.len() && !ignored(fs[shown[j] as int])
    &&& forall|p: int|
        0 <= p < fs.len() && !ignored(#[trigger] fs[p]) ==> exists|j: int|
            0 <= j < shown.len() && shown[j] == p
}

/// The positions that are not ignored, in increasing order.
pub proof fn lemma_shown_indices(fs: Seq<Field>)
    requires
        fs.len() <= usize::MAX,
    ensures
        lists_shown(fs, shown_indices(fs)),
        shown_indices(fs).len() <= fs.len(),
    decreases fs.len(),
{
    if fs.len() > 0 {
        let p = fs.drop_last();
        lemma_shown_indices(p);
        let s = shown_indices(fs);
        let sp = shown_indices(p);
        assert forall|j: int| 0 <= j < sp.len() implies sp[j] < fs.len() && !ignored(
            fs[sp[j] as int],
        ) by {
            assert(fs[sp[j] as int] == p[sp[j] as int]);
        }
        assert forall|q: int| 0 <= q < fs.len() && !ignored(#[trigger] fs[q]) implies exists|j: int|
            0 <= j < s.len() && s[j] == q by {
            if q < fs.len() - 1 {
                assert(p[q] == fs[q]);
                let j = choose|j: int| 0 <= j < sp.len() && sp[j] == q;
                assert(s[j] == q);
            } else {
                assert(fs.last() == fs[q]);
                assert(s[s.len() - 1] == q);
            }
        }
    }
}

/// What positional substitution makes of a template whose only braces are
/// `{}` placeholders: each placeholder, left to right, gives way to the next
/// value.
pub open spec fn fill(t: Seq<char>, vals: Seq<Seq<char>>) -> Seq<char>
    decreases t.len(),
{
    if t.len() == 0 {
        Seq::empty()
    } else if t.len() >= 2 && t[0] == '{' && t[1] == '}' && vals.len() > 0 {
        vals[0] + fill(t.subrange(2, t.len() as int), vals.drop_first())
    } else {
        seq![t[0]] + fill(t.subrange(1, t.len() as int), vals)
    }
}

/// The values separated by single spaces.
pub open spec fn join_spaces(vals: Seq<Seq<char>>) -> Seq<char>
    decreases vals.len(),
{
    if vals.len() == 0 {
        Seq::empty()
    } else if vals.len() == 1 {
        vals[0]
    } else {
        join_spaces(vals.drop_last()) + seq![' '] + vals.last()
    }
}

/// Text without an opening brace passes through substitution unchanged.
pub proof fn lemma_fill_plain(p: Seq<char>, rest: Seq<char>, vals: Seq<Seq<char>>)
    requires
        forall|i: int| 0 <= i < p.len() ==> p[i] != '{',
    ensures
        fill(p + rest, vals) == p + fill(rest, vals),
    decreases p.len(),
{
    if p.len() > 0 {
        let t = p + rest;
        assert(t[0] == p[0]);
        assert(t.subrange(1, t.len() as int) =~= p.subrange(1, p.len() as int) + rest);
        lemma_fill_plain(p.subrange(1, p.len() as int), rest, vals);
        assert(p =~= seq![p[0]] + p.subrange(1, p.len() as int));
        assert(fill(t, vals) == seq![p[0]] + (p.subrange(1, p.len() as int) + fill(rest, vals)));
        assert(seq![p[0]] + (p.subrange(1, p.len() as int) + fill(rest, vals)) =~= p + fill(
            rest,
            vals,
        ));
    } else {
        assert(p + rest =~= rest);
        assert(p + fill(rest, vals) =~= fill(rest, vals));
    }
}

/// A leading placeholder gives way to the first value.
pub proof fn lemma_fill_hole(rest: Seq<char>, vals: Seq<Seq<char>>)
    requires
        vals.len() > 0,
    ensures
        fill("{}"@ + rest, vals) == vals[0] + fill(rest, vals.drop_first()),
{
    reveal_strlit("{}");
    let t = "{}"@ + rest;
    assert(t.subrange(2, t.len() as int) =~= rest);
}

/// `k` placeholders take `k` values, joined by the spaces between them.
pub proof fn lemma_fill_placeholders(
    k: nat,
    rest: Seq<char>,
    vals: Seq<Seq<char>>,
    more: Seq<Seq<char>>,
)
    requires
        vals.len() == k,
    ensures
        fill(placeholders(k) + rest, vals + more) == join_spaces(vals) + fill(rest, more),
    decreases k,
{
    if k == 0 {
        assert(placeholders(k) + rest =~= rest);
        assert(vals + more =~= more);
        assert(join_spaces(vals) + fill(rest, more) =~= fill(rest, more));
    } else if k == 1 {
        lemma_fill_hole(rest, vals + more);
        assert((vals + more).drop_first() =~= more);
        assert((vals + more)[0] == vals[0]);
    } else {
        reveal_strlit(" {}");
        let vs = vals.drop_last();
        let tail = seq![vals.last()] + more;
        assert(vals + more =~= vs + tail);
        assert(placeholders(k) + rest =~= placeholders((k - 1) as nat) + (" {}"@ + rest));
        lemma_fill_placeholders((k - 1) as nat, " {}"@ + rest, vs, tail);
        assert(" {}"@ + rest =~= seq![' '] + ("{}"@ + rest)) by {
            reveal_strlit("{}");
        }
        lemma_fill_plain(seq![' '], "{}"@ + rest, tail);
        lemma_fill_hole(rest, tail);
        assert(tail.drop_first() =~= more);
        assert(join_spaces(vs) + (seq![' '] + (vals.last() + fill(rest, more))) =~= join_spaces(
            vals,
        ) + fill(rest, more));
    }
}

/// Filling the template of the default positional rule with the name and
/// then the values gives the name, a space, and the values separated by
/// spaces in double quotes.
pub proof fn spaced_template_fills(name: Seq<char>, vals: Seq<Seq<char>>)
    ensures
        fill(spaced_template(vals.len()), seq![name] + vals) == name + " \""@ + join_spaces(vals)
            + "\""@,
{
    reveal_strlit("{} \"");
    reveal_strlit("\"");
    reveal_strlit(" \"");
    reveal_strlit("{}");
    let q = "\""@;
    let k = vals.len();
    assert(spaced_template(k) =~= "{}"@ + (" \""@ + (placeholders(k) + q)));
    lemma_fill_hole(" \""@ + (placeholders(k) + q), seq![name] + vals);
    assert((seq![name] + vals).drop_first() =~= vals);
    lemma_fill_plain(" \""@, placeholders(k) + q, vals);
    assert(vals + Seq::<Seq<char>>::empty() =~= vals);
    lemma_fill_placeholders(k, q, vals, Seq::empty());
    lemma_fill_plain(q, Seq::empty(), Seq::empty());
    assert(q + Seq::<char>::empty() =~= q);
    assert(q + Seq::<char>::empty() == q);
    assert(fill(Seq::<char>::empty(), Seq::<Seq<char>>::empty()) == Seq::<char>::empty());
    assert(name + (" \""@ + (join_spaces(vals) + q)) =~= name + " \""@ + join_spaces(vals) + q);
}

/// A variant with positional fields and no template or rendering function
/// binds every field, and renders its declared name and then, in double
/// quotes and separated by spaces, the values of the fields that are not
/// ignored, in order: the template of its arm, filled with the name and those
/// values, gives exactly that. A new name changes none of it.
pub proof fn positional_renders_spaced(e: Seq<char>, vs: Seq<Variant>, i: int, fs: Seq<Field>)
    requires
        0 <= i < vs.len(),
        vs[i].shape.fields() == fs,
        vs[i].shape is Positional,
        fs.len() <= usize::MAX,
        summarize(vs[i].annotations@).bad is None,
        summarize(vs[i].annotations@).n_rule == 0,
        summarize(vs[i].annotations@).n_rename <= 1,
    ensures
        union_arms(e, vs) == union_arms(e, vs.take(i)) + arm(
            binding_pattern(e, vs[i]),
            spaced_expr(vs[i].name@, shown_indices(fs)),
        ) + union_arms(e, vs.skip(i + 1)),
        lists_shown(fs, shown_indices(fs)),
        forall|vals: Seq<Seq<char>>|
            vals.len() == shown_indices(fs).len() ==> #[trigger] fill(
                spaced_template(vals.len()),
                seq![vs[i].name@] + vals,
            ) == vs[i].name@ + " \""@ + join_spaces(vals) + "\""@,
{
    lemma_summary_counts(vs[i].annotations@);
    lemma_shown_indices(fs);
    lemma_arm_at(e, vs, i);
    let name = vs[i].name@;
    assert forall|vals: Seq<Seq<char>>| vals.len() == shown_indices(fs).len() implies #[trigger] fill(
        spaced_template(vals.len()),
        seq![name] + vals,
    ) == name + " \""@ + join_spaces(vals) + "\""@ by {
        spaced_template_fills(name, vals);
    }
}

/// A new name changes only what a unit variant renders by default: under
/// every other rule, and for every other shape, the arm is the same with or
/// without it.
pub proof fn rename_only_changes_default(e: Seq<char>, v: Variant, s1: Summary, s2: Summary)
    requires
        s1.template == s2.template,
        s1.with == s2.with,
        s1.n_rule == s2.n_rule,
        s1.bad == s2.bad,
        s1.n_rename <= 1,
        s2.n_rename <= 1,
        !(v.shape is Unit && s1.template is None && s1.with is None),
    ensures
        arm_spec(e, v, s1) == arm_spec(e, v, s2),
{
}

/// A variant with named fields and neither a template nor a rendering
/// function gets one diagnostic in place of its arm, and the arms of the
/// other variants stand around it unchanged.
pub proof fn named_without_template_is_reported(
    e: Seq<char>,
    pre: Seq<Variant>,
    v: Variant,
    post: Seq<Variant>,
)
    requires
        v.shape is Named,
        summarize(v.annotations@).bad is None,
        summarize(v.annotations@).n_rule == 0,
        summarize(v.annotations@).n_rename <= 1,
    ensures
        union_arms(e, pre + seq![v] + post) == union_arms(e, pre) + arm(
            wildcard_pattern(e, v),
            diagnostic_expr(Diagnostic::MissingTemplate),
        ) + union_arms(e, post),
{
    lemma_summary_counts(v.annotations@);
    lemma_arm_in_place(e, pre, v, post);
}

proof fn lemma_decimal_shape(n: nat)
    ensures
        decimal(n).len() >= 1,
        n < 10 <==> decimal(n).len() == 1,
        decimal(n).last() == digit_char(n % 10),
    decreases n,
{
    if n >= 10 {
        lemma_decimal_shape(n / 10);
    }
}

/// Different numbers have different decimal notations.
pub proof fn decimal_is_injective(m: nat, n: nat)
    requires
        decimal(m) == decimal(n),
    ensures
        m == n,
    decreases m,
{
    lemma_decimal_shape(m);
    lemma_decimal_shape(n);
    if m >= 10 && n >= 10 {
        assert(decimal(m / 10) =~= decimal(m).drop_last());
        assert(decimal(n / 10) =~= decimal(n).drop_last());
        decimal_is_injective(m / 10, n / 10);
    }
}

/// The example tests of one variant have pairwise different names.
pub proof fn test_names_differ(vn: Seq<char>, i: nat, j: nat)
    requires
        i != j,
    ensures
        test_name(vn, i) != test_name(vn, j),
{
    if test_name(vn, i) == test_name(vn, j) {
        reveal_strlit("_");
        let k: int = vn.len() as int + 1;
        assert(test_name(vn, i).subrange(k, test_name(vn, i).len() as int) =~= decimal(i));
        assert(test_name(vn, j).subrange(k, test_name(vn, j).len() as int) =~= decimal(j));
        decimal_is_injective(i, j);
    }
}

/// Each `test` directive of a variant becomes its own example test, numbered
/// by its place among the variant's tests, with the constructor arguments and
/// the expected text as recorded, whatever becomes of the variant's arm.
pub proof fn each_test_directive_is_emitted(
    e: Seq<char>,
    pre: Seq<Variant>,
    v: Variant,
    post: Seq<Variant>,
    k: int,
)
    requires
        0 <= k < summarize(v.annotations@).tests.len(),
    ensures
        exists|a: Seq<char>, b: Seq<char>|
            union_tests(e, pre + seq![v] + post) == #[trigger] (a + test_text(
                e,
                v.name@,
                k as nat,
                summarize(v.annotations@).tests[k],
            ) + b),
{
    let ts = summarize(v.annotations@).tests;
    lemma_tests_concat(e, pre + seq![v], post);
    lemma_tests_concat(e, pre, seq![v]);
    assert(seq![v].drop_last() =~= Seq::<Variant>::empty());
    assert(seq![v].last() == v);
    assert(union_tests(e, seq![v].drop_last()) == Seq::<char>::empty());
    assert(union_tests(e, seq![v]) =~= tests_text(e, v.name@, ts));
    lemma_test_in_list(e, v.name@, ts, k);
    let (a, b) = choose|a: Seq<char>, b: Seq<char>|
        tests_text(e, v.name@, ts) == #[trigger] (a + test_text(e, v.name@, k as nat, ts[k]) + b);
    let x = test_text(e, v.name@, k as nat, ts[k]);
    assert(union_tests(e, pre + seq![v] + post) =~= (union_tests(e, pre) + a) + x + (b
        + union_tests(e, post)));
}

} // verus!
