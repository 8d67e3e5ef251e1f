//! Engine-wide properties, stated over the models and proved from the
//! definition of `eval`.

use vstd::prelude::*;
use crate::value::ValueModel;
use crate::value::lookup_model;
use crate::value::strict_eq_model;
use crate::schema::SchemaModel;
use crate::schema::SchemaKindModel;
use crate::schema::with_optional;
use crate::schema::lit_model;
use crate::schema::any_model;
use crate::schema::union_model;
use crate::engine::eval;
use crate::engine::eval_props;
use crate::engine::eval_union;
use crate::engine::absent_ok;
use crate::engine::child_path;
use crate::engine::one_issue;
use crate::engine::IssueModel;

verus! {

/// Immutability of validation under modifiers: every modifier takes its
/// receiver by shared reference and builds a new schema, so the receiver's
/// model cannot change; and validation is a pure function of that model.
/// So whatever outcome a schema gave for a value, it still gives after any
/// number of modifier calls on it.
pub proof fn lemma_outcome_depends_only_on_model(
    s1: SchemaModel,
    s2: SchemaModel,
    v: ValueModel,
    path: Option<Seq<Seq<char>>>,
)
    requires
        s1 == s2,
    ensures
        eval(s1, v, path) == eval(s2, v, path),
{
}

/// Optional absence: a schema marked optional accepts an absent value and
/// an explicit null outright, whatever its variant, with an absent result.
pub proof fn lemma_optional_absent(s: SchemaModel, path: Option<Seq<Seq<char>>>)
    ensures
        eval(with_optional(s), ValueModel::Undefined, path) == Ok::<
            ValueModel,
            Seq<IssueModel>,
        >(ValueModel::Undefined),
        eval(with_optional(s), ValueModel::Null, path) == Ok::<ValueModel, Seq<IssueModel>>(
            ValueModel::Undefined,
        ),
{
    assert(absent_ok(with_optional(s), ValueModel::Undefined));
    assert(absent_ok(with_optional(s), ValueModel::Null));
}

/// Union short-circuit: with alternatives `[a, b]`, a value accepted by
/// `a` yields `a`'s outcome, whatever `b` would say; when both fail, the
/// union's issues are `a`'s followed by `b`'s, in that order.
pub proof fn lemma_union_two(
    a: SchemaModel,
    b: SchemaModel,
    v: ValueModel,
    path: Option<Seq<Seq<char>>>,
)
    ensures
        eval(a, v, path) is Ok ==> eval(union_model(seq![a, b]), v, path) == eval(a, v, path),
        (eval(a, v, path) is Err && eval(b, v, path) is Err) ==> eval(
            union_model(seq![a, b]),
            v,
            path,
        ) == Err::<ValueModel, Seq<IssueModel>>(
            eval(a, v, path)->Err_0 + eval(b, v, path)->Err_0,
        ),
{
    let alts = seq![a, b];
    let u = union_model(alts);
    assert(alts.len() == 2);
    assert(alts[0] == a);
    assert(alts[1] == b);
    assert(!absent_ok(u, v));
    assert(eval(u, v, path) == eval_union(alts, v, path, 0, Seq::empty()));
    if eval(a, v, path) is Ok {
        assert(eval_union(alts, v, path, 0, Seq::empty()) == eval(a, v, path));
    } else {
        let ea = eval(a, v, path)->Err_0;
        assert(Seq::<IssueModel>::empty() + ea =~= ea);
        assert(eval_union(alts, v, path, 0, Seq::empty()) == eval_union(alts, v, path, 1, ea));
        if eval(b, v, path) is Err {
            let eb = eval(b, v, path)->Err_0;
            assert(eval_union(alts, v, path, 1, ea) == eval_union(alts, v, path, 2, ea + eb));
            assert(eval_union(alts, v, path, 2, ea + eb) == Err::<ValueModel, Seq<IssueModel>>(
                ea + eb,
            ));
        }
    }
}

/// What one declared property contributes to an object's issue list: its
/// child's issues when the field was present and rejected, the single
/// missing-property issue when the field was absent and the child
/// required, and nothing when the child accepts.
pub open spec fn prop_contrib(
    key: Seq<char>,
    child: SchemaModel,
    vfields: Seq<(Seq<char>, ValueModel)>,
    path: Option<Seq<Seq<char>>>,
) -> Seq<IssueModel> {
    let val = lookup_model(vfields, key);
    let p2 = child_path(path, key);
    match eval(child, val, p2) {
        Ok(_) => Seq::empty(),
        Err(sub) => if val is Undefined && child.optional {
            Seq::empty()
        } else if val is Undefined {
            seq![
                IssueModel { message: "Missing required property: "@ + key, path: p2 },
            ]
        } else {
            sub
        },
    }
}

/// Aggregation, not short-stop: an object schema with two required
/// properties that both reject their fields fails with both properties'
/// contributions, the first's then the second's; the first failure hides
/// nothing. Each failing required property contributes at least one issue,
/// as long as a rejecting child reports at least one issue itself, which
/// every schema of this crate does except an empty union.
pub proof fn lemma_object_two_invalid(
    k1: Seq<char>,
    c1: SchemaModel,
    k2: Seq<char>,
    c2: SchemaModel,
    vfields: Seq<(Seq<char>, ValueModel)>,
    path: Option<Seq<Seq<char>>>,
)
    requires
        !c1.optional,
        !c2.optional,
        eval(c1, lookup_model(vfields, k1), child_path(path, k1)) is Err,
        eval(c2, lookup_model(vfields, k2), child_path(path, k2)) is Err,
        lookup_model(vfields, k1) is Undefined || eval(
            c1,
            lookup_model(vfields, k1),
            child_path(path, k1),
        )->Err_0.len() > 0,
        lookup_model(vfields, k2) is Undefined || eval(
            c2,
            lookup_model(vfields, k2),
            child_path(path, k2),
        )->Err_0.len() > 0,
    ensures
        ({
            let s = SchemaModel {
                kind: SchemaKindModel::Obj { props: seq![(k1, c1), (k2, c2)] },
                optional: false,
            };
            eval(s, ValueModel::Obj(vfields), path) == Err::<ValueModel, Seq<IssueModel>>(
                prop_contrib(k1, c1, vfields, path) + prop_contrib(k2, c2, vfields, path),
            )
        }),
        prop_contrib(k1, c1, vfields, path).len() >= 1,
        prop_contrib(k2, c2, vfields, path).len() >= 1,
{
    let props = seq![(k1, c1), (k2, c2)];
    let s = SchemaModel { kind: SchemaKindModel::Obj { props }, optional: false };
    let v = ValueModel::Obj(vfields);
    assert(props[0] == (k1, c1));
    assert(props[1] == (k2, c2));
    assert(!absent_ok(s, v));
    let g1 = prop_contrib(k1, c1, vfields, path);
    let g2 = prop_contrib(k2, c2, vfields, path);
    assert(Seq::<IssueModel>::empty() + g1 =~= g1);
    let step0 = eval_props(props, vfields, path, 0, Seq::empty(), Seq::empty());
    let step1 = eval_props(props, vfields, path, 1, Seq::empty(), g1);
    let step2 = eval_props(props, vfields, path, 2, Seq::empty(), g1 + g2);
    let val1 = lookup_model(vfields, k1);
    let p1 = child_path(path, k1);
    if val1 is Undefined {
        let m1 = IssueModel { message: "Missing required property: "@ + k1, path: p1 };
        assert(g1 =~= seq![m1]);
        assert(Seq::<IssueModel>::empty().push(m1) =~= g1);
    }
    assert(step0 == step1);
    let val2 = lookup_model(vfields, k2);
    let p2 = child_path(path, k2);
    if val2 is Undefined {
        let m2 = IssueModel { message: "Missing required property: "@ + k2, path: p2 };
        assert(g2 =~= seq![m2]);
        assert(g1.push(m2) =~= g1 + g2);
    }
    assert(step1 == step2);
    assert(step2 == (Seq::<(Seq<char>, ValueModel)>::empty(), g1 + g2));
    assert((g1 + g2).len() >= 2);
    assert(eval(s, v, path) == Err::<ValueModel, Seq<IssueModel>>(g1 + g2));
}

/// Round trip for the any schema: every value, including an absent one,
/// passes through unchanged.
pub proof fn lemma_any_roundtrip(v: ValueModel, path: Option<Seq<Seq<char>>>)
    ensures
        eval(any_model(), v, path) == Ok::<ValueModel, Seq<IssueModel>>(v),
{
    assert(!absent_ok(any_model(), v));
}

/// A literal schema accepts every value strictly equal to its stored one,
/// unchanged; primitives are strictly equal to themselves.
pub proof fn lemma_literal_self(x: ValueModel, path: Option<Seq<Seq<char>>>)
    requires
        strict_eq_model(x, x),
    ensures
        eval(lit_model(x), x, path) == Ok::<ValueModel, Seq<IssueModel>>(x),
{
    assert(!absent_ok(lit_model(x), x));
}

/// A literal schema rejects every value not strictly equal to its stored
/// one, with the mismatch issue at the current path.
pub proof fn lemma_literal_mismatch(x: ValueModel, v: ValueModel, path: Option<Seq<Seq<char>>>)
    requires
        !strict_eq_model(v, x),
    ensures
        eval(lit_model(x), v, path) == Err::<ValueModel, Seq<IssueModel>>(
            one_issue("Literal mismatch"@, path),
        ),
{
    assert(!absent_ok(lit_model(x), v));
}

} // verus!
