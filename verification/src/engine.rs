//! The validation engine: a schema and a value go in; the normalized value
//! or the ordered list of located issues comes out. The meaning of a
//! validation is the spec function `eval`; the executable engine is proved
//! to return exactly that.

use vstd::prelude::*;
use vstd::string::StrSliceExecFns;
use vstd::string::StringExecFns;
use crate::value::Value;
use crate::value::ValueModel;
use crate::value::vmodel;
use crate::value::vmodel_seq;
use crate::value::vmodel_fields;
use crate::value::lemma_vmodel_seq;
use crate::value::lemma_vmodel_fields;
use crate::value::truthy;
use crate::value::truthy_model;
use crate::value::strict_eq;
use crate::value::strict_eq_model;
use crate::value::kind_name;
use crate::value::kind_name_model;
use crate::value::lookup_model;
use crate::value::contains_handle;
use crate::value::clone_value;
use crate::numeric::dec_str;
use crate::numeric::coerce_num_model;
use crate::numeric::parse_i64;
use crate::numeric::u64_to_string;
use crate::numeric::i64_to_string;
use crate::numeric::chars_of;
use crate::formats::is_uuid_model;
use crate::formats::is_email_model;
use crate::formats::is_phone_model;
use crate::formats::is_domain_model;
use crate::formats::regex_accepts;
use crate::formats::check_uuid;
use crate::formats::check_email;
use crate::formats::check_phone;
use crate::formats::check_domain;
use crate::formats::regex_is_match;
use crate::schema::HSchema;
use crate::schema::SchemaKind;
use crate::schema::SchemaModel;
use crate::schema::SchemaKindModel;
use crate::schema::StringFormat;
use crate::schema::FormatModel;
use crate::schema::smodel;
use crate::schema::sprops_model;
use crate::schema::salts_model;
use crate::schema::lemma_sprops_model;
use crate::schema::lemma_salts_model;

verus! {

/// A located validation failure.
#[derive(Debug, PartialEq, Eq)]
pub struct Issue {
    pub message: String,
    /// Path segments from the root to the failing node; none at the root.
    pub path: Option<Vec<String>>,
}

/// The model of an issue.
pub struct IssueModel {
    pub message: Seq<char>,
    pub path: Option<Seq<Seq<char>>>,
}

impl View for Issue {
    type V = IssueModel;

    open spec fn view(&self) -> IssueModel {
        IssueModel {
            message: self.message@,
            path: match self.path {
                Some(p) => Some(p.deep_view()),
                None => None,
            },
        }
    }
}

impl DeepView for Issue {
    type V = IssueModel;

    open spec fn deep_view(&self) -> IssueModel {
        self.view()
    }
}

/// The path of a child node: the parent path, or the empty path at the
/// root, extended by one segment.
pub open spec fn child_path(p: Option<Seq<Seq<char>>>, seg: Seq<char>) -> Option<Seq<Seq<char>>> {
    match p {
        Some(q) => Some(q.push(seg)),
        None => Some(seq![seg]),
    }
}

/// One issue with the given message at the given path.
pub open spec fn one_issue(message: Seq<char>, path: Option<Seq<Seq<char>>>) -> Seq<IssueModel> {
    seq![IssueModel { message, path }]
}

/// Whether the top-level absence rule accepts the value outright: the value
/// is absent or null, and the schema is optional or is the null schema met
/// by an explicit null.
pub open spec fn absent_ok(s: SchemaModel, v: ValueModel) -> bool {
    (v is Undefined || v is Null) && (s.optional || (s.kind is Null && v is Null))
}

/// The display form of a value, used when a string schema coerces.
pub open spec fn display_model(v: ValueModel) -> Seq<char> {
    match v {
        ValueModel::Undefined => "undefined"@,
        ValueModel::Null => "null"@,
        ValueModel::Bool(b) => if b {
            "true"@
        } else {
            "false"@
        },
        ValueModel::Num(n) => dec_str(n),
        ValueModel::Str(s) => s,
        ValueModel::Arr(_) => "[array]"@,
        ValueModel::Obj(_) => "[object]"@,
        ValueModel::Instance(_) => "[instance]"@,
    }
}

/// Whether a string meets a format.
pub open spec fn format_ok(f: FormatModel, t: Seq<char>) -> bool {
    match f {
        FormatModel::Uuid => is_uuid_model(t),
        FormatModel::Email => is_email_model(t),
        FormatModel::Phone => is_phone_model(t),
        FormatModel::Regex(p) => regex_accepts(p, t),
        FormatModel::Domain { require_protocol } => is_domain_model(t, require_protocol),
    }
}

/// The string rule: the value itself when it is a string, its display form
/// under coercion; then the length bounds, then the format.
pub open spec fn eval_string(
    min_len: Option<int>,
    max_len: Option<int>,
    format: Option<FormatModel>,
    coerce: bool,
    v: ValueModel,
    path: Option<Seq<Seq<char>>>,
) -> Result<ValueModel, Seq<IssueModel>> {
    let topt: Option<Seq<char>> = if v is Str {
        Some(v->Str_0)
    } else if coerce {
        Some(display_model(v))
    } else {
        None
    };
    match topt {
        None => Err(one_issue("Expected string, received "@ + kind_name_model(v), path)),
        Some(t) => {
            if min_len is Some && t.len() < min_len->0 {
                Err(one_issue("String shorter than "@ + dec_str(min_len->0), path))
            } else if max_len is Some && t.len() > max_len->0 {
                Err(one_issue("String longer than "@ + dec_str(max_len->0), path))
            } else if format is Some && !format_ok(format->0, t) {
                Err(one_issue("Invalid format"@, path))
            } else {
                Ok(ValueModel::Str(t))
            }
        },
    }
}

/// The number rule: the value itself when numeric, the parsed value of a
/// string under coercion; then the bounds.
pub open spec fn eval_number(
    min: Option<int>,
    max: Option<int>,
    coerce: bool,
    v: ValueModel,
    path: Option<Seq<Seq<char>>>,
) -> Result<ValueModel, Seq<IssueModel>> {
    let nres: Result<int, Seq<IssueModel>> = if v is Num {
        Ok(v->Num_0)
    } else if coerce && v is Str {
        match coerce_num_model(v->Str_0) {
            Some(n) => Ok(n),
            None => Err(one_issue("Could not coerce to number"@, path)),
        }
    } else {
        Err(one_issue("Expected number"@, path))
    };
    match nres {
        Err(e) => Err(e),
        Ok(n) => {
            if min is Some && n < min->0 {
                Err(one_issue("Number less than "@ + dec_str(min->0), path))
            } else if max is Some && n > max->0 {
                Err(one_issue("Number greater than "@ + dec_str(max->0), path))
            } else {
                Ok(ValueModel::Num(n))
            }
        },
    }
}

/// The boolean rule: a real boolean, or anything under coercion, becomes
/// its truthiness.
pub open spec fn eval_bool(coerce: bool, v: ValueModel, path: Option<Seq<Seq<char>>>) -> Result<
    ValueModel,
    Seq<IssueModel>,
> {
    if v is Bool || coerce {
        Ok(ValueModel::Bool(truthy_model(v)))
    } else {
        Err(one_issue("Expected boolean"@, path))
    }
}

/// The outcome of validating `v` against `s` at `path`: the normalized
/// value, or every issue found, in traversal order.
pub open spec fn eval(s: SchemaModel, v: ValueModel, path: Option<Seq<Seq<char>>>) -> Result<
    ValueModel,
    Seq<IssueModel>,
>
    decreases s, 0nat,
{
    if absent_ok(s, v) {
        Ok(ValueModel::Undefined)
    } else {
        match s.kind {
            SchemaKindModel::Str { min_len, max_len, format, coerce } => eval_string(
                min_len,
                max_len,
                format,
                coerce,
                v,
                path,
            ),
            SchemaKindModel::Num { min, max, coerce } => eval_number(min, max, coerce, v, path),
            SchemaKindModel::Bool { coerce } => eval_bool(coerce, v, path),
            SchemaKindModel::Lit { value } => if strict_eq_model(v, value) {
                Ok(v)
            } else {
                Err(one_issue("Literal mismatch"@, path))
            },
            SchemaKindModel::Null => if v is Null {
                Ok(ValueModel::Undefined)
            } else {
                Err(one_issue("Expected null"@, path))
            },
            SchemaKindModel::Any => Ok(v),
            SchemaKindModel::Obj { props } => if !(v is Obj) {
                Err(one_issue("Expected object"@, path))
            } else {
                let fi = eval_props(props, v->Obj_0, path, 0, Seq::empty(), Seq::empty());
                if fi.1.len() > 0 {
                    Err(fi.1)
                } else {
                    Ok(ValueModel::Obj(fi.0))
                }
            },
            SchemaKindModel::Arr { item } => if !(v is Arr) {
                Err(one_issue("Expected array"@, path))
            } else {
                let ei = eval_items(*item, v->Arr_0, path, 0, Seq::empty(), Seq::empty());
                if ei.1.len() > 0 {
                    Err(ei.1)
                } else {
                    Ok(ValueModel::Arr(ei.0))
                }
            },
            SchemaKindModel::Union { alts } => eval_union(alts, v, path, 0, Seq::empty()),
            SchemaKindModel::Inst { ctor, name } => if v is Instance && v->Instance_0.contains(
                ctor,
            ) {
                Ok(v)
            } else {
                Err(one_issue("Expected instance of "@ + name, path))
            },
        }
    }
}

/// The object rule from property `i` on: each declared property is checked
/// against the looked-up field; an accepted child joins the result unless
/// absent, a failing child contributes its issues, or the missing-property
/// issue when the field was absent and the child required.
pub open spec fn eval_props(
    props: Seq<(Seq<char>, SchemaModel)>,
    vfields: Seq<(Seq<char>, ValueModel)>,
    path: Option<Seq<Seq<char>>>,
    i: int,
    accf: Seq<(Seq<char>, ValueModel)>,
    acci: Seq<IssueModel>,
) -> (Seq<(Seq<char>, ValueModel)>, Seq<IssueModel>)
    decreases props, props.len() - i,
{
    if i < 0 || i >= props.len() {
        (accf, acci)
    } else {
        let key = props[i].0;
        let child = props[i].1;
        let val = lookup_model(vfields, key);
        let p2 = child_path(path, key);
        match eval(child, val, p2) {
            Ok(cv) => eval_props(
                props,
                vfields,
                path,
                i + 1,
                if cv is Undefined {
                    accf
                } else {
                    accf.push((key, cv))
                },
                acci,
            ),
            Err(sub) => {
                if val is Undefined && child.optional {
                    eval_props(props, vfields, path, i + 1, accf, acci)
                } else if val is Undefined {
                    eval_props(
                        props,
                        vfields,
                        path,
                        i + 1,
                        accf,
                        acci.push(
                            IssueModel {
                                message: "Missing required property: "@ + key,
                                path: p2,
                            },
                        ),
                    )
                } else {
                    eval_props(props, vfields, path, i + 1, accf, acci + sub)
                }
            },
        }
    }
}

/// The array rule from element `i` on: every element is checked against the
/// item schema under its index segment; accepted elements keep their
/// positions, failing ones contribute their issues.
pub open spec fn eval_items(
    item: SchemaModel,
    elems: Seq<ValueModel>,
    path: Option<Seq<Seq<char>>>,
    i: int,
    accv: Seq<ValueModel>,
    acci: Seq<IssueModel>,
) -> (Seq<ValueModel>, Seq<IssueModel>)
    decreases item, elems.len() - i,
{
    if i < 0 || i >= elems.len() {
        (accv, acci)
    } else {
        let p2 = child_path(path, dec_str(i));
        match eval(item, elems[i], p2) {
            Ok(cv) => eval_items(item, elems, path, i + 1, accv.push(cv), acci),
            Err(sub) => eval_items(item, elems, path, i + 1, accv, acci + sub),
        }
    }
}

/// The union rule from alternative `i` on: the first accepting alternative
/// wins; when all fail, every alternative's issues are kept, in order.
pub open spec fn eval_union(
    alts: Seq<SchemaModel>,
    v: ValueModel,
    path: Option<Seq<Seq<char>>>,
    i: int,
    acci: Seq<IssueModel>,
) -> Result<ValueModel, Seq<IssueModel>>
    decreases alts, alts.len() - i,
{
    if i < 0 || i >= alts.len() {
        Err(acci)
    } else {
        match eval(alts[i], v, path) {
            Ok(cv) => Ok(cv),
            Err(sub) => eval_union(alts, v, path, i + 1, acci + sub),
        }
    }
}

/// The model of an executable outcome.
pub open spec fn outcome_model(r: Result<Value, Vec<Issue>>) -> Result<ValueModel, Seq<IssueModel>> {
    match r {
        Ok(v) => Ok(vmodel(v)),
        Err(issues) => Err(issues.deep_view()),
    }
}

/// A copy of a path vector.
fn clone_string_vec(p: &Vec<String>) -> (r: Vec<String>)
    ensures
        r.deep_view() == p.deep_view(),
{
    let mut out: Vec<String> = Vec::new();
    let mut i: usize = 0;
    while i < p.len()
        invariant
            0 <= i <= p.len(),
            out@.len() == i,
            forall|k: int| 0 <= k < i ==> (#[trigger] out@[k])@ == p@[k]@,
        decreases p.len() - i,
    {
        let s = p[i].clone();
        out.push(s);
        i = i + 1;
    }
    proof {
        assert(out.deep_view() =~= p.deep_view());
    }
    out
}

/// A copy of an optional path.
fn clone_path(p: &Option<Vec<String>>) -> (r: Option<Vec<String>>)
    ensures
        r.deep_view() == p.deep_view(),
{
    match p {
        Some(v) => Some(clone_string_vec(v)),
        None => None,
    }
}

/// The child path below `path` for the segment `seg`.
fn child_path_exec(path: &Option<Vec<String>>, seg: String) -> (r: Vec<String>)
    ensures
        Some(r.deep_view()) == child_path(path.deep_view(), seg@),
{
    match path {
        Some(p) => {
            let mut q = clone_string_vec(p);
            q.push(seg);
            proof {
                assert(q.deep_view() =~= p.deep_view().push(seg@));
            }
            q
        },
        None => {
            let mut q: Vec<String> = Vec::new();
            q.push(seg);
            proof {
                assert(q.deep_view() =~= seq![seg@]);
            }
            q
        },
    }
}

/// A single-issue list with the given message and path.
fn one_issue_vec(message: String, path: Option<Vec<String>>) -> (r: Vec<Issue>)
    ensures
        r.deep_view() == one_issue(message@, path.deep_view()),
{
    let mut r: Vec<Issue> = Vec::new();
    let ghost m = message@;
    let ghost pm = path.deep_view();
    r.push(Issue { message, path });
    proof {
        assert(r.deep_view() =~= one_issue(m, pm));
    }
    r
}

/// The first field named `key`, copied, or an absent value.
fn lookup_clone(fields: &Vec<(String, Value)>, key: &String) -> (r: Value)
    ensures
        vmodel(r) == lookup_model(vmodel_fields(fields@, 0), key@),
{
    let mut i: usize = 0;
    let ghost m = vmodel_fields(fields@, 0);
    proof {
        lemma_vmodel_fields(fields@, 0);
        lemma_lookup_skip(m, key@, 0);
    }
    while i < fields.len()
        invariant
            0 <= i <= fields@.len(),
            m == vmodel_fields(fields@, 0),
            m.len() == fields@.len(),
            forall|k: int|
                0 <= k < fields@.len() ==> #[trigger] m[k] == (
                fields@[k].0@,
                vmodel(fields@[k].1),
                ),
            forall|k: int| 0 <= k < i ==> m[k].0 != key@,
            lookup_model(m, key@) == lookup_model(m.skip(i as int), key@),
        decreases fields@.len() - i,
    {
        if fields[i].0.eq(key) {
            let r = clone_value(&fields[i].1);
            proof {
                lemma_lookup_head(m, key@, i as int);
            }
            return r;
        }
        proof {
            lemma_lookup_step(m, key@, i as int);
        }
        i = i + 1;
    }
    proof {
        assert(m.skip(i as int).len() == 0);
    }
    Value::Undefined
}

/// Looking up from position `i` is looking up the tail when nothing before
/// matched.
proof fn lemma_lookup_skip(m: Seq<(Seq<char>, ValueModel)>, key: Seq<char>, i: int)
    requires
        0 <= i <= m.len(),
        forall|k: int| 0 <= k < i ==> (#[trigger] m[k]).0 != key,
    ensures
        lookup_model(m, key) == lookup_model(m.skip(i), key),
    decreases i,
{
    if i == 0 {
        assert(m.skip(0) =~= m);
    } else {
        lemma_lookup_skip(m, key, i - 1);
        let t = m.skip(i - 1);
        assert(t.len() > 0);
        assert(t[0] == m[i - 1]);
        assert(t[0].0 != key);
        assert(lookup_model(t, key) == lookup_model(t.drop_first(), key));
        assert(t.drop_first() =~= m.skip(i));
        assert(lookup_model(t.drop_first(), key) == lookup_model(m.skip(i), key));
    }
}


/// A lookup that finds its key at the head of the remaining tail.
proof fn lemma_lookup_head(m: Seq<(Seq<char>, ValueModel)>, key: Seq<char>, i: int)
    requires
        0 <= i < m.len(),
        forall|k: int| 0 <= k < i ==> (#[trigger] m[k]).0 != key,
        m[i].0 == key,
    ensures
        lookup_model(m, key) == m[i].1,
{
    lemma_lookup_skip(m, key, i);
    let t = m.skip(i);
    assert(t[0] == m[i]);
}

/// A lookup step past a non-matching head.
proof fn lemma_lookup_step(m: Seq<(Seq<char>, ValueModel)>, key: Seq<char>, i: int)
    requires
        0 <= i < m.len(),
        m[i].0 != key,
        lookup_model(m, key) == lookup_model(m.skip(i), key),
    ensures
        lookup_model(m, key) == lookup_model(m.skip(i + 1), key),
{
    let t = m.skip(i);
    assert(t[0] == m[i]);
    assert(t.drop_first() =~= m.skip(i + 1));
}

impl HSchema {
    /// Validates a value against this schema: the normalized value, or the
    /// ordered list of every issue found, with paths from the root.
    pub fn validate(&self, value: &Value) -> (r: Result<Value, Vec<Issue>>)
        ensures
            outcome_model(r) == eval(self@, value@, None),
    {
        self.validate_inner(value, &None)
    }

    /// The recursive engine: validates `value` against this schema, with
    /// `path` naming the node under validation, or the root.
    pub fn validate_inner(&self, value: &Value, path: &Option<Vec<String>>) -> (r: Result<
        Value,
        Vec<Issue>,
    >)
        ensures
            outcome_model(r) == eval(self@, value@, path.deep_view()),
        decreases *self, 0nat,
    {
        let absent = matches!(value, Value::Undefined | Value::Null);
        if absent {
            let null_and_null_kind = matches!(self.kind, SchemaKind::Null) && matches!(
                value,
                Value::Null,
            );
            if self.is_optional || null_and_null_kind {
                return Ok(Value::Undefined);
            }
        }
        match &self.kind {
            SchemaKind::Str { min_len, max_len, format, coerce } => {
                let topt: Option<String> = match value {
                    Value::Str(s) => Some(s.clone()),
                    _ => {
                        if *coerce {
                            Some(display_value(value))
                        } else {
                            None
                        }
                    },
                };
                match topt {
                    None => {
                        let msg = String::from_str("Expected string, received ").concat(
                            kind_name(value).as_str(),
                        );
                        Err(one_issue_vec(msg, clone_path(path)))
                    },
                    Some(t) => {
                        let tlen = t.as_str().unicode_len();
                        if min_len.is_some() && tlen < min_len.unwrap() {
                            let msg = String::from_str("String shorter than ").concat(
                                u64_to_string(min_len.unwrap() as u64).as_str(),
                            );
                            Err(one_issue_vec(msg, clone_path(path)))
                        } else if max_len.is_some() && tlen > max_len.unwrap() {
                            let msg = String::from_str("String longer than ").concat(
                                u64_to_string(max_len.unwrap() as u64).as_str(),
                            );
                            Err(one_issue_vec(msg, clone_path(path)))
                        } else {
                            let format_fails = match format {
                                Some(f) => !check_format(f, &t),
                                None => false,
                            };
                            if format_fails {
                                Err(
                                    one_issue_vec(
                                        String::from_str("Invalid format"),
                                        clone_path(path),
                                    ),
                                )
                            } else {
                                Ok(Value::Str(t))
                            }
                        }
                    },
                }
            },
            SchemaKind::Num { min, max, coerce } => {
                let nres: Result<i64, ()> = match value {
                    Value::Num(n) => Ok(*n),
                    Value::Str(s) => {
                        if *coerce {
                            match parse_i64(s.as_str()) {
                                Some(n) => Ok(n),
                                None => {
                                    return Err(
                                        one_issue_vec(
                                            String::from_str("Could not coerce to number"),
                                            clone_path(path),
                                        ),
                                    );
                                },
                            }
                        } else {
                            Err(())
                        }
                    },
                    _ => Err(()),
                };
                match nres {
                    Err(_) => Err(
                        one_issue_vec(String::from_str("Expected number"), clone_path(path)),
                    ),
                    Ok(n) => {
                        if min.is_some() && n < min.unwrap() {
                            let msg = String::from_str("Number less than ").concat(
                                i64_to_string(min.unwrap()).as_str(),
                            );
                            Err(one_issue_vec(msg, clone_path(path)))
                        } else if max.is_some() && n > max.unwrap() {
                            let msg = String::from_str("Number greater than ").concat(
                                i64_to_string(max.unwrap()).as_str(),
                            );
                            Err(one_issue_vec(msg, clone_path(path)))
                        } else {
                            Ok(Value::Num(n))
                        }
                    },
                }
            },
            SchemaKind::Bool { coerce } => {
                if matches!(value, Value::Bool(_)) || *coerce {
                    Ok(Value::Bool(truthy(value)))
                } else {
                    Err(one_issue_vec(String::from_str("Expected boolean"), clone_path(path)))
                }
            },
            SchemaKind::Lit { value: lit } => {
                if strict_eq(value, lit) {
                    Ok(clone_value(value))
                } else {
                    Err(one_issue_vec(String::from_str("Literal mismatch"), clone_path(path)))
                }
            },
            SchemaKind::Null => {
                if matches!(value, Value::Null) {
                    Ok(Value::Undefined)
                } else {
                    Err(one_issue_vec(String::from_str("Expected null"), clone_path(path)))
                }
            },
            SchemaKind::Any => Ok(clone_value(value)),
            SchemaKind::Obj { props } => {
                match value {
                    Value::Obj(vfields) => {
                        let fi = validate_props(props, vfields, path);
                        let (out_fields, issues) = fi;
                        if issues.len() > 0 {
                            Err(issues)
                        } else {
                            proof {
                                let m = eval_props(
                                    sprops_model(props@, 0),
                                    vmodel_fields(vfields@, 0),
                                    path.deep_view(),
                                    0,
                                    Seq::empty(),
                                    Seq::empty(),
                                );
                                assert(m.1.len() == 0);
                            }
                            Ok(Value::Obj(out_fields))
                        }
                    },
                    _ => Err(
                        one_issue_vec(String::from_str("Expected object"), clone_path(path)),
                    ),
                }
            },
            SchemaKind::Arr { item } => {
                match value {
                    Value::Arr(velems) => {
                        let ei = validate_items(item, velems, path);
                        let (out_elems, issues) = ei;
                        if issues.len() > 0 {
                            Err(issues)
                        } else {
                            Ok(Value::Arr(out_elems))
                        }
                    },
                    _ => Err(one_issue_vec(String::from_str("Expected array"), clone_path(path))),
                }
            },
            SchemaKind::Union { alts } => validate_alts(alts, value, path),
            SchemaKind::Inst { ctor, name } => {
                let ok = match value {
                    Value::Instance(classes) => contains_handle(classes, *ctor),
                    _ => false,
                };
                if ok {
                    Ok(clone_value(value))
                } else {
                    let msg = String::from_str("Expected instance of ").concat(name.as_str());
                    Err(one_issue_vec(msg, clone_path(path)))
                }
            },
        }
    }
}

/// The display form of a value.
pub fn display_value(v: &Value) -> (r: String)
    ensures
        r@ == display_model(v@),
{
    match v {
        Value::Undefined => String::from_str("undefined"),
        Value::Null => String::from_str("null"),
        Value::Bool(b) => {
            if *b {
                String::from_str("true")
            } else {
                String::from_str("false")
            }
        },
        Value::Num(n) => i64_to_string(*n),
        Value::Str(s) => s.clone(),
        Value::Arr(_) => String::from_str("[array]"),
        Value::Obj(_) => String::from_str("[object]"),
        Value::Instance(_) => String::from_str("[instance]"),
    }
}

/// Whether a string meets a format.
pub fn check_format(f: &StringFormat, t: &String) -> (r: bool)
    ensures
        r == format_ok(f@, t@),
{
    match f {
        StringFormat::Uuid => {
            let cs = chars_of(t.as_str());
            check_uuid(&cs)
        },
        StringFormat::Email => {
            let cs = chars_of(t.as_str());
            check_email(&cs)
        },
        StringFormat::Phone => {
            let cs = chars_of(t.as_str());
            check_phone(&cs)
        },
        StringFormat::Domain { require_protocol } => {
            let cs = chars_of(t.as_str());
            check_domain(&cs, *require_protocol)
        },
        StringFormat::Regex(p) => regex_is_match(p.as_str(), t.as_str()),
    }
}

/// Validates every declared property of an object schema against the
/// fields of an object value: the accepted fields and the issues found.
fn validate_props(
    props: &Vec<(String, HSchema)>,
    vfields: &Vec<(String, Value)>,
    path: &Option<Vec<String>>,
) -> (r: (Vec<(String, Value)>, Vec<Issue>))
    ensures
        (vmodel_fields(r.0@, 0), r.1.deep_view()) == eval_props(
            sprops_model(props@, 0),
            vmodel_fields(vfields@, 0),
            path.deep_view(),
            0,
            Seq::empty(),
            Seq::empty(),
        ),
    decreases *props, 1nat,
{
    let ghost mprops = sprops_model(props@, 0);
    let ghost mvfields = vmodel_fields(vfields@, 0);
    let ghost mpath = path.deep_view();
    proof {
        lemma_sprops_model(props@, 0);
    }
    let mut out_fields: Vec<(String, Value)> = Vec::new();
    let mut issues: Vec<Issue> = Vec::new();
    let n = props.len();
    let mut i: usize = 0;
    proof {
        assert(vmodel_fields(out_fields@, 0) =~= Seq::<(Seq<char>, ValueModel)>::empty());
        assert(issues.deep_view() =~= Seq::<IssueModel>::empty());
    }
    while i < n
        invariant
            0 <= i <= n,
            n == props@.len(),
            mprops == sprops_model(props@, 0),
            mvfields == vmodel_fields(vfields@, 0),
            mpath == path.deep_view(),
            mprops.len() == n,
            forall|k: int|
                0 <= k < n ==> #[trigger] mprops[k] == (props@[k].0@, smodel(props@[k].1)),
            eval_props(mprops, mvfields, mpath, 0, Seq::empty(), Seq::empty()) == eval_props(
                mprops,
                mvfields,
                mpath,
                i as int,
                vmodel_fields(out_fields@, 0),
                issues.deep_view(),
            ),
        decreases n - i,
    {
        let ghost accf = vmodel_fields(out_fields@, 0);
        let ghost acci = issues.deep_view();
        let key = props[i].0.clone();
        let child = &props[i].1;
        let val = lookup_clone(vfields, &key);
        let p2 = Some(child_path_exec(path, key.clone()));
        let sub = child.validate_inner(&val, &p2);
        proof {
            assert(mprops[i as int].0 == key@);
            assert(mprops[i as int].1 == smodel(*child));
            assert(p2.deep_view() == child_path(mpath, key@));
        }
        match sub {
            Ok(cv) => {
                if !matches!(cv, Value::Undefined) {
                    let ghost cvm = vmodel(cv);
                    let ghost keym = key@;
                    let ghost pre = out_fields@;
                    out_fields.push((key, cv));
                    proof {
                        lemma_vmodel_fields(pre, 0);
                        lemma_vmodel_fields(out_fields@, 0);
                        assert(vmodel_fields(out_fields@, 0) =~= accf.push((keym, cvm)));
                    }
                }
            },
            Err(mut subissues) => {
                let isundef = matches!(val, Value::Undefined);
                if isundef && child.is_optional {
                    // An optional child never fails on an absent field; the
                    // arm mirrors the engine's defensive shape.
                } else if isundef {
                    let msg = String::from_str("Missing required property: ").concat(
                        key.as_str(),
                    );
                    let p3 = child_path_exec(path, key);
                    let ghost issm = IssueModel {
                        message: "Missing required property: "@ + mprops[i as int].0,
                        path: child_path(mpath, mprops[i as int].0),
                    };
                    issues.push(Issue { message: msg, path: Some(p3) });
                    proof {
                        assert(issues.deep_view() =~= acci.push(issm));
                    }
                } else {
                    let ghost subm = subissues.deep_view();
                    issues.append(&mut subissues);
                    proof {
                        assert(issues.deep_view() =~= acci + subm);
                    }
                }
            },
        }
        i = i + 1;
    }
    (out_fields, issues)
}

/// Validates every element of an array value against the item schema: the
/// accepted elements and the issues found.
fn validate_items(item: &HSchema, velems: &Vec<Value>, path: &Option<Vec<String>>) -> (r: (
    Vec<Value>,
    Vec<Issue>,
))
    ensures
        (vmodel_seq(r.0@, 0), r.1.deep_view()) == eval_items(
            item@,
            vmodel_seq(velems@, 0),
            path.deep_view(),
            0,
            Seq::empty(),
            Seq::empty(),
        ),
    decreases *item, 1nat,
{
    let ghost mitem = smodel(*item);
    let ghost melems = vmodel_seq(velems@, 0);
    let ghost mpath = path.deep_view();
    proof {
        lemma_vmodel_seq(velems@, 0);
    }
    let mut out_elems: Vec<Value> = Vec::new();
    let mut issues: Vec<Issue> = Vec::new();
    let n = velems.len();
    let mut i: usize = 0;
    proof {
        assert(vmodel_seq(out_elems@, 0) =~= Seq::<ValueModel>::empty());
        assert(issues.deep_view() =~= Seq::<IssueModel>::empty());
    }
    while i < n
        invariant
            0 <= i <= n,
            n == velems@.len(),
            mitem == smodel(*item),
            melems == vmodel_seq(velems@, 0),
            mpath == path.deep_view(),
            melems.len() == n,
            forall|k: int| 0 <= k < n ==> #[trigger] melems[k] == vmodel(velems@[k]),
            eval_items(mitem, melems, mpath, 0, Seq::empty(), Seq::empty()) == eval_items(
                mitem,
                melems,
                mpath,
                i as int,
                vmodel_seq(out_elems@, 0),
                issues.deep_view(),
            ),
        decreases n - i,
    {
        let ghost accv = vmodel_seq(out_elems@, 0);
        let ghost acci = issues.deep_view();
        let seg = u64_to_string(i as u64);
        proof {
            assert(seg@ == dec_str(i as int));
        }
        let p2 = Some(child_path_exec(path, seg));
        let sub = item.validate_inner(&velems[i], &p2);
        proof {
            assert(p2.deep_view() == child_path(mpath, dec_str(i as int)));
        }
        match sub {
            Ok(cv) => {
                let ghost cvm = vmodel(cv);
                let ghost pre = out_elems@;
                out_elems.push(cv);
                proof {
                    lemma_vmodel_seq(pre, 0);
                    lemma_vmodel_seq(out_elems@, 0);
                    assert(vmodel_seq(out_elems@, 0) =~= accv.push(cvm));
                }
            },
            Err(mut subissues) => {
                let ghost subm = subissues.deep_view();
                issues.append(&mut subissues);
                proof {
                    assert(issues.deep_view() =~= acci + subm);
                }
            },
        }
        i = i + 1;
    }
    (out_elems, issues)
}

/// Tries each alternative of a union in order: the first accepted outcome,
/// or every alternative's issues concatenated.
fn validate_alts(alts: &Vec<HSchema>, value: &Value, path: &Option<Vec<String>>) -> (r: Result<
    Value,
    Vec<Issue>,
>)
    ensures
        outcome_model(r) == eval_union(
            salts_model(alts@, 0),
            vmodel(*value),
            path.deep_view(),
            0,
            Seq::empty(),
        ),
    decreases *alts, 1nat,
{
    let ghost malts = salts_model(alts@, 0);
    let ghost mpath = path.deep_view();
    proof {
        lemma_salts_model(alts@, 0);
    }
    let mut issues: Vec<Issue> = Vec::new();
    let n = alts.len();
    let mut i: usize = 0;
    proof {
        assert(issues.deep_view() =~= Seq::<IssueModel>::empty());
    }
    while i < n
        invariant
            0 <= i <= n,
            n == alts@.len(),
            malts == salts_model(alts@, 0),
            mpath == path.deep_view(),
            malts.len() == n,
            forall|k: int| 0 <= k < n ==> #[trigger] malts[k] == smodel(alts@[k]),
            eval_union(malts, vmodel(*value), mpath, 0, Seq::empty()) == eval_union(
                malts,
                vmodel(*value),
                mpath,
                i as int,
                issues.deep_view(),
            ),
        decreases n - i,
    {
        let ghost acci = issues.deep_view();
        let sub = alts[i].validate_inner(value, path);
        match sub {
            Ok(v) => {
                return Ok(v);
            },
            Err(mut subissues) => {
                let ghost subm = subissues.deep_view();
                issues.append(&mut subissues);
                proof {
                    assert(issues.deep_view() =~= acci + subm);
                }
            },
        }
        i = i + 1;
    }
    Err(issues)
}

} // verus!
