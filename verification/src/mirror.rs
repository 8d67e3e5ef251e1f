//! The structural mirror: a JSON-schema-like description of a schema,
//! rendered as a plain value. Descriptive only; validation never reads it.

use vstd::prelude::*;
use vstd::string::StringExecFns;
use crate::value::Value;
use crate::value::ValueModel;
use crate::value::vmodel;
use crate::value::vmodel_fields;
use crate::value::vmodel_seq;
use crate::value::lemma_vmodel_fields;
use crate::value::lemma_vmodel_seq;
use crate::value::clone_value;
use crate::schema::HSchema;
use crate::schema::SchemaKind;
use crate::schema::SchemaModel;
use crate::schema::SchemaKindModel;
use crate::schema::StringFormat;
use crate::schema::FormatModel;
use crate::schema::smodel;
use crate::schema::sprops_model;
use crate::schema::salts_model;
use crate::schema::lemma_sprops_model;
use crate::schema::lemma_salts_model;

verus! {

/// The mirror name of a format: the pattern itself for a caller-supplied
/// pattern, a fixed name otherwise.
pub open spec fn format_name(f: FormatModel) -> Seq<char> {
    match f {
        FormatModel::Uuid => "uuid"@,
        FormatModel::Email => "email"@,
        FormatModel::Regex(p) => p,
        FormatModel::Phone => "phone"@,
        FormatModel::Domain { require_protocol: _ } => "domain"@,
    }
}

/// The mirror of a schema: its type, bounds, format, constant, properties,
/// items, alternatives or instance name, as a plain object value.
pub open spec fn mirror_model(s: SchemaModel) -> ValueModel
    decreases s, 0nat,
{
    match s.kind {
        SchemaKindModel::Str { min_len, max_len, format, coerce: _ } => ValueModel::Obj(
            seq![("type"@, ValueModel::Str("string"@))] + (match min_len {
                Some(n) => if n <= i64::MAX {
                    seq![("minLength"@, ValueModel::Num(n))]
                } else {
                    Seq::empty()
                },
                None => Seq::empty(),
            }) + (match max_len {
                Some(n) => if n <= i64::MAX {
                    seq![("maxLength"@, ValueModel::Num(n))]
                } else {
                    Seq::empty()
                },
                None => Seq::empty(),
            }) + (match format {
                Some(f) => seq![("format"@, ValueModel::Str(format_name(f)))],
                None => Seq::empty(),
            }),
        ),
        SchemaKindModel::Num { min, max, coerce: _ } => ValueModel::Obj(
            seq![("type"@, ValueModel::Str("number"@))] + (match min {
                Some(n) => seq![("minimum"@, ValueModel::Num(n))],
                None => Seq::empty(),
            }) + (match max {
                Some(n) => seq![("maximum"@, ValueModel::Num(n))],
                None => Seq::empty(),
            }),
        ),
        SchemaKindModel::Bool { coerce: _ } => ValueModel::Obj(
            seq![("type"@, ValueModel::Str("boolean"@))],
        ),
        SchemaKindModel::Obj { props } => ValueModel::Obj(
            seq![
                ("type"@, ValueModel::Str("object"@)),
                ("properties"@, ValueModel::Obj(mirror_props(props, 0))),
            ],
        ),
        SchemaKindModel::Arr { item } => ValueModel::Obj(
            seq![("type"@, ValueModel::Str("array"@)), ("items"@, mirror_model(*item))],
        ),
        SchemaKindModel::Lit { value } => ValueModel::Obj(seq![("const"@, value)]),
        SchemaKindModel::Union { alts } => ValueModel::Obj(
            seq![("anyOf"@, ValueModel::Arr(mirror_alts(alts, 0)))],
        ),
        SchemaKindModel::Inst { ctor: _, name } => ValueModel::Obj(
            seq![("type"@, ValueModel::Str("object"@)), ("instanceOf"@, ValueModel::Str(name))],
        ),
        SchemaKindModel::Any => ValueModel::Obj(Seq::empty()),
        SchemaKindModel::Null => ValueModel::Obj(seq![("type"@, ValueModel::Str("null"@))]),
    }
}

/// The mirrors of named child schemas from position `i` on.
pub open spec fn mirror_props(props: Seq<(Seq<char>, SchemaModel)>, i: int) -> Seq<
    (Seq<char>, ValueModel),
>
    decreases props, props.len() - i,
{
    if i < 0 || i >= props.len() {
        Seq::empty()
    } else {
        seq![(props[i].0, mirror_model(props[i].1))] + mirror_props(props, i + 1)
    }
}

/// The mirrors of union alternatives from position `i` on.
pub open spec fn mirror_alts(alts: Seq<SchemaModel>, i: int) -> Seq<ValueModel>
    decreases alts, alts.len() - i,
{
    if i < 0 || i >= alts.len() {
        Seq::empty()
    } else {
        seq![mirror_model(alts[i])] + mirror_alts(alts, i + 1)
    }
}

impl HSchema {
    /// The structural mirror of this schema, as a plain value.
    pub fn get_json_schema(&self) -> (r: Value)
        ensures
            r@ == mirror_model(self@),
        decreases *self, 0nat,
    {
        match &self.kind {
            SchemaKind::Str { min_len, max_len, format, coerce: _ } => {
                let mut fields: Vec<(String, Value)> = Vec::new();
                fields.push(
                    (String::from_str("type"), Value::Str(String::from_str("string"))),
                );
                match min_len {
                    Some(n) => {
                        if (*n as u64) <= 9223372036854775807u64 {
                            fields.push((String::from_str("minLength"), Value::Num(*n as i64)));
                        }
                    },
                    None => {},
                }
                match max_len {
                    Some(n) => {
                        if (*n as u64) <= 9223372036854775807u64 {
                            fields.push((String::from_str("maxLength"), Value::Num(*n as i64)));
                        }
                    },
                    None => {},
                }
                match format {
                    Some(f) => {
                        let fname = match f {
                            StringFormat::Uuid => String::from_str("uuid"),
                            StringFormat::Email => String::from_str("email"),
                            StringFormat::Regex(p) => p.clone(),
                            StringFormat::Phone => String::from_str("phone"),
                            StringFormat::Domain { require_protocol: _ } => String::from_str(
                                "domain",
                            ),
                        };
                        fields.push((String::from_str("format"), Value::Str(fname)));
                    },
                    None => {},
                }
                let r = Value::Obj(fields);
                proof {
                    lemma_vmodel_fields(fields@, 0);
                    assert(r@ matches ValueModel::Obj(m) && m =~= mirror_model(
                        self@,
                    )->Obj_0);
                }
                r
            },
            SchemaKind::Num { min, max, coerce: _ } => {
                let mut fields: Vec<(String, Value)> = Vec::new();
                fields.push(
                    (String::from_str("type"), Value::Str(String::from_str("number"))),
                );
                match min {
                    Some(n) => {
                        fields.push((String::from_str("minimum"), Value::Num(*n)));
                    },
                    None => {},
                }
                match max {
                    Some(n) => {
                        fields.push((String::from_str("maximum"), Value::Num(*n)));
                    },
                    None => {},
                }
                let r = Value::Obj(fields);
                proof {
                    lemma_vmodel_fields(fields@, 0);
                    assert(r@ matches ValueModel::Obj(m) && m =~= mirror_model(
                        self@,
                    )->Obj_0);
                }
                r
            },
            SchemaKind::Bool { coerce: _ } => {
                let mut fields: Vec<(String, Value)> = Vec::new();
                fields.push(
                    (String::from_str("type"), Value::Str(String::from_str("boolean"))),
                );
                let r = Value::Obj(fields);
                proof {
                    lemma_vmodel_fields(fields@, 0);
                    assert(r@ matches ValueModel::Obj(m) && m =~= mirror_model(
                        self@,
                    )->Obj_0);
                }
                r
            },
            SchemaKind::Obj { props } => {
                let inner = mirror_props_exec(props);
                let mut fields: Vec<(String, Value)> = Vec::new();
                fields.push(
                    (String::from_str("type"), Value::Str(String::from_str("object"))),
                );
                fields.push((String::from_str("properties"), Value::Obj(inner)));
                let r = Value::Obj(fields);
                proof {
                    lemma_vmodel_fields(fields@, 0);
                    assert(r@ matches ValueModel::Obj(m) && m =~= mirror_model(
                        self@,
                    )->Obj_0);
                }
                r
            },
            SchemaKind::Arr { item } => {
                let inner = item.get_json_schema();
                let mut fields: Vec<(String, Value)> = Vec::new();
                fields.push((String::from_str("type"), Value::Str(String::from_str("array"))));
                fields.push((String::from_str("items"), inner));
                let r = Value::Obj(fields);
                proof {
                    lemma_vmodel_fields(fields@, 0);
                    assert(r@ matches ValueModel::Obj(m) && m =~= mirror_model(
                        self@,
                    )->Obj_0);
                }
                r
            },
            SchemaKind::Lit { value } => {
                let mut fields: Vec<(String, Value)> = Vec::new();
                fields.push((String::from_str("const"), clone_value(value)));
                let r = Value::Obj(fields);
                proof {
                    lemma_vmodel_fields(fields@, 0);
                    assert(r@ matches ValueModel::Obj(m) && m =~= mirror_model(
                        self@,
                    )->Obj_0);
                }
                r
            },
            SchemaKind::Union { alts } => {
                let inner = mirror_alts_exec(alts);
                let mut fields: Vec<(String, Value)> = Vec::new();
                fields.push((String::from_str("anyOf"), Value::Arr(inner)));
                let r = Value::Obj(fields);
                proof {
                    lemma_vmodel_fields(fields@, 0);
                    assert(r@ matches ValueModel::Obj(m) && m =~= mirror_model(
                        self@,
                    )->Obj_0);
                }
                r
            },
            SchemaKind::Inst { ctor: _, name } => {
                let mut fields: Vec<(String, Value)> = Vec::new();
                fields.push(
                    (String::from_str("type"), Value::Str(String::from_str("object"))),
                );
                fields.push((String::from_str("instanceOf"), Value::Str(name.clone())));
                let r = Value::Obj(fields);
                proof {
                    lemma_vmodel_fields(fields@, 0);
                    assert(r@ matches ValueModel::Obj(m) && m =~= mirror_model(
                        self@,
                    )->Obj_0);
                }
                r
            },
            SchemaKind::Any => {
                let fields: Vec<(String, Value)> = Vec::new();
                let r = Value::Obj(fields);
                proof {
                    assert(vmodel_fields(fields@, 0) =~= Seq::<(Seq<char>, ValueModel)>::empty());
                }
                r
            },
            SchemaKind::Null => {
                let mut fields: Vec<(String, Value)> = Vec::new();
                fields.push((String::from_str("type"), Value::Str(String::from_str("null"))));
                let r = Value::Obj(fields);
                proof {
                    lemma_vmodel_fields(fields@, 0);
                    assert(r@ matches ValueModel::Obj(m) && m =~= mirror_model(
                        self@,
                    )->Obj_0);
                }
                r
            },
        }
    }
}

/// The mirrors of an object schema's properties, keys kept in order.
fn mirror_props_exec(props: &Vec<(String, HSchema)>) -> (r: Vec<(String, Value)>)
    ensures
        vmodel_fields(r@, 0) == mirror_props(sprops_model(props@, 0), 0),
    decreases *props, 1nat,
{
    let ghost mprops = sprops_model(props@, 0);
    proof {
        lemma_sprops_model(props@, 0);
        lemma_mirror_props_index(mprops, 0);
    }
    let mut out: Vec<(String, Value)> = Vec::new();
    let n = props.len();
    let mut i: usize = 0;
    while i < n
        invariant
            0 <= i <= n,
            n == props@.len(),
            mprops == sprops_model(props@, 0),
            mprops.len() == n,
            forall|k: int|
                0 <= k < n ==> #[trigger] mprops[k] == (props@[k].0@, smodel(props@[k].1)),
            mirror_props(mprops, 0).len() == n,
            forall|k: int|
                0 <= k < n ==> #[trigger] mirror_props(mprops, 0)[k] == (
                mprops[k].0,
                mirror_model(mprops[k].1),
                ),
            out@.len() == i,
            forall|k: int|
                0 <= k < i ==> (#[trigger] out@[k]).0@ == mprops[k].0 && vmodel(out@[k].1)
                    == mirror_model(mprops[k].1),
        decreases n - i,
    {
        let key = props[i].0.clone();
        let m = props[i].1.get_json_schema();
        out.push((key, m));
        i = i + 1;
    }
    proof {
        lemma_vmodel_fields(out@, 0);
        assert(vmodel_fields(out@, 0) =~= mirror_props(mprops, 0));
    }
    out
}

/// The mirrors of a union's alternatives, in order.
fn mirror_alts_exec(alts: &Vec<HSchema>) -> (r: Vec<Value>)
    ensures
        vmodel_seq(r@, 0) == mirror_alts(salts_model(alts@, 0), 0),
    decreases *alts, 1nat,
{
    let ghost malts = salts_model(alts@, 0);
    proof {
        lemma_salts_model(alts@, 0);
        lemma_mirror_alts_index(malts, 0);
    }
    let mut out: Vec<Value> = Vec::new();
    let n = alts.len();
    let mut i: usize = 0;
    while i < n
        invariant
            0 <= i <= n,
            n == alts@.len(),
            malts == salts_model(alts@, 0),
            malts.len() == n,
            forall|k: int| 0 <= k < n ==> #[trigger] malts[k] == smodel(alts@[k]),
            mirror_alts(malts, 0).len() == n,
            forall|k: int|
                0 <= k < n ==> #[trigger] mirror_alts(malts, 0)[k] == mirror_model(malts[k]),
            out@.len() == i,
            forall|k: int| 0 <= k < i ==> vmodel(#[trigger] out@[k]) == mirror_model(malts[k]),
        decreases n - i,
    {
        let m = alts[i].get_json_schema();
        out.push(m);
        i = i + 1;
    }
    proof {
        lemma_vmodel_seq(out@, 0);
        assert(vmodel_seq(out@, 0) =~= mirror_alts(malts, 0));
    }
    out
}

/// `mirror_props` keeps the length, keys and order.
proof fn lemma_mirror_props_index(props: Seq<(Seq<char>, SchemaModel)>, i: int)
    requires
        0 <= i <= props.len(),
    ensures
        mirror_props(props, i).len() == props.len() - i,
        forall|k: int|
            0 <= k < props.len() - i ==> #[trigger] mirror_props(props, i)[k] == (
            props[k + i].0,
            mirror_model(props[k + i].1),
            ),
    decreases props.len() - i,
{
    if i < props.len() {
        lemma_mirror_props_index(props, i + 1);
    }
}

/// `mirror_alts` keeps the length and order.
proof fn lemma_mirror_alts_index(alts: Seq<SchemaModel>, i: int)
    requires
        0 <= i <= alts.len(),
    ensures
        mirror_alts(alts, i).len() == alts.len() - i,
        forall|k: int|
            0 <= k < alts.len() - i ==> #[trigger] mirror_alts(alts, i)[k] == mirror_model(
                alts[k + i],
            ),
    decreases alts.len() - i,
{
    if i < alts.len() {
        lemma_mirror_alts_index(alts, i + 1);
    }
}

} // verus!
