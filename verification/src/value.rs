//! The dynamic values that schemas are validated against.
//!
//! The engine is written against a tagged representation of the host's
//! dynamic values: primitives, ordered arrays, objects with named fields in
//! declaration order, and opaque class instances. An instance carries the
//! handles of the constructors it is an instance of, so the host's identity
//! predicate becomes a membership test on plain values.

use vstd::prelude::*;
use vstd::string::StringExecFns;

verus! {

/// A dynamically typed input or output value.
#[derive(Debug, PartialEq, Eq)]
pub enum Value {
    /// An absent value.
    Undefined,
    /// The explicit null sentinel.
    Null,
    Bool(bool),
    Num(i64),
    Str(String),
    Arr(Vec<Value>),
    /// Named fields in declaration order.
    Obj(Vec<(String, Value)>),
    /// An opaque instance, carrying the constructor handles it satisfies.
    Instance(Vec<u64>),
}

/// The mathematical model of a `Value`.
pub enum ValueModel {
    Undefined,
    Null,
    Bool(bool),
    Num(int),
    Str(Seq<char>),
    Arr(Seq<ValueModel>),
    Obj(Seq<(Seq<char>, ValueModel)>),
    Instance(Seq<u64>),
}

/// The model of a value, by structural recursion.
pub open spec fn vmodel(v: Value) -> ValueModel
    decreases v, 0nat,
{
    match v {
        Value::Undefined => ValueModel::Undefined,
        Value::Null => ValueModel::Null,
        Value::Bool(b) => ValueModel::Bool(b),
        Value::Num(n) => ValueModel::Num(n as int),
        Value::Str(s) => ValueModel::Str(s@),
        Value::Arr(items) => ValueModel::Arr(vmodel_seq(items@, 0)),
        Value::Obj(fields) => ValueModel::Obj(vmodel_fields(fields@, 0)),
        Value::Instance(classes) => ValueModel::Instance(classes@),
    }
}

/// Models of the elements of `items` from position `i` on.
pub open spec fn vmodel_seq(items: Seq<Value>, i: int) -> Seq<ValueModel>
    decreases items, items.len() - i,
{
    if i < 0 || i >= items.len() {
        Seq::empty()
    } else {
        seq![vmodel(items[i])] + vmodel_seq(items, i + 1)
    }
}

/// Models of the named fields of `fields` from position `i` on.
pub open spec fn vmodel_fields(fields: Seq<(String, Value)>, i: int) -> Seq<
    (Seq<char>, ValueModel),
>
    decreases fields, fields.len() - i,
{
    if i < 0 || i >= fields.len() {
        Seq::empty()
    } else {
        seq![(fields[i].0@, vmodel(fields[i].1))] + vmodel_fields(fields, i + 1)
    }
}

impl View for Value {
    type V = ValueModel;

    open spec fn view(&self) -> ValueModel {
        vmodel(*self)
    }
}

/// `vmodel_seq` keeps the length and models each element in place.
pub proof fn lemma_vmodel_seq(items: Seq<Value>, i: int)
    requires
        0 <= i <= items.len(),
    ensures
        vmodel_seq(items, i).len() == items.len() - i,
        forall|k: int|
            0 <= k < items.len() - i ==> #[trigger] vmodel_seq(items, i)[k] == vmodel(
                items[k + i],
            ),
    decreases items.len() - i,
{
    if i < items.len() {
        lemma_vmodel_seq(items, i + 1);
    }
}

/// `vmodel_fields` keeps the length, the keys and the order.
pub proof fn lemma_vmodel_fields(fields: Seq<(String, Value)>, i: int)
    requires
        0 <= i <= fields.len(),
    ensures
        vmodel_fields(fields, i).len() == fields.len() - i,
        forall|k: int|
            0 <= k < fields.len() - i ==> #[trigger] vmodel_fields(fields, i)[k] == (
            fields[k + i].0@,
            vmodel(fields[k + i].1),
            ),
    decreases fields.len() - i,
{
    if i < fields.len() {
        lemma_vmodel_fields(fields, i + 1);
    }
}

/// The host's truthiness rule: absent values, null, `false`, zero and the
/// empty string are falsy; everything else is truthy.
pub open spec fn truthy_model(v: ValueModel) -> bool {
    match v {
        ValueModel::Undefined => false,
        ValueModel::Null => false,
        ValueModel::Bool(b) => b,
        ValueModel::Num(n) => n != 0,
        ValueModel::Str(s) => s.len() != 0,
        ValueModel::Arr(_) => true,
        ValueModel::Obj(_) => true,
        ValueModel::Instance(_) => true,
    }
}

/// Truthiness of a value.
pub fn truthy(v: &Value) -> (r: bool)
    ensures
        r == truthy_model(v@),
{
    match v {
        Value::Undefined => false,
        Value::Null => false,
        Value::Bool(b) => *b,
        Value::Num(n) => *n != 0,
        Value::Str(s) => !s.as_str().is_empty(),
        Value::Arr(_) => true,
        Value::Obj(_) => true,
        Value::Instance(_) => true,
    }
}

/// Strict equality in the host's sense: primitives compare by value; arrays,
/// objects and instances compare by identity, which distinct values never
/// share, so they are never strictly equal here.
pub open spec fn strict_eq_model(a: ValueModel, b: ValueModel) -> bool {
    match (a, b) {
        (ValueModel::Undefined, ValueModel::Undefined) => true,
        (ValueModel::Null, ValueModel::Null) => true,
        (ValueModel::Bool(x), ValueModel::Bool(y)) => x == y,
        (ValueModel::Num(x), ValueModel::Num(y)) => x == y,
        (ValueModel::Str(x), ValueModel::Str(y)) => x == y,
        _ => false,
    }
}

/// Strict equality of two values.
pub fn strict_eq(a: &Value, b: &Value) -> (r: bool)
    ensures
        r == strict_eq_model(a@, b@),
{
    match (a, b) {
        (Value::Undefined, Value::Undefined) => true,
        (Value::Null, Value::Null) => true,
        (Value::Bool(x), Value::Bool(y)) => *x == *y,
        (Value::Num(x), Value::Num(y)) => *x == *y,
        (Value::Str(x), Value::Str(y)) => x.eq(y),
        _ => false,
    }
}

/// A short name for the type of a value, used in mismatch messages.
pub open spec fn kind_name_model(v: ValueModel) -> Seq<char> {
    match v {
        ValueModel::Undefined => "undefined"@,
        ValueModel::Null => "null"@,
        ValueModel::Bool(_) => "boolean"@,
        ValueModel::Num(_) => "number"@,
        ValueModel::Str(_) => "string"@,
        ValueModel::Arr(_) => "array"@,
        ValueModel::Obj(_) => "object"@,
        ValueModel::Instance(_) => "instance"@,
    }
}

/// The type name of a value.
pub fn kind_name(v: &Value) -> (r: String)
    ensures
        r@ == kind_name_model(v@),
{
    match v {
        Value::Undefined => String::from_str("undefined"),
        Value::Null => String::from_str("null"),
        Value::Bool(_) => String::from_str("boolean"),
        Value::Num(_) => String::from_str("number"),
        Value::Str(_) => String::from_str("string"),
        Value::Arr(_) => String::from_str("array"),
        Value::Obj(_) => String::from_str("object"),
        Value::Instance(_) => String::from_str("instance"),
    }
}

/// Field lookup on an object model: the value of the first field named
/// `key`, or an absent value when no field carries that name.
pub open spec fn lookup_model(fields: Seq<(Seq<char>, ValueModel)>, key: Seq<char>) -> ValueModel
    decreases fields.len(),
{
    if fields.len() == 0 {
        ValueModel::Undefined
    } else if fields[0].0 == key {
        fields[0].1
    } else {
        lookup_model(fields.drop_first(), key)
    }
}

/// Membership of a constructor handle in an instance's handle list.
pub fn contains_handle(classes: &Vec<u64>, ctor: u64) -> (r: bool)
    ensures
        r == classes@.contains(ctor),
{
    let mut i: usize = 0;
    while i < classes.len()
        invariant
            0 <= i <= classes.len(),
            forall|k: int| 0 <= k < i ==> classes@[k] != ctor,
        decreases classes.len() - i,
    {
        if classes[i] == ctor {
            assert(classes@[i as int] == ctor);
            return true;
        }
        i = i + 1;
    }
    false
}

/// A deep copy of a value, equal to the original in the model.
pub fn clone_value(v: &Value) -> (r: Value)
    ensures
        r@ == v@,
    decreases *v, 0nat,
{
    match v {
        Value::Undefined => Value::Undefined,
        Value::Null => Value::Null,
        Value::Bool(b) => Value::Bool(*b),
        Value::Num(n) => Value::Num(*n),
        Value::Str(s) => Value::Str(s.clone()),
        Value::Arr(items) => {
            let cloned = clone_values(items);
            proof {
                lemma_vmodel_seq(items@, 0);
                lemma_vmodel_seq(cloned@, 0);
                assert(vmodel_seq(cloned@, 0) =~= vmodel_seq(items@, 0));
            }
            Value::Arr(cloned)
        },
        Value::Obj(fields) => {
            let cloned = clone_fields(fields);
            proof {
                lemma_vmodel_fields(fields@, 0);
                lemma_vmodel_fields(cloned@, 0);
                assert(vmodel_fields(cloned@, 0) =~= vmodel_fields(fields@, 0));
            }
            Value::Obj(cloned)
        },
        Value::Instance(classes) => {
            let cloned = clone_handles(classes);
            Value::Instance(cloned)
        },
    }
}

/// A deep copy of a vector of values.
pub fn clone_values(items: &Vec<Value>) -> (r: Vec<Value>)
    ensures
        r@.len() == items@.len(),
        forall|k: int| 0 <= k < items@.len() ==> vmodel(#[trigger] r@[k]) == vmodel(items@[k]),
    decreases *items, 1nat,
{
    let mut out: Vec<Value> = Vec::new();
    let mut i: usize = 0;
    while i < items.len()
        invariant
            0 <= i <= items.len(),
            out@.len() == i,
            forall|k: int| 0 <= k < i ==> vmodel(#[trigger] out@[k]) == vmodel(items@[k]),
        decreases items.len() - i,
    {
        let c = clone_value(&items[i]);
        out.push(c);
        i = i + 1;
    }
    out
}

/// A deep copy of an object's field list.
pub fn clone_fields(fields: &Vec<(String, Value)>) -> (r: Vec<(String, Value)>)
    ensures
        r@.len() == fields@.len(),
        forall|k: int|
            0 <= k < fields@.len() ==> (#[trigger] r@[k]).0@ == fields@[k].0@ && vmodel(r@[k].1)
                == vmodel(fields@[k].1),
    decreases *fields, 1nat,
{
    let mut out: Vec<(String, Value)> = Vec::new();
    let mut i: usize = 0;
    while i < fields.len()
        invariant
            0 <= i <= fields.len(),
            out@.len() == i,
            forall|k: int|
                0 <= k < i ==> (#[trigger] out@[k]).0@ == fields@[k].0@ && vmodel(out@[k].1)
                    == vmodel(fields@[k].1),
        decreases fields.len() - i,
    {
        let key = fields[i].0.clone();
        let c = clone_value(&fields[i].1);
        out.push((key, c));
        i = i + 1;
    }
    out
}

/// A copy of an instance's handle list.
pub fn clone_handles(classes: &Vec<u64>) -> (r: Vec<u64>)
    ensures
        r@ == classes@,
{
    let mut out: Vec<u64> = Vec::new();
    let mut i: usize = 0;
    while i < classes.len()
        invariant
            0 <= i <= classes.len(),
            out@.len() == i,
            forall|k: int| 0 <= k < i ==> out@[k] == classes@[k],
        decreases classes.len() - i,
    {
        out.push(classes[i]);
        i = i + 1;
    }
    assert(out@ =~= classes@);
    out
}

} // verus!
