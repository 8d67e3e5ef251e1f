//! The schema model: a closed set of variants, fluent constructors, and
//! copy-on-write modifiers. A modifier never changes its receiver; it hands
//! back a new schema, so fragments can be shared by several parents.

use vstd::prelude::*;
use crate::value::Value;
use crate::value::ValueModel;
use crate::value::vmodel;
use crate::value::clone_value;

verus! {

/// The format a string schema can demand.
pub enum StringFormat {
    Uuid,
    Email,
    /// A caller-supplied pattern for the pattern engine.
    Regex(String),
    Phone,
    Domain { require_protocol: bool },
}

/// The model of a string format.
pub enum FormatModel {
    Uuid,
    Email,
    Regex(Seq<char>),
    Phone,
    Domain { require_protocol: bool },
}

/// The model of a format value.
pub open spec fn fmodel(f: StringFormat) -> FormatModel {
    match f {
        StringFormat::Uuid => FormatModel::Uuid,
        StringFormat::Email => FormatModel::Email,
        StringFormat::Regex(p) => FormatModel::Regex(p@),
        StringFormat::Phone => FormatModel::Phone,
        StringFormat::Domain { require_protocol } => FormatModel::Domain { require_protocol },
    }
}

impl View for StringFormat {
    type V = FormatModel;

    open spec fn view(&self) -> FormatModel {
        fmodel(*self)
    }
}

/// The variant of a schema, with its variant-specific configuration.
pub enum SchemaKind {
    Str {
        min_len: Option<usize>,
        max_len: Option<usize>,
        format: Option<StringFormat>,
        coerce: bool,
    },
    Num { min: Option<i64>, max: Option<i64>, coerce: bool },
    Bool { coerce: bool },
    /// Property name to child schema, in insertion order, names unique.
    Obj { props: Vec<(String, HSchema)> },
    Arr { item: Box<HSchema> },
    Lit { value: Value },
    /// Alternatives in trial order.
    Union { alts: Vec<HSchema> },
    /// An opaque constructor handle and a display name.
    Inst { ctor: u64, name: String },
    Any,
    Null,
}

/// An immutable, recursively composable schema.
pub struct HSchema {
    pub kind: SchemaKind,
    pub is_optional: bool,
}

/// The model of a schema kind.
pub enum SchemaKindModel {
    Str {
        min_len: Option<int>,
        max_len: Option<int>,
        format: Option<FormatModel>,
        coerce: bool,
    },
    Num { min: Option<int>, max: Option<int>, coerce: bool },
    Bool { coerce: bool },
    Obj { props: Seq<(Seq<char>, SchemaModel)> },
    Arr { item: Box<SchemaModel> },
    Lit { value: ValueModel },
    Union { alts: Seq<SchemaModel> },
    Inst { ctor: u64, name: Seq<char> },
    Any,
    Null,
}

/// The model of a schema.
pub struct SchemaModel {
    pub kind: SchemaKindModel,
    pub optional: bool,
}

/// The model of a schema, by structural recursion.
pub open spec fn smodel(s: HSchema) -> SchemaModel
    decreases s, 1nat,
{
    SchemaModel { kind: skmodel(s.kind), optional: s.is_optional }
}

/// The model of a schema kind.
pub open spec fn skmodel(k: SchemaKind) -> SchemaKindModel
    decreases k, 1nat,
{
    match k {
        SchemaKind::Str { min_len, max_len, format, coerce } => SchemaKindModel::Str {
            min_len: match min_len {
                Some(n) => Some(n as int),
                None => None,
            },
            max_len: match max_len {
                Some(n) => Some(n as int),
                None => None,
            },
            format: match format {
                Some(f) => Some(fmodel(f)),
                None => None,
            },
            coerce,
        },
        SchemaKind::Num { min, max, coerce } => SchemaKindModel::Num {
            min: match min {
                Some(n) => Some(n as int),
                None => None,
            },
            max: match max {
                Some(n) => Some(n as int),
                None => None,
            },
            coerce,
        },
        SchemaKind::Bool { coerce } => SchemaKindModel::Bool { coerce },
        SchemaKind::Obj { props } => SchemaKindModel::Obj { props: sprops_model(props@, 0) },
        SchemaKind::Arr { item } => SchemaKindModel::Arr { item: Box::new(smodel(*item)) },
        SchemaKind::Lit { value } => SchemaKindModel::Lit { value: vmodel(value) },
        SchemaKind::Union { alts } => SchemaKindModel::Union { alts: salts_model(alts@, 0) },
        SchemaKind::Inst { ctor, name } => SchemaKindModel::Inst { ctor, name: name@ },
        SchemaKind::Any => SchemaKindModel::Any,
        SchemaKind::Null => SchemaKindModel::Null,
    }
}

/// Models of the named child schemas of `props` from position `i` on.
pub open spec fn sprops_model(props: Seq<(String, HSchema)>, i: int) -> Seq<
    (Seq<char>, SchemaModel),
>
    decreases props, props.len() - i,
{
    if i < 0 || i >= props.len() {
        Seq::empty()
    } else {
        seq![(props[i].0@, smodel(props[i].1))] + sprops_model(props, i + 1)
    }
}

/// Models of the schemas of `alts` from position `i` on.
pub open spec fn salts_model(alts: Seq<HSchema>, i: int) -> Seq<SchemaModel>
    decreases alts, alts.len() - i,
{
    if i < 0 || i >= alts.len() {
        Seq::empty()
    } else {
        seq![smodel(alts[i])] + salts_model(alts, i + 1)
    }
}

impl View for HSchema {
    type V = SchemaModel;

    open spec fn view(&self) -> SchemaModel {
        smodel(*self)
    }
}

/// `sprops_model` keeps the length, the keys and the order.
pub proof fn lemma_sprops_model(props: Seq<(String, HSchema)>, i: int)
    requires
        0 <= i <= props.len(),
    ensures
        sprops_model(props, i).len() == props.len() - i,
        forall|k: int|
            0 <= k < props.len() - i ==> #[trigger] sprops_model(props, i)[k] == (
            props[k + i].0@,
            smodel(props[k + i].1),
            ),
    decreases props.len() - i,
{
    if i < props.len() {
        lemma_sprops_model(props, i + 1);
    }
}

/// `salts_model` keeps the length and the order.
pub proof fn lemma_salts_model(alts: Seq<HSchema>, i: int)
    requires
        0 <= i <= alts.len(),
    ensures
        salts_model(alts, i).len() == alts.len() - i,
        forall|k: int|
            0 <= k < alts.len() - i ==> #[trigger] salts_model(alts, i)[k] == smodel(alts[k + i]),
    decreases alts.len() - i,
{
    if i < alts.len() {
        lemma_salts_model(alts, i + 1);
    }
}

/// A fresh string schema model.
pub open spec fn string_model() -> SchemaModel {
    SchemaModel {
        kind: SchemaKindModel::Str { min_len: None, max_len: None, format: None, coerce: false },
        optional: false,
    }
}

/// A fresh number schema model.
pub open spec fn number_model() -> SchemaModel {
    SchemaModel {
        kind: SchemaKindModel::Num { min: None, max: None, coerce: false },
        optional: false,
    }
}

/// A fresh boolean schema model.
pub open spec fn boolean_model() -> SchemaModel {
    SchemaModel { kind: SchemaKindModel::Bool { coerce: false }, optional: false }
}

/// The schema model that accepts anything.
pub open spec fn any_model() -> SchemaModel {
    SchemaModel { kind: SchemaKindModel::Any, optional: false }
}

/// The schema model that accepts only null.
pub open spec fn null_model() -> SchemaModel {
    SchemaModel { kind: SchemaKindModel::Null, optional: false }
}

/// A literal schema model.
pub open spec fn lit_model(v: ValueModel) -> SchemaModel {
    SchemaModel { kind: SchemaKindModel::Lit { value: v }, optional: false }
}

/// A fresh object schema model, with no properties yet.
pub open spec fn object_model() -> SchemaModel {
    SchemaModel { kind: SchemaKindModel::Obj { props: Seq::empty() }, optional: false }
}

/// An array schema model.
pub open spec fn array_model(item: SchemaModel) -> SchemaModel {
    SchemaModel { kind: SchemaKindModel::Arr { item: Box::new(item) }, optional: false }
}

/// A union schema model.
pub open spec fn union_model(alts: Seq<SchemaModel>) -> SchemaModel {
    SchemaModel { kind: SchemaKindModel::Union { alts }, optional: false }
}

/// An instance schema model.
pub open spec fn inst_model(ctor: u64, name: Seq<char>) -> SchemaModel {
    SchemaModel { kind: SchemaKindModel::Inst { ctor, name }, optional: false }
}

/// The same schema, marked optional.
pub open spec fn with_optional(s: SchemaModel) -> SchemaModel {
    SchemaModel { kind: s.kind, optional: true }
}

/// The same schema with coercion switched on; a no-op on variants without a
/// coercion flag.
pub open spec fn with_coerce(s: SchemaModel) -> SchemaModel {
    match s.kind {
        SchemaKindModel::Str { min_len, max_len, format, coerce: _ } => SchemaModel {
            kind: SchemaKindModel::Str { min_len, max_len, format, coerce: true },
            optional: s.optional,
        },
        SchemaKindModel::Num { min, max, coerce: _ } => SchemaModel {
            kind: SchemaKindModel::Num { min, max, coerce: true },
            optional: s.optional,
        },
        SchemaKindModel::Bool { coerce: _ } => SchemaModel {
            kind: SchemaKindModel::Bool { coerce: true },
            optional: s.optional,
        },
        _ => s,
    }
}

/// The same schema with a lower length bound; a no-op off strings.
pub open spec fn with_min_len(s: SchemaModel, n: int) -> SchemaModel {
    match s.kind {
        SchemaKindModel::Str { min_len: _, max_len, format, coerce } => SchemaModel {
            kind: SchemaKindModel::Str { min_len: Some(n), max_len, format, coerce },
            optional: s.optional,
        },
        _ => s,
    }
}

/// The same schema with an upper length bound; a no-op off strings.
pub open spec fn with_max_len(s: SchemaModel, n: int) -> SchemaModel {
    match s.kind {
        SchemaKindModel::Str { min_len, max_len: _, format, coerce } => SchemaModel {
            kind: SchemaKindModel::Str { min_len, max_len: Some(n), format, coerce },
            optional: s.optional,
        },
        _ => s,
    }
}

/// The same schema with the given format, replacing any earlier one; a
/// no-op off strings.
pub open spec fn with_format(s: SchemaModel, f: FormatModel) -> SchemaModel {
    match s.kind {
        SchemaKindModel::Str { min_len, max_len, format: _, coerce } => SchemaModel {
            kind: SchemaKindModel::Str { min_len, max_len, format: Some(f), coerce },
            optional: s.optional,
        },
        _ => s,
    }
}

/// The same schema with a lower bound; a no-op off numbers.
pub open spec fn with_min(s: SchemaModel, n: int) -> SchemaModel {
    match s.kind {
        SchemaKindModel::Num { min: _, max, coerce } => SchemaModel {
            kind: SchemaKindModel::Num { min: Some(n), max, coerce },
            optional: s.optional,
        },
        _ => s,
    }
}

/// The same schema with an upper bound; a no-op off numbers.
pub open spec fn with_max(s: SchemaModel, n: int) -> SchemaModel {
    match s.kind {
        SchemaKindModel::Num { min, max: _, coerce } => SchemaModel {
            kind: SchemaKindModel::Num { min, max: Some(n), coerce },
            optional: s.optional,
        },
        _ => s,
    }
}

/// Inserts or replaces a named property in a property list: an existing
/// name keeps its position with the new child; a new name goes at the end.
pub open spec fn upsert(
    props: Seq<(Seq<char>, SchemaModel)>,
    key: Seq<char>,
    child: SchemaModel,
) -> Seq<(Seq<char>, SchemaModel)>
    decreases props.len(),
{
    if props.len() == 0 {
        seq![(key, child)]
    } else if props[0].0 == key {
        seq![(key, child)] + props.drop_first()
    } else {
        seq![props[0]] + upsert(props.drop_first(), key, child)
    }
}

/// The same schema with the property inserted or replaced; a no-op off
/// objects.
pub open spec fn with_prop(s: SchemaModel, key: Seq<char>, child: SchemaModel) -> SchemaModel {
    match s.kind {
        SchemaKindModel::Obj { props } => SchemaModel {
            kind: SchemaKindModel::Obj { props: upsert(props, key, child) },
            optional: s.optional,
        },
        _ => s,
    }
}

/// `upsert` on a list holding the key updates it in place.
pub proof fn lemma_upsert_found(
    props: Seq<(Seq<char>, SchemaModel)>,
    key: Seq<char>,
    child: SchemaModel,
    fi: int,
)
    requires
        0 <= fi < props.len(),
        props[fi].0 == key,
        forall|m: int| 0 <= m < fi ==> props[m].0 != key,
    ensures
        upsert(props, key, child) =~= props.update(fi, (key, child)),
    decreases props.len(),
{
    if fi == 0 {
        assert(upsert(props, key, child) == seq![(key, child)] + props.drop_first());
    } else {
        assert(props.drop_first()[fi - 1].0 == key);
        assert(forall|m: int| 0 <= m < fi - 1 ==> #[trigger] props.drop_first()[m].0 != key);
        lemma_upsert_found(props.drop_first(), key, child, fi - 1);
    }
}

/// `upsert` on a list without the key appends it.
pub proof fn lemma_upsert_absent(
    props: Seq<(Seq<char>, SchemaModel)>,
    key: Seq<char>,
    child: SchemaModel,
)
    requires
        forall|m: int| 0 <= m < props.len() ==> (#[trigger] props[m]).0 != key,
    ensures
        upsert(props, key, child) =~= props.push((key, child)),
    decreases props.len(),
{
    if props.len() > 0 {
        assert(forall|m: int|
            0 <= m < props.drop_first().len() ==> (#[trigger] props.drop_first()[m]).0 != key);
        lemma_upsert_absent(props.drop_first(), key, child);
    }
}

/// A deep copy of a schema, equal to the original in the model.
pub fn clone_schema(s: &HSchema) -> (r: HSchema)
    ensures
        r@ == s@,
    decreases *s, 2nat,
{
    HSchema { kind: clone_kind(&s.kind), is_optional: s.is_optional }
}

/// A deep copy of a schema kind.
pub fn clone_kind(k: &SchemaKind) -> (r: SchemaKind)
    ensures
        skmodel(r) == skmodel(*k),
    decreases *k, 2nat,
{
    match k {
        SchemaKind::Str { min_len, max_len, format, coerce } => SchemaKind::Str {
            min_len: *min_len,
            max_len: *max_len,
            format: match format {
                Some(f) => Some(clone_format(f)),
                None => None,
            },
            coerce: *coerce,
        },
        SchemaKind::Num { min, max, coerce } => SchemaKind::Num {
            min: *min,
            max: *max,
            coerce: *coerce,
        },
        SchemaKind::Bool { coerce } => SchemaKind::Bool { coerce: *coerce },
        SchemaKind::Obj { props } => {
            let cloned = clone_props(props);
            proof {
                lemma_sprops_model(props@, 0);
                lemma_sprops_model(cloned@, 0);
                assert(sprops_model(cloned@, 0) =~= sprops_model(props@, 0));
            }
            SchemaKind::Obj { props: cloned }
        },
        SchemaKind::Arr { item } => SchemaKind::Arr { item: Box::new(clone_schema(item)) },
        SchemaKind::Lit { value } => SchemaKind::Lit { value: clone_value(value) },
        SchemaKind::Union { alts } => {
            let cloned = clone_alts(alts);
            proof {
                lemma_salts_model(alts@, 0);
                lemma_salts_model(cloned@, 0);
                assert(salts_model(cloned@, 0) =~= salts_model(alts@, 0));
            }
            SchemaKind::Union { alts: cloned }
        },
        SchemaKind::Inst { ctor, name } => SchemaKind::Inst { ctor: *ctor, name: name.clone() },
        SchemaKind::Any => SchemaKind::Any,
        SchemaKind::Null => SchemaKind::Null,
    }
}

/// A copy of a format.
pub fn clone_format(f: &StringFormat) -> (r: StringFormat)
    ensures
        r@ == f@,
{
    match f {
        StringFormat::Uuid => StringFormat::Uuid,
        StringFormat::Email => StringFormat::Email,
        StringFormat::Regex(p) => StringFormat::Regex(p.clone()),
        StringFormat::Phone => StringFormat::Phone,
        StringFormat::Domain { require_protocol } => StringFormat::Domain {
            require_protocol: *require_protocol,
        },
    }
}

/// A deep copy of a property list.
pub fn clone_props(props: &Vec<(String, HSchema)>) -> (r: Vec<(String, HSchema)>)
    ensures
        r@.len() == props@.len(),
        forall|k: int|
            0 <= k < props@.len() ==> (#[trigger] r@[k]).0@ == props@[k].0@ && smodel(r@[k].1)
                == smodel(props@[k].1),
    decreases *props, 3nat,
{
    let mut out: Vec<(String, HSchema)> = Vec::new();
    let mut i: usize = 0;
    while i < props.len()
        invariant
            0 <= i <= props.len(),
            out@.len() == i,
            forall|k: int|
                0 <= k < i ==> (#[trigger] out@[k]).0@ == props@[k].0@ && smodel(out@[k].1)
                    == smodel(props@[k].1),
        decreases props.len() - i,
    {
        let key = props[i].0.clone();
        let c = clone_schema(&props[i].1);
        out.push((key, c));
        i = i + 1;
    }
    out
}

/// A deep copy of an alternative list.
pub fn clone_alts(alts: &Vec<HSchema>) -> (r: Vec<HSchema>)
    ensures
        r@.len() == alts@.len(),
        forall|k: int| 0 <= k < alts@.len() ==> smodel(#[trigger] r@[k]) == smodel(alts@[k]),
    decreases *alts, 3nat,
{
    let mut out: Vec<HSchema> = Vec::new();
    let mut i: usize = 0;
    while i < alts.len()
        invariant
            0 <= i <= alts.len(),
            out@.len() == i,
            forall|k: int| 0 <= k < i ==> smodel(#[trigger] out@[k]) == smodel(alts@[k]),
        decreases alts.len() - i,
    {
        let c = clone_schema(&alts[i]);
        out.push(c);
        i = i + 1;
    }
    out
}

impl HSchema {
    /// A string schema with no bounds, no format and no coercion.
    pub fn string() -> (r: HSchema)
        ensures
            r@ == string_model(),
    {
        HSchema {
            kind: SchemaKind::Str { min_len: None, max_len: None, format: None, coerce: false },
            is_optional: false,
        }
    }

    /// A number schema with no bounds and no coercion.
    pub fn number() -> (r: HSchema)
        ensures
            r@ == number_model(),
    {
        HSchema {
            kind: SchemaKind::Num { min: None, max: None, coerce: false },
            is_optional: false,
        }
    }

    /// A boolean schema with no coercion.
    pub fn boolean() -> (r: HSchema)
        ensures
            r@ == boolean_model(),
    {
        HSchema { kind: SchemaKind::Bool { coerce: false }, is_optional: false }
    }

    /// The schema that accepts any value unchanged.
    pub fn any() -> (r: HSchema)
        ensures
            r@ == any_model(),
    {
        HSchema { kind: SchemaKind::Any, is_optional: false }
    }

    /// The schema that accepts only the null sentinel.
    pub fn null_type() -> (r: HSchema)
        ensures
            r@ == null_model(),
    {
        HSchema { kind: SchemaKind::Null, is_optional: false }
    }

    /// A schema that accepts exactly the given value, by strict equality.
    pub fn literal(value: Value) -> (r: HSchema)
        ensures
            r@ == lit_model(value@),
    {
        HSchema { kind: SchemaKind::Lit { value }, is_optional: false }
    }

    /// An object schema with no properties yet; add them with `add_prop`.
    pub fn object() -> (r: HSchema)
        ensures
            r@ == object_model(),
    {
        let props: Vec<(String, HSchema)> = Vec::new();
        proof {
            assert(sprops_model(props@, 0) =~= Seq::<(Seq<char>, SchemaModel)>::empty());
        }
        HSchema { kind: SchemaKind::Obj { props }, is_optional: false }
    }

    /// An array schema: every element is checked against `item`.
    pub fn array(item: &HSchema) -> (r: HSchema)
        ensures
            r@ == array_model(item@),
    {
        HSchema {
            kind: SchemaKind::Arr { item: Box::new(clone_schema(item)) },
            is_optional: false,
        }
    }

    /// A union schema: the alternatives are tried in the given order.
    pub fn union(schemas_arr: Vec<HSchema>) -> (r: HSchema)
        ensures
            r@ == union_model(salts_model(schemas_arr@, 0)),
    {
        HSchema { kind: SchemaKind::Union { alts: schemas_arr }, is_optional: false }
    }

    /// A schema that accepts instances of the constructor behind `ctor`.
    pub fn instance_of(ctor: u64, name: String) -> (r: HSchema)
        ensures
            r@ == inst_model(ctor, name@),
    {
        HSchema { kind: SchemaKind::Inst { ctor, name }, is_optional: false }
    }

    /// A copy of this schema that also accepts absent values.
    pub fn optional(&self) -> (r: HSchema)
        ensures
            r@ == with_optional(self@),
    {
        let c = clone_schema(self);
        HSchema { kind: c.kind, is_optional: true }
    }

    /// A copy of this schema with coercion switched on, where the variant
    /// has a coercion flag.
    pub fn coerce(&self) -> (r: HSchema)
        ensures
            r@ == with_coerce(self@),
    {
        let c = clone_schema(self);
        match c.kind {
            SchemaKind::Str { min_len, max_len, format, coerce: _ } => HSchema {
                kind: SchemaKind::Str { min_len, max_len, format, coerce: true },
                is_optional: c.is_optional,
            },
            SchemaKind::Num { min, max, coerce: _ } => HSchema {
                kind: SchemaKind::Num { min, max, coerce: true },
                is_optional: c.is_optional,
            },
            SchemaKind::Bool { coerce: _ } => HSchema {
                kind: SchemaKind::Bool { coerce: true },
                is_optional: c.is_optional,
            },
            other => HSchema { kind: other, is_optional: c.is_optional },
        }
    }

    /// A copy with a lower length bound, where this is a string schema.
    pub fn min_length(&self, n: usize) -> (r: HSchema)
        ensures
            r@ == with_min_len(self@, n as int),
    {
        let c = clone_schema(self);
        match c.kind {
            SchemaKind::Str { min_len: _, max_len, format, coerce } => HSchema {
                kind: SchemaKind::Str { min_len: Some(n), max_len, format, coerce },
                is_optional: c.is_optional,
            },
            other => HSchema { kind: other, is_optional: c.is_optional },
        }
    }

    /// A copy with an upper length bound, where this is a string schema.
    pub fn max_length(&self, n: usize) -> (r: HSchema)
        ensures
            r@ == with_max_len(self@, n as int),
    {
        let c = clone_schema(self);
        match c.kind {
            SchemaKind::Str { min_len, max_len: _, format, coerce } => HSchema {
                kind: SchemaKind::Str { min_len, max_len: Some(n), format, coerce },
                is_optional: c.is_optional,
            },
            other => HSchema { kind: other, is_optional: c.is_optional },
        }
    }

    /// A copy demanding the hyphenated hexadecimal identifier format.
    pub fn uuid(&self) -> (r: HSchema)
        ensures
            r@ == with_format(self@, FormatModel::Uuid),
    {
        self.set_format(StringFormat::Uuid)
    }

    /// A copy demanding the email format.
    pub fn email(&self) -> (r: HSchema)
        ensures
            r@ == with_format(self@, FormatModel::Email),
    {
        self.set_format(StringFormat::Email)
    }

    /// A copy demanding a match of the given pattern. An invalid pattern
    /// matches nothing; it is not a construction-time error.
    pub fn regex(&self, pattern: String) -> (r: HSchema)
        ensures
            r@ == with_format(self@, FormatModel::Regex(pattern@)),
    {
        self.set_format(StringFormat::Regex(pattern))
    }

    /// A copy demanding the phone format.
    pub fn phone(&self) -> (r: HSchema)
        ensures
            r@ == with_format(self@, FormatModel::Phone),
    {
        self.set_format(StringFormat::Phone)
    }

    /// A copy demanding the hostname format, with or without a protocol.
    pub fn domain(&self, require_protocol: bool) -> (r: HSchema)
        ensures
            r@ == with_format(self@, FormatModel::Domain { require_protocol }),
    {
        self.set_format(StringFormat::Domain { require_protocol })
    }

    /// A copy with a lower bound, where this is a number schema.
    pub fn min(&self, n: i64) -> (r: HSchema)
        ensures
            r@ == with_min(self@, n as int),
    {
        let c = clone_schema(self);
        match c.kind {
            SchemaKind::Num { min: _, max, coerce } => HSchema {
                kind: SchemaKind::Num { min: Some(n), max, coerce },
                is_optional: c.is_optional,
            },
            other => HSchema { kind: other, is_optional: c.is_optional },
        }
    }

    /// A copy with an upper bound, where this is a number schema.
    pub fn max(&self, n: i64) -> (r: HSchema)
        ensures
            r@ == with_max(self@, n as int),
    {
        let c = clone_schema(self);
        match c.kind {
            SchemaKind::Num { min, max: _, coerce } => HSchema {
                kind: SchemaKind::Num { min, max: Some(n), coerce },
                is_optional: c.is_optional,
            },
            other => HSchema { kind: other, is_optional: c.is_optional },
        }
    }

    /// A copy with the given format set, where this is a string schema.
    fn set_format(&self, format: StringFormat) -> (r: HSchema)
        ensures
            r@ == with_format(self@, format@),
    {
        let c = clone_schema(self);
        match c.kind {
            SchemaKind::Str { min_len, max_len, format: _, coerce } => HSchema {
                kind: SchemaKind::Str { min_len, max_len, format: Some(format), coerce },
                is_optional: c.is_optional,
            },
            other => HSchema { kind: other, is_optional: c.is_optional },
        }
    }

    /// Inserts or replaces a named property on an object schema, in place:
    /// the one mutating step of the model, meant for the build phase before
    /// a schema is shared. On any other variant it does nothing.
    pub fn add_prop(&mut self, key: String, schema: &HSchema)
        ensures
            final(self)@ == with_prop(old(self)@, key@, schema@),
    {
        let mut kind = SchemaKind::Any;
        core::mem::swap(&mut kind, &mut self.kind);
        match kind {
            SchemaKind::Obj { mut props } => {
                let child = clone_schema(schema);
                let n = props.len();
                let mut i: usize = 0;
                let mut found: bool = false;
                let mut fi: usize = 0;
                while i < n
                    invariant
                        0 <= i <= n,
                        n == props@.len(),
                        found ==> fi < i && props@[fi as int].0@ == key@,
                        found ==> forall|m: int| 0 <= m < fi ==> props@[m].0@ != key@,
                        !found ==> forall|m: int| 0 <= m < i ==> props@[m].0@ != key@,
                    decreases n - i,
                {
                    if !found {
                        if props[i].0.eq(&key) {
                            found = true;
                            fi = i;
                        }
                    }
                    i = i + 1;
                }
                let ghost oldprops = props@;
                if found {
                    props[fi] = (key, child);
                    proof {
                        lemma_sprops_model(oldprops, 0);
                        lemma_sprops_model(props@, 0);
                        lemma_upsert_found(
                            sprops_model(oldprops, 0),
                            key@,
                            smodel(child),
                            fi as int,
                        );
                        assert(sprops_model(props@, 0) =~= upsert(
                            sprops_model(oldprops, 0),
                            key@,
                            smodel(child),
                        ));
                    }
                } else {
                    props.push((key, child));
                    proof {
                        lemma_sprops_model(oldprops, 0);
                        lemma_sprops_model(props@, 0);
                        lemma_upsert_absent(sprops_model(oldprops, 0), key@, smodel(child));
                        assert(sprops_model(props@, 0) =~= upsert(
                            sprops_model(oldprops, 0),
                            key@,
                            smodel(child),
                        ));
                    }
                }
                self.kind = SchemaKind::Obj { props };
            },
            other => {
                self.kind = other;
            },
        }
    }
}

} // verus!
