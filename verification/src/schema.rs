//! Component data as plain values: a component is a record of named, typed
//! fields, and its layout is a schema of field declarations.
//!
//! Migration from an old layout to a new one is field-by-field: a new field
//! takes the old field's value when a field of the same name and type existed,
//! and its type's default otherwise.  A name match with the wrong type is
//! reported, never fatal: that one field stays at its default and the rest of
//! the record is still carried over.

use vstd::prelude::*;

verus! {

/// The type of one field, as migration distinguishes them.
#[derive(Clone, Copy, Debug, PartialEq, Eq, Structural)]
pub enum TypeTag {
    Integer,
    Boolean,
    Text,
}

/// One field's value.
pub enum FieldValue {
    IntVal(i64),
    BoolVal(bool),
    TextVal(Vec<u8>),
}

/// The mathematical value of a field.
pub enum ValueModel {
    Integer(i64),
    Boolean(bool),
    Text(Seq<u8>),
}

impl View for FieldValue {
    type V = ValueModel;

    open spec fn view(&self) -> ValueModel {
        match self {
            FieldValue::IntVal(i) => ValueModel::Integer(*i),
            FieldValue::BoolVal(b) => ValueModel::Boolean(*b),
            FieldValue::TextVal(t) => ValueModel::Text(t@),
        }
    }
}

/// The tag a value falls under.
pub open spec fn tag_of(v: ValueModel) -> TypeTag {
    match v {
        ValueModel::Integer(_) => TypeTag::Integer,
        ValueModel::Boolean(_) => TypeTag::Boolean,
        ValueModel::Text(_) => TypeTag::Text,
    }
}

/// The default a freshly constructed field of this type holds.
pub open spec fn default_model(tag: TypeTag) -> ValueModel {
    match tag {
        TypeTag::Integer => ValueModel::Integer(0),
        TypeTag::Boolean => ValueModel::Boolean(false),
        TypeTag::Text => ValueModel::Text(Seq::empty()),
    }
}

/// The tag of a field value.
pub fn value_tag(v: &FieldValue) -> (t: TypeTag)
    ensures
        t == tag_of(v@),
{
    match v {
        FieldValue::IntVal(_) => TypeTag::Integer,
        FieldValue::BoolVal(_) => TypeTag::Boolean,
        FieldValue::TextVal(_) => TypeTag::Text,
    }
}

/// A default-initialized value of the given type.
pub fn default_value(tag: TypeTag) -> (v: FieldValue)
    ensures
        v@ == default_model(tag),
{
    match tag {
        TypeTag::Integer => FieldValue::IntVal(0),
        TypeTag::Boolean => FieldValue::BoolVal(false),
        TypeTag::Text => FieldValue::TextVal(Vec::new()),
    }
}

/// An exact copy of a field value.
pub fn duplicate_value(v: &FieldValue) -> (r: FieldValue)
    ensures
        r@ == v@,
{
    match v {
        FieldValue::IntVal(i) => FieldValue::IntVal(*i),
        FieldValue::BoolVal(b) => FieldValue::BoolVal(*b),
        FieldValue::TextVal(t) => {
            let mut bytes: Vec<u8> = Vec::new();
            let mut i: usize = 0;
            while i < t.len()
                invariant
                    0 <= i <= t@.len(),
                    bytes@ == t@.take(i as int),
                decreases t@.len() - i,
            {
                bytes.push(t[i]);
                assert(bytes@ =~= t@.take(i + 1));
                i = i + 1;
            }
            assert(bytes@ =~= t@);
            FieldValue::TextVal(bytes)
        },
    }
}

/// One named field of a component value.
pub struct Field {
    pub name: u64,
    pub value: FieldValue,
}

/// The mathematical value of a field together with its name.
pub struct FieldModel {
    pub name: u64,
    pub value: ValueModel,
}

impl View for Field {
    type V = FieldModel;

    open spec fn view(&self) -> FieldModel {
        FieldModel { name: self.name, value: self.value@ }
    }
}

/// A component value: an ordered record of named fields.
pub struct DynStruct {
    pub fields: Vec<Field>,
}

impl View for DynStruct {
    type V = Seq<FieldModel>;

    open spec fn view(&self) -> Seq<FieldModel> {
        self.fields@.map_values(|f: Field| f@)
    }
}

/// The declaration of one field in a layout.
#[derive(Clone, Copy, Debug, PartialEq, Eq, Structural)]
pub struct FieldDecl {
    pub name: u64,
    pub tag: TypeTag,
}

/// A layout: the ordered field declarations of a component type.
pub struct Schema {
    pub fields: Vec<FieldDecl>,
}

impl View for Schema {
    type V = Seq<FieldDecl>;

    open spec fn view(&self) -> Seq<FieldDecl> {
        self.fields@
    }
}

/// The value of the first field named `name`, if any.
pub open spec fn find_field(fields: Seq<FieldModel>, name: u64) -> Option<ValueModel>
    decreases fields.len(),
{
    if fields.len() == 0 {
        None
    } else if fields[0].name == name {
        Some(fields[0].value)
    } else {
        find_field(fields.skip(1), name)
    }
}

/// What one declared field of the new layout holds after migration: the old
/// field's value when one of the same name and type existed, the type's
/// default otherwise.
pub open spec fn migrated_field(old: Seq<FieldModel>, d: FieldDecl) -> FieldModel {
    match find_field(old, d.name) {
        Some(v) => if tag_of(v) == d.tag {
            FieldModel { name: d.name, value: v }
        } else {
            FieldModel { name: d.name, value: default_model(d.tag) }
        },
        None => FieldModel { name: d.name, value: default_model(d.tag) },
    }
}

/// A whole record after migration to a new layout: one field per declaration
/// of the new layout, old fields without a declaration dropped.
pub open spec fn migrate_struct_model(
    old: Seq<FieldModel>,
    schema: Seq<FieldDecl>,
) -> Seq<FieldModel>
    decreases schema.len(),
{
    if schema.len() == 0 {
        Seq::empty()
    } else {
        migrate_struct_model(old, schema.drop_last()).push(migrated_field(old, schema.last()))
    }
}

/// Whether migrating declaration `d` hits a field of the right name but the
/// wrong type — the one recoverable mismatch migration reports.
pub open spec fn decl_mismatches(old: Seq<FieldModel>, d: FieldDecl) -> bool {
    match find_field(old, d.name) {
        Some(v) => tag_of(v) != d.tag,
        None => false,
    }
}

/// The names of the new layout's fields whose old value could not be carried
/// over for want of a matching type, in declaration order.
pub open spec fn mismatched_names(old: Seq<FieldModel>, schema: Seq<FieldDecl>) -> Seq<u64>
    decreases schema.len(),
{
    if schema.len() == 0 {
        Seq::empty()
    } else {
        mismatched_names(old, schema.drop_last()) + (if decl_mismatches(old, schema.last()) {
            seq![schema.last().name]
        } else {
            Seq::empty()
        })
    }
}

/// The first field named `name`, if any.
fn find_field_value<'a>(fields: &'a Vec<Field>, name: u64) -> (r: Option<&'a FieldValue>)
    ensures
        r is Some <==> find_field(fields@.map_values(|f: Field| f@), name) is Some,
        r matches Some(v) ==> find_field(fields@.map_values(|f: Field| f@), name) == Some(v@),
{
    let ghost all = fields@.map_values(|f: Field| f@);
    let mut i: usize = 0;
    assert(all.skip(0) =~= all);
    while i < fields.len()
        invariant
            0 <= i <= fields@.len(),
            all == fields@.map_values(|f: Field| f@),
            find_field(all, name) == find_field(all.skip(i as int), name),
        decreases fields@.len() - i,
    {
        if fields[i].name == name {
            assert(all.skip(i as int)[0] == all[i as int]);
            return Some(&fields[i].value);
        }
        assert(all.skip(i as int)[0] == all[i as int]);
        assert(all.skip(i as int).skip(1) =~= all.skip(i + 1));
        i = i + 1;
    }
    assert(all.skip(i as int).len() == 0);
    None
}

/// Migrate one record to a new layout: matched-name, matched-type fields keep
/// their value, everything else in the new layout starts at its default, old
/// fields without a declaration are dropped.  Returns the migrated record and
/// the names of fields whose old value had the wrong type, in declaration
/// order; such a mismatch never fails the migration.
pub fn migrate_struct(old: &DynStruct, schema: &Schema) -> (r: (DynStruct, Vec<u64>))
    ensures
        r.0@ == migrate_struct_model(old@, schema@),
        r.1@ == mismatched_names(old@, schema@),
{
    let mut out: Vec<Field> = Vec::new();
    let mut mismatches: Vec<u64> = Vec::new();
    let mut i: usize = 0;
    assert(out@.map_values(|f: Field| f@) =~= migrate_struct_model(old@, schema@.take(0)));
    assert(mismatches@ =~= mismatched_names(old@, schema@.take(0)));
    while i < schema.fields.len()
        invariant
            0 <= i <= schema@.len(),
            out@.map_values(|f: Field| f@) == migrate_struct_model(old@, schema@.take(i as int)),
            mismatches@ == mismatched_names(old@, schema@.take(i as int)),
        decreases schema@.len() - i,
    {
        let d = schema.fields[i];
        let fld: Field;
        match find_field_value(&old.fields, d.name) {
            Some(v) => {
                if value_tag(v) == d.tag {
                    fld = Field { name: d.name, value: duplicate_value(v) };
                } else {
                    fld = Field { name: d.name, value: default_value(d.tag) };
                    mismatches.push(d.name);
                }
            },
            None => {
                fld = Field { name: d.name, value: default_value(d.tag) };
            },
        }
        assert(fld@ == migrated_field(old@, schema@[i as int]));
        let ghost prev_out = out@;
        out.push(fld);
        proof {
            assert(schema@.take(i + 1).drop_last() =~= schema@.take(i as int));
            assert(schema@.take(i + 1).last() == schema@[i as int]);
            assert(migrate_struct_model(old@, schema@.take(i + 1)) == migrate_struct_model(
                old@,
                schema@.take(i as int),
            ).push(migrated_field(old@, schema@[i as int])));
            assert(out@ == prev_out.push(fld));
            assert(out@.map_values(|f: Field| f@) =~= prev_out.map_values(|f: Field| f@).push(
                fld@,
            ));
            assert(mismatches@ =~= mismatched_names(old@, schema@.take(i + 1)));
        }
        i = i + 1;
    }
    assert(schema@.take(i as int) =~= schema@);
    (DynStruct { fields: out }, mismatches)
}

} // verus!
