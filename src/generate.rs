//! The pipeline for one record type: each field is normalized and rendered
//! in declaration order, then the declaration is emitted.
use vstd::prelude::*;
use crate::normalize::{RawType, GenericType, normal_form, normalize};
use crate::render::{rendered, render};
use crate::emit::{RenderedField, declaration, fields_view, emit_interface};

verus! {

/// Why no declaration was produced.
#[derive(Debug, Clone, PartialEq, Eq)]
pub enum InterfaceError {
    /// The type of `field` uses a construct with no normal form; `text` is that construct's source.
    UnsupportedType { field: String, text: String },
    /// The type of `field` uses the constructor `name`, which has no table entry.
    UnmappedType { field: String, name: String },
    /// The type definition `name` is not a record.
    NotARecord { name: String },
}

/// The mathematical value of an [`InterfaceError`].
pub enum Failure {
    Unsupported { field: Seq<char>, text: Seq<char> },
    Unmapped { field: Seq<char>, name: Seq<char> },
    NotARecord { name: Seq<char> },
}

impl View for InterfaceError {
    type V = Failure;

    open spec fn view(&self) -> Failure {
        match self {
            InterfaceError::UnsupportedType { field, text } => Failure::Unsupported {
                field: field@,
                text: text@,
            },
            InterfaceError::UnmappedType { field, name } => Failure::Unmapped {
                field: field@,
                name: name@,
            },
            InterfaceError::NotARecord { name } => Failure::NotARecord { name: name@ },
        }
    }
}

/// A field as declared: its name and its type expression.
#[derive(Debug, PartialEq, Eq)]
pub struct RawField {
    pub name: String,
    pub ty: RawType,
}

/// A field whose type has been normalized.
pub struct FieldDescriptor {
    pub name: String,
    pub ty: GenericType,
}

/// A record type: its name and its fields in declaration order.
#[derive(Debug, PartialEq, Eq)]
pub struct RecordDescriptor {
    pub name: String,
    pub fields: Vec<RawField>,
}

/// A type definition handed to the generator.
#[derive(Debug, PartialEq, Eq)]
pub enum TypeDefinition {
    Record(RecordDescriptor),
    /// An enumeration, a union or any other shape that is not a record.
    Other { name: String },
}

/// Why a type expression has no rendering.
pub enum TypeFault {
    /// The source text of a construct with no normal form.
    Unsupported(Seq<char>),
    /// A constructor name with no table entry.
    Unmapped(Seq<char>),
}

/// The rendering of a type expression: normalized, then mapped.
pub open spec fn type_text(t: RawType) -> Result<Seq<char>, TypeFault> {
    match normal_form(t) {
        Err(text) => Err(TypeFault::Unsupported(text)),
        Ok(tree) => match rendered(tree) {
            Ok(s) => Ok(s),
            Err(name) => Err(TypeFault::Unmapped(name)),
        },
    }
}

/// The rendered type of a field, or the failure that names it.
pub open spec fn field_outcome(f: RawField) -> Result<Seq<char>, Failure> {
    match type_text(f.ty) {
        Ok(s) => Ok(s),
        Err(TypeFault::Unsupported(text)) => Err(Failure::Unsupported { field: f.name@, text }),
        Err(TypeFault::Unmapped(name)) => Err(Failure::Unmapped { field: f.name@, name }),
    }
}

/// The rendered fields, in order, or the failure of the first field that fails.
pub open spec fn rendered_fields(fields: Seq<RawField>) -> Result<Seq<(Seq<char>, Seq<char>)>, Failure>
    decreases fields.len(),
{
    if fields.len() == 0 {
        Ok(Seq::empty())
    } else {
        match rendered_fields(fields.drop_last()) {
            Err(e) => Err(e),
            Ok(prefix) => match field_outcome(fields.last()) {
                Err(e) => Err(e),
                Ok(s) => Ok(prefix.push((fields.last().name@, s))),
            },
        }
    }
}

/// The declaration of a record, or the failure of its first failing field.
pub open spec fn generated(record: RecordDescriptor) -> Result<Seq<char>, Failure> {
    match rendered_fields(record.fields@) {
        Ok(fields) => Ok(declaration(record.name@, fields)),
        Err(e) => Err(e),
    }
}

/// The outcome for a type definition: records are generated, anything else is refused.
pub open spec fn derived(def: TypeDefinition) -> Result<Seq<char>, Failure> {
    match def {
        TypeDefinition::Record(record) => generated(record),
        TypeDefinition::Other { name } => Err(Failure::NotARecord { name: name@ }),
    }
}

/// The view of a generator result.
pub open spec fn outcome_view(r: Result<String, InterfaceError>) -> Result<Seq<char>, Failure> {
    match r {
        Ok(s) => Ok(s@),
        Err(e) => Err(e@),
    }
}

/// Normalizes the type of a field; a failure names the field.
pub fn describe_field(field: &RawField) -> (r: Result<FieldDescriptor, InterfaceError>)
    ensures
        match (r, normal_form(field.ty)) {
            (Ok(d), Ok(tree)) => d.name@ == field.name@ && d.ty@ == tree,
            (Err(e), Err(text)) => e@ == Failure::Unsupported { field: field.name@, text },
            _ => false,
        },
{
    match normalize(&field.ty) {
        Ok(ty) => Ok(FieldDescriptor { name: field.name.clone(), ty }),
        Err(text) => Err(InterfaceError::UnsupportedType { field: field.name.clone(), text }),
    }
}

/// Renders the type of a normalized field; a failure names the field.
pub fn render_field(field: &FieldDescriptor) -> (r: Result<RenderedField, InterfaceError>)
    ensures
        match (r, rendered(field.ty@)) {
            (Ok(f), Ok(s)) => f.name@ == field.name@ && f.ty@ == s,
            (Err(e), Err(name)) => e@ == Failure::Unmapped { field: field.name@, name },
            _ => false,
        },
{
    match render(&field.ty) {
        Ok(ty) => Ok(RenderedField { name: field.name.clone(), ty }),
        Err(name) => Err(InterfaceError::UnmappedType { field: field.name.clone(), name }),
    }
}

/// Normalizes and renders the type of one field.
pub fn process_field(field: &RawField) -> (r: Result<RenderedField, InterfaceError>)
    ensures
        match (r, field_outcome(*field)) {
            (Ok(f), Ok(s)) => f@ == (field.name@, s),
            (Err(e), Err(fail)) => e@ == fail,
            _ => false,
        },
{
    match describe_field(field) {
        Err(e) => Err(e),
        Ok(d) => render_field(&d),
    }
}

/// Once a prefix of the fields fails, the whole sequence fails with the same failure.
pub proof fn lemma_failure_persists(fields: Seq<RawField>, k: int)
    requires
        0 <= k <= fields.len(),
        rendered_fields(fields.take(k)) is Err,
    ensures
        rendered_fields(fields) == rendered_fields(fields.take(k)),
    decreases fields.len(),
{
    if fields.len() == k {
        assert(fields.take(k) =~= fields);
    } else {
        assert(fields.drop_last().take(k) =~= fields.take(k));
        lemma_failure_persists(fields.drop_last(), k);
    }
}

/// Generates the declaration of a record: the fields are processed in
/// declaration order and the first failure ends generation with no text.
pub fn generate(record: &RecordDescriptor) -> (r: Result<String, InterfaceError>)
    ensures
        outcome_view(r) == generated(*record),
{
    let ghost all = record.fields@;
    let mut done: Vec<RenderedField> = Vec::new();
    let mut i: usize = 0;
    assert(fields_view(done@) =~= Seq::empty());
    assert(all.take(0) =~= Seq::empty());
    while i < record.fields.len()
        invariant
            i <= record.fields.len(),
            all == record.fields@,
            rendered_fields(all.take(i as int)) == Ok::<_, Failure>(fields_view(done@)),
        decreases record.fields.len() - i,
    {
        assert(all.take(i + 1).drop_last() =~= all.take(i as int));
        assert(all.take(i + 1).last() == all[i as int]);
        match process_field(&record.fields[i]) {
            Err(e) => {
                proof {
                    lemma_failure_persists(all, i + 1);
                }
                return Err(e);
            },
            Ok(f) => {
                let ghost before = done@;
                done.push(f);
                assert(fields_view(done@) =~= fields_view(before).push(f@));
                i = i + 1;
            },
        }
    }
    assert(all.take(i as int) =~= all);
    Ok(emit_interface(&record.name, &done))
}

/// Generates the declaration of a type definition. Only records are
/// accepted: any other shape fails with `NotARecord` before any field is read.
pub fn derive_interface(def: &TypeDefinition) -> (r: Result<String, InterfaceError>)
    ensures
        outcome_view(r) == derived(*def),
{
    match def {
        TypeDefinition::Record(record) => generate(record),
        TypeDefinition::Other { name } => Err(InterfaceError::NotARecord { name: name.clone() }),
    }
}

} // verus!
