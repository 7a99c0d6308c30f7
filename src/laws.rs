//! Properties of the generator, stated over the specifications of its functions.
use vstd::prelude::*;
use crate::normalize::{RawType, TypeTree, normal_form, list_name, unit_name};
use crate::render::{TypeClass, class_of, rendered};
use crate::emit::{declaration, field_line, field_lines};
use crate::destination::{is_whole_block, declares, header};
use crate::generate::{
    RawField, RecordDescriptor, Failure, TypeFault, type_text, field_outcome, rendered_fields,
    generated, lemma_failure_persists,
};

verus! {

/// The table entry of a leaf class.
pub open spec fn table_entry(c: TypeClass) -> Seq<char> {
    match c {
        TypeClass::Text => "string"@,
        TypeClass::Number => "number"@,
        TypeClass::Boolean => "boolean"@,
        TypeClass::Unit => "null"@,
        _ => Seq::empty(),
    }
}

/// Whether a class is one of the primitive leaf types of the table.
pub open spec fn is_primitive(c: TypeClass) -> bool {
    c is Text || c is Number || c is Boolean
}

/// `l` is a list of `t`: a slice of `t`, or a list constructor whose first argument is `t`.
pub open spec fn is_list_of(l: RawType, t: RawType) -> bool {
    match l {
        RawType::Slice(inner) => *inner == t,
        RawType::Path { ident, args } => class_of(ident@) is List && args.len() > 0 && args[0] == t,
        _ => false,
    }
}

/// `o` is an optional `t`: the optional constructor with `t` as its first argument.
pub open spec fn is_optional_of(o: RawType, t: RawType) -> bool {
    match o {
        RawType::Path { ident, args } => class_of(ident@) is Optional && args.len() > 0 && args[0] == t,
        _ => false,
    }
}

/// The rendering of `t` with `suffix` appended, or the same fault.
pub open spec fn with_suffix(r: Result<Seq<char>, TypeFault>, suffix: Seq<char>) -> Result<Seq<char>, TypeFault> {
    match r {
        Ok(s) => Ok(s + suffix),
        Err(e) => Err(e),
    }
}

/// A primitive leaf type renders as its table entry.
pub proof fn primitive_leaf_renders_to_table_entry(t: RawType)
    requires
        t matches RawType::Path { ident, args } && args.len() == 0 && is_primitive(class_of(ident@)),
    ensures
        type_text(t) == Ok::<_, TypeFault>(table_entry(class_of(t->ident@))),
{
}

/// The empty tuple renders as `null`.
pub proof fn empty_tuple_renders_as_null(t: RawType)
    requires
        t matches RawType::Tuple(elems) && elems.len() == 0,
    ensures
        type_text(t) == Ok::<_, TypeFault>("null"@),
{
    reveal_strlit("Unit");
    reveal_strlit("List");
    reveal_strlit("Vec");
    assert(unit_name()[0] != "List"@[0]);
    assert(unit_name()[0] != "Vec"@[0]);
}

proof fn lemma_list_step(l: RawType, t: RawType)
    requires
        is_list_of(l, t),
    ensures
        type_text(l) == with_suffix(type_text(t), "[]"@),
{
    assert(class_of(list_name()) is List);
}

/// A list of lists renders as the element's rendering followed by `[][]`.
pub proof fn nested_list_appends_brackets(outer: RawType, inner: RawType, t: RawType)
    requires
        is_list_of(outer, inner),
        is_list_of(inner, t),
    ensures
        type_text(outer) == with_suffix(type_text(t), "[][]"@),
{
    lemma_list_step(outer, inner);
    lemma_list_step(inner, t);
    reveal_strlit("[]");
    reveal_strlit("[][]");
    if let Ok(s) = type_text(t) {
        assert(s + "[]"@ + "[]"@ =~= s + "[][]"@);
    }
}

/// An optional type renders as its argument's rendering followed by ` | null`.
pub proof fn optional_appends_null(o: RawType, t: RawType)
    requires
        is_optional_of(o, t),
    ensures
        type_text(o) == with_suffix(type_text(t), " | null"@),
{
}

/// A reference normalizes as the type it refers to.
pub proof fn reference_is_transparent(t: RawType)
    ensures
        normal_form(RawType::Reference(Box::new(t))) == normal_form(t),
{
}

/// A leaf name with no table entry fails with that very name.
pub proof fn unmapped_leaf_is_named(t: RawType)
    requires
        t matches RawType::Path { ident, args } && args.len() == 0 && class_of(ident@) is Unmapped,
    ensures
        type_text(t) == Err::<Seq<char>, _>(TypeFault::Unmapped(t->ident@)),
{
}

proof fn lemma_prefix_renders(fields: Seq<RawField>, k: int)
    requires
        0 <= k <= fields.len(),
        forall|j: int| 0 <= j < k ==> (#[trigger] field_outcome(fields[j])) is Ok,
    ensures
        rendered_fields(fields.take(k)) == Ok::<_, Failure>(
            fields.take(k).map_values(|f: RawField| (f.name@, field_outcome(f)->Ok_0)),
        ),
    decreases k,
{
    let p = fields.take(k);
    let m = p.map_values(|f: RawField| (f.name@, field_outcome(f)->Ok_0));
    if k == 0 {
        assert(m =~= Seq::empty());
    } else {
        assert(p.drop_last() =~= fields.take(k - 1));
        lemma_prefix_renders(fields, k - 1);
        assert(field_outcome(fields[k - 1]) is Ok);
        assert(fields.take(k - 1).map_values(|f: RawField| (f.name@, field_outcome(f)->Ok_0)).push(
            (p.last().name@, field_outcome(p.last())->Ok_0),
        ) =~= m);
    }
}

/// The lines of a concatenation are the lines of each part, in order.
pub proof fn field_lines_concatenate(a: Seq<(Seq<char>, Seq<char>)>, b: Seq<(Seq<char>, Seq<char>)>)
    ensures
        field_lines(a + b) == field_lines(a) + field_lines(b),
    decreases b.len(),
{
    if b.len() == 0 {
        assert(a + b =~= a);
        assert(field_lines(b) =~= Seq::empty());
    } else {
        assert((a + b).drop_last() =~= a + b.drop_last());
        assert((a + b).last() == b.last());
        field_lines_concatenate(a, b.drop_last());
        assert(field_lines(a + b) =~= field_lines(a) + field_lines(b));
    }
}

/// A record whose fields all render yields one line per field, in declaration
/// order: line `i` holds field `i` and its rendered type.
pub proof fn field_order_preserved(record: RecordDescriptor)
    requires
        forall|j: int| 0 <= j < record.fields.len() ==> (#[trigger] field_outcome(record.fields[j])) is Ok,
    ensures
        generated(record) == Ok::<_, Failure>(
            declaration(
                record.name@,
                record.fields@.map_values(|f: RawField| (f.name@, field_outcome(f)->Ok_0)),
            ),
        ),
        forall|i: int|
            #![trigger record.fields[i]]
            0 <= i < record.fields.len() ==> {
                let fs = record.fields@.map_values(|f: RawField| (f.name@, field_outcome(f)->Ok_0));
                field_lines(fs) == field_lines(fs.take(i)) + field_line(
                    (record.fields[i].name@, field_outcome(record.fields[i])->Ok_0),
                ) + field_lines(fs.skip(i + 1))
            },
{
    let all = record.fields@;
    lemma_prefix_renders(all, all.len() as int);
    assert(all.take(all.len() as int) =~= all);
    let fs = all.map_values(|f: RawField| (f.name@, field_outcome(f)->Ok_0));
    assert forall|i: int|
        #![trigger record.fields[i]]
        0 <= i < record.fields.len() implies field_lines(fs) == field_lines(fs.take(i)) + field_line(
            (record.fields[i].name@, field_outcome(record.fields[i])->Ok_0),
        ) + field_lines(fs.skip(i + 1)) by {
        let single = seq![fs[i]];
        assert(fs =~= fs.take(i) + single + fs.skip(i + 1));
        field_lines_concatenate(fs.take(i) + single, fs.skip(i + 1));
        field_lines_concatenate(fs.take(i), single);
        assert(single.drop_last() =~= Seq::empty());
        assert(field_lines(single.drop_last()) =~= Seq::empty());
        assert(single.last() == fs[i]);
        assert(field_lines(single) =~= field_line(fs[i]));
    }
}

/// When field `i` is the first whose type fails, generation fails with that
/// field's failure and produces no text.
pub proof fn first_failing_field_is_reported(record: RecordDescriptor, i: int)
    requires
        0 <= i < record.fields.len(),
        forall|j: int| 0 <= j < i ==> (#[trigger] field_outcome(record.fields[j])) is Ok,
        field_outcome(record.fields[i]) is Err,
    ensures
        generated(record) == Err::<Seq<char>, _>(field_outcome(record.fields[i])->Err_0),
{
    let all = record.fields@;
    lemma_prefix_renders(all, i);
    assert(all.take(i + 1).drop_last() =~= all.take(i));
    assert(all.take(i + 1).last() == all[i]);
    lemma_failure_persists(all, i + 1);
}

/// An unsupported construct in the type of the first failing field is
/// reported as unsupported, naming that field and the construct's text.
pub proof fn unsupported_construct_names_field(record: RecordDescriptor, i: int)
    requires
        0 <= i < record.fields.len(),
        forall|j: int| 0 <= j < i ==> (#[trigger] field_outcome(record.fields[j])) is Ok,
        normal_form(record.fields[i].ty) is Err,
    ensures
        generated(record) == Err::<Seq<char>, _>(
            Failure::Unsupported {
                field: record.fields[i].name@,
                text: normal_form(record.fields[i].ty)->Err_0,
            },
        ),
{
    first_failing_field_is_reported(record, i);
}

/// An unmapped constructor name in the type of the first failing field is
/// reported as unmapped, naming that field and that symbol.
pub proof fn unmapped_name_is_reported(record: RecordDescriptor, i: int, tree: TypeTree)
    requires
        0 <= i < record.fields.len(),
        forall|j: int| 0 <= j < i ==> (#[trigger] field_outcome(record.fields[j])) is Ok,
        normal_form(record.fields[i].ty) == Ok::<_, Seq<char>>(tree),
        rendered(tree) is Err,
    ensures
        generated(record) == Err::<Seq<char>, _>(
            Failure::Unmapped { field: record.fields[i].name@, name: rendered(tree)->Err_0 },
        ),
{
    first_failing_field_is_reported(record, i);
}

proof fn lemma_same_fields_render_alike(a: Seq<RawField>, b: Seq<RawField>)
    requires
        a.len() == b.len(),
        forall|j: int| 0 <= j < a.len() ==> (#[trigger] a[j]).name@ == b[j].name@ && a[j].ty == b[j].ty,
    ensures
        rendered_fields(a) == rendered_fields(b),
    decreases a.len(),
{
    if a.len() > 0 {
        lemma_same_fields_render_alike(a.drop_last(), b.drop_last());
        assert(a.last() == a[a.len() - 1]);
    }
}

/// Generation depends on the record alone: regenerating a record with the
/// same name and the same fields gives the same text, or the same failure.
pub proof fn regeneration_is_identical(a: RecordDescriptor, b: RecordDescriptor)
    requires
        a.name@ == b.name@,
        a.fields.len() == b.fields.len(),
        forall|j: int|
            0 <= j < a.fields.len() ==> (#[trigger] a.fields[j]).name@ == b.fields[j].name@
                && a.fields[j].ty == b.fields[j].ty,
    ensures
        generated(a) == generated(b),
{
    lemma_same_fields_render_alike(a.fields@, b.fields@);
}

/// Whether `s` holds no closing brace.
pub open spec fn brace_free(s: Seq<char>) -> bool {
    forall|i: int| 0 <= i < s.len() ==> #[trigger] s[i] != '}'
}

proof fn lemma_rendered_brace_free(t: TypeTree)
    requires
        rendered(t) is Ok,
    ensures
        brace_free(rendered(t)->Ok_0),
    decreases t,
{
    reveal_strlit("string");
    reveal_strlit("number");
    reveal_strlit("boolean");
    reveal_strlit("null");
    reveal_strlit("[]");
    reveal_strlit(" | null");
    if let Some(a) = t.argument {
        if rendered(*a) is Ok {
            lemma_rendered_brace_free(*a);
        }
    }
}

proof fn lemma_lines_brace_free(fs: Seq<(Seq<char>, Seq<char>)>)
    requires
        forall|i: int| 0 <= i < fs.len() ==> brace_free(#[trigger] fs[i].0) && brace_free(fs[i].1),
    ensures
        brace_free(field_lines(fs)),
    decreases fs.len(),
{
    reveal_strlit("    ");
    reveal_strlit(": ");
    reveal_strlit(";\n");
    if fs.len() > 0 {
        lemma_lines_brace_free(fs.drop_last());
        assert(brace_free(fs[fs.len() - 1].0));
        let l = field_line(fs.last());
        assert(brace_free(l));
    }
}

/// A declaration whose names and types hold no closing brace is one whole
/// block of the destination, and it declares its interface.
pub proof fn declaration_is_whole_block(name: Seq<char>, fs: Seq<(Seq<char>, Seq<char>)>)
    requires
        brace_free(name),
        forall|i: int| 0 <= i < fs.len() ==> brace_free(#[trigger] fs[i].0) && brace_free(fs[i].1),
    ensures
        is_whole_block(declaration(name, fs)),
        declares(declaration(name, fs), name),
{
    reveal_strlit("interface ");
    reveal_strlit(" {\n");
    reveal_strlit("}\n");
    lemma_lines_brace_free(fs);
    let body = "interface "@ + name + " {\n"@ + field_lines(fs);
    let d = declaration(name, fs);
    assert(d == body + "}\n"@);
    assert(brace_free(body));
    assert(d[d.len() - 2] == '}' && d[d.len() - 1] == '\n');
    assert forall|k: int| 0 < k < d.len() - 1 implies !(d[k - 1] == '}' && #[trigger] d[k] == '\n') by {
        if k - 1 < body.len() {
            assert(d[k - 1] == body[k - 1]);
        }
    }
    assert(d.subrange(0, header(name).len() as int) =~= header(name));
}

/// The declaration generated for a record whose name and field names hold no
/// closing brace is one whole block that declares the record, so storing it
/// again in the destination leaves the destination unchanged.
pub proof fn generated_declaration_is_whole_block(record: RecordDescriptor)
    requires
        brace_free(record.name@),
        forall|j: int| 0 <= j < record.fields.len() ==> brace_free(#[trigger] record.fields[j].name@),
        forall|j: int| 0 <= j < record.fields.len() ==> (#[trigger] field_outcome(record.fields[j])) is Ok,
    ensures
        generated(record) is Ok,
        is_whole_block(generated(record)->Ok_0),
        declares(generated(record)->Ok_0, record.name@),
{
    field_order_preserved(record);
    let fs = record.fields@.map_values(|f: RawField| (f.name@, field_outcome(f)->Ok_0));
    assert forall|i: int| 0 <= i < fs.len() implies brace_free(#[trigger] fs[i].0) && brace_free(fs[i].1) by {
        let f = record.fields[i];
        assert(field_outcome(f) is Ok);
        lemma_rendered_brace_free(normal_form(f.ty)->Ok_0);
    }
    declaration_is_whole_block(record.name@, fs);
}

} // verus!
