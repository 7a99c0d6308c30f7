//! The emitter: assembles rendered fields into an interface declaration.
use vstd::prelude::*;

verus! {

/// A field whose type has been rendered.
#[derive(Debug, Clone, PartialEq, Eq)]
pub struct RenderedField {
    pub name: String,
    pub ty: String,
}

impl View for RenderedField {
    type V = (Seq<char>, Seq<char>);

    open spec fn view(&self) -> (Seq<char>, Seq<char>) {
        (self.name@, self.ty@)
    }
}

/// The views of a sequence of rendered fields.
pub open spec fn fields_view(fields: Seq<RenderedField>) -> Seq<(Seq<char>, Seq<char>)> {
    fields.map_values(|f: RenderedField| f@)
}

/// The line of one field: indented by four spaces and ended by `;`.
pub open spec fn field_line(field: (Seq<char>, Seq<char>)) -> Seq<char> {
    "    "@ + field.0 + ": "@ + field.1 + ";\n"@
}

/// The lines of the fields, in their order.
pub open spec fn field_lines(fields: Seq<(Seq<char>, Seq<char>)>) -> Seq<char>
    decreases fields.len(),
{
    if fields.len() == 0 {
        Seq::empty()
    } else {
        field_lines(fields.drop_last()) + field_line(fields.last())
    }
}

/// The declaration of the interface `name` with the given fields.
pub open spec fn declaration(name: Seq<char>, fields: Seq<(Seq<char>, Seq<char>)>) -> Seq<char> {
    "interface "@ + name + " {\n"@ + field_lines(fields) + "}\n"@
}

/// Writes the declaration of the interface `name`: one line per field, in
/// the given order, with no field dropped, merged or moved.
pub fn emit_interface(name: &String, fields: &Vec<RenderedField>) -> (text: String)
    ensures
        text@ == declaration(name@, fields_view(fields@)),
{
    let ghost all = fields_view(fields@);
    let mut text = String::from_str("interface ");
    text.append(name.as_str());
    text.append(" {\n");
    let mut i: usize = 0;
    while i < fields.len()
        invariant
            i <= fields.len(),
            all == fields_view(fields@),
            text@ == "interface "@ + name@ + " {\n"@ + field_lines(all.take(i as int)),
        decreases fields.len() - i,
    {
        let field = &fields[i];
        text.append("    ");
        text.append(field.name.as_str());
        text.append(": ");
        text.append(field.ty.as_str());
        text.append(";\n");
        assert(all.take(i + 1).drop_last() =~= all.take(i as int));
        i = i + 1;
    }
    text.append("}\n");
    assert(all.take(i as int) =~= all);
    text
}

} // verus!
