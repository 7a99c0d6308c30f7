use ts_interface::emit::{emit_interface, RenderedField};
use ts_interface::generate::{
    derive_interface, generate, InterfaceError, RawField, RecordDescriptor, TypeDefinition,
};
use ts_interface::normalize::{normalize, GenericType, RawType};
use ts_interface::render::{classify, render, TypeClass};

fn leaf(name: &str) -> RawType {
    RawType::Path { ident: name.to_string(), args: Vec::new() }
}

fn generic(name: &str, args: Vec<RawType>) -> RawType {
    RawType::Path { ident: name.to_string(), args }
}

fn field(name: &str, ty: RawType) -> RawField {
    RawField { name: name.to_string(), ty }
}

fn record(name: &str, fields: Vec<RawField>) -> RecordDescriptor {
    RecordDescriptor { name: name.to_string(), fields }
}

fn text_of(ty: RawType) -> Result<String, String> {
    match normalize(&ty) {
        Ok(g) => render(&g),
        Err(e) => Err(e),
    }
}

fn single(name: &str, ty: RawType) -> Result<String, InterfaceError> {
    generate(&record("Sample", vec![field(name, ty)]))
}

#[test]
fn string_field_renders_as_string() {
    let out = generate(&record("Person", vec![field("name", leaf("String"))])).unwrap();
    assert_eq!(out, "interface Person {\n    name: string;\n}\n");
}

#[test]
fn list_of_string_field() {
    let out = single("tags", generic("Vec", vec![leaf("String")])).unwrap();
    assert!(out.contains("\n    tags: string[];\n"));
    assert_eq!(out, "interface Sample {\n    tags: string[];\n}\n");
}

#[test]
fn optional_string_field() {
    let out = single("nickname", generic("Option", vec![leaf("String")])).unwrap();
    assert_eq!(out, "interface Sample {\n    nickname: string | null;\n}\n");
}

#[test]
fn nested_list_of_float_field() {
    let ty = generic("Vec", vec![generic("Vec", vec![leaf("f64")])]);
    let out = single("matrix", ty).unwrap();
    assert_eq!(out, "interface Sample {\n    matrix: number[][];\n}\n");
}

#[test]
fn tuple_field_uses_first_element() {
    let out = single("pair", RawType::Tuple(vec![leaf("i32"), leaf("String")])).unwrap();
    assert_eq!(out, "interface Sample {\n    pair: number;\n}\n");
}

#[test]
fn unknown_type_field_fails() {
    let out = single("custom", leaf("UnknownType"));
    assert_eq!(
        out,
        Err(InterfaceError::UnmappedType {
            field: "custom".to_string(),
            name: "UnknownType".to_string(),
        })
    );
}

#[test]
fn primitive_leaves_render_table_entries() {
    let table = [
        ("String", "string"),
        ("str", "string"),
        ("i16", "number"),
        ("i32", "number"),
        ("u16", "number"),
        ("u32", "number"),
        ("f32", "number"),
        ("f64", "number"),
        ("bool", "boolean"),
    ];
    for (name, entry) in table {
        assert_eq!(text_of(leaf(name)), Ok(entry.to_string()), "{}", name);
    }
    assert_eq!(text_of(RawType::Tuple(Vec::new())), Ok("null".to_string()));
}

#[test]
fn names_outside_table_are_unmapped() {
    for name in ["i64", "u8", "usize", "char", "HashMap", "string"] {
        assert_eq!(text_of(leaf(name)), Err(name.to_string()));
    }
}

#[test]
fn regeneration_is_byte_identical() {
    let make = || {
        record(
            "Profile",
            vec![
                field("id", leaf("u32")),
                field("aliases", generic("Vec", vec![leaf("String")])),
                field("parent", generic("Option", vec![generic("Box", vec![leaf("Profile2")])])),
            ],
        )
    };
    let first = generate(&make());
    let second = generate(&make());
    assert_eq!(first, second);
    let ok = record("Point", vec![field("x", leaf("f32")), field("y", leaf("f32"))]);
    assert_eq!(generate(&ok), generate(&ok));
}

#[test]
fn nested_lists_append_two_brackets() {
    for inner in ["bool", "String", "u16"] {
        let base = text_of(leaf(inner)).unwrap();
        let vecs = generic("Vec", vec![generic("Vec", vec![leaf(inner)])]);
        assert_eq!(text_of(vecs), Ok(format!("{}[][]", base)));
        let slices = RawType::Slice(Box::new(RawType::Slice(Box::new(leaf(inner)))));
        assert_eq!(text_of(slices), Ok(format!("{}[][]", base)));
    }
    let mixed = generic("Vec", vec![RawType::Slice(Box::new(leaf("i32")))]);
    assert_eq!(text_of(mixed), Ok("number[][]".to_string()));
}

#[test]
fn optional_appends_null() {
    let inner = generic("Vec", vec![leaf("bool")]);
    let opt = generic("Option", vec![generic("Vec", vec![leaf("bool")])]);
    assert_eq!(text_of(inner), Ok("boolean[]".to_string()));
    assert_eq!(text_of(opt), Ok("boolean[] | null".to_string()));
    let nested = generic("Option", vec![generic("Option", vec![leaf("u32")])]);
    assert_eq!(text_of(nested), Ok("number | null | null".to_string()));
}

#[test]
fn references_are_transparent() {
    let plain = generic("Vec", vec![leaf("str")]);
    let referenced = RawType::Reference(Box::new(generic("Vec", vec![leaf("str")])));
    assert_eq!(normalize(&plain), normalize(&referenced));
    let deep = generic("Option", vec![RawType::Reference(Box::new(leaf("str")))]);
    assert_eq!(text_of(deep), Ok("string | null".to_string()));
}

#[test]
fn normalized_tree_shapes() {
    let g = normalize(&RawType::Slice(Box::new(leaf("bool")))).unwrap();
    assert_eq!(
        g,
        GenericType {
            name: "List".to_string(),
            argument: Some(Box::new(GenericType { name: "bool".to_string(), argument: None })),
        }
    );
    let unit = normalize(&RawType::Tuple(Vec::new())).unwrap();
    assert_eq!(unit, GenericType { name: "Unit".to_string(), argument: None });
    let map = generic("HashMap", vec![leaf("String"), leaf("u32")]);
    let g = normalize(&map).unwrap();
    assert_eq!(g.name, "HashMap");
    assert_eq!(g.argument.unwrap().name, "String");
}

#[test]
fn field_order_follows_declaration() {
    let names = ["alpha", "beta", "gamma"];
    let orders = [[0, 1, 2], [0, 2, 1], [1, 0, 2], [1, 2, 0], [2, 0, 1], [2, 1, 0]];
    let types = [("bool", "boolean"), ("String", "string"), ("u32", "number")];
    for order in orders {
        let fields = order.iter().map(|&k| field(names[k], leaf(types[k].0))).collect();
        let out = generate(&record("Ordered", fields)).unwrap();
        let mut expected = String::from("interface Ordered {\n");
        for &k in order.iter() {
            expected.push_str(&format!("    {}: {};\n", names[k], types[k].1));
        }
        expected.push_str("}\n");
        assert_eq!(out, expected);
    }
}

#[test]
fn empty_record_has_no_field_lines() {
    assert_eq!(generate(&record("Empty", Vec::new())), Ok("interface Empty {\n}\n".to_string()));
}

#[test]
fn duplicate_field_names_are_kept() {
    let out = generate(&record("Twice", vec![field("a", leaf("bool")), field("a", leaf("i16"))]));
    assert_eq!(out, Ok("interface Twice {\n    a: boolean;\n    a: number;\n}\n".to_string()));
}

#[test]
fn unsupported_construct_names_field() {
    let rec = record(
        "Handler",
        vec![field("id", leaf("u32")), field("callback", RawType::Unsupported("fn (u32) -> bool".to_string()))],
    );
    assert_eq!(
        generate(&rec),
        Err(InterfaceError::UnsupportedType {
            field: "callback".to_string(),
            text: "fn (u32) -> bool".to_string(),
        })
    );
    let nested = single("items", generic("Vec", vec![RawType::Unsupported("dyn Fn()".to_string())]));
    assert_eq!(
        nested,
        Err(InterfaceError::UnsupportedType { field: "items".to_string(), text: "dyn Fn()".to_string() })
    );
}

#[test]
fn unmapped_name_is_the_inner_symbol() {
    let out = single("children", generic("Vec", vec![generic("Option", vec![leaf("Node")])]));
    assert_eq!(
        out,
        Err(InterfaceError::UnmappedType { field: "children".to_string(), name: "Node".to_string() })
    );
}

#[test]
fn first_failing_field_wins() {
    let rec = record(
        "Broken",
        vec![
            field("ok", leaf("bool")),
            field("first", leaf("Mystery")),
            field("second", RawType::Unsupported("impl Trait".to_string())),
        ],
    );
    assert_eq!(
        generate(&rec),
        Err(InterfaceError::UnmappedType { field: "first".to_string(), name: "Mystery".to_string() })
    );
}

#[test]
fn wrapper_is_passed_through() {
    assert_eq!(text_of(generic("Box", vec![leaf("String")])), Ok("string".to_string()));
    assert_eq!(
        text_of(generic("Box", vec![generic("Vec", vec![leaf("u16")])])),
        Ok("number[]".to_string())
    );
}

#[test]
fn constructor_without_argument_is_unmapped() {
    assert_eq!(text_of(leaf("Vec")), Err("Vec".to_string()));
    assert_eq!(text_of(leaf("Option")), Err("Option".to_string()));
    assert_eq!(text_of(leaf("Box")), Err("Box".to_string()));
}

#[test]
fn unit_tuple_field_is_null() {
    let out = single("nothing", RawType::Tuple(Vec::new())).unwrap();
    assert_eq!(out, "interface Sample {\n    nothing: null;\n}\n");
}

#[test]
fn non_record_is_refused() {
    let out = derive_interface(&TypeDefinition::Other { name: "Color".to_string() });
    assert_eq!(out, Err(InterfaceError::NotARecord { name: "Color".to_string() }));
    let ok = derive_interface(&TypeDefinition::Record(record("Flag", vec![field("on", leaf("bool"))])));
    assert_eq!(ok, Ok("interface Flag {\n    on: boolean;\n}\n".to_string()));
}

#[test]
fn emitter_lays_out_lines() {
    let fields = vec![
        RenderedField { name: "x".to_string(), ty: "number".to_string() },
        RenderedField { name: "label".to_string(), ty: "string | null".to_string() },
    ];
    assert_eq!(
        emit_interface(&"Item".to_string(), &fields),
        "interface Item {\n    x: number;\n    label: string | null;\n}\n"
    );
}

#[test]
fn classification_table() {
    assert_eq!(classify(&"Vec".to_string()), TypeClass::List);
    assert_eq!(classify(&"List".to_string()), TypeClass::List);
    assert_eq!(classify(&"Unit".to_string()), TypeClass::Unit);
    assert_eq!(classify(&"Box".to_string()), TypeClass::Wrapper);
    assert_eq!(classify(&"Option".to_string()), TypeClass::Optional);
    assert_eq!(classify(&"bool".to_string()), TypeClass::Boolean);
    assert_eq!(classify(&"str".to_string()), TypeClass::Text);
    assert_eq!(classify(&"f32".to_string()), TypeClass::Number);
    assert_eq!(classify(&"Vector".to_string()), TypeClass::Unmapped);
}
