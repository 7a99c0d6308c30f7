use ts_interface::destination::{declares_interface, merge_declaration, split_blocks};
use ts_interface::generate::{generate, RawField, RecordDescriptor};
use ts_interface::normalize::RawType;

fn declaration_of(name: &str, field: &str, ty: &str) -> String {
    let record = RecordDescriptor {
        name: name.to_string(),
        fields: vec![RawField {
            name: field.to_string(),
            ty: RawType::Path { ident: ty.to_string(), args: Vec::new() },
        }],
    };
    generate(&record).unwrap()
}

#[test]
fn split_keeps_each_declaration_whole() {
    let a = declaration_of("A", "x", "u32");
    let b = declaration_of("B", "y", "bool");
    let text = format!("{}{}", a, b);
    assert_eq!(split_blocks(&text), vec![a, b]);
    assert_eq!(split_blocks(""), Vec::<String>::new());
    assert_eq!(split_blocks("tail"), vec!["tail".to_string()]);
    assert_eq!(split_blocks("x}\ny"), vec!["x}\n".to_string(), "y".to_string()]);
}

#[test]
fn declares_matches_the_header_only() {
    let a = declaration_of("Alpha", "x", "u32");
    assert!(declares_interface(&a, &"Alpha".to_string()));
    assert!(!declares_interface(&a, &"Alph".to_string()));
    assert!(!declares_interface(&a, &"AlphaBeta".to_string()));
    assert!(!declares_interface(&"}\n".to_string(), &"Alpha".to_string()));
}

#[test]
fn merge_appends_new_record() {
    let a = declaration_of("A", "x", "u32");
    let b = declaration_of("B", "y", "bool");
    let once = merge_declaration("", &"A".to_string(), &a);
    assert_eq!(once, a);
    let twice = merge_declaration(&once, &"B".to_string(), &b);
    assert_eq!(twice, format!("{}{}", a, b));
}

#[test]
fn merge_replaces_same_record_in_place() {
    let a = declaration_of("A", "x", "u32");
    let b = declaration_of("B", "y", "bool");
    let c = declaration_of("C", "z", "str");
    let text = format!("{}{}{}", a, b, c);
    let b2 = declaration_of("B", "y", "String");
    let merged = merge_declaration(&text, &"B".to_string(), &b2);
    assert_eq!(merged, format!("{}{}{}", a, b2, c));
}

#[test]
fn merging_twice_is_byte_identical() {
    let a = declaration_of("A", "x", "u32");
    let b = declaration_of("B", "y", "bool");
    let start = format!("{}", a);
    let once = merge_declaration(&start, &"B".to_string(), &b);
    let again = merge_declaration(&once, &"B".to_string(), &b);
    assert_eq!(once, again);
    let a_again = merge_declaration(&once, &"A".to_string(), &a);
    assert_eq!(a_again, once);
}
