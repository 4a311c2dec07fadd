use xsd_generator::{
    generate_attribute, generate_complex, generate_element, generate_schema, generate_simple,
    generate_struct, All, Choice, Enumeration, Extension, GenerateError, Restriction, Sequence,
    SimpleContent, XsdAttribute, XsdComplexType, XsdElement, XsdSchema, XsdSimpleType, XsdUse,
};

const DERIVE: &str = "#[derive(Clone, Debug, Deserialize, Serialize)]\n";

fn elem(name: &str, data_type: Option<&str>) -> XsdElement {
    XsdElement {
        name: name.to_string(),
        data_type: data_type.map(str::to_string),
        complex_type: None,
        simple_type: None,
        min_occurs: None,
        max_occurs: None,
    }
}

fn attr(name: &str, data_type: Option<&str>, use_: XsdUse) -> XsdAttribute {
    XsdAttribute {
        name: name.to_string(),
        data_type: data_type.map(str::to_string),
        use_,
        complex_type: None,
        simple_type: None,
    }
}

fn complex(name: Option<&str>) -> XsdComplexType {
    XsdComplexType {
        name: name.map(str::to_string),
        sequence: None,
        choice: None,
        all: None,
        simple_content: None,
        attributes: vec![],
    }
}

fn sequence(elements: Vec<XsdElement>, min_occurs: Option<i64>) -> Option<Sequence> {
    Some(Sequence { elements, min_occurs })
}

fn enumerated(name: Option<&str>, base: &str, literals: &[&str]) -> XsdSimpleType {
    XsdSimpleType {
        name: name.map(str::to_string),
        restriction: Some(Restriction {
            base: base.to_string(),
            enumeration: Some(
                literals.iter().map(|l| Enumeration { value: l.to_string() }).collect(),
            ),
        }),
    }
}

fn with_choice(name: Option<&str>) -> XsdComplexType {
    let mut ty = complex(name);
    ty.choice = Some(Choice { elements: vec![elem("a", None), elem("b", None)] });
    ty
}

fn person() -> XsdComplexType {
    let mut age = elem("age", Some("xs:integer"));
    age.min_occurs = Some(0);
    let mut ty = complex(Some("Person"));
    ty.sequence = sequence(vec![elem("name", Some("xs:string")), age], None);
    ty.attributes = vec![attr("id", Some("xs:string"), XsdUse::Required)];
    ty
}

const PERSON: &str = "#[derive(Clone, Debug, Deserialize, Serialize)]\n\
pub struct Person {\n\
#[serde(rename = \"@id\")]\n\
pub id: String,\n\
#[serde(rename = \"name\")]\n\
pub name: String,\n\
#[serde(default)]\n\
#[serde(rename = \"age\")]\n\
pub age: Option<i64>,\n\
}\n";

#[test]
fn person_end_to_end() {
    let mut buf = String::new();
    assert_eq!(generate_complex(person(), &mut buf), Ok(()));
    assert_eq!(buf, PERSON);
    assert_eq!(buf.matches("pub struct").count(), 1);
    assert_eq!(buf.matches("pub enum").count(), 0);
    assert_eq!(buf.matches("pub type").count(), 0);
}

#[test]
fn text_is_appended_to_what_the_buffer_holds() {
    let mut buf = String::from("// before\n");
    assert_eq!(generate_complex(person(), &mut buf), Ok(()));
    assert_eq!(buf, format!("// before\n{PERSON}"));
}

#[test]
fn same_tree_gives_same_text() {
    let mut first = String::new();
    let mut second = String::new();
    generate_complex(person(), &mut first).unwrap();
    generate_complex(person(), &mut second).unwrap();
    assert_eq!(first, second);
}

#[test]
fn prohibited_attribute_has_no_field() {
    let mut with = complex(Some("Item"));
    with.attributes = vec![
        attr("id", Some("xs:string"), XsdUse::Required),
        attr("legacy", Some("xs:int"), XsdUse::Prohibited),
        attr("note", Some("xs:string"), XsdUse::Optional),
    ];
    with.sequence = sequence(vec![elem("legacy", Some("xs:string"))], None);
    let mut without = complex(Some("Item"));
    without.attributes = vec![
        attr("id", Some("xs:string"), XsdUse::Required),
        attr("note", Some("xs:string"), XsdUse::Optional),
    ];
    without.sequence = sequence(vec![elem("legacy", Some("xs:string"))], None);
    let mut a = String::new();
    let mut b = String::new();
    generate_complex(with, &mut a).unwrap();
    generate_complex(without, &mut b).unwrap();
    assert_eq!(a, b);
    assert!(!a.contains("@legacy"));
    assert_eq!(
        a,
        format!(
            "{DERIVE}pub struct Item {{\n#[serde(rename = \"@id\")]\npub id: String,\n\
             #[serde(rename = \"@note\")]\npub note: Option<String>,\n\
             #[serde(rename = \"legacy\")]\npub legacy: String,\n}}\n"
        )
    );
}

#[test]
fn only_prohibited_attributes_give_an_empty_struct() {
    let mut ty = complex(Some("Empty"));
    ty.attributes = vec![attr("gone", Some("xs:string"), XsdUse::Prohibited)];
    let mut buf = String::new();
    generate_complex(ty, &mut buf).unwrap();
    assert_eq!(buf, format!("{DERIVE}pub struct Empty {{\n}}\n"));
}

#[test]
fn unbounded_element_is_a_vec_field() {
    for min in [None, Some(0), Some(1), Some(5)] {
        let mut item = elem("item", Some("xs:string"));
        item.max_occurs = Some("unbounded".to_string());
        item.min_occurs = min;
        let mut buf = String::new();
        generate_struct("Basket", vec![item], vec![], None, &mut buf).unwrap();
        assert!(buf.contains("pub item: Vec<String>,\n"), "{buf}");
    }
}

#[test]
fn repeated_element_that_may_be_absent_defaults() {
    let mut item = elem("item", Some("xs:string"));
    item.max_occurs = Some("unbounded".to_string());
    item.min_occurs = Some(0);
    let mut buf = String::new();
    generate_struct("Basket", vec![item], vec![], None, &mut buf).unwrap();
    assert_eq!(
        buf,
        format!(
            "{DERIVE}pub struct Basket {{\n#[serde(default)]\n#[serde(rename = \"item\")]\n\
             pub item: Vec<String>,\n}}\n"
        )
    );
}

#[test]
fn enumeration_round_trip() {
    let ty = enumerated(Some("Color"), "xs:string", &["Red", "Green", "Blue"]);
    let mut buf = String::new();
    assert_eq!(generate_simple(ty, &mut buf), Ok(()));
    assert_eq!(
        buf,
        format!(
            "{DERIVE}pub struct Color {{\n#[serde(rename = \"$text\")]\npub color: ColorEnum,\n}}\n\
             {DERIVE}pub enum ColorEnum {{\n\
             #[serde(rename = \"Red\")]\nRed,\n\
             #[serde(rename = \"Green\")]\nGreen,\n\
             #[serde(rename = \"Blue\")]\nBlue,\n}}\n"
        )
    );
    let variants = buf.split("pub enum ColorEnum {\n").nth(1).unwrap();
    assert_eq!(variants.matches("#[serde(rename = ").count(), 3);
}

#[test]
fn enumeration_keeps_the_text_of_each_value() {
    let ty = enumerated(Some("shipping_mode"), "xs:token", &["air_mail", "SEA", "byRoad"]);
    let mut buf = String::new();
    generate_simple(ty, &mut buf).unwrap();
    assert_eq!(
        buf,
        format!(
            "{DERIVE}pub struct ShippingMode {{\n#[serde(rename = \"$text\")]\n\
             pub shipping_mode: ShippingModeEnum,\n}}\n\
             {DERIVE}pub enum ShippingModeEnum {{\n\
             #[serde(rename = \"air_mail\")]\nAirMail,\n\
             #[serde(rename = \"SEA\")]\nSea,\n\
             #[serde(rename = \"byRoad\")]\nbyRoad,\n}}\n"
        )
    );
}

#[test]
fn enumeration_fallback() {
    let ty = enumerated(Some("Rank"), "xs:string", &["1st", "2nd"]);
    let mut buf = String::new();
    assert_eq!(generate_simple(ty, &mut buf), Ok(()));
    assert_eq!(buf, "pub type Rank = String;\n");
    assert!(!buf.contains("enum"));
}

#[test]
fn enumeration_falls_back_on_any_value_that_is_no_name() {
    for literals in [&["Red", "2nd"][..], &["Red", ""][..], &["_x"][..], &["\u{e9}t\u{e9}"][..]] {
        let ty = enumerated(Some("Rank"), "xs:int", literals);
        let mut buf = String::new();
        generate_simple(ty, &mut buf).unwrap();
        assert_eq!(buf, "pub type Rank = i32;\n");
    }
}

#[test]
fn enumeration_without_values_is_an_empty_enum() {
    let ty = enumerated(Some("Nothing"), "xs:string", &[]);
    let mut buf = String::new();
    generate_simple(ty, &mut buf).unwrap();
    assert_eq!(
        buf,
        format!(
            "{DERIVE}pub struct Nothing {{\n#[serde(rename = \"$text\")]\n\
             pub nothing: NothingEnum,\n}}\n{DERIVE}pub enum NothingEnum {{\n}}\n"
        )
    );
}

#[test]
fn restriction_without_values_is_an_alias_for_its_base() {
    let ty = XsdSimpleType {
        name: Some("zip_code".to_string()),
        restriction: Some(Restriction { base: "xs:unsignedShort".to_string(), enumeration: None }),
    };
    let mut buf = String::new();
    generate_simple(ty, &mut buf).unwrap();
    assert_eq!(buf, "pub type ZipCode = u16;\n");
    let ty = XsdSimpleType {
        name: Some("Alias".to_string()),
        restriction: Some(Restriction { base: "other_type".to_string(), enumeration: None }),
    };
    let mut buf = String::new();
    generate_simple(ty, &mut buf).unwrap();
    assert_eq!(buf, "pub type Alias = OtherType;\n");
}

#[test]
fn simple_type_without_restriction_is_a_string() {
    let ty = XsdSimpleType { name: Some("Free".to_string()), restriction: None };
    let mut buf = String::new();
    generate_simple(ty, &mut buf).unwrap();
    assert_eq!(buf, "pub type Free = String;\n");
}

#[test]
fn simple_type_without_name_is_refused() {
    let ty = XsdSimpleType { name: None, restriction: None };
    let mut buf = String::from("kept");
    assert_eq!(generate_simple(ty, &mut buf), Err(GenerateError::UnnamedType));
    assert_eq!(buf, "kept");
}

#[test]
fn group_min_occurs_reaches_the_fields() {
    let mut own_zero = elem("b", Some("xs:string"));
    own_zero.min_occurs = Some(0);
    let mut own = elem("c", Some("xs:string"));
    own.min_occurs = Some(3);
    let mut ty = complex(Some("Group"));
    ty.sequence = sequence(vec![elem("a", Some("xs:string")), own_zero, own], Some(2));
    let mut buf = String::new();
    generate_complex(ty, &mut buf).unwrap();
    assert_eq!(
        buf,
        format!(
            "{DERIVE}pub struct Group {{\n#[serde(rename = \"a\")]\npub a: String,\n\
             #[serde(default)]\n#[serde(rename = \"b\")]\npub b: Option<String>,\n\
             #[serde(rename = \"c\")]\npub c: String,\n}}\n"
        )
    );
}

#[test]
fn group_min_occurs_zero_makes_every_child_optional() {
    let mut own = elem("b", Some("xs:int"));
    own.min_occurs = Some(4);
    let mut many = elem("c", Some("xs:int"));
    many.max_occurs = Some("unbounded".to_string());
    let mut ty = complex(Some("Group"));
    ty.all = Some(All { elements: vec![elem("a", Some("xs:int")), own, many], min_occurs: Some(0) });
    let mut buf = String::new();
    generate_complex(ty, &mut buf).unwrap();
    assert_eq!(
        buf,
        format!(
            "{DERIVE}pub struct Group {{\n\
             #[serde(default)]\n#[serde(rename = \"a\")]\npub a: Option<i32>,\n\
             #[serde(default)]\n#[serde(rename = \"b\")]\npub b: Option<i32>,\n\
             #[serde(default)]\n#[serde(rename = \"c\")]\npub c: Vec<i32>,\n}}\n"
        )
    );
}

#[test]
fn simple_content_has_a_text_field() {
    let mut ty = complex(Some("price"));
    ty.simple_content = Some(SimpleContent {
        extension: Extension {
            base: "xs:decimal".to_string(),
            attributes: vec![attr("currency", Some("xs:string"), XsdUse::Optional)],
        },
    });
    let mut buf = String::new();
    generate_complex(ty, &mut buf).unwrap();
    assert_eq!(
        buf,
        format!(
            "{DERIVE}pub struct price {{\n#[serde(rename = \"@currency\")]\n\
             pub currency: Option<String>,\n#[serde(rename = \"$value\")]\npub value: f64,\n}}\n"
        )
    );
}

#[test]
fn type_without_content_model_is_a_struct_of_its_attributes() {
    let mut ty = complex(Some("Marker"));
    ty.attributes = vec![attr("Kind", Some("xs:byte"), XsdUse::Required)];
    let mut buf = String::new();
    generate_complex(ty, &mut buf).unwrap();
    assert_eq!(
        buf,
        format!("{DERIVE}pub struct Marker {{\n#[serde(rename = \"@Kind\")]\npub kind: i8,\n}}\n")
    );
    let mut buf = String::new();
    generate_complex(complex(Some("Bare")), &mut buf).unwrap();
    assert_eq!(buf, format!("{DERIVE}pub struct Bare {{\n}}\n"));
}

#[test]
fn field_named_like_a_reserved_word_is_escaped() {
    let mut ty = complex(Some("Thing"));
    ty.attributes = vec![attr("type", Some("xs:string"), XsdUse::Required)];
    ty.sequence = sequence(vec![elem("match", Some("xs:string"))], None);
    let mut buf = String::new();
    generate_complex(ty, &mut buf).unwrap();
    assert_eq!(
        buf,
        format!(
            "{DERIVE}pub struct Thing {{\n#[serde(rename = \"@type\")]\npub r#type: String,\n\
             #[serde(rename = \"match\")]\npub r#match: String,\n}}\n"
        )
    );
}

#[test]
fn wire_names_are_kept_as_written() {
    let mut ty = complex(Some("order-item"));
    ty.attributes = vec![attr("orderId", Some("xs:long"), XsdUse::Required)];
    ty.sequence = sequence(vec![elem("Unit-Price", Some("xs:double"))], None);
    let mut buf = String::new();
    generate_complex(ty, &mut buf).unwrap();
    assert_eq!(
        buf,
        format!(
            "{DERIVE}pub struct OrderItem {{\n#[serde(rename = \"@orderId\")]\n\
             pub order_id: i64,\n#[serde(rename = \"Unit-Price\")]\npub unit__price: f64,\n}}\n"
        )
    );
}

#[test]
fn nested_types_follow_their_owner_attributes_first() {
    let mut address = complex(None);
    address.sequence = sequence(vec![elem("street", Some("xs:string"))], None);
    let mut home = elem("home", None);
    home.complex_type = Some(address);
    let mut unit = attr("unit", None, XsdUse::Required);
    unit.simple_type = Some(enumerated(None, "xs:string", &["cm", "in"]));
    let mut ty = complex(Some("Person"));
    ty.sequence = sequence(vec![home], None);
    ty.attributes = vec![unit];
    let mut buf = String::new();
    generate_complex(ty, &mut buf).unwrap();
    assert_eq!(
        buf,
        format!(
            "{DERIVE}pub struct Person {{\n#[serde(rename = \"@unit\")]\npub unit: PersonUnit,\n\
             #[serde(rename = \"home\")]\npub home: home,\n}}\n\
             {DERIVE}pub struct PersonUnit {{\n#[serde(rename = \"$text\")]\n\
             pub person_unit: PersonUnitEnum,\n}}\n\
             {DERIVE}pub enum PersonUnitEnum {{\n#[serde(rename = \"cm\")]\ncm,\n\
             #[serde(rename = \"in\")]\nin,\n}}\n\
             {DERIVE}pub struct home {{\n#[serde(rename = \"street\")]\npub street: String,\n}}\n"
        )
    );
}

#[test]
fn field_names_the_type_that_is_defined() {
    let mut kind = attr("kind", None, XsdUse::Optional);
    kind.complex_type = Some(complex(None));
    let reference = kind.rs_type_name("OrderItem");
    assert_eq!(reference, "Option<OrderitemKind>");
    let mut buf = String::new();
    generate_attribute("OrderItem", kind, &mut buf).unwrap();
    assert_eq!(buf, format!("{DERIVE}pub struct OrderitemKind {{\n}}\n"));
}

#[test]
fn types_nest_to_any_depth() {
    let mut inner = complex(None);
    inner.sequence = sequence(vec![elem("leaf", Some("xs:boolean"))], None);
    let mut middle_elem = elem("inner_part", None);
    middle_elem.complex_type = Some(inner);
    let mut middle = complex(None);
    middle.sequence = sequence(vec![middle_elem], None);
    let mut outer_elem = elem("middle_part", None);
    outer_elem.complex_type = Some(middle);
    let mut outer = complex(Some("outer_part"));
    outer.sequence = sequence(vec![outer_elem], None);
    let mut buf = String::new();
    generate_complex(outer, &mut buf).unwrap();
    assert_eq!(
        buf,
        format!(
            "{DERIVE}pub struct OuterPart {{\n#[serde(rename = \"middle_part\")]\n\
             pub middle_part: MiddlePart,\n}}\n\
             {DERIVE}pub struct MiddlePart {{\n#[serde(rename = \"inner_part\")]\n\
             pub inner_part: InnerPart,\n}}\n\
             {DERIVE}pub struct InnerPart {{\n#[serde(rename = \"leaf\")]\npub leaf: bool,\n}}\n"
        )
    );
}

#[test]
fn element_without_its_own_type_gives_nothing() {
    let mut buf = String::from("x");
    assert_eq!(generate_element(elem("plain", Some("xs:string")), &mut buf), Ok(()));
    assert_eq!(buf, "x");
}

#[test]
fn element_hands_its_name_to_its_type() {
    let mut e = elem("purchase_order", None);
    let mut ty = complex(Some("ignored"));
    ty.sequence = sequence(vec![elem("id", Some("xs:int"))], None);
    e.complex_type = Some(ty);
    let mut buf = String::new();
    generate_element(e, &mut buf).unwrap();
    assert_eq!(
        buf,
        format!("{DERIVE}pub struct PurchaseOrder {{\n#[serde(rename = \"id\")]\npub id: i32,\n}}\n")
    );
    let mut e = elem("colour", None);
    e.simple_type = Some(enumerated(None, "xs:string", &["1", "2"]));
    let mut buf = String::new();
    generate_element(e, &mut buf).unwrap();
    assert_eq!(buf, "pub type colour = String;\n");
}

#[test]
fn attribute_without_its_own_type_gives_nothing() {
    let mut buf = String::new();
    let a = attr("id", Some("xs:string"), XsdUse::Required);
    assert_eq!(generate_attribute("Person", a, &mut buf), Ok(()));
    assert_eq!(buf, "");
}

#[test]
fn attribute_type_goes_by_owner_and_name() {
    let mut a = attr("unit", None, XsdUse::Required);
    a.simple_type = Some(XsdSimpleType { name: None, restriction: None });
    let mut buf = String::new();
    generate_attribute("Person", a, &mut buf).unwrap();
    assert_eq!(buf, "pub type PersonUnit = String;\n");
}

#[test]
fn prohibited_attribute_leaves_nothing_of_its_own_type() {
    let mut gone = attr("old", None, XsdUse::Prohibited);
    gone.simple_type = Some(XsdSimpleType { name: None, restriction: None });
    let mut buf = String::new();
    generate_struct("T", vec![], vec![gone], None, &mut buf).unwrap();
    assert_eq!(buf, "#[derive(Clone, Debug, Deserialize, Serialize)]\npub struct T {\n}\n");

    let mut gone = attr("old", None, XsdUse::Prohibited);
    gone.complex_type = Some(complex(None));
    let mut kept = attr("unit", None, XsdUse::Optional);
    kept.simple_type = Some(XsdSimpleType { name: None, restriction: None });
    let mut ty = complex(Some("T"));
    ty.attributes = vec![gone, kept];
    let mut buf = String::new();
    generate_complex(ty, &mut buf).unwrap();
    assert_eq!(
        buf,
        format!(
            "{DERIVE}pub struct T {{\n#[serde(rename = \"@unit\")]\npub unit: Option<TUnit>,\n}}\n\
             pub type TUnit = String;\n"
        )
    );
}

#[test]
fn prohibited_attribute_as_a_root_gives_nothing() {
    let mut gone = attr("old", None, XsdUse::Prohibited);
    gone.simple_type = Some(enumerated(None, "xs:string", &["a", "b"]));
    let mut buf = String::from("kept");
    assert_eq!(generate_attribute("T", gone, &mut buf), Ok(()));
    assert_eq!(buf, "kept");
}

#[test]
fn choice_under_a_prohibited_attribute_is_not_looked_at() {
    let mut gone = attr("old", None, XsdUse::Prohibited);
    gone.complex_type = Some(with_choice(None));
    let mut ty = complex(Some("T"));
    ty.attributes = vec![gone];
    let mut buf = String::new();
    assert_eq!(generate_complex(ty, &mut buf), Ok(()));
    assert_eq!(buf, format!("{DERIVE}pub struct T {{\n}}\n"));
}

#[test]
fn struct_with_text() {
    let mut buf = String::new();
    let attrs = vec![attr("lang", Some("xs:language"), XsdUse::Required)];
    generate_struct("Title", vec![], attrs, Some("xs:string".to_string()), &mut buf).unwrap();
    assert_eq!(
        buf,
        format!(
            "{DERIVE}pub struct Title {{\n#[serde(rename = \"@lang\")]\npub lang: String,\n\
             #[serde(rename = \"$value\")]\npub value: String,\n}}\n"
        )
    );
    let mut buf = String::new();
    generate_struct("Count", vec![], vec![], Some("xs:int".to_string()), &mut buf).unwrap();
    assert!(buf.contains("pub value: i32,\n"));
}

#[test]
fn struct_takes_its_name_as_given() {
    let mut buf = String::new();
    generate_struct("as_given", vec![], vec![], None, &mut buf).unwrap();
    assert_eq!(buf, format!("{DERIVE}pub struct as_given {{\n}}\n"));
}

#[test]
fn choice_is_refused() {
    let mut buf = String::from("before");
    let result = generate_complex(with_choice(Some("Either")), &mut buf);
    assert_eq!(result, Err(GenerateError::UnsupportedChoice { path: "Either".to_string() }));
    assert_eq!(buf, "before");
}

#[test]
fn choice_further_down_is_refused_and_nothing_is_written() {
    let mut inner = elem("inner", None);
    inner.complex_type = Some(with_choice(None));
    let mut ty = complex(Some("Outer"));
    ty.sequence = sequence(vec![elem("first", Some("xs:string")), inner], None);
    let mut buf = String::from("before");
    let result = generate_complex(ty, &mut buf);
    assert_eq!(result, Err(GenerateError::UnsupportedChoice { path: "inner".to_string() }));
    assert_eq!(buf, "before");
}

#[test]
fn choice_in_an_attribute_type_is_refused_under_owner_and_name() {
    let mut a = attr("mode", None, XsdUse::Required);
    a.complex_type = Some(with_choice(None));
    let mut ty = complex(Some("Engine"));
    ty.attributes = vec![a];
    let mut buf = String::new();
    let result = generate_complex(ty, &mut buf);
    assert_eq!(result, Err(GenerateError::UnsupportedChoice { path: "Engine_mode".to_string() }));
    assert_eq!(buf, "");
}

#[test]
fn choice_in_struct_element_or_attribute_call_leaves_the_buffer() {
    let mut inner = elem("inner", None);
    inner.complex_type = Some(with_choice(None));
    let mut buf = String::from("kept");
    assert!(generate_struct("Owner", vec![inner], vec![], None, &mut buf).is_err());
    assert_eq!(buf, "kept");
    let mut inner = elem("inner", None);
    inner.complex_type = Some(with_choice(None));
    assert!(generate_element(inner, &mut buf).is_err());
    assert_eq!(buf, "kept");
    let mut a = attr("mode", None, XsdUse::Required);
    a.complex_type = Some(with_choice(None));
    assert_eq!(
        generate_attribute("Owner", a, &mut buf),
        Err(GenerateError::UnsupportedChoice { path: "Owner_mode".to_string() })
    );
    assert_eq!(buf, "kept");
}

#[test]
fn all_group_goes_before_a_choice() {
    let mut ty = with_choice(Some("Both"));
    ty.all = Some(All { elements: vec![elem("a", Some("xs:string"))], min_occurs: None });
    let mut buf = String::new();
    assert_eq!(generate_complex(ty, &mut buf), Ok(()));
    assert_eq!(
        buf,
        format!("{DERIVE}pub struct Both {{\n#[serde(rename = \"a\")]\npub a: String,\n}}\n")
    );
}

#[test]
fn complex_type_without_name_is_refused() {
    let mut buf = String::from("kept");
    assert_eq!(generate_complex(complex(None), &mut buf), Err(GenerateError::UnnamedType));
    assert_eq!(buf, "kept");
}

#[test]
fn error_messages_name_the_type() {
    let e = GenerateError::UnsupportedChoice { path: "Engine_mode".to_string() };
    assert_eq!(e.message(), "unsupported construct: choice in complex type Engine_mode");
    assert_eq!(
        GenerateError::UnnamedType.message(),
        "unsupported construct: a type without a name that nothing owns"
    );
}

#[test]
fn schema_run_writes_complex_then_simple_then_element_types() {
    let mut root = elem("root", None);
    root.complex_type = Some(complex(None));
    let schema = XsdSchema {
        elements: vec![elem("plain", Some("Person")), root],
        complex_types: vec![person()],
        simple_types: vec![enumerated(Some("Rank"), "xs:string", &["1st"])],
    };
    let text = generate_schema(&schema).unwrap();
    assert_eq!(
        text,
        format!(
            "use serde::{{Deserialize, Serialize}};{PERSON}pub type Rank = String;\n\
             {DERIVE}pub struct root {{\n}}\n"
        )
    );
}

#[test]
fn empty_schema_is_the_import_line() {
    let schema = XsdSchema { elements: vec![], complex_types: vec![], simple_types: vec![] };
    assert_eq!(generate_schema(&schema).unwrap(), "use serde::{Deserialize, Serialize};");
}

#[test]
fn choice_aborts_the_whole_run() {
    let schema = XsdSchema {
        elements: vec![],
        complex_types: vec![person(), with_choice(Some("Either")), complex(Some("After"))],
        simple_types: vec![enumerated(Some("Rank"), "xs:string", &["first"])],
    };
    assert_eq!(
        generate_schema(&schema),
        Err(GenerateError::UnsupportedChoice { path: "Either".to_string() })
    );
    let mut root = elem("root", None);
    root.complex_type = Some(with_choice(None));
    let schema = XsdSchema {
        elements: vec![root],
        complex_types: vec![person()],
        simple_types: vec![],
    };
    assert_eq!(
        generate_schema(&schema),
        Err(GenerateError::UnsupportedChoice { path: "root".to_string() })
    );
}

#[test]
fn first_failure_of_a_run_is_reported() {
    let schema = XsdSchema {
        elements: vec![],
        complex_types: vec![complex(None), with_choice(Some("Either"))],
        simple_types: vec![],
    };
    assert_eq!(generate_schema(&schema), Err(GenerateError::UnnamedType));
    let schema = XsdSchema {
        elements: vec![],
        complex_types: vec![with_choice(Some("Either")), complex(None)],
        simple_types: vec![XsdSimpleType { name: None, restriction: None }],
    };
    assert_eq!(
        generate_schema(&schema),
        Err(GenerateError::UnsupportedChoice { path: "Either".to_string() })
    );
    let schema = XsdSchema {
        elements: vec![],
        complex_types: vec![],
        simple_types: vec![XsdSimpleType { name: None, restriction: None }],
    };
    assert_eq!(generate_schema(&schema), Err(GenerateError::UnnamedType));
}

#[test]
fn two_names_for_one_identifier_are_refused() {
    let schema = XsdSchema {
        elements: vec![],
        complex_types: vec![complex(Some("order-item")), person(), complex(Some("order_item"))],
        simple_types: vec![],
    };
    assert_eq!(
        generate_schema(&schema),
        Err(GenerateError::NameCollision { identifier: "OrderItem".to_string() })
    );
}

#[test]
fn complex_and_simple_type_of_one_identifier_are_refused() {
    let schema = XsdSchema {
        elements: vec![],
        complex_types: vec![complex(Some("Person")), complex(Some("RANK"))],
        simple_types: vec![
            XsdSimpleType { name: Some("Color".to_string()), restriction: None },
            XsdSimpleType { name: Some("Rank".to_string()), restriction: None },
        ],
    };
    assert_eq!(
        generate_schema(&schema),
        Err(GenerateError::NameCollision { identifier: "Rank".to_string() })
    );
}

#[test]
fn first_repeated_identifier_is_reported() {
    let schema = XsdSchema {
        elements: vec![],
        complex_types: vec![
            complex(Some("a_b")),
            complex(Some("c_d")),
            complex(Some("c-d")),
            complex(Some("a-b")),
        ],
        simple_types: vec![],
    };
    assert_eq!(
        generate_schema(&schema),
        Err(GenerateError::NameCollision { identifier: "Cd".to_string() })
    );
}

#[test]
fn collision_goes_before_any_other_failure() {
    let schema = XsdSchema {
        elements: vec![],
        complex_types: vec![with_choice(Some("Either")), complex(None), complex(Some("Twice"))],
        simple_types: vec![XsdSimpleType { name: Some("Twice".to_string()), restriction: None }],
    };
    assert_eq!(
        generate_schema(&schema),
        Err(GenerateError::NameCollision { identifier: "Twice".to_string() })
    );
}

#[test]
fn names_that_differ_after_mapping_do_not_collide() {
    let schema = XsdSchema {
        elements: vec![elem("Person", Some("Person"))],
        complex_types: vec![complex(Some("Person")), complex(Some("person"))],
        simple_types: vec![XsdSimpleType { name: Some("Persons".to_string()), restriction: None }],
    };
    assert_eq!(
        generate_schema(&schema).unwrap(),
        format!(
            "use serde::{{Deserialize, Serialize}};{DERIVE}pub struct Person {{\n}}\n\
             {DERIVE}pub struct person {{\n}}\npub type Persons = String;\n"
        )
    );
}

#[test]
fn unnamed_types_do_not_collide() {
    let schema = XsdSchema {
        elements: vec![],
        complex_types: vec![complex(None), complex(None)],
        simple_types: vec![],
    };
    assert_eq!(generate_schema(&schema), Err(GenerateError::UnnamedType));
}

#[test]
fn collision_message_names_the_identifier() {
    let e = GenerateError::NameCollision { identifier: "OrderItem".to_string() };
    assert_eq!(e.message(), "name collision: more than one type is named OrderItem");
}

#[test]
fn type_without_owned_types_is_one_struct_with_a_field_for_each() {
    let mut many = elem("item", Some("xs:string"));
    many.max_occurs = Some("unbounded".to_string());
    let mut ty = complex(Some("basket"));
    ty.sequence = sequence(vec![elem("owner", Some("Person")), many], Some(0));
    ty.attributes = vec![
        attr("id", Some("xs:string"), XsdUse::Required),
        attr("old", Some("xs:string"), XsdUse::Prohibited),
        attr("note", None, XsdUse::Optional),
    ];
    let mut buf = String::new();
    generate_complex(ty, &mut buf).unwrap();
    assert_eq!(buf.matches("pub struct ").count(), 1);
    assert_eq!(buf.matches("pub enum ").count(), 0);
    assert_eq!(buf.matches("pub type ").count(), 0);
    assert_eq!(buf.matches("\npub ").count() - 1, 2 + 2);
    assert_eq!(buf.matches("#[serde(rename = ").count(), 2 + 2);

    let mut ty = complex(Some("price"));
    ty.simple_content = Some(SimpleContent {
        extension: Extension {
            base: "xs:decimal".to_string(),
            attributes: vec![
                attr("currency", Some("xs:string"), XsdUse::Optional),
                attr("old", None, XsdUse::Prohibited),
            ],
        },
    });
    let mut buf = String::new();
    generate_complex(ty, &mut buf).unwrap();
    assert_eq!(buf.matches("pub struct ").count(), 1);
    assert_eq!(buf.matches("#[serde(rename = ").count(), 1 + 0 + 1);
}
