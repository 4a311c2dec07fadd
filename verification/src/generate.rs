//! The emitter: the Rust definitions for the types of a schema tree.
//!
//! What is written is stated as text: each function here appends to its
//! buffer exactly the characters that the spec function of the same subject
//! gives. A struct lists its attributes, then its elements, then its text; the
//! definitions of the anonymous types follow the struct that refers to them,
//! those of the attributes before those of the elements.

use crate::error::{Fault, GenerateError};
use crate::schema::{Enumeration, XsdAttribute, XsdComplexType, XsdElement, XsdSimpleType};
use crate::text::{first_char, is_ascii_letter, is_plain_letter};
use crate::types::{
    effective_min, effective_min_occurs, join_owned_name, map_to_rust_type, owned_name,
    pascal_case, rust_type, snake_case, to_pascal_case, to_snake_case,
};
use vstd::prelude::*;
use vstd::string::*;

verus! {

/// The line that gives every generated type its derives.
pub open spec fn derive_line() -> Seq<char> {
    "#[derive(Clone, Debug, Deserialize, Serialize)]\n"@
}

/// The line that binds the next field or variant to `wire`: an element's
/// name, an attribute's name behind `@`, `$value` or `$text` for text, or the
/// text of an enumeration value.
pub open spec fn rename_line(wire: Seq<char>) -> Seq<char> {
    "#[serde(rename = \""@ + wire + "\")]\n"@
}

/// The line that declares the field `ident` of type `ty`.
pub open spec fn field_line(ident: Seq<char>, ty: Seq<char>) -> Seq<char> {
    "pub "@ + ident + ": "@ + ty + ",\n"@
}

/// The field of the attribute `a` in the struct `owner`. A prohibited
/// attribute has none.
pub open spec fn attribute_field(owner: Seq<char>, a: XsdAttribute) -> Seq<char> {
    if a.cardinality() is None {
        Seq::empty()
    } else {
        rename_line("@"@ + a.name@) + field_line(snake_case(a.name@), a.field_type(owner))
    }
}

/// The fields of the attributes `attrs` in the struct `owner`, in order.
pub open spec fn attribute_fields(owner: Seq<char>, attrs: Seq<XsdAttribute>) -> Seq<char>
    decreases attrs.len(),
{
    if attrs.len() == 0 {
        Seq::empty()
    } else {
        attribute_fields(owner, attrs.drop_last()) + attribute_field(owner, attrs.last())
    }
}

/// The field of the element `e` in a group whose `minOccurs` is `group`. The
/// `minOccurs` that holds for the element decides both the wrapper of the type
/// and whether the field may be left out of a document.
pub open spec fn element_field(e: XsdElement, group: Option<i64>) -> Seq<char> {
    let min_occurs = effective_min(group, e.min_occurs);
    (if min_occurs == Some(0i64) {
        "#[serde(default)]\n"@
    } else {
        Seq::empty()
    }) + rename_line(e.name@) + field_line(snake_case(e.name@), e.field_type(min_occurs))
}

/// The fields of the elements `elems` of a group, in order.
pub open spec fn element_fields(elems: Seq<XsdElement>, group: Option<i64>) -> Seq<char>
    decreases elems.len(),
{
    if elems.len() == 0 {
        Seq::empty()
    } else {
        element_fields(elems.drop_last(), group) + element_field(elems.last(), group)
    }
}

/// The field for the text of a type with simple content, `base` being the
/// type of the text.
pub open spec fn content_field(content: Option<Seq<char>>) -> Seq<char> {
    match content {
        Some(base) => rename_line("$value"@) + field_line("value"@, rust_type(base)),
        None => Seq::empty(),
    }
}

/// The struct `name`: one field for each attribute that is not prohibited,
/// one for each element, and one for the text where there is text.
pub open spec fn struct_definition(
    name: Seq<char>,
    elems: Seq<XsdElement>,
    group: Option<i64>,
    attrs: Seq<XsdAttribute>,
    content: Option<Seq<char>>,
) -> Seq<char> {
    derive_line() + "pub struct "@ + name + " {\n"@ + attribute_fields(name, attrs)
        + element_fields(elems, group) + content_field(content) + "}\n"@
}

/// Whether `literal` can be turned into the name of a variant: it begins with
/// an ASCII letter.
pub open spec fn starts_with_letter(literal: Seq<char>) -> bool {
    literal.len() > 0 && is_ascii_letter(literal[0])
}

/// Whether every value of the list can be turned into the name of a variant.
pub open spec fn all_start_with_letter(values: Seq<Enumeration>) -> bool {
    forall|i: int| 0 <= i < values.len() ==> starts_with_letter((#[trigger] values[i]).value@)
}

/// The variant for one enumeration value: bound to the value's text as it is
/// written, named by the value's type identifier.
pub open spec fn variant_text(v: Enumeration) -> Seq<char> {
    rename_line(v.value@) + pascal_case(v.value@) + ",\n"@
}

/// The variants for the values `values`, in order.
pub open spec fn variants_text(values: Seq<Enumeration>) -> Seq<char>
    decreases values.len(),
{
    if values.len() == 0 {
        Seq::empty()
    } else {
        variants_text(values.drop_last()) + variant_text(values.last())
    }
}

/// The two definitions for an enumeration: the struct `ident`, whose one
/// field holds the text of a node as a value of the enum, and the enum
/// `ident` + `Enum` with one variant for each value.
pub open spec fn enumeration_text(ident: Seq<char>, values: Seq<Enumeration>) -> Seq<char> {
    derive_line() + "pub struct "@ + ident + " {\n"@ + rename_line("$text"@) + field_line(
        snake_case(ident),
        ident + "Enum"@,
    ) + "}\n"@ + derive_line() + "pub enum "@ + ident + "Enum {\n"@ + variants_text(values)
        + "}\n"@
}

/// The alias `ident` for the type `target`.
pub open spec fn alias_text(ident: Seq<char>, target: Seq<char>) -> Seq<char> {
    "pub type "@ + ident + " = "@ + target + ";\n"@
}

/// The definitions for the simple type `ty` under the name `name`. Values
/// that all begin with a letter give an enum and its wrapper; any other
/// restriction gives an alias for its base type, the list of values being let
/// go; no restriction gives an alias for `String`.
pub open spec fn simple_text(name: Seq<char>, ty: XsdSimpleType) -> Seq<char> {
    let ident = pascal_case(name);
    match ty.restriction {
        Some(restriction) => match restriction.enumeration {
            Some(values) if all_start_with_letter(values@) => enumeration_text(ident, values@),
            _ => alias_text(ident, rust_type(restriction.base@)),
        },
        None => alias_text(ident, "String"@),
    }
}

/// What two steps of a run give one after the other: the text of both,
/// unless one of them fails, and then the failure of the first that does.
pub open spec fn followed_by(
    first: Result<Seq<char>, Fault>,
    second: Result<Seq<char>, Fault>,
) -> Result<Seq<char>, Fault> {
    match first {
        Err(fault) => Err(fault),
        Ok(text) => match second {
            Err(fault) => Err(fault),
            Ok(more) => Ok(text + more),
        },
    }
}

/// The definitions for the complex type `ty` under the name `name`: its
/// struct, then the definitions of the types that its attributes own, then
/// those of the types that its elements own.
///
/// The content model is the `all` group where there is one, else the
/// sequence, else the simple content, whose attributes then stand for the
/// type's; a type with none of them is a struct of its attributes. A choice
/// instead of these is a failure, and so is one in a type further down.
pub open spec fn complex_text(name: Seq<char>, ty: XsdComplexType) -> Result<Seq<char>, Fault>
    decreases ty,
{
    let ident = pascal_case(name);
    match ty.all {
        Some(all) => followed_by(
            followed_by(
                Ok(struct_definition(ident, all.elements@, all.min_occurs, ty.attributes@, None)),
                attribute_types_text(ident, ty.attributes@),
            ),
            element_types_text(all.elements@),
        ),
        None => match ty.choice {
            Some(_) => Err(Fault::UnsupportedChoice { path: name }),
            None => match ty.sequence {
                Some(sequence) => followed_by(
                    followed_by(
                        Ok(
                            struct_definition(
                                ident,
                                sequence.elements@,
                                sequence.min_occurs,
                                ty.attributes@,
                                None,
                            ),
                        ),
                        attribute_types_text(ident, ty.attributes@),
                    ),
                    element_types_text(sequence.elements@),
                ),
                None => match ty.simple_content {
                    Some(simple) => followed_by(
                        Ok(
                            struct_definition(
                                ident,
                                Seq::empty(),
                                None,
                                simple.extension.attributes@,
                                Some(simple.extension.base@),
                            ),
                        ),
                        attribute_types_text(ident, simple.extension.attributes@),
                    ),
                    None => followed_by(
                        Ok(struct_definition(ident, Seq::empty(), None, ty.attributes@, None)),
                        attribute_types_text(ident, ty.attributes@),
                    ),
                },
            },
        },
    }
}

/// The definitions for the type that the attribute `a` of the type `owner`
/// owns, under the owner's and the attribute's name; nothing where it owns
/// none. For a prohibited attribute nothing is generated at all: the type it
/// may own is not defined and not looked into, so nothing in it can fail.
pub open spec fn attribute_type_text(owner: Seq<char>, a: XsdAttribute) -> Result<
    Seq<char>,
    Fault,
>
    decreases a,
{
    if a.cardinality() is None {
        Ok(Seq::empty())
    } else {
        match a.complex_type {
            Some(ty) => complex_text(owned_name(owner, a.name@), ty),
            None => match a.simple_type {
                Some(ty) => Ok(simple_text(owned_name(owner, a.name@), ty)),
                None => Ok(Seq::empty()),
            },
        }
    }
}

/// The definitions for the types that the attributes `attrs` of the type
/// `owner` own, in the order of the attributes. Prohibited attributes add
/// nothing.
pub open spec fn attribute_types_text(owner: Seq<char>, attrs: Seq<XsdAttribute>) -> Result<
    Seq<char>,
    Fault,
>
    decreases attrs,
{
    if attrs.len() == 0 {
        Ok(Seq::empty())
    } else {
        followed_by(
            attribute_types_text(owner, attrs.drop_last()),
            attribute_type_text(owner, attrs.last()),
        )
    }
}

/// The definitions for the type that the element `e` owns, under the
/// element's name; nothing where it owns none.
pub open spec fn element_type_text(e: XsdElement) -> Result<Seq<char>, Fault>
    decreases e,
{
    match e.complex_type {
        Some(ty) => complex_text(e.name@, ty),
        None => match e.simple_type {
            Some(ty) => Ok(simple_text(e.name@, ty)),
            None => Ok(Seq::empty()),
        },
    }
}

/// The definitions for the types that the elements `elems` own, in the order
/// of the elements.
pub open spec fn element_types_text(elems: Seq<XsdElement>) -> Result<Seq<char>, Fault>
    decreases elems,
{
    if elems.len() == 0 {
        Ok(Seq::empty())
    } else {
        followed_by(element_types_text(elems.drop_last()), element_type_text(elems.last()))
    }
}

/// The struct `name` with the given fields, and after it the definitions of
/// the types that its attributes and its elements own.
pub open spec fn struct_text(
    name: Seq<char>,
    elems: Seq<XsdElement>,
    attrs: Seq<XsdAttribute>,
    content: Option<Seq<char>>,
) -> Result<Seq<char>, Fault> {
    followed_by(
        followed_by(
            Ok(struct_definition(name, elems, None, attrs, content)),
            attribute_types_text(name, attrs),
        ),
        element_types_text(elems),
    )
}

/// Whether a step that was to give `expected` did so: the text was appended
/// and `Ok` returned, or the failure was returned.
pub open spec fn wrote(
    before: Seq<char>,
    after: Seq<char>,
    result: Result<(), GenerateError>,
    expected: Result<Seq<char>, Fault>,
) -> bool {
    match expected {
        Ok(text) => result is Ok && after == before + text,
        Err(fault) => result matches Err(e) && e@ == fault,
    }
}

/// Whether a call that was to give `expected` did so: the text was appended
/// to the buffer and `Ok` returned, or the failure was returned and the buffer
/// left as it was.
pub open spec fn emits(
    before: Seq<char>,
    after: Seq<char>,
    result: Result<(), GenerateError>,
    expected: Result<Seq<char>, Fault>,
) -> bool {
    match expected {
        Ok(text) => result is Ok && after == before + text,
        Err(fault) => result matches Err(e) && e@ == fault && after == before,
    }
}

/// The definitions for a complex type that stands on its own: it goes by its
/// own name, and without one nothing can be generated for it.
pub open spec fn complex_output(ty: XsdComplexType) -> Result<Seq<char>, Fault> {
    match ty.name {
        Some(name) => complex_text(name@, ty),
        None => Err(Fault::UnnamedType),
    }
}

/// The definitions for a simple type that stands on its own.
pub open spec fn simple_output(ty: XsdSimpleType) -> Result<Seq<char>, Fault> {
    match ty.name {
        Some(name) => Ok(simple_text(name@, ty)),
        None => Err(Fault::UnnamedType),
    }
}

fn write_rename(wire: &str, f: &mut String)
    ensures
        final(f)@ == old(f)@ + rename_line(wire@),
{
    f.append("#[serde(rename = \"");
    f.append(wire);
    f.append("\")]\n");
    assert(f@ =~= old(f)@ + rename_line(wire@));
}

fn write_field(ident: &str, ty: &str, f: &mut String)
    ensures
        final(f)@ == old(f)@ + field_line(ident@, ty@),
{
    f.append("pub ");
    f.append(ident);
    f.append(": ");
    f.append(ty);
    f.append(",\n");
    assert(f@ =~= old(f)@ + field_line(ident@, ty@));
}

fn write_attribute_fields(owner: &str, attrs: &Vec<XsdAttribute>, f: &mut String)
    ensures
        final(f)@ == old(f)@ + attribute_fields(owner@, attrs@),
{
    let mut i: usize = 0;
    while i < attrs.len()
        invariant
            i <= attrs.len(),
            f@ == old(f)@ + attribute_fields(owner@, attrs@.take(i as int)),
        decreases attrs.len() - i,
    {
        let attr = &attrs[i];
        let ghost before = f@;
        proof {
            assert(attrs@.take(i + 1).drop_last() =~= attrs@.take(i as int));
            assert(attrs@.take(i + 1).last() == *attr);
        }
        match attr.occurs() {
            None => {},
            Some(_) => {
                let mut wire = "@".to_owned();
                wire.append(attr.name.as_str());
                let rs_name = to_snake_case(attr.name.as_str());
                let ty_name = attr.rs_type_name(owner);
                write_rename(wire.as_str(), f);
                write_field(rs_name.as_str(), ty_name.as_str(), f);
            },
        }
        assert(f@ =~= before + attribute_field(owner@, *attr));
        assert(f@ =~= old(f)@ + attribute_fields(owner@, attrs@.take(i + 1)));
        i = i + 1;
    }
    assert(attrs@.take(attrs@.len() as int) =~= attrs@);
}

fn write_element_fields(elems: &Vec<XsdElement>, group: Option<i64>, f: &mut String)
    ensures
        final(f)@ == old(f)@ + element_fields(elems@, group),
{
    let mut i: usize = 0;
    while i < elems.len()
        invariant
            i <= elems.len(),
            f@ == old(f)@ + element_fields(elems@.take(i as int), group),
        decreases elems.len() - i,
    {
        let elem = &elems[i];
        let ghost before = f@;
        proof {
            assert(elems@.take(i + 1).drop_last() =~= elems@.take(i as int));
            assert(elems@.take(i + 1).last() == *elem);
        }
        let min_occurs = effective_min_occurs(group, elem.min_occurs);
        let rs_name = to_snake_case(elem.name.as_str());
        let ty_name = elem.rs_type_name_within(min_occurs);
        match min_occurs {
            Some(0) => {
                f.append("#[serde(default)]\n");
            },
            _ => {},
        }
        write_rename(elem.name.as_str(), f);
        write_field(rs_name.as_str(), ty_name.as_str(), f);
        assert(f@ =~= before + element_field(*elem, group));
        assert(f@ =~= old(f)@ + element_fields(elems@.take(i + 1), group));
        i = i + 1;
    }
    assert(elems@.take(elems@.len() as int) =~= elems@);
}

fn write_struct_definition(
    name: &str,
    elems: &Vec<XsdElement>,
    group: Option<i64>,
    attrs: &Vec<XsdAttribute>,
    content: Option<&str>,
    f: &mut String,
)
    ensures
        final(f)@ == old(f)@ + struct_definition(
            name@,
            elems@,
            group,
            attrs@,
            match content {
                Some(base) => Some(base@),
                None => None,
            },
        ),
{
    f.append("#[derive(Clone, Debug, Deserialize, Serialize)]\n");
    f.append("pub struct ");
    f.append(name);
    f.append(" {\n");
    let ghost opened = f@;
    write_attribute_fields(name, attrs, f);
    write_element_fields(elems, group, f);
    let ghost fields = f@;
    match content {
        Some(base) => {
            let rs_type = map_to_rust_type(base);
            write_rename("$value", f);
            write_field("value", rs_type.as_str(), f);
        },
        None => {},
    }
    assert(f@ =~= fields + content_field(
        match content {
            Some(base) => Some(base@),
            None => None,
        },
    ));
    f.append("}\n");
    assert(opened =~= old(f)@ + (derive_line() + "pub struct "@ + name@ + " {\n"@));
    assert(f@ =~= old(f)@ + struct_definition(
        name@,
        elems@,
        group,
        attrs@,
        match content {
            Some(base) => Some(base@),
            None => None,
        },
    ));
}

fn literals_start_with_letter(values: &Vec<Enumeration>) -> (all: bool)
    ensures
        all == all_start_with_letter(values@),
{
    let mut i: usize = 0;
    while i < values.len()
        invariant
            i <= values.len(),
            forall|j: int| 0 <= j < i ==> starts_with_letter((#[trigger] values@[j]).value@),
        decreases values.len() - i,
    {
        let starts = match first_char(values[i].value.as_str()) {
            Some(c) => is_plain_letter(c),
            None => false,
        };
        if !starts {
            assert(!starts_with_letter(values@[i as int].value@));
            return false;
        }
        i = i + 1;
    }
    true
}

fn write_variants(values: &Vec<Enumeration>, f: &mut String)
    ensures
        final(f)@ == old(f)@ + variants_text(values@),
{
    let mut i: usize = 0;
    while i < values.len()
        invariant
            i <= values.len(),
            f@ == old(f)@ + variants_text(values@.take(i as int)),
        decreases values.len() - i,
    {
        let v = &values[i];
        let ghost before = f@;
        proof {
            assert(values@.take(i + 1).drop_last() =~= values@.take(i as int));
            assert(values@.take(i + 1).last() == *v);
        }
        let v_ident = to_pascal_case(v.value.as_str());
        write_rename(v.value.as_str(), f);
        f.append(v_ident.as_str());
        f.append(",\n");
        assert(f@ =~= before + variant_text(*v));
        assert(f@ =~= old(f)@ + variants_text(values@.take(i + 1)));
        i = i + 1;
    }
    assert(values@.take(values@.len() as int) =~= values@);
}

fn write_enumeration(ident: &str, values: &Vec<Enumeration>, f: &mut String)
    ensures
        final(f)@ == old(f)@ + enumeration_text(ident@, values@),
{
    let snake_name = to_snake_case(ident);
    let mut enum_name = ident.to_owned();
    enum_name.append("Enum");
    f.append("#[derive(Clone, Debug, Deserialize, Serialize)]\n");
    f.append("pub struct ");
    f.append(ident);
    f.append(" {\n");
    write_rename("$text", f);
    write_field(snake_name.as_str(), enum_name.as_str(), f);
    f.append("}\n");
    f.append("#[derive(Clone, Debug, Deserialize, Serialize)]\n");
    f.append("pub enum ");
    f.append(ident);
    f.append("Enum {\n");
    let ghost opened = f@;
    write_variants(values, f);
    f.append("}\n");
    assert(opened =~= old(f)@ + (derive_line() + "pub struct "@ + ident@ + " {\n"@ + rename_line(
        "$text"@,
    ) + field_line(snake_case(ident@), ident@ + "Enum"@) + "}\n"@ + derive_line() + "pub enum "@
        + ident@ + "Enum {\n"@));
    assert(f@ =~= old(f)@ + enumeration_text(ident@, values@));
}

fn write_alias(ident: &str, target: &str, f: &mut String)
    ensures
        final(f)@ == old(f)@ + alias_text(ident@, target@),
{
    f.append("pub type ");
    f.append(ident);
    f.append(" = ");
    f.append(target);
    f.append(";\n");
    assert(f@ =~= old(f)@ + alias_text(ident@, target@));
}

pub(crate) fn write_simple(name: &str, ty: &XsdSimpleType, f: &mut String)
    ensures
        final(f)@ == old(f)@ + simple_text(name@, *ty),
{
    let ident = to_pascal_case(name);
    match &ty.restriction {
        Some(restriction) => {
            match &restriction.enumeration {
                Some(values) => {
                    if literals_start_with_letter(values) {
                        write_enumeration(ident.as_str(), values, f);
                    } else {
                        let rs_type = map_to_rust_type(restriction.base.as_str());
                        write_alias(ident.as_str(), rs_type.as_str(), f);
                    }
                },
                None => {
                    let rs_type = map_to_rust_type(restriction.base.as_str());
                    write_alias(ident.as_str(), rs_type.as_str(), f);
                },
            }
        },
        None => {
            write_alias(ident.as_str(), "String", f);
        },
    }
}

/// A step that follows text already written: where the step did what it was
/// to do, the two together did what they were to do one after the other.
pub(crate) proof fn lemma_wrote_next(
    before: Seq<char>,
    between: Seq<char>,
    after: Seq<char>,
    result: Result<(), GenerateError>,
    first: Result<Seq<char>, Fault>,
    second: Result<Seq<char>, Fault>,
)
    requires
        first matches Ok(text) && between == before + text,
        wrote(between, after, result, second),
    ensures
        wrote(before, after, result, followed_by(first, second)),
{
    if let Ok(more) = second {
        assert(after =~= before + (first->Ok_0 + more));
    }
}

pub(crate) fn write_complex(name: &str, ty: &XsdComplexType, f: &mut String) -> (result: Result<
    (),
    GenerateError,
>)
    ensures
        wrote(old(f)@, final(f)@, result, complex_text(name@, *ty)),
    decreases *ty,
{
    let ident = to_pascal_case(name);
    let no_elements: Vec<XsdElement> = Vec::new();
    let ghost before = f@;
    if let Some(all) = &ty.all {
        write_struct_definition(
            ident.as_str(),
            &all.elements,
            all.min_occurs,
            &ty.attributes,
            None,
            f,
        );
        let ghost definition = Ok::<Seq<char>, Fault>(
            struct_definition(ident@, all.elements@, all.min_occurs, ty.attributes@, None),
        );
        let ghost defined = f@;
        let result = write_attribute_types(ident.as_str(), &ty.attributes, f);
        let ghost with_attributes = followed_by(
            definition,
            attribute_types_text(ident@, ty.attributes@),
        );
        proof {
            lemma_wrote_next(
                before,
                defined,
                f@,
                result,
                definition,
                attribute_types_text(ident@, ty.attributes@),
            );
        }
        if result.is_err() {
            return result;
        }
        let ghost typed = f@;
        let result = write_element_types(&all.elements, f);
        proof {
            lemma_wrote_next(
                before,
                typed,
                f@,
                result,
                with_attributes,
                element_types_text(all.elements@),
            );
        }
        result
    } else if let Some(_choice) = &ty.choice {
        Err(GenerateError::UnsupportedChoice { path: name.to_owned() })
    } else if let Some(sequence) = &ty.sequence {
        write_struct_definition(
            ident.as_str(),
            &sequence.elements,
            sequence.min_occurs,
            &ty.attributes,
            None,
            f,
        );
        let ghost definition = Ok::<Seq<char>, Fault>(
            struct_definition(
                ident@,
                sequence.elements@,
                sequence.min_occurs,
                ty.attributes@,
                None,
            ),
        );
        let ghost defined = f@;
        let result = write_attribute_types(ident.as_str(), &ty.attributes, f);
        let ghost with_attributes = followed_by(
            definition,
            attribute_types_text(ident@, ty.attributes@),
        );
        proof {
            lemma_wrote_next(
                before,
                defined,
                f@,
                result,
                definition,
                attribute_types_text(ident@, ty.attributes@),
            );
        }
        if result.is_err() {
            return result;
        }
        let ghost typed = f@;
        let result = write_element_types(&sequence.elements, f);
        proof {
            lemma_wrote_next(
                before,
                typed,
                f@,
                result,
                with_attributes,
                element_types_text(sequence.elements@),
            );
        }
        result
    } else if let Some(simple) = &ty.simple_content {
        write_struct_definition(
            ident.as_str(),
            &no_elements,
            None,
            &simple.extension.attributes,
            Some(simple.extension.base.as_str()),
            f,
        );
        assert(no_elements@ =~= Seq::empty());
        let ghost definition = Ok::<Seq<char>, Fault>(
            struct_definition(
                ident@,
                Seq::empty(),
                None,
                simple.extension.attributes@,
                Some(simple.extension.base@),
            ),
        );
        let ghost defined = f@;
        let result = write_attribute_types(ident.as_str(), &simple.extension.attributes, f);
        proof {
            lemma_wrote_next(
                before,
                defined,
                f@,
                result,
                definition,
                attribute_types_text(ident@, simple.extension.attributes@),
            );
        }
        result
    } else {
        write_struct_definition(ident.as_str(), &no_elements, None, &ty.attributes, None, f);
        assert(no_elements@ =~= Seq::empty());
        let ghost definition = Ok::<Seq<char>, Fault>(
            struct_definition(ident@, Seq::empty(), None, ty.attributes@, None),
        );
        let ghost defined = f@;
        let result = write_attribute_types(ident.as_str(), &ty.attributes, f);
        proof {
            lemma_wrote_next(
                before,
                defined,
                f@,
                result,
                definition,
                attribute_types_text(ident@, ty.attributes@),
            );
        }
        result
    }
}

fn write_attribute_type(owner: &str, attr: &XsdAttribute, f: &mut String) -> (result: Result<
    (),
    GenerateError,
>)
    ensures
        wrote(old(f)@, final(f)@, result, attribute_type_text(owner@, *attr)),
    decreases *attr,
{
    if attr.occurs().is_none() {
        assert(f@ =~= old(f)@ + Seq::<char>::empty());
        Ok(())
    } else if let Some(ty) = &attr.complex_type {
        let name = join_owned_name(owner, attr.name.as_str());
        write_complex(name.as_str(), ty, f)
    } else if let Some(ty) = &attr.simple_type {
        let name = join_owned_name(owner, attr.name.as_str());
        write_simple(name.as_str(), ty, f);
        Ok(())
    } else {
        assert(f@ =~= old(f)@ + Seq::<char>::empty());
        Ok(())
    }
}

fn write_attribute_types(owner: &str, attrs: &Vec<XsdAttribute>, f: &mut String) -> (result:
    Result<(), GenerateError>)
    ensures
        wrote(old(f)@, final(f)@, result, attribute_types_text(owner@, attrs@)),
    decreases *attrs,
{
    let mut i: usize = 0;
    assert(f@ =~= old(f)@ + Seq::<char>::empty());
    while i < attrs.len()
        invariant
            i <= attrs.len(),
            attribute_types_text(owner@, attrs@.take(i as int)) matches Ok(text) && f@ == old(f)@
                + text,
        decreases attrs.len() - i,
    {
        proof {
            assert(attrs@.take(i + 1).drop_last() =~= attrs@.take(i as int));
            assert(attrs@.take(i + 1).last() == attrs@[i as int]);
        }
        match write_attribute_type(owner, &attrs[i], f) {
            Err(e) => {
                proof {
                    lemma_attribute_types_fail(owner@, attrs@, i + 1);
                }
                return Err(e);
            },
            Ok(()) => {},
        }
        assert(f@ =~= old(f)@ + attribute_types_text(owner@, attrs@.take(i + 1))->Ok_0);
        i = i + 1;
    }
    assert(attrs@.take(attrs@.len() as int) =~= attrs@);
    Ok(())
}

fn write_element_type(elem: &XsdElement, f: &mut String) -> (result: Result<(), GenerateError>)
    ensures
        wrote(old(f)@, final(f)@, result, element_type_text(*elem)),
    decreases *elem,
{
    if let Some(ty) = &elem.complex_type {
        write_complex(elem.name.as_str(), ty, f)
    } else if let Some(ty) = &elem.simple_type {
        write_simple(elem.name.as_str(), ty, f);
        Ok(())
    } else {
        assert(f@ =~= old(f)@ + Seq::<char>::empty());
        Ok(())
    }
}

pub(crate) fn write_element_types(elems: &Vec<XsdElement>, f: &mut String) -> (result: Result<
    (),
    GenerateError,
>)
    ensures
        wrote(old(f)@, final(f)@, result, element_types_text(elems@)),
    decreases *elems,
{
    let mut i: usize = 0;
    assert(f@ =~= old(f)@ + Seq::<char>::empty());
    while i < elems.len()
        invariant
            i <= elems.len(),
            element_types_text(elems@.take(i as int)) matches Ok(text) && f@ == old(f)@ + text,
        decreases elems.len() - i,
    {
        proof {
            assert(elems@.take(i + 1).drop_last() =~= elems@.take(i as int));
            assert(elems@.take(i + 1).last() == elems@[i as int]);
        }
        match write_element_type(&elems[i], f) {
            Err(e) => {
                proof {
                    lemma_element_types_fail(elems@, i + 1);
                }
                return Err(e);
            },
            Ok(()) => {},
        }
        assert(f@ =~= old(f)@ + element_types_text(elems@.take(i + 1))->Ok_0);
        i = i + 1;
    }
    assert(elems@.take(elems@.len() as int) =~= elems@);
    Ok(())
}

/// Hands `text` on to the buffer where the step that wrote it succeeded.
fn commit(result: Result<(), GenerateError>, text: String, f: &mut String) -> (same: Result<
    (),
    GenerateError,
>)
    ensures
        same == result,
        final(f)@ == (if result is Ok {
            old(f)@ + text@
        } else {
            old(f)@
        }),
{
    if result.is_ok() {
        f.append(text.as_str());
    }
    result
}

/// Appends to `f` the definitions for the type that `elem` owns, under the
/// element's name; nothing where it owns none.
pub fn generate_element(elem: XsdElement, f: &mut String) -> (result: Result<(), GenerateError>)
    ensures
        emits(old(f)@, final(f)@, result, element_type_text(elem)),
{
    let mut text = String::new();
    let result = write_element_type(&elem, &mut text);
    assert(text@ =~= Seq::<char>::empty() + text@);
    commit(result, text, f)
}

/// Appends to `f` the definitions for the complex type `ty`, which goes by
/// its own name: its struct and, after it, the types that its attributes and
/// elements own.
pub fn generate_complex(ty: XsdComplexType, f: &mut String) -> (result: Result<(), GenerateError>)
    ensures
        emits(old(f)@, final(f)@, result, complex_output(ty)),
{
    let mut text = String::new();
    let result = match &ty.name {
        Some(name) => write_complex(name.as_str(), &ty, &mut text),
        None => Err(GenerateError::UnnamedType),
    };
    assert(text@ =~= Seq::<char>::empty() + text@);
    commit(result, text, f)
}

/// Appends to `f` the definitions for the type that `attr`, an attribute of
/// the type `prefix`, owns; nothing where it owns none, and nothing for a
/// prohibited attribute.
pub fn generate_attribute(prefix: &str, attr: XsdAttribute, f: &mut String) -> (result: Result<
    (),
    GenerateError,
>)
    ensures
        emits(old(f)@, final(f)@, result, attribute_type_text(prefix@, attr)),
{
    let mut text = String::new();
    let result = write_attribute_type(prefix, &attr, &mut text);
    assert(text@ =~= Seq::<char>::empty() + text@);
    commit(result, text, f)
}

/// Appends to `f` the definitions for the simple type `ty`, which goes by its
/// own name: an enum with its wrapper, or an alias.
pub fn generate_simple(ty: XsdSimpleType, f: &mut String) -> (result: Result<(), GenerateError>)
    ensures
        emits(old(f)@, final(f)@, result, simple_output(ty)),
{
    match &ty.name {
        Some(name) => {
            write_simple(name.as_str(), &ty, f);
            Ok(())
        },
        None => Err(GenerateError::UnnamedType),
    }
}

/// Appends to `f` the struct `name` with a field for each attribute that is
/// not prohibited, for each element, and for the text where `content` names
/// its type; then the definitions of the types that the attributes and the
/// elements own. For a prohibited attribute nothing is written, neither a
/// field nor the type it may own.
pub fn generate_struct(
    name: &str,
    elements: Vec<XsdElement>,
    attribs: Vec<XsdAttribute>,
    content: Option<String>,
    f: &mut String,
) -> (result: Result<(), GenerateError>)
    ensures
        emits(
            old(f)@,
            final(f)@,
            result,
            struct_text(
                name@,
                elements@,
                attribs@,
                match content {
                    Some(base) => Some(base@),
                    None => None,
                },
            ),
        ),
{
    let mut text = String::new();
    let base = match &content {
        Some(base) => Some(base.as_str()),
        None => None,
    };
    write_struct_definition(name, &elements, None, &attribs, base, &mut text);
    let result = match write_attribute_types(name, &attribs, &mut text) {
        Err(e) => Err(e),
        Ok(()) => write_element_types(&elements, &mut text),
    };
    proof {
        let expected = struct_text(
            name@,
            elements@,
            attribs@,
            match content {
                Some(base) => Some(base@),
                None => None,
            },
        );
        if result is Ok {
            assert(text@ =~= expected->Ok_0);
        }
    }
    commit(result, text, f)
}

/// A failure among the first `n` attributes is the failure of the whole list.
proof fn lemma_attribute_types_fail(owner: Seq<char>, attrs: Seq<XsdAttribute>, n: int)
    requires
        0 <= n <= attrs.len(),
        attribute_types_text(owner, attrs.take(n)) is Err,
    ensures
        attribute_types_text(owner, attrs) == attribute_types_text(owner, attrs.take(n)),
    decreases attrs.len() - n,
{
    if n < attrs.len() {
        assert(attrs.take(n + 1).drop_last() =~= attrs.take(n));
        lemma_attribute_types_fail(owner, attrs, n + 1);
    } else {
        assert(attrs.take(n) =~= attrs);
    }
}

/// A failure among the first `n` elements is the failure of the whole list.
proof fn lemma_element_types_fail(elems: Seq<XsdElement>, n: int)
    requires
        0 <= n <= elems.len(),
        element_types_text(elems.take(n)) is Err,
    ensures
        element_types_text(elems) == element_types_text(elems.take(n)),
    decreases elems.len() - n,
{
    if n < elems.len() {
        assert(elems.take(n + 1).drop_last() =~= elems.take(n));
        lemma_element_types_fail(elems, n + 1);
    } else {
        assert(elems.take(n) =~= elems);
    }
}

} // verus!
