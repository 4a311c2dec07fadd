//! What holds of every schema: laws of the emitter, stated over the text it
//! gives and proved once for all inputs.

use crate::error::Fault;
use crate::generate::{
    attribute_field, attribute_fields, attribute_type_text, attribute_types_text,
    complex_output, complex_text, content_field, derive_line, element_field, element_fields,
    element_type_text, element_types_text, field_line, followed_by, rename_line,
    struct_definition, struct_text,
};
use crate::run::{complex_types_text, first_repeated, schema_text, type_identifiers};
use crate::schema::{present, XsdAttribute, XsdComplexType, XsdElement, XsdSchema, XsdUse};
use crate::types::{
    effective_min, owned_name, pascal_case, snake_case, unbounded_is_repeated,
};
use vstd::prelude::*;
use vstd::seq_lib::lemma_flatten_concat;

verus! {

/// A prohibited attribute has no field: the struct is the same with the
/// attribute in the list and with the attribute taken out of it, whatever
/// other attributes and elements there are.
pub proof fn prohibited_attribute_has_no_field(
    name: Seq<char>,
    elems: Seq<XsdElement>,
    group: Option<i64>,
    attrs: Seq<XsdAttribute>,
    content: Option<Seq<char>>,
    i: int,
)
    requires
        0 <= i < attrs.len(),
        attrs[i].use_ == XsdUse::Prohibited,
    ensures
        attrs[i].cardinality() is None,
        attribute_field(name, attrs[i]) == Seq::<char>::empty(),
        attribute_fields(name, attrs) == attribute_fields(name, attrs.remove(i)),
        struct_definition(name, elems, group, attrs, content) == struct_definition(
            name,
            elems,
            group,
            attrs.remove(i),
            content,
        ),
{
    lemma_fields_without_prohibited(name, attrs, i);
}

/// A prohibited attribute leaves no trace at all, whatever it owns: the
/// struct and the definitions after it are the same with the attribute in the
/// list and with the attribute taken out of it.
pub proof fn prohibited_attribute_leaves_no_trace(
    name: Seq<char>,
    elems: Seq<XsdElement>,
    attrs: Seq<XsdAttribute>,
    content: Option<Seq<char>>,
    i: int,
)
    requires
        0 <= i < attrs.len(),
        attrs[i].use_ == XsdUse::Prohibited,
    ensures
        attribute_type_text(name, attrs[i]) == Ok::<Seq<char>, Fault>(Seq::empty()),
        struct_text(name, elems, attrs, content) == struct_text(
            name,
            elems,
            attrs.remove(i),
            content,
        ),
{
    lemma_fields_without_prohibited(name, attrs, i);
    lemma_types_without_attribute(name, attrs, i);
}

proof fn lemma_types_without_attribute(owner: Seq<char>, attrs: Seq<XsdAttribute>, i: int)
    requires
        0 <= i < attrs.len(),
        attrs[i].use_ == XsdUse::Prohibited,
    ensures
        attribute_types_text(owner, attrs) == attribute_types_text(owner, attrs.remove(i)),
    decreases attrs.len(),
{
    let head = attrs.drop_last();
    if i == attrs.len() - 1 {
        assert(attrs.remove(i) =~= head);
        assert(attribute_type_text(owner, attrs.last()) == Ok::<Seq<char>, Fault>(Seq::empty()));
        match attribute_types_text(owner, head) {
            Ok(text) => {
                assert(text + Seq::<char>::empty() =~= text);
            },
            Err(_) => {},
        }
    } else {
        let rest = attrs.remove(i);
        assert(rest.drop_last() =~= head.remove(i));
        assert(rest.last() == attrs.last());
        assert(head[i] == attrs[i]);
        lemma_types_without_attribute(owner, head, i);
        assert(attribute_types_text(owner, rest) == followed_by(
            attribute_types_text(owner, rest.drop_last()),
            attribute_type_text(owner, rest.last()),
        ));
    }
}

/// The field of an element whose `maxOccurs` is `unbounded` is a `Vec` of the
/// element's type, whatever the element's `minOccurs` and that of its group.
pub proof fn unbounded_element_has_vec_field(element: XsdElement, group: Option<i64>)
    requires
        element.max_occurs matches Some(m) && m@ == "unbounded"@,
    ensures
        element_field(element, group) == (if effective_min(group, element.min_occurs) == Some(
            0i64,
        ) {
            "#[serde(default)]\n"@
        } else {
            Seq::empty()
        }) + rename_line(element.name@) + field_line(
            snake_case(element.name@),
            "Vec<"@ + element.base_type() + ">"@,
        ),
{
    unbounded_is_repeated(element, effective_min(group, element.min_occurs));
}

proof fn lemma_fields_without_prohibited(owner: Seq<char>, attrs: Seq<XsdAttribute>, i: int)
    requires
        0 <= i < attrs.len(),
        attrs[i].use_ == XsdUse::Prohibited,
    ensures
        attribute_fields(owner, attrs) == attribute_fields(owner, attrs.remove(i)),
    decreases attrs.len(),
{
    if i == attrs.len() - 1 {
        assert(attrs.remove(i) =~= attrs.drop_last());
        assert(attribute_fields(owner, attrs) =~= attribute_fields(owner, attrs.drop_last()));
    } else {
        assert(attrs.remove(i).drop_last() =~= attrs.drop_last().remove(i));
        assert(attrs.remove(i).last() == attrs.last());
        lemma_fields_without_prohibited(owner, attrs.drop_last(), i);
    }
}

/// Whether the attribute owns a complex type that holds a choice and that
/// the emitter walks. A prohibited attribute is left out of the walk with all
/// that it owns: nothing is generated for it, so a choice under it does not
/// end the run.
pub open spec fn attribute_holds_choice(a: XsdAttribute) -> bool
    decreases a,
{
    match a.complex_type {
        Some(ty) => a.cardinality() is Some && holds_choice(ty),
        None => false,
    }
}

/// Whether one of the attributes owns a complex type that holds a choice.
pub open spec fn attributes_hold_choice(attrs: Seq<XsdAttribute>) -> bool
    decreases attrs,
{
    exists|i: int| 0 <= i < attrs.len() && attribute_holds_choice(#[trigger] attrs[i])
}

/// Whether the element owns a complex type that holds a choice.
pub open spec fn element_holds_choice(e: XsdElement) -> bool
    decreases e,
{
    match e.complex_type {
        Some(ty) => holds_choice(ty),
        None => false,
    }
}

/// Whether one of the elements owns a complex type that holds a choice.
pub open spec fn elements_hold_choice(elems: Seq<XsdElement>) -> bool
    decreases elems,
{
    exists|i: int| 0 <= i < elems.len() && element_holds_choice(#[trigger] elems[i])
}

/// Whether a choice stands anywhere in the tree of `ty` that the emitter
/// walks: as the content model of `ty` itself, or in a complex type that one
/// of its attributes or elements owns, at any depth. The walk takes the
/// content model as the emitter does: `all` before a choice, a choice before
/// a sequence and simple content; with simple content it goes through the
/// attributes of the extension. It passes over prohibited attributes.
pub open spec fn holds_choice(ty: XsdComplexType) -> bool
    decreases ty,
{
    match ty.all {
        Some(all) => attributes_hold_choice(ty.attributes@) || elements_hold_choice(
            all.elements@,
        ),
        None => match ty.choice {
            Some(_) => true,
            None => match ty.sequence {
                Some(sequence) => attributes_hold_choice(ty.attributes@) || elements_hold_choice(
                    sequence.elements@,
                ),
                None => match ty.simple_content {
                    Some(simple) => attributes_hold_choice(simple.extension.attributes@),
                    None => attributes_hold_choice(ty.attributes@),
                },
            },
        },
    }
}

/// A complex type whose one content model is a choice is refused under the
/// name it goes by.
pub proof fn choice_is_refused(name: Seq<char>, ty: XsdComplexType)
    requires
        ty.well_formed(),
        ty.choice is Some,
    ensures
        complex_text(name, ty) == Err::<Seq<char>, Fault>(
            Fault::UnsupportedChoice { path: name },
        ),
{
}

/// A choice anywhere in the tree of a complex type is fatal, and nothing
/// else is: the type gives text exactly when it holds no choice, and its
/// failure is the unsupported choice.
pub proof fn choice_is_fatal(name: Seq<char>, ty: XsdComplexType)
    ensures
        complex_text(name, ty) is Err <==> holds_choice(ty),
        complex_text(name, ty) matches Err(fault) ==> fault is UnsupportedChoice,
    decreases ty,
{
    let ident = pascal_case(name);
    match ty.all {
        Some(all) => {
            lemma_attribute_choices(ident, ty.attributes@);
            lemma_element_choices(all.elements@);
        },
        None => match ty.choice {
            Some(_) => {},
            None => match ty.sequence {
                Some(sequence) => {
                    lemma_attribute_choices(ident, ty.attributes@);
                    lemma_element_choices(sequence.elements@);
                },
                None => match ty.simple_content {
                    Some(simple) => {
                        lemma_attribute_choices(ident, simple.extension.attributes@);
                    },
                    None => {
                        lemma_attribute_choices(ident, ty.attributes@);
                    },
                },
            },
        },
    }
}

proof fn lemma_attribute_choices(owner: Seq<char>, attrs: Seq<XsdAttribute>)
    ensures
        attribute_types_text(owner, attrs) is Err <==> attributes_hold_choice(attrs),
        attribute_types_text(owner, attrs) matches Err(fault) ==> fault is UnsupportedChoice,
    decreases attrs,
{
    if attrs.len() > 0 {
        let head = attrs.drop_last();
        let last = attrs.last();
        lemma_attribute_choices(owner, head);
        if let Some(ty) = last.complex_type {
            choice_is_fatal(owned_name(owner, last.name@), ty);
        }
        if attributes_hold_choice(head) {
            let i = choose|i: int| 0 <= i < head.len() && attribute_holds_choice(#[trigger] head[i]);
            assert(attrs[i] == head[i]);
        }
        if attribute_type_text(owner, last) is Err {
            assert(attrs[attrs.len() - 1] == last);
        }
        if attributes_hold_choice(attrs) {
            let i = choose|i: int|
                0 <= i < attrs.len() && attribute_holds_choice(#[trigger] attrs[i]);
            if i < head.len() {
                assert(head[i] == attrs[i]);
            }
        }
    }
}

proof fn lemma_element_choices(elems: Seq<XsdElement>)
    ensures
        element_types_text(elems) is Err <==> elements_hold_choice(elems),
        element_types_text(elems) matches Err(fault) ==> fault is UnsupportedChoice,
    decreases elems,
{
    if elems.len() > 0 {
        let head = elems.drop_last();
        let last = elems.last();
        lemma_element_choices(head);
        if let Some(ty) = last.complex_type {
            choice_is_fatal(last.name@, ty);
        }
        if elements_hold_choice(head) {
            let i = choose|i: int| 0 <= i < head.len() && element_holds_choice(#[trigger] head[i]);
            assert(elems[i] == head[i]);
        }
        if element_type_text(last) is Err {
            assert(elems[elems.len() - 1] == last);
        }
        if elements_hold_choice(elems) {
            let i = choose|i: int|
                0 <= i < elems.len() && element_holds_choice(#[trigger] elems[i]);
            if i < head.len() {
                assert(head[i] == elems[i]);
            }
        }
    }
}

/// A failure anywhere in a list of complex types is a failure of the list.
proof fn lemma_complex_types_abort(types: Seq<XsdComplexType>, i: int)
    requires
        0 <= i < types.len(),
        complex_output(types[i]) is Err,
    ensures
        complex_types_text(types) is Err,
    decreases types.len(),
{
    if i < types.len() - 1 {
        assert(types.drop_last()[i] == types[i]);
        lemma_complex_types_abort(types.drop_last(), i);
    }
}

/// A choice in any of the named complex types of a schema, or in a type that
/// a top-level element owns, ends the run: the schema gives a failure, and
/// with it no text for that type nor for any type after it.
pub proof fn choice_aborts_the_run(schema: XsdSchema)
    requires
        (exists|i: int|
            0 <= i < schema.complex_types@.len() && holds_choice(
                #[trigger] schema.complex_types@[i],
            )) || elements_hold_choice(schema.elements@),
    ensures
        schema_text(schema) is Err,
{
    if exists|i: int|
        0 <= i < schema.complex_types@.len() && holds_choice(#[trigger] schema.complex_types@[i]) {
        let i = choose|i: int|
            0 <= i < schema.complex_types@.len() && holds_choice(
                #[trigger] schema.complex_types@[i],
            );
        let ty = schema.complex_types@[i];
        if let Some(name) = ty.name {
            choice_is_fatal(name@, ty);
        }
        lemma_complex_types_abort(schema.complex_types@, i);
    } else {
        lemma_element_choices(schema.elements@);
    }
}

/// A list has a repeated name exactly when two of its entries are equal.
pub proof fn first_repeated_finds_every_repeat(names: Seq<Seq<char>>)
    ensures
        first_repeated(names) is None <==> (forall|i: int, j: int|
            0 <= i < j < names.len() ==> names[i] != names[j]),
        first_repeated(names) matches Some(name) ==> names.contains(name),
    decreases names.len(),
{
    if names.len() > 0 {
        let head = names.drop_last();
        let last = names.last();
        first_repeated_finds_every_repeat(head);
        if first_repeated(head) is Some {
            let name = first_repeated(head)->Some_0;
            let k = choose|k: int| 0 <= k < head.len() && head[k] == name;
            assert(names[k] == name);
            let (i, j) = choose|i: int, j: int| 0 <= i < j < head.len() && head[i] == head[j];
            assert(names[i] == names[j]);
        } else if head.contains(last) {
            let i = choose|i: int| 0 <= i < head.len() && head[i] == last;
            assert(names[i] == names[names.len() - 1]);
        } else {
            assert forall|i: int, j: int| 0 <= i < j < names.len() implies names[i]
                != names[j] by {
                if j < head.len() {
                    assert(head[i] != head[j]);
                } else {
                    assert(head[i] == names[i]);
                }
            }
        }
    }
}

/// Two named types of a schema whose names give the same type identifier end
/// the run: the schema gives the collision as its failure, and no text.
pub proof fn name_collision_is_fatal(schema: XsdSchema, i: int, j: int)
    requires
        0 <= i < j < type_identifiers(schema).len(),
        type_identifiers(schema)[i] == type_identifiers(schema)[j],
    ensures
        schema_text(schema) matches Err(fault) && fault is NameCollision,
{
    first_repeated_finds_every_repeat(type_identifiers(schema));
}

/// The first line and a half of the definition of the struct `ident`.
pub open spec fn struct_opening(ident: Seq<char>) -> Seq<char> {
    derive_line() + "pub struct "@ + ident
}

/// The definitions for a complex type begin with the struct that goes by the
/// type identifier of its name.
pub proof fn complex_type_is_defined_under_its_identifier(name: Seq<char>, ty: XsdComplexType)
    ensures
        complex_text(name, ty) matches Ok(text) ==> struct_opening(pascal_case(name)).is_prefix_of(
            text,
        ),
{
    if let Ok(text) = complex_text(name, ty) {
        let opening = struct_opening(pascal_case(name));
        assert(opening =~= text.subrange(0, opening.len() as int));
    }
}

/// The field of an attribute or element that owns a complex type refers to
/// the struct that is defined for that type: the type of one occurrence is
/// the identifier that the definition goes by. (A prohibited attribute has
/// neither field nor definition.)
pub proof fn field_refers_to_the_definition(
    owner: Seq<char>,
    attribute: XsdAttribute,
    element: XsdElement,
)
    ensures
        attribute.complex_type is Some && attribute.cardinality() is Some ==> (
        attribute_type_text(owner, attribute) matches Ok(text) ==> struct_opening(
            attribute.base_type(owner),
        ).is_prefix_of(text)),
        element.complex_type is Some ==> (element_type_text(element) matches Ok(text)
            ==> struct_opening(element.base_type()).is_prefix_of(text)),
{
    if let Some(ty) = attribute.complex_type {
        complex_type_is_defined_under_its_identifier(owned_name(owner, attribute.name@), ty);
    }
    if let Some(ty) = element.complex_type {
        complex_type_is_defined_under_its_identifier(element.name@, ty);
    }
}

/// The attributes among `attrs` that have a field: those not prohibited.
pub open spec fn fielded_attributes(attrs: Seq<XsdAttribute>) -> Seq<XsdAttribute> {
    attrs.filter(|a: XsdAttribute| a.cardinality() is Some)
}

/// The fields of the struct `name`, one entry for each field: those of the
/// attributes that are not prohibited, those of the elements, and the one for
/// the text where there is text.
pub open spec fn struct_fields(
    name: Seq<char>,
    elems: Seq<XsdElement>,
    group: Option<i64>,
    attrs: Seq<XsdAttribute>,
    content: Option<Seq<char>>,
) -> Seq<Seq<char>> {
    fielded_attributes(attrs).map_values(|a: XsdAttribute| attribute_field(name, a))
        + elems.map_values(|e: XsdElement| element_field(e, group)) + (match content {
        Some(_) => seq![content_field(content)],
        None => Seq::empty(),
    })
}

/// A struct is its opening, its fields one after the other, and its closing
/// brace; and it has one field for each attribute that is not prohibited, one
/// for each element, and one more where it holds text.
pub proof fn struct_has_one_field_for_each(
    name: Seq<char>,
    elems: Seq<XsdElement>,
    group: Option<i64>,
    attrs: Seq<XsdAttribute>,
    content: Option<Seq<char>>,
)
    ensures
        struct_definition(name, elems, group, attrs, content) == struct_opening(name) + " {\n"@
            + struct_fields(name, elems, group, attrs, content).flatten() + "}\n"@,
        struct_fields(name, elems, group, attrs, content).len() == fielded_attributes(attrs).len()
            + elems.len() + present(content),
        fielded_attributes(attrs).len() <= attrs.len(),
{
    let of_attributes = fielded_attributes(attrs).map_values(
        |a: XsdAttribute| attribute_field(name, a),
    );
    let of_elements = elems.map_values(|e: XsdElement| element_field(e, group));
    let of_content: Seq<Seq<char>> = match content {
        Some(_) => seq![content_field(content)],
        None => Seq::empty(),
    };
    lemma_attribute_field_entries(name, attrs);
    lemma_element_field_entries(elems, group);
    assert(of_content.flatten() =~= content_field(content)) by {
        if content is Some {
            assert(of_content =~= Seq::<Seq<char>>::empty().push(content_field(content)));
            Seq::<Seq<char>>::empty().lemma_flatten_push(content_field(content));
        }
    }
    lemma_flatten_concat(of_attributes, of_elements);
    lemma_flatten_concat(of_attributes + of_elements, of_content);
    assert(struct_definition(name, elems, group, attrs, content) =~= struct_opening(name)
        + " {\n"@ + struct_fields(name, elems, group, attrs, content).flatten() + "}\n"@);
}

proof fn lemma_attribute_field_entries(owner: Seq<char>, attrs: Seq<XsdAttribute>)
    ensures
        attribute_fields(owner, attrs) == fielded_attributes(attrs).map_values(
            |a: XsdAttribute| attribute_field(owner, a),
        ).flatten(),
        fielded_attributes(attrs).len() <= attrs.len(),
    decreases attrs.len(),
{
    let has_field = |a: XsdAttribute| a.cardinality() is Some;
    let field = |a: XsdAttribute| attribute_field(owner, a);
    if attrs.len() == 0 {
        assert(attrs.filter(has_field) =~= Seq::<XsdAttribute>::empty()) by {
            reveal(Seq::filter);
        }
        assert(attrs.filter(has_field).map_values(field) =~= Seq::<Seq<char>>::empty());
    } else {
        let head = attrs.drop_last();
        let last = attrs.last();
        lemma_attribute_field_entries(owner, head);
        assert(attrs =~= head.push(last));
        head.lemma_filter_push(last, has_field);
        if has_field(last) {
            head.filter(has_field).lemma_push_map_commute(field, last);
            head.filter(has_field).map_values(field).lemma_flatten_push(field(last));
        } else {
            assert(attribute_fields(owner, head) + Seq::<char>::empty() =~= attribute_fields(
                owner,
                head,
            ));
        }
    }
}

proof fn lemma_element_field_entries(elems: Seq<XsdElement>, group: Option<i64>)
    ensures
        element_fields(elems, group) == elems.map_values(
            |e: XsdElement| element_field(e, group),
        ).flatten(),
    decreases elems.len(),
{
    let field = |e: XsdElement| element_field(e, group);
    if elems.len() == 0 {
        assert(elems.map_values(field) =~= Seq::<Seq<char>>::empty());
    } else {
        let head = elems.drop_last();
        let last = elems.last();
        lemma_element_field_entries(head, group);
        assert(elems =~= head.push(last));
        head.lemma_push_map_commute(field, last);
        head.map_values(field).lemma_flatten_push(field(last));
    }
}

/// What the struct of a complex type is made from: the elements of its group
/// with the group's `minOccurs`, its attributes, and the type of its text.
pub struct Parts {
    pub elements: Seq<XsdElement>,
    pub group: Option<i64>,
    pub attributes: Seq<XsdAttribute>,
    pub content: Option<Seq<char>>,
}

/// The parts of the complex type `ty` by its content model; `None` where the
/// content model is a choice.
pub open spec fn parts_of(ty: XsdComplexType) -> Option<Parts> {
    match ty.all {
        Some(all) => Some(
            Parts {
                elements: all.elements@,
                group: all.min_occurs,
                attributes: ty.attributes@,
                content: None,
            },
        ),
        None => match ty.choice {
            Some(_) => None,
            None => match ty.sequence {
                Some(sequence) => Some(
                    Parts {
                        elements: sequence.elements@,
                        group: sequence.min_occurs,
                        attributes: ty.attributes@,
                        content: None,
                    },
                ),
                None => match ty.simple_content {
                    Some(simple) => Some(
                        Parts {
                            elements: Seq::empty(),
                            group: None,
                            attributes: simple.extension.attributes@,
                            content: Some(simple.extension.base@),
                        },
                    ),
                    None => Some(
                        Parts {
                            elements: Seq::empty(),
                            group: None,
                            attributes: ty.attributes@,
                            content: None,
                        },
                    ),
                },
            },
        },
    }
}

/// No attribute that has a field and no element owns a type.
pub open spec fn owns_no_types(attrs: Seq<XsdAttribute>, elems: Seq<XsdElement>) -> bool {
    &&& forall|i: int|
        0 <= i < attrs.len() ==> (#[trigger] attrs[i]).cardinality() is None
            || !attrs[i].owns_type()
    &&& forall|i: int| 0 <= i < elems.len() ==> !(#[trigger] elems[i]).owns_type()
}

/// A complex type whose attributes and elements own no types gives one
/// definition and no other: the struct that goes by its type identifier, with
/// one field for each attribute that is not prohibited, one for each element
/// of its group, and one more where it has simple content.
pub proof fn complex_type_without_owned_types_is_one_struct(name: Seq<char>, ty: XsdComplexType)
    requires
        parts_of(ty) matches Some(parts) && owns_no_types(parts.attributes, parts.elements),
    ensures
        ({
            let parts = parts_of(ty)->Some_0;
            let ident = pascal_case(name);
            let fields = struct_fields(
                ident,
                parts.elements,
                parts.group,
                parts.attributes,
                parts.content,
            );
            &&& complex_text(name, ty) == Ok::<Seq<char>, Fault>(
                struct_opening(ident) + " {\n"@ + fields.flatten() + "}\n"@,
            )
            &&& fields.len() == fielded_attributes(parts.attributes).len() + parts.elements.len()
                + present(parts.content)
        }),
{
    let parts = parts_of(ty)->Some_0;
    let ident = pascal_case(name);
    lemma_no_attribute_types(ident, parts.attributes);
    lemma_no_element_types(parts.elements);
    struct_has_one_field_for_each(
        ident,
        parts.elements,
        parts.group,
        parts.attributes,
        parts.content,
    );
    let definition = struct_definition(
        ident,
        parts.elements,
        parts.group,
        parts.attributes,
        parts.content,
    );
    assert(definition + Seq::<char>::empty() =~= definition);
    assert(element_types_text(Seq::<XsdElement>::empty()) == Ok::<Seq<char>, Fault>(
        Seq::empty(),
    ));
}

proof fn lemma_no_attribute_types(owner: Seq<char>, attrs: Seq<XsdAttribute>)
    requires
        forall|i: int|
            0 <= i < attrs.len() ==> (#[trigger] attrs[i]).cardinality() is None
                || !attrs[i].owns_type(),
    ensures
        attribute_types_text(owner, attrs) == Ok::<Seq<char>, Fault>(Seq::empty()),
    decreases attrs.len(),
{
    if attrs.len() > 0 {
        let head = attrs.drop_last();
        assert forall|i: int| 0 <= i < head.len() implies (#[trigger] head[i]).cardinality()
            is None || !head[i].owns_type() by {
            assert(head[i] == attrs[i]);
        }
        lemma_no_attribute_types(owner, head);
        assert(attrs.last() == attrs[attrs.len() - 1]);
        assert(attribute_type_text(owner, attrs.last()) == Ok::<Seq<char>, Fault>(
            Seq::empty(),
        ));
        assert(Seq::<char>::empty() + Seq::<char>::empty() =~= Seq::<char>::empty());
    }
}

proof fn lemma_no_element_types(elems: Seq<XsdElement>)
    requires
        forall|i: int| 0 <= i < elems.len() ==> !(#[trigger] elems[i]).owns_type(),
    ensures
        element_types_text(elems) == Ok::<Seq<char>, Fault>(Seq::empty()),
    decreases elems.len(),
{
    if elems.len() > 0 {
        let head = elems.drop_last();
        assert forall|i: int| 0 <= i < head.len() implies !(#[trigger] head[i]).owns_type() by {
            assert(head[i] == elems[i]);
        }
        lemma_no_element_types(head);
        assert(elems.last() == elems[elems.len() - 1]);
        assert(element_type_text(elems.last()) == Ok::<Seq<char>, Fault>(Seq::empty()));
        assert(Seq::<char>::empty() + Seq::<char>::empty() =~= Seq::<char>::empty());
    }
}

} // verus!
