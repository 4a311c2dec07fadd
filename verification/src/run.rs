//! A whole run: the generated file for a schema.

use crate::error::{Fault, GenerateError};
use crate::generate::{
    complex_output, element_types_text, followed_by, simple_output, write_complex,
    write_element_types, write_simple, wrote,
};
use crate::schema::{XsdComplexType, XsdSchema, XsdSimpleType};
use crate::types::{pascal_case, to_pascal_case};
use vstd::prelude::*;
use vstd::string::*;

verus! {

/// The strings of `names` as plain text.
pub open spec fn views(names: Seq<String>) -> Seq<Seq<char>> {
    names.map_values(|name: String| name@)
}

/// The definitions for the named complex types `types`, in order.
pub open spec fn complex_types_text(types: Seq<XsdComplexType>) -> Result<Seq<char>, Fault>
    decreases types.len(),
{
    if types.len() == 0 {
        Ok(Seq::empty())
    } else {
        followed_by(complex_types_text(types.drop_last()), complex_output(types.last()))
    }
}

/// The definitions for the named simple types `types`, in order.
pub open spec fn simple_types_text(types: Seq<XsdSimpleType>) -> Result<Seq<char>, Fault>
    decreases types.len(),
{
    if types.len() == 0 {
        Ok(Seq::empty())
    } else {
        followed_by(simple_types_text(types.drop_last()), simple_output(types.last()))
    }
}

/// The line that a generated file begins with.
pub open spec fn import_line() -> Seq<char> {
    "use serde::{Deserialize, Serialize};"@
}

/// The type identifiers of the complex types among `types` that have a name,
/// in order.
pub open spec fn complex_identifiers(types: Seq<XsdComplexType>) -> Seq<Seq<char>>
    decreases types.len(),
{
    if types.len() == 0 {
        Seq::empty()
    } else {
        match types.last().name {
            Some(name) => complex_identifiers(types.drop_last()).push(pascal_case(name@)),
            None => complex_identifiers(types.drop_last()),
        }
    }
}

/// The type identifiers of the simple types among `types` that have a name,
/// in order.
pub open spec fn simple_identifiers(types: Seq<XsdSimpleType>) -> Seq<Seq<char>>
    decreases types.len(),
{
    if types.len() == 0 {
        Seq::empty()
    } else {
        match types.last().name {
            Some(name) => simple_identifiers(types.drop_last()).push(pascal_case(name@)),
            None => simple_identifiers(types.drop_last()),
        }
    }
}

/// The type identifiers that the named types of `schema` are generated under:
/// those of the complex types, then those of the simple types.
pub open spec fn type_identifiers(schema: XsdSchema) -> Seq<Seq<char>> {
    complex_identifiers(schema.complex_types@) + simple_identifiers(schema.simple_types@)
}

/// The first of `names` that has occurred before it in the list, if one has.
pub open spec fn first_repeated(names: Seq<Seq<char>>) -> Option<Seq<char>>
    decreases names.len(),
{
    if names.len() == 0 {
        None
    } else {
        match first_repeated(names.drop_last()) {
            Some(name) => Some(name),
            None => if names.drop_last().contains(names.last()) {
                Some(names.last())
            } else {
                None
            },
        }
    }
}

/// The definitions for everything in `schema`, after the import line: the
/// complex types, the simple types, and the types that the top-level elements
/// own.
pub open spec fn definitions_text(schema: XsdSchema) -> Result<Seq<char>, Fault> {
    followed_by(
        followed_by(
            followed_by(Ok(import_line()), complex_types_text(schema.complex_types@)),
            simple_types_text(schema.simple_types@),
        ),
        element_types_text(schema.elements@),
    )
}

/// The whole generated file for `schema`. Two named types whose names give
/// one type identifier are a failure, which goes before any other; else the
/// file is the import line and the definitions.
pub open spec fn schema_text(schema: XsdSchema) -> Result<Seq<char>, Fault> {
    match first_repeated(type_identifiers(schema)) {
        Some(identifier) => Err(Fault::NameCollision { identifier }),
        None => definitions_text(schema),
    }
}

fn write_complex_types(types: &Vec<XsdComplexType>, f: &mut String) -> (result: Result<
    (),
    GenerateError,
>)
    ensures
        wrote(old(f)@, final(f)@, result, complex_types_text(types@)),
{
    let mut i: usize = 0;
    assert(f@ =~= old(f)@ + Seq::<char>::empty());
    while i < types.len()
        invariant
            i <= types.len(),
            complex_types_text(types@.take(i as int)) matches Ok(text) && f@ == old(f)@ + text,
        decreases types.len() - i,
    {
        proof {
            assert(types@.take(i + 1).drop_last() =~= types@.take(i as int));
            assert(types@.take(i + 1).last() == types@[i as int]);
        }
        let ty = &types[i];
        let result = match &ty.name {
            Some(name) => write_complex(name.as_str(), ty, f),
            None => Err(GenerateError::UnnamedType),
        };
        match result {
            Err(e) => {
                proof {
                    lemma_complex_types_fail(types@, i + 1);
                }
                return Err(e);
            },
            Ok(()) => {},
        }
        assert(f@ =~= old(f)@ + complex_types_text(types@.take(i + 1))->Ok_0);
        i = i + 1;
    }
    assert(types@.take(types@.len() as int) =~= types@);
    Ok(())
}

fn write_simple_types(types: &Vec<XsdSimpleType>, f: &mut String) -> (result: Result<
    (),
    GenerateError,
>)
    ensures
        wrote(old(f)@, final(f)@, result, simple_types_text(types@)),
{
    let mut i: usize = 0;
    assert(f@ =~= old(f)@ + Seq::<char>::empty());
    while i < types.len()
        invariant
            i <= types.len(),
            simple_types_text(types@.take(i as int)) matches Ok(text) && f@ == old(f)@ + text,
        decreases types.len() - i,
    {
        proof {
            assert(types@.take(i + 1).drop_last() =~= types@.take(i as int));
            assert(types@.take(i + 1).last() == types@[i as int]);
        }
        let ty = &types[i];
        match &ty.name {
            Some(name) => {
                write_simple(name.as_str(), ty, f);
            },
            None => {
                proof {
                    lemma_simple_types_fail(types@, i + 1);
                }
                return Err(GenerateError::UnnamedType);
            },
        }
        assert(f@ =~= old(f)@ + simple_types_text(types@.take(i + 1))->Ok_0);
        i = i + 1;
    }
    assert(types@.take(types@.len() as int) =~= types@);
    Ok(())
}

/// Puts the type identifiers of the named complex types behind `names`.
fn collect_complex_identifiers(types: &Vec<XsdComplexType>, names: &mut Vec<String>)
    ensures
        views(final(names)@) == views(old(names)@) + complex_identifiers(types@),
{
    let mut i: usize = 0;
    assert(views(names@) =~= views(old(names)@) + Seq::<Seq<char>>::empty());
    while i < types.len()
        invariant
            i <= types.len(),
            views(names@) == views(old(names)@) + complex_identifiers(types@.take(i as int)),
        decreases types.len() - i,
    {
        proof {
            assert(types@.take(i + 1).drop_last() =~= types@.take(i as int));
            assert(types@.take(i + 1).last() == types@[i as int]);
        }
        let ghost before = names@;
        match &types[i].name {
            Some(name) => {
                names.push(to_pascal_case(name.as_str()));
                assert(views(names@) =~= views(before).push(pascal_case(name@)));
            },
            None => {},
        }
        assert(views(names@) =~= views(old(names)@) + complex_identifiers(types@.take(i + 1)));
        i = i + 1;
    }
    assert(types@.take(types@.len() as int) =~= types@);
}

/// Puts the type identifiers of the named simple types behind `names`.
fn collect_simple_identifiers(types: &Vec<XsdSimpleType>, names: &mut Vec<String>)
    ensures
        views(final(names)@) == views(old(names)@) + simple_identifiers(types@),
{
    let mut i: usize = 0;
    assert(views(names@) =~= views(old(names)@) + Seq::<Seq<char>>::empty());
    while i < types.len()
        invariant
            i <= types.len(),
            views(names@) == views(old(names)@) + simple_identifiers(types@.take(i as int)),
        decreases types.len() - i,
    {
        proof {
            assert(types@.take(i + 1).drop_last() =~= types@.take(i as int));
            assert(types@.take(i + 1).last() == types@[i as int]);
        }
        let ghost before = names@;
        match &types[i].name {
            Some(name) => {
                names.push(to_pascal_case(name.as_str()));
                assert(views(names@) =~= views(before).push(pascal_case(name@)));
            },
            None => {},
        }
        assert(views(names@) =~= views(old(names)@) + simple_identifiers(types@.take(i + 1)));
        i = i + 1;
    }
    assert(types@.take(types@.len() as int) =~= types@);
}

/// Whether `name` is among the first `n` of `names`.
fn occurs_before(names: &Vec<String>, n: usize, name: &String) -> (found: bool)
    requires
        n <= names.len(),
    ensures
        found == views(names@).take(n as int).contains(name@),
{
    let mut i: usize = 0;
    while i < n
        invariant
            i <= n <= names.len(),
            forall|k: int| 0 <= k < i ==> views(names@)[k] != name@,
        decreases n - i,
    {
        if names[i] == *name {
            assert(views(names@).take(n as int)[i as int] == name@);
            return true;
        }
        i = i + 1;
    }
    false
}

/// The first of `names` that has occurred before it in the list, if one has.
fn find_repeated(names: &Vec<String>) -> (repeated: Option<String>)
    ensures
        match first_repeated(views(names@)) {
            Some(name) => repeated matches Some(found) && found@ == name,
            None => repeated is None,
        },
{
    let mut j: usize = 0;
    while j < names.len()
        invariant
            j <= names.len(),
            first_repeated(views(names@).take(j as int)) is None,
        decreases names.len() - j,
    {
        proof {
            let all = views(names@);
            assert(all.take(j + 1).drop_last() =~= all.take(j as int));
            assert(all.take(j + 1).last() == names@[j as int]@);
        }
        if occurs_before(names, j, &names[j]) {
            proof {
                lemma_first_repeated_stays(views(names@), j + 1);
            }
            return Some(names[j].clone());
        }
        j = j + 1;
    }
    assert(views(names@).take(names@.len() as int) =~= views(names@));
    None
}

/// The generated file for `schema`: the import line, then the definitions for
/// the named complex types, for the named simple types, and for the types
/// that the top-level elements own. Where two named types would be generated
/// under one identifier the run ends with that failure before anything is
/// written; else a schema that holds something for which nothing can be
/// generated gives the failure that is met first. A failure gives no text.
pub fn generate_schema(schema: &XsdSchema) -> (result: Result<String, GenerateError>)
    ensures
        match schema_text(*schema) {
            Ok(text) => result matches Ok(file) && file@ == text,
            Err(fault) => result matches Err(e) && e@ == fault,
        },
{
    let mut names: Vec<String> = Vec::new();
    assert(views(names@) =~= Seq::<Seq<char>>::empty());
    collect_complex_identifiers(&schema.complex_types, &mut names);
    collect_simple_identifiers(&schema.simple_types, &mut names);
    assert(views(names@) =~= type_identifiers(*schema));
    if let Some(identifier) = find_repeated(&names) {
        return Err(GenerateError::NameCollision { identifier });
    }
    let mut buf = String::new();
    buf.append("use serde::{Deserialize, Serialize};");
    assert(buf@ =~= import_line());
    match write_complex_types(&schema.complex_types, &mut buf) {
        Err(e) => {
            return Err(e);
        },
        Ok(()) => {},
    }
    match write_simple_types(&schema.simple_types, &mut buf) {
        Err(e) => {
            return Err(e);
        },
        Ok(()) => {},
    }
    match write_element_types(&schema.elements, &mut buf) {
        Err(e) => {
            return Err(e);
        },
        Ok(()) => {},
    }
    assert(buf@ =~= definitions_text(*schema)->Ok_0);
    Ok(buf)
}

/// A name repeated among the first `n` is the first repeated name of the whole list.
proof fn lemma_first_repeated_stays(names: Seq<Seq<char>>, n: int)
    requires
        0 <= n <= names.len(),
        first_repeated(names.take(n)) is Some,
    ensures
        first_repeated(names) == first_repeated(names.take(n)),
    decreases names.len() - n,
{
    if n < names.len() {
        assert(names.take(n + 1).drop_last() =~= names.take(n));
        lemma_first_repeated_stays(names, n + 1);
    } else {
        assert(names.take(n) =~= names);
    }
}

/// A failure among the first `n` complex types is the failure of the whole list.
proof fn lemma_complex_types_fail(types: Seq<XsdComplexType>, n: int)
    requires
        0 <= n <= types.len(),
        complex_types_text(types.take(n)) is Err,
    ensures
        complex_types_text(types) == complex_types_text(types.take(n)),
    decreases types.len() - n,
{
    if n < types.len() {
        assert(types.take(n + 1).drop_last() =~= types.take(n));
        lemma_complex_types_fail(types, n + 1);
    } else {
        assert(types.take(n) =~= types);
    }
}

/// A failure among the first `n` simple types is the failure of the whole list.
proof fn lemma_simple_types_fail(types: Seq<XsdSimpleType>, n: int)
    requires
        0 <= n <= types.len(),
        simple_types_text(types.take(n)) is Err,
    ensures
        simple_types_text(types) == simple_types_text(types.take(n)),
    decreases types.len() - n,
{
    if n < types.len() {
        assert(types.take(n + 1).drop_last() =~= types.take(n));
        lemma_simple_types_fail(types, n + 1);
    } else {
        assert(types.take(n) =~= types);
    }
}

} // verus!
