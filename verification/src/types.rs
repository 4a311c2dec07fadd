//! Names and scalar types: how a schema name becomes a Rust identifier, and
//! what Rust type stands for a type reference.

use crate::schema::{XsdAttribute, XsdElement, XsdUse};
use crate::text::{
    ascii_lower, ascii_upper, contains_char, is_ascii_alnum, is_ascii_upper, is_capital,
    is_letter, is_letter_or_digit, same_text, strip_marker, to_capital, to_small,
};
use vstd::prelude::*;
use vstd::string::*;

verus! {

/// `_` and `-` end a word and are not part of one.
pub open spec fn is_word_break(c: char) -> bool {
    c == '_' || c == '-'
}

/// Whether the next letter or digit after `s` begins a word: nothing but
/// characters that are dropped has been read since the start or since the last
/// word break.
pub open spec fn opens_word(s: Seq<char>) -> bool
    decreases s.len(),
{
    if s.len() == 0 {
        true
    } else if is_word_break(s.last()) {
        true
    } else if is_ascii_alnum(s.last()) {
        false
    } else {
        opens_word(s.drop_last())
    }
}

/// The ASCII letters and digits of `s`, in order, the first of each word as a
/// capital and the others small. Every other character is dropped.
pub open spec fn capitalized_words(s: Seq<char>) -> Seq<char>
    decreases s.len(),
{
    if s.len() == 0 {
        Seq::empty()
    } else {
        let head = s.drop_last();
        let c = s.last();
        if !is_word_break(c) && is_ascii_alnum(c) {
            capitalized_words(head).push(
                if opens_word(head) {
                    ascii_upper(c)
                } else {
                    ascii_lower(c)
                },
            )
        } else {
            capitalized_words(head)
        }
    }
}

/// No letter of `s` is anything but an ASCII capital.
pub open spec fn only_capital_letters(s: Seq<char>) -> bool {
    forall|i: int| 0 <= i < s.len() ==> !is_letter(#[trigger] s[i]) || is_ascii_upper(s[i])
}

/// Whether `s` is split into words and re-cased: it holds a word break, or it
/// is written without a single small letter.
pub open spec fn wants_recasing(s: Seq<char>) -> bool {
    s.contains('_') || s.contains('-') || only_capital_letters(s)
}

/// The type identifier for the schema name `s`.
///
/// A name in mixed case without a word break is taken as it is. Any other name
/// is split and re-cased, and so is the outcome where it still asks for it. Two
/// rounds reach a name that no further round changes
/// ([`pascal_case_is_stable`]).
pub open spec fn pascal_case(s: Seq<char>) -> Seq<char> {
    if !wants_recasing(s) {
        s
    } else {
        let once = capitalized_words(s);
        if !wants_recasing(once) {
            once
        } else {
            capitalized_words(once)
        }
    }
}

fn has_only_capital_letters(input: &str) -> (b: bool)
    ensures
        b == only_capital_letters(input@),
{
    let mut all = true;
    for c in it: input.chars()
        invariant
            it.seq() == input@,
            all == only_capital_letters(input@.take(it.index())),
    {
        proof {
            let k = it.index();
            let before = input@.take(k);
            let after = input@.take(k + 1);
            assert(after =~= before.push(c));
            assert(after[k] == c);
            if only_capital_letters(after) {
                assert forall|i: int| 0 <= i < before.len() implies !is_letter(
                    #[trigger] before[i],
                ) || is_ascii_upper(before[i]) by {
                    assert(before[i] == after[i]);
                }
            }
        }
        if c.is_alphabetic() && !is_capital(c) {
            all = false;
        }
    }
    assert(input@.take(input@.len() as int) =~= input@);
    all
}

fn asks_for_recasing(input: &str) -> (b: bool)
    ensures
        b == wants_recasing(input@),
{
    contains_char(input, '_') || contains_char(input, '-') || has_only_capital_letters(input)
}

fn capitalize_words(input: &str) -> (result: String)
    ensures
        result@ == capitalized_words(input@),
{
    let mut result = String::new();
    let mut capitalize_next = true;
    for c in it: input.chars()
        invariant
            it.seq() == input@,
            result@ == capitalized_words(input@.take(it.index())),
            capitalize_next == opens_word(input@.take(it.index())),
    {
        proof {
            let k = it.index();
            assert(input@.take(k + 1).drop_last() =~= input@.take(k));
            assert(input@.take(k + 1).last() == c);
        }
        if c == '_' || c == '-' {
            capitalize_next = true;
        } else if is_letter_or_digit(c) {
            if capitalize_next {
                result.push(to_capital(c));
                capitalize_next = false;
            } else {
                result.push(to_small(c));
            }
        }
    }
    assert(input@.take(input@.len() as int) =~= input@);
    result
}

/// The type identifier for a schema name: its words, told apart by `_` and
/// `-`, each with a capital first, written together.
pub fn to_pascal_case(input: &str) -> (result: String)
    ensures
        result@ == pascal_case(input@),
{
    if !asks_for_recasing(input) {
        return input.to_owned();
    }
    let once = capitalize_words(input);
    if !asks_for_recasing(once.as_str()) {
        return once;
    }
    capitalize_words(once.as_str())
}

/// What one character adds to a field identifier, `prev` being the
/// character before it (NUL at the start): a capital becomes small, with `_`
/// in front where it follows a character that is no capital; `-` becomes `_`.
pub open spec fn snake_piece(prev: char, c: char) -> Seq<char> {
    if is_ascii_upper(c) {
        if !is_ascii_upper(prev) && prev != '\0' {
            seq!['_', ascii_lower(c)]
        } else {
            seq![ascii_lower(c)]
        }
    } else if c == '-' {
        seq!['_']
    } else {
        seq![c]
    }
}

/// The character before position `i` of `s`, NUL where there is none.
pub open spec fn char_before(s: Seq<char>, i: int) -> char {
    if 0 < i <= s.len() {
        s[i - 1]
    } else {
        '\0'
    }
}

/// `s` in small letters, its words set apart by `_`.
pub open spec fn snake_words(s: Seq<char>) -> Seq<char>
    decreases s.len(),
{
    if s.len() == 0 {
        Seq::empty()
    } else {
        snake_words(s.drop_last()) + snake_piece(char_before(s, s.len() - 1), s.last())
    }
}

/// The words that Rust keeps for itself and takes as an identifier only behind
/// `r#`. The three that it takes in no form (`self`, `super`, `crate`) are not
/// among them.
pub open spec fn is_reserved_word(s: Seq<char>) -> bool {
    ||| s == "as"@
    ||| s == "async"@
    ||| s == "await"@
    ||| s == "break"@
    ||| s == "const"@
    ||| s == "continue"@
    ||| s == "dyn"@
    ||| s == "else"@
    ||| s == "enum"@
    ||| s == "extern"@
    ||| s == "false"@
    ||| s == "fn"@
    ||| s == "for"@
    ||| s == "if"@
    ||| s == "impl"@
    ||| s == "in"@
    ||| s == "let"@
    ||| s == "loop"@
    ||| s == "match"@
    ||| s == "mod"@
    ||| s == "move"@
    ||| s == "mut"@
    ||| s == "pub"@
    ||| s == "ref"@
    ||| s == "return"@
    ||| s == "static"@
    ||| s == "struct"@
    ||| s == "trait"@
    ||| s == "true"@
    ||| s == "type"@
    ||| s == "unsafe"@
    ||| s == "use"@
    ||| s == "where"@
    ||| s == "while"@
    ||| s == "abstract"@
    ||| s == "become"@
    ||| s == "box"@
    ||| s == "do"@
    ||| s == "final"@
    ||| s == "gen"@
    ||| s == "macro"@
    ||| s == "override"@
    ||| s == "priv"@
    ||| s == "try"@
    ||| s == "typeof"@
    ||| s == "unsized"@
    ||| s == "virtual"@
    ||| s == "yield"@
}

/// The field identifier for the schema name `s`: its words in small letters
/// with `_` between them, behind `r#` where that is a reserved word.
pub open spec fn snake_case(s: Seq<char>) -> Seq<char> {
    if is_reserved_word(snake_words(s)) {
        "r#"@ + snake_words(s)
    } else {
        snake_words(s)
    }
}

fn is_keyword(word: &str) -> (b: bool)
    ensures
        b == is_reserved_word(word@),
{
    same_text(word, "as") || same_text(word, "async") || same_text(word, "await") || same_text(
        word,
        "break",
    ) || same_text(word, "const") || same_text(word, "continue") || same_text(word, "dyn")
        || same_text(word, "else") || same_text(word, "enum") || same_text(word, "extern")
        || same_text(word, "false") || same_text(word, "fn") || same_text(word, "for")
        || same_text(word, "if") || same_text(word, "impl") || same_text(word, "in") || same_text(
        word,
        "let",
    ) || same_text(word, "loop") || same_text(word, "match") || same_text(word, "mod")
        || same_text(word, "move") || same_text(word, "mut") || same_text(word, "pub")
        || same_text(word, "ref") || same_text(word, "return") || same_text(word, "static")
        || same_text(word, "struct") || same_text(word, "trait") || same_text(word, "true")
        || same_text(word, "type") || same_text(word, "unsafe") || same_text(word, "use")
        || same_text(word, "where") || same_text(word, "while") || same_text(word, "abstract")
        || same_text(word, "become") || same_text(word, "box") || same_text(word, "do")
        || same_text(word, "final") || same_text(word, "gen") || same_text(word, "macro")
        || same_text(word, "override") || same_text(word, "priv") || same_text(word, "try")
        || same_text(word, "typeof") || same_text(word, "unsized") || same_text(word, "virtual")
        || same_text(word, "yield")
}

/// The field identifier for a schema name: a `_` goes before each capital
/// that follows a character that is no capital, every capital becomes small,
/// `-` becomes `_`, and a reserved word is written behind `r#`.
pub fn to_snake_case(input: &str) -> (result: String)
    ensures
        result@ == snake_case(input@),
{
    let mut result = String::new();
    let mut prev_char = '\0';
    for c in it: input.chars()
        invariant
            it.seq() == input@,
            result@ == snake_words(input@.take(it.index())),
            prev_char == char_before(input@, it.index()),
    {
        proof {
            let k = it.index();
            assert(input@.take(k + 1).drop_last() =~= input@.take(k));
            assert(input@.take(k + 1).last() == c);
            assert(char_before(input@.take(k + 1), k) == char_before(input@, k));
        }
        let ghost before = result@;
        if is_capital(c) {
            if !is_capital(prev_char) && prev_char != '\0' {
                result.push('_');
            }
            result.push(to_small(c));
        } else if c == '-' {
            result.push('_');
        } else {
            result.push(c);
        }
        assert(result@ =~= before + snake_piece(prev_char, c));
        prev_char = c;
    }
    assert(input@.take(input@.len() as int) =~= input@);
    if is_keyword(result.as_str()) {
        let mut escaped = "r#".to_owned();
        escaped.append(result.as_str());
        escaped
    } else {
        result
    }
}

/// The Rust scalar for a schema primitive, named without its prefix. A name
/// that the table does not hold is read as a string.
pub open spec fn primitive_type(s: Seq<char>) -> Seq<char> {
    if s == "string"@ || s == "normalizedString"@ || s == "token"@ || s == "language"@ || s
        == "Name"@ || s == "NMTOKEN"@ {
        "String"@
    } else if s == "boolean"@ {
        "bool"@
    } else if s == "decimal"@ || s == "double"@ {
        "f64"@
    } else if s == "float"@ {
        "f32"@
    } else if s == "integer"@ || s == "nonPositiveInteger"@ || s == "negativeInteger"@ || s
        == "long"@ {
        "i64"@
    } else if s == "int"@ {
        "i32"@
    } else if s == "short"@ {
        "i16"@
    } else if s == "byte"@ {
        "i8"@
    } else if s == "nonNegativeInteger"@ || s == "unsignedLong"@ || s == "positiveInteger"@ {
        "u64"@
    } else if s == "unsignedInt"@ {
        "u32"@
    } else if s == "unsignedShort"@ {
        "u16"@
    } else if s == "unsignedByte"@ {
        "u8"@
    } else {
        "String"@
    }
}

/// The Rust type for a type reference: the scalar of the table for a
/// primitive, written behind `xs:` or `xsd:`; the type identifier for any
/// other name; a string where no type is named.
pub open spec fn rust_type(s: Seq<char>) -> Seq<char> {
    if "xs:"@.is_prefix_of(s) {
        primitive_type(s.skip("xs:"@.len() as int))
    } else if "xsd:"@.is_prefix_of(s) {
        primitive_type(s.skip("xsd:"@.len() as int))
    } else if s.len() > 0 {
        pascal_case(s)
    } else {
        "String"@
    }
}

/// The Rust scalar for a schema primitive whose name is given without prefix:
/// the string family and the dates and times are strings, `boolean` is `bool`,
/// the numbers go by their width, and an unknown name is a string.
pub fn map_primitive_to_rust_type(prim_type: &str) -> (rust: &'static str)
    ensures
        rust@ == primitive_type(prim_type@),
{
    if same_text(prim_type, "string") || same_text(prim_type, "normalizedString") || same_text(
        prim_type,
        "token",
    ) || same_text(prim_type, "language") || same_text(prim_type, "Name") || same_text(
        prim_type,
        "NMTOKEN",
    ) {
        "String"
    } else if same_text(prim_type, "boolean") {
        "bool"
    } else if same_text(prim_type, "decimal") || same_text(prim_type, "double") {
        "f64"
    } else if same_text(prim_type, "float") {
        "f32"
    } else if same_text(prim_type, "integer") || same_text(prim_type, "nonPositiveInteger")
        || same_text(prim_type, "negativeInteger") || same_text(prim_type, "long") {
        "i64"
    } else if same_text(prim_type, "int") {
        "i32"
    } else if same_text(prim_type, "short") {
        "i16"
    } else if same_text(prim_type, "byte") {
        "i8"
    } else if same_text(prim_type, "nonNegativeInteger") || same_text(prim_type, "unsignedLong")
        || same_text(prim_type, "positiveInteger") {
        "u64"
    } else if same_text(prim_type, "unsignedInt") {
        "u32"
    } else if same_text(prim_type, "unsignedShort") {
        "u16"
    } else if same_text(prim_type, "unsignedByte") {
        "u8"
    } else {
        "String"
    }
}

/// The Rust type for a type reference.
pub fn map_to_rust_type(xsd_type: &str) -> (rust: String)
    ensures
        rust@ == rust_type(xsd_type@),
{
    if let Some(ty) = strip_marker(xsd_type, "xs:") {
        map_primitive_to_rust_type(ty).to_owned()
    } else if let Some(ty) = strip_marker(xsd_type, "xsd:") {
        map_primitive_to_rust_type(ty).to_owned()
    } else if !xsd_type.is_empty() {
        to_pascal_case(xsd_type)
    } else {
        "String".to_owned()
    }
}

/// How often the value of a field occurs, which decides the wrapper round its type.
#[derive(Debug, Clone, Copy, PartialEq, Eq, Structural)]
pub enum Cardinality {
    /// Exactly once: the bare type.
    Required,
    /// Once or not at all: `Option`.
    Optional,
    /// Any number of times: `Vec`.
    Repeated,
}

/// The type `base` in the wrapper that `how` asks for.
pub open spec fn wrapped_type(how: Cardinality, base: Seq<char>) -> Seq<char> {
    match how {
        Cardinality::Required => base,
        Cardinality::Optional => "Option<"@ + base + ">"@,
        Cardinality::Repeated => "Vec<"@ + base + ">"@,
    }
}

/// `n`, or the bound of `i64` on the side where `n` lies beyond it.
pub open spec fn saturated(n: int) -> i64 {
    if n > i64::MAX {
        i64::MAX
    } else if n < i64::MIN {
        i64::MIN
    } else {
        n as i64
    }
}

/// The `minOccurs` that holds for an element inside a group. Without a
/// `minOccurs` on the group it is the element's own. With one it is the
/// group's where the element has none, else the product of the two, kept within
/// `i64`.
pub open spec fn effective_min(group: Option<i64>, own: Option<i64>) -> Option<i64> {
    match group {
        None => own,
        Some(g) => match own {
            None => Some(g),
            Some(m) => Some(saturated(m * g)),
        },
    }
}

/// The `minOccurs` that holds for an element with `minOccurs` `own` inside a
/// group with `minOccurs` `group`.
pub fn effective_min_occurs(group: Option<i64>, own: Option<i64>) -> (min_occurs: Option<i64>)
    ensures
        min_occurs == effective_min(group, own),
{
    match group {
        None => own,
        Some(g) => match own {
            None => Some(g),
            Some(m) => match m.checked_mul(g) {
                Some(product) => Some(product),
                None => {
                    assert((m > 0) == (g > 0) ==> m * g >= 0 || m == 0 || g == 0)
                        by (nonlinear_arith);
                    assert((m > 0) != (g > 0) ==> m * g <= 0) by (nonlinear_arith);
                    assert(m == 0 || g == 0 ==> m * g == 0) by (nonlinear_arith);
                    if (m > 0) == (g > 0) {
                        Some(i64::MAX)
                    } else {
                        Some(i64::MIN)
                    }
                },
            },
        },
    }
}

/// Inside a group with a `minOccurs` of its own, an element without one takes
/// the group's, and an element with `minOccurs` 0 keeps it. The effective
/// value is 0 only where the group's or the element's own is 0, and it is the
/// exact product wherever that fits into an `i64`.
pub proof fn group_min_occurs_propagates(g: i64, m: i64)
    ensures
        effective_min(Some(g), None) == Some(g),
        effective_min(Some(g), Some(0i64)) == Some(0i64),
        effective_min(Some(g), Some(m)) == Some(0i64) <==> g == 0 || m == 0,
        i64::MIN <= m * g <= i64::MAX ==> effective_min(Some(g), Some(m)) == Some((m * g) as i64),
        effective_min(None, Some(m)) == Some(m),
{
    assert(m * g == 0 <==> g == 0 || m == 0) by (nonlinear_arith);
    assert(0 * g == 0) by (nonlinear_arith);
}

impl XsdElement {
    /// Whether the element's type is written inside it.
    pub open spec fn owns_type(&self) -> bool {
        self.complex_type is Some || self.simple_type is Some
    }

    /// The type of one occurrence of the element: the type that goes by the
    /// element's name where the element owns one, else the type it refers to,
    /// a string where it refers to none.
    pub open spec fn base_type(&self) -> Seq<char> {
        if self.owns_type() {
            pascal_case(self.name@)
        } else {
            match self.data_type {
                Some(t) => rust_type(t@),
                None => "String"@,
            }
        }
    }

    /// How often the element occurs when `min_occurs` is the `minOccurs` that
    /// holds for it. A `maxOccurs` other than `1` makes it repeated, whatever
    /// `min_occurs` is; else a `min_occurs` of 0 makes it optional.
    pub open spec fn cardinality(&self, min_occurs: Option<i64>) -> Cardinality {
        if self.max_occurs matches Some(m) && m@ != "1"@ {
            Cardinality::Repeated
        } else if min_occurs == Some(0i64) {
            Cardinality::Optional
        } else {
            Cardinality::Required
        }
    }

    /// The type of the element's field when `min_occurs` holds for it.
    pub open spec fn field_type(&self, min_occurs: Option<i64>) -> Seq<char> {
        wrapped_type(self.cardinality(min_occurs), self.base_type())
    }

    /// How often the element occurs when `min_occurs` is the `minOccurs` that
    /// holds for it.
    pub fn occurs(&self, min_occurs: Option<i64>) -> (how: Cardinality)
        ensures
            how == self.cardinality(min_occurs),
    {
        let repeated = match &self.max_occurs {
            Some(m) => !same_text(m.as_str(), "1"),
            None => false,
        };
        if repeated {
            Cardinality::Repeated
        } else {
            match min_occurs {
                Some(0) => Cardinality::Optional,
                _ => Cardinality::Required,
            }
        }
    }

    /// The type of the element's field when `min_occurs` is the `minOccurs`
    /// that holds for the element.
    pub fn rs_type_name_within(&self, min_occurs: Option<i64>) -> (rust: String)
        ensures
            rust@ == self.field_type(min_occurs),
    {
        let base_name = if self.complex_type.is_some() || self.simple_type.is_some() {
            to_pascal_case(self.name.as_str())
        } else {
            match &self.data_type {
                Some(t) => map_to_rust_type(t.as_str()),
                None => "String".to_owned(),
            }
        };
        wrap_type(self.occurs(min_occurs), base_name)
    }

    /// The type of the element's field, by the element's own `minOccurs`.
    pub fn rs_type_name(&self) -> (rust: String)
        ensures
            rust@ == self.field_type(self.min_occurs),
    {
        self.rs_type_name_within(self.min_occurs)
    }
}

/// The name under which an attribute's own type is generated: the owner's
/// name, `_`, and the attribute's name.
pub open spec fn owned_name(owner: Seq<char>, name: Seq<char>) -> Seq<char> {
    owner + "_"@ + name
}

impl XsdAttribute {
    /// Whether the attribute's type is written inside it.
    pub open spec fn owns_type(&self) -> bool {
        self.complex_type is Some || self.simple_type is Some
    }

    /// The type of the attribute's value inside the type `owner`: the type
    /// generated under the owner's and the attribute's name where the
    /// attribute owns one, else the type it refers to, a string where it
    /// refers to none.
    pub open spec fn base_type(&self, owner: Seq<char>) -> Seq<char> {
        if self.owns_type() {
            pascal_case(owned_name(owner, self.name@))
        } else {
            match self.data_type {
                Some(t) => rust_type(t@),
                None => "String"@,
            }
        }
    }

    /// How often the attribute occurs: once where it is required, once or not
    /// at all where it is optional. A prohibited attribute does not occur and
    /// has no field, which is `None`.
    pub open spec fn cardinality(&self) -> Option<Cardinality> {
        match self.use_ {
            XsdUse::Prohibited => None,
            XsdUse::Required => Some(Cardinality::Required),
            XsdUse::Optional => Some(Cardinality::Optional),
        }
    }

    /// The type of the attribute's field inside the type `owner`. For a
    /// prohibited attribute, which has no field, it is the type of the value.
    pub open spec fn field_type(&self, owner: Seq<char>) -> Seq<char> {
        match self.cardinality() {
            Some(how) => wrapped_type(how, self.base_type(owner)),
            None => self.base_type(owner),
        }
    }

    /// How often the attribute occurs; `None` for a prohibited one.
    pub fn occurs(&self) -> (how: Option<Cardinality>)
        ensures
            how == self.cardinality(),
    {
        match self.use_ {
            XsdUse::Prohibited => None,
            XsdUse::Required => Some(Cardinality::Required),
            XsdUse::Optional => Some(Cardinality::Optional),
        }
    }

    /// The type of the attribute's field inside the type `prefix`.
    pub fn rs_type_name(&self, prefix: &str) -> (rust: String)
        ensures
            rust@ == self.field_type(prefix@),
    {
        let base_name = if self.complex_type.is_some() || self.simple_type.is_some() {
            to_pascal_case(join_owned_name(prefix, self.name.as_str()).as_str())
        } else {
            match &self.data_type {
                Some(t) => map_to_rust_type(t.as_str()),
                None => "String".to_owned(),
            }
        };
        match self.occurs() {
            Some(how) => wrap_type(how, base_name),
            None => base_name,
        }
    }
}

/// The owner's name, `_`, and the attribute's name, as one string.
pub(crate) fn join_owned_name(owner: &str, name: &str) -> (joined: String)
    ensures
        joined@ == owned_name(owner@, name@),
{
    let mut joined = owner.to_owned();
    joined.append("_");
    joined.append(name);
    joined
}

fn wrap_type(how: Cardinality, base: String) -> (rust: String)
    ensures
        rust@ == wrapped_type(how, base@),
{
    match how {
        Cardinality::Required => base,
        Cardinality::Optional => {
            let mut rust = "Option<".to_owned();
            rust.append(base.as_str());
            rust.append(">");
            rust
        },
        Cardinality::Repeated => {
            let mut rust = "Vec<".to_owned();
            rust.append(base.as_str());
            rust.append(">");
            rust
        },
    }
}

/// An element whose `maxOccurs` is `unbounded` is repeated, whatever its
/// `minOccurs` and that of its group: its field is a `Vec` of the element's
/// type.
pub proof fn unbounded_is_repeated(element: XsdElement, min_occurs: Option<i64>)
    requires
        element.max_occurs matches Some(m) && m@ == "unbounded"@,
    ensures
        element.cardinality(min_occurs) == Cardinality::Repeated,
        element.field_type(min_occurs) == "Vec<"@ + element.base_type() + ">"@,
{
    reveal_strlit("unbounded");
    reveal_strlit("1");
    assert("unbounded"@.len() != "1"@.len());
}

/// Every character of the re-cased words is an ASCII letter or digit.
proof fn lemma_capitalized_words_are_alnum(s: Seq<char>)
    ensures
        forall|i: int|
            0 <= i < capitalized_words(s).len() ==> is_ascii_alnum(
                #[trigger] capitalized_words(s)[i],
            ),
    decreases s.len(),
{
    if s.len() > 0 {
        let head = s.drop_last();
        let c = s.last();
        lemma_capitalized_words_are_alnum(head);
        assert forall|i: int| 0 <= i < capitalized_words(s).len() implies is_ascii_alnum(
            #[trigger] capitalized_words(s)[i],
        ) by {
            if i < capitalized_words(head).len() {
                assert(capitalized_words(s)[i] == capitalized_words(head)[i]);
            } else {
                assert(is_ascii_alnum(c));
                assert(is_ascii_alnum(ascii_upper(c)));
                assert(is_ascii_alnum(ascii_lower(c)));
            }
        }
    }
}

/// A run of letters and digits is one word: nothing is dropped, the first
/// character is made a capital and every other one small.
proof fn lemma_capitalized_single_word(s: Seq<char>)
    requires
        forall|i: int| 0 <= i < s.len() ==> is_ascii_alnum(#[trigger] s[i]),
    ensures
        opens_word(s) == (s.len() == 0),
        capitalized_words(s).len() == s.len(),
        forall|i: int|
            0 <= i < s.len() ==> #[trigger] capitalized_words(s)[i] == (if i == 0 {
                ascii_upper(s[i])
            } else {
                ascii_lower(s[i])
            }),
    decreases s.len(),
{
    if s.len() > 0 {
        let head = s.drop_last();
        assert forall|i: int| 0 <= i < head.len() implies is_ascii_alnum(#[trigger] head[i]) by {
            assert(head[i] == s[i]);
        }
        lemma_capitalized_single_word(head);
        assert(is_ascii_alnum(s[s.len() - 1]));
        assert forall|i: int| 0 <= i < s.len() implies #[trigger] capitalized_words(s)[i] == (if i
            == 0 {
            ascii_upper(s[i])
        } else {
            ascii_lower(s[i])
        }) by {
            if i < head.len() {
                assert(capitalized_words(s)[i] == capitalized_words(head)[i]);
                assert(head[i] == s[i]);
            }
        }
    }
}

/// A type identifier is a fixed point of the mapping: mapped again it comes
/// back as it is. So the re-casing has been carried on until nothing changes.
pub proof fn pascal_case_is_stable(s: Seq<char>)
    ensures
        pascal_case(pascal_case(s)) == pascal_case(s),
{
    if wants_recasing(s) {
        let once = capitalized_words(s);
        lemma_capitalized_words_are_alnum(s);
        if wants_recasing(once) {
            let twice = capitalized_words(once);
            lemma_capitalized_words_are_alnum(once);
            lemma_capitalized_single_word(once);
            if wants_recasing(twice) {
                assert(!twice.contains('_')) by {
                    if twice.contains('_') {
                        let j = choose|j: int| 0 <= j < twice.len() && twice[j] == '_';
                        assert(is_ascii_alnum(twice[j]));
                    }
                }
                assert(!twice.contains('-')) by {
                    if twice.contains('-') {
                        let j = choose|j: int| 0 <= j < twice.len() && twice[j] == '-';
                        assert(is_ascii_alnum(twice[j]));
                    }
                }
                assert(!once.contains('_')) by {
                    if once.contains('_') {
                        let j = choose|j: int| 0 <= j < once.len() && once[j] == '_';
                        assert(is_ascii_alnum(once[j]));
                    }
                }
                assert(!once.contains('-')) by {
                    if once.contains('-') {
                        let j = choose|j: int| 0 <= j < once.len() && once[j] == '-';
                        assert(is_ascii_alnum(once[j]));
                    }
                }
                assert forall|i: int| 0 <= i < once.len() implies twice[i] == once[i] by {
                    assert(is_ascii_alnum(once[i]));
                    assert(!is_letter(once[i]) || is_ascii_upper(once[i]));
                    assert(is_ascii_alnum(twice[i]));
                    assert(!is_letter(twice[i]) || is_ascii_upper(twice[i]));
                }
                assert(twice =~= once);
            }
        }
    }
}

} // verus!
