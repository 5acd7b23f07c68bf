//! The option that renames the entry point: `#[builder(method_name = "...")]`.

use vstd::prelude::*;
use vstd::string::*;
use crate::error::GenerateError;
use crate::naming::{check_identifier, is_identifier};
use crate::views::text_of;

verus! {

/// A token inside the parentheses of an attribute.
#[derive(Debug, Clone, PartialEq, Eq)]
pub enum Token {
    Ident(String),
    Punct(char),
    /// A string literal, by the value it denotes.
    Str(String),
    /// Any other literal.
    Literal,
    /// A nested group; nothing inside it is read.
    Group,
}

/// An attribute of the record.
#[derive(Debug, Clone, PartialEq, Eq)]
pub struct Attribute {
    /// The tokens of the group that follows the attribute's path, or `None`
    /// where no group follows it.
    pub arguments: Option<Vec<Token>>,
}

/// Whether a character other than the space, the line feed and the no-break
/// space has the Unicode property White_Space.
pub uninterp spec fn other_white_space(c: char) -> bool;

/// Whether a character has the Unicode property White_Space. The space, the
/// line feed and the no-break space have it.
pub open spec fn white_space(c: char) -> bool {
    c == ' ' || c == '\n' || c == '\u{a0}' || other_white_space(c)
}

/// `char::is_whitespace` tells whether the character has the property
/// White_Space. Its documentation shows the space, the line feed and the
/// no-break space as characters that have it, and gives no list of the
/// others.
#[verifier::external_body]
fn is_white_space(c: char) -> (b: bool)
    ensures
        b == (c == ' ' || c == '\n' || c == '\u{a0}' || other_white_space(c)),
{
    c.is_whitespace()
}

/// A text of nothing but white space; the empty text is one.
pub open spec fn blank(s: Seq<char>) -> bool {
    forall|i: int| 0 <= i < s.len() ==> white_space(#[trigger] s[i])
}

/// Whether the attribute's arguments begin with `name =`.
pub open spec fn assigns(attr: Attribute, name: Seq<char>) -> bool {
    match attr.arguments {
        Some(tokens) => {
            &&& tokens@.len() >= 2
            &&& tokens@[0] matches Token::Ident(ident)
            &&& ident@ == name
            &&& tokens@[1] == Token::Punct('=')
        },
        None => false,
    }
}

/// The string that the attribute assigns to `name`. Nothing where its
/// arguments do not begin with `name =`. Where they do, a string literal that
/// is not blank must follow, and its value is what is assigned.
pub open spec fn assigned_string(attr: Attribute, name: Seq<char>) -> Result<
    Option<Seq<char>>,
    GenerateError,
> {
    if !assigns(attr, name) {
        Ok(None)
    } else {
        let tokens = attr.arguments->Some_0;
        if tokens@.len() >= 3 && tokens@[2] is Str && !blank(tokens@[2]->Str_0@) {
            Ok(Some(tokens@[2]->Str_0@))
        } else {
            Err(GenerateError::MalformedOption)
        }
    }
}

/// What the first attribute that assigns to `name` assigns.
pub open spec fn first_assigned(attrs: Seq<Attribute>, name: Seq<char>) -> Result<
    Option<Seq<char>>,
    GenerateError,
>
    decreases attrs.len(),
{
    if attrs.len() == 0 {
        Ok(None)
    } else if assigns(attrs[0], name) {
        assigned_string(attrs[0], name)
    } else {
        first_assigned(attrs.drop_first(), name)
    }
}

/// The name of the entry point: the one asked for, which must be an
/// identifier, or `builder`.
pub open spec fn resolved_method_name(found: Option<Seq<char>>) -> Result<
    Seq<char>,
    GenerateError,
> {
    match found {
        Some(name) => if is_identifier(name) {
            Ok(name)
        } else {
            Err(GenerateError::MalformedOption)
        },
        None => Ok("builder"@),
    }
}

/// The name of the entry point that a list of attributes asks for.
pub open spec fn method_name_of(attrs: Seq<Attribute>) -> Result<Seq<char>, GenerateError> {
    match first_assigned(attrs, "method_name"@) {
        Ok(found) => resolved_method_name(found),
        Err(e) => Err(e),
    }
}

/// Whether the text is blank.
pub fn is_blank(s: &str) -> (b: bool)
    ensures
        b == blank(s@),
{
    let n: usize = s.unicode_len();
    let mut i: usize = 0;
    while i < n
        invariant
            i <= n,
            n == s@.len(),
            forall|j: int| 0 <= j < i ==> white_space(#[trigger] s@[j]),
        decreases n - i,
    {
        if !is_white_space(s.get_char(i)) {
            return false;
        }
        i += 1;
    }
    true
}

/// The string that the attribute assigns to `name`: `Ok(None)` where it
/// assigns nothing to `name`, and `MalformedOption` where what it assigns is
/// not a string literal or is blank.
pub fn find_eq_string_from(attr: &Attribute, name: &str) -> (out: Result<
    Option<String>,
    GenerateError,
>)
    ensures
        match out {
            Ok(Some(value)) => assigned_string(*attr, name@) == Ok::<
                Option<Seq<char>>,
                GenerateError,
            >(Some(value@)) && !blank(value@),
            Ok(None) => assigned_string(*attr, name@) == Ok::<Option<Seq<char>>, GenerateError>(
                None,
            ) && !assigns(*attr, name@),
            Err(e) => assigned_string(*attr, name@) == Err::<Option<Seq<char>>, GenerateError>(e)
                && e == GenerateError::MalformedOption && assigns(*attr, name@),
        },
{
    let tokens = match &attr.arguments {
        Some(tokens) => tokens,
        None => { return Ok(None); },
    };
    if tokens.len() < 2 {
        return Ok(None);
    }
    match &tokens[0] {
        Token::Ident(ident) => {
            if *ident != name.to_owned() {
                return Ok(None);
            }
        },
        _ => { return Ok(None); },
    }
    match &tokens[1] {
        Token::Punct(punct) => {
            if *punct != '=' {
                return Ok(None);
            }
        },
        _ => { return Ok(None); },
    }
    if tokens.len() < 3 {
        return Err(GenerateError::MalformedOption);
    }
    match &tokens[2] {
        Token::Str(value) => {
            if is_blank(value.as_str()) {
                Err(GenerateError::MalformedOption)
            } else {
                Ok(Some(value.clone()))
            }
        },
        _ => Err(GenerateError::MalformedOption),
    }
}

/// The name that the attributes ask for the entry point: what the first of
/// them that assigns to `method_name` assigns.
pub fn find_method_name(attrs: &Vec<Attribute>) -> (out: Result<Option<String>, GenerateError>)
    ensures
        match out {
            Ok(found) => first_assigned(attrs@, "method_name"@) == Ok::<
                Option<Seq<char>>,
                GenerateError,
            >(text_of(found)),
            Err(e) => first_assigned(attrs@, "method_name"@) == Err::<
                Option<Seq<char>>,
                GenerateError,
            >(e),
        },
{
    let mut i: usize = 0;
    assert(attrs@.skip(0) =~= attrs@);
    while i < attrs.len()
        invariant
            i <= attrs.len(),
            first_assigned(attrs@, "method_name"@) == first_assigned(
                attrs@.skip(i as int),
                "method_name"@,
            ),
        decreases attrs.len() - i,
    {
        assert(attrs@.skip(i as int).drop_first() =~= attrs@.skip(i + 1));
        match find_eq_string_from(&attrs[i], "method_name") {
            Ok(None) => {},
            Ok(Some(value)) => { return Ok(Some(value)); },
            Err(e) => { return Err(e); },
        }
        i += 1;
    }
    Ok(None)
}

/// Decides the entry point's name from what the attributes assign.
pub fn resolve_method_name(found: Option<String>) -> (out: Result<String, GenerateError>)
    ensures
        match out {
            Ok(name) => resolved_method_name(text_of(found)) == Ok::<Seq<char>, GenerateError>(
                name@,
            ),
            Err(e) => resolved_method_name(text_of(found)) == Err::<Seq<char>, GenerateError>(e),
        },
{
    match found {
        Some(name) => {
            if check_identifier(name.as_str()) {
                Ok(name)
            } else {
                Err(GenerateError::MalformedOption)
            }
        },
        None => Ok("builder".to_owned()),
    }
}

} // verus!
