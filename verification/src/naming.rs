//! Names that the generator derives from the identifiers of a record.

use vstd::prelude::*;
use vstd::string::*;

verus! {

/// The Pascal-case form of an identifier, as `convert_case` computes it.
pub uninterp spec fn pascal_case(name: Seq<char>) -> Seq<char>;

/// Whether a character beyond ASCII has the Unicode property XID_Start.
pub uninterp spec fn wide_xid_start(c: char) -> bool;

/// Whether a character beyond ASCII has the Unicode property XID_Continue.
pub uninterp spec fn wide_xid_continue(c: char) -> bool;

/// An ASCII letter.
pub open spec fn ascii_letter(c: char) -> bool {
    ('a' <= c && c <= 'z') || ('A' <= c && c <= 'Z')
}

/// An ASCII digit.
pub open spec fn ascii_digit(c: char) -> bool {
    '0' <= c && c <= '9'
}

/// Whether a character has the Unicode property XID_Start. Of the ASCII
/// characters the letters have it.
pub open spec fn xid_start(c: char) -> bool {
    if c <= '\x7f' {
        ascii_letter(c)
    } else {
        wide_xid_start(c)
    }
}

/// Whether a character has the Unicode property XID_Continue. Of the ASCII
/// characters the letters, the digits and `_` have it.
pub open spec fn xid_continue(c: char) -> bool {
    if c <= '\x7f' {
        ascii_letter(c) || ascii_digit(c) || c == '_'
    } else {
        wide_xid_continue(c)
    }
}

/// `unicode_ident::is_xid_start` decides an ASCII character by a mask that
/// holds the letters, and any other character by a fixed table: the result
/// depends on the character alone.
pub assume_specification[ unicode_ident::is_xid_start ](ch: char) -> (b: bool)
    ensures
        b == if ch <= '\x7f' {
            ascii_letter(ch)
        } else {
            wide_xid_start(ch)
        },
;

/// `unicode_ident::is_xid_continue` decides an ASCII character by a mask that
/// holds the letters, the digits and `_`, and any other character by a fixed
/// table: the result depends on the character alone.
pub assume_specification[ unicode_ident::is_xid_continue ](ch: char) -> (b: bool)
    ensures
        b == if ch <= '\x7f' {
            ascii_letter(ch) || ascii_digit(ch) || ch == '_'
        } else {
            wide_xid_continue(ch)
        },
;

/// Calls `convert_case::Casing::to_case` with `Case::Pascal`. The conversion
/// cuts the text into words and capitalises each: a function of the text
/// alone, defined for every text.
#[verifier::external_body]
fn to_pascal_case(name: &str) -> (out: String)
    ensures
        out@ == pascal_case(name@),
{
    convert_case::Casing::to_case(&name, convert_case::Case::Pascal)
}

/// The name of the type parameter that stands for a required field: the
/// field's name without the mark of a raw identifier, in Pascal case, and
/// `Type`.
pub open spec fn field_type_name(ident: Seq<char>) -> Seq<char> {
    pascal_case(plain_name(ident)) + "Type"@
}

/// The names of the type parameters of a list of required fields.
pub open spec fn field_type_names(idents: Seq<Seq<char>>) -> Seq<Seq<char>> {
    Seq::new(idents.len(), |i: int| field_type_name(idents[i]))
}

/// Makes a name in Pascal case the name of a type parameter.
pub fn with_type_suffix(pascal: String) -> (out: String)
    ensures
        out@ == pascal@ + "Type"@,
{
    let mut name = pascal;
    name.append("Type");
    name
}

/// The name of the type parameter of the required field `ident`.
pub fn create_field_type(ident: &str) -> (out: String)
    ensures
        out@ == field_type_name(ident@),
{
    let plain = strip_raw(ident);
    with_type_suffix(to_pascal_case(plain.as_str()))
}

/// An identifier without the `r#` that marks it as raw.
pub open spec fn plain_name(ident: Seq<char>) -> Seq<char> {
    if ident.len() >= 2 && ident[0] == 'r' && ident[1] == '#' {
        ident.skip(2)
    } else {
        ident
    }
}

/// The identifier without a leading `r#`.
pub fn strip_raw(ident: &str) -> (out: String)
    ensures
        out@ == plain_name(ident@),
{
    let n: usize = ident.unicode_len();
    if n >= 2 && ident.get_char(0) == 'r' && ident.get_char(1) == '#' {
        let rest = ident.substring_char(2, n);
        assert(ident@.subrange(2, n as int) == ident@.skip(2));
        rest.to_owned()
    } else {
        ident.to_owned()
    }
}

/// The name of the builder type of a record.
pub open spec fn builder_type_name(record: Seq<char>) -> Seq<char> {
    plain_name(record) + "Builder"@
}

/// The name of the alias for the builder in which nothing is set yet.
pub open spec fn default_builder_type_name(record: Seq<char>) -> Seq<char> {
    "Default"@ + plain_name(record) + "Builder"@
}

/// The name of the type that marks a position of the builder's type as
/// unset. The generator declares it beside the builder. It ends otherwise
/// than the name of any type parameter.
pub open spec fn unset_type_name(record: Seq<char>) -> Seq<char> {
    plain_name(record) + "BuilderUnset"@
}

/// The name of the marker of an unset position for the record.
pub fn unset_name(record: &str) -> (out: String)
    ensures
        out@ == unset_type_name(record@),
{
    let mut name = strip_raw(record);
    name.append("BuilderUnset");
    name
}

/// The name of the builder type of the record.
pub fn builder_name(record: &str) -> (out: String)
    ensures
        out@ == builder_type_name(record@),
{
    let mut name = strip_raw(record);
    name.append("Builder");
    name
}

/// The name of the alias of the unset builder type of the record.
pub fn default_builder_name(record: &str) -> (out: String)
    ensures
        out@ == default_builder_type_name(record@),
{
    let mut name = "Default".to_owned();
    let plain = strip_raw(record);
    name.append(plain.as_str());
    name.append("Builder");
    name
}

/// A non-empty text that starts with `_` or an XID_Start character and goes
/// on with XID_Continue characters.
pub open spec fn is_plain_identifier(s: Seq<char>) -> bool {
    &&& s.len() > 0
    &&& (s[0] == '_' || xid_start(s[0]))
    &&& forall|i: int| 1 <= i < s.len() ==> xid_continue(#[trigger] s[i])
}

/// The words that cannot be written as raw identifiers.
pub open spec fn never_raw(s: Seq<char>) -> bool {
    s == "_"@ || s == "super"@ || s == "self"@ || s == "Self"@ || s == "crate"@
}

/// What can name a method: a plain identifier, or `r#` before one that may be
/// raw.
pub open spec fn is_identifier(s: Seq<char>) -> bool {
    if s.len() >= 2 && s[0] == 'r' && s[1] == '#' {
        is_plain_identifier(s.skip(2)) && !never_raw(s.skip(2))
    } else {
        is_plain_identifier(s)
    }
}

/// Whether the text is an identifier that is not raw.
pub fn check_plain_identifier(s: &str) -> (ok: bool)
    ensures
        ok == is_plain_identifier(s@),
{
    let n: usize = s.unicode_len();
    if n == 0 {
        return false;
    }
    let first = s.get_char(0);
    if !(first == '_' || unicode_ident::is_xid_start(first)) {
        return false;
    }
    let mut i: usize = 1;
    while i < n
        invariant
            1 <= i <= n,
            n == s@.len(),
            forall|j: int| 1 <= j < i ==> xid_continue(#[trigger] s@[j]),
        decreases n - i,
    {
        if !unicode_ident::is_xid_continue(s.get_char(i)) {
            return false;
        }
        i += 1;
    }
    true
}

/// Whether the text can name a method.
pub fn check_identifier(s: &str) -> (ok: bool)
    ensures
        ok == is_identifier(s@),
{
    let n: usize = s.unicode_len();
    if n >= 2 && s.get_char(0) == 'r' && s.get_char(1) == '#' {
        let rest = s.substring_char(2, n);
        assert(s@.subrange(2, n as int) == s@.skip(2));
        let word = rest.to_owned();
        let reserved = word == "_".to_owned() || word == "super".to_owned() || word
            == "self".to_owned() || word == "Self".to_owned() || word == "crate".to_owned();
        check_plain_identifier(rest) && !reserved
    } else {
        check_plain_identifier(s)
    }
}

} // verus!
