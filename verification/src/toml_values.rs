//! Trusted boundary to the TOML parser. Each wrapper reads one field of a
//! configuration document straight from its text, and what it returns is
//! named by an uninterpreted spec function: a TOML document is a function
//! of its text alone, so the same text always holds the same fields, and
//! the verified parsers carry exact contracts over these names.

use vstd::prelude::*;

verus! {

/// The text parses as a TOML document.
pub uninterp spec fn toml_wf(text: Seq<char>) -> bool;

/// What the document's `section.key` holds when read as a string:
/// `Some(Some(s))` for the string `s`, `Some(None)` when the section or
/// the key is absent, `None` when the key is present but does not hold a
/// string. Meaningful only for well-formed text.
pub uninterp spec fn toml_str_field_of(
    text: Seq<char>,
    section: Seq<char>,
    key: Seq<char>,
) -> Option<Option<Seq<char>>>;

/// What the document's `section.key` holds when read as a list of
/// strings, in the same shape as `toml_str_field_of`; `None` also covers a
/// list with a non-string element.
pub uninterp spec fn toml_list_field_of(
    text: Seq<char>,
    section: Seq<char>,
    key: Seq<char>,
) -> Option<Option<Seq<Seq<char>>>>;

/// Relies on `<toml::Table as FromStr>::from_str`, the TOML document
/// parser: it accepts exactly the well-formed documents.
#[verifier::external_body]
pub(crate) fn toml_well_formed(text: &str) -> (r: bool)
    ensures
        r == toml_wf(text@),
{
    text.parse::<toml::Table>().is_ok()
}

/// Relies on `<toml::Table as FromStr>::from_str`, `toml::Table::get`,
/// `toml::Value::get` with a string index, and `toml::Value::as_str`:
/// reads the string field at `section.key` of the document.
#[verifier::external_body]
pub(crate) fn read_str_field(text: &str, section: &str, key: &str) -> (r: Result<
    Option<String>,
    (),
>)
    ensures
        toml_wf(text@) ==> match toml_str_field_of(text@, section@, key@) {
            Some(Some(s)) => r matches Ok(Some(v)) && v@ == s,
            Some(None) => r == Ok::<Option<String>, ()>(None),
            None => r is Err,
        },
{
    let doc = match text.parse::<toml::Table>() { Ok(d) => d, Err(_) => return Err(()) };
    let sec = match doc.get(section) { Some(s) => s, None => return Ok(None) };
    let val = match sec.get(key) { Some(v) => v, None => return Ok(None) };
    match val.as_str() { Some(s) => Ok(Some(s.to_owned())), None => Err(()) }
}

/// Relies on `<toml::Table as FromStr>::from_str`, `toml::Table::get`,
/// `toml::Value::get` with a string index, `toml::Value::as_array` and
/// `toml::Value::as_str`: reads the string-list field at `section.key` of
/// the document, each element carried over as a plain string.
#[verifier::external_body]
pub(crate) fn read_list_field(text: &str, section: &str, key: &str) -> (r: Result<
    Option<Vec<String>>,
    (),
>)
    ensures
        toml_wf(text@) ==> match toml_list_field_of(text@, section@, key@) {
            Some(Some(items)) => r matches Ok(Some(v)) && v.deep_view() == items,
            Some(None) => r == Ok::<Option<Vec<String>>, ()>(None),
            None => r is Err,
        },
{
    let doc = match text.parse::<toml::Table>() { Ok(d) => d, Err(_) => return Err(()) };
    let sec = match doc.get(section) { Some(s) => s, None => return Ok(None) };
    let val = match sec.get(key) { Some(v) => v, None => return Ok(None) };
    let arr = match val.as_array() { Some(a) => a, None => return Err(()) };
    let mut out: Vec<String> = Vec::new();
    for v in arr {
        match v.as_str() { Some(s) => out.push(s.to_owned()), None => return Err(()) }
    }
    Ok(Some(out))
}

} // verus!
