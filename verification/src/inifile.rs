//! The INI documents of the `ini` crate, as the launcher reads and writes them.
//!
//! An [`Ini`] is opaque to verification; what it holds is named by
//! [`ini_sections`]: its sections in the order `Ini::iter` yields them, each
//! with its name (`None` for the general section) and its key/value pairs in the
//! order `Properties::iter` yields them. Duplicate section names and duplicate
//! keys are kept as the crate keeps them.
use vstd::prelude::*;

use ini::Ini;
use ini::ParseError;

verus! {

#[verifier::external_type_specification]
#[verifier::external_body]
pub struct ExIni(Ini);

#[verifier::external_type_specification]
#[verifier::external_body]
pub struct ExParseError(ParseError);

/// The key/value pairs of one section.
pub type IniProperties = Seq<(Seq<char>, Seq<char>)>;

/// The sections of a document.
pub type IniSections = Seq<(Option<Seq<char>>, Seq<(Seq<char>, Seq<char>)>)>;

/// What an [`Ini`] holds: its sections and their pairs, in iteration order.
pub uninterp spec fn ini_sections(ini: Ini) -> Seq<(Option<Seq<char>>, Seq<(Seq<char>, Seq<char>)>)>;

/// What `Ini::load_from_str` makes of a text: `None` where it reports a parse
/// error, else the sections of the document it returns.
pub uninterp spec fn ini_parse(text: Seq<char>) -> Option<Seq<(Option<Seq<char>>, Seq<(Seq<char>, Seq<char>)>)>>;

/// The text that `Ini::write_to` writes for a document with these sections.
pub uninterp spec fn ini_render(sections: Seq<(Option<Seq<char>>, Seq<(Seq<char>, Seq<char>)>)>) -> Seq<char>;

/// The characters of an optional string slice.
pub open spec fn opt_str_view(s: Option<&str>) -> Option<Seq<char>> {
    match s {
        Some(t) => Some(t@),
        None => None,
    }
}

/// The pairs of the first section named `name`, if there is one.
pub open spec fn section_props(secs: IniSections, name: Option<Seq<char>>) -> Option<IniProperties>
    decreases secs.len(),
{
    if secs.len() == 0 {
        None
    } else if secs[0].0 == name {
        Some(secs[0].1)
    } else {
        section_props(secs.drop_first(), name)
    }
}

/// The value of the first pair with key `key`, if there is one.
pub open spec fn prop_value(props: IniProperties, key: Seq<char>) -> Option<Seq<char>>
    decreases props.len(),
{
    if props.len() == 0 {
        None
    } else if props[0].0 == key {
        Some(props[0].1)
    } else {
        prop_value(props.drop_first(), key)
    }
}

/// The value of `key` in the first section named `name`, as `Ini::get_from` finds it.
pub open spec fn value_in(secs: IniSections, name: Option<Seq<char>>, key: Seq<char>) -> Option<
    Seq<char>,
> {
    match section_props(secs, name) {
        Some(props) => prop_value(props, key),
        None => None,
    }
}

/// The index of the first section named `name`, if there is one.
pub open spec fn section_index(secs: IniSections, name: Option<Seq<char>>) -> Option<int>
    decreases secs.len(),
{
    if secs.len() == 0 {
        None
    } else if secs[0].0 == name {
        Some(0)
    } else {
        match section_index(secs.drop_first(), name) {
            Some(i) => Some(i + 1),
            None => None,
        }
    }
}

/// A section's pairs after setting `key` to `value`: the pairs with that key leave
/// and the new pair comes last.
pub open spec fn props_set(props: IniProperties, key: Seq<char>, value: Seq<char>) -> IniProperties {
    props.filter(other_key(key)).push((key, value))
}

/// Whether a pair has a key other than `key`.
pub open spec fn other_key(key: Seq<char>) -> spec_fn((Seq<char>, Seq<char>)) -> bool {
    |p: (Seq<char>, Seq<char>)| p.0 != key
}

/// The sections after setting `key` to `value` in the section named `name`: the
/// first section of that name changes, or a new one with that one pair comes last.
pub open spec fn sections_set(
    secs: IniSections,
    name: Option<Seq<char>>,
    key: Seq<char>,
    value: Seq<char>,
) -> IniSections {
    match section_index(secs, name) {
        Some(i) => secs.update(i, (name, props_set(secs[i].1, key, value))),
        None => secs.push((name, seq![(key, value)])),
    }
}

/// The string pairs as characters.
pub open spec fn pairs_view(v: Seq<(String, String)>) -> IniProperties {
    v.map_values(|p: (String, String)| (p.0@, p.1@))
}

/// Calls `Ini::load_from_str`. Its result is the named [`ini_parse`] of the text:
/// an error exactly where `ini_parse` gives `None`, else a document holding the
/// sections that `ini_parse` gives.
#[verifier::external_body]
pub fn load_ini(text: &str) -> (res: Result<Ini, ParseError>)
    ensures
        match res {
            Ok(doc) => ini_parse(text@) == Some(ini_sections(doc)),
            Err(_) => ini_parse(text@) is None,
        },
{
    Ini::load_from_str(text)
}

/// Calls `Ini::get_from`, which returns the first value of `key` in the first
/// section named `section` (the crate keeps a section's values in a list ordered
/// multimap, whose `get` gives the first inserted value).
#[verifier::external_body]
pub fn ini_get(doc: &Ini, section: Option<&str>, key: &str) -> (res: Option<String>)
    ensures
        crate::applications::opt_view(res) == value_in(ini_sections(*doc), opt_str_view(section), key@),
{
    doc.get_from(section, key).map(String::from)
}

/// Calls `Ini::section` and copies out the pairs of the first section named
/// `section`, in the order `Properties::iter` yields them.
#[verifier::external_body]
pub fn ini_section(doc: &Ini, section: Option<&str>) -> (res: Option<Vec<(String, String)>>)
    ensures
        match res {
            Some(v) => section_props(ini_sections(*doc), opt_str_view(section)) == Some(pairs_view(v@)),
            None => section_props(ini_sections(*doc), opt_str_view(section)) is None,
        },
{
    doc.section(section).map(|p| p.iter().map(|(k, v)| (String::from(k), String::from(v))).collect())
}

/// Calls `Ini::new`, which makes a document with an empty general section.
#[verifier::external_body]
pub fn ini_new() -> (doc: Ini)
    ensures
        ini_sections(doc) == seq![(None::<Seq<char>>, Seq::<(Seq<char>, Seq<char>)>::empty())],
{
    Ini::new()
}

/// Calls `SectionSetter::set` on `Ini::with_section`: in the first section named
/// `section` (made, last, where there is none) the pairs with `key` are removed
/// and the new pair is appended.
#[verifier::external_body]
pub fn ini_set(doc: &mut Ini, section: Option<&str>, key: &str, value: &str)
    ensures
        ini_sections(*final(doc)) == sections_set(
            ini_sections(*old(doc)),
            opt_str_view(section),
            key@,
            value@,
        ),
{
    doc.with_section(section).set(key, value);
}

/// Calls `Ini::write_to` with an in-memory buffer. The text is the named
/// [`ini_render`] of the document's sections. `write_to` writes only through
/// `write_all` and `write!`, which cannot fail on a `Vec<u8>`, and every byte it
/// writes comes from `str` values, so the buffer is always UTF-8.
#[verifier::external_body]
pub fn ini_render_text(doc: &Ini) -> (res: String)
    ensures
        res@ == ini_render(ini_sections(*doc)),
{
    let mut buf: Vec<u8> = Vec::new();
    doc.write_to(&mut buf).expect("writing to memory does not fail");
    String::from_utf8(buf).expect("the document is written from strings")
}

} // verus!
