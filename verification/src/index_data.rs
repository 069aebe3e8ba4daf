//! The parsed shape of an `index.theme` file: a list of named sections with
//! their key-value pairs, obtained through the `ini` parser.

use vstd::prelude::*;
use crate::icon_dir::props_view;

verus! {

/// One section of an index file: its name (`None` for the leading unnamed
/// section) and its key-value pairs in file order.
#[derive(Clone, Debug, PartialEq, Eq)]
pub struct IniSection {
    pub name: Option<String>,
    pub props: Vec<(String, String)>,
}

/// The view of one section.
pub open spec fn section_view(s: IniSection) -> (Option<Seq<char>>, Seq<(Seq<char>, Seq<char>)>) {
    (
        match s.name {
            Some(n) => Some(n@),
            None => None,
        },
        props_view(s.props@),
    )
}

/// The views of a list of sections.
pub open spec fn sections_view(v: Seq<IniSection>) -> Seq<
    (Option<Seq<char>>, Seq<(Seq<char>, Seq<char>)>),
> {
    Seq::new(v.len(), |i: int| section_view(v[i]))
}

/// The sections that the `ini` parser reads out of a text, or `None` where
/// it rejects the text. The result depends on the text alone.
pub uninterp spec fn ini_sections(content: Seq<char>) -> Option<
    Seq<(Option<Seq<char>>, Seq<(Seq<char>, Seq<char>)>)>,
>;

/// Relies on `ini::Ini::load_from_str`: parses an INI text into its sections
/// in file order, each section holding its key-value pairs in file order;
/// the result is a function of the text alone.
#[verifier::external_body]
pub fn parse_index_content(content: &str) -> (r: Option<Vec<IniSection>>)
    ensures
        match r {
            Some(v) => ini_sections(content@) == Some(sections_view(v@)),
            None => ini_sections(content@) is None,
        },
{
    match ini::Ini::load_from_str(content) {
        Ok(file) => Some(
            file.iter().map(
                |sec: (Option<&str>, &ini::Properties)| IniSection {
                    name: sec.0.map(|n| n.to_owned()),
                    props: sec.1.iter().map(|(k, v)| (k.to_owned(), v.to_owned())).collect(),
                },
            ).collect(),
        ),
        Err(_) => None,
    }
}

} // verus!
