//! The optional metadata of a run: a JSON object of strings that names the
//! project.

use crate::errors::{agrees, failure_of, Failure, ZkErrorCode, ZktlsError};
use crate::text::{same_text, views_of, Text};
use vstd::prelude::*;

verus! {

/// The member of the metadata that names the project.
pub const PROJECT_ID_KEY: &'static str = "projectId";

/// What a text holds, read as a JSON object whose values are all strings.
#[derive(Debug)]
pub enum StringMap {
    /// The members in the ascending order of their names.
    Parsed(Vec<(String, String)>),
    /// Why the text is no such object.
    Malformed(String),
}

/// The model of a [`StringMap`].
pub enum StringMapView {
    Parsed(Seq<(Text, Text)>),
    Malformed(Text),
}

impl View for StringMap {
    type V = StringMapView;

    open spec fn view(&self) -> StringMapView {
        match self {
            StringMap::Parsed(members) => StringMapView::Parsed(views_of(members@)),
            StringMap::Malformed(reason) => StringMapView::Malformed(reason@),
        }
    }
}

/// What `serde_json::from_str` makes of a text when it is asked for a map
/// from strings to strings.
pub uninterp spec fn json_string_map(text: Seq<char>) -> StringMapView;

/// Reads a text as a JSON object of strings.
///
/// The call is `serde_json::from_str` for a `BTreeMap<String, String>`.
/// Nothing is claimed of it but that the same text always gives the same
/// answer: the members of the map in the order of the map, or the message
/// of the error.
#[verifier::external_body]
fn read_string_map(text: &str) -> (r: StringMap)
    ensures
        r@ == json_string_map(text@),
{
    match serde_json::from_str::<std::collections::BTreeMap<String, String>>(text) {
        Ok(map) => StringMap::Parsed(map.into_iter().collect()),
        Err(e) => StringMap::Malformed(e.to_string()),
    }
}

/// The value of the first member named `name`.
pub open spec fn member(members: Seq<(Text, Text)>, name: Text) -> Option<Text>
    decreases members.len(),
{
    if members.len() == 0 {
        None
    } else if members[0].0 == name {
        Some(members[0].1)
    } else {
        member(members.drop_first(), name)
    }
}

/// The project that the metadata names, or why it names none: the metadata
/// is no JSON object of strings, or it has no member for the project.
pub open spec fn project_id_of(parsed: StringMapView) -> Result<Text, Failure> {
    match parsed {
        StringMapView::Malformed(reason) => Err(
            Failure { code: ZkErrorCode::ParseMetaData, msg: reason },
        ),
        StringMapView::Parsed(members) => match member(members, PROJECT_ID_KEY@) {
            None => Err(failure_of(ZkErrorCode::MissingProjectId)),
            Some(id) => Ok(id),
        },
    }
}

/// Looks up the first member named `name`.
pub fn find_member(members: &Vec<(String, String)>, name: &str) -> (r: Option<String>)
    ensures
        match member(views_of(members@), name@) {
            Some(value) => r matches Some(found) && found@ == value,
            None => r is None,
        },
{
    let ghost all = views_of(members@);
    let mut i: usize = 0;
    assert(all.skip(0) =~= all);
    while i < members.len()
        invariant
            i <= members.len(),
            all == views_of(members@),
            member(all, name@) == member(all.skip(i as int), name@),
        decreases members.len() - i,
    {
        assert(all.skip(i as int)[0] == members@[i as int]@);
        if same_text(members[i].0.as_str(), name) {
            return Some(members[i].1.clone());
        }
        assert(all.skip(i as int).drop_first() =~= all.skip(i + 1));
        i += 1;
    }
    None
}

/// Finds the project in metadata that was read.
pub fn resolve_project_id(parsed: &StringMap) -> (r: Result<String, ZktlsError>)
    ensures
        agrees(r, project_id_of(parsed@)),
{
    match parsed {
        StringMap::Malformed(reason) => Err(
            ZktlsError::new(ZkErrorCode::ParseMetaData, reason.clone()),
        ),
        StringMap::Parsed(members) => match find_member(members, PROJECT_ID_KEY) {
            None => Err(ZktlsError::from_code(ZkErrorCode::MissingProjectId)),
            Some(id) => Ok(id),
        },
    }
}

/// Reads the metadata of a run and finds the project in it.
pub fn read_project_id(meta: &str) -> (r: Result<String, ZktlsError>)
    ensures
        agrees(r, project_id_of(json_string_map(meta@))),
{
    let parsed = read_string_map(meta);
    resolve_project_id(&parsed)
}

} // verus!
