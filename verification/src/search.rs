//! What image registries answer to a search, put into the form that is
//! shown. The caller asks the registries and hands their answers over.

use vstd::prelude::*;
use crate::containers::{
    dockerhub_result, hub_result, HubRepo, ImageSearchResult, ImageSearchResultView,
};
use crate::text::join2;

verus! {

/// A value of a document in JSON, as far as a search reads it.
#[derive(Debug, PartialEq, Eq)]
pub enum Json {
    Null,
    Bool(bool),
    /// A number; the number itself where it is a whole number from 0 to the
    /// largest that 64 bits hold.
    Number(Option<u64>),
    Text(String),
    Array(Vec<Json>),
    /// The members of an object, each under its key.
    Object(Vec<(String, Json)>),
}

/// The first of `members[from..]` under the key `key`.
pub open spec fn member_from(members: Seq<(String, Json)>, key: Seq<char>, from: int) -> Option<Json>
    decreases members.len() - from,
{
    if from < 0 || from >= members.len() {
        None
    } else if members[from].0@ == key {
        Some(members[from].1)
    } else {
        member_from(members, key, from + 1)
    }
}

/// The member of an object under the key `key`; nothing for a value that is
/// no object or has no such member.
pub open spec fn member(value: Json, key: Seq<char>) -> Option<Json> {
    match value {
        Json::Object(members) => member_from(members@, key, 0),
        _ => None,
    }
}

/// `first` if it is there, and else `second`.
pub open spec fn or_else(first: Option<Json>, second: Option<Json>) -> Option<Json> {
    match first {
        Some(_) => first,
        None => second,
    }
}

/// The text of a value that is a text.
pub open spec fn as_text(value: Option<Json>) -> Option<Seq<char>> {
    match value {
        Some(Json::Text(t)) => Some(t@),
        _ => None,
    }
}

/// The number of a value that is a whole number of 64 bits.
pub open spec fn as_number(value: Option<Json>) -> Option<u64> {
    match value {
        Some(Json::Number(n)) => n,
        _ => None,
    }
}

/// The elements of a value that is an array.
pub open spec fn as_items(value: Option<Json>) -> Option<Seq<Json>> {
    match value {
        Some(Json::Array(items)) => Some(items@),
        _ => None,
    }
}

/// The name under which a found repository goes: its `name` if that is a
/// text; else its namespace and the name of the repository with a slash
/// between them, where both are texts; else a word for what is not known.
/// The namespace is the member `namespace` or, if there is none, the member
/// `namespace_name`; the name of the repository is the member `repo_name` or,
/// if there is none, the member `name`.
pub open spec fn full_name(item: Json) -> Seq<char> {
    match as_text(member(item, "name"@)) {
        Some(name) => name,
        None => {
            let namespace = as_text(
                or_else(member(item, "namespace"@), member(item, "namespace_name"@)),
            );
            let repo = as_text(or_else(member(item, "repo_name"@), member(item, "name"@)));
            if namespace is Some && repo is Some {
                namespace->0 + "/"@ + repo->0
            } else {
                "<unknown>"@
            }
        },
    }
}

/// What a search shows of one repository that the registry found.
pub open spec fn quay_result(item: Json) -> ImageSearchResultView {
    ImageSearchResultView {
        source: "quay"@,
        reference: "quay.io/"@ + full_name(item),
        description: match as_text(member(item, "description"@)) {
            Some(d) => d,
            None => Seq::empty(),
        },
        stars: as_number(or_else(member(item, "stars"@), member(item, "star_count"@))),
        pulls: None,
        official: false,
    }
}

/// The repositories that an answer of the registry lists: the array under
/// `results` or else the array under `repositories`; none where neither is
/// an array.
pub open spec fn found_items(answer: Json) -> Seq<Json> {
    match as_items(member(answer, "results"@)) {
        Some(items) => items,
        None => match as_items(member(answer, "repositories"@)) {
            Some(items) => items,
            None => Seq::empty(),
        },
    }
}

/// What a search shows of an answer of the registry: the first `limit`
/// repositories that it lists, in order.
pub open spec fn quay_results_of(answer: Json, limit: nat) -> Seq<ImageSearchResultView> {
    let items = found_items(answer);
    let shown = if items.len() <= limit {
        items.len()
    } else {
        limit
    };
    Seq::new(shown, |i: int| quay_result(items[i]))
}

/// The views of found images, in order.
pub open spec fn result_views(found: Seq<ImageSearchResult>) -> Seq<ImageSearchResultView> {
    Seq::new(found.len(), |i: int| found[i]@)
}

#[verifier::loop_isolation(false)]
fn get<'a>(value: &'a Json, key: &str) -> (found: Option<&'a Json>)
    ensures
        match found {
            Some(v) => member(*value, key@) == Some(*v),
            None => member(*value, key@) is None,
        },
{
    match value {
        Json::Object(members) => {
            let wanted = key.to_owned();
            let mut i: usize = 0;
            while i < members.len()
                invariant
                    i <= members.len(),
                    wanted@ == key@,
                    member_from(members@, key@, 0) == member_from(members@, key@, i as int),
                decreases members.len() - i,
            {
                if members[i].0 == wanted {
                    return Some(&members[i].1);
                }
                i = i + 1;
            }
            None
        },
        _ => None,
    }
}

fn get_either<'a>(value: &'a Json, first: &str, second: &str) -> (found: Option<&'a Json>)
    ensures
        match found {
            Some(v) => or_else(member(*value, first@), member(*value, second@)) == Some(*v),
            None => or_else(member(*value, first@), member(*value, second@)) is None,
        },
{
    match get(value, first) {
        Some(v) => Some(v),
        None => get(value, second),
    }
}

fn text<'a>(value: Option<&'a Json>) -> (found: Option<&'a String>)
    ensures
        match found {
            Some(t) => value matches Some(v) && as_text(Some(*v)) == Some(t@),
            None => match value {
                Some(v) => as_text(Some(*v)) is None,
                None => true,
            },
        },
{
    match value {
        Some(Json::Text(t)) => Some(t),
        _ => None,
    }
}

fn name_of(item: &Json) -> (name: String)
    ensures
        name@ == full_name(*item),
{
    match text(get(item, "name")) {
        Some(name) => name.clone(),
        None => {
            let namespace = text(get_either(item, "namespace", "namespace_name"));
            let repo = text(get_either(item, "repo_name", "name"));
            match (namespace, repo) {
                (Some(ns), Some(r)) => {
                    let mut name = join2(ns.as_str(), "/");
                    name.append(r.as_str());
                    name
                },
                _ => "<unknown>".to_owned(),
            }
        },
    }
}

/// What a search shows of the repository `item` that the registry found.
pub fn quay_item(item: &Json) -> (result: ImageSearchResult)
    ensures
        result@ == quay_result(*item),
{
    let name = name_of(item);
    let description = match text(get(item, "description")) {
        Some(d) => d.clone(),
        None => String::new(),
    };
    let stars = match get_either(item, "stars", "star_count") {
        Some(Json::Number(n)) => *n,
        _ => None,
    };
    ImageSearchResult {
        source: "quay".to_owned(),
        reference: join2("quay.io/", name.as_str()),
        description,
        stars,
        pulls: None,
        official: false,
    }
}

fn items<'a>(value: Option<&'a Json>) -> (found: Option<&'a Vec<Json>>)
    ensures
        match found {
            Some(list) => value matches Some(v) && as_items(Some(*v)) == Some(list@),
            None => match value {
                Some(v) => as_items(Some(*v)) is None,
                None => true,
            },
        },
{
    match value {
        Some(Json::Array(list)) => Some(list),
        _ => None,
    }
}

/// What a search shows of the answer `answer` of the registry, at most
/// `limit` repositories.
pub fn quay_results(answer: &Json, limit: usize) -> (found: Vec<ImageSearchResult>)
    ensures
        result_views(found@) == quay_results_of(*answer, limit as nat),
{
    let mut found: Vec<ImageSearchResult> = Vec::new();
    let list = match items(get(answer, "results")) {
        Some(list) => list,
        None => match items(get(answer, "repositories")) {
            Some(list) => list,
            None => {
                proof {
                    assert(result_views(found@) =~= quay_results_of(*answer, limit as nat));
                }
                return found;
            },
        },
    };
    let mut i: usize = 0;
    while i < list.len() && i < limit
        invariant
            i <= list.len(),
            i <= limit,
            found.len() == i,
            list@ == found_items(*answer),
            forall|k: int| 0 <= k < i ==> (#[trigger] found[k])@ == quay_result(list[k]),
        decreases list.len() - i,
    {
        found.push(quay_item(&list[i]));
        i = i + 1;
    }
    proof {
        assert(result_views(found@) =~= quay_results_of(*answer, limit as nat));
    }
    found
}

/// What a search shows of the repositories of the hub: the first `limit`,
/// in order.
pub open spec fn hub_results_of(repos: Seq<HubRepo>, limit: nat) -> Seq<ImageSearchResultView> {
    let shown = if repos.len() <= limit {
        repos.len()
    } else {
        limit
    };
    Seq::new(shown, |i: int| hub_result(repos[i]))
}

/// What a search shows of the repositories `repos` of the hub, at most
/// `limit` of them.
pub fn dockerhub_results(repos: &Vec<HubRepo>, limit: usize) -> (found: Vec<ImageSearchResult>)
    ensures
        result_views(found@) == hub_results_of(repos@, limit as nat),
{
    let mut found: Vec<ImageSearchResult> = Vec::new();
    let mut i: usize = 0;
    while i < repos.len() && i < limit
        invariant
            i <= repos.len(),
            i <= limit,
            found.len() == i,
            forall|k: int| 0 <= k < i ==> (#[trigger] found[k])@ == hub_result(repos[k]),
        decreases repos.len() - i,
    {
        found.push(dockerhub_result(&repos[i]));
        i = i + 1;
    }
    proof {
        assert(result_views(found@) =~= hub_results_of(repos@, limit as nat));
    }
    found
}

/// The limit on the memory of a container for `mb` megabytes, in bytes as
/// the engine takes them: the megabytes as a signed number of 64 bits, where
/// the largest numbers turn negative, times 1024 twice, each time held at the
/// ends of the numbers.
pub open spec fn memory_limit(mb: u64) -> i64 {
    let signed: int = if mb <= i64::MAX {
        mb as int
    } else {
        mb - 0x1_0000_0000_0000_0000
    };
    let bytes = signed * 1_048_576;
    if bytes > i64::MAX {
        i64::MAX
    } else if bytes < i64::MIN {
        i64::MIN
    } else {
        bytes as i64
    }
}

/// The limit on the memory of a container for `mb` megabytes, in bytes.
pub fn memory_limit_bytes(mb: u64) -> (bytes: i64)
    ensures
        bytes == memory_limit(mb),
{
    if mb <= 0x7fff_ffff_ffff_ffff {
        if mb > 8_796_093_022_207 {
            i64::MAX
        } else {
            (mb as i64) * 1_048_576
        }
    } else {
        let below: u64 = 0xffff_ffff_ffff_ffff - mb;
        if below >= 8_796_093_022_208 {
            i64::MIN
        } else {
            -((below + 1) as i64) * 1_048_576
        }
    }
}

} // verus!
