use crate::assoc::map_of;
use crate::models::{text_view, EventInfo};
use crate::parameters::{merged, Parameters};
use vstd::prelude::*;

verus! {

/// The text that serde_json finds in the JSON document `payload` under the
/// key `field` of its top-level object: `None` where `payload` is no JSON, is
/// no object, has no such key, or holds something other than a string there.
pub uninterp spec fn json_text_field(payload: Seq<char>, field: Seq<char>) -> Option<Seq<char>>;

/// The entries of the object that serde_json finds in the JSON document
/// `payload` under the key `field` of its top-level object, each with its key
/// and, where its value is a string, that string: `None` where `payload` is no
/// JSON, is no object, has no such key, or holds something other than an
/// object there.
pub uninterp spec fn json_object_field(payload: Seq<char>, field: Seq<char>) -> Option<
    Seq<(Seq<char>, Option<Seq<char>>)>,
>;

/// The plain content of the entries of an object.
pub open spec fn entries_view(entries: Seq<(String, Option<String>)>) -> Seq<
    (Seq<char>, Option<Seq<char>>),
> {
    entries.map_values(|e: (String, Option<String>)| (e.0@, text_view(e.1)))
}

/// Reads `payload` with serde_json's `from_str` into a `Value` and takes the
/// string under `field` out with `Value::get` and `Value::as_str`. The
/// contract gives the outcome its name: it depends on the two texts alone.
#[verifier::external_body]
fn text_field(payload: &str, field: &str) -> (text: Option<String>)
    ensures
        text_view(text) == json_text_field(payload@, field@),
{
    let value = serde_json::from_str::<serde_json::Value>(payload).ok()?;
    value.get(field)?.as_str().map(|s| s.to_string())
}

/// Reads `payload` with serde_json's `from_str` into a `Value` and takes the
/// object under `field` out with `Value::get` and `Value::as_object`, entry by
/// entry in the order of `Map::iter`, each value through `Value::as_str`. The
/// contract gives the outcome its name: it depends on the two texts alone.
#[verifier::external_body]
fn object_field(payload: &str, field: &str) -> (entries: Option<Vec<(String, Option<String>)>>)
    ensures
        match entries {
            Some(e) => json_object_field(payload@, field@) == Some(entries_view(e@)),
            None => json_object_field(payload@, field@) is None,
        },
{
    let value = serde_json::from_str::<serde_json::Value>(payload).ok()?;
    let object = value.get(field)?.as_object()?;
    Some(object.iter().map(|(k, v)| (k.clone(), v.as_str().map(|s| s.to_string()))).collect())
}

/// The text, or the empty text where there is none.
pub open spec fn text_or_empty(text: Option<Seq<char>>) -> Seq<char> {
    match text {
        Some(t) => t,
        None => Seq::empty(),
    }
}

/// The entries as pairs of texts: a value that is no string counts as the
/// empty text.
pub open spec fn entry_pairs(entries: Seq<(Seq<char>, Option<Seq<char>>)>) -> Seq<
    (Seq<char>, Seq<char>),
> {
    entries.map_values(|e: (Seq<char>, Option<Seq<char>>)| (e.0, text_or_empty(e.1)))
}

/// The parameters that the entries of an object give; none where there is no
/// object.
pub open spec fn event_parameters(entries: Option<Seq<(Seq<char>, Option<Seq<char>>)>>) -> Map<
    Seq<char>,
    Seq<char>,
> {
    match entries {
        Some(e) => map_of(entry_pairs(e)),
        None => Map::empty(),
    }
}

/// The event that the three fields of a payload give. A missing name or
/// identifier is the empty text, a missing object of parameters gives no
/// parameters, and a parameter whose value is no string has the empty text.
pub fn event_from_fields(
    task_name: Option<String>,
    task_id: Option<String>,
    parameters: Option<Vec<(String, Option<String>)>>,
) -> (event: EventInfo)
    ensures
        event.task_name@ == text_or_empty(text_view(task_name)),
        event.task_id@ == text_or_empty(text_view(task_id)),
        event.parameters@ == event_parameters(
            match parameters {
                Some(e) => Some(entries_view(e@)),
                None => None,
            },
        ),
        event.parameters.pairs() == (match parameters {
            Some(e) => merged(entry_pairs(entries_view(e@))),
            None => Seq::empty(),
        }),
{
    let name = match task_name {
        Some(text) => text,
        None => String::new(),
    };
    let id = match task_id {
        Some(text) => text,
        None => String::new(),
    };
    let mut collected = Parameters::new();
    match parameters {
        Some(entries) => {
            let ghost given = entry_pairs(entries_view(entries@));
            let mut i: usize = 0;
            assert(given.take(0) =~= Seq::<(Seq<char>, Seq<char>)>::empty());
            while i < entries.len()
                invariant
                    i <= entries.len(),
                    given == entry_pairs(entries_view(entries@)),
                    collected@ == map_of(given.take(i as int)),
                    collected.pairs() == merged(given.take(i as int)),
                decreases entries.len() - i,
            {
                let key = entries[i].0.clone();
                let value = match &entries[i].1 {
                    Some(text) => text.clone(),
                    None => String::new(),
                };
                proof {
                    assert(given.take(i + 1).drop_last() =~= given.take(i as int));
                    assert(given.take(i + 1).last() == (key@, value@));
                }
                collected.insert(key, value);
                i += 1;
            }
            assert(given.take(entries.len() as int) =~= given);
        },
        None => {},
    }
    EventInfo { task_id: id, task_name: name, parameters: collected }
}

/// Reads the payload of a fired-trigger event: the JSON object that a host
/// sends when a task's trigger has fired, with the keys `task_name`, `task_id`
/// and `parameters`.
pub fn decode_event(payload: &str) -> (event: EventInfo)
    ensures
        event.task_name@ == text_or_empty(json_text_field(payload@, "task_name"@)),
        event.task_id@ == text_or_empty(json_text_field(payload@, "task_id"@)),
        event.parameters@ == event_parameters(json_object_field(payload@, "parameters"@)),
        event.parameters.pairs() == (match json_object_field(payload@, "parameters"@) {
            Some(e) => merged(entry_pairs(e)),
            None => Seq::empty(),
        }),
{
    let task_name = text_field(payload, "task_name");
    let task_id = text_field(payload, "task_id");
    let parameters = object_field(payload, "parameters");
    event_from_fields(task_name, task_id, parameters)
}

} // verus!
