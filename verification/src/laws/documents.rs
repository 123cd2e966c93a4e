//! What is found in a JSON document.

use crate::json::{self, Json};
use crate::scalar::Scalar;
use vstd::prelude::*;
use vstd::string::*;

verus! {

/// Whether an object has an entry with a name and a value, and none of that name
/// ahead of it.
pub open spec fn has_entry(doc: Json, name: Seq<char>, value: Json) -> bool {
    doc matches Json::Object(entries) && exists|i: int|
        #![trigger entries@[i]]
        0 <= i < entries@.len() && entries@[i].0@ == name && entries@[i].1 == value && forall|
            j: int,
        |
            0 <= j < i ==> (#[trigger] entries@[j]).0@ != name
}

/// Whether an object has no entry with a name, or a document is no object at all.
pub open spec fn has_no_entry(doc: Json, name: Seq<char>) -> bool {
    doc matches Json::Object(entries) ==> forall|i: int|
        0 <= i < entries@.len() ==> (#[trigger] entries@[i]).0@ != name
}

proof fn lemma_lookup(entries: Seq<(String, Json)>, name: Seq<char>)
    ensures
        match json::lookup(entries, name) {
            Some(value) => exists|i: int|
                #![trigger entries[i]]
                0 <= i < entries.len() && entries[i].0@ == name && entries[i].1 == value
                    && forall|j: int| 0 <= j < i ==> (#[trigger] entries[j]).0@ != name,
            None => forall|i: int|
                0 <= i < entries.len() ==> (#[trigger] entries[i]).0@ != name,
        },
    decreases entries.len(),
{
    if entries.len() > 0 && entries[0].0@ != name {
        let rest = entries.drop_first();
        lemma_lookup(rest, name);
        match json::lookup(rest, name) {
            Some(value) => {
                let i = choose|i: int|
                    #![trigger rest[i]]
                    0 <= i < rest.len() && rest[i].0@ == name && rest[i].1 == value
                        && forall|j: int| 0 <= j < i ==> (#[trigger] rest[j]).0@ != name;
                assert(entries[i + 1] == rest[i]);
                assert forall|j: int| 0 <= j < i + 1 implies (#[trigger] entries[j]).0@ != name by {
                    if j > 0 {
                        assert(entries[j] == rest[j - 1]);
                    }
                }
            },
            None => {
                assert forall|i: int| 0 <= i < entries.len() implies (#[trigger] entries[i]).0@
                    != name by {
                    if i > 0 {
                        assert(entries[i] == rest[i - 1]);
                    }
                }
            },
        }
    } else if entries.len() > 0 {
        assert(entries[0].0@ == name && entries[0].1 == json::lookup(entries, name)->0);
    }
}

/// What a document holds under a name.
pub proof fn lemma_field(doc: Json, name: Seq<char>)
    ensures
        json::field(doc, name) matches Some(value) ==> has_entry(doc, name, value),
        json::field(doc, name) is None ==> has_no_entry(doc, name),
{
    if let Json::Object(entries) = doc {
        lemma_lookup(entries@, name);
    }
}

/// An entry is found exactly if an object has one of that name; the first counts.
pub proof fn entries_are_found(doc: &Json, name: &str, r: Option<&Json>)
    requires
        call_ensures(Json::get, (doc, name), r),
    ensures
        r matches Some(value) ==> has_entry(*doc, name@, *value),
        r is None ==> has_no_entry(*doc, name@),
{
    lemma_field(*doc, name@);
}

/// Items are counted from zero, and only arrays have any.
pub proof fn items_are_found(doc: &Json, i: usize, r: Option<&Json>)
    requires
        call_ensures(Json::at, (doc, i), r),
    ensures
        r is Some <==> (*doc matches Json::Array(items) && i < items@.len()),
        r is Some ==> (*doc matches Json::Array(items) && *(r->0) == items@[i as int]),
{
}

/// Texts and numbers are read as what they are, and nothing else is read as one.
pub proof fn values_are_read_as_they_are(
    doc: &Json,
    text: Option<&String>,
    unsigned: Option<u64>,
    single: Option<Scalar>,
    null: bool,
)
    requires
        call_ensures(Json::as_text, (doc,), text),
        call_ensures(Json::as_unsigned, (doc,), unsigned),
        call_ensures(Json::as_single, (doc,), single),
        call_ensures(Json::is_null, (doc,), null),
    ensures
        match *doc {
            Json::Text(s) => text is Some && text->0@ == s@ && unsigned is None && single is None,
            Json::Number(n) => text is None && unsigned == n.unsigned && single == Some(n.single),
            _ => text is None && unsigned is None && single is None,
        },
        null == (*doc is Null),
{
}

/// A text or a number is found under its name; where there is none, the text is
/// empty and the number the one to fall back on.
pub proof fn fields_fall_back(
    doc: &Json,
    name: &str,
    default: Scalar,
    found: Option<&Json>,
    text: Option<&String>,
    or_empty: String,
    or_default: Scalar,
)
    requires
        call_ensures(Json::get, (doc, name), found),
        call_ensures(Json::text_field, (doc, name), text),
        call_ensures(Json::text_field_or_empty, (doc, name), or_empty),
        call_ensures(Json::single_field_or, (doc, name, default), or_default),
    ensures
        match found {
            Some(Json::Text(s)) => text is Some && text->0@ == s@ && or_empty@ == s@,
            _ => text is None && or_empty@.len() == 0,
        },
        match found {
            Some(Json::Number(n)) => or_default == n.single,
            _ => or_default == default,
        },
{
}

} // verus!
