//! The form-field extractor: given a parsed form body and the field name
//! captured from the path, answer with a one-entry JSON object, or fail
//! with the status the kind of miss calls for.

use vstd::prelude::*;
use vstd::string::StringExecFns;
use crate::response::{HandlerOutcome, OutcomeView, ErrorKind, bad_request};
use crate::router::{RouteMatch, lookup};

verus! {

/// One value submitted under a form field name: a scalar text field or an
/// opaque file attachment.
pub enum FormEntry {
    Field(String),
    File,
}

/// The mathematical shape of a form entry.
pub enum FormEntryView {
    Field(Seq<char>),
    File,
}

impl View for FormEntry {
    type V = FormEntryView;

    open spec fn view(&self) -> FormEntryView {
        match self {
            FormEntry::Field(value) => FormEntryView::Field(value@),
            FormEntry::File => FormEntryView::File,
        }
    }
}

/// The view of one named form entry.
pub open spec fn entry_pair(pair: (String, FormEntry)) -> (Seq<char>, FormEntryView) {
    (pair.0@, pair.1@)
}

/// The views of a sequence of named form entries.
pub open spec fn entries_view(entries: Seq<(String, FormEntry)>) -> Seq<(Seq<char>, FormEntryView)> {
    entries.map_values(|pair: (String, FormEntry)| entry_pair(pair))
}

/// A parsed form body: named entries in submission order. A name may occur
/// more than once; only its first entry is consulted.
pub struct FormBody {
    pub entries: Vec<(String, FormEntry)>,
}

impl View for FormBody {
    type V = Seq<(Seq<char>, FormEntryView)>;

    open spec fn view(&self) -> Seq<(Seq<char>, FormEntryView)> {
        entries_view(self.entries@)
    }
}

/// The first entry submitted under `name`, if any.
pub open spec fn form_lookup(
    entries: Seq<(Seq<char>, FormEntryView)>,
    name: Seq<char>,
) -> Option<FormEntryView>
    decreases entries.len(),
{
    if entries.len() == 0 {
        None
    } else if entries[0].0 == name {
        Some(entries[0].1)
    } else {
        form_lookup(entries.skip(1), name)
    }
}

impl FormBody {
    /// A form body with no entries.
    pub fn new() -> (form: FormBody)
        ensures
            form@ == Seq::<(Seq<char>, FormEntryView)>::empty(),
    {
        let form = FormBody { entries: Vec::new() };
        proof {
            assert(form@ =~= Seq::<(Seq<char>, FormEntryView)>::empty());
        }
        form
    }

    /// Appends one named entry.
    pub fn push(&mut self, name: String, entry: FormEntry)
        ensures
            final(self)@ == old(self)@.push((name@, entry@)),
    {
        let ghost prev = self.entries@;
        let ghost pushed = (name@, entry@);
        self.entries.push((name, entry));
        proof {
            assert(entry_pair(self.entries@.last()) == pushed);
            assert(entries_view(prev.push(self.entries@.last())) =~= entries_view(prev).push(
                pushed,
            ));
        }
    }

    /// The first entry under `name`, if the form has one.
    pub fn get(&self, name: &String) -> (entry: Option<&FormEntry>)
        ensures
            match entry {
                Some(e) => form_lookup(self@, name@) == Some(e@),
                None => form_lookup(self@, name@) is None,
            },
    {
        let mut i: usize = 0;
        proof {
            assert(self@.skip(0) =~= self@);
        }
        while i < self.entries.len()
            invariant
                i <= self.entries@.len(),
                form_lookup(self@, name@) == form_lookup(self@.skip(i as int), name@),
            decreases self.entries@.len() - i,
        {
            proof {
                assert(self@.skip(i as int)[0] == self@[i as int]);
                assert(self@[i as int] == entry_pair(self.entries@[i as int]));
                assert(self@.skip(i as int).skip(1) =~= self@.skip(i + 1));
            }
            if crate::paths::string_eq(&self.entries[i].0, name) {
                return Some(&self.entries[i].1);
            }
            i = i + 1;
        }
        proof {
            assert(self@.skip(i as int).len() == 0);
        }
        None
    }
}

/// What serde_json serializes a one-entry JSON object to: a function of the
/// key and value alone.
pub uninterp spec fn json_one(key: Seq<char>, value: Seq<char>) -> Seq<char>;

/// Relies on serde_json::to_string on a one-entry object of string values:
/// infallible there, and a pure function of the key and the value.
#[verifier::external_body]
fn json_object_one(key: &str, value: &str) -> (encoded: String)
    ensures
        encoded@ == json_one(key@, value@),
{
    let mut object = serde_json::Map::new();
    object.insert(key.to_owned(), serde_json::Value::String(value.to_owned()));
    serde_json::to_string(&serde_json::Value::Object(object)).unwrap_or_default()
}

/// The outcome the form-field extractor owes: with no `field` parameter or
/// no entry under it, status 400 with the fixed message; with a scalar entry,
/// status 200 and the one-entry JSON object; with a file entry, status 422
/// with the fixed file-rejection message.
pub open spec fn extract_outcome(
    form: Seq<(Seq<char>, FormEntryView)>,
    field: Option<Seq<char>>,
) -> OutcomeView {
    match field {
        None => bad_request(),
        Some(name) => match form_lookup(form, name) {
            None => bad_request(),
            Some(FormEntryView::Field(value)) => OutcomeView::Success {
                body: json_one(name, value),
                status: 200u16,
                content_type: Some("application/json"@),
            },
            Some(FormEntryView::File) => OutcomeView::Failure {
                kind: ErrorKind::UnprocessableEntity,
                status: 422u16,
                message: "`field` param in form shouldn't be a File"@,
            },
        },
    }
}

/// Extracts the form entry named by the `field` route parameter and answers
/// as `extract_outcome` states, for every form and every match.
pub fn extract_form_field(form: &FormBody, params: &RouteMatch) -> (outcome: HandlerOutcome)
    ensures
        outcome@ == extract_outcome(form@, lookup(params@, "field"@)),
{
    match params.get("field") {
        None => HandlerOutcome::Failure {
            kind: ErrorKind::BadRequest,
            status: 400,
            message: "Bad Request".to_owned(),
        },
        Some(name) => match form.get(name) {
            None => HandlerOutcome::Failure {
                kind: ErrorKind::BadRequest,
                status: 400,
                message: "Bad Request".to_owned(),
            },
            Some(entry) => match entry {
                FormEntry::Field(value) => {
                    let body = json_object_one(name.as_str(), value.as_str());
                    HandlerOutcome::Success {
                        body,
                        status: 200,
                        content_type: Some("application/json".to_owned()),
                    }
                },
                FormEntry::File => HandlerOutcome::Failure {
                    kind: ErrorKind::UnprocessableEntity,
                    status: 422,
                    message: "`field` param in form shouldn't be a File".to_owned(),
                },
            },
        },
    }
}

} // verus!
