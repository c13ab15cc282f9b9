//! What request to make, and what is handed to the transport for it.

use vstd::prelude::*;
use crate::error::ClientError;
use crate::error::ErrorView;
use crate::kv::parse_kvs;
use crate::kv::split_pair;
use crate::kv::KvItem;
use crate::url::parse_url;
use crate::url::url_parse_error;

verus! {

/// A body field as contracts speak of it: key and value.
pub type Field = (Seq<char>, Seq<char>);

/// The fields of a body as contracts speak of them, in order.
pub open spec fn field_views(items: Seq<KvItem>) -> Seq<Field> {
    items.map_values(|kv: KvItem| kv@)
}

/// The JSON object that a sequence of fields stands for: each field is
/// written into the object in turn, so that of several fields with one key
/// the last one stays.
pub open spec fn body_object(fields: Seq<Field>) -> Map<Seq<char>, Seq<char>>
    decreases fields.len(),
{
    if fields.len() == 0 {
        Map::empty()
    } else {
        body_object(fields.drop_last()).insert(fields.last().0, fields.last().1)
    }
}

/// The position of the first entry at or after `from` that has `key`.
pub open spec fn key_index(entries: Seq<Field>, key: Seq<char>, from: int) -> Option<int>
    decreases entries.len() - from,
{
    if from >= entries.len() {
        None
    } else if entries[from].0 == key {
        Some(from)
    } else {
        key_index(entries, key, from + 1)
    }
}

/// `entries` with `field` written into it: over the entry that has its key,
/// or behind the last entry where none has.
pub open spec fn upsert(entries: Seq<Field>, field: Field) -> Seq<Field> {
    match key_index(entries, field.0, 0) {
        Some(at) => entries.update(at, field),
        None => entries.push(field),
    }
}

/// The members of the body object, each key once: keys stand in the order in
/// which they first occur among `fields`, each with the last value given
/// for it.
pub open spec fn fold_fields(fields: Seq<Field>) -> Seq<Field>
    decreases fields.len(),
{
    if fields.len() == 0 {
        Seq::empty()
    } else {
        upsert(fold_fields(fields.drop_last()), fields.last())
    }
}

/// Whether no two entries share a key.
pub open spec fn distinct_keys(entries: Seq<Field>) -> bool {
    forall|i: int, j: int|
        0 <= i < j < entries.len() ==> (#[trigger] entries[i]).0 != (#[trigger] entries[j]).0
}

/// `key_index` finds the least position at or after `from` that has `key`,
/// and finds none only where there is none.
pub proof fn lemma_key_index(entries: Seq<Field>, key: Seq<char>, from: int)
    requires
        0 <= from <= entries.len(),
    ensures
        match key_index(entries, key, from) {
            Some(at) => {
                &&& from <= at < entries.len()
                &&& entries[at].0 == key
                &&& forall|j: int| from <= j < at ==> (#[trigger] entries[j]).0 != key
            },
            None => forall|j: int| from <= j < entries.len() ==> (#[trigger] entries[j]).0 != key,
        },
    decreases entries.len() - from,
{
    if from < entries.len() && entries[from].0 != key {
        lemma_key_index(entries, key, from + 1);
    }
}

/// Last write wins: a field that no later field shares its key with is a
/// member of the body object, key and value.
pub proof fn lemma_last_write_wins(fields: Seq<Field>, at: int)
    requires
        0 <= at < fields.len(),
        forall|j: int| at < j < fields.len() ==> (#[trigger] fields[j]).0 != fields[at].0,
    ensures
        body_object(fields).contains_key(fields[at].0),
        body_object(fields)[fields[at].0] == fields[at].1,
    decreases fields.len(),
{
    if at < fields.len() - 1 {
        let rest = fields.drop_last();
        assert forall|j: int| at < j < rest.len() implies (#[trigger] rest[j]).0 != rest[at].0 by {
        }
        lemma_last_write_wins(rest, at);
    }
}

/// The body object has a member for a key exactly where some field has
/// that key.
pub proof fn lemma_object_keys(fields: Seq<Field>, key: Seq<char>)
    ensures
        body_object(fields).contains_key(key) <==> exists|i: int|
            0 <= i < fields.len() && (#[trigger] fields[i]).0 == key,
    decreases fields.len(),
{
    if fields.len() > 0 {
        let rest = fields.drop_last();
        lemma_object_keys(rest, key);
        if body_object(fields).contains_key(key) {
            if fields.last().0 == key {
            } else {
                let i = choose|i: int| 0 <= i < rest.len() && (#[trigger] rest[i]).0 == key;
            }
        }
        if exists|i: int| 0 <= i < fields.len() && (#[trigger] fields[i]).0 == key {
            let i = choose|i: int| 0 <= i < fields.len() && (#[trigger] fields[i]).0 == key;
            if i < rest.len() {
                assert(rest[i].0 == key);
            }
        }
    }
}

/// Writing a field into entries with distinct keys leaves the keys
/// distinct, and writes the field into the object that they stand for.
pub proof fn lemma_upsert(entries: Seq<Field>, field: Field)
    requires
        distinct_keys(entries),
    ensures
        distinct_keys(upsert(entries, field)),
        body_object(upsert(entries, field)) == body_object(entries).insert(field.0, field.1),
{
    lemma_key_index(entries, field.0, 0);
    let after = upsert(entries, field);
    match key_index(entries, field.0, 0) {
        Some(at) => {
            assert(distinct_keys(after));
            lemma_update_object(entries, at, field.1);
        },
        None => {
            assert(after.drop_last() == entries);
        },
    }
}

/// Giving the entry at `at` another value gives the member for its key that
/// value, where no other entry has that key.
proof fn lemma_update_object(entries: Seq<Field>, at: int, value: Seq<char>)
    requires
        0 <= at < entries.len(),
        distinct_keys(entries),
    ensures
        body_object(entries.update(at, (entries[at].0, value))) == body_object(entries).insert(
            entries[at].0,
            value,
        ),
    decreases entries.len(),
{
    let key = entries[at].0;
    let after = entries.update(at, (key, value));
    let rest = entries.drop_last();
    if at == entries.len() - 1 {
        assert(after.drop_last() == rest);
    } else {
        assert(distinct_keys(rest));
        lemma_update_object(rest, at, value);
        assert(after.drop_last() == rest.update(at, (key, value)));
    }
}

/// Folding keeps no key twice, and stands for the same object as the fields
/// it was folded from.
pub proof fn lemma_fold_fields(fields: Seq<Field>)
    ensures
        distinct_keys(fold_fields(fields)),
        body_object(fold_fields(fields)) == body_object(fields),
    decreases fields.len(),
{
    if fields.len() > 0 {
        lemma_fold_fields(fields.drop_last());
        lemma_upsert(fold_fields(fields.drop_last()), fields.last());
    }
}

/// Finds the entry that has `key`.
fn find_key(entries: &Vec<KvItem>, key: &String) -> (found: Option<usize>)
    ensures
        match found {
            Some(at) => key_index(field_views(entries@), key@, 0) == Some(at as int),
            None => key_index(field_views(entries@), key@, 0) is None,
        },
{
    let ghost views = field_views(entries@);
    let mut i: usize = 0;
    while i < entries.len()
        invariant
            i <= entries.len(),
            views == field_views(entries@),
            key_index(views, key@, 0) == key_index(views, key@, i as int),
        decreases entries.len() - i,
    {
        if entries[i].key == *key {
            return Some(i);
        }
        i = i + 1;
    }
    None
}

/// Folds the fields of a body into the members of its JSON object.
///
/// No key is kept twice: a later field with a key already seen replaces the
/// value held for it.
pub fn body_fields(fields: &Vec<KvItem>) -> (members: Vec<KvItem>)
    ensures
        field_views(members@) == fold_fields(field_views(fields@)),
        distinct_keys(field_views(members@)),
        body_object(field_views(members@)) == body_object(field_views(fields@)),
{
    let ghost views = field_views(fields@);
    let mut members: Vec<KvItem> = Vec::new();
    let mut i: usize = 0;
    while i < fields.len()
        invariant
            i <= fields.len(),
            views == field_views(fields@),
            field_views(members@) == fold_fields(views.take(i as int)),
        decreases fields.len() - i,
    {
        let field = &fields[i];
        let copy = KvItem { key: field.key.clone(), value: field.value.clone() };
        let ghost before = field_views(members@);
        proof {
            lemma_key_index(before, field.key@, 0);
        }
        match find_key(&members, &field.key) {
            Some(at) => {
                members.set(at, copy);
            },
            None => {
                members.push(copy);
            },
        }
        assert(views.take(i + 1).drop_last() =~= views.take(i as int));
        i = i + 1;
    }
    proof {
        assert(views.take(i as int) =~= views);
        lemma_fold_fields(views);
    }
    members
}

/// The method of a request.
#[derive(Clone, Copy, Debug, PartialEq, Eq, Structural)]
pub enum Method {
    Get,
    Post,
}

/// What request to make: fixed once the arguments have been validated, and
/// used up when the request is planned.
#[derive(Clone, Debug, PartialEq, Eq)]
pub enum RequestDescriptor {
    Get { url: String },
    Post { url: String, fields: Vec<KvItem> },
}

/// A descriptor as contracts speak of it.
pub enum DescriptorView {
    Get { url: Seq<char> },
    Post { url: Seq<char>, fields: Seq<Field> },
}

impl View for RequestDescriptor {
    type V = DescriptorView;

    open spec fn view(&self) -> DescriptorView {
        match self {
            RequestDescriptor::Get { url } => DescriptorView::Get { url: url@ },
            RequestDescriptor::Post { url, fields } => DescriptorView::Post {
                url: url@,
                fields: field_views(fields@),
            },
        }
    }
}

impl DescriptorView {
    /// The address that the request goes to.
    pub open spec fn url(self) -> Seq<char> {
        match self {
            DescriptorView::Get { url } => url,
            DescriptorView::Post { url, .. } => url,
        }
    }
}

/// What the transport is to send: a method, an address and, for a request
/// with a body, the members of the JSON object that is the body.
#[derive(Clone, Debug, PartialEq, Eq)]
pub struct OutboundRequest {
    pub method: Method,
    pub url: String,
    pub json_body: Option<Vec<KvItem>>,
}

/// An outbound request as contracts speak of it.
pub struct OutboundView {
    pub method: Method,
    pub url: Seq<char>,
    pub json_body: Option<Seq<Field>>,
}

impl View for OutboundRequest {
    type V = OutboundView;

    open spec fn view(&self) -> OutboundView {
        OutboundView {
            method: self.method,
            url: self.url@,
            json_body: match self.json_body {
                Some(members) => Some(field_views(members@)),
                None => None,
            },
        }
    }
}

/// The outbound request that a descriptor calls for: a `Get` goes out
/// without a body, a `Post` with its fields folded into one JSON object.
pub open spec fn planned(descriptor: DescriptorView) -> OutboundView {
    match descriptor {
        DescriptorView::Get { url } => OutboundView { method: Method::Get, url, json_body: None },
        DescriptorView::Post { url, fields } => OutboundView {
            method: Method::Post,
            url,
            json_body: Some(fold_fields(fields)),
        },
    }
}

impl RequestDescriptor {
    /// Whether the descriptor's address is an absolute URL. Every descriptor
    /// that the constructors make is well formed.
    pub open spec fn well_formed(&self) -> bool {
        url_parse_error(self@.url()) is None
    }

    /// Assembles the descriptor of a `get` from an address that has passed
    /// validation.
    pub fn get(url: String) -> (descriptor: RequestDescriptor)
        requires
            url_parse_error(url@) is None,
        ensures
            descriptor@ == (DescriptorView::Get { url: url@ }),
            descriptor.well_formed(),
    {
        RequestDescriptor::Get { url }
    }

    /// Assembles the descriptor of a `post` from an address that has passed
    /// validation and the fields of its body, in the order given.
    pub fn post(url: String, fields: Vec<KvItem>) -> (descriptor: RequestDescriptor)
        requires
            url_parse_error(url@) is None,
        ensures
            descriptor@ == (DescriptorView::Post { url: url@, fields: field_views(fields@) }),
            descriptor.well_formed(),
    {
        RequestDescriptor::Post { url, fields }
    }

    /// Plans the request that the descriptor calls for, using the
    /// descriptor up.
    pub fn plan(self) -> (request: OutboundRequest)
        ensures
            request@ == planned(self@),
    {
        match self {
            RequestDescriptor::Get { url } => OutboundRequest {
                method: Method::Get,
                url,
                json_body: None,
            },
            RequestDescriptor::Post { url, fields } => {
                let members = body_fields(&fields);
                OutboundRequest { method: Method::Post, url, json_body: Some(members) }
            },
        }
    }
}

/// The texts of a list of arguments, in order.
pub open spec fn token_views(tokens: Seq<String>) -> Seq<Seq<char>> {
    tokens.map_values(|t: String| t@)
}

/// What a list of body arguments splits into: the fields in order, or the
/// first argument that holds no `=`.
pub open spec fn split_all(tokens: Seq<Seq<char>>) -> Result<Seq<Field>, Seq<char>>
    decreases tokens.len(),
{
    if tokens.len() == 0 {
        Ok(Seq::empty())
    } else {
        match split_all(tokens.drop_last()) {
            Err(token) => Err(token),
            Ok(fields) => match split_pair(tokens.last()) {
                Some(field) => Ok(fields.push(field)),
                None => Err(tokens.last()),
            },
        }
    }
}

/// What the arguments of a `get` describe.
pub open spec fn described_get(raw_url: Seq<char>) -> Result<DescriptorView, ErrorView> {
    match url_parse_error(raw_url) {
        Some(reason) => Err(ErrorView::InvalidUrl(reason)),
        None => Ok(DescriptorView::Get { url: raw_url }),
    }
}

/// What the arguments of a `post` describe. The address is looked at
/// first, then the body arguments from left to right, and the first fault
/// found is the one reported.
pub open spec fn described_post(raw_url: Seq<char>, tokens: Seq<Seq<char>>) -> Result<
    DescriptorView,
    ErrorView,
> {
    match url_parse_error(raw_url) {
        Some(reason) => Err(ErrorView::InvalidUrl(reason)),
        None => match split_all(tokens) {
            Err(token) => Err(ErrorView::MalformedPair(token)),
            Ok(fields) => Ok(DescriptorView::Post { url: raw_url, fields }),
        },
    }
}

/// Validates the argument of a `get` and assembles its descriptor.
pub fn describe_get(raw_url: &str) -> (r: Result<RequestDescriptor, ClientError>)
    ensures
        match described_get(raw_url@) {
            Ok(descriptor) => r is Ok && r->Ok_0@ == descriptor && r->Ok_0.well_formed(),
            Err(e) => r is Err && r->Err_0@ == e,
        },
        !raw_url@.contains(':') ==> r is Err,
{
    match parse_url(raw_url) {
        Ok(url) => Ok(RequestDescriptor::get(url)),
        Err(e) => Err(e),
    }
}

/// Validates the arguments of a `post` and assembles its descriptor. An
/// empty list of body arguments is in order: the body is then the empty
/// object.
pub fn describe_post(raw_url: &str, tokens: &Vec<String>) -> (r: Result<
    RequestDescriptor,
    ClientError,
>)
    ensures
        match described_post(raw_url@, token_views(tokens@)) {
            Ok(descriptor) => r is Ok && r->Ok_0@ == descriptor && r->Ok_0.well_formed(),
            Err(e) => r is Err && r->Err_0@ == e,
        },
        !raw_url@.contains(':') ==> r is Err,
{
    let url = match parse_url(raw_url) {
        Ok(url) => url,
        Err(e) => {
            return Err(e);
        },
    };
    let ghost texts = token_views(tokens@);
    let mut fields: Vec<KvItem> = Vec::new();
    let mut i: usize = 0;
    assert(field_views(fields@) =~= Seq::<Field>::empty());
    while i < tokens.len()
        invariant
            i <= tokens.len(),
            texts == token_views(tokens@),
            url_parse_error(raw_url@) is None,
            split_all(texts.take(i as int)) == Ok::<Seq<Field>, Seq<char>>(field_views(fields@)),
        decreases tokens.len() - i,
    {
        let ghost before = field_views(fields@);
        proof {
            assert(texts.take(i + 1).drop_last() =~= texts.take(i as int));
        }
        match parse_kvs(tokens[i].as_str()) {
            Ok(field) => {
                fields.push(field);
                assert(field_views(fields@) =~= before.push(field@));
            },
            Err(e) => {
                proof {
                    assert(split_all(texts.take(i + 1)) == Err::<Seq<Field>, Seq<char>>(
                        texts[i as int],
                    ));
                    lemma_split_all_fails_on(texts, i + 1);
                }
                return Err(e);
            },
        }
        i = i + 1;
    }
    assert(texts.take(i as int) =~= texts);
    Ok(RequestDescriptor::post(url, fields))
}

/// A fault among the first `upto` arguments is the fault of the whole list.
proof fn lemma_split_all_fails_on(tokens: Seq<Seq<char>>, upto: int)
    requires
        0 <= upto <= tokens.len(),
        split_all(tokens.take(upto)) is Err,
    ensures
        split_all(tokens) == split_all(tokens.take(upto)),
    decreases tokens.len() - upto,
{
    if upto < tokens.len() {
        assert(tokens.take(upto + 1).drop_last() =~= tokens.take(upto));
        lemma_split_all_fails_on(tokens, upto + 1);
    } else {
        assert(tokens.take(upto) =~= tokens);
    }
}

} // verus!
