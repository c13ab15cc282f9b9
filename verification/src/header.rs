//! Header fields, and how a header is found by name.

use vstd::prelude::*;

verus! {

/// One header field, as sent or received.
#[derive(Clone, Debug, PartialEq, Eq)]
pub struct Header {
    pub name: String,
    pub value: String,
}

impl View for Header {
    type V = (Seq<char>, Seq<char>);

    open spec fn view(&self) -> (Seq<char>, Seq<char>) {
        (self.name@, self.value@)
    }
}

/// The headers of a message as contracts speak of them: name and value of
/// each, in order.
pub open spec fn header_views(headers: Seq<Header>) -> Seq<(Seq<char>, Seq<char>)> {
    headers.map_values(|h: Header| h@)
}

/// `c` with an ASCII capital letter replaced by its small letter.
pub open spec fn ascii_lower(c: char) -> char {
    if 'A' <= c <= 'Z' {
        ((c as u8) + 32) as char
    } else {
        c
    }
}

/// Whether two header names are the same name: header names do not
/// distinguish ASCII capitals from small letters.
pub open spec fn same_name(a: Seq<char>, b: Seq<char>) -> bool {
    &&& a.len() == b.len()
    &&& forall|i: int| 0 <= i < a.len() ==> ascii_lower(#[trigger] a[i]) == ascii_lower(b[i])
}

/// Lowers one character as `ascii_lower` says.
fn lower(c: char) -> (l: char)
    ensures
        l == ascii_lower(c),
{
    if 'A' <= c && c <= 'Z' {
        ((c as u8) + 32) as char
    } else {
        c
    }
}

/// Compares two header names, ignoring the case of ASCII letters.
pub fn names_match(a: &str, b: &str) -> (same: bool)
    ensures
        same == same_name(a@, b@),
{
    let len: usize = a.unicode_len();
    if b.unicode_len() != len {
        return false;
    }
    let mut i: usize = 0;
    while i < len
        invariant
            i <= len == a@.len() == b@.len(),
            forall|j: int| 0 <= j < i ==> ascii_lower(#[trigger] a@[j]) == ascii_lower(b@[j]),
        decreases len - i,
    {
        if lower(a.get_char(i)) != lower(b.get_char(i)) {
            return false;
        }
        i = i + 1;
    }
    true
}

/// The position of the first header at or after `from` that goes by `name`.
pub open spec fn header_index(
    headers: Seq<(Seq<char>, Seq<char>)>,
    name: Seq<char>,
    from: int,
) -> Option<int>
    decreases headers.len() - from,
{
    if from >= headers.len() {
        None
    } else if same_name(headers[from].0, name) {
        Some(from)
    } else {
        header_index(headers, name, from + 1)
    }
}

/// The value of the first header that goes by `name`, if there is one.
/// Later headers of the same name are not consulted.
pub open spec fn header_value(headers: Seq<(Seq<char>, Seq<char>)>, name: Seq<char>) -> Option<
    Seq<char>,
> {
    match header_index(headers, name, 0) {
        Some(i) => Some(headers[i].1),
        None => None,
    }
}

/// `header_index` finds the least position at or after `from` whose header
/// goes by `name`, and finds none only where there is none.
pub proof fn lemma_header_index(headers: Seq<(Seq<char>, Seq<char>)>, name: Seq<char>, from: int)
    requires
        0 <= from <= headers.len(),
    ensures
        match header_index(headers, name, from) {
            Some(i) => {
                &&& from <= i < headers.len()
                &&& same_name(headers[i].0, name)
                &&& forall|j: int| from <= j < i ==> !same_name(#[trigger] headers[j].0, name)
            },
            None => forall|j: int|
                from <= j < headers.len() ==> !same_name(#[trigger] headers[j].0, name),
        },
    decreases headers.len() - from,
{
    if from < headers.len() && !same_name(headers[from].0, name) {
        lemma_header_index(headers, name, from + 1);
    }
}

/// Looks a header up by name and hands out the value of its first
/// occurrence.
pub fn find_header<'a>(headers: &'a Vec<Header>, name: &str) -> (found: Option<&'a str>)
    ensures
        match header_value(header_views(headers@), name@) {
            Some(value) => found is Some && found->0@ == value,
            None => found is None,
        },
        found is None <==> forall|j: int|
            0 <= j < headers.len() ==> !same_name(#[trigger] headers[j].name@, name@),
{
    let ghost views = header_views(headers@);
    proof {
        lemma_header_index(views, name@, 0);
        if header_index(views, name@, 0) is None {
            assert forall|j: int| 0 <= j < headers.len() implies !same_name(
                #[trigger] headers[j].name@,
                name@,
            ) by {
                assert(views[j].0 == headers[j].name@);
            }
        }
    }
    let mut i: usize = 0;
    while i < headers.len()
        invariant
            i <= headers.len(),
            views == header_views(headers@),
            header_index(views, name@, 0) == header_index(views, name@, i as int),
        decreases headers.len() - i,
    {
        if names_match(headers[i].name.as_str(), name) {
            return Some(headers[i].value.as_str());
        }
        i = i + 1;
    }
    None
}

/// The headers that every outbound request carries, whatever its method: a
/// marker of the client and its user agent.
pub open spec fn default_header_set() -> Seq<(Seq<char>, Seq<char>)> {
    seq![("X-POWERED-BY"@, "Rust"@), ("user-agent"@, "Rust Httpie"@)]
}

/// Builds the default header set, to be attached to the transport once,
/// when it is made.
pub fn default_headers() -> (headers: Vec<Header>)
    ensures
        header_views(headers@) == default_header_set(),
{
    let mut headers: Vec<Header> = Vec::new();
    headers.push(
        Header { name: String::from_str("X-POWERED-BY"), value: String::from_str("Rust") },
    );
    headers.push(
        Header { name: String::from_str("user-agent"), value: String::from_str("Rust Httpie") },
    );
    headers
}

} // verus!
