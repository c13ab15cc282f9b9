//! Body arguments of the form `key=value`.

use vstd::prelude::*;
use crate::error::ClientError;
use crate::error::ErrorView;

verus! {

/// One body field: a key and the value given for it.
#[derive(Clone, Debug, PartialEq, Eq)]
pub struct KvItem {
    pub key: String,
    pub value: String,
}

impl View for KvItem {
    type V = (Seq<char>, Seq<char>);

    open spec fn view(&self) -> (Seq<char>, Seq<char>) {
        (self.key@, self.value@)
    }
}

/// The position of the first `=` in `s` at or after `from`, or the length of
/// `s` where there is none.
pub open spec fn segment_end(s: Seq<char>, from: int) -> int
    decreases s.len() - from,
{
    if from >= s.len() {
        s.len() as int
    } else if s[from] == '=' {
        from
    } else {
        segment_end(s, from + 1)
    }
}

/// What a token splits into: the text before its first `=` and the segment
/// that follows, which ends at the next `=` or at the end of the token.
/// A token without `=` splits into nothing.
pub open spec fn split_pair(s: Seq<char>) -> Option<(Seq<char>, Seq<char>)> {
    let first = segment_end(s, 0);
    if first >= s.len() {
        None
    } else {
        Some((s.subrange(0, first), s.subrange(first + 1, segment_end(s, first + 1))))
    }
}

/// `segment_end` is the least position at or after `from` that holds `=`.
pub proof fn lemma_segment_end(s: Seq<char>, from: int)
    requires
        0 <= from <= s.len(),
    ensures
        from <= segment_end(s, from) <= s.len(),
        segment_end(s, from) < s.len() ==> s[segment_end(s, from)] == '=',
        forall|j: int| from <= j < segment_end(s, from) ==> s[j] != '=',
    decreases s.len() - from,
{
    if from < s.len() && s[from] != '=' {
        lemma_segment_end(s, from + 1);
    }
}

/// A token that holds `=` splits, and its key is the text before the first
/// `=`.
pub proof fn lemma_key_precedes_first_separator(s: Seq<char>, at: int)
    requires
        0 <= at < s.len(),
        s[at] == '=',
        forall|j: int| 0 <= j < at ==> s[j] != '=',
    ensures
        split_pair(s) matches Some(pair) && pair.0 == s.subrange(0, at),
{
    lemma_segment_end(s, 0);
}

/// A token splits exactly when it holds `=`.
pub proof fn lemma_splits_iff_separator(s: Seq<char>)
    ensures
        split_pair(s) is Some <==> s.contains('='),
{
    lemma_segment_end(s, 0);
}

/// Finds the first `=` at or after `from`.
fn find_separator(s: &str, from: usize, len: usize) -> (at: usize)
    requires
        from <= len == s@.len(),
    ensures
        at == segment_end(s@, from as int),
{
    let mut i: usize = from;
    while i < len
        invariant
            from <= i <= len == s@.len(),
            segment_end(s@, from as int) == segment_end(s@, i as int),
        decreases len - i,
    {
        if s.get_char(i) == '=' {
            return i;
        }
        i = i + 1;
    }
    i
}

impl KvItem {
    /// Splits a token on its first `=`.
    ///
    /// The key is what stands before the first `=`, the value the segment
    /// after it, up to the next `=` if there is one. A token without `=` is
    /// refused, and the error names it.
    pub fn from_str(s: &str) -> (r: Result<KvItem, ClientError>)
        ensures
            r is Ok <==> s@.contains('='),
            match split_pair(s@) {
                Some(pair) => r is Ok && r->Ok_0@ == pair,
                None => r is Err && r->Err_0@ == ErrorView::MalformedPair(s@),
            },
    {
        proof {
            lemma_splits_iff_separator(s@);
        }
        let len: usize = s.unicode_len();
        let first: usize = find_separator(s, 0, len);
        if first >= len {
            return Err(ClientError::MalformedPair { token: String::from_str(s) });
        }
        proof {
            lemma_segment_end(s@, first + 1);
        }
        let second: usize = find_separator(s, first + 1, len);
        Ok(
            KvItem {
                key: String::from_str(s.substring_char(0, first)),
                value: String::from_str(s.substring_char(first + 1, second)),
            },
        )
    }
}

/// Parses one body argument.
pub fn parse_kvs(s: &str) -> (r: Result<KvItem, ClientError>)
    ensures
        r is Ok <==> s@.contains('='),
        match split_pair(s@) {
            Some(pair) => r is Ok && r->Ok_0@ == pair,
            None => r is Err && r->Err_0@ == ErrorView::MalformedPair(s@),
        },
{
    KvItem::from_str(s)
}

} // verus!
