//! Routing of RPC requests by their path, and the shape of JSON answers.
//!
//! A request path is matched segment by segment: a segment runs up to the
//! next `/` or the end, and matching it also consumes that `/`. The leading
//! `/` of the path is skipped first.

pub mod block;
pub mod monitor;

use crate::bytes::bytes_eq;
use crate::rpc::encoding::ErrorMessage;
use vstd::prelude::*;
use vstd::slice::{slice_subrange, slice_to_vec};
use vstd::string::{is_ascii, is_ascii_spec_bytes, StringSliceAdditionalSpecFns};

verus! {

/// The byte of `/`.
pub const SLASH: u8 = 47;

/// The number of bytes before the first `/` of `path`, or its length when
/// there is none.
pub open spec fn first_slash(path: Seq<u8>) -> nat
    decreases path.len(),
{
    if path.len() == 0 {
        0
    } else if path[0] == SLASH {
        0
    } else {
        1 + first_slash(path.drop_first())
    }
}

/// The first segment of `path`.
pub open spec fn segment(path: Seq<u8>) -> Seq<u8> {
    path.take(first_slash(path) as int)
}

/// What is left of `path` once its first segment and the `/` after it are
/// consumed.
pub open spec fn after_segment(path: Seq<u8>) -> Seq<u8> {
    let n = first_slash(path);
    if n == path.len() {
        Seq::empty()
    } else {
        path.skip(n as int + 1)
    }
}

/// Where matching starts: the path without its leading `/`.
pub open spec fn start_of(full_path: Seq<u8>) -> Seq<u8> {
    if full_path.len() > 0 && full_path[0] == SLASH {
        full_path.skip(1)
    } else {
        full_path
    }
}

/// The bytes of an ASCII text.
pub open spec fn ascii(text: Seq<char>) -> Seq<u8> {
    Seq::new(text.len(), |i: int| text[i] as u8)
}

/// Matching the segment `literal`: what is left after it, if the first
/// segment is `literal`.
pub open spec fn spec_exact(path: Seq<u8>, literal: Seq<char>) -> Option<Seq<u8>> {
    if segment(path) == ascii(literal) {
        Some(after_segment(path))
    } else {
        None
    }
}

/// Matching a parameter: the first segment and what is left after it, if
/// the segment is not empty.
pub open spec fn spec_param(path: Seq<u8>) -> Option<(Seq<u8>, Seq<u8>)> {
    if segment(path).len() > 0 {
        Some((segment(path), after_segment(path)))
    } else {
        None
    }
}

proof fn lemma_first_slash(path: Seq<u8>, i: int)
    requires
        0 <= i <= path.len(),
        forall|j: int| 0 <= j < i ==> path[j] != SLASH,
        i == path.len() || path[i] == SLASH,
    ensures
        first_slash(path) == i,
    decreases i,
{
    if i > 0 {
        let rest = path.drop_first();
        assert forall|j: int| 0 <= j < i - 1 implies rest[j] != SLASH by {
            assert(rest[j] == path[j + 1]);
        }
        if i < path.len() {
            assert(rest[i - 1] == path[i]);
        }
        lemma_first_slash(rest, i - 1);
    }
}

/// The length of the first segment of `path`.
fn segment_len(path: &[u8]) -> (n: usize)
    ensures
        n == first_slash(path@),
        n <= path@.len(),
{
    let mut i: usize = 0;
    while i < path.len() && path[i] != SLASH
        invariant
            i <= path@.len(),
            forall|j: int| 0 <= j < i ==> path@[j] != SLASH,
        decreases path.len() - i,
    {
        i = i + 1;
    }
    proof {
        lemma_first_slash(path@, i as int);
    }
    i
}

/// The first segment of `path` and what is left after it.
fn split_segment(path: &[u8]) -> (parts: (&[u8], &[u8]))
    ensures
        parts.0@ == segment(path@),
        parts.1@ == after_segment(path@),
{
    let n = segment_len(path);
    let seg = slice_subrange(path, 0, n);
    if n == path.len() {
        let rest = slice_subrange(path, n, n);
        assert(rest@ =~= Seq::<u8>::empty());
        (seg, rest)
    } else {
        let rest = slice_subrange(path, n + 1, path.len());
        assert(rest@ =~= path@.skip(n + 1));
        (seg, rest)
    }
}

/// Where matching starts in `full_path`.
pub fn start(full_path: &[u8]) -> (rest: &[u8])
    ensures
        rest@ == start_of(full_path@),
{
    if full_path.len() > 0 && full_path[0] == SLASH {
        let rest = slice_subrange(full_path, 1, full_path.len());
        assert(rest@ =~= full_path@.skip(1));
        rest
    } else {
        full_path
    }
}

/// Matches the segment `literal` at the start of `path`.
pub fn exact<'a>(path: &'a [u8], literal: &str) -> (rest: Option<&'a [u8]>)
    requires
        is_ascii(literal),
    ensures
        match rest {
            Some(r) => spec_exact(path@, literal@) == Some(r@),
            None => spec_exact(path@, literal@) is None,
        },
{
    proof {
        is_ascii_spec_bytes(literal);
        assert(literal.spec_bytes() =~= ascii(literal@));
    }
    let (seg, rest) = split_segment(path);
    if bytes_eq(seg, literal.as_bytes()) {
        Some(rest)
    } else {
        None
    }
}

/// Matches a parameter at the start of `path`.
pub fn param<'a>(path: &'a [u8]) -> (res: Option<(Vec<u8>, &'a [u8])>)
    ensures
        match res {
            Some((value, r)) => spec_param(path@) == Some((value@, r@)),
            None => spec_param(path@) is None,
        },
{
    let (seg, rest) = split_segment(path);
    if seg.len() > 0 {
        Some((slice_to_vec(seg), rest))
    } else {
        None
    }
}

/// The answer to a request whose handler gave `T` or failed with a message.
pub enum JsonReply<T> {
    Success(T),
    Failure(ErrorMessage),
}

/// HTTP status of a successful answer.
pub const STATUS_OK: u16 = 200;

/// HTTP status of a failed answer.
pub const STATUS_INTERNAL_SERVER_ERROR: u16 = 500;

impl<T> JsonReply<T> {
    /// The HTTP status the answer is sent with.
    pub fn status(&self) -> (code: u16)
        ensures
            code == match self {
                JsonReply::Success(_) => STATUS_OK,
                JsonReply::Failure(_) => STATUS_INTERNAL_SERVER_ERROR,
            },
    {
        match self {
            JsonReply::Success(_) => STATUS_OK,
            JsonReply::Failure(_) => STATUS_INTERNAL_SERVER_ERROR,
        }
    }
}

/// The answer for a handler's result: the value on success; on failure an
/// error body with code 500 and the error's message.
pub fn result_as_json<T>(res: Result<T, String>) -> (reply: JsonReply<T>)
    ensures
        match res {
            Ok(value) => reply == JsonReply::<T>::Success(value),
            Err(message) => reply matches JsonReply::Failure(body) && body.code
                == STATUS_INTERNAL_SERVER_ERROR && body.message@ == message@,
        },
{
    match res {
        Ok(value) => JsonReply::Success(value),
        Err(message) => JsonReply::Failure(ErrorMessage { code: STATUS_INTERNAL_SERVER_ERROR, message }),
    }
}

/// Whether `bytes` holds no `/`.
pub open spec fn no_slash(bytes: Seq<u8>) -> bool {
    forall|j: int| 0 <= j < bytes.len() ==> bytes[j] != SLASH
}

/// `first` and `rest` with a `/` between them.
pub open spec fn join(first: Seq<u8>, rest: Seq<u8>) -> Seq<u8> {
    first + seq![SLASH] + rest
}

proof fn lemma_split_join(first: Seq<u8>, rest: Seq<u8>)
    requires
        no_slash(first),
    ensures
        segment(join(first, rest)) == first,
        after_segment(join(first, rest)) == rest,
{
    let p = join(first, rest);
    assert forall|j: int| 0 <= j < first.len() implies p[j] != SLASH by {
        assert(p[j] == first[j]);
    }
    assert(p[first.len() as int] == SLASH);
    lemma_first_slash(p, first.len() as int);
    assert(p.take(first.len() as int) =~= first);
    assert(p.skip(first.len() as int + 1) =~= rest);
}

proof fn lemma_split_last(last: Seq<u8>)
    requires
        no_slash(last),
    ensures
        segment(last) == last,
        after_segment(last) == Seq::<u8>::empty(),
{
    lemma_first_slash(last, last.len() as int);
    assert(last.take(last.len() as int) =~= last);
}

/// Matching a parameter hands over the whole first segment, whatever its
/// length, and leaves what follows the `/` after it; a path made of one
/// segment leaves nothing.
pub proof fn law_param_takes_whole_segment(value: Seq<u8>, rest: Seq<u8>)
    requires
        value.len() > 0,
        no_slash(value),
    ensures
        spec_param(join(value, rest)) == Some((value, rest)),
        spec_param(value) == Some((value, Seq::<u8>::empty())),
{
    lemma_split_join(value, rest);
    lemma_split_last(value);
}

/// A parameter is never empty: a path that starts with `/`, or is empty,
/// gives none.
pub proof fn law_param_is_not_empty(rest: Seq<u8>)
    ensures
        spec_param(seq![SLASH] + rest) is None,
        spec_param(Seq::<u8>::empty()) is None,
{
    lemma_split_join(Seq::<u8>::empty(), rest);
    assert(seq![SLASH] + rest =~= join(Seq::<u8>::empty(), rest));
    lemma_split_last(Seq::<u8>::empty());
}

/// Matching a literal segment consumes exactly that segment and the `/`
/// after it, and refuses any other first segment.
pub proof fn law_exact_consumes_its_segment(literal: Seq<char>, first: Seq<u8>, rest: Seq<u8>)
    requires
        no_slash(first),
    ensures
        spec_exact(join(first, rest), literal) == if first == ascii(literal) {
            Some(rest)
        } else {
            None::<Seq<u8>>
        },
        spec_exact(first, literal) == if first == ascii(literal) {
            Some(Seq::<u8>::empty())
        } else {
            None::<Seq<u8>>
        },
{
    lemma_split_join(first, rest);
    lemma_split_last(first);
}

/// Matching starts after the leading `/`.
pub proof fn law_start_skips_leading_slash(path: Seq<u8>)
    ensures
        start_of(seq![SLASH] + path) == path,
{
    assert((seq![SLASH] + path).skip(1) =~= path);
}

} // verus!
