//! A concrete request, the response to it, and the header list of both.

use vstd::prelude::*;
use crate::rockery_request_method::RequestMethod;
use crate::rockery_request_parameter::pairs_view;

verus! {

/// `ehttp::Headers`, a list of header pairs. Nothing is read from a value of
/// it here; what it holds is spoken of as `header_pairs`.
#[verifier::external_type_specification]
#[verifier::external_body]
pub struct ExHeaders(ehttp::Headers);

/// The key/value pairs that a header list holds in its field `headers`, in
/// the order in which they were inserted. Keys are kept as they were written.
pub uninterp spec fn header_pairs(headers: ehttp::Headers) -> Seq<(Seq<char>, Seq<char>)>;

/// `ehttp::Headers::new`, called on an empty slice: the new list holds no
/// pair.
#[verifier::external_body]
pub(crate) fn headers_new() -> (r: ehttp::Headers)
    ensures
        header_pairs(r) == Seq::<(Seq<char>, Seq<char>)>::empty(),
{
    ehttp::Headers::new(&[])
}

/// `ehttp::Headers::insert`: the pair is appended behind the pairs that the list
/// holds; a pair with the same key stays where it is.
#[verifier::external_body]
pub(crate) fn headers_insert(headers: &mut ehttp::Headers, key: &str, value: &str)
    ensures
        header_pairs(*final(headers)) == header_pairs(*old(headers)).push((key@, value@)),
{
    headers.insert(key, value)
}

/// A request that is ready to be sent.
#[derive(Debug)]
pub struct RockeryRequest {
    pub method: RequestMethod,
    pub url: String,
    pub headers: ehttp::Headers,
    pub body: Vec<u8>,
}

/// What came back for a request.
#[derive(Debug)]
pub struct RockeryResponse {
    pub status: u16,
    pub status_text: String,
    pub headers: ehttp::Headers,
    pub bytes: Vec<u8>,
}

/// Inserts the given pairs into a header list, in their order.
pub fn insert_headers(headers: &mut ehttp::Headers, pairs: &Vec<(String, String)>)
    ensures
        header_pairs(*final(headers)) == header_pairs(*old(headers))
            + pairs_view(pairs@),
{
    let mut i: usize = 0;
    assert(header_pairs(*headers) =~= header_pairs(*old(headers))
        + pairs_view(pairs@.take(0)));
    while i < pairs.len()
        invariant
            i <= pairs.len(),
            header_pairs(*headers) == header_pairs(*old(headers))
                + pairs_view(pairs@.take(i as int)),
        decreases pairs.len() - i,
    {
        let pair = &pairs[i];
        headers_insert(headers, pair.0.as_str(), pair.1.as_str());
        assert(pairs_view(pairs@.take(i + 1))
            =~= pairs_view(pairs@.take(i as int)).push(
            (pair.0@, pair.1@),
        ));
        assert(header_pairs(*headers) =~= header_pairs(*old(headers))
            + pairs_view(pairs@.take(i + 1)));
        i += 1;
    }
    assert(pairs@.take(i as int) =~= pairs@);
}

} // verus!
