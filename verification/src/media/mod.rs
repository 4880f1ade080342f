//! Speech, transcription and images: the requests to their providers, and
//! what the answers hold.
pub mod images;
pub mod transcribe;
pub mod tts;

use vstd::prelude::*;

use crate::text::string_of;

verus! {

/// A text without the slashes at its end.
pub open spec fn without_end_slashes(s: Seq<char>) -> Seq<char>
    decreases s.len(),
{
    if s.len() > 0 && s.last() == '/' {
        without_end_slashes(s.drop_last())
    } else {
        s
    }
}

/// The address of an endpoint below a base address.
pub open spec fn endpoint(base_url: Seq<char>, path: Seq<char>) -> Seq<char> {
    without_end_slashes(base_url) + path
}

/// The address of an endpoint below a base address.
pub fn endpoint_url(base_url: &str, path: &str) -> (r: String)
    ensures
        r@ == endpoint(base_url@, path@),
{
    let v: Vec<char> = crate::text::chars_of(base_url);
    let mut n: usize = v.len();
    assert(v@.take(n as int) =~= v@);
    while n > 0 && v[n - 1] == '/'
        invariant
            n <= v@.len(),
            v@ == base_url@,
            without_end_slashes(v@) == without_end_slashes(v@.take(n as int)),
        decreases n,
    {
        assert(v@.take(n as int).drop_last() =~= v@.take(n - 1));
        n = n - 1;
    }
    assert(v@.subrange(0, n as int) =~= v@.take(n as int));
    let mut t: String = string_of(&v, 0, n);
    t.append(path);
    t
}

/// What an API error says.
pub open spec fn api_error(service: Seq<char>, status: Seq<char>, detail: Seq<char>) -> Seq<char> {
    service + ": API error "@ + status + ": "@ + detail
}

/// What an API error says.
pub fn api_error_text(service: &str, status: &str, detail: &str) -> (r: String)
    ensures
        r@ == api_error(service@, status@, detail@),
{
    let mut t: String = service.to_owned();
    t.append(": API error ");
    t.append(status);
    t.append(": ");
    t.append(detail);
    t
}

proof fn lemma_without_end_slashes(s: Seq<char>)
    ensures
        without_end_slashes(s).len() <= s.len(),
        without_end_slashes(s) == s.take(without_end_slashes(s).len() as int),
        forall|i: int| without_end_slashes(s).len() <= i < s.len() ==> #[trigger] s[i] == '/',
        without_end_slashes(s).len() > 0 ==> without_end_slashes(s).last() != '/',
    decreases s.len(),
{
    if s.len() > 0 && s.last() == '/' {
        let rest = s.drop_last();
        lemma_without_end_slashes(rest);
        let k = without_end_slashes(s).len() as int;
        assert(rest.take(k) =~= s.take(k));
        assert forall|i: int| k <= i < s.len() implies #[trigger] s[i] == '/' by {
            if i < rest.len() {
                assert(rest[i] == '/');
            }
        }
    } else {
        assert(s.take(s.len() as int) =~= s);
    }
}

/// An address is the base without the slashes at its end, and the path.
pub proof fn law_addresses(base_url: &str, path: &str, r: String, stem: Seq<char>)
    requires
        call_ensures(endpoint_url, (base_url, path), r),
        stem.len() == 0 || stem.last() != '/',
        stem.len() <= base_url@.len(),
        stem == base_url@.take(stem.len() as int),
        forall|i: int| stem.len() <= i < base_url@.len() ==> #[trigger] base_url@[i] == '/',
    ensures
        r@ == stem + path@,
{
    let s = base_url@;
    lemma_without_end_slashes(s);
    let k = without_end_slashes(s).len() as int;
    if k < stem.len() {
        assert(s[stem.len() - 1] == '/');
        assert(stem.last() == s[stem.len() - 1]);
    } else if stem.len() < k {
        assert(s[k - 1] == '/');
        assert(without_end_slashes(s).last() == s[k - 1]);
    }
}

/// How an error of a service is told.
pub proof fn law_service_errors(service: &str, status: &str, detail: &str, r: String)
    requires
        call_ensures(api_error_text, (service, status, detail), r),
    ensures
        r@ == service@ + ": API error "@ + status@ + ": "@ + detail@,
{
}

} // verus!
