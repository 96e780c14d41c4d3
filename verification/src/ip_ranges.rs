//! The secure-local-channel service: given an AWS region, it answers with
//! the address ranges that AWS publishes for S3 in that region.

use vstd::prelude::*;
use crate::json::{json_encode_strings, json_string_array, strings_view};
use crate::text::{decode_utf8_lossy, trim, trim_text, utf8_lossy};

verus! {

/// The size of the buffer a query is read into.
pub const QUERY_BUFFER_LEN: usize = 1024;

/// One entry of the published AWS IP address ranges.
#[derive(Debug, Clone, PartialEq, Eq)]
pub struct Prefix {
    pub ip_prefix: String,
    pub region: String,
    pub service: String,
}

/// The entry is an S3 range in `region`.
pub open spec fn is_s3_range_in(p: Prefix, region: Seq<char>) -> bool {
    p.service@ == "S3"@ && p.region@ == region
}

/// The address range of the entry when it is an S3 range in `region`.
pub open spec fn s3_range_in(region: Seq<char>) -> spec_fn(Prefix) -> Option<Seq<char>> {
    |p: Prefix| if is_s3_range_in(p, region) { Some(p.ip_prefix@) } else { None }
}

/// The address ranges of the S3 entries of `prefixes` in `region`, in the
/// order they are listed.
pub open spec fn s3_ranges(prefixes: Seq<Prefix>, region: Seq<char>) -> Seq<Seq<char>> {
    prefixes.filter_map(s3_range_in(region))
}

/// `r` is the address range of an entry whose service is exactly `S3` and
/// whose region is exactly `region`.
pub open spec fn listed_s3_range(prefixes: Seq<Prefix>, region: Seq<char>, r: Seq<char>) -> bool {
    exists|i: int|
        0 <= i < prefixes.len() && prefixes[i].service@ == "S3"@ && prefixes[i].region@ == region
            && #[trigger] prefixes[i].ip_prefix@ == r
}

proof fn lemma_answer_exact(prefixes: Seq<Prefix>, region: Seq<char>, ips: Seq<String>)
    requires
        strings_view(ips) == s3_ranges(prefixes, region),
    ensures
        forall|k: int| 0 <= k < ips.len() ==> listed_s3_range(prefixes, region, (#[trigger] ips[k])@),
        forall|i: int|
            0 <= i < prefixes.len() && (#[trigger] prefixes[i]).service@ == "S3"@
                && prefixes[i].region@ == region ==> exists|k: int|
                0 <= k < ips.len() && ips[k]@ == prefixes[i].ip_prefix@,
{
    crate::laws::law_s3_ranges_exact(prefixes, region);
    let out = strings_view(ips);
    assert forall|k: int| 0 <= k < ips.len() implies listed_s3_range(
        prefixes,
        region,
        (#[trigger] ips[k])@,
    ) by {
        assert(out[k] == ips[k]@);
        assert(out.contains(ips[k]@));
        let i = choose|i: int|
            0 <= i < prefixes.len() && (#[trigger] prefixes[i]).service@ == "S3"@
                && prefixes[i].region@ == region && prefixes[i].ip_prefix@ == ips[k]@;
        assert(prefixes[i].ip_prefix@ == ips[k]@);
    }
    assert forall|i: int|
        0 <= i < prefixes.len() && (#[trigger] prefixes[i]).service@ == "S3"@
            && prefixes[i].region@ == region implies exists|k: int|
        0 <= k < ips.len() && ips[k]@ == prefixes[i].ip_prefix@ by {
        assert(out.contains(prefixes[i].ip_prefix@));
        let k = choose|k: int| 0 <= k < out.len() && out[k] == prefixes[i].ip_prefix@;
        assert(ips[k]@ == out[k]);
    }
}

/// The address ranges of the S3 entries of `prefixes` in `region`, in order.
pub fn get_s3_ip_by_region(prefixes: &Vec<Prefix>, region: &str) -> (ips: Vec<String>)
    ensures
        strings_view(ips@) == s3_ranges(prefixes@, region@),
        forall|k: int| 0 <= k < ips@.len() ==> listed_s3_range(prefixes@, region@, (#[trigger] ips@[k])@),
        forall|i: int|
            0 <= i < prefixes@.len() && (#[trigger] prefixes@[i]).service@ == "S3"@
                && prefixes@[i].region@ == region@ ==> exists|k: int|
                0 <= k < ips@.len() && ips@[k]@ == prefixes@[i].ip_prefix@,
{
    let s3 = String::from_str("S3");
    let wanted = String::from_str(region);
    let mut ips: Vec<String> = Vec::new();
    let mut i: usize = 0;
    while i < prefixes.len()
        invariant
            i <= prefixes.len(),
            s3@ == "S3"@,
            wanted@ == region@,
            strings_view(ips@) == s3_ranges(prefixes@.take(i as int), region@),
        decreases prefixes.len() - i,
    {
        let p = &prefixes[i];
        assert(prefixes@.take(i + 1).drop_last() =~= prefixes@.take(i as int));
        assert(prefixes@.take(i + 1).last() == prefixes@[i as int]);
        if p.service == s3 && p.region == wanted {
            ips.push(p.ip_prefix.clone());
            assert(strings_view(ips@) =~= s3_ranges(prefixes@.take(i + 1), region@));
        }
        i = i + 1;
    }
    assert(prefixes@.take(prefixes.len() as int) =~= prefixes@);
    proof {
        lemma_answer_exact(prefixes@, region@, ips@);
    }
    ips
}

/// The region a client asked for: the received bytes read as UTF-8 (invalid
/// sequences replaced) and trimmed; `None` for an empty request.
pub fn region_query(request: &[u8]) -> (q: Option<String>)
    ensures
        match q {
            Some(s) => request@.len() > 0 && s@ == trim(utf8_lossy(request@)),
            None => request@.len() == 0,
        },
{
    if request.len() == 0 {
        None
    } else {
        let text = decode_utf8_lossy(request);
        Some(trim_text(text.as_str()))
    }
}

/// The answer to a query for `region`: the JSON array of the S3 address
/// ranges in that region. Encoding a list of strings does not fail.
pub fn region_response(prefixes: &Vec<Prefix>, region: &str) -> (r: Result<Vec<u8>, String>)
    ensures
        r is Ok,
        r is Ok ==> r->Ok_0@ == json_string_array(s3_ranges(prefixes@, region@)),
{
    let ips = get_s3_ip_by_region(prefixes, region);
    json_encode_strings(&ips)
}

} // verus!
