//! Reading the tenant host out of a request's `Host` header.
use vstd::prelude::*;
use vstd::string::*;
use crate::text::chars_of;

verus! {

/// The part of a `Host` header value before its first `:` (the port, if any,
/// is dropped).
pub open spec fn host_part(header: Seq<char>) -> Seq<char>
    decreases header.len(),
{
    if header.len() == 0 || header[0] == ':' {
        Seq::<char>::empty()
    } else {
        seq![header[0]] + host_part(header.drop_first())
    }
}

/// The tenant host named by a `Host` header, if the header is there and names
/// a non-empty host.
pub open spec fn request_host(header: Option<Seq<char>>) -> Option<Seq<char>> {
    match header {
        Some(h) => if host_part(h).len() > 0 {
            Some(host_part(h))
        } else {
            None
        },
        None => None,
    }
}

/// `host_part` is the prefix up to the first `:`.
proof fn lemma_host_part_prefix(header: Seq<char>, k: int)
    requires
        0 <= k <= header.len(),
        forall|j: int| 0 <= j < k ==> header[j] != ':',
        k == header.len() || header[k] == ':',
    ensures
        host_part(header) == header.subrange(0, k),
    decreases header.len(),
{
    if header.len() > 0 && header[0] != ':' {
        let rest = header.drop_first();
        lemma_host_part_prefix(rest, k - 1);
        assert(seq![header[0]] + rest.subrange(0, k - 1) =~= header.subrange(0, k));
    } else {
        assert(header.subrange(0, k) =~= Seq::<char>::empty());
    }
}

/// The host of a `Host` header value: what precedes the first `:`. `None` when
/// that is empty.
pub fn get_host(header: &str) -> (r: Option<String>)
    ensures
        match r {
            Some(h) => request_host(Some(header@)) == Some(h@),
            None => request_host(Some(header@)) is None,
        },
{
    let chars = chars_of(header);
    let mut k: usize = 0;
    while k < chars.len() && chars[k] != ':'
        invariant
            k <= chars@.len(),
            chars@ == header@,
            forall|j: int| 0 <= j < k ==> header@[j] != ':',
        decreases chars@.len() - k,
    {
        k = k + 1;
    }
    proof {
        lemma_host_part_prefix(header@, k as int);
    }
    if k == 0 {
        None
    } else {
        let host = header.substring_char(0, k);
        Some(String::from_str(host))
    }
}

} // verus!
