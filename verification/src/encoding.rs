//! The choice of a content encoding among those that a client accepts.

use crate::text::{same, scan, split, split_from, strip_all, without, Stop};
use vstd::prelude::*;
use vstd::slice::slice_subrange;
use vstd::string::*;

verus! {

/// Whether `token` names one of the encodings that the server knows.
pub open spec fn supported(token: Seq<char>) -> bool {
    ||| token == "gzip"@
    ||| token == "deflate"@
    ||| token == "compress"@
    ||| token == "br"@
    ||| token == "zstd"@
    ||| token == "exi"@
    ||| token == "identity"@
    ||| token == "pack200-gzip"@
}

/// The first of `tokens` that names a known encoding, or the empty sequence
/// if none does.
pub open spec fn first_supported(tokens: Seq<Seq<char>>) -> Seq<char>
    decreases tokens.len(),
{
    if tokens.len() == 0 {
        Seq::empty()
    } else if supported(tokens[0]) {
        tokens[0]
    } else {
        first_supported(tokens.drop_first())
    }
}

/// The encoding chosen for the list `offer` of a client: spaces are taken
/// out, the list is cut at its commas, and the first known name wins. The
/// order is the client's; weights are not read.
pub open spec fn negotiated(offer: Seq<char>) -> Seq<char> {
    first_supported(split(without(offer, ' '), ','))
}

/// The first known name among `tokens` is a known name, or there is none.
pub proof fn lemma_first_supported(tokens: Seq<Seq<char>>)
    ensures
        first_supported(tokens).len() == 0 || supported(first_supported(tokens)),
        first_supported(tokens).len() > 0 ==> tokens.contains(first_supported(tokens)),
    decreases tokens.len(),
{
    if tokens.len() > 0 && !supported(tokens[0]) {
        lemma_first_supported(tokens.drop_first());
        let found = first_supported(tokens.drop_first());
        if found.len() > 0 {
            let rest = tokens.drop_first();
            let i = choose|i: int| 0 <= i < rest.len() && rest[i] == found;
            assert(tokens[i + 1] == found);
        }
    }
}

/// The encoding chosen for a list is a known one, or none.
pub proof fn lemma_negotiated_is_supported(offer: Seq<char>)
    ensures
        negotiated(offer).len() == 0 || supported(negotiated(offer)),
{
    lemma_first_supported(split(without(offer, ' '), ','));
}

/// The known encoding that `token` names, if it names one.
pub fn supported_name(token: &[char]) -> (r: Option<&'static str>)
    ensures
        match r {
            Some(name) => supported(token@) && name@ == token@,
            None => !supported(token@),
        },
{
    if same(token, "gzip") {
        Some("gzip")
    } else if same(token, "deflate") {
        Some("deflate")
    } else if same(token, "compress") {
        Some("compress")
    } else if same(token, "br") {
        Some("br")
    } else if same(token, "zstd") {
        Some("zstd")
    } else if same(token, "exi") {
        Some("exi")
    } else if same(token, "identity") {
        Some("identity")
    } else if same(token, "pack200-gzip") {
        Some("pack200-gzip")
    } else {
        None
    }
}

/// Chooses the encoding for the list `offer` of a client.
pub fn negotiate(offer: &[char]) -> (r: String)
    ensures
        r@ == negotiated(offer@),
{
    let list = strip_all(offer, ' ');
    let s = list.as_slice();
    let mut from: usize = 0;
    loop
        invariant
            from <= s.len(),
            s@ == without(offer@, ' '),
            first_supported(split_from(s@, ',', from as int)) == negotiated(offer@),
        decreases s.len() - from,
    {
        let n: usize = scan(s, Stop::At(','), from);
        let token = slice_subrange(s, from, n);
        proof {
            let tokens = split_from(s@, ',', from as int);
            if n < s.len() {
                let rest = split_from(s@, ',', n + 1);
                assert(tokens.drop_first() == rest);
            } else {
                assert(first_supported(tokens.drop_first()) == Seq::<char>::empty());
            }
        }
        match supported_name(token) {
            Some(name) => {
                return String::from_str(name);
            },
            None => {},
        }
        if n >= s.len() {
            return String::new();
        }
        from = n + 1;
    }
}

} // verus!
