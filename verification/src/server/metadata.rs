//! Public IP discovery through the OCI instance metadata service.
//!
//! `GET http://169.254.169.254/opc/v2/vnics/` with `Authorization: Bearer Oracle` returns a JSON
//! array of VNICs; the primary VNIC's `publicIp` is the address the client must dial.
use vstd::prelude::*;

use crate::ip;
use crate::text;

verus! {

/// A JSON document, as far as a listing of objects is read from it.
pub enum Listing {
    /// Not JSON.
    Invalid,
    /// An array: for each element, the string under the key, if there is one.
    Array(Vec<Option<String>>),
    /// An object: the string under the key, if there is one.
    Object(Option<String>),
    /// Another JSON value.
    Other,
}

/// What a [`Listing`] holds.
#[verifier::ext_equal]
pub enum ListingView {
    Invalid,
    Array(Seq<Option<Seq<char>>>),
    Object(Option<Seq<char>>),
    Other,
}

/// The texts of some optional strings.
pub open spec fn opt_texts(v: Seq<Option<String>>) -> Seq<Option<Seq<char>>> {
    Seq::new(v.len(), |i: int| text::opt_text(v[i]))
}

impl View for Listing {
    type V = ListingView;

    open spec fn view(&self) -> ListingView {
        match self {
            Listing::Invalid => ListingView::Invalid,
            Listing::Array(v) => ListingView::Array(opt_texts(v@)),
            Listing::Object(o) => ListingView::Object(text::opt_text(*o)),
            Listing::Other => ListingView::Other,
        }
    }
}

/// What `serde_json` reads from a text, and the strings it finds under `key`.
pub uninterp spec fn json_listing(json: Seq<char>, key: Seq<char>) -> ListingView;

/// Reads a JSON document.
///
/// This is `serde_json::from_str` into a `serde_json::Value`, with `Value::get` and
/// `Value::as_str` on the document's elements, or on the document itself; the result is named.
#[verifier::external_body]
fn read_listing(json: &str, key: &str) -> (r: Listing)
    ensures
        r@ == json_listing(json@, key@),
{
    let entry = |v: &serde_json::Value| v.get(key).and_then(|s| s.as_str()).map(str::to_owned);
    match serde_json::from_str::<serde_json::Value>(json) {
        Err(_) => Listing::Invalid,
        Ok(serde_json::Value::Array(items)) => Listing::Array(items.iter().map(entry).collect()),
        Ok(object @ serde_json::Value::Object(_)) => Listing::Object(entry(&object)),
        Ok(_) => Listing::Other,
    }
}

/// The candidates of a listing, in order.
pub open spec fn candidates(l: ListingView) -> Seq<Option<Seq<char>>> {
    match l {
        ListingView::Array(v) => v,
        ListingView::Object(o) => seq![o],
        _ => Seq::empty(),
    }
}

/// The address that a candidate gives: trimmed, and an IP address of either family.
pub open spec fn usable(candidate: Option<Seq<char>>) -> Option<Seq<char>> {
    match candidate {
        Some(s) if ip::ipv4(text::trim(s)) is Some || ip::ipv6(text::trim(s)) is Some => Some(
            text::trim(s),
        ),
        _ => None,
    }
}

/// The first candidate that is usable.
pub open spec fn first_usable(v: Seq<Option<Seq<char>>>) -> Option<Seq<char>>
    decreases v.len(),
{
    if v.len() == 0 {
        None
    } else if usable(v.first()) is Some {
        usable(v.first())
    } else {
        first_usable(v.drop_first())
    }
}

fn usable_address(candidate: &Option<String>) -> (r: Option<String>)
    ensures
        text::opt_text(r) == usable(text::opt_text(*candidate)),
{
    match candidate {
        Some(s) => {
            let chars = text::chars_of(s.as_str());
            let t = text::trimmed(chars.as_slice());
            let address = text::string_of(t.as_slice());
            if ip::is_ip(address.as_str()) {
                Some(address)
            } else {
                None
            }
        },
        None => None,
    }
}

/// Picks the public address from a listing: the first candidate that is an IP address once
/// trimmed.
pub fn pick_public_ip(listing: &Listing) -> (r: Option<String>)
    ensures
        text::opt_text(r) == first_usable(candidates(listing@)),
{
    match listing {
        Listing::Array(v) => {
            let ghost all = opt_texts(v@);
            let mut i: usize = 0;
            assert(all.skip(0) =~= all);
            while i < v.len()
                invariant
                    all == opt_texts(v@),
                    all == candidates(listing@),
                    i <= v@.len(),
                    first_usable(all) == first_usable(all.skip(i as int)),
                decreases v@.len() - i,
            {
                assert(all.skip(i as int).first() == text::opt_text(v@[i as int]));
                assert(all.skip(i as int).drop_first() =~= all.skip(i + 1));
                let address = usable_address(&v[i]);
                if address.is_some() {
                    return address;
                }
                i = i + 1;
            }
            None
        },
        Listing::Object(o) => {
            let ghost all = seq![text::opt_text(*o)];
            assert(all.drop_first() =~= Seq::empty());
            reveal_with_fuel(first_usable, 2);
            usable_address(o)
        },
        _ => None,
    }
}

/// Extracts the first `publicIp` that is an address from the VNIC listing.
pub fn parse_public_ip(json: &str) -> (r: Option<String>)
    ensures
        text::opt_text(r) == first_usable(candidates(json_listing(json@, "publicIp"@))),
{
    let listing = read_listing(json, "publicIp");
    pick_public_ip(&listing)
}

/// What the reply of the metadata service is worth: the address, or what is wrong with it.
pub fn read_reply(success: bool, status: &str, body: &str) -> (r: Result<String, String>)
    ensures
        ({
            let shown = text::trim(body@);
            let found = first_usable(candidates(json_listing(body@, "publicIp"@)));
            match r {
                Ok(ip) => success && found == Some(ip@),
                Err(e) => if !success {
                    e@ == "metadata service returned "@ + status@ + ": "@ + shown
                } else {
                    found is None && e@ == "no publicIp in metadata response: "@ + shown
                },
            }
        }),
{
    let chars = text::chars_of(body);
    let trimmed = text::trimmed(chars.as_slice());
    let shown = text::string_of(trimmed.as_slice());
    if !success {
        let mut e = "metadata service returned ".to_owned();
        e.append(status);
        e.append(": ");
        e.append(shown.as_str());
        return Err(e);
    }
    match parse_public_ip(body) {
        Some(ip) => Ok(ip),
        None => {
            let mut e = "no publicIp in metadata response: ".to_owned();
            e.append(shown.as_str());
            Err(e)
        },
    }
}

/// What is picked is an IP address without white space around it.
pub proof fn picked_address_is_an_address(v: Seq<Option<Seq<char>>>)
    ensures
        first_usable(v) matches Some(a) ==> (ip::ipv4(a) is Some || ip::ipv6(a) is Some)
            && exists|i: int| 0 <= i < v.len() && usable(#[trigger] v[i]) == Some(a),
    decreases v.len(),
{
    if v.len() > 0 {
        if usable(v.first()) is Some {
            assert(usable(v[0]) is Some);
        } else {
            let w = v.drop_first();
            picked_address_is_an_address(w);
            if first_usable(w) is Some {
                let i = choose|i: int|
                    0 <= i < w.len() && usable(#[trigger] w[i]) == first_usable(w);
                assert(usable(v[i + 1]) == first_usable(w));
            }
        }
    }
}

/// What is picked comes from the first candidate that is an address once the white space around
/// it is gone; nothing is picked only if there is none.
pub proof fn first_address_is_picked(v: Seq<Option<Seq<char>>>, i: int)
    requires
        0 <= i < v.len(),
        forall|j: int| 0 <= j < i ==> !is_address(#[trigger] v[j]),
    ensures
        is_address(v[i]) ==> first_usable(v) == Some(text::trim(v[i]->0)),
        i == v.len() - 1 && !is_address(v[i]) ==> first_usable(v) is None,
    decreases v.len(),
{
    reveal_with_fuel(first_usable, 2);
    if i > 0 {
        let rest = v.drop_first();
        assert(!is_address(v[0]));
        assert forall|j: int| 0 <= j < i - 1 implies !is_address(#[trigger] rest[j]) by {
            assert(rest[j] == v[j + 1]);
        }
        first_address_is_picked(rest, i - 1);
        assert(rest[i - 1] == v[i]);
    } else if v.len() == 1 {
        assert(v.drop_first() =~= Seq::empty());
    }
}

/// A text is there, and an address of either family once the white space around it is gone.
pub open spec fn is_address(candidate: Option<Seq<char>>) -> bool {
    candidate is Some && (ip::ipv4(text::trim(candidate->0)) is Some || ip::ipv6(
        text::trim(candidate->0),
    ) is Some)
}

/// All elements of an array are candidates, in order; an object is the only one; nothing else
/// holds any.
pub proof fn candidates_are_the_elements(v: Seq<Option<Seq<char>>>, o: Option<Seq<char>>)
    ensures
        candidates(ListingView::Array(v)) == v,
        candidates(ListingView::Object(o)) == seq![o],
        candidates(ListingView::Invalid).len() == 0,
        candidates(ListingView::Other).len() == 0,
{
}

} // verus!
