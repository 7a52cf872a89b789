//! The map shown for guessing and the map that shows a guess.

use vstd::prelude::*;

use base64::Engine;

verus! {

/// The standard Base64 encoding, with padding, of some bytes.
pub uninterp spec fn base64_standard(bytes: Seq<u8>) -> Seq<char>;

/// Relies on base64's STANDARD engine `encode`: the text depends on the bytes
/// alone, and no bytes give no text.
#[verifier::external_body]
pub(crate) fn base64_encode(bytes: &Vec<u8>) -> (r: String)
    ensures
        r@ == base64_standard(bytes@),
        bytes@.len() == 0 ==> r@.len() == 0,
{
    base64::engine::general_purpose::STANDARD.encode(bytes)
}

/// The script address of the interactive satellite map for `api_key`.
pub open spec fn interactive_map_address(api_key: Seq<char>) -> Seq<char> {
    "https://maps.googleapis.com/maps/api/js?key="@ + api_key + "&maptype=satellite&callback=initMap"@
}

/// The Data URL prefix of a PNG picture in Base64.
pub open spec fn png_data_prefix() -> Seq<char> {
    "data:image/png;base64,"@
}

/// The interactive map on which a user clicks a guess.
#[derive(Clone, Debug, PartialEq, Eq, Hash)]
pub struct InteractiveMap {
    pub request_string: String,
}

impl InteractiveMap {
    /// The interactive satellite map loaded with `api_key`.
    pub fn new(api_key: &str) -> (r: InteractiveMap)
        ensures
            r.request_string@ == interactive_map_address(api_key@),
    {
        let mut s = String::from_str("https://maps.googleapis.com/maps/api/js?key=");
        s.append(api_key);
        s.append("&maptype=satellite&callback=initMap");
        InteractiveMap { request_string: s }
    }
}

/// A satellite picture that marks a guess and the true city, ready for an
/// HTML image tag.
#[derive(Clone, Debug, PartialEq, Eq)]
pub struct StaticGuessMap {
    pub image_string: String,
}

/// A PNG picture as a Data URL.
pub fn png_data_url(png: &Vec<u8>) -> (r: String)
    ensures
        r@ == png_data_prefix() + base64_standard(png@),
{
    let mut s = String::from_str("data:image/png;base64,");
    let encoded = base64_encode(png);
    s.append(encoded.as_str());
    s
}

impl StaticGuessMap {
    /// The map for the PNG picture `png`.
    pub fn from_png(png: &Vec<u8>) -> (r: StaticGuessMap)
        ensures
            r.image_string@ == png_data_prefix() + base64_standard(png@),
    {
        StaticGuessMap { image_string: png_data_url(png) }
    }
}

} // verus!
