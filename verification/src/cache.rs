//! Acquisition policy for remote still images: allowed hosts, size limit, cache names.

use vstd::prelude::*;
use vstd::string::*;

use crate::asset::ProviderAssetId;
use crate::ids::{hyphenated, AssetId};
use crate::text::{chars_eq, chars_of, ends_with_chars, has_suffix, push_char};

verus! {

/// Upper bound for a single remote acquisition download.
pub const MAX_ACQUISITION_BYTES: u64 = 134_217_728;

/// Provider domains whose hosts (or subdomains) may serve acquisitions.
pub open spec fn allowed_suffixes() -> Seq<Seq<char>> {
    seq![
        "openverse.org"@,
        "staticflickr.com"@,
        "flickr.com"@,
        "wikimedia.org"@,
        "wikipedia.org"@,
        "nasa.gov"@,
        "githubusercontent.com"@,
    ]
}

/// The host is an allowed domain or one of its subdomains.
pub open spec fn host_is_allowed(host: Seq<char>) -> bool {
    exists|k: int| 0 <= k < allowed_suffixes().len() && (host == #[trigger] allowed_suffixes()[k]
        || has_suffix(host, seq!['.'] + allowed_suffixes()[k]))
}

/// Returns whether an acquisition host is on the provider allowlist.
#[verifier::loop_isolation(false)]
pub fn host_allowed(host: &str) -> (r: bool)
    ensures
        r == host_is_allowed(host@),
{
    let mut list: Vec<Vec<char>> = Vec::new();
    list.push(chars_of("openverse.org"));
    list.push(chars_of("staticflickr.com"));
    list.push(chars_of("flickr.com"));
    list.push(chars_of("wikimedia.org"));
    list.push(chars_of("wikipedia.org"));
    list.push(chars_of("nasa.gov"));
    list.push(chars_of("githubusercontent.com"));
    let h = chars_of(host);
    let mut i: usize = 0;
    while i < list.len()
        invariant
            i <= 7,
            list@.len() == 7,
            forall|k: int| 0 <= k < 7 ==> (#[trigger] list@[k])@ == allowed_suffixes()[k],
            forall|k: int| 0 <= k < i ==> !(h@ == #[trigger] allowed_suffixes()[k] || has_suffix(h@, seq!['.'] + allowed_suffixes()[k])),
        decreases 7 - i,
    {
        let mut dotted: Vec<char> = Vec::new();
        dotted.push('.');
        let mut j: usize = 0;
        while j < list[i].len()
            invariant
                i < 7,
                list@.len() == 7,
                j <= list@[i as int]@.len(),
                dotted@ == seq!['.'] + list@[i as int]@.subrange(0, j as int),
            decreases list@[i as int]@.len() - j,
        {
            dotted.push(list[i][j]);
            j = j + 1;
            assert(dotted@ =~= seq!['.'] + list@[i as int]@.subrange(0, j as int));
        }
        assert(list@[i as int]@.subrange(0, j as int) =~= list@[i as int]@);
        if chars_eq(h.as_slice(), list[i].as_slice()) || ends_with_chars(h.as_slice(), dotted.as_slice()) {
            assert(list@[i as int]@ == allowed_suffixes()[i as int]);
            return true;
        }
        i = i + 1;
    }
    false
}

/// Why an acquisition URL is refused before any download.
#[derive(Clone, Debug, PartialEq, Eq)]
pub enum AcquisitionRefusal {
    /// Only `https` acquisitions are allowed.
    InsecureScheme,
    /// The URL has no host.
    MissingHost,
    /// The host is outside the provider allowlist.
    HostNotAllowed(String),
}

/// Checks an acquisition URL's scheme and host before downloading.
pub fn check_acquisition(scheme: &str, host: Option<&str>) -> (r: Result<(), AcquisitionRefusal>)
    ensures
        scheme@ != "https"@ ==> r == Err::<(), _>(AcquisitionRefusal::InsecureScheme),
        scheme@ == "https"@ && host is None ==> r == Err::<(), _>(AcquisitionRefusal::MissingHost),
        scheme@ == "https"@ && host is Some && !host_is_allowed(host->0@) ==> (r matches Err(
            AcquisitionRefusal::HostNotAllowed(h),
        ) && h@ == host->0@),
        scheme@ == "https"@ && host is Some && host_is_allowed(host->0@) ==> r is Ok,
{
    let s = chars_of(scheme);
    let https = chars_of("https");
    if !chars_eq(s.as_slice(), https.as_slice()) {
        return Err(AcquisitionRefusal::InsecureScheme);
    }
    match host {
        None => Err(AcquisitionRefusal::MissingHost),
        Some(h) => {
            if !host_allowed(h) {
                return Err(AcquisitionRefusal::HostNotAllowed(h.to_owned()));
            }
            Ok(())
        },
    }
}

/// Whether a byte count exceeds the acquisition limit.
pub fn exceeds_acquisition_limit(bytes: u64) -> (r: bool)
    ensures
        r == (bytes > MAX_ACQUISITION_BYTES),
{
    bytes > MAX_ACQUISITION_BYTES
}

/// ASCII letters and digits, `-`, and `_` are kept in cache file names.
pub open spec fn file_name_safe(c: char) -> bool {
    ('a' <= c && c <= 'z') || ('A' <= c && c <= 'Z') || ('0' <= c && c <= '9') || c == '-' || c == '_'
}

/// Replaces every character that is not file-name safe with `_`.
pub open spec fn sanitized(s: Seq<char>) -> Seq<char> {
    s.map_values(|c: char| if file_name_safe(c) { c } else { '_' })
}

/// Cache file name for an asset: provider id (`{provider}_{id}`) or library id, sanitized,
/// then `.` and the URL path's extension (`img` when it has none).
pub open spec fn cache_name(provider: Option<ProviderAssetId>, asset_id: AssetId, extension: Option<Seq<char>>) -> Seq<char> {
    let id = match provider {
        Some(p) => p.provider@ + seq!['_'] + p.asset_id@,
        None => hyphenated(asset_id.0),
    };
    sanitized(id) + seq!['.'] + match extension {
        Some(e) => e,
        None => "img"@,
    }
}

/// Builds the cache file name for an asset acquired from a URL whose path has `extension`.
pub fn cache_file_name(provider: Option<&ProviderAssetId>, asset_id: AssetId, extension: Option<&str>) -> (r: String)
    ensures
        r@ == cache_name(
            match provider {
                Some(p) => Some(*p),
                None => None,
            },
            asset_id,
            match extension {
                Some(e) => Some(e@),
                None => None,
            },
        ),
{
    let id = match provider {
        Some(p) => {
            let mut text = p.provider.clone();
            push_char(&mut text, '_');
            text.append(p.asset_id.as_str());
            text
        },
        None => asset_id.to_hyphenated_string(),
    };
    let chars = chars_of(id.as_str());
    let mut out = String::new();
    let mut i: usize = 0;
    while i < chars.len()
        invariant
            i <= chars@.len(),
            out@ == sanitized(chars@.subrange(0, i as int)),
        decreases chars@.len() - i,
    {
        let c = chars[i];
        let safe = ('a' <= c && c <= 'z') || ('A' <= c && c <= 'Z') || ('0' <= c && c <= '9') || c == '-' || c == '_';
        push_char(&mut out, if safe { c } else { '_' });
        i = i + 1;
        assert(out@ =~= sanitized(chars@.subrange(0, i as int)));
    }
    assert(chars@.subrange(0, chars@.len() as int) =~= chars@);
    push_char(&mut out, '.');
    match extension {
        Some(e) => out.append(e),
        None => out.append("img"),
    }
    out
}

} // verus!
