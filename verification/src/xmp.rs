//! Locating Apple `apple_desktop` schedule metadata inside XMP packets and HEIC bytes.

use vstd::prelude::*;
use vstd::string::*;
use vstd::utf8::{decode_utf8, valid_utf8};

use base64::Engine;

use crate::text::{chars_of, string_of, trim, trim_chars};

verus! {

/// `needle` occurs in `hay` at position `p`.
pub open spec fn occurs_at<T>(hay: Seq<T>, needle: Seq<T>, p: int) -> bool {
    0 <= p && p + needle.len() <= hay.len() && hay.subrange(p, p + needle.len()) == needle
}

/// `p` is the first position where `needle` occurs in `hay`.
pub open spec fn is_first_occurrence<T>(hay: Seq<T>, needle: Seq<T>, p: int) -> bool {
    occurs_at(hay, needle, p) && forall|q: int| 0 <= q < p ==> !#[trigger] occurs_at(hay, needle, q)
}

/// Position of the first occurrence of `needle` in `hay`, if any.
pub open spec fn find<T>(hay: Seq<T>, needle: Seq<T>) -> Option<int> {
    if exists|p: int| is_first_occurrence(hay, needle, p) {
        Some(choose|p: int| is_first_occurrence(hay, needle, p))
    } else {
        None
    }
}

proof fn lemma_first_occurrence_unique<T>(hay: Seq<T>, needle: Seq<T>, a: int, b: int)
    requires
        is_first_occurrence(hay, needle, a),
        is_first_occurrence(hay, needle, b),
    ensures
        a == b,
{
    if a < b {
        assert(!occurs_at(hay, needle, a));
    } else if b < a {
        assert(!occurs_at(hay, needle, b));
    }
}

/// Finds the first occurrence of a non-empty byte pattern.
pub fn find_subslice(haystack: &[u8], needle: &[u8]) -> (r: Option<usize>)
    requires
        needle@.len() > 0,
    ensures
        match r {
            Some(p) => find(haystack@, needle@) == Some(p as int),
            None => find(haystack@, needle@) is None,
        },
{
    if needle.len() > haystack.len() {
        proof {
            if exists|p: int| is_first_occurrence(haystack@, needle@, p) {
                let p = choose|p: int| is_first_occurrence(haystack@, needle@, p);
                assert(occurs_at(haystack@, needle@, p));
            }
        }
        return None;
    }
    let last = haystack.len() - needle.len();
    let mut p: usize = 0;
    while p <= last
        invariant
            last + needle@.len() == haystack@.len(),
            haystack@.len() == haystack.len(),
            forall|q: int| 0 <= q < p ==> !#[trigger] occurs_at(haystack@, needle@, q),
        decreases last + 1 - p,
    {
        let mut k: usize = 0;
        let mut same = true;
        while k < needle.len()
            invariant
                p <= last,
                last + needle@.len() == haystack@.len(),
                haystack@.len() == haystack.len(),
                k <= needle@.len(),
                same ==> forall|j: int| 0 <= j < k ==> haystack@[p + j] == needle@[j],
                !same ==> !occurs_at(haystack@, needle@, p as int),
            decreases needle@.len() - k,
        {
            if haystack[p + k] != needle[k] {
                assert(haystack@.subrange(p as int, p + needle@.len())[k as int] != needle@[k as int]);
                same = false;
            }
            k = k + 1;
        }
        if same {
            assert(haystack@.subrange(p as int, p + needle@.len()) =~= needle@);
            proof {
                assert(is_first_occurrence(haystack@, needle@, p as int));
                let c = choose|c: int| is_first_occurrence(haystack@, needle@, c);
                lemma_first_occurrence_unique(haystack@, needle@, p as int, c);
            }
            return Some(p);
        }
        if p == last {
            proof {
                if exists|c: int| is_first_occurrence(haystack@, needle@, c) {
                    let c = choose|c: int| is_first_occurrence(haystack@, needle@, c);
                    assert(occurs_at(haystack@, needle@, c));
                    assert(!occurs_at(haystack@, needle@, c));
                }
            }
            return None;
        }
        p = p + 1;
    }
    None
}

/// Finds the first occurrence of a non-empty character pattern.
pub fn find_chars(haystack: &[char], needle: &[char]) -> (r: Option<usize>)
    requires
        needle@.len() > 0,
    ensures
        match r {
            Some(p) => find(haystack@, needle@) == Some(p as int),
            None => find(haystack@, needle@) is None,
        },
{
    if needle.len() > haystack.len() {
        proof {
            if exists|p: int| is_first_occurrence(haystack@, needle@, p) {
                let p = choose|p: int| is_first_occurrence(haystack@, needle@, p);
                assert(occurs_at(haystack@, needle@, p));
            }
        }
        return None;
    }
    let last = haystack.len() - needle.len();
    let mut p: usize = 0;
    while p <= last
        invariant
            last + needle@.len() == haystack@.len(),
            haystack@.len() == haystack.len(),
            forall|q: int| 0 <= q < p ==> !#[trigger] occurs_at(haystack@, needle@, q),
        decreases last + 1 - p,
    {
        let mut k: usize = 0;
        let mut same = true;
        while k < needle.len()
            invariant
                p <= last,
                last + needle@.len() == haystack@.len(),
                haystack@.len() == haystack.len(),
                k <= needle@.len(),
                same ==> forall|j: int| 0 <= j < k ==> haystack@[p + j] == needle@[j],
                !same ==> !occurs_at(haystack@, needle@, p as int),
            decreases needle@.len() - k,
        {
            if haystack[p + k] != needle[k] {
                assert(haystack@.subrange(p as int, p + needle@.len())[k as int] != needle@[k as int]);
                same = false;
            }
            k = k + 1;
        }
        if same {
            assert(haystack@.subrange(p as int, p + needle@.len()) =~= needle@);
            proof {
                assert(is_first_occurrence(haystack@, needle@, p as int));
                let c = choose|c: int| is_first_occurrence(haystack@, needle@, c);
                lemma_first_occurrence_unique(haystack@, needle@, p as int, c);
            }
            return Some(p);
        }
        if p == last {
            proof {
                if exists|c: int| is_first_occurrence(haystack@, needle@, c) {
                    let c = choose|c: int| is_first_occurrence(haystack@, needle@, c);
                    assert(occurs_at(haystack@, needle@, c));
                    assert(!occurs_at(haystack@, needle@, c));
                }
            }
            return None;
        }
        p = p + 1;
    }
    None
}

/// `String::from_utf8` from std: the text of valid UTF-8 bytes, or nothing for invalid bytes.
#[verifier::external_body]
fn utf8_text(bytes: Vec<u8>) -> (r: Option<String>)
    ensures
        match r {
            Some(s) => valid_utf8(bytes@) && s@ == decode_utf8(bytes@),
            None => !valid_utf8(bytes@),
        },
{
    String::from_utf8(bytes).ok()
}

/// ASCII bytes of `<?xpacket begin=`, which opens an XMP packet.
pub open spec fn xpacket_begin() -> Seq<u8> {
    seq![60u8, 63, 120, 112, 97, 99, 107, 101, 116, 32, 98, 101, 103, 105, 110, 61]
}

/// ASCII bytes of `<x:xmpmeta`, which opens the XMP meta element when no packet wrapper
/// is present.
pub open spec fn xmpmeta_begin() -> Seq<u8> {
    seq![60u8, 120, 58, 120, 109, 112, 109, 101, 116, 97]
}

/// ASCII bytes of `<?xpacket end=`, which closes an XMP packet.
pub open spec fn xpacket_end() -> Seq<u8> {
    seq![60u8, 63, 120, 112, 97, 99, 107, 101, 116, 32, 101, 110, 100, 61]
}

/// Byte range of the XMP packet inside arbitrary file bytes: from the packet start (or the
/// meta element) through the end marker and its closing `>`.
pub open spec fn xmp_range(bytes: Seq<u8>) -> Option<(int, int)> {
    let start = match find(bytes, xpacket_begin()) {
        Some(s) => Some(s),
        None => find(bytes, xmpmeta_begin()),
    };
    match start {
        None => None,
        Some(s) => match find(bytes.subrange(s, bytes.len() as int), xpacket_end()) {
            None => None,
            Some(rel) => {
                let e0 = rel + s + 14;
                let e1 = if e0 < bytes.len() { e0 } else { bytes.len() as int };
                let e2 = match find(bytes.subrange(e1, bytes.len() as int), seq![62u8]) {
                    Some(gt) => e1 + gt + 1,
                    None => e1,
                };
                Some((s, if e2 < bytes.len() { e2 } else { bytes.len() as int }))
            },
        },
    }
}

fn copy_range(bytes: &[u8], from: usize, to: usize) -> (r: Vec<u8>)
    requires
        from <= to <= bytes@.len(),
    ensures
        r@ == bytes@.subrange(from as int, to as int),
{
    let mut out: Vec<u8> = Vec::new();
    let mut i = from;
    while i < to
        invariant
            from <= i <= to <= bytes@.len(),
            out@ == bytes@.subrange(from as int, i as int),
        decreases to - i,
    {
        out.push(bytes[i]);
        i = i + 1;
        assert(out@ =~= bytes@.subrange(from as int, i as int));
    }
    out
}

/// Locates an XMP packet inside arbitrary file bytes (HEIC friendly) and returns it as text
/// when it is valid UTF-8.
pub fn scrape_xmp_packet(bytes: &[u8]) -> (r: Option<String>)
    ensures
        match xmp_range(bytes@) {
            None => r is None,
            Some((s, e)) => match r {
                Some(text) => valid_utf8(bytes@.subrange(s, e)) && text@ == decode_utf8(bytes@.subrange(s, e)),
                None => !valid_utf8(bytes@.subrange(s, e)),
            },
        },
{
    let begin: Vec<u8> = vec![60u8, 63, 120, 112, 97, 99, 107, 101, 116, 32, 98, 101, 103, 105, 110, 61];
    let begin_alt: Vec<u8> = vec![60u8, 120, 58, 120, 109, 112, 109, 101, 116, 97];
    let end_marker: Vec<u8> = vec![60u8, 63, 120, 112, 97, 99, 107, 101, 116, 32, 101, 110, 100, 61];
    assert(begin@ =~= xpacket_begin());
    assert(begin_alt@ =~= xmpmeta_begin());
    assert(end_marker@ =~= xpacket_end());
    let start = match find_subslice(bytes, begin.as_slice()) {
        Some(s) => s,
        None => match find_subslice(bytes, begin_alt.as_slice()) {
            Some(s) => s,
            None => return None,
        },
    };
    let tail = copy_range(bytes, start, bytes.len());
    let rel = match find_subslice(tail.as_slice(), end_marker.as_slice()) {
        Some(rel) => rel,
        None => return None,
    };
    proof {
        let c = choose|c: int| is_first_occurrence(tail@, end_marker@, c);
        assert(occurs_at(tail@, end_marker@, rel as int));
    }
    let e0 = rel + start + 14;
    let e1 = if e0 < bytes.len() { e0 } else { bytes.len() };
    let rest = copy_range(bytes, e1, bytes.len());
    let mut gt: Vec<u8> = Vec::new();
    gt.push(62u8);
    assert(gt@ =~= seq![62u8]);
    let e2 = match find_subslice(rest.as_slice(), gt.as_slice()) {
        Some(p) => {
            proof {
                assert(occurs_at(rest@, gt@, p as int));
            }
            e1 + p + 1
        },
        None => e1,
    };
    let end = if e2 < bytes.len() { e2 } else { bytes.len() };
    let packet = copy_range(bytes, start, end);
    utf8_text(packet)
}

/// A well-formed XMP packet: it opens with `<?xpacket begin=` and ends at the first `>`
/// after its first `<?xpacket end=`.
pub open spec fn is_xmp_packet(x: Seq<u8>) -> bool {
    &&& occurs_at(x, xpacket_begin(), 0)
    &&& exists|q: int| #[trigger] is_first_occurrence(x, xpacket_end(), q) && is_first_occurrence(
        x.subrange(q + 14, x.len() as int),
        seq![62u8],
        x.len() - q - 15,
    )
}

proof fn lemma_find_at<T>(hay: Seq<T>, needle: Seq<T>, p: int)
    requires
        is_first_occurrence(hay, needle, p),
    ensures
        find(hay, needle) == Some(p),
{
    let c = choose|c: int| is_first_occurrence(hay, needle, c);
    lemma_first_occurrence_unique(hay, needle, p, c);
}

/// A first occurrence inside `a` stays the first occurrence once more bytes follow `a`.
proof fn lemma_find_in_front<T>(a: Seq<T>, tail: Seq<T>, needle: Seq<T>, p: int)
    requires
        is_first_occurrence(a, needle, p),
    ensures
        find(a + tail, needle) == Some(p),
{
    let h = a + tail;
    assert(h.subrange(p, p + needle.len()) =~= a.subrange(p, p + needle.len()));
    assert forall|r: int| 0 <= r < p implies !#[trigger] occurs_at(h, needle, r) by {
        assert(h.subrange(r, r + needle.len()) =~= a.subrange(r, r + needle.len()));
        assert(!occurs_at(a, needle, r));
    }
    lemma_find_at(h, needle, p);
}

/// When the prefix holds no packet opening, the first opening of `prefix + x` (with `x`
/// opening a packet) is where `x` starts: the opening marker cannot straddle the seam.
#[verifier::rlimit(40)]
proof fn lemma_begin_after_prefix(prefix: Seq<u8>, rest: Seq<u8>)
    requires
        occurs_at(rest, xpacket_begin(), 0),
        forall|q: int| !#[trigger] occurs_at(prefix, xpacket_begin(), q),
    ensures
        find(prefix + rest, xpacket_begin()) == Some(prefix.len() as int),
{
    let bytes = prefix + rest;
    let pl = prefix.len() as int;
    let begin = xpacket_begin();
    assert(bytes.subrange(pl, pl + 16) =~= rest.subrange(0, 16));
    assert(begin[1] != 60u8 && begin[2] != 60u8 && begin[3] != 60u8 && begin[4] != 60u8);
    assert(begin[5] != 60u8 && begin[6] != 60u8 && begin[7] != 60u8 && begin[8] != 60u8);
    assert(begin[9] != 60u8 && begin[10] != 60u8 && begin[11] != 60u8 && begin[12] != 60u8);
    assert(begin[13] != 60u8 && begin[14] != 60u8 && begin[15] != 60u8);
    assert(rest[0] == rest.subrange(0, 16)[0]);
    assert forall|q: int| 0 <= q < pl implies !#[trigger] occurs_at(bytes, begin, q) by {
        if occurs_at(bytes, begin, q) {
            if q + 16 <= pl {
                assert(bytes.subrange(q, q + 16) =~= prefix.subrange(q, q + 16));
                assert(occurs_at(prefix, begin, q));
            } else {
                let k = pl - q;
                assert(bytes.subrange(q, q + 16)[k] == bytes[pl]);
                assert(bytes[pl] == rest[0]);
            }
        }
    }
    lemma_find_at(bytes, begin, pl);
}

/// A packet is recovered byte for byte from the bytes around it, when nothing before it opens
/// a packet; the scraped range is exactly the packet.
pub proof fn lemma_packet_recovered(prefix: Seq<u8>, x: Seq<u8>, suffix: Seq<u8>)
    requires
        is_xmp_packet(x),
        forall|q: int| !#[trigger] occurs_at(prefix, xpacket_begin(), q),
    ensures
        xmp_range(prefix + x + suffix) == Some((prefix.len() as int, (prefix.len() + x.len()) as int)),
        (prefix + x + suffix).subrange(prefix.len() as int, (prefix.len() + x.len()) as int) == x,
{
    let bytes = prefix + x + suffix;
    let pl = prefix.len() as int;
    let xl = x.len() as int;
    let gt = seq![62u8];
    assert(bytes =~= prefix + (x + suffix));
    assert((x + suffix).subrange(0, 16) =~= x.subrange(0, 16));
    lemma_begin_after_prefix(prefix, x + suffix);
    assert(bytes.subrange(pl, pl + xl) =~= x);
    let q = choose|q: int| #[trigger] is_first_occurrence(x, xpacket_end(), q) && is_first_occurrence(
        x.subrange(q + 14, xl),
        gt,
        xl - q - 15,
    );
    assert(bytes.subrange(pl, bytes.len() as int) =~= x + suffix);
    lemma_find_in_front(x, suffix, xpacket_end(), q);
    let e1 = q + pl + 14;
    let after = x.subrange(q + 14, xl);
    assert(bytes.subrange(e1, bytes.len() as int) =~= after + suffix);
    lemma_find_in_front(after, suffix, gt, xl - q - 15);
}

/// Bytes that contain neither `<?xpacket begin=` nor `<x:xmpmeta` hold no packet.
pub proof fn lemma_no_marker_no_packet(bytes: Seq<u8>)
    requires
        forall|q: int| !#[trigger] occurs_at(bytes, xpacket_begin(), q),
        forall|q: int| !#[trigger] occurs_at(bytes, xmpmeta_begin(), q),
    ensures
        xmp_range(bytes) is None,
{
    assert(!exists|p: int| is_first_occurrence(bytes, xpacket_begin(), p));
    assert(!exists|p: int| is_first_occurrence(bytes, xmpmeta_begin(), p));
}

/// Which Apple XMP tag supplied the schedule.
#[derive(Clone, Copy, Debug, PartialEq, Eq, Structural)]
pub enum AppleMetadataFlavor {
    /// `apple_desktop:solar` — altitude/azimuth samples.
    Solar,
    /// `apple_desktop:apr` — light/dark indices.
    Appearance,
    /// `apple_desktop:h24` — 24-hour time samples.
    H24,
}

/// Metadata parse failures.
#[derive(Clone, Debug, PartialEq, Eq)]
pub enum MetadataError {
    /// No Apple desktop XMP attribute was found.
    NoAppleDesktopTag,
    /// Attribute quoting was malformed.
    MalformedXmpAttribute,
    /// Base64 decode failed.
    Base64(String),
    /// Binary plist parse failed.
    Plist(String),
    /// Schedule contained no samples.
    EmptySchedule,
}

/// Attribute name (`apple_desktop:{solar,apr,h24}`) for a flavor.
pub open spec fn flavor_tag(flavor: AppleMetadataFlavor) -> Seq<char> {
    match flavor {
        AppleMetadataFlavor::Solar => "apple_desktop:solar"@,
        AppleMetadataFlavor::Appearance => "apple_desktop:apr"@,
        AppleMetadataFlavor::H24 => "apple_desktop:h24"@,
    }
}

/// The attribute value after `tag="`: the text up to the next quote, where the text ends
/// at the attribute's next occurrence.
pub open spec fn attribute_value(xmp: Seq<char>, tag: Seq<char>) -> Option<Seq<char>> {
    let attr = tag + "=\""@;
    match find(xmp, attr) {
        None => None,
        Some(p) => {
            let after = xmp.subrange(p + attr.len(), xmp.len() as int);
            let piece = match find(after, attr) {
                Some(q) => after.subrange(0, q),
                None => after,
            };
            Some(match find(piece, seq!['"']) {
                Some(k) => piece.subrange(0, k),
                None => piece,
            })
        },
    }
}

/// The trimmed element text between `<tag>` and the first `</tag>`, when the close comes
/// after the open.
pub open spec fn element_value(xmp: Seq<char>, tag: Seq<char>) -> Option<Seq<char>> {
    let open = "<"@ + tag + ">"@;
    let close = "</"@ + tag + ">"@;
    match (find(xmp, open), find(xmp, close)) {
        (Some(o), Some(c)) => if c > o + open.len() {
            Some(trim(xmp.subrange(o + open.len(), c)))
        } else {
            None
        },
        _ => None,
    }
}

/// Which schedule an XMP packet carries and its base64 payload: attribute forms first
/// (solar, apr, h24), then element forms in the same order.
pub open spec fn apple_payload(xmp: Seq<char>) -> Option<(AppleMetadataFlavor, Seq<char>)> {
    let s = flavor_tag(AppleMetadataFlavor::Solar);
    let a = flavor_tag(AppleMetadataFlavor::Appearance);
    let h = flavor_tag(AppleMetadataFlavor::H24);
    if attribute_value(xmp, s) is Some {
        Some((AppleMetadataFlavor::Solar, attribute_value(xmp, s)->0))
    } else if attribute_value(xmp, a) is Some {
        Some((AppleMetadataFlavor::Appearance, attribute_value(xmp, a)->0))
    } else if attribute_value(xmp, h) is Some {
        Some((AppleMetadataFlavor::H24, attribute_value(xmp, h)->0))
    } else if element_value(xmp, s) is Some {
        Some((AppleMetadataFlavor::Solar, element_value(xmp, s)->0))
    } else if element_value(xmp, a) is Some {
        Some((AppleMetadataFlavor::Appearance, element_value(xmp, a)->0))
    } else if element_value(xmp, h) is Some {
        Some((AppleMetadataFlavor::H24, element_value(xmp, h)->0))
    } else {
        None
    }
}

fn concat3(a: &str, b: &str, c: &str) -> (r: Vec<char>)
    ensures
        r@ == a@ + b@ + c@,
{
    let mut s = String::from_str(a);
    s.append(b);
    s.append(c);
    chars_of(s.as_str())
}

fn sub_chars(v: &[char], from: usize, to: usize) -> (r: Vec<char>)
    requires
        from <= to <= v@.len(),
    ensures
        r@ == v@.subrange(from as int, to as int),
{
    let mut out: Vec<char> = Vec::new();
    let mut i = from;
    while i < to
        invariant
            from <= i <= to <= v@.len(),
            out@ == v@.subrange(from as int, i as int),
        decreases to - i,
    {
        out.push(v[i]);
        i = i + 1;
        assert(out@ =~= v@.subrange(from as int, i as int));
    }
    out
}

fn attribute_value_of(xmp: &Vec<char>, tag: &str) -> (r: Option<Vec<char>>)
    ensures
        match r {
            Some(v) => attribute_value(xmp@, tag@) == Some(v@),
            None => attribute_value(xmp@, tag@) is None,
        },
{
    let n = xmp.len();
    let attr = concat3(tag, "=\"", "");
    proof {
        reveal_strlit("");
        reveal_strlit("=\"");
    }
    assert(attr@ =~= tag@ + "=\""@);
    let p = match find_chars(xmp.as_slice(), attr.as_slice()) {
        Some(p) => p,
        None => return None,
    };
    proof {
        let c = choose|c: int| is_first_occurrence(xmp@, attr@, c);
        assert(occurs_at(xmp@, attr@, p as int));
    }
    let after = sub_chars(xmp.as_slice(), p + attr.len(), n);
    let piece = match find_chars(after.as_slice(), attr.as_slice()) {
        Some(q) => {
            proof {
                assert(occurs_at(after@, attr@, q as int));
            }
            sub_chars(after.as_slice(), 0, q)
        },
        None => after,
    };
    let mut quote: Vec<char> = Vec::new();
    quote.push('"');
    assert(quote@ =~= seq!['"']);
    match find_chars(piece.as_slice(), quote.as_slice()) {
        Some(k) => {
            proof {
                assert(occurs_at(piece@, quote@, k as int));
            }
            Some(sub_chars(piece.as_slice(), 0, k))
        },
        None => Some(piece),
    }
}

fn element_value_of(xmp: &Vec<char>, tag: &str) -> (r: Option<Vec<char>>)
    ensures
        match r {
            Some(v) => element_value(xmp@, tag@) == Some(v@),
            None => element_value(xmp@, tag@) is None,
        },
{
    let n = xmp.len();
    let open = concat3("<", tag, ">");
    let close = concat3("</", tag, ">");
    proof {
        reveal_strlit("<");
        reveal_strlit("</");
        reveal_strlit(">");
    }
    let o = find_chars(xmp.as_slice(), open.as_slice());
    let c = find_chars(xmp.as_slice(), close.as_slice());
    match (o, c) {
        (Some(o), Some(c)) => {
            proof {
                let w = choose|w: int| is_first_occurrence(xmp@, open@, w);
                assert(occurs_at(xmp@, open@, o as int));
            }
            if c > o + open.len() {
                let inner = sub_chars(xmp.as_slice(), o + open.len(), c);
                Some(trim_chars(&inner))
            } else {
                None
            }
        },
        _ => None,
    }
}

/// Finds the Apple `apple_desktop` schedule in an XMP packet: its flavor and the base64
/// binary-plist payload.
pub fn locate_apple_desktop_payload(xmp: &str) -> (r: Result<(AppleMetadataFlavor, String), MetadataError>)
    ensures
        match apple_payload(xmp@) {
            Some((flavor, payload)) => r matches Ok((f, p)) && f == flavor && p@ == payload,
            None => r == Err::<(AppleMetadataFlavor, String), _>(MetadataError::NoAppleDesktopTag),
        },
{
    let text = chars_of(xmp);
    let solar = attribute_value_of(&text, "apple_desktop:solar");
    if let Some(v) = solar {
        return Ok((AppleMetadataFlavor::Solar, string_of(v.as_slice())));
    }
    let apr = attribute_value_of(&text, "apple_desktop:apr");
    if let Some(v) = apr {
        return Ok((AppleMetadataFlavor::Appearance, string_of(v.as_slice())));
    }
    let h24 = attribute_value_of(&text, "apple_desktop:h24");
    if let Some(v) = h24 {
        return Ok((AppleMetadataFlavor::H24, string_of(v.as_slice())));
    }
    let solar = element_value_of(&text, "apple_desktop:solar");
    if let Some(v) = solar {
        return Ok((AppleMetadataFlavor::Solar, string_of(v.as_slice())));
    }
    let apr = element_value_of(&text, "apple_desktop:apr");
    if let Some(v) = apr {
        return Ok((AppleMetadataFlavor::Appearance, string_of(v.as_slice())));
    }
    let h24 = element_value_of(&text, "apple_desktop:h24");
    if let Some(v) = h24 {
        return Ok((AppleMetadataFlavor::H24, string_of(v.as_slice())));
    }
    Err(MetadataError::NoAppleDesktopTag)
}

/// What `base64`'s standard engine decodes from the given text (padded alphabet), if valid.
pub uninterp spec fn base64_standard_decode(text: Seq<char>) -> Option<Seq<u8>>;

/// `base64::engine::general_purpose::STANDARD.decode`: the decoded bytes, or the decode
/// error's message.
#[verifier::external_body]
fn base64_decode(text: &str) -> (r: Result<Vec<u8>, String>)
    ensures
        match r {
            Ok(bytes) => base64_standard_decode(text@) == Some(bytes@),
            Err(_) => base64_standard_decode(text@) is None,
        },
{
    base64::engine::general_purpose::STANDARD.decode(text).map_err(|error| error.to_string())
}

/// Decodes a base64 `apple_desktop` payload (surrounding whitespace ignored) into the
/// binary plist bytes.
pub fn decode_apple_desktop_payload(payload: &str) -> (r: Result<Vec<u8>, MetadataError>)
    ensures
        match r {
            Ok(bytes) => base64_standard_decode(trim(payload@)) == Some(bytes@),
            Err(e) => base64_standard_decode(trim(payload@)) is None && e is Base64,
        },
{
    let trimmed = string_of(trim_chars(&chars_of(payload)).as_slice());
    match base64_decode(trimmed.as_str()) {
        Ok(bytes) => Ok(bytes),
        Err(message) => Err(MetadataError::Base64(message)),
    }
}

} // verus!
