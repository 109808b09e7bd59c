//! Text-encoding recovery over raw response bytes: a transport-declared
//! charset wins, then a charset declaration embedded in the first 4096
//! bytes, then statistical detection. Decoding is lossy and never fails.

use vstd::prelude::*;

verus! {

/// Whether the label names a known text encoding, per
/// `encoding_rs::Encoding::for_label`.
pub uninterp spec fn known_label(label: Seq<u8>) -> bool;

/// The lossy decode of `bytes` under the encoding named by `label`;
/// meaningful only when `known_label(label)`.
pub uninterp spec fn label_decoded(label: Seq<u8>, bytes: Seq<u8>) -> Seq<char>;

/// The lossy decode of `bytes` under the encoding guessed by statistical
/// detection over the full buffer.
pub uninterp spec fn sniffed_decoded(bytes: Seq<u8>) -> Seq<char>;

/// Relies on encoding_rs::Encoding::for_label and Encoding::decode: whether
/// a label names an encoding, and the lossy decode of a buffer under it,
/// are functions of label and bytes alone.
#[verifier::external_body]
fn decode_with_label(label: &Vec<u8>, bytes: &Vec<u8>) -> (r: Option<String>)
    ensures
        r is Some == known_label(label@),
        match r {
            Some(t) => t@ == label_decoded(label@, bytes@),
            None => true,
        },
{
    match encoding_rs::Encoding::for_label(label.as_slice()) {
        Some(enc) => {
            let (text, _, _) = enc.decode(bytes.as_slice());
            Some(text.into_owned())
        },
        None => None,
    }
}

/// Relies on chardetng::EncodingDetector (feed over the full buffer, then
/// guess with no domain hint, UTF-8 and ISO-2022-JP allowed) and
/// encoding_rs::Encoding::decode: the guess and the lossy decode under it
/// are functions of the bytes alone.
#[verifier::external_body]
fn sniff_decode(bytes: &Vec<u8>) -> (r: String)
    ensures
        r@ == sniffed_decoded(bytes@),
{
    let mut det = chardetng::EncodingDetector::new(chardetng::Iso2022JpDetection::Allow);
    det.feed(bytes.as_slice(), true);
    let enc = det.guess(None, chardetng::Utf8Detection::Allow);
    let (text, _, _) = enc.decode(bytes.as_slice());
    text.into_owned()
}

/// The bytes of "charset=".
pub open spec fn charset_eq_pat() -> Seq<u8> {
    seq![99u8, 104u8, 97u8, 114u8, 115u8, 101u8, 116u8, 61u8]
}

/// The bytes of "charset".
pub open spec fn charset_word() -> Seq<u8> {
    seq![99u8, 104u8, 97u8, 114u8, 115u8, 101u8, 116u8]
}

/// The charset label declared in a content-type header value: the text
/// between the first "charset=" and the next occurrence or the end,
/// whitespace-trimmed; `None` when no "charset=" occurs.
pub open spec fn header_label(ct: Seq<u8>) -> Option<Seq<u8>> {
    match crate::text::find_spec(ct, charset_eq_pat(), 0) {
        None => None,
        Some(j) => {
            let start = j + 8;
            let end = match crate::text::find_spec(ct, charset_eq_pat(), start) {
                None => ct.len() as int,
                Some(k) => k,
            };
            Some(crate::text::trim_spec(ct.subrange(start, end)))
        },
    }
}

fn charset_eq_vec() -> (v: Vec<u8>)
    ensures
        v@ =~= charset_eq_pat(),
{
    let mut v: Vec<u8> = Vec::new();
    v.push(99);
    v.push(104);
    v.push(97);
    v.push(114);
    v.push(115);
    v.push(101);
    v.push(116);
    v.push(61);
    v
}

fn charset_word_vec() -> (v: Vec<u8>)
    ensures
        v@ =~= charset_word(),
{
    let mut v: Vec<u8> = Vec::new();
    v.push(99);
    v.push(104);
    v.push(97);
    v.push(114);
    v.push(115);
    v.push(101);
    v.push(116);
    v
}

/// Extract the charset label from a content-type header value.
pub fn header_charset_label(ct: &Vec<u8>) -> (r: Option<Vec<u8>>)
    ensures
        match r {
            Some(l) => header_label(ct@) == Some(l@),
            None => header_label(ct@) is None,
        },
{
    let pat = charset_eq_vec();
    let n: usize = ct.len();
    match crate::text::find_bytes(ct, &pat, 0) {
        None => None,
        Some(j) => {
            proof {
                crate::text::lemma_find_some(ct@, pat@, 0, j as int);
                assert(j + 8 <= n);
            }
            let start = j + 8;
            let end: usize = match crate::text::find_bytes(ct, &pat, start) {
                None => ct.len(),
                Some(k) => {
                    proof {
                        crate::text::lemma_find_some(ct@, pat@, start as int, k as int);
                    }
                    k
                },
            };
            let seg = crate::text::copy_range(ct, start, end);
            Some(crate::text::trim_bytes(&seg))
        },
    }
}

/// Whether `b` may appear in a charset label: ASCII letters, digits,
/// underscore or hyphen.
pub open spec fn is_label_byte(b: u8) -> bool {
    (97 <= b && b <= 122) || (65 <= b && b <= 90) || (48 <= b && b <= 57) || b == 95 || b == 45
}

/// First index at or after `i` whose byte is not ASCII whitespace.
pub open spec fn ws_end(s: Seq<u8>, i: int) -> int
    decreases s.len() - i,
{
    if 0 <= i < s.len() && crate::text::is_ws_byte(s[i]) {
        ws_end(s, i + 1)
    } else {
        i
    }
}

/// First index at or after `i` whose byte is not a label byte.
pub open spec fn label_end(s: Seq<u8>, i: int) -> int
    decreases s.len() - i,
{
    if 0 <= i < s.len() && is_label_byte(s[i]) {
        label_end(s, i + 1)
    } else {
        i
    }
}

/// The label matched right after an occurrence of "charset" ending at `p`:
/// optional whitespace, '=', optional whitespace, an optional single or
/// double quote, then a nonempty maximal run of label bytes.
pub open spec fn try_label_at(s: Seq<u8>, p: int) -> Option<Seq<u8>> {
    let q = ws_end(s, p);
    if q < s.len() && s[q] == 61 {
        let w = ws_end(s, q + 1);
        let v = if w < s.len() && (s[w] == 34 || s[w] == 39) {
            w + 1
        } else {
            w
        };
        let e = label_end(s, v);
        if e > v {
            Some(s.subrange(v, e))
        } else {
            None
        }
    } else {
        None
    }
}

/// The first embedded charset declaration in `s` at or after `from`:
/// scanning occurrences of "charset" in order, the first whose tail matches
/// the declaration pattern yields its label.
pub open spec fn meta_charset_from(s: Seq<u8>, from: int) -> Option<Seq<u8>>
    decreases s.len() + 1 - from,
    via meta_charset_from_decreases
{
    match crate::text::find_spec(s, charset_word(), from) {
        None => None,
        Some(j) => match try_label_at(s, j + 7) {
            Some(l) => Some(l),
            None => meta_charset_from(s, j + 1),
        },
    }
}

#[via_fn]
proof fn meta_charset_from_decreases(s: Seq<u8>, from: int) {
    match crate::text::find_spec(s, charset_word(), from) {
        None => {},
        Some(j) => {
            crate::text::lemma_find_some(s, charset_word(), from, j);
        },
    }
}

fn ws_end_exec(s: &Vec<u8>, i: usize) -> (r: usize)
    requires
        i <= s@.len(),
    ensures
        r == ws_end(s@, i as int),
        i <= r <= s@.len(),
{
    let n: usize = s.len();
    let mut r: usize = i;
    while r < n && crate::text::is_ws_byte_exec(s[r])
        invariant
            n == s@.len(),
            i <= r <= n,
            ws_end(s@, i as int) == ws_end(s@, r as int),
        decreases n - r,
    {
        r = r + 1;
    }
    r
}

fn is_label_byte_exec(b: u8) -> (r: bool)
    ensures
        r == is_label_byte(b),
{
    (97 <= b && b <= 122) || (65 <= b && b <= 90) || (48 <= b && b <= 57) || b == 95 || b == 45
}

fn label_end_exec(s: &Vec<u8>, i: usize) -> (r: usize)
    requires
        i <= s@.len(),
    ensures
        r == label_end(s@, i as int),
        i <= r <= s@.len(),
{
    let n: usize = s.len();
    let mut r: usize = i;
    while r < n && is_label_byte_exec(s[r])
        invariant
            n == s@.len(),
            i <= r <= n,
            label_end(s@, i as int) == label_end(s@, r as int),
        decreases n - r,
    {
        r = r + 1;
    }
    r
}

fn try_label_exec(s: &Vec<u8>, p: usize) -> (r: Option<Vec<u8>>)
    requires
        p <= s@.len(),
    ensures
        match r {
            Some(l) => try_label_at(s@, p as int) == Some(l@),
            None => try_label_at(s@, p as int) is None,
        },
{
    let q = ws_end_exec(s, p);
    if q < s.len() && s[q] == 61 {
        let w = ws_end_exec(s, q + 1);
        let v: usize = if w < s.len() && (s[w] == 34 || s[w] == 39) {
            w + 1
        } else {
            w
        };
        let e = label_end_exec(s, v);
        if e > v {
            Some(crate::text::copy_range(s, v, e))
        } else {
            None
        }
    } else {
        None
    }
}

/// Scan `head` for an embedded charset declaration.
pub fn find_meta_charset(head: &Vec<u8>) -> (r: Option<Vec<u8>>)
    ensures
        match r {
            Some(l) => meta_charset_from(head@, 0) == Some(l@),
            None => meta_charset_from(head@, 0) is None,
        },
{
    let word = charset_word_vec();
    let n: usize = head.len();
    let mut from: usize = 0;
    loop
        invariant
            n == head@.len(),
            word@ =~= charset_word(),
            meta_charset_from(head@, 0) == meta_charset_from(head@, from as int),
        decreases head@.len() + 1 - from,
    {
        match crate::text::find_bytes(head, &word, from) {
            None => {
                return None;
            },
            Some(j) => {
                proof {
                    crate::text::lemma_find_some(head@, word@, from as int, j as int);
                    assert(j + 7 <= n);
                }
                match try_label_exec(head, j + 7) {
                    Some(l) => {
                        return Some(l);
                    },
                    None => {
                        from = j + 1;
                    },
                }
            },
        }
    }
}

/// The decoded text of a response: the header charset if it names a known
/// encoding, else an embedded charset from the first 4096 bytes if it names
/// one, else statistical detection. Always produces a string.
pub open spec fn resolve_spec(ct: Option<Seq<u8>>, body: Seq<u8>) -> Seq<char> {
    let hdr = match ct {
        Some(c) => header_label(c),
        None => None,
    };
    if hdr is Some && known_label(hdr.unwrap()) {
        label_decoded(hdr.unwrap(), body)
    } else {
        let head = if body.len() <= 4096 {
            body
        } else {
            body.take(4096)
        };
        let meta = meta_charset_from(head, 0);
        if meta is Some && known_label(meta.unwrap()) {
            label_decoded(meta.unwrap(), body)
        } else {
            sniffed_decoded(body)
        }
    }
}

/// Decode raw response bytes to text along the fallback chain; never fails.
pub fn resolve_text(content_type: Option<&Vec<u8>>, body: &Vec<u8>) -> (r: String)
    ensures
        r@ == resolve_spec(
            match content_type {
                Some(c) => Some(c@),
                None => None,
            },
            body@,
        ),
{
    match content_type {
        Some(c) => {
            match header_charset_label(c) {
                Some(l) => {
                    match decode_with_label(&l, body) {
                        Some(t) => {
                            return t;
                        },
                        None => {},
                    }
                },
                None => {},
            }
        },
        None => {},
    }
    let head = crate::text::copy_prefix(body, 4096);
    match find_meta_charset(&head) {
        Some(l) => {
            match decode_with_label(&l, body) {
                Some(t) => {
                    return t;
                },
                None => {},
            }
        },
        None => {},
    }
    sniff_decode(body)
}

} // verus!
