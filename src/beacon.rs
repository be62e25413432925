//! The page-to-native beacon: `GET /playback?data=<percent-encoded JSON>`.
//! This module finds the `data` query parameter and decodes it to the JSON
//! text; turning that into a `PlaybackState` is the JSON reader's job.

use vstd::prelude::*;
use vstd::utf8::{
    decode_utf8, encode_scalar, encode_utf8, encode_utf8_decode_utf8, encode_utf8_valid_utf8,
    is_ascii_chars, is_ascii_chars_encode_utf8, valid_utf8,
};
use crate::text::chars_of;
use crate::timecode::{lemma_split_step, split_fields};

verus! {

/// The path of a beacon request, up to and including the query's `?`.
pub const BEACON_PATH: &'static str = "/playback?";

/// The start of the query pair that carries the payload.
pub const DATA_KEY: &'static str = "data=";

/// The longest request path and query, in characters, that is read as a
/// beacon; anything longer is refused unread.
pub const MAX_BEACON_CHARS: usize = 16384;

pub open spec fn is_hex_digit(b: u8) -> bool {
    (0x30 <= b && b <= 0x39) || (0x41 <= b && b <= 0x46) || (0x61 <= b && b <= 0x66)
}

pub open spec fn hex_value(b: u8) -> nat {
    if 0x30 <= b && b <= 0x39 {
        (b - 0x30) as nat
    } else if 0x41 <= b && b <= 0x46 {
        (b - 0x41 + 10) as nat
    } else {
        (b - 0x61 + 10) as nat
    }
}

/// Percent-decoding of bytes: `%` followed by two hex digits (either case)
/// stands for the byte they spell; every other byte, `+` included, stands
/// for itself.
pub open spec fn percent_decoded(b: Seq<u8>) -> Seq<u8>
    decreases b.len(),
{
    if b.len() == 0 {
        seq![]
    } else if b[0] == 0x25 && b.len() >= 3 && is_hex_digit(b[1]) && is_hex_digit(b[2]) {
        seq![(hex_value(b[1]) * 16 + hex_value(b[2])) as u8] + percent_decoded(b.skip(3))
    } else {
        seq![b[0]] + percent_decoded(b.skip(1))
    }
}

/// The text that a percent-encoded string stands for, where the decoded
/// bytes are valid UTF-8.
pub open spec fn url_decoded(data: Seq<char>) -> Option<Seq<char>> {
    let b = percent_decoded(encode_utf8(data));
    if valid_utf8(b) {
        Some(decode_utf8(b))
    } else {
        None
    }
}

/// The value of a query pair that is the `data` parameter.
pub open spec fn data_pair_value(pair: Seq<char>) -> Option<Seq<char>> {
    let k = DATA_KEY@;
    if pair.len() >= k.len() && pair.take(k.len() as int) == k {
        Some(pair.skip(k.len() as int))
    } else {
        None
    }
}

/// The value of the first `data` pair among query pairs.
pub open spec fn first_data_value(pairs: Seq<Seq<char>>) -> Option<Seq<char>>
    decreases pairs.len(),
{
    if pairs.len() == 0 {
        None
    } else {
        match first_data_value(pairs.drop_last()) {
            Some(v) => Some(v),
            None => data_pair_value(pairs.last()),
        }
    }
}

/// The still-encoded `data` parameter of a beacon request: the path must
/// be `/playback?`, the query is cut into pairs at `&`, and the first pair
/// `data=...` gives the value. Requests over the length limit carry none.
pub open spec fn beacon_data(url: Seq<char>) -> Option<Seq<char>> {
    let p = BEACON_PATH@;
    if url.len() <= MAX_BEACON_CHARS && url.len() >= p.len() && url.take(p.len() as int) == p {
        first_data_value(split_fields(url.skip(p.len() as int), '&'))
    } else {
        None
    }
}

/// The JSON text that a request path delivers, if it is a beacon at all
/// and its payload decodes.
pub open spec fn beacon_json(url: Seq<char>) -> Option<Seq<char>> {
    match beacon_data(url) {
        Some(d) => url_decoded(d),
        None => None,
    }
}

/// Characters that the page's `encodeURIComponent` leaves as they are.
pub open spec fn uri_unreserved(c: char) -> bool {
    ('0' <= c && c <= '9') || ('A' <= c && c <= 'Z') || ('a' <= c && c <= 'z') || c == '-' || c
        == '_' || c == '.' || c == '!' || c == '~' || c == '*' || c == '\'' || c == '(' || c == ')'
}

pub open spec fn upper_hex_digit(d: int) -> char {
    seq!['0', '1', '2', '3', '4', '5', '6', '7', '8', '9', 'A', 'B', 'C', 'D', 'E', 'F'][d]
}

/// `%XX`, with upper-case hex, for each byte.
pub open spec fn percent_escaped(b: Seq<u8>) -> Seq<char>
    decreases b.len(),
{
    if b.len() == 0 {
        Seq::empty()
    } else {
        seq!['%', upper_hex_digit(b[0] as int / 16), upper_hex_digit(b[0] as int % 16)]
            + percent_escaped(b.drop_first())
    }
}

/// What the page's `encodeURIComponent` makes of a text: unreserved
/// characters stay, every other character becomes the `%XX` escapes of its
/// UTF-8 bytes.
pub open spec fn uri_component(t: Seq<char>) -> Seq<char>
    decreases t.len(),
{
    if t.len() == 0 {
        Seq::empty()
    } else {
        (if uri_unreserved(t[0]) {
            seq![t[0]]
        } else {
            percent_escaped(encode_scalar(t[0] as u32))
        }) + uri_component(t.drop_first())
    }
}

spec fn ascii_bytes(c: Seq<char>) -> Seq<u8> {
    c.map_values(|x: char| x as u8)
}

proof fn lemma_upper_hex(d: int)
    requires
        0 <= d < 16,
    ensures
        upper_hex_digit(d) <= '\u{7f}',
        is_hex_digit(upper_hex_digit(d) as u8),
        hex_value(upper_hex_digit(d) as u8) == d,
{
    let s = seq!['0', '1', '2', '3', '4', '5', '6', '7', '8', '9', 'A', 'B', 'C', 'D', 'E', 'F'];
    assert(s[0] == '0' && s[1] == '1' && s[2] == '2' && s[3] == '3' && s[4] == '4' && s[5] == '5'
        && s[6] == '6' && s[7] == '7' && s[8] == '8' && s[9] == '9' && s[10] == 'A' && s[11]
        == 'B' && s[12] == 'C' && s[13] == 'D' && s[14] == 'E' && s[15] == 'F');
}

proof fn lemma_ascii_concat(a: Seq<char>, b: Seq<char>)
    ensures
        ascii_bytes(a + b) == ascii_bytes(a) + ascii_bytes(b),
        is_ascii_chars(a) && is_ascii_chars(b) ==> is_ascii_chars(a + b),
{
    assert(ascii_bytes(a + b) =~= ascii_bytes(a) + ascii_bytes(b));
    if is_ascii_chars(a) && is_ascii_chars(b) {
        assert forall|i| 0 <= i < (a + b).len() implies '\0' <= #[trigger] (a + b)[i] <= '\u{7f}' by {
            if i < a.len() {
                assert((a + b)[i] == a[i]);
            } else {
                assert((a + b)[i] == b[i - a.len()]);
            }
        }
    }
}

/// Percent-decoding undoes `percent_escaped`, whatever follows.
proof fn lemma_escaped_decodes(b: Seq<u8>, rest: Seq<u8>)
    ensures
        is_ascii_chars(percent_escaped(b)),
        forall|i: int| 0 <= i < percent_escaped(b).len() ==> percent_escaped(b)[i] != '&',
        percent_decoded(ascii_bytes(percent_escaped(b)) + rest) == b + percent_decoded(rest),
    decreases b.len(),
{
    if b.len() == 0 {
        assert(ascii_bytes(percent_escaped(b)) + rest =~= rest);
        assert(b + percent_decoded(rest) =~= percent_decoded(rest));
    } else {
        let hi = b[0] as int / 16;
        let lo = b[0] as int % 16;
        lemma_upper_hex(hi);
        lemma_upper_hex(lo);
        let unit = seq!['%', upper_hex_digit(hi), upper_hex_digit(lo)];
        let tail = percent_escaped(b.drop_first());
        lemma_escaped_decodes(b.drop_first(), rest);
        lemma_ascii_concat(unit, tail);
        assert(is_ascii_chars(unit));
        let x = ascii_bytes(percent_escaped(b)) + rest;
        assert(ascii_bytes(unit) =~= seq![0x25u8, upper_hex_digit(hi) as u8, upper_hex_digit(lo) as u8]);
        assert(x =~= ascii_bytes(unit) + (ascii_bytes(tail) + rest));
        assert(x.skip(3) =~= ascii_bytes(tail) + rest);
        assert(x[0] == 0x25 && x[1] == upper_hex_digit(hi) as u8 && x[2] == upper_hex_digit(lo) as u8);
        assert(hi * 16 + lo == b[0] as int);
        assert(percent_decoded(x) == seq![b[0]] + percent_decoded(x.skip(3)));
        assert(seq![b[0]] + (b.drop_first() + percent_decoded(rest)) =~= b + percent_decoded(rest));
    }
}

proof fn lemma_component_decodes(t: Seq<char>)
    ensures
        is_ascii_chars(uri_component(t)),
        forall|i: int| 0 <= i < uri_component(t).len() ==> uri_component(t)[i] != '&',
        percent_decoded(ascii_bytes(uri_component(t))) == encode_utf8(t),
    decreases t.len(),
{
    if t.len() == 0 {
        assert(ascii_bytes(uri_component(t)) =~= Seq::<u8>::empty());
    } else {
        let c = t[0];
        let tail = uri_component(t.drop_first());
        lemma_component_decodes(t.drop_first());
        if uri_unreserved(c) {
            let unit = seq![c];
            assert(is_ascii_chars(unit));
            lemma_ascii_concat(unit, tail);
            is_ascii_chars_encode_utf8(unit);
            assert(encode_utf8(unit) == encode_scalar(c as u32) + encode_utf8(unit.drop_first()));
            assert(unit.drop_first() =~= Seq::<char>::empty());
            assert(encode_scalar(c as u32) =~= seq![c as u8]);
            let x = ascii_bytes(unit + tail);
            assert(x =~= seq![c as u8] + ascii_bytes(tail));
            assert(x.skip(1) =~= ascii_bytes(tail));
            assert(x[0] == c as u8 && x[0] != 0x25);
            assert(percent_decoded(x) == seq![x[0]] + percent_decoded(x.skip(1)));
        } else {
            let unit = percent_escaped(encode_scalar(c as u32));
            lemma_escaped_decodes(encode_scalar(c as u32), ascii_bytes(tail));
            lemma_ascii_concat(unit, tail);
        }
    }
}

/// A text without `sep` is a single field.
proof fn lemma_split_without_sep(s: Seq<char>, sep: char)
    requires
        forall|i: int| 0 <= i < s.len() ==> s[i] != sep,
    ensures
        split_fields(s, sep) == seq![s],
    decreases s.len(),
{
    if s.len() > 0 {
        let d = s.drop_last();
        assert forall|i: int| 0 <= i < d.len() implies d[i] != sep by {
            assert(d[i] == s[i]);
        }
        lemma_split_without_sep(d, sep);
        assert(s.last() != sep);
        assert(d.push(s.last()) =~= s);
        assert(seq![d].last() == d);
        assert(seq![d].update(0, s) =~= seq![s]);
    } else {
        assert(s =~= Seq::<char>::empty());
    }
}

/// A beacon carries its payload intact: for any text, the request that
/// the page builds with `encodeURIComponent` delivers exactly that text
/// (reserved characters such as `+ & = % # /` and non-ASCII ones included),
/// as long as the request is within the length limit.
pub proof fn lemma_beacon_round_trip(t: Seq<char>)
    requires
        (BEACON_PATH@ + DATA_KEY@ + uri_component(t)).len() <= MAX_BEACON_CHARS,
    ensures
        beacon_json(BEACON_PATH@ + DATA_KEY@ + uri_component(t)) == Some(t),
{
    let p = BEACON_PATH@;
    let k = DATA_KEY@;
    let c = uri_component(t);
    let url = p + k + c;
    assert(url.take(p.len() as int) =~= p);
    assert(url.skip(p.len() as int) =~= k + c);
    lemma_component_decodes(t);
    reveal_strlit("data=");
    assert forall|i: int| 0 <= i < (k + c).len() implies (k + c)[i] != '&' by {
        if i >= k.len() {
            assert((k + c)[i] == c[i - k.len()]);
        }
    }
    lemma_split_without_sep(k + c, '&');
    assert(seq![k + c].drop_last() =~= Seq::<Seq<char>>::empty());
    assert((k + c).take(k.len() as int) =~= k);
    assert((k + c).skip(k.len() as int) =~= c);
    assert(first_data_value(Seq::<Seq<char>>::empty()) is None);
    assert(data_pair_value(k + c) == Some(c));
    assert(first_data_value(seq![k + c]) == Some(c));
    assert(split_fields(url.skip(p.len() as int), '&') == seq![k + c]);
    assert(beacon_data(url) == Some(c));
    is_ascii_chars_encode_utf8(c);
    assert(encode_utf8(c) =~= ascii_bytes(c));
    encode_utf8_valid_utf8(t);
    encode_utf8_decode_utf8(t);
}

/// Relies on urlencoding::decode: percent-decodes the bytes of `data` (a
/// lone or malformed `%` is kept, `+` is kept) and reads them as UTF-8,
/// failing exactly where they are not valid UTF-8.
#[verifier::external_body]
fn url_decode(data: &str) -> (r: Option<String>)
    ensures
        match r {
            Some(t) => url_decoded(data@) == Some(t@),
            None => url_decoded(data@) is None,
        },
{
    urlencoding::decode(data).ok().map(|c| c.into_owned())
}

/// Whether `cs[from..to]` starts with `key`.
fn has_prefix_at(cs: &Vec<char>, from: usize, to: usize, key: &Vec<char>) -> (r: bool)
    requires
        from <= to <= cs.len(),
    ensures
        r == (to - from >= key.len() && cs@.subrange(from as int, to as int).take(key.len() as int)
            == key@),
{
    if to - from < key.len() {
        return false;
    }
    let ghost field = cs@.subrange(from as int, to as int);
    let mut j: usize = 0;
    while j < key.len()
        invariant
            from <= to <= cs.len(),
            key.len() <= to - from,
            field == cs@.subrange(from as int, to as int),
            0 <= j <= key.len(),
            forall|k: int| 0 <= k < j ==> cs@[from + k] == key@[k],
        decreases key.len() - j,
    {
        if cs[from + j] != key[j] {
            assert(field.take(key.len() as int)[j as int] != key@[j as int]);
            return false;
        }
        j = j + 1;
    }
    assert(field.take(key.len() as int) =~= key@);
    true
}

/// The decoded JSON text of a beacon, given the request's path and query:
/// the first `data` parameter of a `/playback?` request within the length
/// limit, percent-decoded. `None` for any other request and for a value
/// that does not decode.
pub fn beacon_payload(url: &str) -> (r: Option<String>)
    ensures
        match r {
            Some(t) => beacon_json(url@) == Some(t@),
            None => beacon_json(url@) is None,
        },
{
    let cs = chars_of(url);
    let pv = chars_of(BEACON_PATH);
    let kv = chars_of(DATA_KEY);
    let n = cs.len();
    if n > MAX_BEACON_CHARS || !has_prefix_at(&cs, 0, n, &pv) {
        assert(cs@.subrange(0, n as int) == url@);
        return None;
    }
    assert(cs@.subrange(0, n as int) == url@);
    let plen = pv.len();
    let ghost q = url@.skip(plen as int);
    // the pair being read starts at `start`; `found` is the first data value
    let mut start = plen;
    let mut found: Option<(usize, usize)> = None;
    let mut i = plen;
    assert(q.take(0) =~= Seq::<char>::empty());
    assert(cs@.subrange(plen as int, plen as int) =~= Seq::<char>::empty());
    while i < n
        invariant
            cs@ == url@,
            n == cs.len(),
            kv@ == DATA_KEY@,
            plen <= start <= i <= n,
            q == url@.skip(plen as int),
            split_fields(q.take(i - plen), '&').len() >= 1,
            split_fields(q.take(i - plen), '&').last() == cs@.subrange(start as int, i as int),
            match found {
                Some((a, b)) => plen <= a <= b <= n && first_data_value(
                    split_fields(q.take(i - plen), '&').drop_last(),
                ) == Some(cs@.subrange(a as int, b as int)),
                None => first_data_value(split_fields(q.take(i - plen), '&').drop_last()) is None,
            },
        decreases n - i,
    {
        let ghost prev = split_fields(q.take(i - plen), '&');
        proof {
            lemma_split_step(q, '&', i - plen);
        }
        assert(q.take(i - plen + 1) == q.take((i + 1 - plen) as int));
        let ghost next = split_fields(q.take(i + 1 - plen), '&');
        assert(q[i - plen] == cs@[i as int]);
        if cs[i] == '&' {
            assert(next.drop_last() == prev);
            assert(next.last() =~= cs@.subrange((i + 1) as int, (i + 1) as int));
            if found.is_none() && has_prefix_at(&cs, start, i, &kv) {
                assert(cs@.subrange(start as int, i as int).skip(kv.len() as int) =~= cs@.subrange(
                    (start + kv.len()) as int,
                    i as int,
                ));
                found = Some((start + kv.len(), i));
            }
            start = i + 1;
        } else {
            assert(next.drop_last() =~= prev.drop_last());
            assert(next.last() =~= cs@.subrange(start as int, (i + 1) as int));
        }
        i = i + 1;
    }
    assert(q.take(n - plen) =~= q);
    let ghost pairs = split_fields(q, '&');
    let (a, b) = match found {
        Some(ab) => ab,
        None => {
            if !has_prefix_at(&cs, start, n, &kv) {
                return None;
            }
            assert(cs@.subrange(start as int, n as int).skip(kv.len() as int) =~= cs@.subrange(
                (start + kv.len()) as int,
                n as int,
            ));
            (start + kv.len(), n)
        },
    };
    let data = url.substring_char(a, b);
    url_decode(data)
}

} // verus!
