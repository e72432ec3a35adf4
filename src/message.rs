use vstd::prelude::*;
use vstd::utf8::{decode_utf8, encode_utf8, valid_utf8};

verus! {

broadcast use vstd::utf8::encode_utf8_valid_utf8, vstd::utf8::encode_utf8_decode_utf8;

/// What `String::from_utf8_lossy` makes of bytes that are not valid UTF-8.
pub uninterp spec fn lossy_text(b: Seq<u8>) -> Seq<char>;

/// The text that a byte sequence reads as: its UTF-8 decoding where it is
/// valid UTF-8, else the lossy reading.
pub open spec fn text_of(b: Seq<u8>) -> Seq<char> {
    if valid_utf8(b) {
        decode_utf8(b)
    } else {
        lossy_text(b)
    }
}

/// Relies on `String::from_utf8_lossy`: valid UTF-8 is read as it stands,
/// other input depends on the bytes alone.
#[verifier::external_body]
pub(crate) fn text_from_bytes(b: &[u8]) -> (r: String)
    ensures
        valid_utf8(b@) ==> r@ == decode_utf8(b@),
        !valid_utf8(b@) ==> r@ == lossy_text(b@),
{
    String::from_utf8_lossy(b).into_owned()
}

/// The UTF-8 encoding of a concatenation is the concatenation of the
/// encodings.
pub proof fn lemma_encode_utf8_concat(a: Seq<char>, b: Seq<char>)
    ensures
        encode_utf8(a + b) == encode_utf8(a) + encode_utf8(b),
    decreases a.len(),
{
    if a.len() == 0 {
        assert(a + b =~= b);
    } else {
        assert((a + b).drop_first() =~= a.drop_first() + b);
        lemma_encode_utf8_concat(a.drop_first(), b);
    }
}

/// Appends the bytes of `src` to `buf`.
pub fn append_bytes(buf: &mut Vec<u8>, src: &[u8])
    ensures
        final(buf)@ == old(buf)@ + src@,
{
    let mut i: usize = 0;
    while i < src.len()
        invariant
            i <= src@.len(),
            buf@ == old(buf)@ + src@.subrange(0, i as int),
        decreases src@.len() - i,
    {
        buf.push(src[i]);
        i = i + 1;
        assert(src@.subrange(0, i as int) =~= src@.subrange(0, i - 1) + seq![src@[i - 1]]);
    }
    assert(src@.subrange(0, src@.len() as int) =~= src@);
}

/// Whether `b` begins with `p`.
pub open spec fn starts_with(b: Seq<u8>, p: Seq<u8>) -> bool {
    p.len() <= b.len() && b.subrange(0, p.len() as int) == p
}

/// Whether `buf` begins with `p`.
pub fn has_prefix(buf: &[u8], p: &[u8]) -> (r: bool)
    ensures
        r == starts_with(buf@, p@),
{
    if p.len() > buf.len() {
        return false;
    }
    let mut i: usize = 0;
    while i < p.len()
        invariant
            p@.len() <= buf@.len(),
            i <= p@.len(),
            forall|j: int| 0 <= j < i ==> buf@[j] == p@[j],
        decreases p@.len() - i,
    {
        if buf[i] != p[i] {
            assert(buf@.subrange(0, p@.len() as int)[i as int] != p@[i as int]);
            return false;
        }
        i = i + 1;
    }
    assert(buf@.subrange(0, p@.len() as int) =~= p@);
    true
}

/// The bytes of `buf` from `start` to `end`.
pub fn byte_range(buf: &[u8], start: usize, end: usize) -> (r: Vec<u8>)
    requires
        start <= end <= buf@.len(),
    ensures
        r@ == buf@.subrange(start as int, end as int),
{
    let mut out: Vec<u8> = Vec::new();
    let mut i: usize = start;
    while i < end
        invariant
            start <= i <= end <= buf@.len(),
            out@ == buf@.subrange(start as int, i as int),
        decreases end - i,
    {
        out.push(buf[i]);
        i = i + 1;
        assert(buf@.subrange(start as int, i as int) =~= buf@.subrange(start as int, i - 1) + seq![buf@[i - 1]]);
    }
    out
}

} // verus!

verus! {

/// A message that knows its byte encoding and how to read itself back.
pub trait Message: Sized {
    /// The bytes that `encode` appends.
    spec fn encoding(&self) -> Seq<u8>;

    /// Whether `decode` accepts `b`.
    spec fn decodable(b: Seq<u8>) -> bool;

    /// Whether `m` is what `decode` reads from `b`.
    spec fn decodes_to(b: Seq<u8>, m: Self) -> bool;

    fn encode(&self, buf: &mut Vec<u8>) -> (r: Result<(), String>)
        ensures
            r is Ok,
            final(buf)@ == old(buf)@ + self.encoding(),
    ;

    fn decode(buf: &[u8]) -> (r: Result<Self, String>)
        ensures
            r is Ok <==> Self::decodable(buf@),
            r matches Ok(m) ==> Self::decodes_to(buf@, m),
            r matches Err(e) ==> e@ == invalid_format_text(),
    ;
}

/// The error text of a decode that fails.
pub open spec fn invalid_format_text() -> Seq<char> {
    seq!['I', 'n', 'v', 'a', 'l', 'i', 'd', ' ', 'f', 'o', 'r', 'm', 'a', 't']
}

fn invalid_format() -> (r: String)
    ensures
        r@ == invalid_format_text(),
{
    let r = "Invalid format".to_owned();
    proof {
        reveal_strlit("Invalid format");
        assert(r@ =~= invalid_format_text());
    }
    r
}

/// The tag that opens an encoded `PingResponse`: `ping:`.
pub open spec fn ping_tag() -> Seq<u8> {
    seq![112u8, 105u8, 110u8, 103u8, 58u8]
}

/// The tag that opens an encoded `GetCacheRequest`: `get:`.
pub open spec fn get_tag() -> Seq<u8> {
    seq![103u8, 101u8, 116u8, 58u8]
}

/// The tag that opens an encoded `GetCacheResponse`: `resp:`.
pub open spec fn resp_tag() -> Seq<u8> {
    seq![114u8, 101u8, 115u8, 112u8, 58u8]
}

/// The byte of `:`, which parts the fields of a `GetCacheRequest`.
pub const COLON: u8 = 58;

fn ping_tag_bytes() -> (r: Vec<u8>)
    ensures
        r@ == ping_tag(),
{
    let r: Vec<u8> = vec![112, 105, 110, 103, 58];
    assert(r@ =~= ping_tag());
    r
}

fn get_tag_bytes() -> (r: Vec<u8>)
    ensures
        r@ == get_tag(),
{
    let r: Vec<u8> = vec![103, 101, 116, 58];
    assert(r@ =~= get_tag());
    r
}

fn resp_tag_bytes() -> (r: Vec<u8>)
    ensures
        r@ == resp_tag(),
{
    let r: Vec<u8> = vec![114, 101, 115, 112, 58];
    assert(r@ =~= resp_tag());
    r
}

/// The message with no content.
#[derive(Default, Clone, Copy, Debug)]
pub struct Empty;

impl Message for Empty {
    open spec fn encoding(&self) -> Seq<u8> {
        Seq::empty()
    }

    open spec fn decodable(b: Seq<u8>) -> bool {
        true
    }

    open spec fn decodes_to(b: Seq<u8>, m: Self) -> bool {
        true
    }

    fn encode(&self, buf: &mut Vec<u8>) -> (r: Result<(), String>) {
        assert(buf@ =~= buf@ + Seq::<u8>::empty());
        Ok(())
    }

    fn decode(buf: &[u8]) -> (r: Result<Self, String>) {
        Ok(Empty)
    }
}

/// The answer to a ping.
#[derive(Default, Clone, Debug)]
pub struct PingResponse {
    pub message: String,
}

impl Message for PingResponse {
    open spec fn encoding(&self) -> Seq<u8> {
        ping_tag() + encode_utf8(self.message@)
    }

    open spec fn decodable(b: Seq<u8>) -> bool {
        starts_with(b, ping_tag())
    }

    open spec fn decodes_to(b: Seq<u8>, m: Self) -> bool {
        m.message@ == text_of(b.subrange(ping_tag().len() as int, b.len() as int))
    }

    fn encode(&self, buf: &mut Vec<u8>) -> (r: Result<(), String>) {
        let tag = ping_tag_bytes();
        append_bytes(buf, tag.as_slice());
        append_bytes(buf, self.message.as_str().as_bytes());
        assert(final(buf)@ =~= old(buf)@ + self.encoding());
        Ok(())
    }

    fn decode(buf: &[u8]) -> (r: Result<Self, String>) {
        let tag = ping_tag_bytes();
        if has_prefix(buf, tag.as_slice()) {
            let rest = byte_range(buf, tag.len(), buf.len());
            Ok(PingResponse { message: text_from_bytes(rest.as_slice()) })
        } else {
            Err(invalid_format())
        }
    }
}

} // verus!

verus! {

/// The byte of `\`, which escapes a `:` or a `\` in a store name.
pub const BACKSLASH: u8 = 92;

/// A byte of a store name as encoded: `:` and `\` get a `\` before them.
pub open spec fn escaped_byte(b: u8) -> Seq<u8> {
    if b == COLON || b == BACKSLASH {
        seq![BACKSLASH, b]
    } else {
        seq![b]
    }
}

/// The bytes of a store name as encoded, each byte escaped.
pub open spec fn escaped(s: Seq<u8>) -> Seq<u8>
    decreases s.len(),
{
    if s.len() == 0 {
        Seq::empty()
    } else {
        escaped_byte(s[0]) + escaped(s.drop_first())
    }
}

/// Reads an escaped field up to its first unescaped `:`: the field's bytes
/// and how many bytes it took, that `:` included; `None` where no such `:`
/// comes or the bytes end on a lone `\`.
pub open spec fn unescape_field(b: Seq<u8>) -> Option<(Seq<u8>, int)>
    decreases b.len(),
{
    if b.len() == 0 {
        None
    } else if b[0] == COLON {
        Some((Seq::empty(), 1))
    } else if b[0] == BACKSLASH {
        if b.len() < 2 {
            None
        } else {
            match unescape_field(b.subrange(2, b.len() as int)) {
                Some((f, n)) => Some((seq![b[1]] + f, n + 2)),
                None => None,
            }
        }
    } else {
        match unescape_field(b.subrange(1, b.len() as int)) {
            Some((f, n)) => Some((seq![b[0]] + f, n + 1)),
            None => None,
        }
    }
}

/// `r` with `pre` put before its field and `used` added to its length.
pub open spec fn prefixed(pre: Seq<u8>, used: int, r: Option<(Seq<u8>, int)>) -> Option<(Seq<u8>, int)> {
    match r {
        Some((f, n)) => Some((pre + f, n + used)),
        None => None,
    }
}

/// The store-name bytes and key bytes of an encoded lookup request, if it is
/// one.
pub open spec fn request_fields(b: Seq<u8>) -> Option<(Seq<u8>, Seq<u8>)> {
    if !starts_with(b, get_tag()) {
        None
    } else {
        let rest = b.subrange(get_tag().len() as int, b.len() as int);
        match unescape_field(rest) {
            Some((f, n)) => Some((f, rest.subrange(n, rest.len() as int))),
            None => None,
        }
    }
}

/// The store name that an encoded lookup request reads as.
pub open spec fn request_store(b: Seq<u8>) -> Seq<char> {
    text_of(request_fields(b).unwrap().0)
}

/// The key that an encoded lookup request reads as.
pub open spec fn request_key(b: Seq<u8>) -> Seq<char> {
    text_of(request_fields(b).unwrap().1)
}

/// Escaping a concatenation escapes each part.
pub proof fn lemma_escaped_concat(a: Seq<u8>, b: Seq<u8>)
    ensures
        escaped(a + b) == escaped(a) + escaped(b),
    decreases a.len(),
{
    if a.len() == 0 {
        assert(a + b =~= b);
    } else {
        assert((a + b).drop_first() =~= a.drop_first() + b);
        lemma_escaped_concat(a.drop_first(), b);
    }
}

/// An escaped field followed by `:` reads back as the field, whatever
/// follows.
pub proof fn lemma_unescape_escaped(f: Seq<u8>, tail: Seq<u8>)
    ensures
        unescape_field(escaped(f) + seq![COLON] + tail) == Some((f, escaped(f).len() + 1 as int)),
    decreases f.len(),
{
    let t = escaped(f) + seq![COLON] + tail;
    if f.len() == 0 {
        assert(t[0] == COLON);
    } else {
        let g = f.drop_first();
        let u = escaped(g) + seq![COLON] + tail;
        lemma_unescape_escaped(g, tail);
        if f[0] == COLON || f[0] == BACKSLASH {
            assert(t.subrange(2, t.len() as int) =~= u);
        } else {
            assert(t.subrange(1, t.len() as int) =~= u);
        }
        assert(seq![f[0]] + g =~= f);
    }
}

/// A lookup of `key` in the cache store `store_name`.
#[derive(Default, Clone, Debug)]
pub struct GetCacheRequest {
    pub store_name: String,
    pub key: String,
}

impl Message for GetCacheRequest {
    open spec fn encoding(&self) -> Seq<u8> {
        get_tag() + escaped(encode_utf8(self.store_name@)) + seq![COLON] + encode_utf8(self.key@)
    }

    open spec fn decodable(b: Seq<u8>) -> bool {
        request_fields(b) is Some
    }

    open spec fn decodes_to(b: Seq<u8>, m: Self) -> bool {
        request_fields(b) is Some && m.store_name@ == request_store(b) && m.key@ == request_key(b)
    }

    fn encode(&self, buf: &mut Vec<u8>) -> (r: Result<(), String>) {
        let tag = get_tag_bytes();
        append_bytes(buf, tag.as_slice());
        let name = self.store_name.as_str().as_bytes();
        let ghost start = buf@;
        let mut i: usize = 0;
        while i < name.len()
            invariant
                i <= name@.len(),
                buf@ == start + escaped(name@.subrange(0, i as int)),
            decreases name@.len() - i,
        {
            let c = name[i];
            if c == COLON || c == BACKSLASH {
                buf.push(BACKSLASH);
            }
            buf.push(c);
            proof {
                lemma_escaped_concat(name@.subrange(0, i as int), seq![c]);
                assert(name@.subrange(0, i + 1) =~= name@.subrange(0, i as int) + seq![c]);
                assert(seq![c].drop_first() =~= Seq::<u8>::empty());
                assert(escaped(Seq::<u8>::empty()) == Seq::<u8>::empty());
                assert(escaped_byte(c) + Seq::<u8>::empty() =~= escaped_byte(c));
                assert(escaped(seq![c]) =~= escaped_byte(c));
            }
            i = i + 1;
        }
        assert(name@.subrange(0, name@.len() as int) =~= name@);
        buf.push(COLON);
        append_bytes(buf, self.key.as_str().as_bytes());
        assert(final(buf)@ =~= old(buf)@ + self.encoding());
        Ok(())
    }

    fn decode(buf: &[u8]) -> (r: Result<Self, String>) {
        let tag = get_tag_bytes();
        if !has_prefix(buf, tag.as_slice()) {
            return Err(invalid_format());
        }
        let n = buf.len();
        let t = tag.len();
        let ghost rest = buf@.subrange(t as int, n as int);
        let mut store: Vec<u8> = Vec::new();
        let mut i: usize = t;
        assert(buf@.subrange(i as int, n as int) =~= rest);
        assert(store@ + Seq::<u8>::empty() =~= store@);
        while i < n
            invariant
                t == get_tag().len(),
                t <= i <= n,
                n == buf@.len(),
                starts_with(buf@, get_tag()),
                rest == buf@.subrange(t as int, n as int),
                unescape_field(rest) == prefixed(
                    store@,
                    i - t,
                    unescape_field(buf@.subrange(i as int, n as int)),
                ),
            decreases n - i,
        {
            let ghost here = buf@.subrange(i as int, n as int);
            let c = buf[i];
            if c == COLON {
                let key = byte_range(buf, i + 1, n);
                assert(rest.subrange(i - t + 1, rest.len() as int) =~= key@);
                let m = GetCacheRequest {
                    store_name: text_from_bytes(store.as_slice()),
                    key: text_from_bytes(key.as_slice()),
                };
                assert(store@ + Seq::<u8>::empty() =~= store@);
                return Ok(m);
            } else if c == BACKSLASH {
                if i + 1 >= n {
                    return Err(invalid_format());
                }
                let d = buf[i + 1];
                proof {
                    assert(here.subrange(2, here.len() as int) =~= buf@.subrange(i + 2, n as int));
                    let pre = store@;
                    assert forall|f: Seq<u8>| #![auto] pre + (seq![d] + f) == (pre + seq![d]) + f by {
                        assert(pre + (seq![d] + f) =~= (pre + seq![d]) + f);
                    }
                }
                store.push(d);
                i = i + 2;
            } else {
                proof {
                    assert(here.subrange(1, here.len() as int) =~= buf@.subrange(i + 1, n as int));
                    let pre = store@;
                    assert forall|f: Seq<u8>| #![auto] pre + (seq![c] + f) == (pre + seq![c]) + f by {
                        assert(pre + (seq![c] + f) =~= (pre + seq![c]) + f);
                    }
                }
                store.push(c);
                i = i + 1;
            }
        }
        Err(invalid_format())
    }
}

/// The value found by a cache lookup.
#[derive(Default, Clone, Debug)]
pub struct GetCacheResponse {
    pub value: String,
}

impl Message for GetCacheResponse {
    open spec fn encoding(&self) -> Seq<u8> {
        resp_tag() + encode_utf8(self.value@)
    }

    open spec fn decodable(b: Seq<u8>) -> bool {
        starts_with(b, resp_tag())
    }

    open spec fn decodes_to(b: Seq<u8>, m: Self) -> bool {
        m.value@ == text_of(b.subrange(resp_tag().len() as int, b.len() as int))
    }

    fn encode(&self, buf: &mut Vec<u8>) -> (r: Result<(), String>) {
        let tag = resp_tag_bytes();
        append_bytes(buf, tag.as_slice());
        append_bytes(buf, self.value.as_str().as_bytes());
        assert(final(buf)@ =~= old(buf)@ + self.encoding());
        Ok(())
    }

    fn decode(buf: &[u8]) -> (r: Result<Self, String>) {
        let tag = resp_tag_bytes();
        if has_prefix(buf, tag.as_slice()) {
            let rest = byte_range(buf, tag.len(), buf.len());
            Ok(GetCacheResponse { value: text_from_bytes(rest.as_slice()) })
        } else {
            Err(invalid_format())
        }
    }
}

} // verus!

verus! {

/// A ping response reads back from its encoding with the same message.
pub proof fn lemma_ping_response_round_trip(m: PingResponse, back: PingResponse)
    requires
        PingResponse::decodes_to(m.encoding(), back),
    ensures
        PingResponse::decodable(m.encoding()),
        back.message@ == m.message@,
{
    let b = m.encoding();
    assert(b.subrange(0, ping_tag().len() as int) =~= ping_tag());
    assert(b.subrange(ping_tag().len() as int, b.len() as int) =~= encode_utf8(m.message@));
}

/// A cache response reads back from its encoding with the same value.
pub proof fn lemma_get_cache_response_round_trip(m: GetCacheResponse, back: GetCacheResponse)
    requires
        GetCacheResponse::decodes_to(m.encoding(), back),
    ensures
        GetCacheResponse::decodable(m.encoding()),
        back.value@ == m.value@,
{
    let b = m.encoding();
    assert(b.subrange(0, resp_tag().len() as int) =~= resp_tag());
    assert(b.subrange(resp_tag().len() as int, b.len() as int) =~= encode_utf8(m.value@));
}

/// Every lookup request reads back from its encoding with the same store
/// name and key, whatever bytes they hold.
pub proof fn lemma_get_cache_request_round_trip(m: GetCacheRequest, back: GetCacheRequest)
    ensures
        GetCacheRequest::decodable(m.encoding()),
        request_store(m.encoding()) == m.store_name@,
        request_key(m.encoding()) == m.key@,
        GetCacheRequest::decodes_to(m.encoding(), back) <==> (back.store_name@ == m.store_name@
            && back.key@ == m.key@),
{
    let b = m.encoding();
    let t = get_tag().len() as int;
    let f = encode_utf8(m.store_name@);
    let k = encode_utf8(m.key@);
    assert(b.subrange(0, t) =~= get_tag());
    let rest = b.subrange(t, b.len() as int);
    assert(rest =~= escaped(f) + seq![COLON] + k);
    lemma_unescape_escaped(f, k);
    assert(rest.subrange(escaped(f).len() + 1 as int, rest.len() as int) =~= k);
}

} // verus!
