//! The wire form of a [`Message`]: a self-describing tagged byte encoding.
//!
//! Every integer is laid down little-endian in a fixed number of bytes;
//! text is carried as length-prefixed UTF-8; the body starts with a tag
//! byte that distinguishes the six variants. [`encode`] and [`decode`] are
//! exact inverses on well-formed messages, and [`decode`] is total: any
//! byte sequence either decodes to a message or is rejected with a
//! [`DecodeError`], never more.

use vstd::prelude::*;
use vstd::string::StrSliceExecFns;
use vstd::utf8::{decode_utf8, encode_utf8, valid_utf8};

use crate::model::{
    BodyView, ClientId, Message, MessageBody, MessageView, Post, PostHeader, PostHeaderView,
    PostView, Timestamp,
};

verus! {

/// Why a byte sequence is not the encoding of any message.
#[derive(Clone, Copy, PartialEq, Eq, Structural, Debug)]
pub enum DecodeError {
    /// The bytes end before the announced content does.
    Truncated,
    /// The body tag denotes no known message variant.
    UnknownTag,
    /// A text field is not valid UTF-8.
    InvalidText,
    /// Well-formed content is followed by leftover bytes.
    TrailingBytes,
}

/// The text of each decode fault, as sent back to the offending client.
pub open spec fn spec_decode_error_text(e: DecodeError) -> Seq<char> {
    match e {
        DecodeError::Truncated => "message truncated"@,
        DecodeError::UnknownTag => "unknown message tag"@,
        DecodeError::InvalidText => "text field is not valid utf-8"@,
        DecodeError::TrailingBytes => "unexpected bytes after message"@,
    }
}

impl DecodeError {
    /// The fault described in words.
    pub fn message(&self) -> (r: String)
        ensures
            r@ == spec_decode_error_text(*self),
    {
        let s: &str = match self {
            DecodeError::Truncated => "message truncated",
            DecodeError::UnknownTag => "unknown message tag",
            DecodeError::InvalidText => "text field is not valid utf-8",
            DecodeError::TrailingBytes => "unexpected bytes after message",
        };
        s.to_owned()
    }
}

/// 256 to the `n`th power: the number of values `n` bytes can hold.
pub open spec fn pow256(n: nat) -> nat
    decreases n,
{
    if n == 0 {
        1
    } else {
        256 * pow256((n - 1) as nat)
    }
}

/// The value of `x`, laid down little-endian in `n` bytes. Bits beyond the
/// `n`th byte are not represented.
pub open spec fn enc_le(x: nat, n: nat) -> Seq<u8>
    decreases n,
{
    if n == 0 {
        Seq::empty()
    } else {
        seq![(x % 256) as u8] + enc_le(x / 256, (n - 1) as nat)
    }
}

/// The value of a little-endian byte sequence.
pub open spec fn le_val(s: Seq<u8>) -> nat
    decreases s.len(),
{
    if s.len() == 0 {
        0nat
    } else {
        s[0] as nat + 256 * le_val(s.drop_first())
    }
}

/// Reads an `n`-byte little-endian integer off the front of `s`.
pub open spec fn sp_uint(s: Seq<u8>, n: nat) -> Result<(nat, Seq<u8>), DecodeError> {
    if s.len() < n {
        Err(DecodeError::Truncated)
    } else {
        Ok((le_val(s.take(n as int)), s.skip(n as int)))
    }
}

proof fn lemma_enc_le_len(x: nat, n: nat)
    ensures
        enc_le(x, n).len() == n,
    decreases n,
{
    if n > 0 {
        lemma_enc_le_len(x / 256, (n - 1) as nat);
    }
}

proof fn lemma_le_val_bound(s: Seq<u8>)
    ensures
        le_val(s) < pow256(s.len()),
    decreases s.len(),
{
    if s.len() == 0 {
    } else {
        lemma_le_val_bound(s.drop_first());
        let r = le_val(s.drop_first());
        let p = pow256((s.len() - 1) as nat);
        assert(256 * r <= 256 * (p - 1)) by (nonlinear_arith)
            requires
                r <= p - 1,
        ;
    }
}

/// Decoding undoes encoding on integers that fit in `n` bytes, whatever
/// bytes follow.
proof fn lemma_rt_uint(x: nat, n: nat, tail: Seq<u8>)
    requires
        x < pow256(n),
    ensures
        sp_uint(enc_le(x, n) + tail, n) == Ok::<(nat, Seq<u8>), DecodeError>((x, tail)),
    decreases n,
{
    lemma_enc_le_len(x, n);
    let s = enc_le(x, n) + tail;
    assert(s.take(n as int) =~= enc_le(x, n));
    assert(s.skip(n as int) =~= tail);
    lemma_le_val_enc(x, n);
}

/// On values that fit, `le_val` recovers what `enc_le` laid down.
proof fn lemma_le_val_enc(x: nat, n: nat)
    requires
        x < pow256(n),
    ensures
        le_val(enc_le(x, n)) == x,
    decreases n,
{
    if n == 0 {
    } else {
        let q = x / 256;
        let p = pow256((n - 1) as nat);
        assert(q < p) by (nonlinear_arith)
            requires
                x < 256 * p,
                q == x / 256,
                p > 0,
        ;
        lemma_le_val_enc(q, (n - 1) as nat);
        let s = enc_le(x, n);
        assert(s.drop_first() =~= enc_le(q, (n - 1) as nat));
        assert(x % 256 + 256 * q == x) by (nonlinear_arith)
            requires
                q == x / 256,
        ;
    }
}

/// The byte sizes this format uses, as concrete bounds.
proof fn lemma_pow256_vals()
    ensures
        pow256(1) == 0x100,
        pow256(8) == 0x1_0000_0000_0000_0000,
        pow256(16) == 0x1_0000_0000_0000_0000_0000_0000_0000_0000,
{
    assert(pow256(0) == 1);
    assert(pow256(1) == 256);
    assert(pow256(2) == 256 * pow256(1));
    assert(pow256(3) == 256 * pow256(2));
    assert(pow256(4) == 256 * pow256(3));
    assert(pow256(5) == 256 * pow256(4));
    assert(pow256(6) == 256 * pow256(5));
    assert(pow256(7) == 256 * pow256(6));
    assert(pow256(8) == 256 * pow256(7));
    assert(pow256(9) == 256 * pow256(8));
    assert(pow256(10) == 256 * pow256(9));
    assert(pow256(11) == 256 * pow256(10));
    assert(pow256(12) == 256 * pow256(11));
    assert(pow256(13) == 256 * pow256(12));
    assert(pow256(14) == 256 * pow256(13));
    assert(pow256(15) == 256 * pow256(14));
    assert(pow256(16) == 256 * pow256(15));
}

/// Appends the `n`-byte little-endian form of `x` to `out`.
fn enc_uint(out: &mut Vec<u8>, x: u128, n: usize)
    ensures
        final(out)@ == old(out)@ + enc_le(x as nat, n as nat),
    decreases n,
{
    if n == 0 {
        assert(final(out)@ =~= old(out)@ + enc_le(x as nat, 0));
    } else {
        let b: u8 = (x % 256) as u8;
        out.push(b);
        enc_uint(out, x / 256, n - 1);
        assert(final(out)@ =~= old(out)@ + enc_le(x as nat, n as nat));
    }
}

/// Reads the `n`-byte little-endian integer at `pos`.
fn dec_uint_at(v: &Vec<u8>, pos: usize, n: usize) -> (x: u128)
    requires
        pos + n <= v@.len(),
        n <= 16,
    ensures
        x as nat == le_val(v@.subrange(pos as int, pos as int + n as int)),
    decreases n,
{
    if n == 0 {
        assert(v@.subrange(pos as int, pos as int).len() == 0);
        0
    } else {
        proof {
            broadcast use vstd::std_specs::vec::axiom_spec_len;

            assert(v.len() <= usize::MAX);
        }
        let rest = dec_uint_at(v, pos + 1, n - 1);
        let ghost s = v@.subrange(pos as int, pos as int + n as int);
        proof {
            assert(s.drop_first() =~= v@.subrange(pos as int + 1, pos as int + 1 + (n - 1) as int));
            lemma_le_val_bound(s.drop_first());
            lemma_pow256_vals();
            lemma_pow256_mono((n - 1) as nat, 15);
            assert(256 * (rest as nat) <= 256 * (pow256(15) - 1)) by (nonlinear_arith)
                requires
                    rest as nat <= pow256(15) - 1,
            ;
        }
        v[pos] as u128 + 256 * rest
    }
}

proof fn lemma_pow256_mono(m: nat, n: nat)
    requires
        m <= n,
    ensures
        pow256(m) <= pow256(n),
    decreases n,
{
    if m < n {
        lemma_pow256_mono(m, (n - 1) as nat);
        let p = pow256((n - 1) as nat);
        lemma_pow256_pos((n - 1) as nat);
        assert(p <= 256 * p) by (nonlinear_arith)
            requires
                p > 0,
        ;
        assert(pow256(n) == 256 * p);
    }
}

proof fn lemma_pow256_pos(n: nat)
    ensures
        pow256(n) > 0,
    decreases n,
{
    if n > 0 {
        lemma_pow256_pos((n - 1) as nat);
    }
}

/// Reads an `n`-byte little-endian integer at `pos`, or reports truncation;
/// the exact executable form of [`sp_uint`].
fn dec_uint(v: &Vec<u8>, pos: usize, n: usize) -> (r: Result<(u128, usize), DecodeError>)
    requires
        pos <= v@.len(),
        n <= 16,
    ensures
        match r {
            Ok((x, p)) => {
                &&& p == pos + n
                &&& p <= v@.len()
                &&& sp_uint(v@.skip(pos as int), n as nat) == Ok::<(nat, Seq<u8>), DecodeError>(
                    (x as nat, v@.skip(p as int)),
                )
            },
            Err(e) => sp_uint(v@.skip(pos as int), n as nat) == Err::<(nat, Seq<u8>), DecodeError>(
                e,
            ),
        },
{
    if v.len() - pos < n {
        return Err(DecodeError::Truncated);
    }
    let x = dec_uint_at(v, pos, n);
    proof {
        let s = v@.skip(pos as int);
        assert(s.take(n as int) =~= v@.subrange(pos as int, pos as int + n as int));
        assert(s.skip(n as int) =~= v@.skip(pos as int + n as int));
    }
    Ok((x, pos + n))
}

/// The wire form of text: an 8-byte length followed by that many UTF-8
/// bytes.
pub open spec fn se_str(cs: Seq<char>) -> Seq<u8> {
    enc_le(encode_utf8(cs).len(), 8) + encode_utf8(cs)
}

/// Reads a length-prefixed UTF-8 text off the front of `s`.
pub open spec fn sp_str(s: Seq<u8>) -> Result<(Seq<char>, Seq<u8>), DecodeError> {
    match sp_uint(s, 8) {
        Err(e) => Err(e),
        Ok((len, r)) => if r.len() < len {
            Err(DecodeError::Truncated)
        } else {
            let bs = r.take(len as int);
            if valid_utf8(bs) {
                Ok((decode_utf8(bs), r.skip(len as int)))
            } else {
                Err(DecodeError::InvalidText)
            }
        },
    }
}

/// Text whose UTF-8 form fits behind the 8-byte length prefix; every
/// `String` satisfies this.
pub open spec fn wf_text(cs: Seq<char>) -> bool {
    encode_utf8(cs).len() < pow256(8)
}

/// Decoding undoes encoding on text, whatever bytes follow.
proof fn lemma_rt_str(cs: Seq<char>, tail: Seq<u8>)
    requires
        wf_text(cs),
    ensures
        sp_str(se_str(cs) + tail) == Ok::<(Seq<char>, Seq<u8>), DecodeError>((cs, tail)),
{
    broadcast use vstd::utf8::encode_utf8_valid_utf8;
    broadcast use vstd::utf8::encode_utf8_decode_utf8;

    let bs = encode_utf8(cs);
    assert(se_str(cs) + tail =~= enc_le(bs.len(), 8) + (bs + tail));
    lemma_rt_uint(bs.len(), 8, bs + tail);
    assert((bs + tail).take(bs.len() as int) =~= bs);
    assert((bs + tail).skip(bs.len() as int) =~= tail);
}

/// Appends the wire form of `s` to `out`.
fn enc_str(out: &mut Vec<u8>, s: &String)
    ensures
        final(out)@ == old(out)@ + se_str(s@),
        wf_text(s@),
{
    let bytes = s.as_str().as_bytes_vec();
    proof {
        broadcast use vstd::std_specs::vec::axiom_spec_len;

        assert(bytes.len() <= usize::MAX);
        lemma_pow256_vals();
        lemma_pow256_mono(8, 16);
    }
    enc_uint(out, bytes.len() as u128, 8);
    let ghost mid = out@;
    let mut i: usize = 0;
    while i < bytes.len()
        invariant
            i <= bytes@.len(),
            out@ == mid + bytes@.take(i as int),
        decreases bytes@.len() - i,
    {
        out.push(bytes[i]);
        proof {
            assert(out@ =~= mid + bytes@.take(i as int + 1));
        }
        i = i + 1;
    }
    proof {
        assert(bytes@.take(bytes@.len() as int) =~= bytes@);
        assert(final(out)@ =~= old(out)@ + se_str(s@));
    }
}

/// A fresh copy of `v[from..to]`.
fn copy_range(v: &Vec<u8>, from: usize, to: usize) -> (r: Vec<u8>)
    requires
        from <= to <= v@.len(),
    ensures
        r@ == v@.subrange(from as int, to as int),
{
    let mut r: Vec<u8> = Vec::new();
    let mut i: usize = from;
    while i < to
        invariant
            from <= i <= to <= v@.len(),
            r@ == v@.subrange(from as int, i as int),
        decreases to - i,
    {
        r.push(v[i]);
        proof {
            assert(r@ =~= v@.subrange(from as int, i as int + 1));
        }
        i = i + 1;
    }
    r
}

/// Relies on `String::from_utf8`: succeeds exactly on valid UTF-8 input,
/// yielding the text those bytes spell.
#[verifier::external_body]
fn bytes_to_string(b: Vec<u8>) -> (r: Option<String>)
    ensures
        match r {
            Some(s) => valid_utf8(b@) && s@ == decode_utf8(b@),
            None => !valid_utf8(b@),
        },
{
    match String::from_utf8(b) {
        Ok(s) => Some(s),
        Err(_) => None,
    }
}

/// Reads the length-prefixed UTF-8 text at `pos`; the exact executable form
/// of [`sp_str`].
fn dec_str(v: &Vec<u8>, pos: usize) -> (r: Result<(String, usize), DecodeError>)
    requires
        pos <= v@.len(),
    ensures
        match r {
            Ok((s, p)) => {
                &&& pos <= p <= v@.len()
                &&& sp_str(v@.skip(pos as int)) == Ok::<(Seq<char>, Seq<u8>), DecodeError>(
                    (s@, v@.skip(p as int)),
                )
            },
            Err(e) => sp_str(v@.skip(pos as int)) == Err::<(Seq<char>, Seq<u8>), DecodeError>(e),
        },
{
    let (len, p1) = match dec_uint(v, pos, 8) {
        Ok(t) => t,
        Err(e) => {
            return Err(e);
        },
    };
    proof {
        broadcast use vstd::std_specs::vec::axiom_spec_len;

        assert(v.len() <= usize::MAX);
    }
    let avail: u128 = (v.len() - p1) as u128;
    if avail < len {
        assert(v@.skip(p1 as int).len() < len);
        return Err(DecodeError::Truncated);
    }
    let len_u: usize = len as usize;
    let bytes = copy_range(v, p1, p1 + len_u);
    proof {
        assert(bytes@ =~= v@.skip(p1 as int).take(len as int));
    }
    match bytes_to_string(bytes) {
        Some(s) => {
            proof {
                assert(v@.skip(p1 as int).skip(len as int) =~= v@.skip(p1 as int + len as int));
            }
            Ok((s, p1 + len_u))
        },
        None => Err(DecodeError::InvalidText),
    }
}

/// The wire form of a post header: identifier, posting time, title.
pub open spec fn se_header(h: PostHeaderView) -> Seq<u8> {
    enc_le(h.id.0 as nat, 16) + enc_le((h.posted.0 as u64) as nat, 8) + se_str(h.title)
}

/// Reads a post header off the front of `s`.
pub open spec fn sp_header(s: Seq<u8>) -> Result<(PostHeaderView, Seq<u8>), DecodeError> {
    match sp_uint(s, 16) {
        Err(e) => Err(e),
        Ok((id, r1)) => match sp_uint(r1, 8) {
            Err(e) => Err(e),
            Ok((t, r2)) => match sp_str(r2) {
                Err(e) => Err(e),
                Ok((title, r3)) => Ok(
                    (
                        PostHeaderView {
                            id: ClientId(id as u128),
                            posted: Timestamp((t as u64) as i64),
                            title,
                        },
                        r3,
                    ),
                ),
            },
        },
    }
}

pub open spec fn wf_header(h: PostHeaderView) -> bool {
    wf_text(h.title)
}

/// Round trip of a signed time value through its 8-byte wire form.
proof fn lemma_time_cast(t: i64)
    ensures
        ((t as u64) as i64) == t,
{
    assert(((t as u64) as i64) == t) by (bit_vector);
}

/// Decoding undoes encoding on post headers, whatever bytes follow.
proof fn lemma_rt_header(h: PostHeaderView, tail: Seq<u8>)
    requires
        wf_header(h),
    ensures
        sp_header(se_header(h) + tail) == Ok::<(PostHeaderView, Seq<u8>), DecodeError>((h, tail)),
{
    lemma_pow256_vals();
    let a = enc_le(h.id.0 as nat, 16);
    let b = enc_le((h.posted.0 as u64) as nat, 8);
    let c = se_str(h.title);
    assert(se_header(h) + tail =~= a + (b + (c + tail)));
    lemma_rt_uint(h.id.0 as nat, 16, b + (c + tail));
    lemma_rt_uint((h.posted.0 as u64) as nat, 8, c + tail);
    lemma_rt_str(h.title, tail);
    lemma_time_cast(h.posted.0);
    assert(sp_header(se_header(h) + tail) == Ok::<(PostHeaderView, Seq<u8>), DecodeError>(
        (h, tail),
    ));
}

/// The wire form of a run of post headers, one after the other.
pub open spec fn se_headers(hs: Seq<PostHeaderView>) -> Seq<u8>
    decreases hs.len(),
{
    if hs.len() == 0 {
        Seq::empty()
    } else {
        se_header(hs[0]) + se_headers(hs.drop_first())
    }
}

/// Reads `count` post headers off the front of `s`.
pub open spec fn sp_headers(s: Seq<u8>, count: nat) -> Result<
    (Seq<PostHeaderView>, Seq<u8>),
    DecodeError,
>
    decreases count,
{
    if count == 0 {
        Ok((Seq::empty(), s))
    } else {
        match sp_header(s) {
            Err(e) => Err(e),
            Ok((h, r)) => match sp_headers(r, (count - 1) as nat) {
                Err(e) => Err(e),
                Ok((hs, r2)) => Ok((seq![h] + hs, r2)),
            },
        }
    }
}

pub open spec fn wf_headers(hs: Seq<PostHeaderView>) -> bool {
    forall|i: int| 0 <= i < hs.len() ==> wf_header(#[trigger] hs[i])
}

/// Encoding a run and then one more header is encoding the longer run.
proof fn lemma_se_headers_snoc(hs: Seq<PostHeaderView>, h: PostHeaderView)
    ensures
        se_headers(hs.push(h)) == se_headers(hs) + se_header(h),
    decreases hs.len(),
{
    let p = hs.push(h);
    if hs.len() == 0 {
        assert(p[0] == h);
        assert(p.drop_first() =~= Seq::<PostHeaderView>::empty());
        assert(se_headers(p.drop_first()) == Seq::<u8>::empty());
        assert(se_headers(p) == se_header(h) + Seq::<u8>::empty());
        assert(se_headers(p) =~= se_headers(hs) + se_header(h));
    } else {
        assert(p[0] == hs[0]);
        assert(p.drop_first() =~= hs.drop_first().push(h));
        lemma_se_headers_snoc(hs.drop_first(), h);
        assert(se_headers(p) == se_header(hs[0]) + (se_headers(hs.drop_first()) + se_header(h)));
        assert(se_headers(hs) == se_header(hs[0]) + se_headers(hs.drop_first()));
        assert(se_headers(p) =~= se_headers(hs) + se_header(h));
    }
}

/// Decoding undoes encoding on runs of post headers, whatever bytes follow.
proof fn lemma_rt_headers(hs: Seq<PostHeaderView>, tail: Seq<u8>)
    requires
        wf_headers(hs),
    ensures
        sp_headers(se_headers(hs) + tail, hs.len()) == Ok::<
            (Seq<PostHeaderView>, Seq<u8>),
            DecodeError,
        >((hs, tail)),
    decreases hs.len(),
{
    if hs.len() == 0 {
        assert(se_headers(hs) + tail =~= tail);
        assert(hs =~= Seq::<PostHeaderView>::empty());
    } else {
        let rest = hs.drop_first();
        let inner = se_headers(rest) + tail;
        assert(se_headers(hs) + tail =~= se_header(hs[0]) + inner);
        lemma_rt_header(hs[0], inner);
        lemma_rt_headers(rest, tail);
        assert(sp_headers(se_header(hs[0]) + inner, hs.len()) == Ok::<
            (Seq<PostHeaderView>, Seq<u8>),
            DecodeError,
        >((seq![hs[0]] + rest, tail)));
        assert(seq![hs[0]] + rest =~= hs);
    }
}

/// The tag bytes that open the six body variants on the wire.
pub open spec fn tag_of(b: BodyView) -> nat {
    match b {
        BodyView::Query(..) => 1,
        BodyView::Connected(..) => 2,
        BodyView::Error { .. } => 3,
        BodyView::Response { .. } => 4,
        BodyView::Post { .. } => 5,
        BodyView::Get { .. } => 6,
    }
}

/// The wire form of a message body: its tag byte, then its fields.
pub open spec fn se_body(b: BodyView) -> Seq<u8> {
    enc_le(tag_of(b), 1) + match b {
        BodyView::Query(s) => se_str(s),
        BodyView::Connected(id) => enc_le(id.0 as nat, 16),
        BodyView::Error { criminal, error } => enc_le(criminal.0 as nat, 16) + se_str(error),
        BodyView::Response { target, posts } => enc_le(target.0 as nat, 16) + enc_le(
            posts.len(),
            8,
        ) + se_headers(posts),
        BodyView::Post { target, post } => enc_le(target.0 as nat, 16) + se_header(post.header)
            + se_str(post.content),
        BodyView::Get { target, id } => enc_le(target.0 as nat, 16) + enc_le(id.0 as nat, 16),
    }
}

/// Reads a message body off the front of `s`; an unknown tag is a protocol
/// error.
pub open spec fn sp_body(s: Seq<u8>) -> Result<(BodyView, Seq<u8>), DecodeError> {
    match sp_uint(s, 1) {
        Err(e) => Err(e),
        Ok((tag, r)) => if tag == 1 {
            match sp_str(r) {
                Err(e) => Err(e),
                Ok((q, r2)) => Ok((BodyView::Query(q), r2)),
            }
        } else if tag == 2 {
            match sp_uint(r, 16) {
                Err(e) => Err(e),
                Ok((id, r2)) => Ok((BodyView::Connected(ClientId(id as u128)), r2)),
            }
        } else if tag == 3 {
            match sp_uint(r, 16) {
                Err(e) => Err(e),
                Ok((criminal, r2)) => match sp_str(r2) {
                    Err(e) => Err(e),
                    Ok((error, r3)) => Ok(
                        (BodyView::Error { criminal: ClientId(criminal as u128), error }, r3),
                    ),
                },
            }
        } else if tag == 4 {
            match sp_uint(r, 16) {
                Err(e) => Err(e),
                Ok((target, r2)) => match sp_uint(r2, 8) {
                    Err(e) => Err(e),
                    Ok((count, r3)) => match sp_headers(r3, count) {
                        Err(e) => Err(e),
                        Ok((posts, r4)) => Ok(
                            (BodyView::Response { target: ClientId(target as u128), posts }, r4),
                        ),
                    },
                },
            }
        } else if tag == 5 {
            match sp_uint(r, 16) {
                Err(e) => Err(e),
                Ok((target, r2)) => match sp_header(r2) {
                    Err(e) => Err(e),
                    Ok((header, r3)) => match sp_str(r3) {
                        Err(e) => Err(e),
                        Ok((content, r4)) => Ok(
                            (
                                BodyView::Post {
                                    target: ClientId(target as u128),
                                    post: PostView { header, content },
                                },
                                r4,
                            ),
                        ),
                    },
                },
            }
        } else if tag == 6 {
            match sp_uint(r, 16) {
                Err(e) => Err(e),
                Ok((target, r2)) => match sp_uint(r2, 16) {
                    Err(e) => Err(e),
                    Ok((id, r3)) => Ok(
                        (
                            BodyView::Get {
                                target: ClientId(target as u128),
                                id: ClientId(id as u128),
                            },
                            r3,
                        ),
                    ),
                },
            }
        } else {
            Err(DecodeError::UnknownTag)
        },
    }
}

/// A body whose text and list lengths fit their wire length prefixes; every
/// body built of `String` and `Vec` values satisfies this.
pub open spec fn wf_body(b: BodyView) -> bool {
    match b {
        BodyView::Query(s) => wf_text(s),
        BodyView::Connected(..) => true,
        BodyView::Error { error, .. } => wf_text(error),
        BodyView::Response { posts, .. } => posts.len() < pow256(8) && wf_headers(posts),
        BodyView::Post { post, .. } => wf_header(post.header) && wf_text(post.content),
        BodyView::Get { .. } => true,
    }
}

/// Decoding undoes encoding on message bodies, whatever bytes follow.
#[verifier::rlimit(100)]
proof fn lemma_rt_body(b: BodyView, tail: Seq<u8>)
    requires
        wf_body(b),
    ensures
        sp_body(se_body(b) + tail) == Ok::<(BodyView, Seq<u8>), DecodeError>((b, tail)),
{
    lemma_pow256_vals();
    let t = enc_le(tag_of(b), 1);
    match b {
        BodyView::Query(s) => {
            assert(se_body(b) + tail =~= t + (se_str(s) + tail));
            lemma_rt_uint(tag_of(b), 1, se_str(s) + tail);
            lemma_rt_str(s, tail);
        },
        BodyView::Connected(id) => {
            let a = enc_le(id.0 as nat, 16);
            assert(se_body(b) + tail =~= t + (a + tail));
            lemma_rt_uint(tag_of(b), 1, a + tail);
            lemma_rt_uint(id.0 as nat, 16, tail);
        },
        BodyView::Error { criminal, error } => {
            let a = enc_le(criminal.0 as nat, 16);
            let c = se_str(error);
            assert(se_body(b) + tail =~= t + (a + (c + tail)));
            lemma_rt_uint(tag_of(b), 1, a + (c + tail));
            lemma_rt_uint(criminal.0 as nat, 16, c + tail);
            lemma_rt_str(error, tail);
        },
        BodyView::Response { target, posts } => {
            let a = enc_le(target.0 as nat, 16);
            let c = enc_le(posts.len(), 8);
            let d = se_headers(posts);
            assert(se_body(b) + tail =~= t + (a + (c + (d + tail))));
            lemma_rt_uint(tag_of(b), 1, a + (c + (d + tail)));
            lemma_rt_uint(target.0 as nat, 16, c + (d + tail));
            lemma_rt_uint(posts.len(), 8, d + tail);
            lemma_rt_headers(posts, tail);
        },
        BodyView::Post { target, post } => {
            let a = enc_le(target.0 as nat, 16);
            let c = se_header(post.header);
            let d = se_str(post.content);
            assert(se_body(b) + tail =~= t + (a + (c + (d + tail))));
            lemma_rt_uint(tag_of(b), 1, a + (c + (d + tail)));
            lemma_rt_uint(target.0 as nat, 16, c + (d + tail));
            lemma_rt_header(post.header, d + tail);
            lemma_rt_str(post.content, tail);
            assert(PostView { header: post.header, content: post.content } =~= post);
        },
        BodyView::Get { target, id } => {
            let a = enc_le(target.0 as nat, 16);
            let c = enc_le(id.0 as nat, 16);
            assert(se_body(b) + tail =~= t + (a + (c + tail)));
            lemma_rt_uint(tag_of(b), 1, a + (c + tail));
            lemma_rt_uint(target.0 as nat, 16, c + tail);
            lemma_rt_uint(id.0 as nat, 16, tail);
        },
    }
}

/// The wire form of a whole message: sender, time, body, nothing after.
pub open spec fn se_message(v: MessageView) -> Seq<u8> {
    enc_le(v.sender.0 as nat, 16) + enc_le((v.time.0 as u64) as nat, 8) + se_body(v.body)
}

/// The message a byte sequence spells, if any: sender, time and body read
/// in turn, with nothing allowed to follow.
pub open spec fn sp_message(s: Seq<u8>) -> Result<MessageView, DecodeError> {
    match sp_uint(s, 16) {
        Err(e) => Err(e),
        Ok((sender, r1)) => match sp_uint(r1, 8) {
            Err(e) => Err(e),
            Ok((time, r2)) => match sp_body(r2) {
                Err(e) => Err(e),
                Ok((body, r3)) => if r3.len() == 0 {
                    Ok(
                        MessageView {
                            sender: ClientId(sender as u128),
                            time: Timestamp((time as u64) as i64),
                            body,
                        },
                    )
                } else {
                    Err(DecodeError::TrailingBytes)
                },
            },
        },
    }
}

pub open spec fn wf_message(v: MessageView) -> bool {
    wf_body(v.body)
}

/// Appends the wire form of a post header to `out`.
fn enc_header(out: &mut Vec<u8>, h: &PostHeader)
    ensures
        final(out)@ == old(out)@ + se_header(h@),
        wf_header(h@),
{
    proof {
        lemma_pow256_vals();
    }
    enc_uint(out, h.id.0, 16);
    enc_uint(out, h.posted.0 as u64 as u128, 8);
    enc_str(out, &h.title);
    proof {
        assert(final(out)@ =~= old(out)@ + se_header(h@));
    }
}

/// Appends the wire forms of all headers in `posts`, in order, to `out`.
fn enc_headers(out: &mut Vec<u8>, posts: &Vec<PostHeader>)
    ensures
        final(out)@ == old(out)@ + se_headers(posts@.map_values(|p: PostHeader| p@)),
        wf_headers(posts@.map_values(|p: PostHeader| p@)),
{
    let ghost views = posts@.map_values(|p: PostHeader| p@);
    let ghost base = out@;
    let mut i: usize = 0;
    while i < posts.len()
        invariant
            i <= posts@.len(),
            views == posts@.map_values(|p: PostHeader| p@),
            out@ == base + se_headers(views.take(i as int)),
            forall|j: int| 0 <= j < i ==> wf_header(#[trigger] views[j]),
        decreases posts@.len() - i,
    {
        let ghost pre = out@;
        enc_header(out, &posts[i]);
        proof {
            assert(views.take(i as int).push(views[i as int]) =~= views.take(i as int + 1));
            lemma_se_headers_snoc(views.take(i as int), views[i as int]);
            assert(out@ =~= base + se_headers(views.take(i as int + 1)));
        }
        i = i + 1;
    }
    proof {
        assert(views.take(views.len() as int) =~= views);
    }
}

/// Appends the wire form of a message body to `out`.
fn enc_body(out: &mut Vec<u8>, b: &MessageBody)
    ensures
        final(out)@ == old(out)@ + se_body(b@),
        wf_body(b@),
{
    proof {
        lemma_pow256_vals();
    }
    match b {
        MessageBody::Query(s) => {
            enc_uint(out, 1, 1);
            enc_str(out, s);
        },
        MessageBody::Connected(id) => {
            enc_uint(out, 2, 1);
            enc_uint(out, id.0, 16);
        },
        MessageBody::Error { criminal, error } => {
            enc_uint(out, 3, 1);
            enc_uint(out, criminal.0, 16);
            enc_str(out, error);
        },
        MessageBody::Response { target, posts } => {
            enc_uint(out, 4, 1);
            enc_uint(out, target.0, 16);
            proof {
                broadcast use vstd::std_specs::vec::axiom_spec_len;

                assert(posts.len() <= usize::MAX);
                lemma_pow256_mono(8, 16);
            }
            enc_uint(out, posts.len() as u128, 8);
            enc_headers(out, posts);
        },
        MessageBody::Post { target, post } => {
            enc_uint(out, 5, 1);
            enc_uint(out, target.0, 16);
            enc_header(out, &post.header);
            enc_str(out, &post.content);
        },
        MessageBody::Get { target, id } => {
            enc_uint(out, 6, 1);
            enc_uint(out, target.0, 16);
            enc_uint(out, id.0, 16);
        },
    }
    proof {
        assert(final(out)@ =~= old(out)@ + se_body(b@));
    }
}

/// The wire form of `m`: exactly [`se_message`] of its value. Every message
/// this function accepts is well formed, so by
/// [`lemma_encode_then_decode`] the result decodes back to `m`'s value.
pub fn encode(m: &Message) -> (r: Vec<u8>)
    ensures
        r@ == se_message(m@),
        wf_message(m@),
{
    let mut out: Vec<u8> = Vec::new();
    enc_uint(&mut out, m.sender.0, 16);
    enc_uint(&mut out, m.time.0 as u64 as u128, 8);
    enc_body(&mut out, &m.body);
    proof {
        assert(out@ =~= se_message(m@));
    }
    out
}

/// Reads the post header at `pos`; the exact executable form of
/// [`sp_header`].
fn dec_header(v: &Vec<u8>, pos: usize) -> (r: Result<(PostHeader, usize), DecodeError>)
    requires
        pos <= v@.len(),
    ensures
        match r {
            Ok((h, p)) => {
                &&& pos <= p <= v@.len()
                &&& sp_header(v@.skip(pos as int)) == Ok::<(PostHeaderView, Seq<u8>), DecodeError>(
                    (h@, v@.skip(p as int)),
                )
            },
            Err(e) => sp_header(v@.skip(pos as int)) == Err::<
                (PostHeaderView, Seq<u8>),
                DecodeError,
            >(e),
        },
{
    let (id, p1) = match dec_uint(v, pos, 16) {
        Ok(t) => t,
        Err(e) => {
            return Err(e);
        },
    };
    let (t, p2) = match dec_uint(v, p1, 8) {
        Ok(t) => t,
        Err(e) => {
            return Err(e);
        },
    };
    let (title, p3) = match dec_str(v, p2) {
        Ok(t) => t,
        Err(e) => {
            return Err(e);
        },
    };
    proof {
        lemma_pow256_vals();
        lemma_le_val_bound(v@.skip(p1 as int).take(8));
    }
    let h = PostHeader { id: ClientId(id), posted: Timestamp((t as u64) as i64), title };
    Ok((h, p3))
}

/// Reads `count` post headers at `pos`; the exact executable form of
/// [`sp_headers`].
fn dec_headers(v: &Vec<u8>, pos: usize, count: u64) -> (r: Result<
    (Vec<PostHeader>, usize),
    DecodeError,
>)
    requires
        pos <= v@.len(),
    ensures
        match r {
            Ok((hs, p)) => {
                &&& pos <= p <= v@.len()
                &&& sp_headers(v@.skip(pos as int), count as nat) == Ok::<
                    (Seq<PostHeaderView>, Seq<u8>),
                    DecodeError,
                >((hs@.map_values(|h: PostHeader| h@), v@.skip(p as int)))
            },
            Err(e) => sp_headers(v@.skip(pos as int), count as nat) == Err::<
                (Seq<PostHeaderView>, Seq<u8>),
                DecodeError,
            >(e),
        },
{
    let mut acc: Vec<PostHeader> = Vec::new();
    let mut p: usize = pos;
    let mut i: u64 = 0;
    while i < count
        invariant
            i <= count,
            pos <= p <= v@.len(),
            sp_headers(v@.skip(pos as int), count as nat) == match sp_headers(
                v@.skip(p as int),
                (count - i) as nat,
            ) {
                Ok((hs, r)) => Ok::<(Seq<PostHeaderView>, Seq<u8>), DecodeError>(
                    (acc@.map_values(|h: PostHeader| h@) + hs, r),
                ),
                Err(e) => Err(e),
            },
        decreases count - i,
    {
        let ghost views = acc@.map_values(|h: PostHeader| h@);
        let (h, p2) = match dec_header(v, p) {
            Ok(t) => t,
            Err(e) => {
                return Err(e);
            },
        };
        proof {
            assert(sp_headers(v@.skip(p as int), (count - i) as nat) == match sp_headers(
                v@.skip(p2 as int),
                (count - i - 1) as nat,
            ) {
                Ok((hs, r)) => Ok::<(Seq<PostHeaderView>, Seq<u8>), DecodeError>(
                    (seq![h@] + hs, r),
                ),
                Err(e) => Err(e),
            });
        }
        acc.push(h);
        proof {
            assert(acc@.map_values(|x: PostHeader| x@) =~= views.push(h@));
            assert forall|hs: Seq<PostHeaderView>| true implies views.push(h@) + hs =~= views + (
            seq![h@] + hs) by {}
        }
        p = p2;
        i = i + 1;
    }
    proof {
        assert(sp_headers(v@.skip(p as int), 0) == Ok::<(Seq<PostHeaderView>, Seq<u8>), DecodeError>(
            (Seq::<PostHeaderView>::empty(), v@.skip(p as int)),
        ));
        assert(acc@.map_values(|h: PostHeader| h@) + Seq::<PostHeaderView>::empty()
            =~= acc@.map_values(|h: PostHeader| h@));
    }
    Ok((acc, p))
}

/// Reads the message body at `pos`; the exact executable form of
/// [`sp_body`].
#[verifier::rlimit(100)]
fn dec_body(v: &Vec<u8>, pos: usize) -> (r: Result<(MessageBody, usize), DecodeError>)
    requires
        pos <= v@.len(),
    ensures
        match r {
            Ok((b, p)) => {
                &&& pos <= p <= v@.len()
                &&& sp_body(v@.skip(pos as int)) == Ok::<(BodyView, Seq<u8>), DecodeError>(
                    (b@, v@.skip(p as int)),
                )
            },
            Err(e) => sp_body(v@.skip(pos as int)) == Err::<(BodyView, Seq<u8>), DecodeError>(e),
        },
{
    let (tag, p1) = match dec_uint(v, pos, 1) {
        Ok(t) => t,
        Err(e) => {
            return Err(e);
        },
    };
    if tag == 1 {
        let (q, p2) = match dec_str(v, p1) {
            Ok(t) => t,
            Err(e) => {
                return Err(e);
            },
        };
        Ok((MessageBody::Query(q), p2))
    } else if tag == 2 {
        let (id, p2) = match dec_uint(v, p1, 16) {
            Ok(t) => t,
            Err(e) => {
                return Err(e);
            },
        };
        Ok((MessageBody::Connected(ClientId(id)), p2))
    } else if tag == 3 {
        let (criminal, p2) = match dec_uint(v, p1, 16) {
            Ok(t) => t,
            Err(e) => {
                return Err(e);
            },
        };
        let (error, p3) = match dec_str(v, p2) {
            Ok(t) => t,
            Err(e) => {
                return Err(e);
            },
        };
        Ok((MessageBody::Error { criminal: ClientId(criminal), error }, p3))
    } else if tag == 4 {
        let (target, p2) = match dec_uint(v, p1, 16) {
            Ok(t) => t,
            Err(e) => {
                return Err(e);
            },
        };
        let (count, p3) = match dec_uint(v, p2, 8) {
            Ok(t) => t,
            Err(e) => {
                return Err(e);
            },
        };
        proof {
            lemma_pow256_vals();
            lemma_le_val_bound(v@.skip(p2 as int).take(8));
        }
        let (posts, p4) = match dec_headers(v, p3, count as u64) {
            Ok(t) => t,
            Err(e) => {
                return Err(e);
            },
        };
        Ok((MessageBody::Response { target: ClientId(target), posts }, p4))
    } else if tag == 5 {
        let (target, p2) = match dec_uint(v, p1, 16) {
            Ok(t) => t,
            Err(e) => {
                return Err(e);
            },
        };
        let (header, p3) = match dec_header(v, p2) {
            Ok(t) => t,
            Err(e) => {
                return Err(e);
            },
        };
        let (content, p4) = match dec_str(v, p3) {
            Ok(t) => t,
            Err(e) => {
                return Err(e);
            },
        };
        Ok((MessageBody::Post { target: ClientId(target), post: Post { header, content } }, p4))
    } else if tag == 6 {
        let (target, p2) = match dec_uint(v, p1, 16) {
            Ok(t) => t,
            Err(e) => {
                return Err(e);
            },
        };
        let (id, p3) = match dec_uint(v, p2, 16) {
            Ok(t) => t,
            Err(e) => {
                return Err(e);
            },
        };
        Ok((MessageBody::Get { target: ClientId(target), id: ClientId(id) }, p3))
    } else {
        Err(DecodeError::UnknownTag)
    }
}

/// The message `v` spells, or why it spells none; the exact executable form
/// of [`sp_message`]. Total on arbitrary bytes: garbage input yields a
/// [`DecodeError`], never a fault.
pub fn decode(v: &Vec<u8>) -> (r: Result<Message, DecodeError>)
    ensures
        match r {
            Ok(m) => sp_message(v@) == Ok::<MessageView, DecodeError>(m@),
            Err(e) => sp_message(v@) == Err::<MessageView, DecodeError>(e),
        },
{
    proof {
        assert(v@.skip(0) =~= v@);
    }
    let (sender, p1) = match dec_uint(v, 0, 16) {
        Ok(t) => t,
        Err(e) => {
            return Err(e);
        },
    };
    let (time, p2) = match dec_uint(v, p1, 8) {
        Ok(t) => t,
        Err(e) => {
            return Err(e);
        },
    };
    let (body, p3) = match dec_body(v, p2) {
        Ok(t) => t,
        Err(e) => {
            return Err(e);
        },
    };
    if p3 < v.len() {
        assert(v@.skip(p3 as int).len() > 0);
        return Err(DecodeError::TrailingBytes);
    }
    proof {
        broadcast use vstd::std_specs::vec::axiom_spec_len;

        assert(v@.skip(p3 as int).len() == 0);
        lemma_pow256_vals();
        lemma_le_val_bound(v@.skip(p1 as int).take(8));
    }
    Ok(Message { sender: ClientId(sender), time: Timestamp((time as u64) as i64), body })
}

/// Decoding a message's wire form yields that very message: the encoding
/// loses nothing. Holds for every message whose text and list lengths fit
/// their wire prefixes, which every value of [`Message`] does.
pub proof fn lemma_encode_then_decode(v: MessageView)
    requires
        wf_message(v),
    ensures
        sp_message(se_message(v)) == Ok::<MessageView, DecodeError>(v),
{
    lemma_pow256_vals();
    let a = enc_le(v.sender.0 as nat, 16);
    let b = enc_le((v.time.0 as u64) as nat, 8);
    let c = se_body(v.body);
    assert(se_message(v) =~= a + (b + (c + Seq::<u8>::empty())));
    lemma_rt_uint(v.sender.0 as nat, 16, b + (c + Seq::<u8>::empty()));
    lemma_rt_uint((v.time.0 as u64) as nat, 8, c + Seq::<u8>::empty());
    lemma_rt_body(v.body, Seq::<u8>::empty());
    lemma_time_cast(v.time.0);
    assert(MessageView {
        sender: ClientId((v.sender.0 as nat) as u128),
        time: Timestamp((((v.time.0 as u64) as nat) as u64) as i64),
        body: v.body,
    } =~= v);
}

} // verus!
