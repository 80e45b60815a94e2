//! Record framing in the log store: a tag byte, the payload length as four
//! little-endian bytes, then the payload.
use vstd::prelude::*;

verus! {

/// Bytes in a frame before its payload.
pub const HEADER_LEN: usize = 5;

/// Largest payload a frame can hold.
pub const MAX_PAYLOAD: usize = 0xffff_ffff;

/// One record as a reader sees it: its tag and its payload.
pub type RecordView = (u8, Seq<u8>);

/// `n` as four little-endian bytes.
pub open spec fn le32(n: nat) -> Seq<u8> {
    seq![(n % 256) as u8, ((n / 256) % 256) as u8, ((n / 65536) % 256) as u8, ((n / 16777216) % 256) as u8]
}

/// The number that four little-endian bytes stand for.
pub open spec fn le32_value(b: Seq<u8>) -> nat {
    (b[0] as nat) + 256 * (b[1] as nat) + 65536 * (b[2] as nat) + 16777216 * (b[3] as nat)
}

/// The bytes of one framed record.
pub open spec fn frame(tag: u8, payload: Seq<u8>) -> Seq<u8> {
    seq![tag] + le32(payload.len()) + payload
}

/// The size of the frame of a payload of `len` bytes.
pub open spec fn frame_size(len: nat) -> nat {
    HEADER_LEN as nat + len
}

/// The bytes of a sequence of records, framed one after the other.
pub open spec fn encode_all(rs: Seq<RecordView>) -> Seq<u8>
    decreases rs.len(),
{
    if rs.len() == 0 {
        Seq::empty()
    } else {
        frame(rs[0].0, rs[0].1) + encode_all(rs.drop_first())
    }
}

/// Every payload fits in a frame.
pub open spec fn all_fit(rs: Seq<RecordView>) -> bool {
    forall|i: int| 0 <= i < rs.len() ==> #[trigger] rs[i].1.len() <= MAX_PAYLOAD
}

/// The records that a byte sequence holds, if it is a run of whole frames.
pub open spec fn parse(s: Seq<u8>) -> Option<Seq<RecordView>>
    decreases s.len(),
{
    if s.len() == 0 {
        Some(Seq::empty())
    } else if s.len() < HEADER_LEN {
        None
    } else {
        let n = le32_value(s.subrange(1, 5));
        if HEADER_LEN + n > s.len() {
            None
        } else {
            match parse(s.subrange(HEADER_LEN + n, s.len() as int)) {
                Some(rest) => Some(seq![(s[0], s.subrange(HEADER_LEN as int, HEADER_LEN + n))] + rest),
                None => None,
            }
        }
    }
}

/// The four bytes of a length read back as that length.
pub proof fn lemma_le32_round_trip(n: nat)
    requires
        n <= MAX_PAYLOAD,
    ensures
        le32_value(le32(n)) == n,
{
    let b0 = n % 256;
    let b1 = (n / 256) % 256;
    let b2 = (n / 65536) % 256;
    let b3 = (n / 16777216) % 256;
    assert(b0 + 256 * b1 + 65536 * b2 + 16777216 * b3 == n) by (nonlinear_arith)
        requires
            n <= 0xffff_ffff,
            b0 == n % 256,
            b1 == (n / 256) % 256,
            b2 == (n / 65536) % 256,
            b3 == (n / 16777216) % 256,
    ;
}

/// A frame followed by more bytes reads as its record followed by what those
/// bytes read as.
pub proof fn lemma_parse_frame(tag: u8, payload: Seq<u8>, rest: Seq<u8>)
    requires
        payload.len() <= MAX_PAYLOAD,
    ensures
        parse(frame(tag, payload) + rest) == match parse(rest) {
            Some(rs) => Some(seq![(tag, payload)] + rs),
            None => None::<Seq<RecordView>>,
        },
{
    let s = frame(tag, payload) + rest;
    let n = payload.len();
    lemma_le32_round_trip(n);
    assert(s.subrange(1, 5) =~= le32(n));
    assert(s.subrange(HEADER_LEN + n, s.len() as int) =~= rest);
    assert(s.subrange(HEADER_LEN as int, HEADER_LEN + n) =~= payload);
}

/// Concatenating the frames of two runs of records frames their concatenation.
pub proof fn lemma_encode_append(a: Seq<RecordView>, b: Seq<RecordView>)
    ensures
        encode_all(a + b) == encode_all(a) + encode_all(b),
    decreases a.len(),
{
    if a.len() == 0 {
        assert(a + b =~= b);
        assert(encode_all(a) + encode_all(b) =~= encode_all(b));
    } else {
        lemma_encode_append(a.drop_first(), b);
        assert((a + b).drop_first() =~= a.drop_first() + b);
        assert(frame(a[0].0, a[0].1) + (encode_all(a.drop_first()) + encode_all(b))
            =~= (frame(a[0].0, a[0].1) + encode_all(a.drop_first())) + encode_all(b));
    }
}

/// Framed records read back as exactly those records, in the same order.
pub proof fn lemma_parse_encode(rs: Seq<RecordView>)
    requires
        all_fit(rs),
    ensures
        parse(encode_all(rs)) == Some(rs),
    decreases rs.len(),
{
    if rs.len() > 0 {
        assert(all_fit(rs.drop_first())) by {
            assert forall|i: int| 0 <= i < rs.drop_first().len() implies
                #[trigger] rs.drop_first()[i].1.len() <= MAX_PAYLOAD by {
                assert(rs.drop_first()[i] == rs[i + 1]);
            }
        }
        lemma_parse_encode(rs.drop_first());
        assert(rs[0].1.len() <= MAX_PAYLOAD);
        lemma_parse_frame(rs[0].0, rs[0].1, encode_all(rs.drop_first()));
        assert(seq![(rs[0].0, rs[0].1)] + rs.drop_first() =~= rs);
    }
}

} // verus!

verus! {

/// A single record is framed as its one frame.
pub proof fn lemma_encode_one(r: RecordView)
    ensures
        encode_all(seq![r]) == frame(r.0, r.1),
        encode_all(seq![r]).len() == frame_size(r.1.len()),
{
    assert(encode_all(seq![r].drop_first()) =~= Seq::<u8>::empty());
    assert(encode_all(seq![r]) =~= frame(r.0, r.1));
}

} // verus!

verus! {

/// Two runs of records that fit in frames still fit together.
pub proof fn lemma_all_fit_append(a: Seq<RecordView>, b: Seq<RecordView>)
    requires
        all_fit(a),
        all_fit(b),
    ensures
        all_fit(a + b),
{
    assert forall|i: int| 0 <= i < (a + b).len() implies #[trigger] (a + b)[i].1.len()
        <= MAX_PAYLOAD by {
        if i < a.len() {
            assert((a + b)[i] == a[i]);
        } else {
            assert((a + b)[i] == b[i - a.len()]);
        }
    }
}

} // verus!
