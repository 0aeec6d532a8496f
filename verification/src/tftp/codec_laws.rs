//! Laws of the TFTP codec: decoding what was encoded gives the packet back.

use crate::tftp::packet::{
    be16, be16_value, decode_spec, encode_spec, lemma_zero_at_or_after_bounds, opcode_of,
    options_from, options_wire, read_z_spec, zero_at_or_after, zstr, DecodeFault, PacketView,
};
use vstd::prelude::*;
use vstd::utf8::*;

verus! {

/// The string holds no NUL character (NUL terminates strings on the wire).
pub open spec fn no_nul(s: Seq<char>) -> bool {
    forall|i: int| 0 <= i < s.len() ==> s[i] != '\0'
}

/// No option name or value holds a NUL character.
pub open spec fn options_no_nul(o: Seq<(Seq<char>, Seq<char>)>) -> bool {
    forall|i: int| 0 <= i < o.len() ==> no_nul(#[trigger] o[i].0) && no_nul(o[i].1)
}

/// Every string of the packet can be carried NUL-terminated.
pub open spec fn well_formed(p: PacketView) -> bool {
    match p {
        PacketView::Rrq { filename, mode, options } => no_nul(filename) && no_nul(mode)
            && options_no_nul(options),
        PacketView::Wrq { filename, mode, options } => no_nul(filename) && no_nul(mode)
            && options_no_nul(options),
        PacketView::Oack { options } => options_no_nul(options),
        PacketView::Error { msg, .. } => no_nul(msg),
        _ => true,
    }
}

proof fn lemma_scalar_bytes_nonzero(v: u32)
    by (bit_vector)
    ensures
        (0 < v && v <= 0x7F) ==> leading_byte_width_1(v) != 0,
        leading_byte_width_2(v) != 0,
        leading_byte_width_3(v) != 0,
        leading_byte_width_4(v) != 0,
        last_continuation_byte(v) != 0,
        second_last_continuation_byte(v) != 0,
        third_last_continuation_byte(v) != 0,
{
}

/// Only the NUL character encodes to a zero byte.
pub proof fn lemma_encode_no_zero(s: Seq<char>)
    requires
        no_nul(s),
    ensures
        forall|i: int| 0 <= i < encode_utf8(s).len() ==> #[trigger] encode_utf8(s)[i] != 0,
    decreases s.len(),
{
    if s.len() > 0 {
        let c = s[0];
        let v = c as u32;
        assert(v != 0) by {
            assert(c != '\0');
            char_u32_cast(c, v);
        }
        lemma_scalar_bytes_nonzero(v);
        let head = encode_scalar(v);
        assert(forall|i: int| 0 <= i < head.len() ==> head[i] != 0);
        let rest = s.drop_first();
        assert(no_nul(rest)) by {
            assert forall|i: int| 0 <= i < rest.len() implies rest[i] != '\0' by {
                assert(rest[i] == s[i + 1]);
            }
        }
        lemma_encode_no_zero(rest);
        let all = encode_utf8(s);
        assert(all == head + encode_utf8(rest));
        assert forall|i: int| 0 <= i < all.len() implies #[trigger] all[i] != 0 by {
            if i < head.len() {
                assert(all[i] == head[i]);
            } else {
                assert(all[i] == encode_utf8(rest)[i - head.len()]);
            }
        }
    }
}

/// The NUL search stops at the first NUL.
pub proof fn lemma_zero_found(buf: Seq<u8>, from: int, e: int)
    requires
        0 <= from <= e < buf.len(),
        buf[e] == 0,
        forall|i: int| from <= i < e ==> buf[i] != 0,
    ensures
        zero_at_or_after(buf, from) == e,
    decreases e - from,
{
    if from < e {
        lemma_zero_found(buf, from + 1, e);
    }
}

/// A NUL-terminated string on the wire is read back as itself.
pub proof fn lemma_read_z_zstr(buf: Seq<u8>, k: int, s: Seq<char>)
    requires
        no_nul(s),
        0 <= k,
        k + zstr(s).len() <= buf.len(),
        buf.subrange(k, k + zstr(s).len()) == zstr(s),
    ensures
        read_z_spec(buf, k) == Ok::<(Seq<char>, int), DecodeFault>((s, k + zstr(s).len())),
{
    let enc = encode_utf8(s);
    let e: int = k + enc.len();
    lemma_encode_no_zero(s);
    assert(buf[e] == zstr(s)[enc.len() as int]);
    assert forall|i: int| k <= i < e implies buf[i] != 0 by {
        assert(buf[i] == zstr(s)[i - k]);
        assert(zstr(s)[i - k] == enc[i - k]);
    }
    lemma_zero_found(buf, k, e);
    assert(buf.subrange(k, e) =~= enc);
    encode_utf8_valid_utf8(s);
    encode_utf8_decode_utf8(s);
}

/// The option wire format read from the front: the first pair, then the rest.
pub proof fn lemma_options_wire_front(o: Seq<(Seq<char>, Seq<char>)>)
    requires
        o.len() > 0,
    ensures
        options_wire(o) == zstr(o[0].0) + zstr(o[0].1) + options_wire(o.drop_first()),
    decreases o.len(),
{
    if o.len() == 1 {
        assert(o.drop_last() =~= Seq::<(Seq<char>, Seq<char>)>::empty());
        assert(o.drop_first() =~= Seq::<(Seq<char>, Seq<char>)>::empty());
        assert(options_wire(o) =~= zstr(o[0].0) + zstr(o[0].1) + options_wire(o.drop_first()));
    } else {
        let init = o.drop_last();
        lemma_options_wire_front(init);
        assert(init.drop_first() =~= o.drop_first().drop_last());
        assert(o.drop_first().last() == o.last());
        assert(options_wire(o) =~= zstr(o[0].0) + zstr(o[0].1) + options_wire(o.drop_first()));
    }
}

/// At most one NUL byte from `from` on.
pub open spec fn at_most_one_nul(buf: Seq<u8>, from: int) -> bool {
    forall|i: int, j: int| from <= i < j < buf.len() ==> buf[i] != 0 || buf[j] != 0
}

/// Law: nothing is read as options at or past the end of the packet.
pub proof fn lemma_options_past_end(buf: Seq<u8>, pos: int)
    requires
        pos >= buf.len(),
    ensures
        options_from(buf, pos) == Seq::<(Seq<char>, Seq<char>)>::empty(),
{
}

/// Bytes with at most one NUL hold no complete option pair: nothing is read
/// from them.
proof fn lemma_options_from_incomplete(buf: Seq<u8>, k: int)
    requires
        0 <= k,
        at_most_one_nul(buf, k),
    ensures
        options_from(buf, k) == Seq::<(Seq<char>, Seq<char>)>::empty(),
{
    if k < buf.len() {
        lemma_zero_at_or_after_bounds(buf, k);
        let e = zero_at_or_after(buf, k);
        if e < buf.len() && e + 1 < buf.len() {
            lemma_zero_at_or_after_bounds(buf, e + 1);
            let e2 = zero_at_or_after(buf, e + 1);
            if e2 < buf.len() {
                assert(buf[e] == 0 && buf[e2] == 0);
            }
        }
    }
}

/// Law: an option list on the wire is read back as itself, whatever
/// follows it, as long as what follows holds at most one NUL (an
/// incomplete last pair, which is dropped).
pub proof fn lemma_options_from_wire(buf: Seq<u8>, k: int, o: Seq<(Seq<char>, Seq<char>)>)
    requires
        0 <= k,
        k + options_wire(o).len() <= buf.len(),
        buf.subrange(k, k + options_wire(o).len()) == options_wire(o),
        options_no_nul(o),
        at_most_one_nul(buf, k + options_wire(o).len()),
    ensures
        options_from(buf, k) == o,
    decreases o.len(),
{
    if o.len() == 0 {
        lemma_options_from_incomplete(buf, k);
        assert(o =~= Seq::<(Seq<char>, Seq<char>)>::empty());
    } else {
        lemma_options_wire_front(o);
        let (name, value) = o[0];
        assert(no_nul(o[0].0) && no_nul(o[0].1));
        let zn = zstr(name);
        let zv = zstr(value);
        let rest = options_wire(o.drop_first());
        let end: int = k + options_wire(o).len();
        let seg = buf.subrange(k, end);
        assert(seg == zn + zv + rest);
        let k1: int = k + zn.len();
        let k2: int = k1 + zv.len();
        assert(buf.subrange(k, k1) =~= zn) by {
            assert forall|i: int| 0 <= i < zn.len() implies buf.subrange(k, k1)[i] == zn[i] by {
                assert(seg[i] == buf[k + i]);
            }
        }
        assert(buf.subrange(k1, k2) =~= zv) by {
            assert forall|i: int| 0 <= i < zv.len() implies buf.subrange(k1, k2)[i] == zv[i] by {
                assert(seg[zn.len() + i] == buf[k1 + i]);
            }
        }
        assert(k2 + rest.len() == end);
        assert(buf.subrange(k2, end) =~= rest) by {
            assert forall|i: int| 0 <= i < rest.len() implies buf.subrange(k2, end)[i] == rest[i] by {
                assert(seg[zn.len() + zv.len() + i] == buf[k2 + i]);
            }
        }
        lemma_read_z_zstr(buf, k, name);
        lemma_read_z_zstr(buf, k1, value);
        let more = o.drop_first();
        assert(options_no_nul(more)) by {
            assert forall|i: int| 0 <= i < more.len() implies no_nul(#[trigger] more[i].0) && no_nul(
                more[i].1,
            ) by {
                assert(more[i] == o[i + 1]);
            }
        }
        lemma_options_from_wire(buf, k2, more);
        assert(seq![(name, value)] + more =~= o);
    }
}

proof fn lemma_be16_roundtrip(x: u16)
    ensures
        be16_value(be16(x)[0], be16(x)[1]) == x,
{
}

/// Law: decoding the encoding of a well-formed packet gives the packet back.
pub proof fn lemma_decode_encode_roundtrip(p: PacketView)
    requires
        well_formed(p),
    ensures
        decode_spec(encode_spec(p)) == Ok::<PacketView, DecodeFault>(p),
{
    let buf = encode_spec(p);
    lemma_be16_roundtrip(opcode_of(p));
    match p {
        PacketView::Rrq { filename, mode, options } => {
            lemma_rq_roundtrip(be16(1), filename, mode, options);
        },
        PacketView::Wrq { filename, mode, options } => {
            lemma_rq_roundtrip(be16(2), filename, mode, options);
        },
        PacketView::Data { block, data } => {
            lemma_be16_roundtrip(block);
            assert(buf[0] == be16(3)[0] && buf[1] == be16(3)[1]);
            assert(buf[2] == be16(block)[0] && buf[3] == be16(block)[1]);
            assert(buf.subrange(4, buf.len() as int) =~= data);
        },
        PacketView::Ack { block } => {
            lemma_be16_roundtrip(block);
            assert(buf[0] == be16(4)[0] && buf[1] == be16(4)[1]);
            assert(buf[2] == be16(block)[0] && buf[3] == be16(block)[1]);
        },
        PacketView::Oack { options } => {
            assert(buf[0] == be16(6)[0] && buf[1] == be16(6)[1]);
            assert(buf.subrange(2, buf.len() as int) =~= options_wire(options));
            lemma_options_from_wire(buf, 2, options);
        },
        PacketView::Error { code, msg } => {
            lemma_be16_roundtrip(code);
            assert(buf[0] == be16(5)[0] && buf[1] == be16(5)[1]);
            assert(buf[2] == be16(code)[0] && buf[3] == be16(code)[1]);
            assert(buf.subrange(4, buf.len() as int) =~= zstr(msg));
            lemma_read_z_zstr(buf, 4, msg);
        },
    }
}

proof fn lemma_rq_roundtrip(
    op: Seq<u8>,
    filename: Seq<char>,
    mode: Seq<char>,
    options: Seq<(Seq<char>, Seq<char>)>,
)
    requires
        op.len() == 2,
        be16_value(op[0], op[1]) == 1 || be16_value(op[0], op[1]) == 2,
        no_nul(filename),
        no_nul(mode),
        options_no_nul(options),
    ensures
        ({
            let buf = op + zstr(filename) + zstr(mode) + options_wire(options);
            &&& read_z_spec(buf, 2) == Ok::<(Seq<char>, int), DecodeFault>(
                (filename, 2int + zstr(filename).len()),
            )
            &&& read_z_spec(buf, 2int + zstr(filename).len()) == Ok::<(Seq<char>, int), DecodeFault>(
                (mode, 2int + zstr(filename).len() + zstr(mode).len()),
            )
            &&& options_from(buf, 2int + zstr(filename).len() + zstr(mode).len()) == options
            &&& buf[0] == op[0] && buf[1] == op[1]
            &&& buf.len() >= 2
        }),
{
    let zf = zstr(filename);
    let zm = zstr(mode);
    let w = options_wire(options);
    let buf = op + zf + zm + w;
    let k1: int = 2int + zf.len();
    let k2: int = k1 + zm.len();
    assert(buf.subrange(2, k1) =~= zf);
    assert(buf.subrange(k1, k2) =~= zm);
    assert(buf.subrange(k2, k2 + w.len()) =~= w);
    lemma_read_z_zstr(buf, 2, filename);
    lemma_read_z_zstr(buf, k1, mode);
    lemma_options_from_wire(buf, k2, options);
}

proof fn lemma_be16_split(hi: u8, lo: u8)
    ensures
        be16(be16_value(hi, lo)) == seq![hi, lo],
{
    let v = be16_value(hi, lo);
    assert(v == hi * 256 + lo);
    assert(v / 256 == hi && v % 256 == lo);
    assert(be16(v) =~= seq![hi, lo]);
}

/// Law: a decoded packet's opcode is the big-endian number its first two
/// bytes hold, and its encoding starts with those two bytes.
pub proof fn lemma_decoded_opcode(buf: Seq<u8>, p: PacketView)
    requires
        decode_spec(buf) == Ok::<PacketView, DecodeFault>(p),
    ensures
        buf.len() >= 2,
        opcode_of(p) == be16_value(buf[0], buf[1]),
        encode_spec(p).subrange(0, 2) == buf.subrange(0, 2),
{
    lemma_be16_split(buf[0], buf[1]);
    let e = encode_spec(p);
    assert(e.subrange(0, 2) =~= be16(opcode_of(p)));
    assert(buf.subrange(0, 2) =~= seq![buf[0], buf[1]]);
}

} // verus!
