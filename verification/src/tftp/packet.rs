//! TFTP packet codec (RFC 1350 §5 + RFC 2347/2348 option negotiation).
//!
//! Wire layout (all integers big-endian, strings NUL-terminated):
//! ```text
//! RRQ/WRQ : opcode(2) filename 0 mode 0 [option 0 value 0]...
//! DATA    : opcode(2)=3 block(2) payload...
//! ACK     : opcode(2)=4 block(2)
//! ERROR   : opcode(2)=5 code(2) message 0
//! OACK    : opcode(2)=6 [option 0 value 0]...
//! ```
//! Option names are matched case-insensitively per RFC 2347.

use crate::error::Error;
use crate::tftp::decimal::{decimal_chars, decimal_string, parse_usize, parse_usize_spec};
use vstd::prelude::*;
use vstd::slice::{slice_subrange, slice_to_vec};
use vstd::string::*;
use vstd::utf8::*;

verus! {

/// RFC 2348 blksize bounds.
pub const MIN_BLKSIZE: usize = 8;

pub const MAX_BLKSIZE: usize = 65464;

#[derive(Debug, Clone, PartialEq, Eq)]
pub enum Packet {
    Rrq { filename: String, mode: String, options: Vec<(String, String)> },
    Wrq { filename: String, mode: String, options: Vec<(String, String)> },
    Data { block: u16, data: Vec<u8> },
    Ack { block: u16 },
    /// Option acknowledgement (RFC 2347/2348).
    Oack { options: Vec<(String, String)> },
    Error { code: u16, msg: String },
}

/// A packet as mathematical values: strings as character sequences.
pub enum PacketView {
    Rrq { filename: Seq<char>, mode: Seq<char>, options: Seq<(Seq<char>, Seq<char>)> },
    Wrq { filename: Seq<char>, mode: Seq<char>, options: Seq<(Seq<char>, Seq<char>)> },
    Data { block: u16, data: Seq<u8> },
    Ack { block: u16 },
    Oack { options: Seq<(Seq<char>, Seq<char>)> },
    Error { code: u16, msg: Seq<char> },
}

/// An option list as pairs of character sequences.
pub open spec fn options_view(o: Seq<(String, String)>) -> Seq<(Seq<char>, Seq<char>)> {
    o.map_values(|p: (String, String)| (p.0@, p.1@))
}

impl View for Packet {
    type V = PacketView;

    open spec fn view(&self) -> PacketView {
        match self {
            Packet::Rrq { filename, mode, options } => PacketView::Rrq {
                filename: filename@,
                mode: mode@,
                options: options_view(options@),
            },
            Packet::Wrq { filename, mode, options } => PacketView::Wrq {
                filename: filename@,
                mode: mode@,
                options: options_view(options@),
            },
            Packet::Data { block, data } => PacketView::Data { block: *block, data: data@ },
            Packet::Ack { block } => PacketView::Ack { block: *block },
            Packet::Oack { options } => PacketView::Oack { options: options_view(options@) },
            Packet::Error { code, msg } => PacketView::Error { code: *code, msg: msg@ },
        }
    }
}

// ---------------------------------------------------------------------------
// Wire format, as functions on mathematical values
// ---------------------------------------------------------------------------

/// Big-endian bytes of a 16-bit number.
pub open spec fn be16(x: u16) -> Seq<u8> {
    seq![(x / 256) as u8, (x % 256) as u8]
}

/// The 16-bit number of two big-endian bytes.
pub open spec fn be16_value(hi: u8, lo: u8) -> u16 {
    (hi * 256 + lo) as u16
}

/// UTF-8 bytes of a string followed by a NUL terminator.
pub open spec fn zstr(s: Seq<char>) -> Seq<u8> {
    encode_utf8(s).push(0u8)
}

/// Option list on the wire: `name 0 value 0` for each pair, in order.
pub open spec fn options_wire(o: Seq<(Seq<char>, Seq<char>)>) -> Seq<u8>
    decreases o.len(),
{
    if o.len() == 0 {
        seq![]
    } else {
        options_wire(o.drop_last()) + zstr(o.last().0) + zstr(o.last().1)
    }
}

/// Opcode of each packet kind (RFC 1350 §5, RFC 2347).
pub open spec fn opcode_of(p: PacketView) -> u16 {
    match p {
        PacketView::Rrq { .. } => 1,
        PacketView::Wrq { .. } => 2,
        PacketView::Data { .. } => 3,
        PacketView::Ack { .. } => 4,
        PacketView::Error { .. } => 5,
        PacketView::Oack { .. } => 6,
    }
}

/// The bytes that encode a packet.
pub open spec fn encode_spec(p: PacketView) -> Seq<u8> {
    match p {
        PacketView::Rrq { filename, mode, options } => be16(1) + zstr(filename) + zstr(mode)
            + options_wire(options),
        PacketView::Wrq { filename, mode, options } => be16(2) + zstr(filename) + zstr(mode)
            + options_wire(options),
        PacketView::Data { block, data } => be16(3) + be16(block) + data,
        PacketView::Ack { block } => be16(4) + be16(block),
        PacketView::Oack { options } => be16(6) + options_wire(options),
        PacketView::Error { code, msg } => be16(5) + be16(code) + zstr(msg),
    }
}

/// Name for what `String::from_utf8_lossy` gives for bytes that are not
/// valid UTF-8 (each invalid sequence becomes U+FFFD).
pub uninterp spec fn utf8_lossy_replaced(bytes: Seq<u8>) -> Seq<char>;

/// Text of a byte string as `String::from_utf8_lossy` reads it.
pub open spec fn lossy_text(bytes: Seq<u8>) -> Seq<char> {
    if valid_utf8(bytes) {
        decode_utf8(bytes)
    } else {
        utf8_lossy_replaced(bytes)
    }
}

/// Index of the first NUL at or after `from`, or the length if there is none.
pub open spec fn zero_at_or_after(buf: Seq<u8>, from: int) -> int
    decreases buf.len() - from,
{
    if from >= buf.len() {
        buf.len() as int
    } else if buf[from] == 0 {
        from
    } else {
        zero_at_or_after(buf, from + 1)
    }
}

/// Why a byte string is not a packet.
pub enum DecodeFault {
    TooShort,
    DataTooShort,
    AckTooShort,
    ErrorTooShort,
    EndOfPacket,
    NoTerminator,
    UnknownOpcode(u16),
}

/// The message that each decode failure carries.
pub open spec fn fault_message(f: DecodeFault) -> Seq<char> {
    match f {
        DecodeFault::TooShort => "packet too short"@,
        DecodeFault::DataTooShort => "data packet too short"@,
        DecodeFault::AckTooShort => "ack packet too short"@,
        DecodeFault::ErrorTooShort => "error packet too short"@,
        DecodeFault::EndOfPacket => "unexpected end of packet"@,
        DecodeFault::NoTerminator => "missing string terminator"@,
        DecodeFault::UnknownOpcode(op) => "unknown opcode "@ + decimal_chars(op as nat),
    }
}

/// A NUL-terminated string starting at `from`, and the position after it.
pub open spec fn read_z_spec(buf: Seq<u8>, from: int) -> Result<(Seq<char>, int), DecodeFault> {
    if from >= buf.len() {
        Err(DecodeFault::EndOfPacket)
    } else {
        let e = zero_at_or_after(buf, from);
        if e >= buf.len() {
            Err(DecodeFault::NoTerminator)
        } else {
            Ok((lossy_text(buf.subrange(from, e)), e + 1))
        }
    }
}

/// The NUL search never moves backwards and never passes the end.
pub proof fn lemma_zero_at_or_after_bounds(buf: Seq<u8>, from: int)
    requires
        from <= buf.len(),
    ensures
        from <= zero_at_or_after(buf, from) <= buf.len(),
        zero_at_or_after(buf, from) < buf.len() ==> buf[zero_at_or_after(buf, from)] == 0,
        forall|i: int| from <= i < zero_at_or_after(buf, from) ==> buf[i] != 0,
    decreases buf.len() - from,
{
    if from < buf.len() && buf[from] != 0 {
        lemma_zero_at_or_after_bounds(buf, from + 1);
    }
}

/// Option pairs read from `pos` until the end or the first incomplete pair.
pub open spec fn options_from(buf: Seq<u8>, pos: int) -> Seq<(Seq<char>, Seq<char>)>
    decreases buf.len() - pos,
{
    if pos >= buf.len() {
        seq![]
    } else {
        match read_z_spec(buf, pos) {
            Err(_) => seq![],
            Ok((name, next)) => match read_z_spec(buf, next) {
                Err(_) => seq![],
                Ok((value, after)) => {
                    proof {
                        lemma_zero_at_or_after_bounds(buf, pos);
                        lemma_zero_at_or_after_bounds(buf, next);
                    }
                    seq![(name, value)] + options_from(buf, after)
                },
            },
        }
    }
}

/// The packet that a byte string encodes, or why it encodes none.
pub open spec fn decode_spec(buf: Seq<u8>) -> Result<PacketView, DecodeFault> {
    if buf.len() < 2 {
        Err(DecodeFault::TooShort)
    } else {
        let op = be16_value(buf[0], buf[1]);
        if op == 1 || op == 2 {
            match read_z_spec(buf, 2) {
                Err(f) => Err(f),
                Ok((filename, pos)) => {
                    let (mode, pos2) = match read_z_spec(buf, pos) {
                        Ok((m, p)) => (m, p),
                        Err(_) => ("octet"@, pos),
                    };
                    let options = options_from(buf, pos2);
                    if op == 1 {
                        Ok(PacketView::Rrq { filename, mode, options })
                    } else {
                        Ok(PacketView::Wrq { filename, mode, options })
                    }
                },
            }
        } else if op == 3 {
            if buf.len() < 4 {
                Err(DecodeFault::DataTooShort)
            } else {
                Ok(
                    PacketView::Data {
                        block: be16_value(buf[2], buf[3]),
                        data: buf.subrange(4, buf.len() as int),
                    },
                )
            }
        } else if op == 4 {
            if buf.len() < 4 {
                Err(DecodeFault::AckTooShort)
            } else {
                Ok(PacketView::Ack { block: be16_value(buf[2], buf[3]) })
            }
        } else if op == 5 {
            if buf.len() < 4 {
                Err(DecodeFault::ErrorTooShort)
            } else {
                Ok(
                    PacketView::Error {
                        code: be16_value(buf[2], buf[3]),
                        msg: lossy_text(buf.subrange(4, zero_at_or_after(buf, 4))),
                    },
                )
            }
        } else if op == 6 {
            Ok(PacketView::Oack { options: options_from(buf, 2) })
        } else {
            Err(DecodeFault::UnknownOpcode(op))
        }
    }
}

/// `e` is a protocol error carrying the message `msg`.
pub open spec fn is_protocol_error(e: Error, msg: Seq<char>) -> bool {
    match e {
        Error::TftpProtocol(m) => m@ == msg,
        _ => false,
    }
}

/// `r` is what decoding reports for the outcome `d` of the wire format.
pub open spec fn decode_result_matches(r: Result<Packet, Error>, d: Result<PacketView, DecodeFault>) -> bool {
    match d {
        Ok(v) => r matches Ok(p) && p@ == v,
        Err(f) => r matches Err(e) && is_protocol_error(e, fault_message(f)),
    }
}

// ---------------------------------------------------------------------------
// Option negotiation
// ---------------------------------------------------------------------------

/// ASCII lower-casing of one byte.
pub open spec fn ascii_lower(b: u8) -> u8 {
    if 65 <= b <= 90 {
        (b + 32) as u8
    } else {
        b
    }
}

/// Byte strings equal up to ASCII case (`eq_ignore_ascii_case`).
pub open spec fn eq_ignore_ascii_case(a: Seq<u8>, b: Seq<u8>) -> bool {
    a.len() == b.len() && forall|i: int| 0 <= i < a.len() ==> #[trigger] ascii_lower(a[i]) == ascii_lower(b[i])
}

/// The bytes of the option name `blksize`.
pub open spec fn blksize_name() -> Seq<u8> {
    seq![98u8, 108u8, 107u8, 115u8, 105u8, 122u8, 101u8]
}

/// The option name is `blksize` in any ASCII case.
pub open spec fn names_blksize(name: Seq<char>) -> bool {
    eq_ignore_ascii_case(encode_utf8(name), blksize_name())
}

/// Value of the first option whose name is `blksize`, if any.
pub open spec fn blksize_value(o: Seq<(Seq<char>, Seq<char>)>) -> Option<Seq<char>>
    decreases o.len(),
{
    if o.len() == 0 {
        None
    } else if names_blksize(o[0].0) {
        Some(o[0].1)
    } else {
        blksize_value(o.drop_first())
    }
}

/// `n` brought into `[lo, hi]`.
pub open spec fn clamp_spec(n: int, lo: int, hi: int) -> int {
    if n < lo {
        lo
    } else if n > hi {
        hi
    } else {
        n
    }
}

/// The block size an option list negotiates: the first `blksize` option's
/// value, read as a decimal `usize` and clamped to the RFC 2348 range.
pub open spec fn negotiated_blksize_spec(o: Seq<(Seq<char>, Seq<char>)>) -> Option<usize> {
    match blksize_value(o) {
        None => None,
        Some(v) => match parse_usize_spec(encode_utf8(v)) {
            None => None,
            Some(n) => Some(clamp_spec(n as int, MIN_BLKSIZE as int, MAX_BLKSIZE as int) as usize),
        },
    }
}

// ---------------------------------------------------------------------------
// Executable codec
// ---------------------------------------------------------------------------

/// Trusted: `String::from_utf8_lossy(bytes).into_owned()`. The standard
/// library documents that valid UTF-8 is decoded as is and that only invalid
/// sequences are replaced; what the replacement gives is only named here.
#[verifier::external_body]
fn lossy_string(bytes: &[u8]) -> (s: String)
    ensures
        valid_utf8(bytes@) ==> s@ == decode_utf8(bytes@),
        !valid_utf8(bytes@) ==> s@ == utf8_lossy_replaced(bytes@),
{
    String::from_utf8_lossy(bytes).into_owned()
}

fn push_u16(out: &mut Vec<u8>, x: u16)
    ensures
        final(out)@ == old(out)@ + be16(x),
{
    out.push((x / 256) as u8);
    out.push((x % 256) as u8);
    assert(final(out)@ =~= old(out)@ + be16(x));
}

fn push_z(out: &mut Vec<u8>, s: &str)
    ensures
        final(out)@ == old(out)@ + zstr(s@),
{
    let ghost before = out@;
    out.extend_from_slice(s.as_bytes());
    assert(out@ =~= before + encode_utf8(s@));
    out.push(0);
    assert(out@ =~= before + zstr(s@));
}

fn push_options(out: &mut Vec<u8>, options: &Vec<(String, String)>)
    ensures
        final(out)@ == old(out)@ + options_wire(options_view(options@)),
{
    let ghost before = out@;
    let ghost ov = options_view(options@);
    let mut i: usize = 0;
    assert(ov.take(0) =~= Seq::<(Seq<char>, Seq<char>)>::empty());
    assert(out@ =~= before + options_wire(ov.take(0)));
    while i < options.len()
        invariant
            i <= options.len(),
            ov == options_view(options@),
            out@ == before + options_wire(ov.take(i as int)),
        decreases options.len() - i,
    {
        let (k, v) = &options[i];
        push_z(out, k.as_str());
        push_z(out, v.as_str());
        proof {
            let t = ov.take(i + 1);
            assert(t.drop_last() =~= ov.take(i as int));
            assert(t.last() == ov[i as int]);
        }
        i = i + 1;
    }
    assert(ov.take(options.len() as int) =~= ov);
}

fn protocol_error(msg: &str) -> (e: Error)
    ensures
        is_protocol_error(e, msg@),
{
    Error::TftpProtocol(String::from_str(msg))
}

/// Index of the first NUL at or after `from`, or the length if none.
fn find_zero(buf: &[u8], from: usize) -> (e: usize)
    requires
        from <= buf@.len(),
    ensures
        e == zero_at_or_after(buf@, from as int),
{
    let mut i = from;
    while i < buf.len() && buf[i] != 0
        invariant
            from <= i <= buf@.len(),
            zero_at_or_after(buf@, i as int) == zero_at_or_after(buf@, from as int),
        decreases buf@.len() - i,
    {
        i = i + 1;
    }
    i
}

fn be16_at(buf: &[u8], i: usize) -> (x: u16)
    requires
        i + 1 < buf@.len(),
    ensures
        x == be16_value(buf@[i as int], buf@[i + 1]),
{
    (buf[i] as u16) * 256 + (buf[i + 1] as u16)
}

/// Read a NUL-terminated string starting at `from`; returns (string, next pos).
fn read_z(buf: &[u8], from: usize) -> (r: Result<(String, usize), Error>)
    ensures
        match read_z_spec(buf@, from as int) {
            Ok((s, n)) => r matches Ok((rs, rn)) && rs@ == s && rn == n,
            Err(f) => r matches Err(e) && is_protocol_error(e, fault_message(f)),
        },
{
    if from >= buf.len() {
        return Err(protocol_error("unexpected end of packet"));
    }
    let e = find_zero(buf, from);
    proof {
        lemma_zero_at_or_after_bounds(buf@, from as int);
    }
    if e >= buf.len() {
        return Err(protocol_error("missing string terminator"));
    }
    let s = lossy_string(slice_subrange(buf, from, e));
    Ok((s, e + 1))
}

fn parse_options(buf: &[u8], pos: usize) -> (opts: Vec<(String, String)>)
    requires
        pos <= buf@.len(),
    ensures
        options_view(opts@) == options_from(buf@, pos as int),
{
    let mut opts: Vec<(String, String)> = Vec::new();
    let mut pos = pos;
    let ghost start = pos as int;
    assert(options_view(opts@) + options_from(buf@, pos as int) =~= options_from(buf@, start));
    while pos < buf.len()
        invariant
            pos <= buf@.len(),
            options_view(opts@) + options_from(buf@, pos as int) == options_from(buf@, start),
        ensures
            options_view(opts@) == options_from(buf@, start),
        decreases buf@.len() - pos,
    {
        let ghost old_view = options_view(opts@);
        let (name, next) = match read_z(buf, pos) {
            Ok(v) => v,
            Err(_) => {
                assert(options_from(buf@, pos as int) =~= Seq::<(Seq<char>, Seq<char>)>::empty());
                assert(options_view(opts@) =~= options_view(opts@) + options_from(buf@, pos as int));
                assert(options_view(opts@) == options_from(buf@, start));
                break ;
            },
        };
        let (value, after) = match read_z(buf, next) {
            Ok(v) => v,
            Err(_) => {
                assert(options_from(buf@, pos as int) =~= Seq::<(Seq<char>, Seq<char>)>::empty());
                assert(options_view(opts@) =~= options_view(opts@) + options_from(buf@, pos as int));
                assert(options_view(opts@) == options_from(buf@, start));
                break ;
            },
        };
        proof {
            lemma_zero_at_or_after_bounds(buf@, pos as int);
            lemma_zero_at_or_after_bounds(buf@, next as int);
        }
        opts.push((name, value));
        proof {
            assert(options_view(opts@) =~= old_view.push((name@, value@)));
            assert(options_from(buf@, pos as int) == seq![(name@, value@)] + options_from(
                buf@,
                after as int,
            ));
            assert(options_view(opts@) + options_from(buf@, after as int) =~= old_view
                + options_from(buf@, pos as int));
        }
        pos = after;
    }
    opts
}

impl Packet {
    /// The bytes of this packet on the wire.
    pub fn encode(&self) -> (out: Vec<u8>)
        ensures
            out@ == encode_spec(self@),
    {
        let mut out = Vec::new();
        match self {
            Packet::Rrq { filename, mode, options } | Packet::Wrq { filename, mode, options } => {
                push_u16(&mut out, self.opcode());
                push_z(&mut out, filename.as_str());
                push_z(&mut out, mode.as_str());
                push_options(&mut out, options);
            },
            Packet::Data { block, data } => {
                push_u16(&mut out, 3);
                push_u16(&mut out, *block);
                out.extend_from_slice(data.as_slice());
            },
            Packet::Ack { block } => {
                push_u16(&mut out, 4);
                push_u16(&mut out, *block);
            },
            Packet::Oack { options } => {
                push_u16(&mut out, 6);
                push_options(&mut out, options);
            },
            Packet::Error { code, msg } => {
                push_u16(&mut out, 5);
                push_u16(&mut out, *code);
                push_z(&mut out, msg.as_str());
            },
        }
        assert(out@ =~= encode_spec(self@));
        out
    }

    /// The packet that `buf` encodes; a protocol error names what is wrong
    /// with a byte string that encodes none.
    pub fn decode(buf: &[u8]) -> (r: Result<Packet, Error>)
        ensures
            decode_result_matches(r, decode_spec(buf@)),
    {
        if buf.len() < 2 {
            return Err(protocol_error("packet too short"));
        }
        let opcode = be16_at(buf, 0);
        if opcode == 1 || opcode == 2 {
            let (filename, pos) = match read_z(buf, 2) {
                Ok(v) => v,
                Err(e) => {
                    return Err(e);
                },
            };
            proof {
                lemma_zero_at_or_after_bounds(buf@, 2);
            }
            let (mode, pos) = match read_z(buf, pos) {
                Ok(v) => v,
                Err(_) => (String::from_str("octet"), pos),
            };
            proof {
                if pos < buf@.len() {
                    lemma_zero_at_or_after_bounds(buf@, pos as int);
                }
            }
            let options = parse_options(buf, pos);
            if opcode == 1 {
                Ok(Packet::Rrq { filename, mode, options })
            } else {
                Ok(Packet::Wrq { filename, mode, options })
            }
        } else if opcode == 3 {
            if buf.len() < 4 {
                return Err(protocol_error("data packet too short"));
            }
            let block = be16_at(buf, 2);
            let data = slice_to_vec(slice_subrange(buf, 4, buf.len()));
            Ok(Packet::Data { block, data })
        } else if opcode == 4 {
            if buf.len() < 4 {
                return Err(protocol_error("ack packet too short"));
            }
            let block = be16_at(buf, 2);
            Ok(Packet::Ack { block })
        } else if opcode == 5 {
            if buf.len() < 4 {
                return Err(protocol_error("error packet too short"));
            }
            let code = be16_at(buf, 2);
            let end = find_zero(buf, 4);
            proof {
                lemma_zero_at_or_after_bounds(buf@, 4);
            }
            let msg = lossy_string(slice_subrange(buf, 4, end));
            Ok(Packet::Error { code, msg })
        } else if opcode == 6 {
            let options = parse_options(buf, 2);
            Ok(Packet::Oack { options })
        } else {
            let mut m = String::from_str("unknown opcode ");
            let digits = decimal_string(opcode as usize);
            m.append(digits.as_str());
            Err(Error::TftpProtocol(m))
        }
    }

    fn opcode(&self) -> (op: u16)
        ensures
            op == opcode_of(self@),
    {
        match self {
            Packet::Rrq { .. } => 1,
            Packet::Wrq { .. } => 2,
            Packet::Data { .. } => 3,
            Packet::Ack { .. } => 4,
            Packet::Error { .. } => 5,
            Packet::Oack { .. } => 6,
        }
    }

    /// Convert a received ERROR packet into the engine's error type.
    pub fn into_remote_error(self) -> (r: Option<Error>)
        ensures
            match self@ {
                PacketView::Error { code, msg } => r matches Some(Error::TftpRemote { code: c, msg: m })
                    && c == code && m@ == msg,
                _ => r is None,
            },
    {
        match self {
            Packet::Error { code, msg } => Some(Error::TftpRemote { code, msg }),
            _ => None,
        }
    }
}

/// The bytes equal the name `blksize` up to ASCII case.
fn is_blksize_name(name: &str) -> (b: bool)
    ensures
        b == names_blksize(name@),
{
    let bytes = name.as_bytes();
    let target: [u8; 7] = [98u8, 108u8, 107u8, 115u8, 105u8, 122u8, 101u8];
    assert(target@ =~= blksize_name());
    if bytes.len() != 7 {
        return false;
    }
    let mut i: usize = 0;
    while i < 7
        invariant
            i <= 7,
            bytes@ == encode_utf8(name@),
            bytes@.len() == 7,
            target@ == blksize_name(),
            forall|j: int| 0 <= j < i ==> #[trigger] ascii_lower(bytes@[j]) == ascii_lower(target@[j]),
        decreases 7 - i,
    {
        let a = bytes[i];
        let b = target[i];
        let la = if 65 <= a && a <= 90 { a + 32 } else { a };
        let lb = if 65 <= b && b <= 90 { b + 32 } else { b };
        if la != lb {
            assert(ascii_lower(bytes@[i as int]) != ascii_lower(target@[i as int]));
            return false;
        }
        i = i + 1;
    }
    true
}

/// Extract a negotiated blksize from an option list (case-insensitive name,
/// value clamped to the RFC 2348 range).
pub fn negotiated_blksize(options: &[(String, String)]) -> (r: Option<usize>)
    ensures
        r == negotiated_blksize_spec(options_view(options@)),
{
    let ghost ov = options_view(options@);
    let mut i: usize = 0;
    assert(ov.skip(0) =~= ov);
    while i < options.len()
        invariant
            i <= options@.len(),
            ov == options_view(options@),
            blksize_value(ov.skip(i as int)) == blksize_value(ov),
        decreases options@.len() - i,
    {
        assert(ov.skip(i as int).drop_first() =~= ov.skip(i + 1));
        if is_blksize_name(options[i].0.as_str()) {
            let parsed = parse_usize(options[i].1.as_str());
            return match parsed {
                None => None,
                Some(b) => Some(
                    if b < MIN_BLKSIZE {
                        MIN_BLKSIZE
                    } else if b > MAX_BLKSIZE {
                        MAX_BLKSIZE
                    } else {
                        b
                    },
                ),
            };
        }
        i = i + 1;
    }
    assert(ov.skip(i as int) =~= Seq::<(Seq<char>, Seq<char>)>::empty());
    None
}

} // verus!
