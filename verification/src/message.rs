//! The two messages of the protocol and their form on the wire.
//!
//! A message travels as a frame: its length as an unsigned varint, then the
//! message itself. The message is a sequence of fields. The first field gives
//! the kind of the message; in a `Connect` each following field holds one
//! multiaddress in its binary form. Every field starts with a one-byte tag.
//!
//! Exactly one sequence of bytes stands for each message, and nothing else is
//! read as that message: reading and writing are inverse to each other.

use crate::net::{addr_from_vec, addr_to_vec, addrs_bytes, is_multiaddr};
use crate::varint;
use libp2p_core::Multiaddr;
use vstd::prelude::*;
use vstd::slice::{slice_subrange, slice_to_vec};

verus! {

/// The largest message, in bytes, without the length in front.
pub const MAX_MESSAGE_SIZE: usize = 4096;

/// The largest number of addresses in one message.
pub const MAX_ADDRS: usize = 30;

/// The largest binary form of an address in a message, in bytes.
pub const MAX_ADDR_LEN: usize = 1024;

/// The tag of the field that holds the kind of the message.
pub const TAG_TYPE: u8 = 0x08;

/// The tag of a field that holds an address.
pub const TAG_OBS_ADDRS: u8 = 0x12;

/// The number that stands for `Connect`.
pub const TYPE_CONNECT: u64 = 100;

/// The number that stands for `Sync`.
pub const TYPE_SYNC: u64 = 300;

/// The bytes are not a message of the protocol, or the message cannot be put
/// into the protocol's bytes.
#[derive(Clone, Copy, Debug, PartialEq, Eq)]
pub struct MalformedMessage;

/// The two kinds of message.
#[derive(Clone, Copy, Debug, PartialEq, Eq, Structural)]
pub enum Kind {
    Connect,
    Sync,
}

impl Kind {
    /// The number that stands for the kind on the wire.
    pub open spec fn number(self) -> nat {
        match self {
            Kind::Connect => TYPE_CONNECT as nat,
            Kind::Sync => TYPE_SYNC as nat,
        }
    }
}

/// A message of the protocol.
#[derive(Clone, Debug, PartialEq, Eq)]
pub enum HolePunch {
    /// The sender can be reached under `obs_addrs`.
    Connect { obs_addrs: Vec<Multiaddr> },
    /// The sender is about to dial.
    Sync,
}

/// A message of the protocol, with each multiaddress in its binary form.
#[verifier::ext_equal]
pub enum HolePunchView {
    Connect { obs_addrs: Seq<Seq<u8>> },
    Sync,
}

impl View for HolePunch {
    type V = HolePunchView;

    open spec fn view(&self) -> HolePunchView {
        match *self {
            HolePunch::Connect { obs_addrs } => HolePunchView::Connect {
                obs_addrs: addrs_bytes(obs_addrs@),
            },
            HolePunch::Sync => HolePunchView::Sync,
        }
    }
}

impl HolePunch {
    /// The kind of the message.
    pub fn kind(&self) -> (kind: Kind)
        ensures
            kind == self@.kind(),
    {
        match self {
            HolePunch::Connect { .. } => Kind::Connect,
            HolePunch::Sync => Kind::Sync,
        }
    }
}

/// Whether an address may stand in a message.
pub open spec fn valid_addr(addr: Seq<u8>) -> bool {
    addr.len() <= MAX_ADDR_LEN && is_multiaddr(addr)
}

impl HolePunchView {
    /// The kind of the message.
    pub open spec fn kind(self) -> Kind {
        match self {
            HolePunchView::Connect { .. } => Kind::Connect,
            HolePunchView::Sync => Kind::Sync,
        }
    }

    /// The addresses that the message carries.
    pub open spec fn obs_addrs(self) -> Seq<Seq<u8>> {
        match self {
            HolePunchView::Connect { obs_addrs } => obs_addrs,
            HolePunchView::Sync => Seq::empty(),
        }
    }

    /// Whether the message may travel: a `Connect` carries at least one
    /// address and at most [`MAX_ADDRS`], each of them acceptable, and no
    /// message is larger than [`MAX_MESSAGE_SIZE`].
    pub open spec fn valid(self) -> bool {
        &&& payload(self).len() <= MAX_MESSAGE_SIZE
        &&& self is Connect ==> {
            &&& 1 <= self.obs_addrs().len() <= MAX_ADDRS
            &&& forall|i: int| 0 <= i < self.obs_addrs().len() ==> valid_addr(#[trigger] self.obs_addrs()[i])
        }
    }
}

/// The field that holds one address: the tag, the length, the address.
pub open spec fn field(addr: Seq<u8>) -> Seq<u8> {
    seq![TAG_OBS_ADDRS] + varint::encode(addr.len()) + addr
}

/// The fields that hold the addresses, in their order.
pub open spec fn fields(addrs: Seq<Seq<u8>>) -> Seq<u8>
    decreases addrs.len(),
{
    if addrs.len() == 0 {
        Seq::empty()
    } else {
        field(addrs[0]) + fields(addrs.skip(1))
    }
}

/// The bytes of a message.
pub open spec fn payload(message: HolePunchView) -> Seq<u8> {
    seq![TAG_TYPE] + varint::encode(message.kind().number()) + fields(message.obs_addrs())
}

/// The bytes of a message with their length in front.
pub open spec fn frame(message: HolePunchView) -> Seq<u8> {
    varint::encode(payload(message).len()) + payload(message)
}

/// The addresses that the fields in `bytes` hold, if `bytes` is nothing but
/// such fields and each address is acceptable.
pub open spec fn parse_fields(bytes: Seq<u8>) -> Option<Seq<Seq<u8>>>
    decreases bytes.len(),
{
    if bytes.len() == 0 {
        Some(Seq::empty())
    } else if bytes[0] != TAG_OBS_ADDRS {
        None
    } else {
        match varint::decode(bytes.skip(1)) {
            None => None,
            Some((n, l)) => {
                if 1 + l + n > bytes.len() {
                    None
                } else {
                    let addr = bytes.subrange(1 + l as int, 1 + l + n as int);
                    if !valid_addr(addr) {
                        None
                    } else {
                        prepend(seq![addr], parse_fields(bytes.skip(1 + l + n as int)))
                    }
                }
            },
        }
    }
}

/// `found` in front of what was found after it, if anything was.
pub open spec fn prepend(found: Seq<Seq<u8>>, more: Option<Seq<Seq<u8>>>) -> Option<Seq<Seq<u8>>> {
    match more {
        Some(rest) => Some(found + rest),
        None => None,
    }
}

/// The message that `bytes` is.
pub open spec fn parse(bytes: Seq<u8>) -> Option<HolePunchView> {
    if bytes.len() == 0 || bytes.len() > MAX_MESSAGE_SIZE || bytes[0] != TAG_TYPE {
        None
    } else {
        match varint::decode(bytes.skip(1)) {
            None => None,
            Some((number, l)) => {
                let body = bytes.skip(1 + l as int);
                if number == TYPE_CONNECT {
                    match parse_fields(body) {
                        Some(obs_addrs) => if 1 <= obs_addrs.len() <= MAX_ADDRS {
                            Some(HolePunchView::Connect { obs_addrs })
                        } else {
                            None
                        },
                        None => None,
                    }
                } else if number == TYPE_SYNC && body.len() == 0 {
                    Some(HolePunchView::Sync)
                } else {
                    None
                }
            },
        }
    }
}

/// What the bytes received so far amount to.
#[verifier::ext_equal]
pub enum FrameView {
    /// More bytes are needed.
    Incomplete,
    /// No more bytes can make this the expected message.
    Malformed,
    /// The first `len` bytes are the frame of `message`.
    Complete { message: HolePunchView, len: nat },
}

/// What `bytes` amounts to, where a message of the kind `expected` is awaited.
pub open spec fn parse_frame(bytes: Seq<u8>, expected: Kind) -> FrameView {
    match varint::decode(bytes) {
        None => if bytes.len() == 0 || (bytes.len() == 1 && bytes[0] >= 128) {
            FrameView::Incomplete
        } else {
            FrameView::Malformed
        },
        Some((n, l)) => {
            if n > MAX_MESSAGE_SIZE {
                FrameView::Malformed
            } else if bytes.len() < l + n {
                FrameView::Incomplete
            } else {
                match parse(bytes.subrange(l as int, l + n as int)) {
                    Some(message) => if message.kind() == expected {
                        FrameView::Complete { message, len: l + n }
                    } else {
                        FrameView::Malformed
                    },
                    None => FrameView::Malformed,
                }
            }
        },
    }
}

/// The fields of two lists of addresses, one after the other, are the fields
/// of the two lists joined.
pub proof fn lemma_fields_concat(first: Seq<Seq<u8>>, second: Seq<Seq<u8>>)
    ensures
        fields(first + second) == fields(first) + fields(second),
    decreases first.len(),
{
    if first.len() == 0 {
        assert(first + second =~= second);
    } else {
        lemma_fields_concat(first.skip(1), second);
        assert((first + second).skip(1) =~= first.skip(1) + second);
        assert((first + second)[0] == first[0]);
        assert(fields(first + second) =~= fields(first) + fields(second));
    }
}

/// Fields that are read are fields of acceptable addresses, and writing the
/// addresses gives the bytes back.
pub proof fn lemma_fields_of_parsed(bytes: Seq<u8>)
    requires
        parse_fields(bytes) is Some,
    ensures
        fields(parse_fields(bytes).unwrap()) == bytes,
        forall|i: int|
            0 <= i < parse_fields(bytes).unwrap().len() ==> valid_addr(
                #[trigger] parse_fields(bytes).unwrap()[i],
            ),
        bytes.len() > 0 ==> parse_fields(bytes).unwrap().len() >= 1,
    decreases bytes.len(),
{
    if bytes.len() > 0 {
        let (n, l) = varint::decode(bytes.skip(1)).unwrap();
        varint::lemma_encode_decode(bytes.skip(1));
        let addr = bytes.subrange(1 + l as int, 1 + l + n as int);
        let after = bytes.skip(1 + l + n as int);
        lemma_fields_of_parsed(after);
        let rest = parse_fields(after).unwrap();
        let all = seq![addr] + rest;
        assert(parse_fields(bytes) == Some(all));
        assert(all[0] == addr);
        assert(all.skip(1) =~= rest);
        assert(bytes.skip(1).take(l as int) =~= bytes.subrange(1, 1 + l as int));
        assert(fields(all) =~= bytes);
        assert forall|i: int| 0 <= i < all.len() implies valid_addr(#[trigger] all[i]) by {
            if i > 0 {
                assert(all[i] == rest[i - 1]);
            }
        }
    }
}

/// The fields of acceptable addresses are read as these addresses.
pub proof fn lemma_parse_fields_of_fields(addrs: Seq<Seq<u8>>)
    requires
        forall|i: int| 0 <= i < addrs.len() ==> valid_addr(#[trigger] addrs[i]),
    ensures
        parse_fields(fields(addrs)) == Some(addrs),
    decreases addrs.len(),
{
    if addrs.len() > 0 {
        let addr = addrs[0];
        let rest = addrs.skip(1);
        let bytes = fields(addrs);
        let after = fields(rest);
        assert(valid_addr(addr));
        assert forall|i: int| 0 <= i < rest.len() implies valid_addr(#[trigger] rest[i]) by {
            assert(rest[i] == addrs[i + 1]);
        }
        lemma_parse_fields_of_fields(rest);
        varint::lemma_decode_encode(addr.len(), addr + after);
        let l = varint::encode(addr.len()).len();
        assert(bytes == field(addr) + after);
        assert(bytes[0] == TAG_OBS_ADDRS);
        assert(bytes.skip(1) =~= varint::encode(addr.len()) + (addr + after));
        assert(bytes.subrange(1 + l as int, 1 + l + addr.len() as int) =~= addr);
        assert(bytes.skip(1 + l + addr.len() as int) =~= after);
        assert(seq![addr] + rest =~= addrs);
    }
}

/// The numbers of the two kinds are written in one byte and in two.
pub proof fn lemma_kind_numbers()
    ensures
        varint::encode(TYPE_CONNECT as nat) == seq![100u8],
        varint::encode(TYPE_SYNC as nat) == seq![0xacu8, 0x02u8],
{
    reveal_with_fuel(varint::encode, 2);
    assert(varint::encode(TYPE_SYNC as nat) =~= seq![0xacu8, 0x02u8]);
}

/// A message that may travel is read from its bytes.
pub proof fn lemma_parse_payload(message: HolePunchView)
    requires
        message.valid(),
    ensures
        parse(payload(message)) == Some(message),
{
    let bytes = payload(message);
    let number = message.kind().number();
    let body = fields(message.obs_addrs());
    varint::lemma_decode_encode(number, body);
    let l = varint::encode(number).len();
    assert(bytes[0] == TAG_TYPE);
    assert(bytes.skip(1) =~= varint::encode(number) + body);
    assert(bytes.skip(1 + l as int) =~= body);
    match message {
        HolePunchView::Connect { obs_addrs } => {
            lemma_parse_fields_of_fields(obs_addrs);
        },
        HolePunchView::Sync => {
            assert(body.len() == 0);
        },
    }
}

/// Bytes that are read as a message are the bytes of that message, and the
/// message is one that may travel.
pub proof fn lemma_payload_of_parsed(bytes: Seq<u8>)
    requires
        parse(bytes) is Some,
    ensures
        parse(bytes).unwrap().valid(),
        payload(parse(bytes).unwrap()) == bytes,
{
    let message = parse(bytes).unwrap();
    let (number, l) = varint::decode(bytes.skip(1)).unwrap();
    varint::lemma_encode_decode(bytes.skip(1));
    let body = bytes.skip(1 + l as int);
    assert(bytes.skip(1).take(l as int) =~= bytes.subrange(1, 1 + l as int));
    if number == TYPE_CONNECT {
        lemma_fields_of_parsed(body);
    } else {
        assert(fields(message.obs_addrs()) =~= body);
    }
    assert(payload(message) =~= bytes);
}

/// The frame of a message that may travel is read as that message, whatever
/// follows it.
pub proof fn lemma_parse_frame(message: HolePunchView, rest: Seq<u8>)
    requires
        message.valid(),
    ensures
        parse_frame(frame(message) + rest, message.kind()) == (FrameView::Complete {
            message,
            len: frame(message).len(),
        }),
{
    let body = payload(message);
    let bytes = frame(message) + rest;
    varint::lemma_decode_encode(body.len(), body + rest);
    let l = varint::encode(body.len()).len();
    assert(bytes =~= varint::encode(body.len()) + (body + rest));
    assert(bytes.subrange(l as int, l + body.len() as int) =~= body);
    lemma_parse_payload(message);
}

/// Bytes that are read as a frame start with the frame of the message that is
/// read, and that message may travel: writing it gives the bytes back.
pub proof fn lemma_frame_of_parsed(bytes: Seq<u8>, expected: Kind)
    requires
        parse_frame(bytes, expected) is Complete,
    ensures
        ({
            let message = parse_frame(bytes, expected)->message;
            let len = parse_frame(bytes, expected)->len;
            &&& message.valid()
            &&& message.kind() == expected
            &&& len <= bytes.len()
            &&& bytes.take(len as int) == frame(message)
        }),
{
    let (n, l) = varint::decode(bytes).unwrap();
    varint::lemma_encode_decode(bytes);
    let body = bytes.subrange(l as int, l + n as int);
    lemma_payload_of_parsed(body);
    let message = parse(body).unwrap();
    assert(bytes.take(l + n as int) =~= bytes.take(l as int) + body);
}

/// More bytes do not change what a complete or a malformed frame amounts to.
pub proof fn lemma_parse_frame_settled(bytes: Seq<u8>, more: Seq<u8>, expected: Kind)
    requires
        !(parse_frame(bytes, expected) is Incomplete),
    ensures
        parse_frame(bytes + more, expected) == parse_frame(bytes, expected),
{
    let all = bytes + more;
    match varint::decode(bytes) {
        Some((n, l)) => {
            varint::lemma_encode_decode(bytes);
            varint::lemma_decode_encode(n, bytes.skip(l as int));
            varint::lemma_decode_encode(n, bytes.skip(l as int) + more);
            assert(bytes =~= bytes.take(l as int) + bytes.skip(l as int));
            assert(all =~= bytes.take(l as int) + (bytes.skip(l as int) + more));
            if n <= MAX_MESSAGE_SIZE {
                assert(all.subrange(l as int, l + n as int) =~= bytes.subrange(
                    l as int,
                    l + n as int,
                ));
            }
        },
        None => {
            lemma_decode_prefix_none(bytes, more);
        },
    }
}

/// Where at least two bytes do not start with a number, or one byte that ends
/// a number does not, no bytes after them make them start with a number of at
/// most [`MAX_MESSAGE_SIZE`].
proof fn lemma_decode_prefix_none(bytes: Seq<u8>, more: Seq<u8>)
    requires
        varint::decode(bytes) is None,
        !(bytes.len() == 0 || (bytes.len() == 1 && bytes[0] >= 128)),
    ensures
        match varint::decode(bytes + more) {
            Some((n, l)) => n > MAX_MESSAGE_SIZE,
            None => true,
        },
{
    let all = bytes + more;
    reveal_with_fuel(varint::decode_within, 3);
    assert(all[0] == bytes[0]);
    assert(bytes[0] >= 128);
    assert(bytes.len() >= 2);
    assert(all.skip(1)[0] == bytes[1]);
    assert(bytes.skip(1)[0] == bytes[1]);
    if bytes[1] >= 128 {
        if varint::decode(all) is Some {
            let inner = varint::decode_within(all.skip(1), 9).unwrap();
            let innermost = varint::decode_within(all.skip(1).skip(1), 8).unwrap();
            assert(innermost.0 >= 1);
            assert(inner.0 >= 128);
        }
    }
}

fn decode_fields(buf: &[u8], start: usize) -> (r: Option<Vec<Multiaddr>>)
    requires
        start <= buf.len(),
    ensures
        match r {
            Some(addrs) => parse_fields(buf@.skip(start as int)) == Some(addrs_bytes(addrs@)),
            None => parse_fields(buf@.skip(start as int)) is None,
        },
{
    let mut addrs: Vec<Multiaddr> = Vec::new();
    let mut pos: usize = start;
    assert(addrs_bytes(addrs@) + parse_fields(buf@.skip(start as int)).unwrap()
        =~= parse_fields(buf@.skip(start as int)).unwrap());
    while pos < buf.len()
        invariant
            start <= pos <= buf.len(),
            parse_fields(buf@.skip(start as int)) == prepend(
                addrs_bytes(addrs@),
                parse_fields(buf@.skip(pos as int)),
            ),
        decreases buf.len() - pos,
    {
        let ghost rest = buf@.skip(pos as int);
        let ghost found = addrs_bytes(addrs@);
        assert(rest[0] == buf@[pos as int]);
        if buf[pos] != TAG_OBS_ADDRS {
            return None;
        }
        assert(rest.skip(1) =~= buf@.skip(pos + 1));
        match varint::read(buf, pos + 1) {
            None => {
                return None;
            },
            Some((n, l)) => {
                let from = pos + 1 + l;
                if n > (buf.len() - from) as u64 {
                    return None;
                }
                let to = from + n as usize;
                let bytes = slice_to_vec(slice_subrange(buf, from, to));
                assert(bytes@ =~= rest.subrange(1 + l as int, 1 + l + n as int));
                if bytes.len() > MAX_ADDR_LEN {
                    return None;
                }
                match addr_from_vec(bytes) {
                    Err(_) => {
                        return None;
                    },
                    Ok(addr) => {
                        assert(rest.skip(1 + l + n as int) =~= buf@.skip(to as int));
                        addrs.push(addr);
                        proof {
                            let after = parse_fields(buf@.skip(to as int));
                            assert(addrs_bytes(addrs@) =~= found + seq![bytes@]);
                            if after is Some {
                                assert(found + (seq![bytes@] + after.unwrap()) =~= addrs_bytes(
                                    addrs@,
                                ) + after.unwrap());
                            }
                        }
                        pos = to;
                    },
                }
            },
        }
    }
    assert(buf@.skip(pos as int).len() == 0);
    assert(addrs_bytes(addrs@) + Seq::<Seq<u8>>::empty() =~= addrs_bytes(addrs@));
    Some(addrs)
}

/// Reads a message from the bytes that are nothing but this message.
pub fn decode(bytes: &[u8]) -> (r: Result<HolePunch, MalformedMessage>)
    ensures
        match r {
            Ok(message) => parse(bytes@) == Some(message@),
            Err(_) => parse(bytes@) is None,
        },
        r matches Ok(message) ==> message@.valid() && payload(message@) == bytes@,
{
    proof {
        if parse(bytes@) is Some {
            lemma_payload_of_parsed(bytes@);
        }
    }
    if bytes.len() == 0 || bytes.len() > MAX_MESSAGE_SIZE || bytes[0] != TAG_TYPE {
        return Err(MalformedMessage);
    }
    assert(bytes@.skip(1) =~= bytes@.skip(1int));
    match varint::read(bytes, 1) {
        None => Err(MalformedMessage),
        Some((number, l)) => {
            if number == TYPE_CONNECT {
                match decode_fields(bytes, 1 + l) {
                    Some(obs_addrs) => {
                        if 1 <= obs_addrs.len() && obs_addrs.len() <= MAX_ADDRS {
                            Ok(HolePunch::Connect { obs_addrs })
                        } else {
                            Err(MalformedMessage)
                        }
                    },
                    None => Err(MalformedMessage),
                }
            } else if number == TYPE_SYNC && bytes.len() == 1 + l {
                Ok(HolePunch::Sync)
            } else {
                Err(MalformedMessage)
            }
        },
    }
}

/// Writes a message. A message that may not travel is refused.
pub fn encode(message: &HolePunch) -> (r: Result<Vec<u8>, MalformedMessage>)
    ensures
        r is Ok <==> message@.valid(),
        r matches Ok(bytes) ==> bytes@ == payload(message@),
{
    let mut out: Vec<u8> = Vec::new();
    out.push(TAG_TYPE);
    proof {
        lemma_kind_numbers();
    }
    match message {
        HolePunch::Sync => {
            varint::write(TYPE_SYNC, &mut out);
            assert(out@ =~= payload(message@));
            Ok(out)
        },
        HolePunch::Connect { obs_addrs } => {
            let ghost all = addrs_bytes(obs_addrs@);
            if obs_addrs.len() == 0 || obs_addrs.len() > MAX_ADDRS {
                return Err(MalformedMessage);
            }
            varint::write(TYPE_CONNECT, &mut out);
            let ghost head = out@;
            let mut i: usize = 0;
            assert(all.take(0) =~= Seq::<Seq<u8>>::empty());
            while i < obs_addrs.len()
                invariant
                    i <= obs_addrs.len() <= MAX_ADDRS,
                    all == addrs_bytes(obs_addrs@),
                    message@ == (HolePunchView::Connect { obs_addrs: all }),
                    out@ == head + fields(all.take(i as int)),
                    forall|j: int| 0 <= j < i ==> valid_addr(#[trigger] all[j]),
                decreases obs_addrs.len() - i,
            {
                let mut bytes = addr_to_vec(&obs_addrs[i]);
                assert(bytes@ == all[i as int]);
                if bytes.len() > MAX_ADDR_LEN {
                    assert(!valid_addr(message@.obs_addrs()[i as int]));
                    return Err(MalformedMessage);
                }
                let ghost before = out@;
                out.push(TAG_OBS_ADDRS);
                varint::write(bytes.len() as u64, &mut out);
                out.append(&mut bytes);
                proof {
                    lemma_fields_concat(all.take(i as int), seq![all[i as int]]);
                    assert(all.take(i + 1) =~= all.take(i as int) + seq![all[i as int]]);
                    reveal_with_fuel(fields, 2);
                    assert(seq![all[i as int]].skip(1) =~= Seq::<Seq<u8>>::empty());
                    assert(fields(seq![all[i as int]]) =~= field(all[i as int]));
                    assert(out@ =~= before + field(all[i as int]));
                }
                i = i + 1;
            }
            assert(all.take(i as int) =~= all);
            assert(out@ =~= payload(message@));
            if out.len() > MAX_MESSAGE_SIZE {
                return Err(MalformedMessage);
            }
            Ok(out)
        },
    }
}

/// Writes a message with its length in front. A message that may not travel
/// is refused.
pub fn write_frame(message: &HolePunch) -> (r: Result<Vec<u8>, MalformedMessage>)
    ensures
        r is Ok <==> message@.valid(),
        r matches Ok(bytes) ==> bytes@ == frame(message@),
{
    match encode(message) {
        Err(e) => Err(e),
        Ok(mut body) => {
            let mut out: Vec<u8> = Vec::new();
            varint::write(body.len() as u64, &mut out);
            out.append(&mut body);
            assert(out@ =~= frame(message@));
            Ok(out)
        },
    }
}

/// What the bytes received so far amount to.
#[derive(Clone, Debug, PartialEq, Eq)]
pub enum Frame {
    /// More bytes are needed.
    Incomplete,
    /// No more bytes can make this the expected message.
    Malformed,
    /// The first `len` bytes are the frame of `message`.
    Complete { message: HolePunch, len: usize },
}

impl View for Frame {
    type V = FrameView;

    open spec fn view(&self) -> FrameView {
        match *self {
            Frame::Incomplete => FrameView::Incomplete,
            Frame::Malformed => FrameView::Malformed,
            Frame::Complete { message, len } => FrameView::Complete {
                message: message@,
                len: len as nat,
            },
        }
    }
}

/// Reads a frame from the start of `buf`, where a message of the kind
/// `expected` is awaited.
pub fn read_frame(buf: &[u8], expected: Kind) -> (r: Frame)
    ensures
        r@ == parse_frame(buf@, expected),
        r matches Frame::Complete { message, len } ==> {
            &&& message@.valid()
            &&& len <= buf.len()
            &&& buf@.take(len as int) == frame(message@)
        },
{
    proof {
        if parse_frame(buf@, expected) is Complete {
            lemma_frame_of_parsed(buf@, expected);
        }
    }
    assert(buf@.skip(0) =~= buf@);
    match varint::read(buf, 0) {
        None => {
            if buf.len() == 0 || (buf.len() == 1 && buf[0] >= 128) {
                Frame::Incomplete
            } else {
                Frame::Malformed
            }
        },
        Some((n, l)) => {
            if n > MAX_MESSAGE_SIZE as u64 {
                Frame::Malformed
            } else if ((buf.len() - l) as u64) < n {
                Frame::Incomplete
            } else {
                let end = l + n as usize;
                match decode(slice_subrange(buf, l, end)) {
                    Ok(message) => {
                        if message.kind() == expected {
                            Frame::Complete { message, len: end }
                        } else {
                            Frame::Malformed
                        }
                    },
                    Err(_) => Frame::Malformed,
                }
            }
        },
    }
}

} // verus!
