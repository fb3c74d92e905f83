//! The packets that discovery puts on the wire.
//!
//! A packet is a header, which is three magic bytes and one byte for the kind,
//! and directly behind it the fields of the message, with no padding and no
//! length: the kind alone says how long a packet is.

use vstd::prelude::*;

verus! {

/// The number of bytes of a header.
pub const HEADER_SIZE: usize = 4;

/// The number of bytes of a nonce.
pub const NONCE_SIZE: usize = 8;

/// The number of bytes of a Zenoh id.
pub const ZID_SIZE: usize = 16;

/// The kind of a packet, which stands for its version too.
#[derive(Debug, Clone, Copy, PartialEq, Eq, Structural)]
pub enum Kind {
    Hello,
    WhatsUp,
}

/// The byte stands for no kind.
#[derive(Debug, Clone, Copy, PartialEq, Eq, Structural)]
pub struct UnknownKind;

impl Kind {
    /// The byte that stands for the kind.
    pub open spec fn code(self) -> u8 {
        match self {
            Kind::Hello => 0,
            Kind::WhatsUp => 1,
        }
    }

    /// The byte that stands for the kind.
    pub fn to_byte(self) -> (b: u8)
        ensures
            b == self.code(),
    {
        match self {
            Kind::Hello => 0,
            Kind::WhatsUp => 1,
        }
    }
}

impl TryFrom<u8> for Kind {
    type Error = UnknownKind;

    fn try_from(value: u8) -> (r: Result<Self, UnknownKind>) {
        match value {
            0 => Ok(Kind::Hello),
            1 => Ok(Kind::WhatsUp),
            _ => Err(UnknownKind),
        }
    }
}

impl vstd::std_specs::convert::TryFromSpecImpl<u8> for Kind {
    open spec fn obeys_try_from_spec() -> bool {
        true
    }

    open spec fn try_from_spec(value: u8) -> Result<Self, UnknownKind> {
        if value == Kind::Hello.code() {
            Ok(Kind::Hello)
        } else if value == Kind::WhatsUp.code() {
            Ok(Kind::WhatsUp)
        } else {
            Err(UnknownKind)
        }
    }
}

/// `bytemuck::bytes_of` on an array of bytes: the slice that it hands back
/// holds the bytes of the array, in their order.
#[verifier::external_body]
fn bytes_of<const N: usize>(bytes: &[u8; N]) -> (r: &[u8])
    ensures
        r@ == bytes@,
{
    bytemuck::bytes_of(bytes)
}

/// `bytemuck::from_bytes` to an array of bytes: it hands the slice back as an
/// array with the same bytes. It panics where the lengths differ, which
/// `requires` leaves out; an array of bytes has no alignment to miss.
#[verifier::external_body]
fn from_bytes<const N: usize>(bytes: &[u8]) -> (r: &[u8; N])
    requires
        bytes@.len() == N,
    ensures
        r@ == bytes@,
{
    bytemuck::from_bytes(bytes)
}

/// The three bytes that every packet starts with: `EXO` in ASCII.
pub open spec fn magic() -> Seq<u8> {
    seq![0x45u8, 0x58u8, 0x4fu8]
}

/// The bytes of a packet of this kind with these fields.
pub open spec fn packet(kind: Kind, body: Seq<u8>) -> Seq<u8> {
    magic().push(kind.code()) + body
}

/// Overwrites the bytes of `buf` from `at` on with those of `src`.
fn copy_into(buf: &mut [u8], at: usize, src: &[u8])
    requires
        at + src@.len() <= old(buf)@.len(),
    ensures
        final(buf)@ == old(buf)@.take(at as int) + src@ + old(buf)@.skip(at + src@.len()),
{
    let ghost before: Seq<u8> = buf@;
    let len: usize = buf.len();
    let mut i: usize = 0;
    while i < src.len()
        invariant
            i <= src@.len(),
            before.len() == buf@.len() == len,
            at + src@.len() <= before.len(),
            buf@ == before.take(at as int) + src@.take(i as int) + before.skip(at + i),
        decreases src@.len() - i,
    {
        buf[at + i] = src[i];
        i += 1;
        assert(buf@ =~= before.take(at as int) + src@.take(i as int) + before.skip(at + i));
    }
    assert(src@.take(i as int) =~= src@);
}

/// Whether two slices hold the same bytes.
pub(crate) fn same_bytes(a: &[u8], b: &[u8]) -> (r: bool)
    ensures
        r == (a@ == b@),
{
    if a.len() != b.len() {
        return false;
    }
    let mut i: usize = 0;
    while i < a.len()
        invariant
            i <= a@.len(),
            a@.len() == b@.len(),
            a@.take(i as int) == b@.take(i as int),
        decreases a@.len() - i,
    {
        if a[i] != b[i] {
            assert(a@[i as int] != b@[i as int]);
            return false;
        }
        assert(a@.take(i + 1) =~= a@.take(i as int).push(a@[i as int]));
        assert(b@.take(i + 1) =~= b@.take(i as int).push(b@[i as int]));
        i += 1;
    }
    assert(a@.take(i as int) =~= a@);
    assert(b@.take(i as int) =~= b@);
    true
}

/// What stands in front of the fields of a packet.
#[derive(Debug, Clone, Copy)]
pub struct Header {
    magic: [u8; 3],
    kind: u8,
}

impl View for Header {
    type V = Seq<u8>;

    /// The header as it stands on the wire.
    closed spec fn view(&self) -> Seq<u8> {
        self.magic@.push(self.kind)
    }
}

impl Header {
    /// The header as it stands on the wire.
    fn to_bytes(&self) -> (r: [u8; 4])
        ensures
            r@ == self@,
    {
        let r: [u8; 4] = [self.magic[0], self.magic[1], self.magic[2], self.kind];
        assert(r@ =~= self@);
        r
    }

    /// The header that stands on the wire as `bytes`.
    fn read(bytes: &[u8]) -> (r: Header)
        requires
            bytes@.len() == HEADER_SIZE,
        ensures
            r@ == bytes@,
    {
        let bytes: &[u8; 4] = from_bytes::<4>(bytes);
        let r = Header { magic: [bytes[0], bytes[1], bytes[2]], kind: bytes[3] };
        assert(r@ =~= bytes@);
        r
    }
}

/// A message of the discovery protocol.
pub trait Message: Sized {
    /// The kind of packet that carries the message.
    const KIND: Kind;

    /// The kind of packet that carries the message.
    spec fn kind() -> Kind;

    /// The two agree.
    proof fn lemma_kind()
        ensures
            Self::KIND == Self::kind(),
    ;

    /// The fields of the message as they stand on the wire.
    spec fn body(&self) -> Seq<u8>;

    /// The number of bytes that the fields of every such message take.
    spec fn body_size() -> nat;

    /// The fields of a message take as many bytes as those of any other of its type.
    proof fn lemma_body_size(&self)
        ensures
            self.body().len() == Self::body_size(),
    ;

    /// The fields of the message as they stand on the wire.
    fn body_bytes(&self) -> (r: Vec<u8>)
        ensures
            r@ == self.body(),
    ;

    /// The header of every packet that carries such a message.
    fn header() -> (h: Header)
        ensures
            h@ == magic().push(Self::kind().code()),
    {
        proof {
            Self::lemma_kind();
        }
        let h = Header { magic: [0x45u8, 0x58u8, 0x4fu8], kind: Self::KIND.to_byte() };
        assert(h.magic@ =~= magic());
        h
    }

    /// Writes the packet that carries the message to the front of `buf`, and
    /// leaves what stands behind it as it was.
    fn write_into(&self, buf: &mut [u8])
        requires
            HEADER_SIZE + Self::body_size() <= old(buf)@.len(),
        ensures
            final(buf)@ == packet(Self::kind(), self.body()) + old(buf)@.skip(
                HEADER_SIZE + Self::body_size() as int,
            ),
    {
        let ghost before: Seq<u8> = buf@;
        proof {
            self.lemma_body_size();
        }
        let header: [u8; 4] = Self::header().to_bytes();
        copy_into(buf, 0, bytes_of(&header));
        let ghost between: Seq<u8> = buf@;
        let body: Vec<u8> = self.body_bytes();
        copy_into(buf, HEADER_SIZE, body.as_slice());
        assert(between.take(HEADER_SIZE as int) =~= header@);
        assert(buf@ =~= packet(Self::kind(), self.body()) + before.skip(
            HEADER_SIZE + Self::body_size() as int,
        ));
    }
}

/// Asks whoever is there to answer.
#[derive(Debug, Clone, Copy)]
pub struct Hello {
    pub nonce: [u8; 8],
}

/// Answers a hello: repeats its nonce and gives the id of who answers.
#[derive(Debug, Clone, Copy)]
pub struct WhatsUp {
    pub nonce: [u8; 8],
    pub zid: [u8; 16],
}

impl Hello {
    /// The number of bytes of a packet that carries a hello.
    pub fn buf_size() -> (n: usize)
        ensures
            n == HEADER_SIZE + NONCE_SIZE,
            n == HEADER_SIZE + Hello::body_size(),
    {
        HEADER_SIZE + NONCE_SIZE
    }
}

impl Message for Hello {
    const KIND: Kind = Kind::Hello;

    open spec fn kind() -> Kind {
        Kind::Hello
    }

    proof fn lemma_kind() {
        assert(Hello::KIND == Kind::Hello);
    }

    open spec fn body(&self) -> Seq<u8> {
        self.nonce@
    }

    open spec fn body_size() -> nat {
        NONCE_SIZE as nat
    }

    proof fn lemma_body_size(&self) {
    }

    fn body_bytes(&self) -> (r: Vec<u8>) {
        vstd::slice::slice_to_vec(bytes_of(&self.nonce))
    }
}

impl WhatsUp {
    /// The number of bytes of a packet that carries an answer.
    pub fn buf_size() -> (n: usize)
        ensures
            n == HEADER_SIZE + NONCE_SIZE + ZID_SIZE,
            n == HEADER_SIZE + WhatsUp::body_size(),
    {
        HEADER_SIZE + NONCE_SIZE + ZID_SIZE
    }
}

impl Message for WhatsUp {
    const KIND: Kind = Kind::WhatsUp;

    open spec fn kind() -> Kind {
        Kind::WhatsUp
    }

    proof fn lemma_kind() {
        assert(WhatsUp::KIND == Kind::WhatsUp);
    }

    open spec fn body(&self) -> Seq<u8> {
        self.nonce@ + self.zid@
    }

    open spec fn body_size() -> nat {
        (NONCE_SIZE + ZID_SIZE) as nat
    }

    proof fn lemma_body_size(&self) {
    }

    fn body_bytes(&self) -> (r: Vec<u8>) {
        let mut r: Vec<u8> = vstd::slice::slice_to_vec(bytes_of(&self.nonce));
        let mut zid: Vec<u8> = vstd::slice::slice_to_vec(bytes_of(&self.zid));
        r.append(&mut zid);
        r
    }
}

/// A packet that could be read.
#[derive(Debug, Clone, Copy)]
pub enum Packet {
    Hello(Hello),
    WhatsUp(WhatsUp),
}

/// What a packet says.
pub ghost enum PacketContent {
    Hello { nonce: Seq<u8> },
    WhatsUp { nonce: Seq<u8>, zid: Seq<u8> },
}

/// Why bytes are no packet.
#[derive(Debug, Clone, Copy, PartialEq, Eq, Structural)]
pub enum Malformed {
    /// They end before the header does.
    EarlyEof,
    /// They do not start with the magic bytes.
    WrongMagic,
    /// The byte for the kind, which is given here, stands for none.
    UnknownKind(u8),
    /// The header is that of a hello, but the length is not.
    HelloWrongSize,
    /// The header is that of an answer, but the length is not.
    WhatsUpWrongSize,
}

impl View for Packet {
    type V = PacketContent;

    open spec fn view(&self) -> PacketContent {
        match self {
            Packet::Hello(m) => PacketContent::Hello { nonce: m.nonce@ },
            Packet::WhatsUp(m) => PacketContent::WhatsUp { nonce: m.nonce@, zid: m.zid@ },
        }
    }
}

impl PacketContent {
    /// The fields are as long as the wire has room for.
    pub open spec fn fits(self) -> bool {
        match self {
            PacketContent::Hello { nonce } => nonce.len() == NONCE_SIZE,
            PacketContent::WhatsUp { nonce, zid } => nonce.len() == NONCE_SIZE && zid.len()
                == ZID_SIZE,
        }
    }

    /// The bytes of the packet that says this.
    pub open spec fn bytes(self) -> Seq<u8> {
        match self {
            PacketContent::Hello { nonce } => packet(Kind::Hello, nonce),
            PacketContent::WhatsUp { nonce, zid } => packet(Kind::WhatsUp, nonce + zid),
        }
    }
}

/// What the bytes say as a packet, or the first thing that keeps them from being one.
pub open spec fn content(bytes: Seq<u8>) -> Result<PacketContent, Malformed> {
    if bytes.len() < HEADER_SIZE {
        Err(Malformed::EarlyEof)
    } else if bytes.take(3) != magic() {
        Err(Malformed::WrongMagic)
    } else if bytes[3] == Kind::Hello.code() {
        if bytes.len() != HEADER_SIZE + NONCE_SIZE {
            Err(Malformed::HelloWrongSize)
        } else {
            Ok(PacketContent::Hello { nonce: bytes.skip(4) })
        }
    } else if bytes[3] == Kind::WhatsUp.code() {
        if bytes.len() != HEADER_SIZE + NONCE_SIZE + ZID_SIZE {
            Err(Malformed::WhatsUpWrongSize)
        } else {
            Ok(PacketContent::WhatsUp { nonce: bytes.subrange(4, 12), zid: bytes.skip(12) })
        }
    } else {
        Err(Malformed::UnknownKind(bytes[3]))
    }
}

/// Reads a packet.
pub fn read_packet(bytes: &[u8]) -> (r: Result<Packet, Malformed>)
    ensures
        match r {
            Ok(p) => content(bytes@) == Ok::<PacketContent, Malformed>(p@),
            Err(e) => content(bytes@) == Err::<PacketContent, Malformed>(e),
        },
{
    if bytes.len() < HEADER_SIZE {
        return Err(Malformed::EarlyEof);
    }
    let header: Header = Header::read(&bytes[0..HEADER_SIZE]);
    let ghost head: Seq<u8> = bytes@.subrange(0, 4);
    let expected: [u8; 3] = [0x45u8, 0x58u8, 0x4fu8];
    assert(expected@ =~= magic());
    assert(header.magic@ =~= bytes@.take(3)) by {
        assert(header.magic@ =~= head.take(3));
        assert(head.take(3) =~= bytes@.take(3));
    }
    assert(header.kind == bytes@[3]) by {
        assert(header@[3] == head[3]);
    }
    if !same_bytes(header.magic.as_slice(), expected.as_slice()) {
        return Err(Malformed::WrongMagic);
    }
    match Kind::try_from(header.kind) {
        Ok(Kind::Hello) => {
            if bytes.len() != Hello::buf_size() {
                return Err(Malformed::HelloWrongSize);
            }
            let nonce: &[u8; 8] = from_bytes::<8>(&bytes[HEADER_SIZE..Hello::buf_size()]);
            assert(nonce@ =~= bytes@.skip(4));
            Ok(Packet::Hello(Hello { nonce: *nonce }))
        },
        Ok(Kind::WhatsUp) => {
            if bytes.len() != WhatsUp::buf_size() {
                return Err(Malformed::WhatsUpWrongSize);
            }
            let nonce: &[u8; 8] = from_bytes::<8>(&bytes[HEADER_SIZE..HEADER_SIZE + NONCE_SIZE]);
            let zid: &[u8; 16] = from_bytes::<16>(
                &bytes[HEADER_SIZE + NONCE_SIZE..WhatsUp::buf_size()],
            );
            assert(zid@ =~= bytes@.skip(12));
            Ok(Packet::WhatsUp(WhatsUp { nonce: *nonce, zid: *zid }))
        },
        Err(_) => Err(Malformed::UnknownKind(header.kind)),
    }
}

/// What was written as a packet is read back as it was.
pub proof fn law_read_after_write(c: PacketContent)
    requires
        c.fits(),
    ensures
        content(c.bytes()) == Ok::<PacketContent, Malformed>(c),
{
    let bytes = c.bytes();
    assert(bytes.take(3) =~= magic());
    match c {
        PacketContent::Hello { nonce } => {
            assert(bytes.skip(4) =~= nonce);
        },
        PacketContent::WhatsUp { nonce, zid } => {
            assert(bytes.subrange(4, 12) =~= nonce);
            assert(bytes.skip(12) =~= zid);
        },
    }
}

/// The bytes of a packet are the only ones that are read as what it says.
pub proof fn law_write_after_read(bytes: Seq<u8>)
    ensures
        content(bytes) matches Ok(c) ==> c.fits() && c.bytes() == bytes,
{
    if let Ok(c) = content(bytes) {
        assert(bytes =~= bytes.take(3).push(bytes[3]) + bytes.skip(4));
        match c {
            PacketContent::Hello { nonce } => {},
            PacketContent::WhatsUp { nonce, zid } => {
                assert(bytes.skip(4) =~= nonce + zid);
            },
        }
    }
}

/// The bytes for the two kinds, and what the other bytes stand for.
pub proof fn law_kinds(byte: u8)
    ensures
        Kind::Hello.code() == 0,
        Kind::WhatsUp.code() == 1,
        <Kind as vstd::std_specs::convert::TryFromSpec<u8>>::try_from_spec(byte) == if byte == 0 {
            Ok::<Kind, UnknownKind>(Kind::Hello)
        } else if byte == 1 {
            Ok(Kind::WhatsUp)
        } else {
            Err(UnknownKind)
        },
{
}

/// A hello on the wire: `EXO`, a zero byte and the nonce.
pub proof fn law_hello_bytes(hello: Hello)
    ensures
        packet(Hello::kind(), hello.body()) == seq![0x45u8, 0x58u8, 0x4fu8, 0u8] + hello.nonce@,
        (PacketContent::Hello { nonce: hello.nonce@ }).bytes() == seq![0x45u8, 0x58u8, 0x4fu8, 0u8]
            + hello.nonce@,
        Hello::body_size() == 8,
        Packet::Hello(hello)@ == (PacketContent::Hello { nonce: hello.nonce@ }),
{
    assert(magic().push(0u8) =~= seq![0x45u8, 0x58u8, 0x4fu8, 0u8]);
}

/// An answer on the wire: `EXO`, a byte that is one, the nonce and the id.
pub proof fn law_answer_bytes(answer: WhatsUp)
    ensures
        packet(WhatsUp::kind(), answer.body()) == seq![0x45u8, 0x58u8, 0x4fu8, 1u8]
            + answer.nonce@ + answer.zid@,
        (PacketContent::WhatsUp { nonce: answer.nonce@, zid: answer.zid@ }).bytes()
            == seq![0x45u8, 0x58u8, 0x4fu8, 1u8] + answer.nonce@ + answer.zid@,
        WhatsUp::body_size() == 24,
        Packet::WhatsUp(answer)@ == (PacketContent::WhatsUp {
            nonce: answer.nonce@,
            zid: answer.zid@,
        }),
{
    assert(magic().push(1u8) =~= seq![0x45u8, 0x58u8, 0x4fu8, 1u8]);
    assert(packet(WhatsUp::kind(), answer.body()) =~= seq![0x45u8, 0x58u8, 0x4fu8, 1u8]
        + answer.nonce@ + answer.zid@);
}

/// Bytes say a hello with a nonce exactly if they are `EXO`, a zero byte and the
/// eight bytes of the nonce.
pub proof fn law_which_bytes_are_a_hello(bytes: Seq<u8>, nonce: Seq<u8>)
    ensures
        content(bytes) == Ok::<PacketContent, Malformed>((PacketContent::Hello { nonce }))
            <==> nonce.len() == 8 && bytes == seq![0x45u8, 0x58u8, 0x4fu8, 0u8] + nonce,
{
    let expected = seq![0x45u8, 0x58u8, 0x4fu8, 0u8] + nonce;
    if bytes == expected {
        assert(bytes.take(3) =~= magic());
        assert(bytes.skip(4) =~= nonce);
    }
    if content(bytes) == Ok::<PacketContent, Malformed>(PacketContent::Hello { nonce }) {
        assert(bytes =~= bytes.take(3).push(bytes[3]) + bytes.skip(4));
        assert(bytes =~= expected);
    }
}

/// Bytes say an answer with a nonce and an id exactly if they are `EXO`, a byte that
/// is one, the eight bytes of the nonce and the sixteen bytes of the id.
pub proof fn law_which_bytes_are_an_answer(bytes: Seq<u8>, nonce: Seq<u8>, zid: Seq<u8>)
    ensures
        content(bytes) == Ok::<PacketContent, Malformed>((PacketContent::WhatsUp { nonce, zid }))
            <==> nonce.len() == 8 && zid.len() == 16 && bytes == seq![0x45u8, 0x58u8, 0x4fu8, 1u8]
            + nonce + zid,
{
    let expected = seq![0x45u8, 0x58u8, 0x4fu8, 1u8] + nonce + zid;
    if nonce.len() == 8 && zid.len() == 16 && bytes == expected {
        assert(bytes.take(3) =~= magic());
        assert(bytes.subrange(4, 12) =~= nonce);
        assert(bytes.skip(12) =~= zid);
    }
    if content(bytes) == Ok::<PacketContent, Malformed>(PacketContent::WhatsUp { nonce, zid }) {
        assert(bytes =~= bytes.take(3).push(bytes[3]) + bytes.subrange(4, 12) + bytes.skip(12));
        assert(bytes =~= expected);
    }
}

/// What keeps bytes from being a packet, and exactly when.
pub proof fn law_why_bytes_are_no_packet(bytes: Seq<u8>, kind: u8)
    ensures
        content(bytes) == Err::<PacketContent, Malformed>(Malformed::EarlyEof) <==> bytes.len() < 4,
        content(bytes) == Err::<PacketContent, Malformed>(Malformed::WrongMagic) <==> bytes.len()
            >= 4 && !(bytes[0] == 0x45 && bytes[1] == 0x58 && bytes[2] == 0x4f),
        content(bytes) == Err::<PacketContent, Malformed>(Malformed::UnknownKind(kind))
            <==> bytes.len() >= 4 && bytes[0] == 0x45 && bytes[1] == 0x58 && bytes[2] == 0x4f
            && bytes[3] == kind && kind >= 2,
        content(bytes) == Err::<PacketContent, Malformed>(Malformed::HelloWrongSize)
            <==> bytes.len() >= 4 && bytes[0] == 0x45 && bytes[1] == 0x58 && bytes[2] == 0x4f
            && bytes[3] == 0 && bytes.len() != 12,
        content(bytes) == Err::<PacketContent, Malformed>(Malformed::WhatsUpWrongSize)
            <==> bytes.len() >= 4 && bytes[0] == 0x45 && bytes[1] == 0x58 && bytes[2] == 0x4f
            && bytes[3] == 1 && bytes.len() != 28,
{
    if bytes.len() >= 4 {
        if bytes[0] == 0x45 && bytes[1] == 0x58 && bytes[2] == 0x4f {
            assert(bytes.take(3) =~= magic());
        } else {
            assert(bytes.take(3)[0] == bytes[0]);
            assert(bytes.take(3)[1] == bytes[1]);
            assert(bytes.take(3)[2] == bytes[2]);
        }
    }
}

} // verus!
