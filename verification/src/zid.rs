//! The ids by which Zenoh nodes know each other.

use vstd::prelude::*;

use crate::wire::same_bytes;

verus! {

/// Every byte is zero.
pub open spec fn all_zero(bytes: Seq<u8>) -> bool {
    forall|i: int| 0 <= i < bytes.len() ==> bytes[i] == 0
}

/// The bytes with as many zero bytes behind them as make sixteen.
pub open spec fn padded(bytes: Seq<u8>) -> Seq<u8> {
    bytes + Seq::new((16 - bytes.len()) as nat, |i: int| 0u8)
}

/// Whether the bytes spell an id, least significant byte first: there are at
/// most sixteen of them, and not all are zero.
pub open spec fn spells_id(bytes: Seq<u8>) -> bool {
    bytes.len() <= 16 && !all_zero(bytes)
}

/// `ZenohId::try_from` on a slice of bytes, and `ZenohId::to_le_bytes` on the
/// id that it gives: the bytes are taken as a number, least significant byte
/// first; more than sixteen bytes are refused, and so is the number zero; the
/// sixteen bytes of the id are the given ones with zeros behind them.
#[verifier::external_body]
fn zenoh_id(bytes: &[u8]) -> (r: Option<[u8; 16]>)
    ensures
        r is Some <==> spells_id(bytes@),
        r matches Some(id) ==> id@ == padded(bytes@),
{
    match zenoh::config::ZenohId::try_from(bytes) {
        Ok(id) => Some(id.to_le_bytes()),
        Err(_) => None,
    }
}

/// The bytes spell no id.
#[derive(Debug, Clone, Copy, PartialEq, Eq, Structural)]
pub struct InvalidZenohId;

/// The id of a Zenoh node: a number of up to sixteen bytes that is not zero.
#[derive(Debug, Clone, Copy)]
pub struct ZenohId {
    bytes: [u8; 16],
}

impl View for ZenohId {
    type V = Seq<u8>;

    /// The sixteen bytes of the number, least significant byte first.
    closed spec fn view(&self) -> Seq<u8> {
        self.bytes@
    }
}

impl ZenohId {
    /// The bytes are sixteen, and not all are zero.
    #[verifier::type_invariant]
    pub open spec fn is_id(self) -> bool {
        self@.len() == 16 && spells_id(self@)
    }

    /// The id that the bytes spell, least significant byte first.
    pub fn from_le_slice(bytes: &[u8]) -> (r: Result<ZenohId, InvalidZenohId>)
        ensures
            r is Ok <==> spells_id(bytes@),
            r matches Ok(id) ==> id@ == padded(bytes@),
    {
        match zenoh_id(bytes) {
            Some(id) => {
                assert(!all_zero(id@)) by {
                    let i = choose|i: int| 0 <= i < bytes@.len() && bytes@[i] != 0;
                    assert(id@[i] == bytes@[i]);
                }
                Ok(ZenohId { bytes: id })
            },
            None => Err(InvalidZenohId),
        }
    }

    /// The sixteen bytes of the id, least significant byte first.
    pub fn to_le_bytes(&self) -> (r: [u8; 16])
        ensures
            r@ == self@,
            spells_id(r@),
    {
        proof {
            use_type_invariant(self);
        }
        self.bytes
    }
}

impl PartialEq for ZenohId {
    fn eq(&self, other: &ZenohId) -> (r: bool) {
        same_bytes(self.bytes.as_slice(), other.bytes.as_slice())
    }
}

impl vstd::std_specs::cmp::PartialEqSpecImpl for ZenohId {
    open spec fn obeys_eq_spec() -> bool {
        true
    }

    open spec fn eq_spec(&self, other: &ZenohId) -> bool {
        self@ == other@
    }
}

/// An id is read back from its bytes as it was.
pub proof fn law_id_from_its_bytes(id: Seq<u8>)
    requires
        id.len() == 16,
        spells_id(id),
    ensures
        padded(id) == id,
{
    assert(padded(id) =~= id);
}

/// Bytes spell an id exactly if there are at most sixteen and one of them is not
/// zero.
pub proof fn law_which_bytes_spell_an_id(bytes: Seq<u8>)
    ensures
        spells_id(bytes) <==> bytes.len() <= 16 && exists|i: int|
            0 <= i < bytes.len() && bytes[i] != 0,
{
}

/// An id has sixteen bytes: first those that spell it, then zeros.
pub proof fn law_padded(bytes: Seq<u8>, i: int)
    requires
        bytes.len() <= 16,
        0 <= i < 16,
    ensures
        padded(bytes).len() == 16,
        padded(bytes)[i] == if i < bytes.len() {
            bytes[i]
        } else {
            0
        },
{
}

} // verus!
