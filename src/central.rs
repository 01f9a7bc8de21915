use vstd::prelude::*;
use crate::bulletin::{CallbackBulletin, JoinableBulletin, PublicUserBul, UserBul};
use crate::callbacks::PlainTikCrypto;
use crate::field::{fe_bytes, Com, Fe, Nul};

verus! {

/// The encoding of a list of commitments: their encodings one after the other.
pub open spec fn coms_bytes(list: Seq<Com>) -> Seq<u8>
    decreases list.len(),
{
    if list.len() == 0 {
        Seq::empty()
    } else {
        coms_bytes(list.drop_last()) + fe_bytes(list.last())
    }
}

/// Encodes a list of commitments.
pub fn serialize_coms(list: &Vec<Com>) -> (r: Vec<u8>)
    ensures
        r@ == coms_bytes(list@),
{
    let mut out: Vec<u8> = Vec::new();
    let mut i: usize = 0;
    while i < list.len()
        invariant
            0 <= i <= list@.len(),
            out@ == coms_bytes(list@.take(i as int)),
        decreases list@.len() - i,
    {
        proof {
            assert(list@.take(i + 1).drop_last() =~= list@.take(i as int));
        }
        let mut b = list[i].to_bytes();
        out.append(&mut b);
        i = i + 1;
    }
    proof {
        assert(list@.take(list@.len() as int) =~= list@);
    }
    out
}

/// The key of an internal ticket: its first 32 bytes, the encoding of the
/// ticket's verification key.
pub open spec fn ticket_key(ticket: Seq<u8>) -> Seq<u8> {
    if ticket.len() >= 32 {
        ticket.subrange(0, 32)
    } else {
        ticket
    }
}

/// A storage backend of a centralized ledger, on encoded values.
pub trait DbHandle {
    type Error;

    type ExternalVerifData;

    /// The backend accepts every write.
    spec fn spec_reliable(&self) -> bool;

    /// An internal ticket (an encoded ticket commitment) is stored.
    spec fn spec_has_ticket(&self, ticket: Seq<u8>) -> bool;

    /// An interaction record is stored under an id.
    spec fn spec_has_interaction(&self, interaction_id: u64, interaction: Seq<u8>) -> bool;

    /// An object record (object, consumed nullifier, ticket commitments) is stored.
    spec fn spec_has_object(&self, object: Seq<u8>, old_nul: Seq<u8>, cb_com_list: Seq<u8>) -> bool;

    /// A nullifier is stored.
    spec fn spec_has_nul(&self, nul: Seq<u8>) -> bool;

    /// A stored internal ticket has this key.
    spec fn spec_has_tik(&self, tik: Seq<u8>) -> bool;

    /// A call of a ticket with a ciphertext is published.
    spec fn spec_has_call(&self, ticket: Seq<u8>, enc_args: Seq<u8>) -> bool;

    /// Stores an object record and its nullifier. On failure no nullifier
    /// record changes; no stored nullifier is dropped.
    fn insert_updated_object(
        &mut self,
        object: &[u8],
        old_nul: &[u8],
        cb_com_list: &[u8],
        sig: &[u8],
    ) -> (r: Result<(), Self::Error>)
        ensures
            r is Ok ==> final(self).spec_has_object(object@, old_nul@, cb_com_list@)
                && final(self).spec_has_nul(old_nul@),
            r is Err ==> forall|n: Seq<u8>| #[trigger] final(self).spec_has_nul(n) == old(self).spec_has_nul(n),
            forall|n: Seq<u8>| old(self).spec_has_nul(n) ==> #[trigger] final(self).spec_has_nul(n),
            old(self).spec_reliable() ==> r is Ok && final(self).spec_reliable(),
    ;

    fn object_is_in(&self, object: &[u8], old_nul: &[u8], cb_com_list: &[u8]) -> (r: bool)
        ensures
            r == self.spec_has_object(object@, old_nul@, cb_com_list@),
    ;

    fn has_never_recieved_nul(&self, nul: &[u8]) -> (r: bool)
        ensures
            r == !self.spec_has_nul(nul@),
    ;

    /// The outside authorization data admit a brand-new object.
    spec fn spec_authorized(&self, object: Seq<u8>, data: Self::ExternalVerifData) -> bool;

    /// Checks the outside authorization of a brand-new object.
    fn verify_new_object(&self, object: &[u8], data: Self::ExternalVerifData) -> (r: Result<(), Self::Error>)
        ensures
            r is Ok <==> self.spec_authorized(object@, data),
    ;

    /// Some call of the ticket is published.
    spec fn spec_tik_called(&self, ticket: Seq<u8>) -> bool;

    fn has_never_called_tik(&self, ticket: &[u8]) -> (r: bool)
        ensures
            r == !self.spec_tik_called(ticket@),
    ;

    /// Stores an interaction record under its id, and its internal tickets,
    /// each known by its key from then on. No nullifier record changes; no
    /// known key is dropped.
    fn insert_interaction_and_tickets(
        &mut self,
        interaction_id: u64,
        interaction: &[u8],
        internal_tickets: &Vec<Vec<u8>>,
    ) -> (r: Result<(), Self::Error>)
        ensures
            r is Ok ==> final(self).spec_has_interaction(interaction_id, interaction@),
            r is Ok ==> forall|i: int|
                0 <= i < internal_tickets@.len() ==> final(self).spec_has_ticket(
                    #[trigger] internal_tickets@[i]@,
                ) && final(self).spec_has_tik(ticket_key(internal_tickets@[i]@)),
            forall|n: Seq<u8>| #[trigger] final(self).spec_has_nul(n) == old(self).spec_has_nul(n),
            forall|t: Seq<u8>| old(self).spec_has_tik(t) ==> #[trigger] final(self).spec_has_tik(t),
            old(self).spec_reliable() ==> r is Ok && final(self).spec_reliable(),
    ;

    fn has_never_recieved_tik(&self, tik: &[u8]) -> (r: bool)
        ensures
            r == !self.spec_has_tik(tik@),
    ;

    /// Publishes a call of a ticket. On failure no ticket's called state
    /// changes.
    fn publish_called_ticket(&mut self, ticket: &[u8], enc_args: &[u8]) -> (r: Result<(), Self::Error>)
        ensures
            r is Ok ==> final(self).spec_has_call(ticket@, enc_args@) && final(self).spec_tik_called(ticket@),
            r is Err ==> forall|t: Seq<u8>| #[trigger] final(self).spec_tik_called(t) == old(self).spec_tik_called(t),
            forall|t: Seq<u8>| old(self).spec_tik_called(t) ==> #[trigger] final(self).spec_tik_called(t),
            old(self).spec_reliable() ==> r is Ok && final(self).spec_reliable(),
    ;

    fn has_ticket_been_called(&self, ticket: &[u8], enc_args: &[u8]) -> (r: bool)
        ensures
            r == self.spec_has_call(ticket@, enc_args@),
    ;
}

/// A centralized ledger: a single party stores every record in a backend,
/// and membership is plain presence there.
pub struct CentralObjectStore<D: DbHandle>(pub D);

/// The membership witness of a centralized ledger: there is nothing to show.
#[derive(Clone, Copy, Debug, PartialEq, Eq, Structural)]
pub struct UnitVar;

impl UnitVar {
    /// The field elements of the unit witness: a single zero.
    pub fn to_constraint_field(&self) -> (r: Vec<Fe>)
        ensures
            r@ == seq![Fe::spec_zero()],
    {
        let mut v: Vec<Fe> = Vec::new();
        v.push(Fe::zero());
        proof {
            assert(v@ =~= seq![Fe::spec_zero()]);
        }
        v
    }
}

impl<D: DbHandle> PublicUserBul for CentralObjectStore<D> {
    open spec fn spec_has_object(&self, object: Com, old_nul: Nul, cb_com_list: Seq<Com>) -> bool {
        self.0.spec_has_object(fe_bytes(object), fe_bytes(old_nul), coms_bytes(cb_com_list))
    }

    fn verify_in(&self, object: &Com, old_nul: &Nul, cb_com_list: &Vec<Com>) -> (r: bool) {
        let object_serial = object.to_bytes();
        let old_nul_serial = old_nul.to_bytes();
        let cb_com_list_serial = serialize_coms(cb_com_list);
        self.0.object_is_in(object_serial.as_slice(), old_nul_serial.as_slice(), cb_com_list_serial.as_slice())
    }

    /// The central party vouches for every commitment it serves: membership
    /// needs no witness.
    open spec fn spec_member(&self, com: Com) -> bool {
        true
    }

    fn enforce_membership_of(&self, _com: &Com) -> (r: bool) {
        true
    }
}

impl<D: DbHandle> UserBul for CentralObjectStore<D> {
    type Error = D::Error;

    open spec fn spec_has_nul(&self, nul: Nul) -> bool {
        self.0.spec_has_nul(fe_bytes(nul))
    }

    open spec fn spec_reliable(&self) -> bool {
        self.0.spec_reliable()
    }

    fn has_never_recieved_nul(&self, nul: &Nul) -> (r: bool) {
        let nul_serial = nul.to_bytes();
        self.0.has_never_recieved_nul(nul_serial.as_slice())
    }

    fn append_value(&mut self, object: &Com, old_nul: &Nul, cb_com_list: &Vec<Com>) -> (r: Result<(), Self::Error>) {
        let object_serial = object.to_bytes();
        let old_nul_serial = old_nul.to_bytes();
        let cb_com_list_serial = serialize_coms(cb_com_list);
        let empty: Vec<u8> = Vec::new();
        self.0.insert_updated_object(
            object_serial.as_slice(),
            old_nul_serial.as_slice(),
            cb_com_list_serial.as_slice(),
            empty.as_slice(),
        )
    }
}

impl<D: DbHandle> JoinableBulletin for CentralObjectStore<D> {
    type PubData = D::ExternalVerifData;

    open spec fn spec_join_authorized(&self, object: Com, pub_data: Self::PubData) -> bool {
        self.0.spec_authorized(fe_bytes(object), pub_data)
    }

    /// A joined object is stored with an empty nullifier and no tickets.
    open spec fn spec_has_joined(&self, object: Com) -> bool {
        self.0.spec_has_object(fe_bytes(object), Seq::empty(), Seq::empty())
    }

    fn join_bul(&mut self, object: &Com, pub_data: Self::PubData) -> (r: Result<(), Self::Error>) {
        let object_serial = object.to_bytes();
        let checked = self.0.verify_new_object(object_serial.as_slice(), pub_data);
        match checked {
            Ok(()) => {},
            Err(e) => {
                return Err(e);
            },
        }
        let empty: Vec<u8> = Vec::new();
        self.0.insert_updated_object(
            object_serial.as_slice(),
            empty.as_slice(),
            empty.as_slice(),
            empty.as_slice(),
        )
    }
}

impl<D: DbHandle> CallbackBulletin for CentralObjectStore<D> {
    type Error = D::Error;

    /// A ticket is received once some call of it is published.
    open spec fn spec_tik_received(&self, tik: PlainTikCrypto) -> bool {
        self.0.spec_tik_called(fe_bytes(tik.0))
    }

    open spec fn spec_call_posted(&self, tik: PlainTikCrypto, enc_args: Fe) -> bool {
        self.0.spec_has_call(fe_bytes(tik.0), fe_bytes(enc_args))
    }

    open spec fn spec_accepts_call(&self, enc_args: Fe) -> bool {
        self.0.spec_reliable()
    }

    fn has_never_recieved_tik(&self, tik: &PlainTikCrypto) -> (r: bool) {
        let tik_serial = tik.0.to_bytes();
        self.0.has_never_called_tik(tik_serial.as_slice())
    }

    fn append_value(&mut self, tik: &PlainTikCrypto, enc_args: Fe) -> (r: Result<(), Self::Error>) {
        let tik_serial = tik.0.to_bytes();
        let enc_args_serial = enc_args.to_bytes();
        self.0.publish_called_ticket(tik_serial.as_slice(), enc_args_serial.as_slice())
    }
}

impl<D: DbHandle> CentralObjectStore<D> {
    /// The ticket was called with this ciphertext.
    pub fn ticket_called(&self, tik: &PlainTikCrypto, enc_args: Fe) -> (r: bool)
        ensures
            r == self.0.spec_has_call(fe_bytes(tik.0), fe_bytes(enc_args)),
    {
        let tik_serial = tik.0.to_bytes();
        let enc_args_serial = enc_args.to_bytes();
        self.0.has_ticket_been_called(tik_serial.as_slice(), enc_args_serial.as_slice())
    }
}

/// A read-only view of a centralized ledger over the network.
pub trait NetworkHandle {
    type Error;

    spec fn spec_has_object(&self, object: Seq<u8>, old_nul: Seq<u8>, cb_com_list: Seq<u8>) -> bool;

    spec fn spec_has_call(&self, ticket: Seq<u8>, enc_args: Seq<u8>) -> bool;

    fn object_is_in(&self, object: &[u8], old_nul: &[u8], cb_com_list: &[u8]) -> (r: bool)
        ensures
            r == self.spec_has_object(object@, old_nul@, cb_com_list@),
    ;

    fn has_ticket_been_called(&self, ticket: &[u8], enc_args: &[u8]) -> (r: bool)
        ensures
            r == self.spec_has_call(ticket@, enc_args@),
    ;
}

/// A client's handle on a centralized ledger reached over the network.
pub struct CentralNetBulStore<N: NetworkHandle>(pub N);

impl<N: NetworkHandle> PublicUserBul for CentralNetBulStore<N> {
    open spec fn spec_has_object(&self, object: Com, old_nul: Nul, cb_com_list: Seq<Com>) -> bool {
        self.0.spec_has_object(fe_bytes(object), fe_bytes(old_nul), coms_bytes(cb_com_list))
    }

    fn verify_in(&self, object: &Com, old_nul: &Nul, cb_com_list: &Vec<Com>) -> (r: bool) {
        let object_serial = object.to_bytes();
        let old_nul_serial = old_nul.to_bytes();
        let cb_com_list_serial = serialize_coms(cb_com_list);
        self.0.object_is_in(object_serial.as_slice(), old_nul_serial.as_slice(), cb_com_list_serial.as_slice())
    }

    /// The central party vouches for every commitment it serves: membership
    /// needs no witness.
    open spec fn spec_member(&self, com: Com) -> bool {
        true
    }

    fn enforce_membership_of(&self, _com: &Com) -> (r: bool) {
        true
    }
}

impl<N: NetworkHandle> CentralNetBulStore<N> {
    /// The ticket was called with this ciphertext.
    pub fn ticket_called(&self, tik: &PlainTikCrypto, enc_args: Fe) -> (r: bool)
        ensures
            r == self.0.spec_has_call(fe_bytes(tik.0), fe_bytes(enc_args)),
    {
        let tik_serial = tik.0.to_bytes();
        let enc_args_serial = enc_args.to_bytes();
        self.0.has_ticket_been_called(tik_serial.as_slice(), enc_args_serial.as_slice())
    }
}

} // verus!
