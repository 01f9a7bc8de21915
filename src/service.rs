use vstd::prelude::*;
use crate::bulletin::{BulError, CallbackBulletin, PublicUserBul};
use crate::callbacks::{
    ticket_bytes, ticket_bytes_valid, ticket_from_bytes, CallbackCom, PlainTikCrypto,
};
use crate::central::{coms_bytes, serialize_coms, ticket_key, CentralObjectStore, DbHandle};
use crate::field::{fe_bytes, lemma_fe_bytes_round_trip, Com, Fe, Nul};

verus! {

/// What executing an interaction hands to the service: the new commitment,
/// the nullifier of the consumed record, the commitments of the tickets it
/// registered, each ticket with the randomness its key was derived with, and
/// the proof.
pub struct ExecutedMethod<P> {
    pub new_object: Com,
    pub old_nullifier: Nul,
    pub cb_com_list: Vec<Com>,
    pub cb_tik_list: Vec<(CallbackCom, Fe)>,
    pub proof: P,
}

/// The encoding of an interaction's ticket list: each ticket's encoding,
/// followed by the randomness its key was derived with.
pub open spec fn tik_list_bytes(list: Seq<(CallbackCom, Fe)>) -> Seq<u8>
    decreases list.len(),
{
    if list.len() == 0 {
        Seq::empty()
    } else {
        tik_list_bytes(list.drop_last()) + ticket_bytes(list.last().0) + fe_bytes(list.last().1)
    }
}

/// The record of an interaction that the service keeps: the new commitment,
/// the nullifier, the ticket commitments and the ticket list, encoded one
/// after the other. The proof, of the backend's own type, is not kept.
pub open spec fn interaction_record<P>(interaction: ExecutedMethod<P>) -> Seq<u8> {
    fe_bytes(interaction.new_object) + fe_bytes(interaction.old_nullifier) + coms_bytes(
        interaction.cb_com_list@,
    ) + tik_list_bytes(interaction.cb_tik_list@)
}

/// The key of a ticket's encoding is the encoding of its verification key.
pub proof fn lemma_ticket_key(c: CallbackCom)
    ensures
        ticket_key(ticket_bytes(c)) == fe_bytes(c.cb_entry.tik.0),
{
    lemma_fe_bytes_round_trip(c.cb_entry.tik.0, Seq::empty());
    lemma_fe_bytes_round_trip(c.cb_entry.enc_key.0, Seq::empty());
    assert(ticket_bytes(c).subrange(0, 32) =~= fe_bytes(c.cb_entry.tik.0));
}

/// The key that the service's secret key `sk`, rerandomized with `rand`,
/// verifies under.
pub open spec fn rerand_pk(sk: PlainTikCrypto, rand: Fe) -> PlainTikCrypto {
    PlainTikCrypto(rand)
}

/// The service side of the protocol: approving submitted interactions,
/// storing them, and calling tickets.
pub trait ServiceProvider: Sized {
    type Error;

    type InteractionData;

    /// The service has already seen this ticket.
    spec fn spec_has_tik(&self, tik: PlainTikCrypto) -> bool;

    fn has_never_recieved_tik(&self, tik: &PlainTikCrypto) -> (r: bool)
        ensures
            r == !self.spec_has_tik(*tik),
    ;

    /// The ticket is stored whole, so that it can be called later.
    spec fn spec_has_internal_ticket(&self, ticket: CallbackCom) -> bool;

    /// An interaction record is stored under `data`.
    spec fn spec_has_interaction(&self, data: Self::InteractionData, record: Seq<u8>) -> bool;

    /// The service's storage accepts every write.
    spec fn spec_store_reliable(&self) -> bool;

    /// Stores an approved interaction: on success its record is kept under
    /// `data`, and each of its tickets is stored whole and seen. No seen
    /// ticket is forgotten; reliable storage always succeeds.
    fn store_interaction<P>(&mut self, interaction: &ExecutedMethod<P>, data: Self::InteractionData) -> (r:
        Result<(), Self::Error>)
        ensures
            r is Ok ==> forall|i: int|
                0 <= i < interaction.cb_tik_list@.len() ==> final(self).spec_has_tik(
                    (#[trigger] interaction.cb_tik_list@[i]).0.cb_entry.tik,
                ) && final(self).spec_has_internal_ticket(interaction.cb_tik_list@[i].0),
            r is Ok ==> final(self).spec_has_interaction(data, interaction_record(*interaction)),
            forall|t: PlainTikCrypto| old(self).spec_has_tik(t) ==> #[trigger] final(self).spec_has_tik(t),
            old(self).spec_store_reliable() ==> r is Ok && final(self).spec_store_reliable(),
    ;

    /// Calls a ticket: encrypts the arguments under the ticket's key, giving
    /// the key and the ciphertext to post on the callback ledger.
    fn call(&self, ticket: &CallbackCom, arguments: Fe) -> (r: (PlainTikCrypto, Fe))
        requires
            ticket.cb_entry.enc_key.wf(),
            arguments.wf(),
        ensures
            r == (ticket.cb_entry.tik, arguments.spec_add(ticket.cb_entry.enc_key.0)),
    {
        let enc = ticket.cb_entry.enc_key.encrypt(arguments);
        (ticket.cb_entry.tik, enc)
    }

    /// Approves a submitted interaction: its record is on the object ledger,
    /// each ticket's key is the service key rerandomized with the submitted
    /// randomness, no ticket was seen before, and its proof, checked against
    /// `interaction_public_inputs`, was accepted.
    fn approve_interaction<P, B: PublicUserBul>(
        &self,
        interaction_request: &ExecutedMethod<P>,
        sk: PlainTikCrypto,
        bul: &B,
        proof_accepted: bool,
    ) -> (r: bool)
        ensures
            r == (bul.spec_has_object(
                interaction_request.new_object,
                interaction_request.old_nullifier,
                interaction_request.cb_com_list@,
            ) && (forall|i: int|
                0 <= i < interaction_request.cb_tik_list@.len() ==> {
                    let t = #[trigger] interaction_request.cb_tik_list@[i];
                    &&& rerand_pk(sk, t.1) == t.0.cb_entry.tik
                    &&& !self.spec_has_tik(t.0.cb_entry.tik)
                }) && proof_accepted),
    {
        let out = bul.verify_in(
            &interaction_request.new_object,
            &interaction_request.old_nullifier,
            &interaction_request.cb_com_list,
        );
        if !out {
            return false;
        }
        let list = &interaction_request.cb_tik_list;
        let mut i: usize = 0;
        while i < list.len()
            invariant
                0 <= i <= list@.len(),
                list == &interaction_request.cb_tik_list,
                forall|k: int|
                    0 <= k < i ==> {
                        let t = #[trigger] list@[k];
                        &&& rerand_pk(sk, t.1) == t.0.cb_entry.tik
                        &&& !self.spec_has_tik(t.0.cb_entry.tik)
                    },
            decreases list@.len() - i,
        {
            let cb = list[i].0;
            let rand = list[i].1;
            let vpk = sk.rerand(rand).sk_to_pk();
            if vpk != cb.cb_entry.tik {
                return false;
            }
            if !self.has_never_recieved_tik(&cb.cb_entry.tik) {
                return false;
            }
            i = i + 1;
        }
        proof_accepted
    }

    /// Approves an interaction, then stores it. A rejected one leaves the
    /// service as it was; a stored one has its record kept and every ticket
    /// stored whole and seen; with reliable storage an approved one is stored.
    fn approve_interaction_and_store<P, B: PublicUserBul>(
        &mut self,
        interaction_request: &ExecutedMethod<P>,
        sk: PlainTikCrypto,
        bul: &B,
        proof_accepted: bool,
        data: Self::InteractionData,
    ) -> (r: Result<(), BulError<Self::Error>>)
        ensures
            (r is Err && r->Err_0 is VerifyError) <==> !(bul.spec_has_object(
                interaction_request.new_object,
                interaction_request.old_nullifier,
                interaction_request.cb_com_list@,
            ) && (forall|i: int|
                0 <= i < interaction_request.cb_tik_list@.len() ==> {
                    let t = #[trigger] interaction_request.cb_tik_list@[i];
                    &&& rerand_pk(sk, t.1) == t.0.cb_entry.tik
                    &&& !old(self).spec_has_tik(t.0.cb_entry.tik)
                }) && proof_accepted),
            (r is Err && r->Err_0 is VerifyError) ==> *final(self) == *old(self),
            r is Ok ==> forall|i: int|
                0 <= i < interaction_request.cb_tik_list@.len() ==> final(self).spec_has_tik(
                    (#[trigger] interaction_request.cb_tik_list@[i]).0.cb_entry.tik,
                ) && final(self).spec_has_internal_ticket(interaction_request.cb_tik_list@[i].0),
            r is Ok ==> final(self).spec_has_interaction(data, interaction_record(*interaction_request)),
            old(self).spec_store_reliable() && !(r is Err && r->Err_0 is VerifyError) ==> r is Ok,
    {
        let out = self.approve_interaction(interaction_request, sk, bul, proof_accepted);
        if !out {
            return Err(BulError::VerifyError);
        }
        match self.store_interaction(interaction_request, data) {
            Ok(()) => Ok(()),
            Err(e) => Err(BulError::AppendError(e)),
        }
    }
}

impl<D: DbHandle> ServiceProvider for CentralObjectStore<D> {
    type Error = D::Error;

    type InteractionData = u64;

    open spec fn spec_has_tik(&self, tik: PlainTikCrypto) -> bool {
        self.0.spec_has_tik(fe_bytes(tik.0))
    }

    open spec fn spec_has_internal_ticket(&self, ticket: CallbackCom) -> bool {
        self.0.spec_has_ticket(ticket_bytes(ticket))
    }

    open spec fn spec_has_interaction(&self, data: u64, record: Seq<u8>) -> bool {
        self.0.spec_has_interaction(data, record)
    }

    open spec fn spec_store_reliable(&self) -> bool {
        self.0.spec_reliable()
    }

    fn has_never_recieved_tik(&self, tik: &PlainTikCrypto) -> (r: bool) {
        let tik_serial = tik.0.to_bytes();
        self.0.has_never_recieved_tik(tik_serial.as_slice())
    }

    /// Stores the interaction record under its id, with each ticket's
    /// encoding as an internal ticket.
    fn store_interaction<P>(&mut self, interaction: &ExecutedMethod<P>, data: u64) -> (r: Result<(), Self::Error>) {
        let list = &interaction.cb_tik_list;
        let mut tickets: Vec<Vec<u8>> = Vec::new();
        let mut tik_list: Vec<u8> = Vec::new();
        let mut i: usize = 0;
        while i < list.len()
            invariant
                0 <= i <= list@.len(),
                list == &interaction.cb_tik_list,
                tickets@.len() == i,
                forall|k: int| 0 <= k < i ==> (#[trigger] tickets@[k])@ == ticket_bytes(list@[k].0),
                tik_list@ == tik_list_bytes(list@.take(i as int)),
            decreases list@.len() - i,
        {
            proof {
                assert(list@.take(i + 1).drop_last() =~= list@.take(i as int));
            }
            let ticket_serial = list[i].0.to_bytes();
            let mut t = list[i].0.to_bytes();
            let mut rand_serial = list[i].1.to_bytes();
            tik_list.append(&mut t);
            tik_list.append(&mut rand_serial);
            tickets.push(ticket_serial);
            i = i + 1;
        }
        proof {
            assert(list@.take(list@.len() as int) =~= list@);
        }
        let mut inter_serial = interaction.new_object.to_bytes();
        let mut nul_serial = interaction.old_nullifier.to_bytes();
        let mut coms_serial = serialize_coms(&interaction.cb_com_list);
        inter_serial.append(&mut nul_serial);
        inter_serial.append(&mut coms_serial);
        inter_serial.append(&mut tik_list);
        proof {
            assert(inter_serial@ =~= interaction_record(*interaction));
        }
        let r = self.0.insert_interaction_and_tickets(data, inter_serial.as_slice(), &tickets);
        proof {
            if r is Ok {
                assert forall|k: int| 0 <= k < list@.len() implies self.spec_has_tik(
                    (#[trigger] list@[k]).0.cb_entry.tik,
                ) && self.spec_has_internal_ticket(list@[k].0) by {
                    lemma_ticket_key(list@[k].0);
                    assert(self.0.spec_has_ticket(tickets@[k]@));
                }
            }
        }
        r
    }
}

impl<D: DbHandle> CentralObjectStore<D> {
    /// Calls the ticket encoded in `internal_ticket` with `arguments`: encrypts
    /// them under the ticket's key and posts the call. Bytes that do not
    /// decode to a ticket, and a ticket already called, are a `VerifyError`,
    /// and nothing is posted.
    pub fn call_ticket(&mut self, internal_ticket: &[u8], arguments: Fe) -> (r: Result<(), BulError<D::Error>>)
        requires
            arguments.wf(),
        ensures
            !ticket_bytes_valid(internal_ticket@) ==> r == Err::<(), BulError<D::Error>>(BulError::VerifyError)
                && *final(self) == *old(self),
            ticket_bytes_valid(internal_ticket@) ==> ((r is Err && r->Err_0 is VerifyError)
                <==> old(self).0.spec_tik_called(fe_bytes(ticket_from_bytes(internal_ticket@).cb_entry.tik.0))),
            r is Err ==> forall|t: PlainTikCrypto|
                #[trigger] final(self).spec_tik_received(t) == old(self).spec_tik_received(t),
            ticket_bytes_valid(internal_ticket@) && old(self).0.spec_reliable() && !old(self).0.spec_tik_called(
                fe_bytes(ticket_from_bytes(internal_ticket@).cb_entry.tik.0),
            ) ==> r is Ok,
            r is Ok ==> ({
                let c = ticket_from_bytes(internal_ticket@);
                final(self).0.spec_has_call(
                    fe_bytes(c.cb_entry.tik.0),
                    fe_bytes(arguments.spec_add(c.cb_entry.enc_key.0)),
                )
            }),
    {
        let cc = match CallbackCom::from_bytes(internal_ticket) {
            Some(c) => c,
            None => {
                return Err(BulError::VerifyError);
            },
        };
        let called = self.call(&cc, arguments);
        self.verify_call_and_append(&called.0, called.1)
    }
}

} // verus!
