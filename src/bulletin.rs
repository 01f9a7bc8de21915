use vstd::prelude::*;
use crate::callbacks::PlainTikCrypto;
use crate::callbacks::copy_elements;
use crate::field::{Com, Fe, Nul, Time};

verus! {

/// The failure of a composite verify-then-append operation: the submission
/// was rejected, or the ledger could not store it.
#[derive(Clone, Copy, Debug, PartialEq, Eq)]
pub enum BulError<E> {
    VerifyError,
    AppendError(E),
}

/// Read access to a callback ledger: which tickets have been called, with
/// what ciphertext and at what time.
pub trait PublicCallbackBul {
    /// The private evidence that a ticket was called, and the public data it
    /// is checked against.
    type MembershipWitness;
    type MembershipPub;

    /// The private evidence that a ticket was not called, and the public
    /// data it is checked against.
    type NonMembershipWitness;
    type NonMembershipPub;

    /// The ciphertext and call time recorded for a ticket, if it was called.
    spec fn spec_call(&self, tik: PlainTikCrypto) -> Option<(Fe, Time)>;

    /// The witness shows, under the public data, that the ticket was called
    /// with this ciphertext at this time.
    spec fn spec_memb_witness(
        &self,
        tik: PlainTikCrypto,
        enc_args: Fe,
        time: Time,
        witness: Self::MembershipWitness,
        public: Self::MembershipPub,
    ) -> bool;

    /// The witness shows, under the public data, that the ticket was not
    /// called.
    spec fn spec_nmemb_witness(
        &self,
        tik: PlainTikCrypto,
        witness: Self::NonMembershipWitness,
        public: Self::NonMembershipPub,
    ) -> bool;

    /// Looks a ticket up: its ciphertext and call time if it was called.
    /// Recorded ciphertexts and times are canonical field elements.
    fn verify_in(&self, tik: &PlainTikCrypto) -> (r: Option<(Fe, Time)>)
        ensures
            r == self.spec_call(*tik),
            r matches Some(c) ==> c.0.wf() && c.1.wf(),
    ;

    /// The ticket has not been called.
    fn verify_not_in(&self, tik: &PlainTikCrypto) -> (r: bool)
        ensures
            r == self.spec_call(*tik).is_none(),
    {
        self.verify_in(tik).is_none()
    }

    /// The ticket was called with exactly this ciphertext at this time, as
    /// the witness shows.
    fn enforce_membership_of(
        &self,
        tik: &PlainTikCrypto,
        enc_args: Fe,
        time: Time,
        witness: &Self::MembershipWitness,
        public: &Self::MembershipPub,
    ) -> (r: bool)
        ensures
            r == (self.spec_call(*tik) == Some((enc_args, time)) && self.spec_memb_witness(
                *tik,
                enc_args,
                time,
                *witness,
                *public,
            )),
    ;

    /// The ticket was not called, as the witness shows.
    fn enforce_nonmembership_of(
        &self,
        tik: &PlainTikCrypto,
        witness: &Self::NonMembershipWitness,
        public: &Self::NonMembershipPub,
    ) -> (r: bool)
        ensures
            r == (self.spec_call(*tik).is_none() && self.spec_nmemb_witness(*tik, *witness, *public)),
    ;
}

/// Read access to an object ledger: which commitments were recorded, with
/// the nullifier they consumed and the ticket commitments they registered.
pub trait PublicUserBul {
    /// The object ledger recorded `object` as replacing the object consumed by
    /// `old_nul`, registering `cb_com_list`.
    spec fn spec_has_object(&self, object: Com, old_nul: Nul, cb_com_list: Seq<Com>) -> bool;

    /// The record is on the ledger.
    fn verify_in(&self, object: &Com, old_nul: &Nul, cb_com_list: &Vec<Com>) -> (r: bool)
        ensures
            r == self.spec_has_object(*object, *old_nul, cb_com_list@),
    ;

    /// A commitment, hidden from the verifier, is shown to be a member of the
    /// ledger under its public membership data.
    spec fn spec_member(&self, com: Com) -> bool;

    fn enforce_membership_of(&self, com: &Com) -> (r: bool)
        ensures
            r == self.spec_member(*com),
    ;
}

/// What `verify_interact_and_append` promises of an object ledger: an
/// accepted submission's nullifier was new and is now recorded, and no
/// recorded nullifier is ever forgotten.
pub open spec fn submission_outcome<B: UserBul>(before: B, after: B, nul: Nul, accepted: bool) -> bool {
    &&& accepted ==> !before.spec_has_nul(nul) && after.spec_has_nul(nul)
    &&& forall|m: Nul| before.spec_has_nul(m) ==> #[trigger] after.spec_has_nul(m)
}

/// The public inputs of an interaction proof: the new commitment, the
/// consumed nullifier, the arguments, the ticket commitments and the public
/// membership data, in that order.
pub open spec fn spec_interaction_inputs(
    object: Com,
    old_nul: Nul,
    args: Seq<Fe>,
    cb_com_list: Seq<Com>,
    memb_pub: Seq<Fe>,
) -> Seq<Fe> {
    seq![object, old_nul] + args + cb_com_list + memb_pub
}

/// Builds the public inputs that an interaction proof is checked against.
pub fn interaction_public_inputs(
    object: Com,
    old_nul: Nul,
    args: &Vec<Fe>,
    cb_com_list: &Vec<Com>,
    memb_pub: &Vec<Fe>,
) -> (r: Vec<Fe>)
    ensures
        r@ == spec_interaction_inputs(object, old_nul, args@, cb_com_list@, memb_pub@),
{
    let mut out: Vec<Fe> = Vec::new();
    out.push(object);
    out.push(old_nul);
    let mut a = copy_elements(args);
    let mut c = copy_elements(cb_com_list);
    let mut m = copy_elements(memb_pub);
    out.append(&mut a);
    out.append(&mut c);
    out.append(&mut m);
    proof {
        assert(out@ =~= spec_interaction_inputs(object, old_nul, args@, cb_com_list@, memb_pub@));
    }
    out
}

/// An object ledger that accepts interactions: it records new commitments
/// with the nullifiers they consume, and refuses a nullifier twice.
pub trait UserBul: PublicUserBul + Sized {
    type Error;

    /// The nullifier is recorded.
    spec fn spec_has_nul(&self, nul: Nul) -> bool;

    /// The ledger's storage accepts every write.
    spec fn spec_reliable(&self) -> bool;

    fn has_never_recieved_nul(&self, nul: &Nul) -> (r: bool)
        ensures
            r == !self.spec_has_nul(*nul),
    ;

    /// Records `object` and the nullifier `old_nul` it consumes. On success
    /// both are recorded; on failure no nullifier record changes; no recorded
    /// nullifier is ever dropped.
    fn append_value(&mut self, object: &Com, old_nul: &Nul, cb_com_list: &Vec<Com>) -> (r: Result<(), Self::Error>)
        ensures
            r is Ok ==> final(self).spec_has_nul(*old_nul) && final(self).spec_has_object(
                *object,
                *old_nul,
                cb_com_list@,
            ),
            r is Err ==> forall|m: Nul| #[trigger] final(self).spec_has_nul(m) == old(self).spec_has_nul(m),
            forall|m: Nul| old(self).spec_has_nul(m) ==> #[trigger] final(self).spec_has_nul(m),
            old(self).spec_reliable() ==> r is Ok && final(self).spec_reliable(),
    ;

    /// An interaction is acceptable when its nullifier is new and its proof,
    /// checked against `interaction_public_inputs`, was accepted.
    fn verify_interaction(&self, old_nul: &Nul, proof_accepted: bool) -> (r: bool)
        ensures
            r == (!self.spec_has_nul(*old_nul) && proof_accepted),
    {
        if !self.has_never_recieved_nul(old_nul) {
            return false;
        }
        proof_accepted
    }

    /// Verifies an interaction, then appends it. A rejected one leaves the
    /// ledger as it was; an accepted one whose append fails is an
    /// `AppendError`; on a reliable ledger an accepted one is appended.
    fn verify_interact_and_append(
        &mut self,
        object: &Com,
        old_nul: &Nul,
        cb_com_list: &Vec<Com>,
        proof_accepted: bool,
    ) -> (r: Result<(), BulError<Self::Error>>)
        ensures
            (r is Err && r->Err_0 is VerifyError) <==> !(!old(self).spec_has_nul(*old_nul) && proof_accepted),
            (r is Err && r->Err_0 is VerifyError) ==> *final(self) == *old(self),
            r is Ok ==> final(self).spec_has_object(*object, *old_nul, cb_com_list@),
            r is Ok ==> !old(self).spec_has_nul(*old_nul) && final(self).spec_has_nul(*old_nul),
            r is Err ==> forall|m: Nul| #[trigger] final(self).spec_has_nul(m) == old(self).spec_has_nul(m),
            forall|m: Nul| old(self).spec_has_nul(m) ==> #[trigger] final(self).spec_has_nul(m),
            old(self).spec_reliable() && !old(self).spec_has_nul(*old_nul) && proof_accepted ==> r is Ok,
            old(self).spec_reliable() ==> final(self).spec_reliable(),
    {
        let out = self.verify_interaction(old_nul, proof_accepted);
        if !out {
            return Err(BulError::VerifyError);
        }
        match self.append_value(object, old_nul, cb_com_list) {
            Ok(()) => Ok(()),
            Err(e) => Err(BulError::AppendError(e)),
        }
    }
}

/// An object ledger that also admits brand-new objects, unlinked to any
/// earlier one, under outside authorization data.
pub trait JoinableBulletin: UserBul {
    type PubData;

    /// The object was admitted by a join.
    spec fn spec_has_joined(&self, object: Com) -> bool;

    /// The outside authorization data admit the object.
    spec fn spec_join_authorized(&self, object: Com, pub_data: Self::PubData) -> bool;

    /// Admits `object`. An unauthorized join is refused and leaves the ledger
    /// as it was; a join that fails records no nullifier; on success the
    /// object is recorded as joined; no recorded nullifier is dropped.
    fn join_bul(&mut self, object: &Com, pub_data: Self::PubData) -> (r: Result<(), Self::Error>)
        ensures
            r is Ok ==> old(self).spec_join_authorized(*object, pub_data),
            !old(self).spec_join_authorized(*object, pub_data) ==> r is Err && *final(self) == *old(self),
            r is Ok ==> final(self).spec_has_joined(*object),
            r is Err ==> forall|m: Nul| #[trigger] final(self).spec_has_nul(m) == old(self).spec_has_nul(m),
            forall|m: Nul| old(self).spec_has_nul(m) ==> #[trigger] final(self).spec_has_nul(m),
            old(self).spec_reliable() && old(self).spec_join_authorized(*object, pub_data) ==> r is Ok,
            old(self).spec_reliable() ==> final(self).spec_reliable(),
    ;
}

/// A callback ledger that accepts calls: a ticket, the ciphertext of its
/// arguments and a signature under the ticket's key.
pub trait CallbackBulletin: Sized {
    type Error;

    /// The ticket has already been received.
    spec fn spec_tik_received(&self, tik: PlainTikCrypto) -> bool;

    fn has_never_recieved_tik(&self, tik: &PlainTikCrypto) -> (r: bool)
        ensures
            r == !self.spec_tik_received(*tik),
    ;

    /// A call of the ticket with this ciphertext is recorded.
    spec fn spec_call_posted(&self, tik: PlainTikCrypto, enc_args: Fe) -> bool;

    /// The ledger's storage accepts a call with this ciphertext.
    spec fn spec_accepts_call(&self, enc_args: Fe) -> bool;

    /// Records a call of `tik` with ciphertext `enc_args`. On success the
    /// ticket counts as received; on failure no ticket record changes; no
    /// received ticket is forgotten; what the storage accepts stays accepted.
    fn append_value(&mut self, tik: &PlainTikCrypto, enc_args: Fe) -> (r: Result<(), Self::Error>)
        ensures
            r is Ok ==> final(self).spec_call_posted(*tik, enc_args) && final(self).spec_tik_received(*tik),
            r is Err ==> forall|t: PlainTikCrypto|
                #[trigger] final(self).spec_tik_received(t) == old(self).spec_tik_received(t),
            forall|t: PlainTikCrypto| old(self).spec_tik_received(t) ==> #[trigger] final(self).spec_tik_received(t),
            old(self).spec_accepts_call(enc_args) ==> r is Ok,
            forall|c: Fe| old(self).spec_accepts_call(c) ==> #[trigger] final(self).spec_accepts_call(c),
    ;

    /// A call is acceptable when the ticket is new and the signature checks.
    fn verify_call(&self, tik: &PlainTikCrypto, enc_args: Fe) -> (r: bool)
        ensures
            r == !self.spec_tik_received(*tik),
    {
        if !self.has_never_recieved_tik(tik) {
            return false;
        }
        tik.verify(enc_args)
    }

    /// Verifies a call, then appends it. A rejected one leaves the ledger as
    /// it was.
    fn verify_call_and_append(&mut self, tik: &PlainTikCrypto, enc_args: Fe) -> (r: Result<
        (),
        BulError<Self::Error>,
    >)
        ensures
            (r is Err && r->Err_0 is VerifyError) <==> old(self).spec_tik_received(*tik),
            (r is Err && r->Err_0 is VerifyError) ==> *final(self) == *old(self),
            r is Ok ==> final(self).spec_call_posted(*tik, enc_args) && final(self).spec_tik_received(*tik),
            r is Err ==> forall|t: PlainTikCrypto|
                #[trigger] final(self).spec_tik_received(t) == old(self).spec_tik_received(t),
            forall|t: PlainTikCrypto| old(self).spec_tik_received(t) ==> #[trigger] final(self).spec_tik_received(t),
            old(self).spec_accepts_call(enc_args) && !old(self).spec_tik_received(*tik) ==> r is Ok,
            forall|c: Fe| old(self).spec_accepts_call(c) ==> #[trigger] final(self).spec_accepts_call(c),
    {
        let out = self.verify_call(tik, enc_args);
        if !out {
            return Err(BulError::VerifyError);
        }
        match self.append_value(tik, enc_args) {
            Ok(()) => Ok(()),
            Err(e) => Err(BulError::AppendError(e)),
        }
    }
}

proof fn lemma_nullifier_kept<B: UserBul>(states: Seq<B>, nuls: Seq<Nul>, accepted: Seq<bool>, i: int, k: int)
    requires
        states.len() == nuls.len() + 1,
        accepted.len() == nuls.len(),
        forall|t: int|
            0 <= t < nuls.len() ==> submission_outcome(
                #[trigger] states[t],
                states[t + 1],
                nuls[t],
                accepted[t],
            ),
        0 <= i < k <= nuls.len(),
        accepted[i],
    ensures
        states[k].spec_has_nul(nuls[i]),
    decreases k - i,
{
    if k > i + 1 {
        lemma_nullifier_kept(states, nuls, accepted, i, k - 1);
        assert(submission_outcome(states[k - 1], states[k], nuls[k - 1], accepted[k - 1]));
    } else {
        assert(submission_outcome(states[i], states[i + 1], nuls[i], accepted[i]));
    }
}

/// No nullifier is accepted twice: along any run of submissions to an object
/// ledger, each with an outcome that `verify_interact_and_append` allows, two
/// accepted submissions carry different nullifiers.
pub proof fn lemma_nullifier_uniqueness<B: UserBul>(states: Seq<B>, nuls: Seq<Nul>, accepted: Seq<bool>)
    requires
        states.len() == nuls.len() + 1,
        accepted.len() == nuls.len(),
        forall|t: int|
            0 <= t < nuls.len() ==> submission_outcome(
                #[trigger] states[t],
                states[t + 1],
                nuls[t],
                accepted[t],
            ),
    ensures
        forall|i: int, j: int|
            0 <= i < j < nuls.len() && #[trigger] accepted[i] && #[trigger] accepted[j] ==> nuls[i]
                != nuls[j],
{
    assert forall|i: int, j: int|
        0 <= i < j < nuls.len() && #[trigger] accepted[i] && #[trigger] accepted[j] implies nuls[i]
        != nuls[j] by {
        lemma_nullifier_kept(states, nuls, accepted, i, j);
        assert(submission_outcome(states[j], states[j + 1], nuls[j], accepted[j]));
    }
}

} // verus!
