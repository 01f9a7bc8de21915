use vstd::prelude::*;
use crate::callbacks::{
    hash_chain, lemma_hash_chain_push, Callback, CallbackCom, CallbackEntry, CallbackMethod,
    PlainTikCrypto, add_ticket_to_hc,
};
use crate::field::{Com, Fe, Nul};
use crate::hash::PoseidonParams;
use crate::service::ExecutedMethod;
use crate::user::{spec_commit, User, ZkFields};

verus! {

/// One externally invokable user action: the update it makes to the user's
/// data, and the callbacks it registers.
pub struct Interaction<M, C> {
    pub meth: M,
    pub callbacks: Vec<Callback<C>>,
}

/// The randomness that the user draws for one ticket: the rerandomization of
/// the service key (which is the ticket's key), the encryption key, and the
/// randomness of the ticket's commitment.
#[derive(Clone, Copy, Debug, PartialEq, Eq, Structural)]
pub struct TicketRand {
    pub rand: Fe,
    pub enc_key: Fe,
    pub com_rand: Fe,
}

impl TicketRand {
    pub open spec fn wf(self) -> bool {
        self.rand.wf() && self.enc_key.wf() && self.com_rand.wf()
    }
}

/// The ticket that callback `cb` gets under randomness `t`.
pub open spec fn spec_ticket<C>(cb: Callback<C>, t: TicketRand) -> CallbackEntry {
    CallbackEntry {
        tik: PlainTikCrypto(t.rand),
        enc_key: PlainTikCrypto(t.enc_key),
        cb_method_id: cb.method_id,
        expirable: cb.expirable,
        expiration: cb.expiration,
    }
}

/// The tickets of all callbacks, in order.
pub open spec fn spec_tickets<C>(cbs: Seq<Callback<C>>, rands: Seq<TicketRand>) -> Seq<CallbackEntry> {
    Seq::new(cbs.len(), |i: int| spec_ticket(cbs[i], rands[i]))
}

/// The commitment to a ticket: the hash of its elements and its randomness.
pub open spec fn ticket_com(p: PoseidonParams, e: CallbackEntry, com_rand: Fe) -> Com {
    p.spec_hash(e.spec_elements().push(com_rand))
}

/// The user after an interaction: the data updated, the tickets taken into
/// the recorded chain in order, and fresh keys.
pub open spec fn spec_interact<M: CallbackMethod, C>(
    p: PoseidonParams,
    u: (Seq<Fe>, ZkFields),
    interaction: Interaction<M, C>,
    args: Fe,
    rands: Seq<TicketRand>,
    new_nul: Nul,
    new_com_rand: Fe,
) -> (Seq<Fe>, ZkFields) {
    (
        interaction.meth.spec_apply(u.0, args),
        ZkFields {
            nul: new_nul,
            com_rand: new_com_rand,
            callback_hash: hash_chain(
                p,
                u.1.callback_hash,
                spec_tickets(interaction.callbacks@, rands),
            ),
            ..u.1
        },
    )
}

impl<M: CallbackMethod, C> Interaction<M, C> {
    pub open spec fn wf(&self) -> bool {
        forall|i: int|
            0 <= i < self.callbacks@.len() ==> (#[trigger] self.callbacks@[i]).method_id.wf()
                && self.callbacks@[i].expiration.wf()
    }
}

impl User {
    /// Executes an interaction natively: applies its update, derives one
    /// ticket per callback from the drawn randomness and takes it into the
    /// recorded chain, and switches to the fresh nullifier and commitment
    /// randomness. Returns the new record and the bundle for the service
    /// (with an empty proof); `self` is left as it was.
    pub fn interact<M: CallbackMethod, C>(
        &self,
        p: &PoseidonParams,
        interaction: &Interaction<M, C>,
        args: Fe,
        rands: &Vec<TicketRand>,
        new_nul: Nul,
        new_com_rand: Fe,
    ) -> (r: (User, ExecutedMethod<()>))
        requires
            p.wf(),
            self.wf(),
            interaction.wf(),
            args.wf(),
            new_nul.wf(),
            new_com_rand.wf(),
            rands@.len() == interaction.callbacks@.len(),
            forall|i: int| 0 <= i < rands@.len() ==> (#[trigger] rands@[i]).wf(),
        ensures
            r.0@ == spec_interact(*p, self@, *interaction, args, rands@, new_nul, new_com_rand),
            r.0.wf(),
            r.1.new_object == spec_commit(*p, r.0@),
            r.1.old_nullifier == self.zk_fields.nul,
            r.1.cb_com_list@.len() == rands@.len(),
            r.1.cb_tik_list@.len() == rands@.len(),
            forall|i: int|
                0 <= i < rands@.len() ==> {
                    let e = spec_ticket(interaction.callbacks@[i], rands@[i]);
                    &&& (#[trigger] r.1.cb_tik_list@[i]) == (CallbackCom { cb_entry: e, com_rand: rands@[i].com_rand }, rands@[i].rand)
                    &&& r.1.cb_com_list@[i] == ticket_com(*p, e, rands@[i].com_rand)
                },
    {
        proof {
            interaction.meth.lemma_apply_wf(self.data@, args);
        }
        let data = interaction.meth.apply(&self.data, args);
        let cbs = &interaction.callbacks;
        let ghost entries = spec_tickets(cbs@, rands@);
        let mut hc = self.zk_fields.callback_hash;
        let mut cb_com_list: Vec<Com> = Vec::new();
        let mut cb_tik_list: Vec<(CallbackCom, Fe)> = Vec::new();
        let mut i: usize = 0;
        while i < cbs.len()
            invariant
                0 <= i <= cbs@.len(),
                cbs == &interaction.callbacks,
                rands@.len() == cbs@.len(),
                p.wf(),
                interaction.wf(),
                forall|k: int| 0 <= k < rands@.len() ==> (#[trigger] rands@[k]).wf(),
                entries == spec_tickets(cbs@, rands@),
                hc == hash_chain(*p, self.zk_fields.callback_hash, entries.take(i as int)),
                hc.wf(),
                cb_com_list@.len() == i,
                cb_tik_list@.len() == i,
                forall|k: int|
                    0 <= k < i ==> {
                        let e = spec_ticket(interaction.callbacks@[k], rands@[k]);
                        &&& (#[trigger] cb_tik_list@[k]) == (CallbackCom { cb_entry: e, com_rand: rands@[k].com_rand }, rands@[k].rand)
                        &&& cb_com_list@[k] == ticket_com(*p, e, rands@[k].com_rand)
                    },
            decreases cbs@.len() - i,
        {
            let cb = &cbs[i];
            let t = rands[i];
            let e = CallbackEntry {
                tik: PlainTikCrypto(t.rand),
                enc_key: PlainTikCrypto(t.enc_key),
                cb_method_id: cb.method_id,
                expirable: cb.expirable,
                expiration: cb.expiration,
            };
            assert(e == entries[i as int]);
            proof {
                assert(entries.take(i + 1) =~= entries.take(i as int).push(e));
                lemma_hash_chain_push(*p, self.zk_fields.callback_hash, entries.take(i as int), e);
            }
            hc = add_ticket_to_hc(p, hc, &e);
            let mut input: Vec<Fe> = Vec::new();
            input.push(e.tik.0);
            input.push(e.enc_key.0);
            input.push(e.cb_method_id);
            input.push(Fe::from_bool(e.expirable));
            input.push(e.expiration);
            input.push(t.com_rand);
            proof {
                assert(input@ =~= e.spec_elements().push(t.com_rand));
            }
            let com = p.hash(&input);
            cb_com_list.push(com);
            cb_tik_list.push((CallbackCom { cb_entry: e, com_rand: t.com_rand }, t.rand));
            i = i + 1;
        }
        proof {
            assert(entries.take(cbs@.len() as int) =~= entries);
        }
        let user = User {
            data,
            zk_fields: ZkFields {
                nul: new_nul,
                com_rand: new_com_rand,
                callback_hash: hc,
                ..self.zk_fields
            },
        };
        let new_object = user.commit(p);
        let em = ExecutedMethod {
            new_object,
            old_nullifier: self.zk_fields.nul,
            cb_com_list,
            cb_tik_list,
            proof: (),
        };
        (user, em)
    }
}

} // verus!
