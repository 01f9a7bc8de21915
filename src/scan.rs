use vstd::prelude::*;
use crate::bulletin::PublicCallbackBul;
use crate::callbacks::{
    add_ticket_to_hc, all_wf, copy_elements, entries_of, hash_chain, hc_step, lemma_hash_chain_push, Callback, CallbackCom, CallbackEntry,
    CallbackMethod,
};
use crate::field::{fe_gt, Fe, Time};
use crate::hash::PoseidonParams;
use crate::memory::CallbackStore;
use crate::user::{User, ZkFields};

verus! {

/// The public side of a scan: per slot of a batch the public membership and
/// non-membership data of the callback ledger, the current time, the ledger,
/// and the table of callback methods.
pub struct PubScanArgs<M, CB: PublicCallbackBul> {
    pub memb_pub: Vec<CB::MembershipPub>,
    pub nmemb_pub: Vec<CB::NonMembershipPub>,
    pub cur_time: Time,
    pub bulletin: CB,
    pub cb_methods: Vec<Callback<M>>,
}

/// The private side of a scan: one batch of the user's pending tickets, and
/// for each the ciphertext and call time it was posted with (ignored for a
/// ticket that was never called) and the membership and non-membership
/// witnesses.
pub struct PrivScanArgs<CB: PublicCallbackBul> {
    pub priv_n_tickets: Vec<CallbackCom>,
    pub enc_args: Vec<Fe>,
    pub post_times: Vec<Time>,
    pub memb_priv: Vec<CB::MembershipWitness>,
    pub nmemb_priv: Vec<CB::NonMembershipWitness>,
}

/// A user model: private data and bookkeeping fields.
pub type UserModel = (Seq<Fe>, ZkFields);

impl<M: CallbackMethod, CB: PublicCallbackBul> PubScanArgs<M, CB> {
    pub open spec fn wf(&self) -> bool {
        &&& self.cur_time.wf()
        &&& forall|i: int| 0 <= i < self.cb_methods@.len() ==> (#[trigger] self.cb_methods@[i]).method_id.wf()
    }
}

impl<M: CallbackMethod> PubScanArgs<M, CallbackStore> {
    /// The public inputs that the scan arguments contribute to a scan proof:
    /// the membership data of the in-memory ledger is empty, so only the
    /// current time.
    pub fn to_field_elements(&self) -> (r: Vec<Fe>)
        ensures
            r@ == seq![self.cur_time],
    {
        let mut out: Vec<Fe> = Vec::new();
        out.push(self.cur_time);
        proof {
            assert(out@ =~= seq![self.cur_time]);
        }
        out
    }
}

impl<CB: PublicCallbackBul> Default for PrivScanArgs<CB> {
    /// An empty batch.
    fn default() -> (r: PrivScanArgs<CB>)
        ensures
            r.priv_n_tickets@.len() == 0,
            r.enc_args@.len() == 0,
            r.post_times@.len() == 0,
            r.memb_priv@.len() == 0,
            r.nmemb_priv@.len() == 0,
    {
        PrivScanArgs {
            priv_n_tickets: Vec::new(),
            enc_args: Vec::new(),
            post_times: Vec::new(),
            memb_priv: Vec::new(),
            nmemb_priv: Vec::new(),
        }
    }
}

impl<CB: PublicCallbackBul> PrivScanArgs<CB> {
    /// The arrays have one slot per ticket, and every element is canonical.
    pub open spec fn wf(&self) -> bool {
        &&& self.enc_args@.len() == self.priv_n_tickets@.len()
        &&& self.post_times@.len() == self.priv_n_tickets@.len()
        &&& self.memb_priv@.len() == self.priv_n_tickets@.len()
        &&& self.nmemb_priv@.len() == self.priv_n_tickets@.len()
        &&& all_wf(self.enc_args@)
        &&& all_wf(self.post_times@)
        &&& tickets_wf(self.priv_n_tickets@)
    }
}

pub open spec fn tickets_wf(t: Seq<CallbackCom>) -> bool {
    forall|i: int| 0 <= i < t.len() ==> (#[trigger] t[i]).cb_entry.wf()
}

/// Runs every method of the table whose id is `id`, in table order, on `data`.
pub open spec fn apply_methods<M: CallbackMethod>(
    methods: Seq<Callback<M>>,
    id: Fe,
    args: Fe,
    data: Seq<Fe>,
) -> Seq<Fe>
    decreases methods.len(),
{
    if methods.len() == 0 {
        data
    } else {
        let d = apply_methods(methods.drop_last(), id, args, data);
        let m = methods.last();
        if m.method_id == id {
            m.method.spec_apply(d, args)
        } else {
            d
        }
    }
}

/// Opens a scan epoch: a closed user starts over with empty in-progress chains.
pub open spec fn open_epoch(u: UserModel) -> UserModel {
    if u.1.is_ingest_over {
        (
            u.0,
            ZkFields {
                is_ingest_over: false,
                old_in_progress_callback_hash: Fe::spec_zero(),
                new_in_progress_callback_hash: Fe::spec_zero(),
                ..u.1
            },
        )
    } else {
        u
    }
}

/// One ticket of a scan. It joins the chain of tickets gone through. If it
/// was called it is applied, unless it had expired at the call; if not, it is
/// carried forward, unless it has expired now.
pub open spec fn scan_slot<M: CallbackMethod, CB: PublicCallbackBul>(
    p: PoseidonParams,
    pa: PubScanArgs<M, CB>,
    u: UserModel,
    e: CallbackEntry,
) -> UserModel {
    let z1 = ZkFields {
        old_in_progress_callback_hash: hc_step(p, u.1.old_in_progress_callback_hash, e),
        ..u.1
    };
    match pa.bulletin.spec_call(e.tik) {
        Some(c) => {
            if e.expirable && fe_gt(c.1, e.expiration) {
                (u.0, z1)
            } else {
                (apply_methods(pa.cb_methods@, e.cb_method_id, c.0.spec_sub(e.enc_key.0), u.0), z1)
            }
        },
        None => {
            if e.expirable && fe_gt(pa.cur_time, e.expiration) {
                (u.0, z1)
            } else {
                (
                    u.0,
                    ZkFields {
                        new_in_progress_callback_hash: hc_step(p, u.1.new_in_progress_callback_hash, e),
                        ..z1
                    },
                )
            }
        },
    }
}

/// The tickets of a batch, one after the other.
pub open spec fn scan_slots<M: CallbackMethod, CB: PublicCallbackBul>(
    p: PoseidonParams,
    pa: PubScanArgs<M, CB>,
    u: UserModel,
    tickets: Seq<CallbackCom>,
) -> UserModel
    decreases tickets.len(),
{
    if tickets.len() == 0 {
        u
    } else {
        scan_slot(p, pa, scan_slots(p, pa, u, tickets.drop_last()), tickets.last().cb_entry)
    }
}

/// Closes the epoch once the chain gone through equals the recorded chain:
/// the chain carried forward becomes the recorded chain.
pub open spec fn finalize(u: UserModel) -> UserModel {
    if u.1.old_in_progress_callback_hash == u.1.callback_hash {
        (
            u.0,
            ZkFields {
                callback_hash: u.1.new_in_progress_callback_hash,
                old_in_progress_callback_hash: u.1.new_in_progress_callback_hash,
                is_ingest_over: true,
                ..u.1
            },
        )
    } else {
        u
    }
}

/// The user after a scan of one batch.
pub open spec fn spec_scan<M: CallbackMethod, CB: PublicCallbackBul>(
    p: PoseidonParams,
    pa: PubScanArgs<M, CB>,
    u: UserModel,
    tickets: Seq<CallbackCom>,
) -> UserModel {
    finalize(scan_slots(p, pa, open_epoch(u), tickets))
}

/// `a` if `c`, else `b`.
pub open spec fn sel<T>(c: bool, a: T, b: T) -> T {
    if c {
        a
    } else {
        b
    }
}

/// One slot of the constraint form of a scan, over the state (data, chain
/// gone through, chain carried forward, witnesses valid so far). Every branch
/// is computed and the result selected by the membership and expiry bits.
pub open spec fn circuit_slot<M: CallbackMethod, CB: PublicCallbackBul>(
    p: PoseidonParams,
    pa: PubScanArgs<M, CB>,
    e: CallbackEntry,
    ct: Fe,
    t: Time,
    w: CB::MembershipWitness,
    nw: CB::NonMembershipWitness,
    mp: CB::MembershipPub,
    np: CB::NonMembershipPub,
    s: (Seq<Fe>, Fe, Fe, bool),
) -> (Seq<Fe>, Fe, Fe, bool) {
    let memb = pa.bulletin.spec_call(e.tik) == Some((ct, t)) && pa.bulletin.spec_memb_witness(e.tik, ct, t, w, mp);
    let nmemb = pa.bulletin.spec_call(e.tik).is_none() && pa.bulletin.spec_nmemb_witness(e.tik, nw, np);
    let expired_at_call = e.expirable && fe_gt(t, e.expiration);
    let expired_now = e.expirable && fe_gt(pa.cur_time, e.expiration);
    let applied = apply_methods(pa.cb_methods@, e.cb_method_id, ct.spec_sub(e.enc_key.0), s.0);
    (
        sel(memb && !expired_at_call, applied, s.0),
        hc_step(p, s.1, e),
        sel(!memb && !expired_now, hc_step(p, s.2, e), s.2),
        s.3 && (memb || nmemb),
    )
}

/// The first `n` slots of the constraint form.
pub open spec fn circuit_slots<M: CallbackMethod, CB: PublicCallbackBul>(
    p: PoseidonParams,
    pa: PubScanArgs<M, CB>,
    priv_args: PrivScanArgs<CB>,
    n: nat,
    s: (Seq<Fe>, Fe, Fe, bool),
) -> (Seq<Fe>, Fe, Fe, bool)
    decreases n,
{
    if n == 0 {
        s
    } else {
        let k = (n - 1) as int;
        circuit_slot(
            p,
            pa,
            priv_args.priv_n_tickets@[k].cb_entry,
            priv_args.enc_args@[k],
            priv_args.post_times@[k],
            priv_args.memb_priv@[k],
            priv_args.nmemb_priv@[k],
            pa.memb_pub@[k],
            pa.nmemb_pub@[k],
            circuit_slots(p, pa, priv_args, (n - 1) as nat, s),
        )
    }
}

/// The scan relation in constraint form: the witnesses are valid for the
/// ledger and `u_new` is the selected result for `u_old`.
pub open spec fn scan_relation<M: CallbackMethod, CB: PublicCallbackBul>(
    p: PoseidonParams,
    pa: PubScanArgs<M, CB>,
    priv_args: PrivScanArgs<CB>,
    u_old: UserModel,
    u_new: UserModel,
) -> bool {
    let z = u_old.1;
    let init = (
        u_old.0,
        sel(z.is_ingest_over, Fe::spec_zero(), z.old_in_progress_callback_hash),
        sel(z.is_ingest_over, Fe::spec_zero(), z.new_in_progress_callback_hash),
        true,
    );
    let s = circuit_slots(p, pa, priv_args, priv_args.priv_n_tickets@.len(), init);
    let converged = s.1 == z.callback_hash;
    &&& s.3
    &&& u_new == (
        s.0,
        ZkFields {
            callback_hash: sel(converged, s.2, z.callback_hash),
            new_in_progress_callback_hash: s.2,
            old_in_progress_callback_hash: sel(converged, s.2, s.1),
            is_ingest_over: converged,
            ..z
        },
    )
}

/// Every slot's witnesses agree with the ledger: the ticket was called with
/// that ciphertext at that time and the membership witness shows it, or it
/// was not called and the non-membership witness shows that.
pub open spec fn witnesses_valid<M: CallbackMethod, CB: PublicCallbackBul>(
    pa: PubScanArgs<M, CB>,
    priv_args: PrivScanArgs<CB>,
) -> bool {
    forall|i: int|
        0 <= i < priv_args.priv_n_tickets@.len() ==> {
            let tik = (#[trigger] priv_args.priv_n_tickets@[i]).cb_entry.tik;
            let ct = priv_args.enc_args@[i];
            let t = priv_args.post_times@[i];
            ||| pa.bulletin.spec_call(tik) == Some((ct, t)) && pa.bulletin.spec_memb_witness(
                tik,
                ct,
                t,
                priv_args.memb_priv@[i],
                pa.memb_pub@[i],
            )
            ||| pa.bulletin.spec_call(tik).is_none() && pa.bulletin.spec_nmemb_witness(
                tik,
                priv_args.nmemb_priv@[i],
                pa.nmemb_pub@[i],
            )
        }
}

/// Runs the methods of the table whose id is `id` on `data`.
fn run_methods<M: CallbackMethod>(methods: &Vec<Callback<M>>, id: Fe, args: Fe, data: Vec<Fe>) -> (r: Vec<Fe>)
    requires
        all_wf(data@),
        args.wf(),
    ensures
        r@ == apply_methods(methods@, id, args, data@),
        all_wf(r@),
{
    let mut out = data;
    let mut j: usize = 0;
    while j < methods.len()
        invariant
            0 <= j <= methods@.len(),
            out@ == apply_methods(methods@.take(j as int), id, args, data@),
            all_wf(out@),
            args.wf(),
        decreases methods@.len() - j,
    {
        proof {
            assert(methods@.take(j + 1).drop_last() =~= methods@.take(j as int));
        }
        if methods[j].method_id == id {
            proof {
                methods@[j as int].method.lemma_apply_wf(out@, args);
            }
            out = methods[j].method.apply(&out, args);
        }
        j = j + 1;
    }
    proof {
        assert(methods@.take(methods@.len() as int) =~= methods@);
    }
    out
}

/// Scans one batch of pending tickets for `user`, querying the callback
/// ledger for each: opens an epoch if none is in progress, applies called
/// tickets, carries uncalled ones forward, drops expired ones, and closes the
/// epoch once every ticket of the recorded chain has been gone through.
pub fn scan_method<M: CallbackMethod, CB: PublicCallbackBul>(
    p: &PoseidonParams,
    user: &User,
    pub_args: &PubScanArgs<M, CB>,
    priv_args: &PrivScanArgs<CB>,
) -> (r: User)
    requires
        p.wf(),
        user.wf(),
        pub_args.wf(),
        tickets_wf(priv_args.priv_n_tickets@),
    ensures
        r@ == spec_scan(*p, *pub_args, user@, priv_args.priv_n_tickets@),
        r.wf(),
{
    let r = scan_method_at(p, user, pub_args, pub_args.cur_time, priv_args);
    proof {
        assert(with_time(*pub_args, pub_args.cur_time) == *pub_args);
    }
    r
}

/// The public arguments with the current time replaced by `t`.
pub open spec fn with_time<M, CB: PublicCallbackBul>(pa: PubScanArgs<M, CB>, t: Time) -> PubScanArgs<M, CB> {
    PubScanArgs { cur_time: t, ..pa }
}

/// `scan_method` with the current time given apart from the other public
/// arguments, as a folding step takes it from its running state.
pub fn scan_method_at<M: CallbackMethod, CB: PublicCallbackBul>(
    p: &PoseidonParams,
    user: &User,
    pub_args: &PubScanArgs<M, CB>,
    cur_time: Time,
    priv_args: &PrivScanArgs<CB>,
) -> (r: User)
    requires
        p.wf(),
        user.wf(),
        pub_args.wf(),
        cur_time.wf(),
        tickets_wf(priv_args.priv_n_tickets@),
    ensures
        r@ == spec_scan(*p, with_time(*pub_args, cur_time), user@, priv_args.priv_n_tickets@),
        r.wf(),
{
    let ghost pa = with_time(*pub_args, cur_time);
    let mut out = user.duplicate();
    if out.zk_fields.is_ingest_over {
        out.zk_fields.is_ingest_over = false;
        out.zk_fields.old_in_progress_callback_hash = Fe::zero();
        out.zk_fields.new_in_progress_callback_hash = Fe::zero();
    }
    let ghost start = open_epoch(user@);
    proof {
        assert(out@ == start);
    }
    let tickets = &priv_args.priv_n_tickets;
    let mut i: usize = 0;
    while i < tickets.len()
        invariant
            0 <= i <= tickets@.len(),
            p.wf(),
            pub_args.wf(),
            tickets_wf(tickets@),
            tickets == &priv_args.priv_n_tickets,
            out@ == scan_slots(*p, pa, start, tickets@.take(i as int)),
            cur_time.wf(),
            pa == with_time(*pub_args, cur_time),
            out.wf(),
        decreases tickets@.len() - i,
    {
        proof {
            assert(tickets@.take(i + 1).drop_last() =~= tickets@.take(i as int));
        }
        let e = tickets[i].cb_entry;
        assert(e.wf());
        out.zk_fields.old_in_progress_callback_hash = add_ticket_to_hc(
            p,
            out.zk_fields.old_in_progress_callback_hash,
            &e,
        );
        match pub_args.bulletin.verify_in(&e.tik) {
            Some(c) => {
                if e.expirable && c.1.gt(&e.expiration) {
                } else {
                    let args = e.enc_key.decrypt(c.0);
                    let mut data: Vec<Fe> = Vec::new();
                    std::mem::swap(&mut out.data, &mut data);
                    out.data = run_methods(&pub_args.cb_methods, e.cb_method_id, args, data);
                }
            },
            None => {
                if e.expirable && cur_time.gt(&e.expiration) {
                } else {
                    out.zk_fields.new_in_progress_callback_hash = add_ticket_to_hc(
                        p,
                        out.zk_fields.new_in_progress_callback_hash,
                        &e,
                    );
                }
            },
        }
        i = i + 1;
    }
    proof {
        assert(tickets@.take(tickets@.len() as int) =~= tickets@);
    }
    if out.zk_fields.old_in_progress_callback_hash == out.zk_fields.callback_hash {
        out.zk_fields.callback_hash = out.zk_fields.new_in_progress_callback_hash;
        out.zk_fields.old_in_progress_callback_hash = out.zk_fields.new_in_progress_callback_hash;
        out.zk_fields.is_ingest_over = true;
    }
    out
}


/// `a` if `c`, else `b`, on field elements.
fn select_fe(c: bool, a: Fe, b: Fe) -> (r: Fe)
    ensures
        r == sel(c, a, b),
{
    if c {
        a
    } else {
        b
    }
}

/// `a` if `c`, else `b`, on data vectors.
fn select_data(c: bool, a: Vec<Fe>, b: Vec<Fe>) -> (r: Vec<Fe>)
    ensures
        r@ == sel(c, a@, b@),
{
    if c {
        a
    } else {
        b
    }
}

/// The two vectors hold the same elements.
fn elements_eq(a: &Vec<Fe>, b: &Vec<Fe>) -> (r: bool)
    ensures
        r == (a@ == b@),
{
    if a.len() != b.len() {
        return false;
    }
    let mut i: usize = 0;
    while i < a.len()
        invariant
            0 <= i <= a@.len(),
            a@.len() == b@.len(),
            forall|k: int| 0 <= k < i ==> a@[k] == b@[k],
        decreases a@.len() - i,
    {
        if a[i] != b[i] {
            return false;
        }
        i = i + 1;
    }
    proof {
        assert(a@ =~= b@);
    }
    true
}

/// Constraint form of the method table: every method is run on the data and
/// its result kept where its id matches.
fn select_methods<M: CallbackMethod>(methods: &Vec<Callback<M>>, id: Fe, args: Fe, data: Vec<Fe>) -> (r: Vec<Fe>)
    requires
        all_wf(data@),
        args.wf(),
    ensures
        r@ == apply_methods(methods@, id, args, data@),
        all_wf(r@),
{
    let mut out = data;
    let mut j: usize = 0;
    while j < methods.len()
        invariant
            0 <= j <= methods@.len(),
            out@ == apply_methods(methods@.take(j as int), id, args, data@),
            all_wf(out@),
            args.wf(),
        decreases methods@.len() - j,
    {
        proof {
            assert(methods@.take(j + 1).drop_last() =~= methods@.take(j as int));
            methods@[j as int].method.lemma_apply_wf(out@, args);
        }
        let candidate = methods[j].method.apply(&out, args);
        out = select_data(methods[j].method_id == id, candidate, out);
        j = j + 1;
    }
    proof {
        assert(methods@.take(methods@.len() as int) =~= methods@);
    }
    out
}

/// The scan relation in constraint form, checked on a claimed pair of users:
/// each slot's witness is checked against the ledger as a member or a
/// non-member, every branch is computed, and the results are selected by the
/// membership, expiry and convergence bits.
pub fn scan_predicate<M: CallbackMethod, CB: PublicCallbackBul>(
    p: &PoseidonParams,
    user_old: &User,
    user_new: &User,
    pub_args: &PubScanArgs<M, CB>,
    priv_args: &PrivScanArgs<CB>,
) -> (r: bool)
    requires
        p.wf(),
        user_old.wf(),
        pub_args.wf(),
        priv_args.wf(),
        pub_args.memb_pub@.len() == priv_args.priv_n_tickets@.len(),
        pub_args.nmemb_pub@.len() == priv_args.priv_n_tickets@.len(),
    ensures
        r == scan_relation(*p, *pub_args, *priv_args, user_old@, user_new@),
{
    let z = user_old.zk_fields;
    let mut updated_old = select_fe(z.is_ingest_over, Fe::zero(), z.old_in_progress_callback_hash);
    let mut updated_new = select_fe(z.is_ingest_over, Fe::zero(), z.new_in_progress_callback_hash);
    let mut data = copy_elements(&user_old.data);
    let mut valid = true;
    let ghost init = (user_old@.0, updated_old, updated_new, true);
    let n = priv_args.priv_n_tickets.len();
    let mut i: usize = 0;
    while i < n
        invariant
            0 <= i <= n,
            n == priv_args.priv_n_tickets@.len(),
            p.wf(),
            pub_args.wf(),
            priv_args.wf(),
            pub_args.memb_pub@.len() == n,
            pub_args.nmemb_pub@.len() == n,
            (data@, updated_old, updated_new, valid) == circuit_slots(*p, *pub_args, *priv_args, i as nat, init),
            all_wf(data@),
            updated_old.wf(),
            updated_new.wf(),
        decreases n - i,
    {
        let e = priv_args.priv_n_tickets[i].cb_entry;
        let ct = priv_args.enc_args[i];
        let t = priv_args.post_times[i];
        assert(e.wf() && ct.wf() && t.wf());
        updated_old = add_ticket_to_hc(p, updated_old, &e);
        let memb = pub_args.bulletin.enforce_membership_of(
            &e.tik,
            ct,
            t,
            &priv_args.memb_priv[i],
            &pub_args.memb_pub[i],
        );
        let nmemb = pub_args.bulletin.enforce_nonmembership_of(
            &e.tik,
            &priv_args.nmemb_priv[i],
            &pub_args.nmemb_pub[i],
        );
        let expired_at_call = e.expirable && t.gt(&e.expiration);
        let expired_now = e.expirable && pub_args.cur_time.gt(&e.expiration);
        let args = e.enc_key.decrypt(ct);
        let applied = select_methods(&pub_args.cb_methods, e.cb_method_id, args, copy_elements(&data));
        data = select_data(memb && !expired_at_call, applied, data);
        let carried = add_ticket_to_hc(p, updated_new, &e);
        updated_new = select_fe(!memb && !expired_now, carried, updated_new);
        valid = valid && (memb || nmemb);
        i = i + 1;
    }
    let converged = updated_old == z.callback_hash;
    let expected = ZkFields {
        callback_hash: select_fe(converged, updated_new, z.callback_hash),
        new_in_progress_callback_hash: updated_new,
        old_in_progress_callback_hash: select_fe(converged, updated_new, updated_old),
        is_ingest_over: converged,
        ..z
    };
    let same_data = elements_eq(&user_new.data, &data);
    valid && same_data && user_new.zk_fields == expected
}

/// The bookkeeping fields that a run of slots leaves alone.
pub open spec fn same_fixed_fields(a: ZkFields, b: ZkFields) -> bool {
    &&& a.nul == b.nul
    &&& a.com_rand == b.com_rand
    &&& a.callback_hash == b.callback_hash
    &&& a.is_ingest_over == b.is_ingest_over
}

proof fn lemma_slots_agree<M: CallbackMethod, CB: PublicCallbackBul>(
    p: PoseidonParams,
    pa: PubScanArgs<M, CB>,
    priv_args: PrivScanArgs<CB>,
    u: UserModel,
    n: nat,
)
    requires
        n <= priv_args.priv_n_tickets@.len(),
        priv_args.enc_args@.len() == priv_args.priv_n_tickets@.len(),
        priv_args.post_times@.len() == priv_args.priv_n_tickets@.len(),
        witnesses_valid(pa, priv_args),
    ensures
        ({
            let z = u.1;
            let init = (
                u.0,
                sel(z.is_ingest_over, Fe::spec_zero(), z.old_in_progress_callback_hash),
                sel(z.is_ingest_over, Fe::spec_zero(), z.new_in_progress_callback_hash),
                true,
            );
            let c = circuit_slots(p, pa, priv_args, n, init);
            let s = scan_slots(p, pa, open_epoch(u), priv_args.priv_n_tickets@.take(n as int));
            &&& c == (s.0, s.1.old_in_progress_callback_hash, s.1.new_in_progress_callback_hash, true)
            &&& same_fixed_fields(s.1, open_epoch(u).1)
        }),
    decreases n,
{
    let t = priv_args.priv_n_tickets@;
    if n == 0 {
        assert(t.take(0) =~= Seq::<CallbackCom>::empty());
    } else {
        lemma_slots_agree(p, pa, priv_args, u, (n - 1) as nat);
        assert(t.take(n as int).drop_last() =~= t.take(n - 1));
        let k = (n - 1) as int;
        assert(t.take(n as int).last() == t[k]);
        let _ = priv_args.priv_n_tickets@[k];
    }
}

/// The constraint form of a scan agrees with the native scan: for witnesses
/// that agree with the ledger, the relation holds of a pair of users exactly
/// when the native scan of the first gives the second.
pub proof fn lemma_native_circuit_equivalence<M: CallbackMethod, CB: PublicCallbackBul>(
    p: PoseidonParams,
    pa: PubScanArgs<M, CB>,
    priv_args: PrivScanArgs<CB>,
    u_old: UserModel,
    u_new: UserModel,
)
    requires
        priv_args.enc_args@.len() == priv_args.priv_n_tickets@.len(),
        priv_args.post_times@.len() == priv_args.priv_n_tickets@.len(),
        witnesses_valid(pa, priv_args),
    ensures
        scan_relation(p, pa, priv_args, u_old, u_new) <==> u_new == spec_scan(
            p,
            pa,
            u_old,
            priv_args.priv_n_tickets@,
        ),
{
    let t = priv_args.priv_n_tickets@;
    lemma_slots_agree(p, pa, priv_args, u_old, t.len());
    assert(t.take(t.len() as int) =~= t);
}

/// A scan of an empty batch on a closed user keeps its recorded chain; when
/// that chain is empty (no ticket pending) it keeps every flag and chain too.
pub proof fn lemma_idempotent_rescan<M: CallbackMethod, CB: PublicCallbackBul>(
    p: PoseidonParams,
    pa: PubScanArgs<M, CB>,
    u: UserModel,
)
    requires
        u.1.is_ingest_over,
        u.1.old_in_progress_callback_hash == u.1.callback_hash,
        u.1.new_in_progress_callback_hash == u.1.callback_hash,
    ensures
        spec_scan(p, pa, u, Seq::empty()).1.callback_hash == u.1.callback_hash,
        u.1.callback_hash == Fe::spec_zero() ==> spec_scan(p, pa, u, Seq::empty()) == u,
{
}

/// An expired ticket is dropped: a called ticket whose call came after its
/// expiration, or an uncalled one whose expiration the current time has
/// passed, changes neither the data nor the chain carried forward.
pub proof fn lemma_expired_ticket_dropped<M: CallbackMethod, CB: PublicCallbackBul>(
    p: PoseidonParams,
    pa: PubScanArgs<M, CB>,
    u: UserModel,
    e: CallbackEntry,
)
    requires
        e.expirable,
        match pa.bulletin.spec_call(e.tik) {
            Some(c) => fe_gt(c.1, e.expiration),
            None => fe_gt(pa.cur_time, e.expiration),
        },
    ensures
        scan_slot(p, pa, u, e).0 == u.0,
        scan_slot(p, pa, u, e).1.new_in_progress_callback_hash == u.1.new_in_progress_callback_hash,
        scan_slot(p, pa, u, e).1 == (ZkFields {
            old_in_progress_callback_hash: hc_step(p, u.1.old_in_progress_callback_hash, e),
            ..u.1
        }),
{
}

/// A ticket that a scan carries forward: not called, and not expired now.
pub open spec fn is_pending<M: CallbackMethod, CB: PublicCallbackBul>(
    pa: PubScanArgs<M, CB>,
    e: CallbackEntry,
) -> bool {
    pa.bulletin.spec_call(e.tik).is_none() && !(e.expirable && fe_gt(pa.cur_time, e.expiration))
}

/// The pending tickets of `es`, in order.
pub open spec fn pending_entries<M: CallbackMethod, CB: PublicCallbackBul>(
    pa: PubScanArgs<M, CB>,
    es: Seq<CallbackEntry>,
) -> Seq<CallbackEntry>
    decreases es.len(),
{
    if es.len() == 0 {
        es
    } else {
        let r = pending_entries(pa, es.drop_last());
        if is_pending(pa, es.last()) {
            r.push(es.last())
        } else {
            r
        }
    }
}

/// The batches one after the other.
pub open spec fn flatten(batches: Seq<Seq<CallbackCom>>) -> Seq<CallbackCom>
    decreases batches.len(),
{
    if batches.len() == 0 {
        Seq::empty()
    } else {
        flatten(batches.drop_last()) + batches.last()
    }
}

/// Scans of the batches in order.
pub open spec fn scan_batches<M: CallbackMethod, CB: PublicCallbackBul>(
    p: PoseidonParams,
    pa: PubScanArgs<M, CB>,
    u: UserModel,
    batches: Seq<Seq<CallbackCom>>,
) -> UserModel
    decreases batches.len(),
{
    if batches.len() == 0 {
        u
    } else {
        spec_scan(p, pa, scan_batches(p, pa, u, batches.drop_last()), batches.last())
    }
}

/// The data change of one ticket: a called ticket that had not expired at its
/// call runs its methods on the decrypted argument.
pub open spec fn slot_data<M: CallbackMethod, CB: PublicCallbackBul>(
    pa: PubScanArgs<M, CB>,
    e: CallbackEntry,
    d: Seq<Fe>,
) -> Seq<Fe> {
    match pa.bulletin.spec_call(e.tik) {
        Some(c) => {
            if e.expirable && fe_gt(c.1, e.expiration) {
                d
            } else {
                apply_methods(pa.cb_methods@, e.cb_method_id, c.0.spec_sub(e.enc_key.0), d)
            }
        },
        None => d,
    }
}

/// The data after the tickets of `es`, in order.
pub open spec fn applied_data<M: CallbackMethod, CB: PublicCallbackBul>(
    pa: PubScanArgs<M, CB>,
    d: Seq<Fe>,
    es: Seq<CallbackEntry>,
) -> Seq<Fe>
    decreases es.len(),
{
    if es.len() == 0 {
        d
    } else {
        slot_data(pa, es.last(), applied_data(pa, d, es.drop_last()))
    }
}

proof fn lemma_slots_chain<M: CallbackMethod, CB: PublicCallbackBul>(
    p: PoseidonParams,
    pa: PubScanArgs<M, CB>,
    u: UserModel,
    d0: Seq<Fe>,
    a: Seq<CallbackEntry>,
    b: Seq<CallbackCom>,
)
    requires
        u.0 == applied_data(pa, d0, a),
        u.1.old_in_progress_callback_hash == hash_chain(p, Fe::spec_zero(), a),
        u.1.new_in_progress_callback_hash == hash_chain(p, Fe::spec_zero(), pending_entries(pa, a)),
    ensures
        ({
            let s = scan_slots(p, pa, u, b);
            let ab = a + entries_of(b);
            &&& s.1.old_in_progress_callback_hash == hash_chain(p, Fe::spec_zero(), ab)
            &&& s.1.new_in_progress_callback_hash == hash_chain(p, Fe::spec_zero(), pending_entries(pa, ab))
            &&& same_fixed_fields(s.1, u.1)
            &&& s.0 == applied_data(pa, d0, ab)
        }),
    decreases b.len(),
{
    if b.len() == 0 {
        assert(a + entries_of(b) =~= a);
    } else {
        let bd = b.drop_last();
        lemma_slots_chain(p, pa, u, d0, a, bd);
        let e = b.last().cb_entry;
        let prev = a + entries_of(bd);
        assert(a + entries_of(b) =~= prev.push(e));
        assert(prev.push(e).drop_last() =~= prev);
        lemma_hash_chain_push(p, Fe::spec_zero(), prev, e);
        lemma_hash_chain_push(p, Fe::spec_zero(), pending_entries(pa, prev), e);
    }
}

proof fn lemma_flatten_prefix(batches: Seq<Seq<CallbackCom>>, j: int)
    requires
        0 <= j <= batches.len(),
        forall|i: int| 0 <= i < batches.len() ==> (#[trigger] batches[i]).len() > 0,
    ensures
        flatten(batches.take(j)) == flatten(batches).take(flatten(batches.take(j)).len() as int),
        flatten(batches.take(j)).len() <= flatten(batches).len(),
        j < batches.len() ==> flatten(batches.take(j)).len() < flatten(batches).len(),
    decreases batches.len(),
{
    if j == batches.len() {
        assert(batches.take(j) =~= batches);
        assert(flatten(batches).take(flatten(batches).len() as int) =~= flatten(batches));
    } else {
        let d = batches.drop_last();
        assert(batches.take(j) =~= d.take(j));
        assert forall|i: int| 0 <= i < d.len() implies (#[trigger] d[i]).len() > 0 by {
            assert(d[i] == batches[i]);
        }
        lemma_flatten_prefix(d, j);
        let fj = flatten(d.take(j));
        assert(batches.last().len() > 0);
        assert(flatten(batches) == flatten(d) + batches.last());
        assert(flatten(batches).take(fj.len() as int) =~= flatten(d).take(fj.len() as int));
    }
}

/// A closed user whose recorded chain covers the tickets of some batches, and
/// no shorter run of them, reaches a closed state again after scanning the
/// batches in order, however the tickets are split into batches; its recorded
/// chain is then the chain of exactly the tickets still pending.
pub proof fn lemma_scan_convergence<M: CallbackMethod, CB: PublicCallbackBul>(
    p: PoseidonParams,
    pa: PubScanArgs<M, CB>,
    u: UserModel,
    batches: Seq<Seq<CallbackCom>>,
)
    requires
        u.1.is_ingest_over,
        u.1.old_in_progress_callback_hash == u.1.callback_hash,
        u.1.new_in_progress_callback_hash == u.1.callback_hash,
        u.1.callback_hash == hash_chain(p, Fe::spec_zero(), entries_of(flatten(batches))),
        batches.len() >= 1,
        forall|i: int| 0 <= i < batches.len() ==> (#[trigger] batches[i]).len() > 0,
        forall|k: int|
            0 <= k < flatten(batches).len() ==> #[trigger] hash_chain(
                p,
                Fe::spec_zero(),
                entries_of(flatten(batches)).take(k),
            ) != u.1.callback_hash,
    ensures
        ({
            let r = scan_batches(p, pa, u, batches);
            let pending = pending_entries(pa, entries_of(flatten(batches)));
            &&& r.1.is_ingest_over
            &&& r.1.callback_hash == hash_chain(p, Fe::spec_zero(), pending)
            &&& r.1.old_in_progress_callback_hash == r.1.callback_hash
            &&& r.1.new_in_progress_callback_hash == r.1.callback_hash
            &&& r.1.nul == u.1.nul
            &&& r.1.com_rand == u.1.com_rand
            &&& r.0 == applied_data(pa, u.0, entries_of(flatten(batches)))
        }),
{
    lemma_scan_batches_progress(p, pa, u, batches, batches.len() as int);
    assert(batches.take(batches.len() as int) =~= batches);
}

/// However the same tickets are split into batches, scanning them in order
/// from the same closed user ends in the same user: same data, same chains,
/// same flags.
pub proof fn lemma_scan_chunking_independent<M: CallbackMethod, CB: PublicCallbackBul>(
    p: PoseidonParams,
    pa: PubScanArgs<M, CB>,
    u: UserModel,
    batches1: Seq<Seq<CallbackCom>>,
    batches2: Seq<Seq<CallbackCom>>,
)
    requires
        u.1.is_ingest_over,
        u.1.old_in_progress_callback_hash == u.1.callback_hash,
        u.1.new_in_progress_callback_hash == u.1.callback_hash,
        flatten(batches1) == flatten(batches2),
        u.1.callback_hash == hash_chain(p, Fe::spec_zero(), entries_of(flatten(batches1))),
        batches1.len() >= 1,
        batches2.len() >= 1,
        forall|i: int| 0 <= i < batches1.len() ==> (#[trigger] batches1[i]).len() > 0,
        forall|i: int| 0 <= i < batches2.len() ==> (#[trigger] batches2[i]).len() > 0,
        forall|k: int|
            0 <= k < flatten(batches1).len() ==> #[trigger] hash_chain(
                p,
                Fe::spec_zero(),
                entries_of(flatten(batches1)).take(k),
            ) != u.1.callback_hash,
    ensures
        scan_batches(p, pa, u, batches1) == scan_batches(p, pa, u, batches2),
{
    lemma_scan_convergence(p, pa, u, batches1);
    lemma_scan_convergence(p, pa, u, batches2);
}

proof fn lemma_scan_batches_progress<M: CallbackMethod, CB: PublicCallbackBul>(
    p: PoseidonParams,
    pa: PubScanArgs<M, CB>,
    u: UserModel,
    batches: Seq<Seq<CallbackCom>>,
    j: int,
)
    requires
        1 <= j <= batches.len(),
        u.1.is_ingest_over,
        u.1.old_in_progress_callback_hash == u.1.callback_hash,
        u.1.new_in_progress_callback_hash == u.1.callback_hash,
        u.1.callback_hash == hash_chain(p, Fe::spec_zero(), entries_of(flatten(batches))),
        forall|i: int| 0 <= i < batches.len() ==> (#[trigger] batches[i]).len() > 0,
        forall|k: int|
            0 <= k < flatten(batches).len() ==> #[trigger] hash_chain(
                p,
                Fe::spec_zero(),
                entries_of(flatten(batches)).take(k),
            ) != u.1.callback_hash,
    ensures
        ({
            let r = scan_batches(p, pa, u, batches.take(j));
            let a = entries_of(flatten(batches.take(j)));
            &&& r.1.nul == u.1.nul
            &&& r.1.com_rand == u.1.com_rand
            &&& r.0 == applied_data(pa, u.0, a)
            &&& j < batches.len() ==> {
                &&& !r.1.is_ingest_over
                &&& r.1.callback_hash == u.1.callback_hash
                &&& r.1.old_in_progress_callback_hash == hash_chain(p, Fe::spec_zero(), a)
                &&& r.1.new_in_progress_callback_hash == hash_chain(
                    p,
                    Fe::spec_zero(),
                    pending_entries(pa, a),
                )
            }
            &&& j == batches.len() ==> {
                let pending = pending_entries(pa, a);
                &&& r.1.is_ingest_over
                &&& r.1.callback_hash == hash_chain(p, Fe::spec_zero(), pending)
                &&& r.1.old_in_progress_callback_hash == r.1.callback_hash
                &&& r.1.new_in_progress_callback_hash == r.1.callback_hash
            }
        }),
    decreases j,
{
    let tj = batches.take(j);
    assert(tj.drop_last() =~= batches.take(j - 1));
    assert(tj.last() == batches[j - 1]);
    let b = batches[j - 1];
    let prev = scan_batches(p, pa, u, batches.take(j - 1));
    let a0 = entries_of(flatten(batches.take(j - 1)));
    if j == 1 {
        assert(batches.take(0) =~= Seq::<Seq<CallbackCom>>::empty());
        assert(a0 =~= Seq::<CallbackEntry>::empty());
        assert(prev == u);
        lemma_slots_chain(p, pa, open_epoch(u), u.0, a0, b);
    } else {
        lemma_scan_batches_progress(p, pa, u, batches, j - 1);
        lemma_slots_chain(p, pa, open_epoch(prev), u.0, a0, b);
    }
    assert(flatten(tj) == flatten(batches.take(j - 1)) + b);
    assert(entries_of(flatten(tj)) =~= a0 + entries_of(b));
    lemma_flatten_prefix(batches, j);
    let k = flatten(tj).len() as int;
    assert(entries_of(flatten(tj)) =~= entries_of(flatten(batches)).take(k));
    if j == batches.len() {
        assert(entries_of(flatten(batches)).take(k) =~= entries_of(flatten(batches)));
    }
}

} // verus!
