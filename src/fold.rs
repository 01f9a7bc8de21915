use vstd::prelude::*;
use crate::bulletin::{PublicCallbackBul, PublicUserBul};
use crate::callbacks::CallbackMethod;
use crate::field::{Com, Fe, Nul};
use crate::hash::PoseidonParams;
use crate::scan::{
    lemma_native_circuit_equivalence, scan_method_at, scan_relation, spec_scan, tickets_wf,
    with_time, witnesses_valid, PrivScanArgs, PubScanArgs, UserModel,
};
use crate::user::{spec_commit, User, ZkFields};

verus! {

/// One scan application as a step of an incremental proof. The running state
/// is three field elements: the hash of the user's commitment with a step
/// nonce, the hash of a hidden old commitment with the same nonce, and the
/// current time.
pub struct FoldingScan<M, CB: PublicCallbackBul, B> {
    /// The public arguments of every scan step.
    pub const_args: PubScanArgs<M, CB>,
    /// The object ledger whose public membership data every step checks
    /// the hidden old commitment against.
    pub const_memb: B,
    /// The hash parameters.
    pub params: PoseidonParams,
}

/// The outside input of one folding step.
pub struct FoldInput<CB: PublicCallbackBul> {
    /// The user before the step.
    pub user: User,
    /// The batch of tickets scanned in this step.
    pub scan_args: PrivScanArgs<CB>,
    /// The user's new nullifier.
    pub nul: Nul,
    /// The user's new commitment randomness.
    pub com_rand: Fe,
    /// The nonce that the running state was hashed with.
    pub nonce: Fe,
    /// The nonce for the next running state.
    pub post_nonce: Fe,
    /// The hidden commitment to the user's old record.
    pub hid_old_com: Com,
}

impl<CB: PublicCallbackBul> Default for FoldInput<CB> {
    /// An input of an empty user and an empty batch, with zero keys, nonces
    /// and hidden commitment.
    fn default() -> (r: FoldInput<CB>)
        ensures
            r.user@ == User::spec_create(Seq::empty(), Fe::spec_zero(), Fe::spec_zero()),
            r.scan_args.priv_n_tickets@.len() == 0,
            r.scan_args.enc_args@.len() == 0,
            r.scan_args.post_times@.len() == 0,
            r.scan_args.memb_priv@.len() == 0,
            r.scan_args.nmemb_priv@.len() == 0,
            r.nul == Fe::spec_zero(),
            r.com_rand == Fe::spec_zero(),
            r.nonce == Fe::spec_zero(),
            r.post_nonce == Fe::spec_zero(),
            r.hid_old_com == Fe::spec_zero(),
    {
        FoldInput {
            user: User::create(Vec::new(), Fe::zero(), Fe::zero()),
            scan_args: PrivScanArgs::default(),
            nul: Fe::zero(),
            com_rand: Fe::zero(),
            nonce: Fe::zero(),
            post_nonce: Fe::zero(),
            hid_old_com: Fe::zero(),
        }
    }
}

impl<CB: PublicCallbackBul> FoldInput<CB> {
    pub open spec fn wf(&self) -> bool {
        &&& self.user.wf()
        &&& tickets_wf(self.scan_args.priv_n_tickets@)
        &&& self.nul.wf()
        &&& self.com_rand.wf()
        &&& self.nonce.wf()
        &&& self.post_nonce.wf()
        &&& self.hid_old_com.wf()
    }
}

/// The user `u` with a fresh nullifier and commitment randomness.
pub open spec fn rekeyed(u: UserModel, nul: Nul, com_rand: Fe) -> UserModel {
    (u.0, ZkFields { nul, com_rand, ..u.1 })
}

/// The hash of a commitment with a nonce.
pub open spec fn blinded(p: PoseidonParams, com: Com, nonce: Fe) -> Fe {
    p.spec_hash(seq![com, nonce])
}

/// The user that a step produces: the scanned user, rekeyed.
pub open spec fn step_user<M: CallbackMethod, CB: PublicCallbackBul, B>(
    fs: FoldingScan<M, CB, B>,
    t: Fe,
    input: FoldInput<CB>,
) -> UserModel {
    rekeyed(
        spec_scan(fs.params, with_time(fs.const_args, t), input.user@, input.scan_args.priv_n_tickets@),
        input.nul,
        input.com_rand,
    )
}

/// One folding step on running state `z`: it is satisfiable when `z` is
/// three elements, binds the input user and the hidden old commitment under
/// the input nonce, and the hidden commitment is a ledger member; the next
/// state binds the scanned user and the same hidden commitment under the
/// next nonce, and keeps the time.
pub open spec fn spec_step<M: CallbackMethod, CB: PublicCallbackBul, B: PublicUserBul>(
    fs: FoldingScan<M, CB, B>,
    z: Seq<Fe>,
    input: FoldInput<CB>,
) -> Option<Seq<Fe>> {
    let p = fs.params;
    if z.len() == 3 && z[0] == blinded(p, spec_commit(p, input.user@), input.nonce) && z[1] == blinded(
        p,
        input.hid_old_com,
        input.nonce,
    ) && fs.const_memb.spec_member(input.hid_old_com) {
        Some(
            seq![
                blinded(p, spec_commit(p, step_user(fs, z[2], input)), input.post_nonce),
                blinded(p, input.hid_old_com, input.post_nonce),
                z[2],
            ],
        )
    } else {
        None
    }
}

impl<M: CallbackMethod, CB: PublicCallbackBul, B: PublicUserBul> FoldingScan<M, CB, B> {
    pub open spec fn wf(&self) -> bool {
        self.params.wf() && self.const_args.wf()
    }

    /// The step circuit for the given scan arguments, membership data and
    /// hash parameters.
    pub fn new(const_args: PubScanArgs<M, CB>, const_memb: B, params: PoseidonParams) -> (r: Self)
        ensures
            r == (FoldingScan { const_args, const_memb, params }),
    {
        FoldingScan { const_args, const_memb, params }
    }

    /// The running state has three elements.
    pub fn state_len(&self) -> (r: usize)
        ensures
            r == 3,
    {
        3
    }

    /// Hashes a commitment with a nonce.
    fn blind(&self, com: Com, nonce: Fe) -> (r: Fe)
        requires
            self.params.wf(),
            com.wf(),
            nonce.wf(),
        ensures
            r == blinded(self.params, com, nonce),
            r.wf(),
    {
        let mut v: Vec<Fe> = Vec::new();
        v.push(com);
        v.push(nonce);
        proof {
            assert(v@ =~= seq![com, nonce]);
        }
        self.params.hash(&v)
    }

    /// Runs one step on running state `z`: `None` where the step's
    /// constraints cannot be met, else the next running state.
    pub fn generate_step_constraints(&self, z: &Vec<Fe>, input: &FoldInput<CB>) -> (r: Option<Vec<Fe>>)
        requires
            self.wf(),
            input.wf(),
            forall|i: int| 0 <= i < z@.len() ==> (#[trigger] z@[i]).wf(),
        ensures
            match r {
                Some(v) => spec_step(*self, z@, *input) == Some(v@),
                None => spec_step(*self, z@, *input) is None,
            },
            r matches Some(v) ==> forall|i: int| 0 <= i < v@.len() ==> (#[trigger] v@[i]).wf(),
    {
        if z.len() != 3 {
            return None;
        }
        let p = &self.params;
        let cu = input.user.commit(p);
        if z[0] != self.blind(cu, input.nonce) {
            return None;
        }
        if z[1] != self.blind(input.hid_old_com, input.nonce) {
            return None;
        }
        if !self.const_memb.enforce_membership_of(&input.hid_old_com) {
            return None;
        }
        let t = z[2];
        assert(t.wf());
        let mut new_user = scan_method_at(p, &input.user, &self.const_args, t, &input.scan_args);
        new_user.zk_fields.nul = input.nul;
        new_user.zk_fields.com_rand = input.com_rand;
        let c = new_user.commit(p);
        let mut out: Vec<Fe> = Vec::new();
        out.push(self.blind(c, input.post_nonce));
        out.push(self.blind(input.hid_old_com, input.post_nonce));
        out.push(t);
        proof {
            assert(new_user@ == step_user(*self, z@[2], *input));
            assert(out@ =~= spec_step(*self, z@, *input)->Some_0);
        }
        Some(out)
    }
}

/// The state of a folded run from `z` over two steps.
pub open spec fn spec_fold_two<M: CallbackMethod, CB: PublicCallbackBul, B: PublicUserBul>(
    fs: FoldingScan<M, CB, B>,
    z: Seq<Fe>,
    first: FoldInput<CB>,
    second: FoldInput<CB>,
) -> Option<Seq<Fe>> {
    match spec_step(fs, z, first) {
        Some(z1) => spec_step(fs, z1, second),
        None => None,
    }
}

/// Folding two chained scan steps agrees with two native scans. Start from a
/// state that binds a user and a member hidden commitment, and let the second
/// step take the user that the first produced, the first step's next nonce
/// and the same hidden commitment. Then both steps are satisfiable, the final
/// state binds the user of the two native scans run one after the other, and
/// for witnesses that agree with the ledger each native scan meets the
/// non-folded scan relation.
pub proof fn lemma_folding_equivalence<M: CallbackMethod, CB: PublicCallbackBul, B: PublicUserBul>(
    fs: FoldingScan<M, CB, B>,
    z: Seq<Fe>,
    first: FoldInput<CB>,
    second: FoldInput<CB>,
)
    requires
        z.len() == 3,
        z[0] == blinded(fs.params, spec_commit(fs.params, first.user@), first.nonce),
        z[1] == blinded(fs.params, first.hid_old_com, first.nonce),
        fs.const_memb.spec_member(first.hid_old_com),
        second.user@ == step_user(fs, z[2], first),
        second.nonce == first.post_nonce,
        second.hid_old_com == first.hid_old_com,
    ensures
        ({
            let pa = with_time(fs.const_args, z[2]);
            let u1 = spec_scan(fs.params, pa, first.user@, first.scan_args.priv_n_tickets@);
            let u2 = spec_scan(
                fs.params,
                pa,
                rekeyed(u1, first.nul, first.com_rand),
                second.scan_args.priv_n_tickets@,
            );
            let v = rekeyed(u2, second.nul, second.com_rand);
            &&& spec_fold_two(fs, z, first, second) == Some(
                seq![
                    blinded(fs.params, spec_commit(fs.params, v), second.post_nonce),
                    blinded(fs.params, first.hid_old_com, second.post_nonce),
                    z[2],
                ],
            )
            &&& first.scan_args.enc_args@.len() == first.scan_args.priv_n_tickets@.len()
                && first.scan_args.post_times@.len() == first.scan_args.priv_n_tickets@.len()
                && witnesses_valid(pa, first.scan_args) ==> scan_relation(
                fs.params,
                pa,
                first.scan_args,
                first.user@,
                u1,
            )
            &&& second.scan_args.enc_args@.len() == second.scan_args.priv_n_tickets@.len()
                && second.scan_args.post_times@.len() == second.scan_args.priv_n_tickets@.len()
                && witnesses_valid(pa, second.scan_args) ==> scan_relation(
                fs.params,
                pa,
                second.scan_args,
                rekeyed(u1, first.nul, first.com_rand),
                u2,
            )
        }),
{
    let pa = with_time(fs.const_args, z[2]);
    let z1 = spec_step(fs, z, first)->Some_0;
    assert(z1[2] == z[2]);
    let u1 = spec_scan(fs.params, pa, first.user@, first.scan_args.priv_n_tickets@);
    let u2 = spec_scan(fs.params, pa, rekeyed(u1, first.nul, first.com_rand), second.scan_args.priv_n_tickets@);
    if first.scan_args.enc_args@.len() == first.scan_args.priv_n_tickets@.len()
        && first.scan_args.post_times@.len() == first.scan_args.priv_n_tickets@.len()
        && witnesses_valid(pa, first.scan_args) {
        lemma_native_circuit_equivalence(fs.params, pa, first.scan_args, first.user@, u1);
    }
    if second.scan_args.enc_args@.len() == second.scan_args.priv_n_tickets@.len()
        && second.scan_args.post_times@.len() == second.scan_args.priv_n_tickets@.len()
        && witnesses_valid(pa, second.scan_args) {
        lemma_native_circuit_equivalence(
            fs.params,
            pa,
            second.scan_args,
            rekeyed(u1, first.nul, first.com_rand),
            u2,
        );
    }
}

/// A folded run of two steps is accepted only on inputs that the hashes bind
/// together: the start state binds the first user and a member hidden
/// commitment, the first step's next state binds the second step's user and
/// nonce under the same hidden commitment, and the final state binds the
/// second native scan of that user. With a binding hash the second user is
/// therefore the first native scan, rekeyed.
pub proof fn lemma_fold_two_binds_inputs<M: CallbackMethod, CB: PublicCallbackBul, B: PublicUserBul>(
    fs: FoldingScan<M, CB, B>,
    z: Seq<Fe>,
    first: FoldInput<CB>,
    second: FoldInput<CB>,
)
    requires
        spec_fold_two(fs, z, first, second) is Some,
    ensures
        z.len() == 3,
        z[0] == blinded(fs.params, spec_commit(fs.params, first.user@), first.nonce),
        z[1] == blinded(fs.params, first.hid_old_com, first.nonce),
        fs.const_memb.spec_member(first.hid_old_com),
        fs.const_memb.spec_member(second.hid_old_com),
        blinded(fs.params, spec_commit(fs.params, step_user(fs, z[2], first)), first.post_nonce)
            == blinded(fs.params, spec_commit(fs.params, second.user@), second.nonce),
        blinded(fs.params, first.hid_old_com, first.post_nonce) == blinded(
            fs.params,
            second.hid_old_com,
            second.nonce,
        ),
        spec_fold_two(fs, z, first, second) == Some(
            seq![
                blinded(fs.params, spec_commit(fs.params, step_user(fs, z[2], second)), second.post_nonce),
                blinded(fs.params, second.hid_old_com, second.post_nonce),
                z[2],
            ],
        ),
{
    let z1 = spec_step(fs, z, first)->Some_0;
    assert(z1[0] == blinded(fs.params, spec_commit(fs.params, step_user(fs, z[2], first)), first.post_nonce));
    assert(z1[1] == blinded(fs.params, first.hid_old_com, first.post_nonce));
    assert(z1[2] == z[2]);
}

} // verus!
