use zk_callbacks::bulletin::{
    interaction_public_inputs, BulError, CallbackBulletin, JoinableBulletin, PublicCallbackBul,
    PublicUserBul, UserBul,
};
use zk_callbacks::callbacks::{add_ticket_to_hc, Callback, CallbackCom, PlainTikCrypto, SetElement};
use zk_callbacks::central::{serialize_coms, CentralObjectStore, UnitVar};
use zk_callbacks::field::Fe;
use zk_callbacks::fold::{FoldInput, FoldingScan};
use zk_callbacks::hash::{gen_poseidon_params, PoseidonParams};
use zk_callbacks::interaction::{Interaction, TicketRand};
use zk_callbacks::memory::{CallbackStore, MemoryDb};
use zk_callbacks::scan::{scan_method, scan_predicate, PrivScanArgs, PubScanArgs};
use zk_callbacks::service::{ExecutedMethod, ServiceProvider};
use zk_callbacks::user::User;

fn fe(n: u64) -> Fe {
    Fe::from_u64(n)
}

fn params() -> PoseidonParams {
    gen_poseidon_params(2, false)
}

fn callback(id: u64, expirable: bool, expiration: u64) -> Callback<SetElement> {
    Callback { method_id: fe(id), expirable, expiration: fe(expiration), method: SetElement { index: 0 } }
}

fn rand(k: u64) -> TicketRand {
    TicketRand { rand: fe(1000 + k), enc_key: fe(2000 + k), com_rand: fe(3000 + k) }
}

/// A user holding two tokens, after one interaction per callback list.
fn registered_user(p: &PoseidonParams, cbs: Vec<Callback<SetElement>>) -> (User, ExecutedMethod<()>) {
    let u = User::create(vec![fe(1), fe(3)], fe(77), fe(88));
    let n = cbs.len() as u64;
    let inter = Interaction { meth: SetElement { index: 1 }, callbacks: cbs };
    let rands: Vec<TicketRand> = (0..n).map(rand).collect();
    u.interact(p, &inter, fe(5), &rands, fe(78), fe(89))
}

fn tickets_of(em: &ExecutedMethod<()>) -> Vec<CallbackCom> {
    em.cb_tik_list.iter().map(|t| t.0).collect()
}

fn priv_args(tickets: Vec<CallbackCom>, enc_args: Vec<Fe>, post_times: Vec<Fe>) -> PrivScanArgs<CallbackStore> {
    let n = tickets.len();
    PrivScanArgs { priv_n_tickets: tickets, enc_args, post_times, memb_priv: vec![(); n], nmemb_priv: vec![(); n] }
}

#[test]
fn create_user_is_closed_and_empty() {
    let u = User::create(vec![fe(1)], fe(2), fe(3));
    assert!(u.zk_fields.is_ingest_over);
    assert_eq!(u.zk_fields.callback_hash, Fe::zero());
    assert_eq!(u.nullify(), fe(2));
    let p = params();
    assert_eq!(u.commit(&p), p.hash(&vec![fe(1), fe(2), fe(3), fe(0), fe(0), fe(0), fe(1)]));
}

#[test]
fn interact_registers_tickets_in_order() {
    let p = params();
    let (u, em) = registered_user(&p, vec![callback(0, false, 0), callback(1, true, 5)]);
    assert_eq!(u.data, vec![fe(1), fe(5)]);
    assert_eq!(em.old_nullifier, fe(77));
    assert_eq!(u.nullify(), fe(78));
    assert_eq!(em.new_object, u.commit(&p));
    let t = tickets_of(&em);
    assert_eq!(t[0].cb_entry.tik, PlainTikCrypto(fe(1000)));
    assert_eq!(t[1].cb_entry.expiration, fe(5));
    let h1 = add_ticket_to_hc(&p, Fe::zero(), &t[0].cb_entry);
    let h2 = add_ticket_to_hc(&p, h1, &t[1].cb_entry);
    assert_eq!(u.zk_fields.callback_hash, h2);
}

#[test]
fn ledger_rejects_replayed_nullifier() {
    let p = params();
    let cb = callback(0, false, 0);
    let u0 = User::create(vec![fe(1), fe(3)], fe(10), fe(11));
    let inter = Interaction { meth: SetElement { index: 1 }, callbacks: vec![cb] };
    let (u1, em1) = u0.interact(&p, &inter, fe(5), &vec![rand(0)], fe(20), fe(21));
    let (_u2, em2) = u1.interact(&p, &inter, fe(6), &vec![rand(1)], fe(30), fe(31));
    assert_ne!(em1.old_nullifier, em2.old_nullifier);

    let mut store = CentralObjectStore(MemoryDb::new());
    let first = store.verify_interact_and_append(&em1.new_object, &em1.old_nullifier, &em1.cb_com_list, true);
    assert_eq!(first, Ok(()));
    assert!(!store.has_never_recieved_nul(&em1.old_nullifier));
    assert!(store.verify_in(&em1.new_object, &em1.old_nullifier, &em1.cb_com_list));

    let replay = store.verify_interact_and_append(&em1.new_object, &em1.old_nullifier, &em1.cb_com_list, true);
    assert_eq!(replay, Err(BulError::VerifyError));

    let second = store.verify_interact_and_append(&em2.new_object, &em2.old_nullifier, &em2.cb_com_list, true);
    assert_eq!(second, Ok(()));
}

#[test]
fn ledger_rejects_unaccepted_proof_without_change() {
    let p = params();
    let (_u, em) = registered_user(&p, vec![callback(0, false, 0)]);
    let mut store = CentralObjectStore(MemoryDb::new());
    let r = store.verify_interact_and_append(&em.new_object, &em.old_nullifier, &em.cb_com_list, false);
    assert_eq!(r, Err(BulError::VerifyError));
    assert!(store.has_never_recieved_nul(&em.old_nullifier));
    assert_eq!(store.0.nuls.len(), 0);
}

#[test]
fn ledger_join_records_object() {
    let mut store = CentralObjectStore(MemoryDb::new());
    assert_eq!(store.join_bul(&fe(9), ()), Ok(()));
    assert_eq!(store.0.objects.len(), 1);
    assert!(store.has_never_recieved_nul(&fe(9)));
}

#[test]
fn public_inputs_layout() {
    let v = interaction_public_inputs(fe(1), fe(2), &vec![fe(3)], &vec![fe(4), fe(5)], &vec![fe(6)]);
    assert_eq!(v, vec![fe(1), fe(2), fe(3), fe(4), fe(5), fe(6)]);
    assert_eq!(UnitVar.to_constraint_field(), vec![Fe::zero()]);
    assert_eq!(serialize_coms(&vec![fe(1), fe(2)]).len(), 64);
}

#[test]
fn callback_ledger_call_and_replay() {
    let mut cbul = CallbackStore::new(fe(4));
    let tik = PlainTikCrypto(fe(1000));
    assert_eq!(cbul.verify_call_and_append(&tik, fe(50)), Ok(()));
    assert_eq!(cbul.verify_in(&tik), Some((fe(50), fe(4))));
    assert!(cbul.enforce_membership_of(&tik, fe(50), fe(4), &(), &()));
    assert!(!cbul.enforce_membership_of(&tik, fe(51), fe(4), &(), &()));
    assert!(!cbul.enforce_nonmembership_of(&tik, &(), &()));
    assert_eq!(cbul.verify_call_and_append(&tik, fe(60)), Err(BulError::VerifyError));
    assert!(cbul.verify_not_in(&PlainTikCrypto(fe(1001))));
}

#[test]
fn callback_ledger_append_error() {
    let mut cbul = CallbackStore::new(fe(4));
    let bad = Fe { l0: u64::MAX, l1: u64::MAX, l2: u64::MAX, l3: u64::MAX };
    let r = cbul.verify_call_and_append(&PlainTikCrypto(fe(1)), bad);
    assert_eq!(r, Err(BulError::AppendError(())));
}

#[test]
fn scan_applies_called_and_carries_pending() {
    let p = params();
    let (u, em) = registered_user(&p, vec![callback(0, false, 0), callback(0, false, 0)]);
    let t = tickets_of(&em);
    let mut cbul = CallbackStore::new(fe(2));
    let provider = CentralObjectStore(MemoryDb::new());
    let (tik, ct) = provider.call(&t[0], fe(42));
    assert_eq!(ct, fe(42).add(&t[0].cb_entry.enc_key.0));
    cbul.verify_call_and_append(&tik, ct).unwrap();
    let pa = PubScanArgs { memb_pub: vec![(); 2], nmemb_pub: vec![(); 2], cur_time: fe(3), bulletin: cbul, cb_methods: vec![callback(0, false, 0)] };
    let out = scan_method(&p, &u, &pa, &priv_args(t.clone(), vec![fe(0), fe(0)], vec![fe(0), fe(0)]));
    assert_eq!(out.data, vec![fe(42), fe(5)]);
    assert!(out.zk_fields.is_ingest_over);
    let pending = add_ticket_to_hc(&p, Fe::zero(), &t[1].cb_entry);
    assert_eq!(out.zk_fields.callback_hash, pending);
    assert_eq!(out.zk_fields.old_in_progress_callback_hash, pending);
    assert_eq!(out.zk_fields.new_in_progress_callback_hash, pending);
}

#[test]
fn scan_convergence_any_chunking() {
    let p = params();
    let cbs = vec![callback(0, false, 0), callback(0, false, 0), callback(0, false, 0)];
    let (u, em) = registered_user(&p, cbs);
    let t = tickets_of(&em);
    let mut cbul = CallbackStore::new(fe(1));
    cbul.verify_call_and_append(&t[1].cb_entry.tik, t[1].cb_entry.enc_key.encrypt(fe(9))).unwrap();
    let pa = PubScanArgs { memb_pub: vec![(); 2], nmemb_pub: vec![(); 2], cur_time: fe(2), bulletin: cbul, cb_methods: vec![callback(0, false, 0)] };
    let batch = |r: std::ops::Range<usize>| {
        let n = r.len();
        priv_args(t[r].to_vec(), vec![fe(0); n], vec![fe(0); n])
    };

    let whole = scan_method(&p, &u, &pa, &batch(0..3));

    let a = scan_method(&p, &u, &pa, &batch(0..1));
    assert!(!a.zk_fields.is_ingest_over);
    let a = scan_method(&p, &a, &pa, &batch(1..2));
    assert!(!a.zk_fields.is_ingest_over);
    let a = scan_method(&p, &a, &pa, &batch(2..3));

    let b = scan_method(&p, &u, &pa, &batch(0..2));
    assert!(!b.zk_fields.is_ingest_over);
    let b = scan_method(&p, &b, &pa, &batch(2..3));

    let h0 = add_ticket_to_hc(&p, Fe::zero(), &t[0].cb_entry);
    let pending = add_ticket_to_hc(&p, h0, &t[2].cb_entry);
    for r in [&whole, &a, &b] {
        assert!(r.zk_fields.is_ingest_over);
        assert_eq!(r.zk_fields.callback_hash, pending);
        assert_eq!(r.data, vec![fe(9), fe(5)]);
    }
}

#[test]
fn rescan_of_closed_user_with_empty_batch() {
    let p = params();
    let u = User::create(vec![fe(1)], fe(2), fe(3));
    let pa = PubScanArgs { memb_pub: vec![(); 2], nmemb_pub: vec![(); 2], cur_time: fe(2), bulletin: CallbackStore::new(fe(1)), cb_methods: vec![callback(0, false, 0)] };
    let out = scan_method(&p, &u, &pa, &priv_args(vec![], vec![], vec![]));
    assert_eq!(out.zk_fields, u.zk_fields);
    assert_eq!(out.data, u.data);

    let (reg, _em) = registered_user(&p, vec![callback(0, false, 0)]);
    let out = scan_method(&p, &reg, &pa, &priv_args(vec![], vec![], vec![]));
    assert_eq!(out.zk_fields.callback_hash, reg.zk_fields.callback_hash);
}

#[test]
fn expired_tickets_are_dropped() {
    let p = params();
    let (u, em) = registered_user(&p, vec![callback(0, true, 5), callback(0, true, 5)]);
    let t = tickets_of(&em);
    let mut cbul = CallbackStore::new(fe(7));
    cbul.verify_call_and_append(&t[0].cb_entry.tik, t[0].cb_entry.enc_key.encrypt(fe(9))).unwrap();
    let pa = PubScanArgs { memb_pub: vec![(); 2], nmemb_pub: vec![(); 2], cur_time: fe(8), bulletin: cbul, cb_methods: vec![callback(0, true, 5)] };
    let out = scan_method(&p, &u, &pa, &priv_args(t.clone(), vec![fe(0); 2], vec![fe(0); 2]));
    assert_eq!(out.data, u.data);
    assert!(out.zk_fields.is_ingest_over);
    assert_eq!(out.zk_fields.callback_hash, Fe::zero());

    let pa_early = PubScanArgs { memb_pub: vec![(); 2], nmemb_pub: vec![(); 2], cur_time: fe(5), bulletin: CallbackStore::new(fe(5)), cb_methods: vec![callback(0, true, 5)] };
    let kept = scan_method(&p, &u, &pa_early, &priv_args(t.clone(), vec![fe(0); 2], vec![fe(0); 2]));
    assert_ne!(kept.zk_fields.callback_hash, Fe::zero());
}

#[test]
fn predicate_matches_native_scan() {
    let p = params();
    let (u, em) = registered_user(&p, vec![callback(0, false, 0), callback(0, true, 1)]);
    let t = tickets_of(&em);
    let mut cbul = CallbackStore::new(fe(3));
    let ct = t[0].cb_entry.enc_key.encrypt(fe(9));
    cbul.verify_call_and_append(&t[0].cb_entry.tik, ct).unwrap();
    let pa = PubScanArgs { memb_pub: vec![(); 2], nmemb_pub: vec![(); 2], cur_time: fe(4), bulletin: cbul, cb_methods: vec![callback(0, false, 0)] };
    let args = priv_args(t.clone(), vec![ct, fe(0)], vec![fe(3), fe(0)]);
    let native = scan_method(&p, &u, &pa, &args);
    assert!(scan_predicate(&p, &u, &native, &pa, &args));

    let mut wrong = native.clone();
    wrong.data[0] = fe(10);
    assert!(!scan_predicate(&p, &u, &wrong, &pa, &args));

    let bad_witness = priv_args(t.clone(), vec![ct, fe(0)], vec![fe(2), fe(0)]);
    assert!(!scan_predicate(&p, &u, &native, &pa, &bad_witness));
}

#[test]
fn folding_two_steps_matches_native_scans() {
    let p = params();
    let (u, em) = registered_user(&p, vec![callback(0, false, 0), callback(0, false, 0)]);
    let t = tickets_of(&em);
    let mut cbul = CallbackStore::new(fe(1));
    cbul.verify_call_and_append(&t[0].cb_entry.tik, t[0].cb_entry.enc_key.encrypt(fe(9))).unwrap();
    let pa = PubScanArgs { memb_pub: vec![(); 2], nmemb_pub: vec![(); 2], cur_time: fe(2), bulletin: cbul, cb_methods: vec![callback(0, false, 0)] };
    let fs = FoldingScan::new(pa, CentralObjectStore(MemoryDb::new()), p.clone());
    assert_eq!(fs.state_len(), 3);
    let hid = fe(555);
    let blind = |c: Fe, n: Fe| p.hash(&vec![c, n]);
    let z0 = vec![blind(u.commit(&p), fe(1)), blind(hid, fe(1)), fe(2)];

    let step0 = FoldInput {
        user: u.clone(),
        scan_args: priv_args(vec![t[0]], vec![fe(0)], vec![fe(0)]),
        nul: fe(500),
        com_rand: fe(501),
        nonce: fe(1),
        post_nonce: fe(2),
        hid_old_com: hid,
    };
    let z1 = fs.generate_step_constraints(&z0, &step0).unwrap();

    let mut n1 = scan_method(&p, &u, &fs.const_args, &step0.scan_args);
    n1.zk_fields.nul = fe(500);
    n1.zk_fields.com_rand = fe(501);
    let step1 = FoldInput {
        user: n1.clone(),
        scan_args: priv_args(vec![t[1]], vec![fe(0)], vec![fe(0)]),
        nul: fe(600),
        com_rand: fe(601),
        nonce: fe(2),
        post_nonce: fe(3),
        hid_old_com: hid,
    };
    let z2 = fs.generate_step_constraints(&z1, &step1).unwrap();

    let mut n2 = scan_method(&p, &n1, &fs.const_args, &step1.scan_args);
    n2.zk_fields.nul = fe(600);
    n2.zk_fields.com_rand = fe(601);
    assert!(n2.zk_fields.is_ingest_over);
    assert_eq!(n2.data, vec![fe(9), fe(5)]);
    assert_eq!(z2, vec![blind(n2.commit(&p), fe(3)), blind(hid, fe(3)), fe(2)]);

    let stale = FoldInput { nonce: fe(7), ..step1 };
    assert!(fs.generate_step_constraints(&z1, &stale).is_none());
    assert!(fs.generate_step_constraints(&vec![fe(0)], &step0).is_none());
}

#[test]
fn service_approves_authentic_fresh_tickets() {
    let p = params();
    let (_u, em) = registered_user(&p, vec![callback(0, false, 0)]);
    let mut bul = CentralObjectStore(MemoryDb::new());
    bul.verify_interact_and_append(&em.new_object, &em.old_nullifier, &em.cb_com_list, true).unwrap();
    let mut provider = CentralObjectStore(MemoryDb::new());
    let sk = PlainTikCrypto(Fe::zero());
    assert!(provider.approve_interaction(&em, sk, &bul, true));
    assert!(!provider.approve_interaction(&em, sk, &bul, false));
    assert_eq!(provider.approve_interaction_and_store(&em, sk, &bul, true, 332), Ok(()));
    assert!(!ServiceProvider::has_never_recieved_tik(&provider, &em.cb_tik_list[0].0.cb_entry.tik));
    assert_eq!(provider.approve_interaction_and_store(&em, sk, &bul, true, 333), Err(BulError::VerifyError));

    let mut forged = ExecutedMethod { cb_tik_list: em.cb_tik_list.clone(), ..em };
    forged.cb_tik_list[0].1 = fe(1);
    let fresh = CentralObjectStore(MemoryDb::new());
    assert!(!fresh.approve_interaction(&forged, sk, &bul, true));
    let empty = CentralObjectStore(MemoryDb::new());
    assert!(!fresh.approve_interaction(&forged, sk, &empty, true));
}

#[test]
fn ticket_encoding_round_trip() {
    let p = params();
    let (_u, em) = registered_user(&p, vec![callback(3, true, 9)]);
    let c = em.cb_tik_list[0].0;
    let b = c.to_bytes();
    assert_eq!(b.len(), 161);
    assert_eq!(b[96], 1);
    assert_eq!(CallbackCom::from_bytes(&b), Some(c));
    let mut bad_flag = b.clone();
    bad_flag[96] = 2;
    assert_eq!(CallbackCom::from_bytes(&bad_flag), None);
    assert_eq!(CallbackCom::from_bytes(&b[..160]), None);
    let mut not_canonical = b.clone();
    for x in not_canonical[0..32].iter_mut() {
        *x = 0xff;
    }
    assert_eq!(CallbackCom::from_bytes(&not_canonical), None);
    assert_eq!(Fe::from_bytes(&b, 129), c.com_rand);
}

#[test]
fn central_store_calls_encoded_ticket() {
    let p = params();
    let (_u, em) = registered_user(&p, vec![callback(0, false, 0)]);
    let c = em.cb_tik_list[0].0;
    let mut store = CentralObjectStore(MemoryDb::new());
    assert_eq!(store.call_ticket(&c.to_bytes(), fe(42)), Ok(()));
    let ct = c.cb_entry.enc_key.encrypt(fe(42));
    assert!(store.ticket_called(&c.cb_entry.tik, ct));
    assert!(!store.ticket_called(&c.cb_entry.tik, fe(42)));
    assert_eq!(store.call_ticket(&[0u8; 3], fe(42)), Err(BulError::VerifyError));
}

#[test]
fn pub_scan_args_public_inputs() {
    let pa = PubScanArgs { memb_pub: vec![(); 2], nmemb_pub: vec![(); 2], cur_time: fe(12), bulletin: CallbackStore::new(fe(1)), cb_methods: vec![callback(0, false, 0)] };
    assert_eq!(pa.to_field_elements(), vec![fe(12)]);
    let d: PrivScanArgs<CallbackStore> = PrivScanArgs::default();
    assert!(d.priv_n_tickets.is_empty() && d.enc_args.is_empty() && d.post_times.is_empty());
}

#[test]
fn central_store_refuses_second_call_of_ticket() {
    let p = params();
    let (_u, em) = registered_user(&p, vec![callback(0, false, 0)]);
    let c = em.cb_tik_list[0].0;
    let mut store = CentralObjectStore(MemoryDb::new());
    assert!(CallbackBulletin::has_never_recieved_tik(&store, &c.cb_entry.tik));
    assert_eq!(store.call_ticket(&c.to_bytes(), fe(42)), Ok(()));
    assert!(!CallbackBulletin::has_never_recieved_tik(&store, &c.cb_entry.tik));
    assert_eq!(store.call_ticket(&c.to_bytes(), fe(43)), Err(BulError::VerifyError));
    let ct = c.cb_entry.enc_key.encrypt(fe(43));
    assert!(!store.ticket_called(&c.cb_entry.tik, ct));
    assert_eq!(store.0.calls.len(), 1);
}

#[test]
fn approve_and_store_marks_tickets_seen() {
    let p = params();
    let (_u, em) = registered_user(&p, vec![callback(0, false, 0), callback(1, true, 4)]);
    let mut bul = CentralObjectStore(MemoryDb::new());
    bul.verify_interact_and_append(&em.new_object, &em.old_nullifier, &em.cb_com_list, true).unwrap();
    let mut provider = CentralObjectStore(MemoryDb::new());
    let sk = PlainTikCrypto(Fe::zero());
    assert_eq!(provider.approve_interaction_and_store(&em, sk, &bul, true, 7), Ok(()));
    for t in em.cb_tik_list.iter() {
        assert!(!ServiceProvider::has_never_recieved_tik(&provider, &t.0.cb_entry.tik));
    }
    assert_eq!(provider.0.tickets.len(), 2);
}

#[test]
fn field_arithmetic_wraps_at_modulus() {
    let p_minus_one = fe(0).sub(&fe(1));
    assert_eq!(p_minus_one.add(&fe(1)), fe(0));
    assert_eq!(p_minus_one.add(&p_minus_one), fe(0).sub(&fe(2)));
    let k = PlainTikCrypto(p_minus_one);
    assert_eq!(k.decrypt(k.encrypt(fe(77))), fe(77));
}

#[test]
fn stored_tickets_can_be_called_back() {
    let p = params();
    let (_u, em) = registered_user(&p, vec![callback(0, false, 0), callback(1, true, 4)]);
    let mut bul = CentralObjectStore(MemoryDb::new());
    bul.verify_interact_and_append(&em.new_object, &em.old_nullifier, &em.cb_com_list, true).unwrap();
    let mut provider = CentralObjectStore(MemoryDb::new());
    let sk = PlainTikCrypto(Fe::zero());
    assert_eq!(provider.approve_interaction_and_store(&em, sk, &bul, true, 9), Ok(()));
    assert_eq!(provider.0.tickets.len(), 2);
    assert_eq!(provider.0.tickets[0], em.cb_tik_list[0].0.to_bytes());
    assert_eq!(provider.0.tickets[1], em.cb_tik_list[1].0.to_bytes());
    assert_eq!(provider.0.keys[1], em.cb_tik_list[1].0.cb_entry.tik.0.to_bytes());
    let rec = &provider.0.interactions[0];
    assert_eq!(rec.len(), 8 + 32 + 32 + 2 * 32 + 2 * (161 + 32));
    assert_eq!(rec[0..8].to_vec(), 9u64.to_le_bytes().to_vec());
    assert_eq!(rec[8..40].to_vec(), em.new_object.to_bytes());
    let stored = provider.0.tickets[0].clone();
    assert_eq!(provider.call_ticket(&stored, fe(5)), Ok(()));
    let c = em.cb_tik_list[0].0;
    assert!(provider.ticket_called(&c.cb_entry.tik, c.cb_entry.enc_key.encrypt(fe(5))));
}
