use zk_callbacks::callbacks::{add_ticket_to_hc, CallbackEntry, PlainTikCrypto};
use zk_callbacks::field::Fe;
use zk_callbacks::hash::gen_poseidon_params;

fn fe(n: u64) -> Fe {
    Fe::from_u64(n)
}

#[test]
fn field_from_u64_limbs() {
    let x = fe(300);
    assert_eq!((x.l0, x.l1, x.l2, x.l3), (300, 0, 0, 0));
    assert_eq!(Fe::zero(), fe(0));
    assert_eq!(Fe::from_bool(true), fe(1));
    assert_eq!(Fe::from_bool(false), fe(0));
}

#[test]
fn field_order_is_integer_order() {
    assert!(fe(7).gt(&fe(5)));
    assert!(!fe(5).gt(&fe(7)));
    assert!(!fe(5).gt(&fe(5)));
    let big = Fe { l0: 0, l1: 1, l2: 0, l3: 0 };
    assert!(big.gt(&fe(u64::MAX)));
}

#[test]
fn field_canonical_bound() {
    assert!(fe(123).is_canonical());
    let p = Fe { l0: 0x43e1f593f0000001, l1: 0x2833e84879b97091, l2: 0xb85045b68181585d, l3: 0x30644e72e131a029 };
    assert!(!p.is_canonical());
    let p_minus_one = Fe { l0: 0x43e1f593f0000000, ..p };
    assert!(p_minus_one.is_canonical());
}

#[test]
fn field_bytes_little_endian() {
    let b = Fe { l0: 0x0102, l1: 0, l2: 0, l3: 0xff }.to_bytes();
    assert_eq!(b.len(), 32);
    assert_eq!(b[0], 0x02);
    assert_eq!(b[1], 0x01);
    assert_eq!(b[24], 0xff);
    assert_eq!(b[31], 0);
}

#[test]
fn field_add_and_sub() {
    assert_eq!(fe(5).sub(&fe(3)), fe(2));
    assert_eq!(fe(5).add(&fe(3)), fe(8));
    let minus_two = fe(3).sub(&fe(5));
    assert_eq!(
        minus_two,
        Fe { l0: 0x43e1f593efffffff, l1: 0x2833e84879b97091, l2: 0xb85045b68181585d, l3: 0x30644e72e131a029 }
    );
    assert_eq!(minus_two.add(&fe(2)), fe(0));
}

#[test]
fn plain_ticket_crypto_round_trip() {
    let key = PlainTikCrypto(fe(11));
    let ct = key.encrypt(fe(42));
    assert_eq!(ct, fe(53));
    assert_eq!(key.decrypt(ct), fe(42));
    assert_eq!(key.rerand(fe(9)), PlainTikCrypto(fe(9)));
    assert_eq!(key.sk_to_pk(), key);
}

#[test]
fn poseidon_params_shapes() {
    let p = gen_poseidon_params(2, false);
    assert_eq!((p.full_rounds, p.partial_rounds, p.alpha, p.rate, p.capacity), (8, 31, 17, 2, 1));
    assert_eq!(p.ark.len(), 39);
    assert!(p.ark.iter().all(|r| r.len() == 3));
    assert_eq!(p.mds.len(), 3);
    assert!(p.mds.iter().all(|r| r.len() == 3));
    let w = gen_poseidon_params(5, true);
    assert_eq!((w.full_rounds, w.partial_rounds, w.alpha, w.rate), (8, 13, 257, 5));
    assert_eq!(w.mds.len(), 6);
}

#[test]
fn poseidon_hash_is_deterministic_and_input_sensitive() {
    let p = gen_poseidon_params(2, false);
    let a = p.hash(&vec![fe(1), fe(2)]);
    let b = p.hash(&vec![fe(1), fe(2)]);
    let c = p.hash(&vec![fe(2), fe(1)]);
    assert_eq!(a, b);
    assert_ne!(a, c);
    assert_ne!(a, fe(1));
    assert!(a.is_canonical());
}

#[test]
fn hash_chain_step_depends_on_ticket() {
    let p = gen_poseidon_params(2, false);
    let e = CallbackEntry {
        tik: PlainTikCrypto(fe(3)),
        enc_key: PlainTikCrypto(fe(4)),
        cb_method_id: fe(0),
        expirable: false,
        expiration: fe(0),
    };
    let h1 = add_ticket_to_hc(&p, Fe::zero(), &e);
    let expected = p.hash(&vec![Fe::zero(), fe(3), fe(4), fe(0), fe(0), fe(0)]);
    assert_eq!(h1, expected);
    let e2 = CallbackEntry { expirable: true, ..e };
    assert_ne!(add_ticket_to_hc(&p, Fe::zero(), &e2), h1);
}
