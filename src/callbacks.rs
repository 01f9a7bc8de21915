use vstd::prelude::*;
use crate::field::{fe_bytes, fe_from_bytes, lemma_fe_bytes_round_trip, Fe, Id, Time};
use crate::hash::PoseidonParams;

verus! {

/// The centralized ticket scheme: a ticket key is a field element; the
/// ciphertext of `m` under key `k` is `m + k`, and signatures are trivial.
#[derive(Clone, Copy, Debug, PartialEq, Eq, Structural)]
pub struct PlainTikCrypto(pub Fe);

impl PlainTikCrypto {
    pub open spec fn wf(self) -> bool {
        self.0.wf()
    }

    /// Encrypts `message`: `message + key`.
    pub fn encrypt(&self, message: Fe) -> (r: Fe)
        requires
            self.wf(),
            message.wf(),
        ensures
            r == message.spec_add(self.0),
            r.wf(),
    {
        message.add(&self.0)
    }

    /// Decrypts `ciphertext`: `ciphertext - key`.
    pub fn decrypt(&self, ciphertext: Fe) -> (r: Fe)
        requires
            self.wf(),
            ciphertext.wf(),
        ensures
            r == ciphertext.spec_sub(self.0),
            r.wf(),
    {
        ciphertext.sub(&self.0)
    }

    /// The rerandomized signing key for randomness `rand`.
    pub fn rerand(&self, rand: Fe) -> (r: PlainTikCrypto)
        ensures
            r == PlainTikCrypto(rand),
    {
        PlainTikCrypto(rand)
    }

    /// The public key of a signing key: the key itself.
    pub fn sk_to_pk(&self) -> (r: PlainTikCrypto)
        ensures
            r == *self,
    {
        *self
    }

    /// Signature check: every message is accepted.
    pub fn verify(&self, _message: Fe) -> (r: bool)
        ensures
            r,
    {
        true
    }
}

/// A registered callback ticket: the ticket's verification key, its
/// encryption key, the method it calls and its expiry.
#[derive(Clone, Copy, Debug, PartialEq, Eq, Structural)]
pub struct CallbackEntry {
    pub tik: PlainTikCrypto,
    pub enc_key: PlainTikCrypto,
    pub cb_method_id: Id,
    pub expirable: bool,
    pub expiration: Time,
}

/// A ticket together with the randomness of its commitment.
#[derive(Clone, Copy, Debug, PartialEq, Eq, Structural)]
pub struct CallbackCom {
    pub cb_entry: CallbackEntry,
    pub com_rand: Fe,
}

impl CallbackEntry {
    pub open spec fn wf(self) -> bool {
        &&& self.tik.wf()
        &&& self.enc_key.wf()
        &&& self.cb_method_id.wf()
        &&& self.expiration.wf()
    }

    /// The field elements that stand for the ticket in the hash chain.
    pub open spec fn spec_elements(self) -> Seq<Fe> {
        seq![
            self.tik.0,
            self.enc_key.0,
            self.cb_method_id,
            Fe::spec_from_bool(self.expirable),
            self.expiration,
        ]
    }
}

/// All elements of a sequence are canonical.
pub open spec fn all_wf(s: Seq<Fe>) -> bool {
    forall|i: int| 0 <= i < s.len() ==> (#[trigger] s[i]).wf()
}

/// One link of the hash chain: `hash(hc, ticket elements)`.
pub open spec fn hc_step(p: PoseidonParams, hc: Fe, e: CallbackEntry) -> Fe {
    p.spec_hash(seq![hc] + e.spec_elements())
}

/// The hash chain that starts at `h` and takes in the tickets of `es` in order.
pub open spec fn hash_chain(p: PoseidonParams, h: Fe, es: Seq<CallbackEntry>) -> Fe
    decreases es.len(),
{
    if es.len() == 0 {
        h
    } else {
        hc_step(p, hash_chain(p, h, es.drop_last()), es.last())
    }
}

/// The entries of a sequence of ticket commitments.
pub open spec fn entries_of(tickets: Seq<CallbackCom>) -> Seq<CallbackEntry> {
    tickets.map_values(|t: CallbackCom| t.cb_entry)
}

pub proof fn lemma_hash_chain_push(p: PoseidonParams, h: Fe, es: Seq<CallbackEntry>, e: CallbackEntry)
    ensures
        hash_chain(p, h, es.push(e)) == hc_step(p, hash_chain(p, h, es), e),
{
    assert(es.push(e).drop_last() =~= es);
}

/// Chaining `a` and then `b` is chaining `a + b`: the tickets of successive
/// interactions accumulate into one chain, in registration order.
pub proof fn lemma_hash_chain_append(p: PoseidonParams, h: Fe, a: Seq<CallbackEntry>, b: Seq<CallbackEntry>)
    ensures
        hash_chain(p, hash_chain(p, h, a), b) == hash_chain(p, h, a + b),
    decreases b.len(),
{
    if b.len() > 0 {
        lemma_hash_chain_append(p, h, a, b.drop_last());
        assert((a + b).drop_last() =~= a + b.drop_last());
        assert((a + b).last() == b.last());
    } else {
        assert(a + b =~= a);
    }
}

/// Takes one ticket into a hash chain: `hash(hc, ticket elements)`.
pub fn add_ticket_to_hc(p: &PoseidonParams, hc: Fe, e: &CallbackEntry) -> (r: Fe)
    requires
        p.wf(),
        hc.wf(),
        e.wf(),
    ensures
        r == hc_step(*p, hc, *e),
        r.wf(),
{
    let mut input: Vec<Fe> = Vec::new();
    input.push(hc);
    input.push(e.tik.0);
    input.push(e.enc_key.0);
    input.push(e.cb_method_id);
    input.push(Fe::from_bool(e.expirable));
    input.push(e.expiration);
    proof {
        assert(input@ =~= seq![hc] + e.spec_elements());
    }
    p.hash(&input)
}

/// An update of a user's private data that a callback performs when called,
/// given the decrypted argument.
pub trait CallbackMethod {
    spec fn spec_apply(&self, data: Seq<Fe>, args: Fe) -> Seq<Fe>;

    /// Every canonical input gives canonical data.
    proof fn lemma_apply_wf(&self, data: Seq<Fe>, args: Fe)
        requires
            all_wf(data),
            args.wf(),
        ensures
            all_wf(self.spec_apply(data, args)),
    ;

    fn apply(&self, data: &Vec<Fe>, args: Fe) -> (r: Vec<Fe>)
        requires
            all_wf(data@),
            args.wf(),
        ensures
            r@ == self.spec_apply(data@, args),
    ;
}

/// The callback method that writes its argument into one element of the
/// data (revoking a token, setting a balance); an index past the end leaves
/// the data as it is.
#[derive(Clone, Copy, Debug, PartialEq, Eq, Structural)]
pub struct SetElement {
    pub index: usize,
}

impl CallbackMethod for SetElement {
    open spec fn spec_apply(&self, data: Seq<Fe>, args: Fe) -> Seq<Fe> {
        if self.index < data.len() {
            data.update(self.index as int, args)
        } else {
            data
        }
    }

    proof fn lemma_apply_wf(&self, data: Seq<Fe>, args: Fe) {
    }

    fn apply(&self, data: &Vec<Fe>, args: Fe) -> (r: Vec<Fe>) {
        let mut out = copy_elements(data);
        if self.index < out.len() {
            out.set(self.index, args);
        }
        out
    }
}

/// A copy of a vector of field elements.
pub fn copy_elements(v: &Vec<Fe>) -> (r: Vec<Fe>)
    ensures
        r@ == v@,
{
    let mut out: Vec<Fe> = Vec::new();
    let mut i: usize = 0;
    while i < v.len()
        invariant
            0 <= i <= v@.len(),
            out@ == v@.subrange(0, i as int),
        decreases v@.len() - i,
    {
        out.push(v[i]);
        i = i + 1;
        proof {
            assert(out@ =~= v@.subrange(0, i as int));
        }
    }
    proof {
        assert(out@ =~= v@);
    }
    out
}

/// A callback that an interaction registers: the method it calls, whether it
/// expires, and when.
#[derive(Clone, Copy, Debug)]
pub struct Callback<M> {
    pub method_id: Id,
    pub expirable: bool,
    pub expiration: Time,
    pub method: M,
}

/// The encoding of a ticket commitment: key, encryption key, method id, one
/// byte for expirability, expiration, commitment randomness.
pub open spec fn ticket_bytes(c: CallbackCom) -> Seq<u8> {
    fe_bytes(c.cb_entry.tik.0) + fe_bytes(c.cb_entry.enc_key.0) + fe_bytes(c.cb_entry.cb_method_id)
        + seq![if c.cb_entry.expirable { 1u8 } else { 0u8 }] + fe_bytes(c.cb_entry.expiration)
        + fe_bytes(c.com_rand)
}

/// The length of an encoded ticket commitment.
pub const TICKET_BYTES: usize = 161;

/// The ticket commitment that 161 bytes decode to.
pub open spec fn ticket_from_bytes(b: Seq<u8>) -> CallbackCom {
    CallbackCom {
        cb_entry: CallbackEntry {
            tik: PlainTikCrypto(fe_from_bytes(b.subrange(0, 32))),
            enc_key: PlainTikCrypto(fe_from_bytes(b.subrange(32, 64))),
            cb_method_id: fe_from_bytes(b.subrange(64, 96)),
            expirable: b[96] == 1,
            expiration: fe_from_bytes(b.subrange(97, 129)),
        },
        com_rand: fe_from_bytes(b.subrange(129, 161)),
    }
}

/// The bytes are a valid encoding: the right length, a flag byte of zero or
/// one, and canonical field elements.
pub open spec fn ticket_bytes_valid(b: Seq<u8>) -> bool {
    &&& b.len() == TICKET_BYTES
    &&& b[96] <= 1
    &&& ticket_from_bytes(b).cb_entry.wf()
    &&& ticket_from_bytes(b).com_rand.wf()
}

/// Decoding the encoding of a well-formed ticket commitment gives it back.
pub proof fn lemma_ticket_round_trip(c: CallbackCom)
    requires
        c.cb_entry.wf(),
        c.com_rand.wf(),
    ensures
        ticket_bytes_valid(ticket_bytes(c)),
        ticket_from_bytes(ticket_bytes(c)) == c,
{
    let b = ticket_bytes(c);
    let e = c.cb_entry;
    lemma_fe_bytes_round_trip(e.tik.0, Seq::empty());
    lemma_fe_bytes_round_trip(e.enc_key.0, Seq::empty());
    lemma_fe_bytes_round_trip(e.cb_method_id, Seq::empty());
    lemma_fe_bytes_round_trip(e.expiration, Seq::empty());
    lemma_fe_bytes_round_trip(c.com_rand, Seq::empty());
    assert(b.subrange(0, 32) =~= fe_bytes(e.tik.0));
    assert(b.subrange(32, 64) =~= fe_bytes(e.enc_key.0));
    assert(b.subrange(64, 96) =~= fe_bytes(e.cb_method_id));
    assert(b.subrange(97, 129) =~= fe_bytes(e.expiration));
    assert(b.subrange(129, 161) =~= fe_bytes(c.com_rand));
}

impl CallbackCom {
    /// Encodes the ticket commitment.
    pub fn to_bytes(&self) -> (r: Vec<u8>)
        ensures
            r@ == ticket_bytes(*self),
    {
        let e = self.cb_entry;
        let mut out = e.tik.0.to_bytes();
        let mut a = e.enc_key.0.to_bytes();
        let mut m = e.cb_method_id.to_bytes();
        let mut x = e.expiration.to_bytes();
        let mut c = self.com_rand.to_bytes();
        out.append(&mut a);
        out.append(&mut m);
        out.push(if e.expirable { 1u8 } else { 0u8 });
        out.append(&mut x);
        out.append(&mut c);
        proof {
            assert(out@ =~= ticket_bytes(*self));
        }
        out
    }

    /// Decodes a ticket commitment; `None` unless the bytes are a valid
    /// encoding.
    pub fn from_bytes(b: &[u8]) -> (r: Option<CallbackCom>)
        ensures
            r is Some <==> ticket_bytes_valid(b@),
            r matches Some(c) ==> c == ticket_from_bytes(b@),
    {
        if b.len() != TICKET_BYTES || b[96] > 1 {
            return None;
        }
        let tik = Fe::from_bytes(b, 0);
        let enc_key = Fe::from_bytes(b, 32);
        let id = Fe::from_bytes(b, 64);
        let expiration = Fe::from_bytes(b, 97);
        let com_rand = Fe::from_bytes(b, 129);
        if !(tik.is_canonical() && enc_key.is_canonical() && id.is_canonical()
            && expiration.is_canonical() && com_rand.is_canonical()) {
            return None;
        }
        Some(CallbackCom {
            cb_entry: CallbackEntry {
                tik: PlainTikCrypto(tik),
                enc_key: PlainTikCrypto(enc_key),
                cb_method_id: id,
                expirable: b[96] == 1,
                expiration,
            },
            com_rand,
        })
    }
}

} // verus!
