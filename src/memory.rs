use vstd::prelude::*;
use crate::bulletin::{CallbackBulletin, PublicCallbackBul};
use crate::callbacks::PlainTikCrypto;
use crate::central::{ticket_key, DbHandle};
use crate::field::{Fe, Time};

verus! {

/// The two byte strings are equal.
pub fn bytes_eq(a: &[u8], b: &[u8]) -> (r: bool)
    ensures
        r == (a@ == b@),
{
    if a.len() != b.len() {
        return false;
    }
    let mut i: usize = 0;
    while i < a.len()
        invariant
            0 <= i <= a@.len(),
            a@.len() == b@.len(),
            forall|k: int| 0 <= k < i ==> a@[k] == b@[k],
        decreases a@.len() - i,
    {
        if a[i] != b[i] {
            return false;
        }
        i = i + 1;
    }
    proof {
        assert(a@ =~= b@);
    }
    true
}

/// A copy of a byte string.
fn to_owned_bytes(a: &[u8]) -> (r: Vec<u8>)
    ensures
        r@ == a@,
{
    let mut out: Vec<u8> = Vec::new();
    let mut i: usize = 0;
    while i < a.len()
        invariant
            0 <= i <= a@.len(),
            out@ == a@.subrange(0, i as int),
        decreases a@.len() - i,
    {
        out.push(a[i]);
        i = i + 1;
        proof {
            assert(out@ =~= a@.subrange(0, i as int));
        }
    }
    proof {
        assert(out@ =~= a@);
    }
    out
}

/// `s` holds a byte string equal to `x`.
pub open spec fn holds(s: Seq<Vec<u8>>, x: Seq<u8>) -> bool {
    exists|i: int| 0 <= i < s.len() && (#[trigger] s[i])@ == x
}

/// Adding a byte string keeps what was held and holds the new one.
proof fn lemma_holds_push(s: Seq<Vec<u8>>, x: Vec<u8>)
    ensures
        holds(s.push(x), x@),
        forall|m: Seq<u8>| holds(s, m) ==> #[trigger] holds(s.push(x), m),
{
    assert(s.push(x)[s.len() as int] == x);
    assert forall|m: Seq<u8>| holds(s, m) implies #[trigger] holds(s.push(x), m) by {
        let i = choose|i: int| 0 <= i < s.len() && (#[trigger] s[i])@ == m;
        assert(s.push(x)[i] == s[i]);
    }
}

/// The key of an internal ticket, copied out.
fn key_of(t: &[u8]) -> (r: Vec<u8>)
    ensures
        r@ == ticket_key(t@),
{
    if t.len() >= 32 {
        let k = to_owned_bytes(vstd::slice::slice_subrange(t, 0, 32));
        k
    } else {
        to_owned_bytes(t)
    }
}

/// `x` occurs among the byte strings of `s`.
fn contains_bytes(s: &Vec<Vec<u8>>, x: &[u8]) -> (r: bool)
    ensures
        r == holds(s@, x@),
{
    let mut i: usize = 0;
    while i < s.len()
        invariant
            0 <= i <= s@.len(),
            forall|k: int| 0 <= k < i ==> (#[trigger] s@[k])@ != x@,
        decreases s@.len() - i,
    {
        if bytes_eq(s[i].as_slice(), x) {
            return true;
        }
        i = i + 1;
    }
    false
}

/// A storage backend held in memory: every record is kept in a list.
pub struct MemoryDb {
    pub objects: Vec<Vec<u8>>,
    pub nuls: Vec<Vec<u8>>,
    pub tickets: Vec<Vec<u8>>,
    pub calls: Vec<Vec<u8>>,
    pub called_tiks: Vec<Vec<u8>>,
    pub keys: Vec<Vec<u8>>,
    pub interactions: Vec<Vec<u8>>,
}

/// The key of an object record: its three parts, each prefixed by its
/// length as eight little-endian bytes.
pub open spec fn record_key(a: Seq<u8>, b: Seq<u8>, c: Seq<u8>) -> Seq<u8> {
    vstd::bytes::spec_u64_to_le_bytes(a.len() as u64) + a + vstd::bytes::spec_u64_to_le_bytes(
        b.len() as u64,
    ) + b + c
}

/// Builds `record_key(a, b, c)`.
fn make_key(a: &[u8], b: &[u8], c: &[u8]) -> (r: Vec<u8>)
    ensures
        r@ == record_key(a@, b@, c@),
{
    let mut out = vstd::bytes::u64_to_le_bytes(a.len() as u64);
    let mut x = to_owned_bytes(a);
    let mut l = vstd::bytes::u64_to_le_bytes(b.len() as u64);
    let mut y = to_owned_bytes(b);
    let mut z = to_owned_bytes(c);
    out.append(&mut x);
    out.append(&mut l);
    out.append(&mut y);
    out.append(&mut z);
    out
}

impl MemoryDb {
    /// An empty store.
    pub fn new() -> (r: MemoryDb)
        ensures
            r.objects@.len() == 0,
            r.nuls@.len() == 0,
            r.tickets@.len() == 0,
            r.calls@.len() == 0,
            r.called_tiks@.len() == 0,
            r.keys@.len() == 0,
            r.interactions@.len() == 0,
    {
        MemoryDb {
            objects: Vec::new(),
            nuls: Vec::new(),
            tickets: Vec::new(),
            calls: Vec::new(),
            called_tiks: Vec::new(),
            keys: Vec::new(),
            interactions: Vec::new(),
        }
    }
}

impl DbHandle for MemoryDb {
    type Error = ();

    type ExternalVerifData = ();

    open spec fn spec_has_object(&self, object: Seq<u8>, old_nul: Seq<u8>, cb_com_list: Seq<u8>) -> bool {
        holds(self.objects@, record_key(object, old_nul, cb_com_list))
    }

    open spec fn spec_has_nul(&self, nul: Seq<u8>) -> bool {
        holds(self.nuls@, nul)
    }

    open spec fn spec_has_tik(&self, tik: Seq<u8>) -> bool {
        holds(self.keys@, tik)
    }

    /// Every write succeeds.
    open spec fn spec_reliable(&self) -> bool {
        true
    }

    open spec fn spec_has_ticket(&self, ticket: Seq<u8>) -> bool {
        holds(self.tickets@, ticket)
    }

    /// Records are kept as the id's eight little-endian bytes, then the record.
    open spec fn spec_has_interaction(&self, interaction_id: u64, interaction: Seq<u8>) -> bool {
        holds(self.interactions@, vstd::bytes::spec_u64_to_le_bytes(interaction_id) + interaction)
    }

    open spec fn spec_has_call(&self, ticket: Seq<u8>, enc_args: Seq<u8>) -> bool {
        holds(self.calls@, record_key(ticket, enc_args, Seq::empty()))
    }

    /// Every object is admitted: this store takes no outside authorization.
    open spec fn spec_authorized(&self, object: Seq<u8>, data: ()) -> bool {
        true
    }

    open spec fn spec_tik_called(&self, ticket: Seq<u8>) -> bool {
        holds(self.called_tiks@, ticket)
    }

    fn has_never_called_tik(&self, ticket: &[u8]) -> (r: bool) {
        !contains_bytes(&self.called_tiks, ticket)
    }

    fn insert_updated_object(
        &mut self,
        object: &[u8],
        old_nul: &[u8],
        cb_com_list: &[u8],
        sig: &[u8],
    ) -> (r: Result<(), Self::Error>) {
        let key = make_key(object, old_nul, cb_com_list);
        let nul = to_owned_bytes(old_nul);
        self.objects.push(key);
        self.nuls.push(nul);
        proof {
            let n = self.nuls@.len() - 1;
            assert(self.nuls@[n]@ == old_nul@);
            let o = self.objects@.len() - 1;
            assert(self.objects@[o]@ == record_key(object@, old_nul@, cb_com_list@));
            assert forall|m: Seq<u8>| old(self).spec_has_nul(m) implies #[trigger] self.spec_has_nul(m) by {
                let i = choose|i: int| 0 <= i < old(self).nuls@.len() && (#[trigger] old(self).nuls@[i])@ == m;
                assert(self.nuls@[i] == old(self).nuls@[i]);
            }
        }
        Ok(())
    }

    fn object_is_in(&self, object: &[u8], old_nul: &[u8], cb_com_list: &[u8]) -> (r: bool) {
        let key = make_key(object, old_nul, cb_com_list);
        contains_bytes(&self.objects, key.as_slice())
    }

    fn has_never_recieved_nul(&self, nul: &[u8]) -> (r: bool) {
        !contains_bytes(&self.nuls, nul)
    }

    fn verify_new_object(&self, _object: &[u8], _data: ()) -> (r: Result<(), Self::Error>) {
        Ok(())
    }

    fn insert_interaction_and_tickets(
        &mut self,
        interaction_id: u64,
        interaction: &[u8],
        internal_tickets: &Vec<Vec<u8>>,
    ) -> (r: Result<(), Self::Error>) {
        let mut i: usize = 0;
        while i < internal_tickets.len()
            invariant
                0 <= i <= internal_tickets@.len(),
                self.nuls@ == old(self).nuls@,
                forall|t: Seq<u8>| old(self).spec_has_tik(t) ==> #[trigger] self.spec_has_tik(t),
                forall|k: int|
                    0 <= k < i ==> self.spec_has_ticket(#[trigger] internal_tickets@[k]@) && self.spec_has_tik(
                        ticket_key(internal_tickets@[k]@),
                    ),
            decreases internal_tickets@.len() - i,
        {
            let t = to_owned_bytes(internal_tickets[i].as_slice());
            let k = key_of(internal_tickets[i].as_slice());
            let ghost db0 = *self;
            let ghost tickets0 = self.tickets@;
            let ghost keys0 = self.keys@;
            proof {
                lemma_holds_push(tickets0, t);
                lemma_holds_push(keys0, k);
            }
            self.tickets.push(t);
            self.keys.push(k);
            assert(self.tickets@ == tickets0.push(t));
            assert(self.keys@ == keys0.push(k));
            assert forall|u: Seq<u8>| old(self).spec_has_tik(u) implies #[trigger] self.spec_has_tik(u) by {
                assert(db0.spec_has_tik(u));
                assert(holds(keys0.push(k), u));
            }
            i = i + 1;
        }
        let ghost db1 = *self;
        let mut rec = vstd::bytes::u64_to_le_bytes(interaction_id);
        let mut body = to_owned_bytes(interaction);
        rec.append(&mut body);
        proof {
            lemma_holds_push(self.interactions@, rec);
        }
        self.interactions.push(rec);
        proof {
            assert forall|u: Seq<u8>| old(self).spec_has_tik(u) implies #[trigger] self.spec_has_tik(u) by {
                assert(db1.spec_has_tik(u));
            }
            assert forall|k: int| 0 <= k < internal_tickets@.len() implies self.spec_has_ticket(
                #[trigger] internal_tickets@[k]@,
            ) && self.spec_has_tik(ticket_key(internal_tickets@[k]@)) by {
                assert(db1.spec_has_ticket(internal_tickets@[k]@));
            }
        }
        Ok(())
    }

    fn has_never_recieved_tik(&self, tik: &[u8]) -> (r: bool) {
        !contains_bytes(&self.keys, tik)
    }

    fn publish_called_ticket(&mut self, ticket: &[u8], enc_args: &[u8]) -> (r: Result<(), Self::Error>) {
        let empty: Vec<u8> = Vec::new();
        let key = make_key(ticket, enc_args, empty.as_slice());
        let t = to_owned_bytes(ticket);
        proof {
            lemma_holds_push(self.calls@, key);
            lemma_holds_push(self.called_tiks@, t);
        }
        self.calls.push(key);
        self.called_tiks.push(t);
        Ok(())
    }

    fn has_ticket_been_called(&self, ticket: &[u8], enc_args: &[u8]) -> (r: bool) {
        let empty: Vec<u8> = Vec::new();
        let key = make_key(ticket, enc_args, empty.as_slice());
        contains_bytes(&self.calls, key.as_slice())
    }
}

/// The first call recorded for `tik` in `records`.
pub open spec fn find_call(records: Seq<(PlainTikCrypto, Fe, Time)>, tik: PlainTikCrypto) -> Option<(Fe, Time)>
    decreases records.len(),
{
    if records.len() == 0 {
        None
    } else {
        match find_call(records.drop_last(), tik) {
            Some(c) => Some(c),
            None => {
                if records.last().0 == tik {
                    Some((records.last().1, records.last().2))
                } else {
                    None
                }
            },
        }
    }
}

proof fn lemma_find_call_prefix(records: Seq<(PlainTikCrypto, Fe, Time)>, tik: PlainTikCrypto, i: int)
    requires
        0 <= i <= records.len(),
        find_call(records.take(i), tik) is Some,
    ensures
        find_call(records, tik) == find_call(records.take(i), tik),
    decreases records.len(),
{
    if i == records.len() {
        assert(records.take(i) =~= records);
    } else {
        assert(records.drop_last().take(i) =~= records.take(i));
        lemma_find_call_prefix(records.drop_last(), tik, i);
    }
}

proof fn lemma_find_call_wf(records: Seq<(PlainTikCrypto, Fe, Time)>, tik: PlainTikCrypto)
    requires
        forall|k: int| 0 <= k < records.len() ==> (#[trigger] records[k]).1.wf() && records[k].2.wf(),
    ensures
        find_call(records, tik) matches Some(c) ==> c.0.wf() && c.1.wf(),
    decreases records.len(),
{
    if records.len() > 0 {
        let d = records.drop_last();
        assert forall|k: int| 0 <= k < d.len() implies (#[trigger] d[k]).1.wf() && d[k].2.wf() by {
            assert(d[k] == records[k]);
        }
        lemma_find_call_wf(d, tik);
        let _ = records[records.len() - 1];
    }
}

/// A copy of a list of call records.
fn copy_records(v: &Vec<(PlainTikCrypto, Fe, Time)>) -> (r: Vec<(PlainTikCrypto, Fe, Time)>)
    ensures
        r@ == v@,
{
    let mut out: Vec<(PlainTikCrypto, Fe, Time)> = Vec::new();
    let mut i: usize = 0;
    while i < v.len()
        invariant
            0 <= i <= v@.len(),
            out@ == v@.subrange(0, i as int),
        decreases v@.len() - i,
    {
        out.push(v[i]);
        i = i + 1;
        proof {
            assert(out@ =~= v@.subrange(0, i as int));
        }
    }
    proof {
        assert(out@ =~= v@);
    }
    out
}

/// A callback ledger held in memory: every call with its ciphertext and the
/// epoch it was posted in.
pub struct CallbackStore {
    records: Vec<(PlainTikCrypto, Fe, Time)>,
    cur_time: Time,
}

impl CallbackStore {
    #[verifier::type_invariant]
    pub closed spec fn inv(self) -> bool {
        &&& self.cur_time.wf()
        &&& forall|k: int| 0 <= k < self.records@.len() ==> (#[trigger] self.records@[k]).1.wf() && self.records@[k].2.wf()
    }

    /// The calls, in the order they were posted.
    pub closed spec fn spec_records(self) -> Seq<(PlainTikCrypto, Fe, Time)> {
        self.records@
    }

    /// The epoch that new calls are posted in.
    pub closed spec fn spec_time(self) -> Time {
        self.cur_time
    }

    /// An empty ledger at epoch `cur_time`.
    pub fn new(cur_time: Time) -> (r: CallbackStore)
        requires
            cur_time.wf(),
        ensures
            r.spec_records().len() == 0,
            r.spec_time() == cur_time,
    {
        CallbackStore { records: Vec::new(), cur_time }
    }

    /// The current epoch.
    pub fn get_epoch(&self) -> (r: Time)
        ensures
            r == self.spec_time(),
            r.wf(),
    {
        proof {
            use_type_invariant(self);
        }
        self.cur_time
    }

    /// Moves to epoch `t`.
    pub fn set_epoch(&mut self, t: Time)
        requires
            t.wf(),
        ensures
            final(self).spec_records() == old(self).spec_records(),
            final(self).spec_time() == t,
    {
        proof {
            use_type_invariant(&*self);
        }
        let recs = copy_records(&self.records);
        *self = CallbackStore { records: recs, cur_time: t };
    }
}

impl PublicCallbackBul for CallbackStore {
    /// The store is read directly: no witness or public data is needed.
    type MembershipWitness = ();
    type MembershipPub = ();
    type NonMembershipWitness = ();
    type NonMembershipPub = ();

    open spec fn spec_call(&self, tik: PlainTikCrypto) -> Option<(Fe, Time)> {
        find_call(self.spec_records(), tik)
    }

    open spec fn spec_memb_witness(&self, tik: PlainTikCrypto, enc_args: Fe, time: Time, witness: (), public: ()) -> bool {
        true
    }

    open spec fn spec_nmemb_witness(&self, tik: PlainTikCrypto, witness: (), public: ()) -> bool {
        true
    }

    fn enforce_membership_of(
        &self,
        tik: &PlainTikCrypto,
        enc_args: Fe,
        time: Time,
        _witness: &(),
        _public: &(),
    ) -> (r: bool) {
        match self.verify_in(tik) {
            Some(c) => c.0 == enc_args && c.1 == time,
            None => false,
        }
    }

    fn enforce_nonmembership_of(&self, tik: &PlainTikCrypto, _witness: &(), _public: &()) -> (r: bool) {
        self.verify_not_in(tik)
    }

    fn verify_in(&self, tik: &PlainTikCrypto) -> (r: Option<(Fe, Time)>) {
        proof {
            use_type_invariant(self);
            lemma_find_call_wf(self.records@, *tik);
        }
        let mut i: usize = 0;
        while i < self.records.len()
            invariant
                0 <= i <= self.records@.len(),
                find_call(self.records@.take(i as int), *tik) is None,
                forall|k: int|
                    0 <= k < self.records@.len() ==> (#[trigger] self.records@[k]).1.wf()
                        && self.records@[k].2.wf(),
            decreases self.records@.len() - i,
        {
            proof {
                assert(self.records@.take(i + 1).drop_last() =~= self.records@.take(i as int));
            }
            let rec = self.records[i];
            if rec.0 == *tik {
                proof {
                    assert(self.records@[i as int].1.wf() && self.records@[i as int].2.wf());
                    assert(self.records@.take(i + 1).last() == rec);
                    lemma_find_call_prefix(self.records@, *tik, i + 1);
                }
                return Some((rec.1, rec.2));
            }
            i = i + 1;
        }
        proof {
            assert(self.records@.take(self.records@.len() as int) =~= self.records@);
        }
        None
    }
}

impl CallbackBulletin for CallbackStore {
    type Error = ();

    open spec fn spec_tik_received(&self, tik: PlainTikCrypto) -> bool {
        self.spec_call(tik) is Some
    }

    open spec fn spec_call_posted(&self, tik: PlainTikCrypto, enc_args: Fe) -> bool {
        exists|i: int|
            0 <= i < self.spec_records().len() && (#[trigger] self.spec_records()[i]).0 == tik
                && self.spec_records()[i].1 == enc_args
    }

    /// Every canonical ciphertext is accepted.
    open spec fn spec_accepts_call(&self, enc_args: Fe) -> bool {
        enc_args.wf()
    }

    fn has_never_recieved_tik(&self, tik: &PlainTikCrypto) -> (r: bool) {
        self.verify_in(tik).is_none()
    }

    /// Posts a call of `tik` at the current epoch; a non-canonical ciphertext
    /// is refused.
    fn append_value(&mut self, tik: &PlainTikCrypto, enc_args: Fe) -> (r: Result<(), Self::Error>) {
        if !enc_args.is_canonical() {
            return Err(());
        }
        proof {
            use_type_invariant(&*self);
        }
        let t = self.cur_time;
        let mut recs = copy_records(&self.records);
        recs.push((*tik, enc_args, t));
        *self = CallbackStore { records: recs, cur_time: t };
        proof {
            let n = self.records@.len() - 1;
            assert(self.spec_records()[n].0 == *tik && self.spec_records()[n].1 == enc_args);
            assert(self.spec_records().drop_last() =~= old(self).spec_records());
            assert forall|u: PlainTikCrypto| old(self).spec_tik_received(u) implies #[trigger] self.spec_tik_received(u) by {
                assert(self.spec_records().drop_last() =~= old(self).spec_records());
            }
        }
        Ok(())
    }
}

} // verus!
