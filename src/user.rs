use vstd::prelude::*;
use crate::callbacks::{all_wf, copy_elements};
use crate::field::{Com, Fe, Nul};
use crate::hash::PoseidonParams;

verus! {

/// The protocol's bookkeeping fields of a user record.
#[derive(Clone, Copy, Debug, PartialEq, Eq, Structural)]
pub struct ZkFields {
    /// The nullifier that consumes the committed record.
    pub nul: Nul,
    /// The randomness of the record's commitment.
    pub com_rand: Fe,
    /// The hash chain of the tickets that no completed scan has consumed.
    pub callback_hash: Fe,
    /// The chain of the tickets that the scan in progress carries forward.
    pub new_in_progress_callback_hash: Fe,
    /// The chain of the tickets that the scan in progress has gone through.
    pub old_in_progress_callback_hash: Fe,
    /// No scan is in progress.
    pub is_ingest_over: bool,
}

/// A user record: the application's private data, as field elements, and the
/// protocol's bookkeeping fields.
#[derive(Clone, Debug)]
pub struct User {
    pub data: Vec<Fe>,
    pub zk_fields: ZkFields,
}

impl ZkFields {
    pub open spec fn wf(self) -> bool {
        &&& self.nul.wf()
        &&& self.com_rand.wf()
        &&& self.callback_hash.wf()
        &&& self.new_in_progress_callback_hash.wf()
        &&& self.old_in_progress_callback_hash.wf()
    }

    /// The field elements that stand for the bookkeeping fields in a commitment.
    pub open spec fn spec_elements(self) -> Seq<Fe> {
        seq![
            self.nul,
            self.com_rand,
            self.callback_hash,
            self.new_in_progress_callback_hash,
            self.old_in_progress_callback_hash,
            Fe::spec_from_bool(self.is_ingest_over),
        ]
    }
}

impl View for User {
    type V = (Seq<Fe>, ZkFields);

    open spec fn view(&self) -> (Seq<Fe>, ZkFields) {
        (self.data@, self.zk_fields)
    }
}

/// A user model is well formed: every element canonical.
pub open spec fn user_wf(u: (Seq<Fe>, ZkFields)) -> bool {
    all_wf(u.0) && u.1.wf()
}

/// The commitment to a user: the hash of its data followed by its
/// bookkeeping fields.
pub open spec fn spec_commit(p: PoseidonParams, u: (Seq<Fe>, ZkFields)) -> Com {
    p.spec_hash(u.0 + u.1.spec_elements())
}

impl User {
    pub open spec fn wf(&self) -> bool {
        user_wf(self@)
    }

    /// A fresh user: no tickets registered, no scan in progress.
    pub open spec fn spec_create(data: Seq<Fe>, nul: Nul, com_rand: Fe) -> (Seq<Fe>, ZkFields) {
        (
            data,
            ZkFields {
                nul,
                com_rand,
                callback_hash: Fe::spec_zero(),
                new_in_progress_callback_hash: Fe::spec_zero(),
                old_in_progress_callback_hash: Fe::spec_zero(),
                is_ingest_over: true,
            },
        )
    }

    /// Creates a user holding `data`, with the nullifier and commitment
    /// randomness drawn by the caller.
    pub fn create(data: Vec<Fe>, nul: Nul, com_rand: Fe) -> (r: User)
        ensures
            r@ == User::spec_create(data@, nul, com_rand),
    {
        User {
            data,
            zk_fields: ZkFields {
                nul,
                com_rand,
                callback_hash: Fe::zero(),
                new_in_progress_callback_hash: Fe::zero(),
                old_in_progress_callback_hash: Fe::zero(),
                is_ingest_over: true,
            },
        }
    }

    /// A copy of the record.
    pub fn duplicate(&self) -> (r: User)
        ensures
            r@ == self@,
    {
        User { data: copy_elements(&self.data), zk_fields: self.zk_fields }
    }

    /// The field elements that a commitment hashes.
    pub fn serialize_elements(&self) -> (r: Vec<Fe>)
        ensures
            r@ == self.data@ + self.zk_fields.spec_elements(),
    {
        let mut out = copy_elements(&self.data);
        let z = self.zk_fields;
        out.push(z.nul);
        out.push(z.com_rand);
        out.push(z.callback_hash);
        out.push(z.new_in_progress_callback_hash);
        out.push(z.old_in_progress_callback_hash);
        out.push(Fe::from_bool(z.is_ingest_over));
        proof {
            assert(out@ =~= self.data@ + self.zk_fields.spec_elements());
        }
        out
    }

    /// The commitment to this record.
    pub fn commit(&self, p: &PoseidonParams) -> (r: Com)
        requires
            p.wf(),
            self.wf(),
        ensures
            r == spec_commit(*p, self@),
            r.wf(),
    {
        let s = self.serialize_elements();
        proof {
            assert forall|i: int| 0 <= i < s@.len() implies (#[trigger] s@[i]).wf() by {
                if i >= self.data@.len() {
                    let k = i - self.data@.len();
                    assert(s@[i] == self.zk_fields.spec_elements()[k]);
                }
            }
        }
        p.hash(&s)
    }

    /// The nullifier of this record, which consumes it once published.
    pub fn nullify(&self) -> (r: Nul)
        ensures
            r == self.zk_fields.nul,
    {
        self.zk_fields.nul
    }
}

} // verus!
