//! Append-only policy store.
use vstd::prelude::*;
use crate::codec::{
    encode_u64_list, encode_u64_list_exec, lemma_u64_list_round_trip, parse_u64_list,
    parse_u64_list_exec,
};
use crate::kernel::{fold_mix, mix, nonzero, nz, spec_fold_mix, spec_mix};
use crate::text::str_eq;

verus! {

pub const POLICY_SCHEMA_VERSION: u64 = 1;

pub const POLICY_RECORD_ENTRY: u64 = 1;

pub const POLICY_KEY_PROMOTION_SOURCE_SEQ: u64 = 1;

pub const POLICY_KEY_FEEDBACK_HASH: u64 = 2;

pub const POLICY_PROMOTION_SOURCE_SEQ: &'static str = "learning.policy_promotion.source_seq";

pub const POLICY_FEEDBACK_HASH: &'static str = "learning.policy_feedback.hash";

#[derive(Clone, Copy, Debug, PartialEq, Eq)]
pub struct PolicyEntry {
    pub version: u64,
    pub key: &'static str,
    pub value: u64,
}

#[derive(Clone, Copy, Debug, PartialEq, Eq, Structural)]
pub enum PolicyStoreError {
    InvalidPromotion,
    NonMonotonicVersion,
    UnknownPolicyKey,
    PolicyIo,
    InvalidPolicyRecord,
}

/// The numeric id of a known policy key.
pub open spec fn spec_key_id(key: Seq<char>) -> u64 {
    if key == POLICY_PROMOTION_SOURCE_SEQ@ {
        POLICY_KEY_PROMOTION_SOURCE_SEQ
    } else if key == POLICY_FEEDBACK_HASH@ {
        POLICY_KEY_FEEDBACK_HASH
    } else {
        0
    }
}

pub proof fn lemma_policy_keys_distinct()
    ensures
        POLICY_PROMOTION_SOURCE_SEQ@ != POLICY_FEEDBACK_HASH@,
{
    reveal_strlit("learning.policy_promotion.source_seq");
    reveal_strlit("learning.policy_feedback.hash");
    assert(POLICY_PROMOTION_SOURCE_SEQ@.len() != POLICY_FEEDBACK_HASH@.len());
}

/// Maps a key to its id; unknown keys are refused.
pub fn key_to_id(key: &str) -> (r: Result<u64, PolicyStoreError>)
    ensures
        match r {
            Ok(id) => id == spec_key_id(key@) && id != 0,
            Err(e) => e == PolicyStoreError::UnknownPolicyKey && spec_key_id(key@) == 0,
        },
{
    proof {
        lemma_policy_keys_distinct();
    }
    if str_eq(key, POLICY_PROMOTION_SOURCE_SEQ) {
        Ok(POLICY_KEY_PROMOTION_SOURCE_SEQ)
    } else if str_eq(key, POLICY_FEEDBACK_HASH) {
        Ok(POLICY_KEY_FEEDBACK_HASH)
    } else {
        Err(PolicyStoreError::UnknownPolicyKey)
    }
}

/// Maps an id back to its key; unknown ids are refused.
pub fn key_from_id(id: u64) -> (r: Result<&'static str, PolicyStoreError>)
    ensures
        match r {
            Ok(key) => (id == POLICY_KEY_PROMOTION_SOURCE_SEQ && key@
                == POLICY_PROMOTION_SOURCE_SEQ@) || (id == POLICY_KEY_FEEDBACK_HASH && key@
                == POLICY_FEEDBACK_HASH@),
            Err(e) => e == PolicyStoreError::UnknownPolicyKey && id != POLICY_KEY_PROMOTION_SOURCE_SEQ
                && id != POLICY_KEY_FEEDBACK_HASH,
        },
{
    if id == POLICY_KEY_PROMOTION_SOURCE_SEQ {
        Ok(POLICY_PROMOTION_SOURCE_SEQ)
    } else if id == POLICY_KEY_FEEDBACK_HASH {
        Ok(POLICY_FEEDBACK_HASH)
    } else {
        Err(PolicyStoreError::UnknownPolicyKey)
    }
}

pub open spec fn spec_policy_lookup_key_hash(key_id: u64) -> u64 {
    if key_id == 0 {
        0
    } else {
        nz(spec_mix(0x504f_4c49_4359_4b45u64, key_id))
    }
}

pub fn policy_lookup_key_hash(key_id: u64) -> (r: u64)
    ensures
        r == spec_policy_lookup_key_hash(key_id),
{
    if key_id == 0 {
        return 0;
    }
    nonzero(mix(0x504f_4c49_4359_4b45u64, key_id))
}

/// The largest version among entries, zero for none.
pub open spec fn spec_latest_version(entries: Seq<PolicyEntry>) -> u64
    decreases entries.len(),
{
    if entries.len() == 0 {
        0
    } else {
        let m = spec_latest_version(entries.drop_last());
        if entries.last().version > m {
            entries.last().version
        } else {
            m
        }
    }
}

/// The last entry with the given key.
pub open spec fn spec_latest(entries: Seq<PolicyEntry>, key: Seq<char>) -> Option<PolicyEntry>
    decreases entries.len(),
{
    if entries.len() == 0 {
        None
    } else if entries.last().key@ == key {
        Some(entries.last())
    } else {
        spec_latest(entries.drop_last(), key)
    }
}

/// Fingerprint of the entries: zero when one holds an unknown key.
pub open spec fn spec_fingerprint_fold(entries: Seq<PolicyEntry>) -> Option<u64>
    decreases entries.len(),
{
    if entries.len() == 0 {
        Some(0xcbf2_9ce4_8422_2325u64)
    } else {
        let e = entries.last();
        match spec_fingerprint_fold(entries.drop_last()) {
            Some(h) => if spec_key_id(e.key@) == 0 {
                None
            } else {
                Some(spec_mix(spec_mix(spec_mix(h, e.version), spec_key_id(e.key@)), e.value))
            },
            None => None,
        }
    }
}

pub open spec fn spec_fingerprint(entries: Seq<PolicyEntry>) -> u64 {
    match spec_fingerprint_fold(entries) {
        Some(h) => nz(h),
        None => 0,
    }
}

/// Every entry holds a known key.
pub open spec fn all_keys_known(entries: Seq<PolicyEntry>) -> bool {
    forall|i: int| 0 <= i < entries.len() ==> spec_key_id(#[trigger] entries[i].key@) != 0
}

proof fn lemma_fingerprint_fold_known(entries: Seq<PolicyEntry>)
    requires
        all_keys_known(entries),
    ensures
        spec_fingerprint_fold(entries) is Some,
    decreases entries.len(),
{
    if entries.len() > 0 {
        assert(all_keys_known(entries.drop_last())) by {
            assert forall|i: int| 0 <= i < entries.drop_last().len() implies spec_key_id(
                #[trigger] entries.drop_last()[i].key@,
            ) != 0 by {
                assert(entries.drop_last()[i] == entries[i]);
            }
        }
        lemma_fingerprint_fold_known(entries.drop_last());
        assert(spec_key_id(entries[entries.len() - 1].key@) != 0);
    }
}

proof fn lemma_latest_has_key(entries: Seq<PolicyEntry>, key: Seq<char>)
    ensures
        spec_latest(entries, key) matches Some(e) ==> e.key@ == key,
    decreases entries.len(),
{
    if entries.len() > 0 && entries.last().key@ != key {
        lemma_latest_has_key(entries.drop_last(), key);
    }
}

/// A lookup of a known key in a store whose entries all hold known keys:
/// the store's fingerprint is not zero, and the receipt is valid for the
/// store and key, records the latest entry's version and value (zeros when
/// there is none), and is a hit exactly when both are non-zero.
pub proof fn lemma_lookup_receipt_valid(entries: Seq<PolicyEntry>, key: Seq<char>)
    requires
        all_keys_known(entries),
        spec_key_id(key) != 0,
    ensures
        spec_fingerprint(entries) != 0,
        ({
            let r = PolicyLookupReceipt::spec_new(key, spec_latest(entries, key), spec_fingerprint(entries));
            &&& r.spec_is_valid()
            &&& match spec_latest(entries, key) {
                Some(e) => r.found_version == e.version && r.found_value == e.value,
                None => r.found_version == 0 && r.found_value == 0,
            }
        }),
{
    lemma_fingerprint_fold_known(entries);
    lemma_latest_has_key(entries, key);
}

#[derive(Clone, Debug, PartialEq, Eq)]
pub struct PolicyStore {
    entries: Vec<PolicyEntry>,
}

impl View for PolicyStore {
    type V = Seq<PolicyEntry>;

    closed spec fn view(&self) -> Seq<PolicyEntry> {
        self.entries@
    }
}

impl Default for PolicyStore {
    fn default() -> (r: Self)
        ensures
            r@ == Seq::<PolicyEntry>::empty(),
    {
        PolicyStore { entries: Vec::new() }
    }
}

impl PolicyStore {
    pub fn new() -> (r: Self)
        ensures
            r@ == Seq::<PolicyEntry>::empty(),
    {
        PolicyStore { entries: Vec::new() }
    }

    /// Appends an entry whose version exceeds every earlier version.
    pub fn append(&mut self, entry: PolicyEntry)
        requires
            entry.version > spec_latest_version(old(self)@),
        ensures
            final(self)@ == old(self)@.push(entry),
    {
        self.entries.push(entry);
    }

    /// Appends an entry with a known key and a newer version.
    pub fn try_append(&mut self, entry: PolicyEntry) -> (r: Result<(), PolicyStoreError>)
        ensures
            entry.version <= spec_latest_version(old(self)@) ==> r == Err::<(), PolicyStoreError>(
                PolicyStoreError::NonMonotonicVersion),
            entry.version > spec_latest_version(old(self)@) && spec_key_id(entry.key@) == 0 ==> r
                == Err::<(), PolicyStoreError>(PolicyStoreError::UnknownPolicyKey),
            r is Ok <==> (entry.version > spec_latest_version(old(self)@) && spec_key_id(
                entry.key@,
            ) != 0),
            r is Ok ==> final(self)@ == old(self)@.push(entry),
            r is Err ==> final(self)@ == old(self)@,
    {
        if entry.version <= self.latest_version() {
            return Err(PolicyStoreError::NonMonotonicVersion);
        }
        match key_to_id(entry.key) {
            Ok(_) => {},
            Err(e) => {
                return Err(e);
            },
        }
        self.entries.push(entry);
        Ok(())
    }

    pub fn latest_version(&self) -> (r: u64)
        ensures
            r == spec_latest_version(self@),
    {
        let mut m: u64 = 0;
        let mut i: usize = 0;
        while i < self.entries.len()
            invariant
                i <= self.entries@.len(),
                m == spec_latest_version(self.entries@.take(i as int)),
            decreases self.entries@.len() - i,
        {
            assert(self.entries@.take(i as int + 1).drop_last() =~= self.entries@.take(i as int));
            if self.entries[i].version > m {
                m = self.entries[i].version;
            }
            i = i + 1;
        }
        assert(self.entries@.take(i as int) =~= self.entries@);
        m
    }

    /// The most recent entry with `key`.
    pub fn latest(&self, key: &str) -> (r: Option<&PolicyEntry>)
        ensures
            match r {
                Some(e) => spec_latest(self@, key@) == Some(*e),
                None => spec_latest(self@, key@) is None,
            },
    {
        let mut i = self.entries.len();
        assert(self.entries@.take(i as int) =~= self.entries@);
        while i > 0
            invariant
                i <= self.entries@.len(),
                spec_latest(self.entries@, key@) == spec_latest(self.entries@.take(i as int), key@),
            decreases i,
        {
            assert(self.entries@.take(i as int).drop_last() =~= self.entries@.take(i as int - 1));
            if str_eq(self.entries[i - 1].key, key) {
                return Some(&self.entries[i - 1]);
            }
            i = i - 1;
        }
        None
    }

    pub fn latest_value(&self, key: &str) -> (r: Option<u64>)
        ensures
            r == (match spec_latest(self@, key@) {
                Some(e) => Some(e.value),
                None => None,
            }),
    {
        match self.latest(key) {
            Some(e) => Some(e.value),
            None => None,
        }
    }

    pub fn feedback_hash(&self) -> (r: u64)
        ensures
            r == (match spec_latest(self@, POLICY_FEEDBACK_HASH@) {
                Some(e) => e.value,
                None => 0,
            }),
    {
        match self.latest_value(POLICY_FEEDBACK_HASH) {
            Some(v) => v,
            None => 0,
        }
    }

    pub fn fingerprint(&self) -> (r: u64)
        ensures
            r == spec_fingerprint(self@),
    {
        let mut h: u64 = 0xcbf2_9ce4_8422_2325u64;
        let mut i: usize = 0;
        while i < self.entries.len()
            invariant
                i <= self.entries@.len(),
                spec_fingerprint_fold(self.entries@.take(i as int)) == Some(h),
            decreases self.entries@.len() - i,
        {
            assert(self.entries@.take(i as int + 1).drop_last() =~= self.entries@.take(i as int));
            let e = self.entries[i];
            let key_id = match key_to_id(e.key) {
                Ok(id) => id,
                Err(_) => {
                    proof {
                        lemma_fold_none_propagates(self.entries@, i as int + 1);
                    }
                    return 0;
                },
            };
            h = mix(h, e.version);
            h = mix(h, key_id);
            h = mix(h, e.value);
            i = i + 1;
        }
        assert(self.entries@.take(i as int) =~= self.entries@);
        nonzero(h)
    }

    pub fn lookup_with_receipt(&self, key: &'static str) -> (r: (
        Option<PolicyEntry>,
        PolicyLookupReceipt,
    ))
        ensures
            r.0 == spec_latest(self@, key@),
            r.1 == PolicyLookupReceipt::spec_new(
                key@,
                spec_latest(self@, key@),
                spec_fingerprint(self@),
            ),
    {
        let entry = match self.latest(key) {
            Some(e) => Some(*e),
            None => None,
        };
        let receipt = PolicyLookupReceipt::new(key, entry, self.fingerprint());
        (entry, receipt)
    }

    pub fn feedback_lookup_with_receipt(&self) -> (r: (Option<PolicyEntry>, PolicyLookupReceipt))
        ensures
            r.0 == spec_latest(self@, POLICY_FEEDBACK_HASH@),
            r.1 == PolicyLookupReceipt::spec_new(
                POLICY_FEEDBACK_HASH@,
                spec_latest(self@, POLICY_FEEDBACK_HASH@),
                spec_fingerprint(self@),
            ),
    {
        self.lookup_with_receipt(POLICY_FEEDBACK_HASH)
    }

    pub fn entries(&self) -> (r: &[PolicyEntry])
        ensures
            r@ == self@,
    {
        self.entries.as_slice()
    }
}

proof fn lemma_fold_none_propagates(entries: Seq<PolicyEntry>, i: int)
    requires
        0 < i <= entries.len(),
        spec_fingerprint_fold(entries.take(i)) is None,
    ensures
        spec_fingerprint_fold(entries) is None,
    decreases entries.len() - i,
{
    if i < entries.len() {
        assert(entries.take(i + 1).drop_last() =~= entries.take(i));
        lemma_fold_none_propagates(entries, i + 1);
    } else {
        assert(entries.take(i) =~= entries);
    }
}

#[derive(Clone, Copy, Debug, PartialEq, Eq, Structural)]
pub struct PolicyLookupReceipt {
    pub key_hash: u64,
    pub requested_key_id: u64,
    pub found_version: u64,
    pub found_value: u64,
    pub policy_store_hash: u64,
    pub receipt_hash: u64,
}

impl PolicyLookupReceipt {
    pub open spec fn spec_expected_receipt_hash(self) -> u64 {
        if self.requested_key_id == 0 || self.key_hash == 0 || self.policy_store_hash == 0 {
            0
        } else {
            let h = spec_mix(0x504f_4c49_4359_4c4bu64, self.key_hash);
            let h = spec_mix(h, self.requested_key_id);
            let h = spec_mix(h, self.found_version);
            let h = spec_mix(h, self.found_value);
            let h = spec_mix(h, self.policy_store_hash);
            nz(h)
        }
    }

    pub fn expected_receipt_hash(self) -> (r: u64)
        ensures
            r == self.spec_expected_receipt_hash(),
    {
        if self.requested_key_id == 0 || self.key_hash == 0 || self.policy_store_hash == 0 {
            return 0;
        }
        let mut h = mix(0x504f_4c49_4359_4c4bu64, self.key_hash);
        h = mix(h, self.requested_key_id);
        h = mix(h, self.found_version);
        h = mix(h, self.found_value);
        h = mix(h, self.policy_store_hash);
        nonzero(h)
    }

    /// The receipt of looking `key` up, where `entry` is what was found.
    pub open spec fn spec_new(key: Seq<char>, entry: Option<PolicyEntry>, policy_store_hash: u64) -> Self {
        let requested_key_id = spec_key_id(key);
        let found = match entry {
            Some(e) => if requested_key_id != 0 && spec_key_id(e.key@) == requested_key_id {
                (e.version, e.value)
            } else {
                (0u64, 0u64)
            },
            None => (0u64, 0u64),
        };
        let base = PolicyLookupReceipt {
            key_hash: spec_policy_lookup_key_hash(requested_key_id),
            requested_key_id,
            found_version: found.0,
            found_value: found.1,
            policy_store_hash,
            receipt_hash: 0,
        };
        PolicyLookupReceipt { receipt_hash: base.spec_expected_receipt_hash(), ..base }
    }

    pub fn new(key: &'static str, entry: Option<PolicyEntry>, policy_store_hash: u64) -> (r: Self)
        ensures
            r == Self::spec_new(key@, entry, policy_store_hash),
    {
        let requested_key_id = match key_to_id(key) {
            Ok(id) => id,
            Err(_) => 0,
        };
        let key_hash = policy_lookup_key_hash(requested_key_id);
        let (found_version, found_value) = match entry {
            Some(e) => {
                let matches = match key_to_id(e.key) {
                    Ok(id) => requested_key_id != 0 && id == requested_key_id,
                    Err(_) => false,
                };
                if matches {
                    (e.version, e.value)
                } else {
                    (0u64, 0u64)
                }
            },
            None => (0u64, 0u64),
        };
        let mut receipt = PolicyLookupReceipt {
            key_hash,
            requested_key_id,
            found_version,
            found_value,
            policy_store_hash,
            receipt_hash: 0,
        };
        receipt.receipt_hash = receipt.expected_receipt_hash();
        receipt
    }

    pub open spec fn spec_is_valid(self) -> bool {
        &&& self.requested_key_id != 0
        &&& self.key_hash == spec_policy_lookup_key_hash(self.requested_key_id)
        &&& self.policy_store_hash != 0
        &&& self.receipt_hash != 0
        &&& self.receipt_hash == self.spec_expected_receipt_hash()
    }

    pub fn is_valid(self) -> (r: bool)
        ensures
            r == self.spec_is_valid(),
    {
        self.requested_key_id != 0 && self.key_hash == policy_lookup_key_hash(
            self.requested_key_id,
        ) && self.policy_store_hash != 0 && self.receipt_hash != 0 && self.receipt_hash
            == self.expected_receipt_hash()
    }

    pub fn is_hit(self) -> (r: bool)
        ensures
            r == (self.spec_is_valid() && self.found_version != 0 && self.found_value != 0),
    {
        self.is_valid() && self.found_version != 0 && self.found_value != 0
    }

    pub open spec fn spec_is_valid_for(self, store: PolicyStore, key: Seq<char>) -> bool {
        self == Self::spec_new(key, spec_latest(store@, key), spec_fingerprint(store@))
            && self.spec_is_valid()
    }

    pub fn is_valid_for(self, store: &PolicyStore, key: &'static str) -> (r: bool)
        ensures
            r == self.spec_is_valid_for(*store, key@),
    {
        let entry = match store.latest(key) {
            Some(e) => Some(*e),
            None => None,
        };
        let expected = PolicyLookupReceipt::new(key, entry, store.fingerprint());
        self == expected && self.is_valid()
    }
}

#[derive(Clone, Copy, Debug, PartialEq, Eq)]
pub struct PolicyProofReceipt {
    pub entry: PolicyEntry,
    pub policy_store_hash: u64,
    pub receipt_event_seq: u64,
    pub receipt_event_hash: u64,
    pub receipt_hash: u64,
}

pub open spec fn spec_fold_policy_proof_hash(seed: u64, fields: Seq<u64>) -> u64 {
    nz(spec_fold_mix(seed, fields))
}

pub fn fold_policy_proof_hash(seed: u64, fields: &[u64]) -> (r: u64)
    ensures
        r == spec_fold_policy_proof_hash(seed, fields@),
{
    nonzero(fold_mix(seed, fields))
}

impl PolicyProofReceipt {
    pub open spec fn spec_entry_hash(self) -> Option<u64> {
        let id = spec_key_id(self.entry.key@);
        if id == 0 {
            None
        } else {
            let h = spec_mix(0x504f_4c49_4359_454eu64, self.entry.version);
            let h = spec_mix(h, id);
            let h = spec_mix(h, self.entry.value);
            Some(nz(h))
        }
    }

    pub fn entry_hash(self) -> (r: Option<u64>)
        ensures
            r == self.spec_entry_hash(),
    {
        let mut h = mix(0x504f_4c49_4359_454eu64, self.entry.version);
        let id = match key_to_id(self.entry.key) {
            Ok(id) => id,
            Err(_) => {
                return None;
            },
        };
        h = mix(h, id);
        h = mix(h, self.entry.value);
        Some(nonzero(h))
    }

    pub open spec fn spec_receipt_core_hash(self) -> Option<u64> {
        match self.spec_entry_hash() {
            Some(eh) => Some(
                spec_fold_policy_proof_hash(
                    0x504f_4c49_4359_434fu64,
                    seq![eh, self.policy_store_hash, self.receipt_event_seq, self.receipt_event_hash],
                ),
            ),
            None => None,
        }
    }

    pub fn receipt_core_hash(self) -> (r: Option<u64>)
        ensures
            r == self.spec_receipt_core_hash(),
    {
        let eh = match self.entry_hash() {
            Some(h) => h,
            None => {
                return None;
            },
        };
        let fields = [eh, self.policy_store_hash, self.receipt_event_seq, self.receipt_event_hash];
        let r = fold_policy_proof_hash(0x504f_4c49_4359_434fu64, &fields);
        assert(fields@ =~= seq![eh, self.policy_store_hash, self.receipt_event_seq, self.receipt_event_hash]);
        Some(r)
    }

    pub open spec fn spec_expected_receipt_hash(self) -> Option<u64> {
        match (self.spec_receipt_core_hash(), self.spec_entry_hash()) {
            (Some(core), Some(eh)) => {
                let h = spec_mix(0x504f_4c49_4359_5243u64, core);
                let h = spec_mix(h, eh);
                let h = spec_mix(h, self.policy_store_hash);
                Some(nz(h))
            },
            _ => None,
        }
    }

    pub fn expected_receipt_hash(self) -> (r: Option<u64>)
        ensures
            r == self.spec_expected_receipt_hash(),
    {
        let core = match self.receipt_core_hash() {
            Some(h) => h,
            None => {
                return None;
            },
        };
        let eh = match self.entry_hash() {
            Some(h) => h,
            None => {
                return None;
            },
        };
        let mut h = mix(0x504f_4c49_4359_5243u64, core);
        h = mix(h, eh);
        h = mix(h, self.policy_store_hash);
        Some(nonzero(h))
    }

    pub open spec fn spec_is_valid(self) -> bool {
        &&& self.spec_entry_hash() is Some
        &&& self.policy_store_hash != 0
        &&& self.receipt_event_seq != 0
        &&& self.receipt_event_hash != 0
        &&& self.receipt_hash != 0
        &&& self.receipt_hash == match self.spec_expected_receipt_hash() {
            Some(h) => h,
            None => 0,
        }
    }

    pub fn is_valid(self) -> (r: bool)
        ensures
            r == self.spec_is_valid(),
    {
        self.entry_hash().is_some() && self.policy_store_hash != 0 && self.receipt_event_seq != 0
            && self.receipt_event_hash != 0 && self.receipt_hash != 0 && self.receipt_hash
            == match self.expected_receipt_hash() {
            Some(h) => h,
            None => 0,
        }
    }

    /// A bound proof receipt, or `None` when the entry's key is unknown or a
    /// binding field is zero.
    pub fn new(
        entry: PolicyEntry,
        policy_store_hash: u64,
        receipt_event_seq: u64,
        receipt_event_hash: u64,
    ) -> (r: Option<Self>)
        ensures
            ({
                let base = PolicyProofReceipt {
                    entry,
                    policy_store_hash,
                    receipt_event_seq,
                    receipt_event_hash,
                    receipt_hash: 0,
                };
                match base.spec_expected_receipt_hash() {
                    Some(h) => {
                        let full = PolicyProofReceipt { receipt_hash: h, ..base };
                        if full.spec_is_valid() {
                            r == Some(full)
                        } else {
                            r is None
                        }
                    },
                    None => r is None,
                }
            }),
            r is Some <==> (spec_key_id(entry.key@) != 0 && policy_store_hash != 0
                && receipt_event_seq != 0 && receipt_event_hash != 0),
    {
        let mut receipt = PolicyProofReceipt {
            entry,
            policy_store_hash,
            receipt_event_seq,
            receipt_event_hash,
            receipt_hash: 0,
        };
        let h = match receipt.expected_receipt_hash() {
            Some(h) => h,
            None => {
                return None;
            },
        };
        receipt.receipt_hash = h;
        if receipt.is_valid() {
            Some(receipt)
        } else {
            None
        }
    }

    pub open spec fn spec_provider_proof_hash(self, proof_event_seq: u64) -> Option<u64> {
        if !self.spec_is_valid() || proof_event_seq <= self.receipt_event_seq {
            None
        } else {
            match (self.spec_receipt_core_hash(), self.spec_entry_hash()) {
                (Some(core), Some(eh)) => {
                    let h = spec_mix(0x504f_4c49_4359_5052u64, core);
                    let h = spec_mix(h, self.receipt_hash);
                    let h = spec_mix(h, self.receipt_event_hash);
                    let h = spec_mix(h, proof_event_seq);
                    let h = spec_mix(h, eh);
                    Some(nz(h))
                },
                _ => None,
            }
        }
    }

    pub fn provider_proof_hash(self, proof_event_seq: u64) -> (r: Option<u64>)
        ensures
            r == self.spec_provider_proof_hash(proof_event_seq),
    {
        if !self.is_valid() || proof_event_seq <= self.receipt_event_seq {
            return None;
        }
        let core = match self.receipt_core_hash() {
            Some(h) => h,
            None => {
                return None;
            },
        };
        let eh = match self.entry_hash() {
            Some(h) => h,
            None => {
                return None;
            },
        };
        let mut h = mix(0x504f_4c49_4359_5052u64, core);
        h = mix(h, self.receipt_hash);
        h = mix(h, self.receipt_event_hash);
        h = mix(h, proof_event_seq);
        h = mix(h, eh);
        Some(nonzero(h))
    }

    pub fn canonical_authority_hash(self) -> (r: Option<u64>)
        ensures
            r == (if self.spec_is_valid() {
                Some(nz(spec_mix(0x504f_4c49_4359_4155u64, self.policy_store_hash)))
            } else {
                None
            }),
    {
        if !self.is_valid() {
            return None;
        }
        Some(nonzero(mix(0x504f_4c49_4359_4155u64, self.policy_store_hash)))
    }

    pub fn canonical_request_hash(self) -> (r: Option<u64>)
        ensures
            r == (if self.spec_is_valid() {
                match self.spec_entry_hash() {
                    Some(eh) => Some(nz(spec_mix(0x504f_4c49_4359_5251u64, eh))),
                    None => None,
                }
            } else {
                None
            }),
    {
        if !self.is_valid() {
            return None;
        }
        let eh = match self.entry_hash() {
            Some(h) => h,
            None => {
                return None;
            },
        };
        Some(nonzero(mix(0x504f_4c49_4359_5251u64, eh)))
    }
}

/// The line that stores an entry: `[schema, record, version, key id, value]`.
pub open spec fn spec_encode_policy_entry(entry: PolicyEntry) -> Seq<char> {
    encode_u64_list(
        seq![
            POLICY_SCHEMA_VERSION,
            POLICY_RECORD_ENTRY,
            entry.version,
            spec_key_id(entry.key@),
            entry.value,
        ],
    )
}

pub fn encode_policy_entry_ndjson(entry: &PolicyEntry) -> (r: Result<String, PolicyStoreError>)
    ensures
        match r {
            Ok(s) => spec_key_id(entry.key@) != 0 && s@ == spec_encode_policy_entry(*entry),
            Err(e) => spec_key_id(entry.key@) == 0 && e == PolicyStoreError::UnknownPolicyKey,
        },
{
    let key = match key_to_id(entry.key) {
        Ok(k) => k,
        Err(e) => {
            return Err(e);
        },
    };
    let fields = [POLICY_SCHEMA_VERSION, POLICY_RECORD_ENTRY, entry.version, key, entry.value];
    let s = encode_u64_list_exec(&fields);
    assert(fields@ =~= seq![
        POLICY_SCHEMA_VERSION,
        POLICY_RECORD_ENTRY,
        entry.version,
        spec_key_id(entry.key@),
        entry.value,
    ]);
    Ok(s)
}

/// The entry a stored line holds, when it is one.
pub open spec fn spec_decode_policy_entry_fields(fields: Seq<u64>) -> Option<(u64, u64, u64)> {
    if fields.len() == 5 && fields[0] == POLICY_SCHEMA_VERSION && fields[1] == POLICY_RECORD_ENTRY
        && (fields[3] == POLICY_KEY_PROMOTION_SOURCE_SEQ || fields[3] == POLICY_KEY_FEEDBACK_HASH) {
        Some((fields[2], fields[3], fields[4]))
    } else {
        None
    }
}

/// An entry of a known key written as a record line reads back with the
/// same version, key and value.
pub proof fn lemma_policy_entry_round_trip(entry: PolicyEntry)
    requires
        spec_key_id(entry.key@) != 0,
    ensures
        parse_u64_list(spec_encode_policy_entry(entry)) matches Some(fs)
            && spec_decode_policy_entry_fields(fs) == Some(
            (entry.version, spec_key_id(entry.key@), entry.value),
        ),
{
    lemma_u64_list_round_trip(
        seq![
            POLICY_SCHEMA_VERSION,
            POLICY_RECORD_ENTRY,
            entry.version,
            spec_key_id(entry.key@),
            entry.value,
        ],
    );
}

pub fn decode_policy_entry_ndjson(line: &str) -> (r: Result<PolicyEntry, PolicyStoreError>)
    ensures
        match r {
            Ok(e) => match parse_u64_list(line@) {
                Some(fs) => spec_decode_policy_entry_fields(fs) == Some(
                    (e.version, spec_key_id(e.key@), e.value),
                ),
                None => false,
            },
            Err(err) => match parse_u64_list(line@) {
                Some(fs) => {
                    let shape_ok = fs.len() == 5 && fs[0] == POLICY_SCHEMA_VERSION && fs[1]
                        == POLICY_RECORD_ENTRY;
                    (!shape_ok && err == PolicyStoreError::InvalidPolicyRecord) || (shape_ok
                        && spec_decode_policy_entry_fields(fs) is None && err
                        == PolicyStoreError::UnknownPolicyKey)
                },
                None => err == PolicyStoreError::InvalidPolicyRecord,
            },
        },
{
    proof {
        lemma_policy_keys_distinct();
    }
    let fields = match parse_u64_list_exec(line) {
        Some(f) => f,
        None => {
            return Err(PolicyStoreError::InvalidPolicyRecord);
        },
    };
    if fields.len() != 5 || fields[0] != POLICY_SCHEMA_VERSION || fields[1] != POLICY_RECORD_ENTRY {
        return Err(PolicyStoreError::InvalidPolicyRecord);
    }
    let key = match key_from_id(fields[3]) {
        Ok(k) => k,
        Err(e) => {
            return Err(e);
        },
    };
    Ok(PolicyEntry { version: fields[2], key, value: fields[4] })
}

} // verus!
