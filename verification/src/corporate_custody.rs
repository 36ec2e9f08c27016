//! What a corporate journal keeps beside its requests: the enrolled holder, the
//! pinned scope, redeemed claims, and the wallet that follows from it all.

use crate::bytes::{digest_equal, hex_encode, hex_text, Digest32};
use crate::corporate::{
    CorporateNativeConfig, FacilityWitness, PreparedCorporateReserve, ReserveScope,
};
use crate::corporate_api::{asset_balance, wallet_asset, AssetBalance, Escrow, WalletNote};
use crate::corporate_authorization::validate_scope;
use crate::corporate_journal::{looked, malformed, JournalBody, NativeCorporateJournal};
use crate::corporate_journal_model::{malformed_record, JournalView, Looked};
use crate::market_journal::values;
use crate::scalars::{canonical_scalar, scalar_is_canonical};
use crate::store::text_result;
use crate::text::{joined_text, strip_prefix, text_after};
use vstd::prelude::*;

verus! {

/// The key of an enrolled holder.
pub open spec fn eligibility_key(scope: Digest32) -> Seq<char> {
    "eligibility:"@ + hex_text(scope@)
}

/// The key of a redeemed claim.
pub open spec fn redemption_key(claim: Digest32) -> Seq<char> {
    "redemption:"@ + hex_text(claim@)
}

impl JournalView {
    /// An encoded record under a key.
    pub open spec fn encoded(self, key: Seq<char>) -> Looked<Vec<u8>> {
        match self.get(key) {
            Err(text) => Err(text),
            Ok(None) => Ok(None),
            Ok(Some(JournalBody::Other(wire))) => Ok(Some(wire)),
            Ok(Some(_)) => Err(malformed_record()),
        }
    }

    /// Enroll a holder. `proposed` is the digest of the credential that is
    /// proposed, `enrolled` that of the credential that was enrolled before.
    pub open spec fn enroll_eligibility(
        self,
        scope: Digest32,
        wire: Vec<u8>,
        custody_fault: Option<Seq<char>>,
        proposed: Result<Digest32, Seq<char>>,
        enrolled: Result<Digest32, Seq<char>>,
    ) -> (JournalView, Result<(), Seq<char>>) {
        match (custody_fault, proposed) {
            (Some(text), _) => (self, Err(text)),
            (None, Err(text)) => (self, Err(text)),
            (None, Ok(digest)) => match self.encoded(eligibility_key(scope)) {
                Err(text) => (self, Err(text)),
                Ok(None) => (
                    self.with_record(eligibility_key(scope), JournalBody::Other(wire)),
                    Ok(()),
                ),
                Ok(Some(_)) => match enrolled {
                    Err(text) => (self, Err(text)),
                    Ok(kept) => if kept != digest {
                        (
                            self,
                            Err(
                                "credential already enrolled; renewal requires an explicit new credential epoch"@,
                            ),
                        )
                    } else {
                        (self, Ok(()))
                    },
                },
            },
        }
    }

    /// Pin the scope that the ledger reports, or give the one that was pinned.
    /// `fresh` is what the ledger reports, if it was asked.
    pub open spec fn pin_scope(self, fresh: Result<ReserveScope, Seq<char>>) -> (
        JournalView,
        Result<ReserveScope, Seq<char>>,
    ) {
        match self.get("authorization-scope"@) {
            Err(text) => (self, Err(text)),
            Ok(Some(JournalBody::Scope(scope))) => (self, Ok(scope)),
            Ok(Some(_)) => (self, Err(malformed_record())),
            Ok(None) => match fresh {
                Err(text) => (self, Err(text)),
                Ok(scope) => (
                    self.with_record("authorization-scope"@, JournalBody::Scope(scope)),
                    Ok(scope),
                ),
            },
        }
    }

    /// The reservations among the first `count` records, in order.
    pub open spec fn reservations_among(self, count: nat) -> Result<
        Seq<PreparedCorporateReserve>,
        Seq<char>,
    >
        decreases count,
    {
        if count == 0 {
            Ok(Seq::empty())
        } else {
            match self.reservations_among((count - 1) as nat) {
                Err(text) => Err(text),
                Ok(earlier) => {
                    let key = self.order[count - 1];
                    if text_after(key, "reserve:"@) is None {
                        Ok(earlier)
                    } else {
                        match self.get(key) {
                            Err(text) => Err(text),
                            Ok(None) => Err("saved reserve disappeared"@),
                            Ok(Some(JournalBody::Reserve(prepared))) => Ok(earlier.push(prepared)),
                            Ok(Some(_)) => Err(malformed_record()),
                        }
                    }
                },
            }
        }
    }

    /// Every reservation, in order.
    pub open spec fn reservations(self) -> Result<Seq<PreparedCorporateReserve>, Seq<char>> {
        self.reservations_among(self.order.len())
    }
}

proof fn lemma_reservations_error(journal: JournalView, at: nat, count: nat)
    requires
        at <= count,
        journal.reservations_among(at) is Err,
    ensures
        journal.reservations_among(count) == journal.reservations_among(at),
    decreases count,
{
    if at < count {
        lemma_reservations_error(journal, at, (count - 1) as nat);
    }
}

/// A digest or an error, with the text as characters.
pub open spec fn digest_result(r: Result<Digest32, String>) -> Result<Digest32, Seq<char>> {
    match r {
        Ok(digest) => Ok(digest),
        Err(text) => Err(text@),
    }
}

impl NativeCorporateJournal {
    /// An encoded record under a key.
    fn encoded(&self, key: &str) -> (r: Result<Option<&Vec<u8>>, String>)
        requires
            self.wf(),
        ensures
            looked(r) == self@.encoded(key@),
    {
        match self.get(key) {
            Err(e) => Err(e),
            Ok(None) => Ok(None),
            Ok(Some(JournalBody::Other(wire))) => Ok(Some(wire)),
            Ok(Some(_)) => Err(malformed()),
        }
    }

    /// The encoding of the enrolled holder of a scope, if one is enrolled.
    pub fn enrolled_wire(&self, scope: &Digest32) -> (r: Result<Option<&Vec<u8>>, String>)
        requires
            self.wf(),
        ensures
            looked(r) == self@.encoded(eligibility_key(*scope)),
    {
        let name = hex_encode(scope);
        let key = joined_text("eligibility:", name.as_str());
        self.encoded(key.as_str())
    }

    /// The enrolled holder of a scope, and the seed of the key that opens it. A
    /// holder that is not enrolled is never replaced by a new one.
    pub fn enrolled_eligibility<'a>(
        &'a self,
        config: &'a CorporateNativeConfig,
        scope: &Digest32,
    ) -> (r: Result<(&'a Vec<u8>, &'a Vec<u8>), String>)
        requires
            self.wf(),
        ensures
            match self@.encoded(eligibility_key(*scope)) {
                Err(text) => r matches Err(e) && e@ == text,
                Ok(None) => r matches Err(e) && e@
                    == "corporate holder credential is not enrolled; authenticated recovery is required"@,
                Ok(Some(wire)) => match config.custody_fault() {
                    Some(text) => r matches Err(e) && e@ == text,
                    None => r matches Ok(found) && *found.0 == wire && found.1@
                        == config.credential_custody_seed@,
                },
            },
    {
        match self.enrolled_wire(scope) {
            Err(e) => Err(e),
            Ok(None) => Err(
                "corporate holder credential is not enrolled; authenticated recovery is required".to_owned(),
            ),
            Ok(Some(wire)) => match config.credential_custody_key() {
                Err(e) => Err(e),
                Ok(seed) => Ok((wire, seed)),
            },
        }
    }

    /// Explicit enrollment only. A restart recovers the exact issued holder and
    /// never makes a new independent signing key. `proposed` is the digest of
    /// the credential that `wire` restores to, `enrolled` that of the one that
    /// is enrolled already.
    pub fn enroll_eligibility(
        &mut self,
        config: &CorporateNativeConfig,
        scope: &Digest32,
        wire: Vec<u8>,
        proposed: Result<Digest32, String>,
        enrolled: Result<Digest32, String>,
    ) -> (r: Result<(), String>)
        requires
            old(self).wf(),
        ensures
            final(self).wf(),
            (final(self)@, text_result(r)) == old(self)@.enroll_eligibility(
                *scope,
                wire,
                config.custody_fault(),
                digest_result(proposed),
                digest_result(enrolled),
            ),
    {
        match config.credential_custody_key() {
            Err(e) => return Err(e),
            Ok(_) => {},
        }
        let digest: Digest32 = match proposed {
            Err(e) => return Err(e),
            Ok(digest) => digest,
        };
        let name = hex_encode(scope);
        let key = joined_text("eligibility:", name.as_str());
        let known: bool = match self.encoded(key.as_str()) {
            Err(e) => return Err(e),
            Ok(None) => false,
            Ok(Some(_)) => true,
        };
        if !known {
            return self.put_first(key, JournalBody::Other(wire));
        }
        match enrolled {
            Err(e) => Err(e),
            Ok(kept) => {
                if !digest_equal(&kept, &digest) {
                    return Err(
                        "credential already enrolled; renewal requires an explicit new credential epoch".to_owned(),
                    );
                }
                Ok(())
            },
        }
    }

    /// The pinned scope. The first scope that the ledger reports stays; each
    /// use checks it against the deployment. `checked` is the outcome of the
    /// scope's own check, `manifest` the digest of the application manifest.
    pub fn authorization_scope(
        &mut self,
        config: &CorporateNativeConfig,
        fresh: Result<ReserveScope, String>,
        checked: &Result<(), String>,
        manifest: &Digest32,
    ) -> (r: Result<ReserveScope, String>)
        requires
            old(self).wf(),
        ensures
            final(self).wf(),
            ({
                let (next, pinned) = old(self)@.pin_scope(text_result(fresh));
                &&& final(self)@ == next
                &&& match pinned {
                    Err(text) => r matches Err(e) && e@ == text,
                    Ok(scope) => {
                        &&& r is Ok == (checked is Ok && scope.configured(config, *manifest))
                        &&& r matches Ok(found) ==> found == scope
                        &&& r matches Err(e) ==> e@ == (match checked {
                            Err(text) => text@,
                            Ok(_) => "DeFMI returned another configured application scope"@,
                        })
                    },
                }
            }),
    {
        let kept: Option<ReserveScope> = match self.get("authorization-scope") {
            Err(e) => return Err(e),
            Ok(Some(JournalBody::Scope(scope))) => Some(*scope),
            Ok(Some(_)) => return Err(malformed()),
            Ok(None) => None,
        };
        let scope: ReserveScope = match kept {
            Some(scope) => scope,
            None => {
                let scope: ReserveScope = match fresh {
                    Err(e) => return Err(e),
                    Ok(scope) => scope,
                };
                match self.put_first(
                    "authorization-scope".to_owned(),
                    JournalBody::Scope(scope),
                ) {
                    Err(e) => return Err(e),
                    Ok(_) => {},
                }
                scope
            },
        };
        match validate_scope(config, &scope, checked, manifest) {
            Err(e) => Err(e),
            Ok(_) => Ok(scope),
        }
    }

    /// Every reservation, in order.
    pub fn reservations(&self) -> (r: Result<Vec<&PreparedCorporateReserve>, String>)
        requires
            self.wf(),
        ensures
            match self@.reservations() {
                Ok(list) => r matches Ok(found) && values(found@) == list,
                Err(text) => r matches Err(e) && e@ == text,
            },
    {
        let records = self.records();
        let total: usize = records.len();
        let mut list: Vec<&PreparedCorporateReserve> = Vec::new();
        let mut i: usize = 0;
        assert(values(list@) =~= Seq::<PreparedCorporateReserve>::empty());
        while i < total
            invariant
                self.wf(),
                records.wf(),
                records.keys() == self@.order,
                total == records.count(),
                total == self@.order.len(),
                i <= total,
                self@.reservations_among(i as nat) == Ok::<
                    Seq<PreparedCorporateReserve>,
                    Seq<char>,
                >(values(list@)),
            decreases total - i,
        {
            let key = records.key_at(i);
            assert(key@ == self@.order[i as int]);
            if strip_prefix(key, "reserve:").is_some() {
                match self.get(key) {
                    Err(e) => {
                        proof {
                            lemma_reservations_error(self@, (i + 1) as nat, self@.order.len());
                        }
                        return Err(e);
                    },
                    Ok(None) => {
                        proof {
                            lemma_reservations_error(self@, (i + 1) as nat, self@.order.len());
                        }
                        return Err("saved reserve disappeared".to_owned());
                    },
                    Ok(Some(JournalBody::Reserve(prepared))) => {
                        let ghost before = list@;
                        list.push(prepared);
                        assert(values(list@) =~= values(before).push(*prepared));
                    },
                    Ok(Some(_)) => {
                        proof {
                            lemma_reservations_error(self@, (i + 1) as nat, self@.order.len());
                        }
                        return Err(malformed());
                    },
                }
            }
            i += 1;
        }
        Ok(list)
    }

    /// The encoding of a claim's redemption, if it was redeemed.
    pub fn claim_redemption(&self, claim: &Digest32) -> (r: Result<Option<&Vec<u8>>, String>)
        requires
            self.wf(),
        ensures
            looked(r) == self@.encoded(redemption_key(*claim)),
    {
        let name = hex_encode(claim);
        let key = joined_text("redemption:", name.as_str());
        self.encoded(key.as_str())
    }

    /// Keep a claim's redemption. The first one stays. `checked` is the outcome
    /// of the redemption's own check.
    pub fn save_claim_redemption(
        &mut self,
        claim: &Digest32,
        wire: Vec<u8>,
        checked: Result<(), String>,
    ) -> (r: Result<(), String>)
        requires
            old(self).wf(),
        ensures
            final(self).wf(),
            match checked {
                Err(text) => final(self)@ == old(self)@ && (r matches Err(e) && e@ == text@),
                Ok(_) => {
                    let (next, kept) = old(self)@.put_first(
                        redemption_key(*claim),
                        JournalBody::Other(wire),
                    );
                    &&& final(self)@ == next
                    &&& match kept {
                        Ok(_) => r is Ok,
                        Err(text) => r matches Err(e) && e@ == text,
                    }
                },
            },
    {
        match checked {
            Err(e) => return Err(e),
            Ok(_) => {},
        }
        let name = hex_encode(claim);
        let key = joined_text("redemption:", name.as_str());
        self.put_first(key, JournalBody::Other(wire))
    }
}

/// The notes of one asset as the ledger listed them at a root.
pub struct AssetScan {
    pub asset_id: Digest32,
    pub read_root: Digest32,
    pub notes: Vec<WalletNote>,
}

/// A wallet at one root of the ledger.
pub struct WalletSnapshot {
    pub state_root: Digest32,
    pub cash: AssetBalance,
    pub security: AssetBalance,
    pub facility: FacilityWitness,
}

/// Why a wallet has no snapshot, if it has none.
pub open spec fn snapshot_fault(
    config: &CorporateNativeConfig,
    escrows: Seq<Escrow>,
    cash: &AssetScan,
    security: &AssetScan,
    held: u64,
    root: Digest32,
    final_root: Digest32,
) -> Option<Seq<char>> {
    if !canonical_scalar(config.wallet_spend_secret@) {
        Some("invalid corporate spend key"@)
    } else if config.wallet_opening_seed@.len() != 96 {
        Some("corporate wallet requires its independent 96-byte opening seed"@)
    } else {
        match asset_balance(
            cash.notes@,
            escrows,
            cash.asset_id == config.asset_id,
            root,
            cash.read_root,
            held,
        ) {
            Err(text) => Some(text),
            Ok(_) => match asset_balance(
                security.notes@,
                escrows,
                security.asset_id == config.asset_id,
                root,
                security.read_root,
                held,
            ) {
                Err(text) => Some(text),
                Ok(_) => if final_root != root {
                    Some("wallet snapshot changed"@)
                } else {
                    None
                },
            },
        }
    }
}

/// Put a wallet together from reads that all show one root. `escrows` are the
/// escrow notes of its reservations.
pub fn wallet_snapshot(
    config: &CorporateNativeConfig,
    escrows: &Vec<Escrow>,
    cash: &AssetScan,
    security: &AssetScan,
    facility: FacilityWitness,
    root: &Digest32,
    final_root: &Digest32,
) -> (r: Result<WalletSnapshot, String>)
    ensures
        ({
            let held = facility.values@[1];
            let fault = snapshot_fault(
                config,
                escrows@,
                cash,
                security,
                held,
                *root,
                *final_root,
            );
            &&& r is Ok == fault is None
            &&& r matches Err(e) ==> Some(e@) == fault
            &&& r matches Ok(snapshot) ==> {
                &&& snapshot.state_root == *root
                &&& snapshot.facility == facility
                &&& asset_balance(
                    cash.notes@,
                    escrows@,
                    cash.asset_id == config.asset_id,
                    *root,
                    cash.read_root,
                    held,
                ) == Ok::<(nat, nat), Seq<char>>(
                    (snapshot.cash.spendable as nat, snapshot.cash.locked as nat),
                )
                &&& asset_balance(
                    security.notes@,
                    escrows@,
                    security.asset_id == config.asset_id,
                    *root,
                    security.read_root,
                    held,
                ) == Ok::<(nat, nat), Seq<char>>(
                    (snapshot.security.spendable as nat, snapshot.security.locked as nat),
                )
            }
        }),
{
    if !scalar_is_canonical(&config.wallet_spend_secret) {
        return Err("invalid corporate spend key".to_owned());
    }
    match config.note_opening_key() {
        Err(e) => return Err(e),
        Ok(_) => {},
    }
    let held: u64 = facility.values[1];
    let own_cash: bool = digest_equal(&cash.asset_id, &config.asset_id);
    let cash_balance = match wallet_asset(
        &cash.notes,
        escrows,
        own_cash,
        root,
        &cash.read_root,
        held,
    ) {
        Err(e) => return Err(e),
        Ok(balance) => balance,
    };
    let own_security: bool = digest_equal(&security.asset_id, &config.asset_id);
    let security_balance = match wallet_asset(
        &security.notes,
        escrows,
        own_security,
        root,
        &security.read_root,
        held,
    ) {
        Err(e) => return Err(e),
        Ok(balance) => balance,
    };
    if !digest_equal(final_root, root) {
        return Err("wallet snapshot changed".to_owned());
    }
    Ok(
        WalletSnapshot {
            state_root: *root,
            cash: cash_balance,
            security: security_balance,
            facility,
        },
    )
}

} // verus!
