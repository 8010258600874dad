//! The claim ledger: one record for each participant and round, written
//! once and never changed or removed.

use crate::access::same_text;
use crate::decimal::{decimal, to_decimal};
use crate::error::ContractError;
use vstd::prelude::*;

verus! {

/// One claim: who claimed, in which round, and with what stake.
#[derive(Clone, Debug, PartialEq, Eq)]
pub struct ClaimRecord {
    pub round_id: u64,
    pub participant: String,
    pub stake: u128,
}

/// A claim record with the participant as text.
pub struct ClaimView {
    pub round_id: u64,
    pub participant: Seq<char>,
    pub stake: u128,
}

impl View for ClaimRecord {
    type V = ClaimView;

    open spec fn view(&self) -> ClaimView {
        ClaimView { round_id: self.round_id, participant: self.participant@, stake: self.stake }
    }
}

/// The record is the one of `participant` in round `round_id`.
pub open spec fn is_claim_of(record: ClaimView, round_id: u64, participant: Seq<char>) -> bool {
    record.round_id == round_id && record.participant == participant
}

/// The stake with which `participant` claimed in round `round_id`, if there
/// is such a record.
pub open spec fn claimed_stake(
    records: Seq<ClaimView>,
    round_id: u64,
    participant: Seq<char>,
) -> Option<u128>
    decreases records.len(),
{
    if records.len() == 0 {
        None
    } else if is_claim_of(records.last(), round_id, participant) {
        Some(records.last().stake)
    } else {
        claimed_stake(records.drop_last(), round_id, participant)
    }
}

/// No participant has two records in one round.
pub open spec fn distinct_claims(records: Seq<ClaimView>) -> bool {
    forall|i: int, j: int|
        0 <= i < j < records.len() ==> !is_claim_of(
            #[trigger] records[j],
            (#[trigger] records[i]).round_id,
            records[i].participant,
        )
}

/// The records of all rounds, in the order in which they were written.
#[derive(Clone, Debug, PartialEq, Eq)]
pub struct ClaimLedger {
    records: Vec<ClaimRecord>,
}

impl View for ClaimLedger {
    type V = Seq<ClaimView>;

    closed spec fn view(&self) -> Seq<ClaimView> {
        self.records@.map_values(|record: ClaimRecord| record@)
    }
}

impl ClaimLedger {
    /// A ledger without records.
    pub fn new() -> (ledger: Self)
        ensures
            ledger@ == Seq::<ClaimView>::empty(),
    {
        let ledger = ClaimLedger { records: Vec::new() };
        assert(ledger@ =~= Seq::<ClaimView>::empty());
        ledger
    }

    /// The number of records.
    pub fn len(&self) -> (n: usize)
        ensures
            n == self@.len(),
    {
        self.records.len()
    }

    /// The record at position `index`, oldest first, if there are that many.
    pub fn record(&self, index: usize) -> (record: Option<&ClaimRecord>)
        ensures
            match record {
                Some(record) => index < self@.len() && record@ == self@[index as int],
                None => index >= self@.len(),
            },
    {
        if index < self.records.len() {
            Some(&self.records[index])
        } else {
            None
        }
    }

    /// The stake with which `participant` claimed in round `round_id`.
    pub fn stake_of(&self, round_id: u64, participant: &str) -> (stake: Option<u128>)
        ensures
            stake == claimed_stake(self@, round_id, participant@),
    {
        let mut i: usize = self.records.len();
        assert(self@.take(i as int) =~= self@);
        while i > 0
            invariant
                i <= self.records.len(),
                self@.len() == self.records.len(),
                claimed_stake(self@, round_id, participant@) == claimed_stake(
                    self@.take(i as int),
                    round_id,
                    participant@,
                ),
            decreases i,
        {
            let record = &self.records[i - 1];
            proof {
                let prefix = self@.take(i as int);
                assert(prefix.last() == record@);
                assert(prefix.drop_last() =~= self@.take(i - 1));
            }
            if record.round_id == round_id && same_text(record.participant.as_str(), participant) {
                return Some(record.stake);
            }
            i -= 1;
        }
        None
    }

    /// Whether `participant` has claimed in round `round_id`: the stake of
    /// that claim, in decimal, if so.
    pub fn has_claimed(&self, round_id: u64, participant: &str) -> (stake: Option<String>)
        ensures
            stake is Some <==> claimed_stake(self@, round_id, participant@) is Some,
            stake matches Some(text) ==> text@ == decimal(
                claimed_stake(self@, round_id, participant@).unwrap() as nat,
            ),
    {
        match self.stake_of(round_id, participant) {
            Some(stake) => Some(to_decimal(stake)),
            None => None,
        }
    }

    /// Records the claim of `participant` in round `round_id`, unless there
    /// is one already: then nothing changes.
    pub fn record_claim(
        &mut self,
        round_id: u64,
        participant: &str,
        stake: u128,
    ) -> (r: Result<(), ContractError>)
        ensures
            match r {
                Ok(_) => {
                    &&& claimed_stake(old(self)@, round_id, participant@) is None
                    &&& final(self)@ == old(self)@.push(
                        ClaimView { round_id, participant: participant@, stake },
                    )
                },
                Err(e) => {
                    &&& e == ContractError::AlreadyClaimed
                    &&& claimed_stake(old(self)@, round_id, participant@) is Some
                    &&& *final(self) == *old(self)
                },
            },
            distinct_claims(old(self)@) ==> distinct_claims(final(self)@),
    {
        if self.stake_of(round_id, participant).is_some() {
            return Err(ContractError::AlreadyClaimed);
        }
        let record = ClaimRecord { round_id, participant: String::from_str(participant), stake };
        self.records.push(record);
        proof {
            let added = ClaimView { round_id, participant: participant@, stake };
            assert(self@ =~= old(self)@.push(added));
            if distinct_claims(old(self)@) {
                lemma_unclaimed_has_no_record(old(self)@, round_id, participant@);
            }
        }
        Ok(())
    }
}

/// A participant without a claim in a round has no record there, and one
/// with a record has a claim.
pub proof fn lemma_unclaimed_has_no_record(
    records: Seq<ClaimView>,
    round_id: u64,
    participant: Seq<char>,
)
    ensures
        claimed_stake(records, round_id, participant) is None <==> forall|i: int|
            0 <= i < records.len() ==> !is_claim_of(#[trigger] records[i], round_id, participant),
    decreases records.len(),
{
    if records.len() > 0 {
        lemma_unclaimed_has_no_record(records.drop_last(), round_id, participant);
        let shorter = records.drop_last();
        assert(forall|i: int| 0 <= i < shorter.len() ==> shorter[i] == records[i]);
        if !is_claim_of(records.last(), round_id, participant) {
            if claimed_stake(shorter, round_id, participant) is None {
                assert forall|i: int| 0 <= i < records.len() implies !is_claim_of(
                    #[trigger] records[i],
                    round_id,
                    participant,
                ) by {
                    if i < shorter.len() {
                        assert(shorter[i] == records[i]);
                    }
                }
            } else {
                let i = choose|i: int|
                    0 <= i < shorter.len() && is_claim_of(
                        #[trigger] shorter[i],
                        round_id,
                        participant,
                    );
                assert(is_claim_of(records[i], round_id, participant));
            }
        }
    }
}

} // verus!
