use vstd::prelude::*;
use crate::error::TrustError;
use crate::identity::{identity_eq, Identity};
use crate::instruction::{parse_instruction, InstructionView, TrustInstruction};
use crate::ledger::{qualifies, LedgerAccount};
use crate::record::{decode_record, spec_decode_record, CarTrustState};

verus! {

/// What an operation asks of the host after the verified part of its work is
/// done. The host performs the storage allocation, the score arithmetic and
/// the writes, then persists what the follow-up functions of this module
/// hand back.
#[derive(Debug)]
pub enum HostDirective {
    /// The car's slot already holds data: a benign no-op, not an error.
    CarAlreadyInitialized,
    /// Allocate the car's slot at the record's serialized size, funded at
    /// the host's rent-exempt minimum, then store this record there.
    CreateCarRecord { record: CarTrustState },
    /// Both parties validated and decoded: apply the feedback formula to the
    /// sender's score, then store what `report_apply` returns.
    ApplyFeedback { reporter: CarTrustState, sender: CarTrustState, is_true: bool },
    /// The qualifying accounts, in order of appearance, with their decoded
    /// records: run the five propagation iterations over the scores, then
    /// store what `batch_finalize` returns, slot by slot. An empty list is
    /// a success with nothing to write.
    RecomputeScores { indices: Vec<usize>, records: Vec<CarTrustState> },
}

/// The outcome of Account Initialization on a car slot: rejected when the
/// slot is not owned by this module; a no-op when it already holds data;
/// otherwise a fresh record carrying the caller's score bits and the current
/// clock value.
pub open spec fn init_outcome(
    program_id: Seq<u8>,
    car: LedgerAccount,
    initial_trust_bits: u64,
    now: i64,
) -> Result<Option<CarTrustState>, TrustError> {
    if car.owner@ != program_id {
        Err(TrustError::OwnershipMismatch)
    } else if car.data@.len() > 0 {
        Ok(None)
    } else {
        Ok(
            Some(
                CarTrustState {
                    trust_score_bits: initial_trust_bits,
                    last_updated_timestamp: now,
                },
            ),
        )
    }
}

/// The outcome of validating and decoding a feedback report: each handle's
/// identity must equal the instruction argument and its owner must be this
/// module, else the report is rejected with an ownership mismatch; then both
/// slots must parse as records, else with a decode failure.
pub open spec fn report_outcome(
    program_id: Seq<u8>,
    reporter_account: LedgerAccount,
    sender_account: LedgerAccount,
    reporter: Seq<u8>,
    message_sender: Seq<u8>,
) -> Result<(CarTrustState, CarTrustState), TrustError> {
    if reporter_account.key@ != reporter || reporter_account.owner@ != program_id {
        Err(TrustError::OwnershipMismatch)
    } else if sender_account.key@ != message_sender || sender_account.owner@ != program_id {
        Err(TrustError::OwnershipMismatch)
    } else if reporter_account.data@.len() != 16 {
        Err(TrustError::RecordDecodeFailure)
    } else if sender_account.data@.len() != 16 {
        Err(TrustError::RecordDecodeFailure)
    } else {
        Ok(
            (
                spec_decode_record(reporter_account.data@),
                spec_decode_record(sender_account.data@),
            ),
        )
    }
}

/// The positions of the accounts that batch recalculation treats as car
/// records, in order of appearance.
pub open spec fn candidate_indices(program_id: Seq<u8>, accounts: Seq<LedgerAccount>) -> Seq<int>
    decreases accounts.len(),
{
    if accounts.len() == 0 {
        Seq::empty()
    } else {
        let prefix = candidate_indices(program_id, accounts.drop_last());
        if qualifies(program_id, accounts.last()) {
            prefix.push(accounts.len() - 1)
        } else {
            prefix
        }
    }
}

/// Law: every candidate position is in range and qualifies.
pub proof fn lemma_candidate_indices_qualify(program_id: Seq<u8>, accounts: Seq<LedgerAccount>)
    ensures
        forall|k: int|
            0 <= k < candidate_indices(program_id, accounts).len() ==> {
                let i = #[trigger] candidate_indices(program_id, accounts)[k];
                0 <= i < accounts.len() && qualifies(program_id, accounts[i])
            },
    decreases accounts.len(),
{
    if accounts.len() > 0 {
        let prefix = accounts.drop_last();
        lemma_candidate_indices_qualify(program_id, prefix);
        let cand = candidate_indices(program_id, accounts);
        let cand_prefix = candidate_indices(program_id, prefix);
        assert forall|k: int| #![trigger cand[k]] 0 <= k < cand.len() implies {
            let i = cand[k];
            0 <= i < accounts.len() && qualifies(program_id, accounts[i])
        } by {
            if k < cand_prefix.len() {
                let i = cand_prefix[k];
                assert(0 <= i < prefix.len() && qualifies(program_id, prefix[i]));
                assert(prefix[i] == accounts[i]);
            } else {
                assert(qualifies(program_id, accounts.last()));
                assert(cand[k] == accounts.len() - 1);
            }
        }
    }
}

/// Law: every qualifying position is a candidate; no account owned by this
/// module with a populated slot is passed over.
pub proof fn lemma_candidate_indices_complete(program_id: Seq<u8>, accounts: Seq<LedgerAccount>)
    ensures
        forall|i: int|
            0 <= i < accounts.len() && qualifies(program_id, #[trigger] accounts[i])
                ==> candidate_indices(program_id, accounts).contains(i),
    decreases accounts.len(),
{
    if accounts.len() > 0 {
        let prefix = accounts.drop_last();
        lemma_candidate_indices_complete(program_id, prefix);
        assert forall|i: int|
            0 <= i < accounts.len() && qualifies(program_id, accounts[i]) implies candidate_indices(
            program_id,
            accounts,
        ).contains(i) by {
            if i < accounts.len() - 1 {
                assert(prefix[i] == accounts[i]);
                assert(candidate_indices(program_id, prefix).contains(i));
                let k = choose|k: int|
                    0 <= k < candidate_indices(program_id, prefix).len() && candidate_indices(
                        program_id,
                        prefix,
                    )[k] == i;
                assert(candidate_indices(program_id, accounts)[k] == i);
            } else {
                assert(accounts.last() == accounts[i]);
                let cand = candidate_indices(program_id, accounts);
                assert(cand[cand.len() - 1] == i);
            }
        }
    }
}

/// Every qualifying slot parses as a record; when this fails anywhere, the
/// whole batch operation aborts.
pub open spec fn batch_decodes(program_id: Seq<u8>, accounts: Seq<LedgerAccount>) -> bool {
    forall|i: int|
        0 <= i < accounts.len() && qualifies(program_id, #[trigger] accounts[i]) ==> accounts[i].data@.len()
            == 16
}

/// What a successful batch collection hands the host: the candidate
/// positions in order, each with the record its slot decodes to.
pub open spec fn batch_result(
    program_id: Seq<u8>,
    accounts: Seq<LedgerAccount>,
    indices: Seq<usize>,
    records: Seq<CarTrustState>,
) -> bool {
    let cand = candidate_indices(program_id, accounts);
    &&& indices.len() == cand.len()
    &&& records.len() == cand.len()
    &&& forall|k: int| 0 <= k < cand.len() ==> (#[trigger] indices[k]) as int == cand[k]
    &&& forall|k: int|
        0 <= k < cand.len() ==> (#[trigger] records[k]) == spec_decode_record(
            accounts[cand[k]].data@,
        )
}

/// Account Initialization, the decision part. The host has already been
/// asked for the clock value `now`; allocation and funding follow only when
/// a fresh record comes back.
pub fn initialize_car(
    program_id: &Identity,
    car: &LedgerAccount,
    initial_trust_bits: u64,
    now: i64,
) -> (r: Result<Option<CarTrustState>, TrustError>)
    ensures
        r == init_outcome(program_id@, *car, initial_trust_bits, now),
{
    if !identity_eq(&car.owner, program_id) {
        return Err(TrustError::OwnershipMismatch);
    }
    if car.data.len() > 0 {
        return Ok(None);
    }
    Ok(Some(CarTrustState { trust_score_bits: initial_trust_bits, last_updated_timestamp: now }))
}

/// Peer Feedback Reporting, the validation and decoding part. A mismatched
/// identity or owner rejects the report before anything is decoded, and
/// nothing is written; on success both current records come back for the
/// host-side update formula.
pub fn report_message_outcome(
    program_id: &Identity,
    reporter_account: &LedgerAccount,
    sender_account: &LedgerAccount,
    reporter: &Identity,
    message_sender: &Identity,
) -> (r: Result<(CarTrustState, CarTrustState), TrustError>)
    ensures
        r == report_outcome(
            program_id@,
            *reporter_account,
            *sender_account,
            reporter@,
            message_sender@,
        ),
{
    if !identity_eq(&reporter_account.key, reporter) || !identity_eq(
        &reporter_account.owner,
        program_id,
    ) {
        return Err(TrustError::OwnershipMismatch);
    }
    if !identity_eq(&sender_account.key, message_sender) || !identity_eq(
        &sender_account.owner,
        program_id,
    ) {
        return Err(TrustError::OwnershipMismatch);
    }
    let reporter_record = match decode_record(&reporter_account.data) {
        Ok(rec) => rec,
        Err(e) => { return Err(e) },
    };
    let sender_record = match decode_record(&sender_account.data) {
        Ok(rec) => rec,
        Err(e) => { return Err(e) },
    };
    Ok((reporter_record, sender_record))
}

/// Peer Feedback Reporting, after the host computed the sender's new score
/// bits: the reporter's score is never changed by a report, and both
/// records' timestamps advance to the current clock value.
pub fn report_apply(reporter: &CarTrustState, new_sender_bits: u64, now: i64) -> (r: (
    CarTrustState,
    CarTrustState,
))
    ensures
        r.0 == (CarTrustState {
            trust_score_bits: reporter.trust_score_bits,
            last_updated_timestamp: now,
        }),
        r.1 == (CarTrustState { trust_score_bits: new_sender_bits, last_updated_timestamp: now }),
{
    (
        CarTrustState { trust_score_bits: reporter.trust_score_bits, last_updated_timestamp: now },
        CarTrustState { trust_score_bits: new_sender_bits, last_updated_timestamp: now },
    )
}

/// Batch Trust Recalculation, the collection part: scans every supplied
/// handle, keeps those owned by this module with a populated slot, and
/// decodes each. Handles that fail the filter are ignored, not errored; a
/// qualifying slot that does not parse aborts the whole operation. Over zero
/// qualifying accounts the scan succeeds with nothing to write.
pub fn update_trust_scores(program_id: &Identity, accounts: &Vec<LedgerAccount>) -> (r: Result<
    (Vec<usize>, Vec<CarTrustState>),
    TrustError,
>)
    ensures
        batch_decodes(program_id@, accounts@) ==> (r matches Ok(p) && batch_result(
            program_id@,
            accounts@,
            p.0@,
            p.1@,
        )),
        !batch_decodes(program_id@, accounts@) ==> r == Err::<
            (Vec<usize>, Vec<CarTrustState>),
            TrustError,
        >(TrustError::RecordDecodeFailure),
        (forall|i: int| 0 <= i < accounts@.len() ==> !qualifies(program_id@, #[trigger] accounts@[i]))
            ==> (r matches Ok(p) && p.0@.len() == 0 && p.1@.len() == 0),
{
    let ghost pid = program_id@;
    let mut indices: Vec<usize> = Vec::new();
    let mut records: Vec<CarTrustState> = Vec::new();
    let n = accounts.len();
    let mut j: usize = 0;
    while j < n
        invariant
            pid == program_id@,
            n == accounts@.len(),
            j <= n,
            batch_result(pid, accounts@.take(j as int), indices@, records@),
            forall|i: int|
                0 <= i < j && qualifies(pid, #[trigger] accounts@[i]) ==> accounts@[i].data@.len()
                    == 16,
        decreases n - j,
    {
        let ghost prefix = accounts@.take(j as int);
        let ghost indices0 = indices@;
        let ghost records0 = records@;
        let account = &accounts[j];
        if identity_eq(&account.owner, program_id) && account.data.len() > 0 {
            match decode_record(&account.data) {
                Ok(rec) => {
                    indices.push(j);
                    records.push(rec);
                },
                Err(e) => {
                    assert(qualifies(pid, accounts@[j as int]) && accounts@[j as int].data@.len()
                        != 16);
                    return Err(e);
                },
            }
        }
        j += 1;
        proof {
            let next = accounts@.take(j as int);
            assert(next.drop_last() =~= prefix);
            assert(next.last() == accounts@[j - 1]);
            lemma_candidate_indices_qualify(pid, prefix);
            let cand_prefix = candidate_indices(pid, prefix);
            let cand_next = candidate_indices(pid, next);
            if qualifies(pid, accounts@[j - 1]) {
                assert(cand_next =~= cand_prefix.push(j - 1));
                assert(indices@ == indices0.push((j - 1) as usize));
                assert(records@ == records0.push(spec_decode_record(accounts@[j - 1].data@)));
                assert forall|k: int|
                    0 <= k < cand_next.len() implies (#[trigger] indices@[k]) as int
                    == cand_next[k] by {
                    if k < cand_prefix.len() {
                        assert(indices@[k] == indices0[k]);
                        assert((indices0[k]) as int == cand_prefix[k]);
                        assert(cand_next[k] == cand_prefix[k]);
                    } else {
                        assert(indices@[k] == j - 1);
                        assert(cand_next[k] == j - 1);
                    }
                }
                assert forall|k: int|
                    0 <= k < cand_next.len() implies (#[trigger] records@[k])
                    == spec_decode_record(next[cand_next[k]].data@) by {
                    if k < cand_prefix.len() {
                        assert(records@[k] == records0[k]);
                        assert(records0[k] == spec_decode_record(prefix[cand_prefix[k]].data@));
                        assert(0 <= cand_prefix[k] < prefix.len());
                        assert(prefix[cand_prefix[k]] == accounts@[cand_prefix[k]]);
                        assert(cand_next[k] == cand_prefix[k]);
                        assert(next[cand_next[k]] == accounts@[cand_next[k]]);
                    } else {
                        assert(records@[k] == spec_decode_record(accounts@[j - 1].data@));
                        assert(cand_next[k] == j - 1);
                        assert(next[j - 1] == accounts@[j - 1]);
                    }
                }
            } else {
                assert(cand_next =~= cand_prefix);
                assert forall|k: int|
                    0 <= k < cand_next.len() implies (#[trigger] records@[k])
                    == spec_decode_record(next[cand_next[k]].data@) by {
                    assert(records@[k] == spec_decode_record(prefix[cand_prefix[k]].data@));
                    assert(0 <= cand_prefix[k] < prefix.len());
                    assert(prefix[cand_prefix[k]] == accounts@[cand_prefix[k]]);
                    assert(next[cand_next[k]] == accounts@[cand_next[k]]);
                }
            }
            assert(batch_result(pid, next, indices@, records@));
        }
    }
    proof {
        assert(accounts@.take(n as int) =~= accounts@);
        if forall|i: int|
            0 <= i < accounts@.len() ==> !qualifies(pid, #[trigger] accounts@[i]) {
            lemma_candidate_indices_qualify(pid, accounts@);
            let cand = candidate_indices(pid, accounts@);
            if cand.len() > 0 {
                assert(qualifies(pid, accounts@[cand[0]]));
            }
        }
    }
    Ok((indices, records))
}

/// Batch Trust Recalculation, the flush part: after the host ran the five
/// propagation iterations, every collected record takes its final score bits
/// and the current clock value.
pub fn batch_finalize(final_bits: &Vec<u64>, now: i64) -> (r: Vec<CarTrustState>)
    ensures
        r@.len() == final_bits@.len(),
        forall|k: int|
            0 <= k < r@.len() ==> #[trigger] r@[k] == (CarTrustState {
                trust_score_bits: final_bits@[k],
                last_updated_timestamp: now,
            }),
{
    let n = final_bits.len();
    let mut out: Vec<CarTrustState> = Vec::new();
    let mut k: usize = 0;
    while k < n
        invariant
            n == final_bits@.len(),
            k <= n,
            out@.len() == k,
            forall|i: int|
                0 <= i < k ==> #[trigger] out@[i] == (CarTrustState {
                    trust_score_bits: final_bits@[i],
                    last_updated_timestamp: now,
                }),
        decreases n - k,
    {
        out.push(
            CarTrustState { trust_score_bits: final_bits[k], last_updated_timestamp: now },
        );
        k += 1;
    }
    out
}

/// The dispatcher: decodes the envelope and routes to exactly one operation.
/// A malformed payload aborts before any account is read; otherwise the
/// matching operation's outcome comes back as a directive for the host. The
/// host supplies at least the handles the decoded operation expects: three
/// for initialization (car slot, funding identity, creation facility), two
/// for a report (reporter slot, sender slot).
pub fn process_instruction(
    program_id: &Identity,
    accounts: &Vec<LedgerAccount>,
    instruction_data: &Vec<u8>,
    now: i64,
) -> (r: Result<HostDirective, TrustError>)
    requires
        (crate::instruction::spec_parse(instruction_data@) matches Some(m) ==> match m {
            InstructionView::InitializeCar { .. } => accounts@.len() >= 3,
            InstructionView::ReportMessageOutcome { .. } => accounts@.len() >= 2,
            InstructionView::UpdateTrustScores => true,
        }),
    ensures
        crate::instruction::spec_parse(instruction_data@) is None ==> r == Err::<
            HostDirective,
            TrustError,
        >(TrustError::MalformedInstruction),
        (crate::instruction::spec_parse(instruction_data@) matches Some(m) ==> match m {
            InstructionView::InitializeCar { initial_trust_bits } => (match init_outcome(
                program_id@,
                accounts@[0],
                initial_trust_bits,
                now,
            ) {
                Ok(opt) => (match opt {
                    None => r matches Ok(d) && d is CarAlreadyInitialized,
                    Some(rec) => r matches Ok(d) && (d matches HostDirective::CreateCarRecord {
                        record,
                    } && record == rec),
                }),
                Err(e) => r matches Err(e2) && e2 == e,
            }),
            InstructionView::ReportMessageOutcome { reporter, message_sender, is_true } => (
            match report_outcome(program_id@, accounts@[0], accounts@[1], reporter, message_sender) {
                Ok(recs) => r matches Ok(d) && (d matches HostDirective::ApplyFeedback {
                    reporter: reporter_record,
                    sender: sender_record,
                    is_true: outcome,
                } && reporter_record == recs.0 && sender_record == recs.1 && outcome == is_true),
                Err(e) => r matches Err(e2) && e2 == e,
            }),
            InstructionView::UpdateTrustScores => (match r {
                Ok(d) => d matches HostDirective::RecomputeScores { indices, records }
                    && batch_decodes(program_id@, accounts@) && batch_result(
                    program_id@,
                    accounts@,
                    indices@,
                    records@,
                ),
                Err(e) => !batch_decodes(program_id@, accounts@) && e
                    == TrustError::RecordDecodeFailure,
            }),
        }),
{
    let instruction = match parse_instruction(instruction_data) {
        Ok(i) => i,
        Err(e) => { return Err(e) },
    };
    match instruction {
        TrustInstruction::InitializeCar { initial_trust_bits } => {
            match initialize_car(program_id, &accounts[0], initial_trust_bits, now) {
                Ok(None) => Ok(HostDirective::CarAlreadyInitialized),
                Ok(Some(record)) => Ok(HostDirective::CreateCarRecord { record }),
                Err(e) => Err(e),
            }
        },
        TrustInstruction::ReportMessageOutcome { reporter, message_sender, is_true } => {
            match report_message_outcome(
                program_id,
                &accounts[0],
                &accounts[1],
                &reporter,
                &message_sender,
            ) {
                Ok((reporter_record, sender_record)) => Ok(
                    HostDirective::ApplyFeedback {
                        reporter: reporter_record,
                        sender: sender_record,
                        is_true,
                    },
                ),
                Err(e) => Err(e),
            }
        },
        TrustInstruction::UpdateTrustScores => {
            match update_trust_scores(program_id, accounts) {
                Ok((indices, records)) => Ok(HostDirective::RecomputeScores { indices, records }),
                Err(e) => Err(e),
            }
        },
    }
}

} // verus!
