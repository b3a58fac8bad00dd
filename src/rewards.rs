//! Reading claimable rewards out of proof accounts, keeping the nonzero ones,
//! ranking them and totalling them.
use vstd::prelude::*;
use ore::utils::AccountDeserialize;

verus! {

broadcast use vstd::seq_lib::group_to_multiset_ensures;

/// Length of a proof account: an 8-byte header and the proof body.
pub const PROOF_ACCOUNT_LEN: usize = 96;

/// First header byte of a proof account.
pub const PROOF_DISCRIMINATOR: u8 = 101;

/// Offset of the little-endian claimable amount within a proof account.
pub const CLAIMABLE_OFFSET: usize = 40;

/// The unsigned value of bytes read little-endian.
pub open spec fn le_value(b: Seq<u8>) -> int
    decreases b.len(),
{
    if b.len() == 0 {
        0
    } else {
        b[0] as int + 256 * le_value(b.drop_first())
    }
}

/// Relies on ore's `AccountDeserialize::try_from_bytes` for `Proof`: it fails
/// unless the first byte is the proof discriminator and the bytes after the
/// 8-byte header are exactly one `Proof`, whose `claimable_rewards` field
/// follows the 32-byte authority. It indexes `data[0]` and `data[8..]`, so it
/// is never handed fewer than 8 bytes. The field is read in the machine's byte
/// order, which is little-endian on every target this library is built for.
/// Whether a well-formed buffer is accepted also depends on its alignment in
/// memory, so no success is promised.
#[verifier::external_body]
fn proof_claimable_rewards(data: &[u8]) -> (r: Option<u64>)
    requires
        data@.len() >= 8,
    ensures
        data@.len() != PROOF_ACCOUNT_LEN || data@[0] != PROOF_DISCRIMINATOR ==> r is None,
        r matches Some(v) ==> v as int == le_value(
            data@.subrange(CLAIMABLE_OFFSET as int, CLAIMABLE_OFFSET + 8),
        ),
{
    ore::state::Proof::try_from_bytes(data).ok().map(|p| p.claimable_rewards)
}

/// The claimable amount held in an account snapshot, if it is a proof account.
/// An absent account, or one too short to carry the header, holds none.
pub fn decode_claimable(snapshot: &Option<Vec<u8>>) -> (r: Option<u64>)
    ensures
        snapshot is None ==> r is None,
        r matches Some(v) ==> snapshot matches Some(d) && d@.len() == PROOF_ACCOUNT_LEN
            && d@[0] == PROOF_DISCRIMINATOR && v as int == le_value(
            d@.subrange(CLAIMABLE_OFFSET as int, CLAIMABLE_OFFSET + 8),
        ),
{
    match snapshot {
        None => None,
        Some(data) => {
            if data.len() < 8 {
                None
            } else {
                proof_claimable_rewards(data.as_slice())
            }
        },
    }
}

/// One owner with rewards to claim: its position in the owner sequence and
/// the amount.
#[derive(Clone, Copy, Debug, PartialEq, Eq, Structural)]
pub struct RewardRecord {
    pub owner: usize,
    pub amount: u64,
}

/// The records kept from decoded amounts: one per position whose amount is
/// present and nonzero, in position order.
pub open spec fn claimable_records(decoded: Seq<Option<u64>>) -> Seq<RewardRecord>
    decreases decoded.len(),
{
    if decoded.len() == 0 {
        Seq::empty()
    } else {
        let prev = claimable_records(decoded.drop_last());
        match decoded.last() {
            Some(v) => if v > 0 {
                prev.push(RewardRecord { owner: (decoded.len() - 1) as usize, amount: v })
            } else {
                prev
            },
            None => prev,
        }
    }
}

/// Sum of every decoded amount.
pub open spec fn decoded_total(decoded: Seq<Option<u64>>) -> int
    decreases decoded.len(),
{
    if decoded.len() == 0 {
        0
    } else {
        let prev = decoded_total(decoded.drop_last());
        match decoded.last() {
            Some(v) => prev + v,
            None => prev,
        }
    }
}

/// Sum of the amounts of records.
pub open spec fn records_total(r: Seq<RewardRecord>) -> int
    decreases r.len(),
{
    if r.len() == 0 {
        0
    } else {
        records_total(r.drop_last()) + r.last().amount
    }
}

/// `a` ranks strictly before `b`: a larger amount, or an equal amount and an
/// earlier owner.
pub open spec fn ranks_before(a: RewardRecord, b: RewardRecord) -> bool {
    a.amount > b.amount || (a.amount == b.amount && a.owner < b.owner)
}

/// No later record ranks before an earlier one.
pub open spec fn is_ranked(r: Seq<RewardRecord>) -> bool {
    forall|i: int, j: int| 0 <= i < j < r.len() ==> !ranks_before(#[trigger] r[j], #[trigger] r[i])
}

/// Keeps the positions whose amount is present and nonzero.
pub fn retain_claimable(decoded: &Vec<Option<u64>>) -> (r: Vec<RewardRecord>)
    ensures
        r@ == claimable_records(decoded@),
{
    let mut r: Vec<RewardRecord> = Vec::new();
    let mut i: usize = 0;
    while i < decoded.len()
        invariant
            i <= decoded@.len(),
            r@ == claimable_records(decoded@.subrange(0, i as int)),
        decreases decoded@.len() - i,
    {
        assert(decoded@.subrange(0, i + 1).drop_last() == decoded@.subrange(0, i as int));
        match decoded[i] {
            Some(v) => {
                if v > 0 {
                    r.push(RewardRecord { owner: i, amount: v });
                }
            },
            None => {},
        }
        i = i + 1;
    }
    assert(decoded@.subrange(0, decoded@.len() as int) == decoded@);
    r
}

/// Decodes the claimable amount of every snapshot, position by position.
pub fn decode_all(snapshots: &Vec<Option<Vec<u8>>>) -> (r: Vec<Option<u64>>)
    ensures
        r@.len() == snapshots@.len(),
        forall|i: int| 0 <= i < r@.len() ==> (#[trigger] snapshots@[i]) is None ==> r@[i] is None,
        forall|i: int| 0 <= i < r@.len() ==> (#[trigger] r@[i] matches Some(v) ==> snapshots@[i] matches Some(d)
            && d@.len() == PROOF_ACCOUNT_LEN && d@[0] == PROOF_DISCRIMINATOR && v as int == le_value(
            d@.subrange(CLAIMABLE_OFFSET as int, CLAIMABLE_OFFSET + 8),
        )),
{
    let mut r: Vec<Option<u64>> = Vec::new();
    let mut i: usize = 0;
    while i < snapshots.len()
        invariant
            i <= snapshots@.len(),
            r@.len() == i,
            forall|k: int| 0 <= k < i ==> (#[trigger] snapshots@[k]) is None ==> r@[k] is None,
            forall|k: int| 0 <= k < i ==> (#[trigger] r@[k] matches Some(v) ==> snapshots@[k] matches Some(d)
                && d@.len() == PROOF_ACCOUNT_LEN && d@[0] == PROOF_DISCRIMINATOR && v as int == le_value(
                d@.subrange(CLAIMABLE_OFFSET as int, CLAIMABLE_OFFSET + 8),
            )),
        decreases snapshots@.len() - i,
    {
        let d = decode_claimable(&snapshots[i]);
        r.push(d);
        i = i + 1;
    }
    r
}

/// Orders records by amount, largest first; records of equal amount keep the
/// order of their owners.
pub fn rank(records: Vec<RewardRecord>) -> (r: Vec<RewardRecord>)
    ensures
        is_ranked(r@),
        r@.to_multiset() == records@.to_multiset(),
{
    let mut r: Vec<RewardRecord> = Vec::new();
    let mut i: usize = 0;
    while i < records.len()
        invariant
            i <= records@.len(),
            is_ranked(r@),
            r@.to_multiset() == records@.subrange(0, i as int).to_multiset(),
        decreases records@.len() - i,
    {
        let x = records[i];
        let mut p: usize = 0;
        while p < r.len() && !(x.amount > r[p].amount || (x.amount == r[p].amount && x.owner < r[p].owner))
            invariant
                p <= r@.len(),
                forall|q: int| 0 <= q < p ==> !ranks_before(x, #[trigger] r@[q]),
            decreases r@.len() - p,
        {
            p = p + 1;
        }
        let ghost before = r@;
        r.insert(p, x);
        proof {
            vstd::seq_lib::to_multiset_insert(before, p as int, x);
            assert(records@.subrange(0, i + 1) == records@.subrange(0, i as int).push(x));
            vstd::seq_lib::to_multiset_build(records@.subrange(0, i as int), x);
            assert forall|a: int, b: int| 0 <= a < b < r@.len() implies !ranks_before(
                #[trigger] r@[b],
                #[trigger] r@[a],
            ) by {
                if a < p && b == p {
                } else if a == p && b > p {
                    assert(!ranks_before(before[b - 1], before[p as int]) || b - 1 == p);
                } else if a < p && b > p {
                } else {
                }
            }
        }
        i = i + 1;
    }
    assert(records@.subrange(0, records@.len() as int) == records@);
    r
}

/// Sum of the amounts of records. Fits: each amount is below 2^64 and there
/// are fewer than 2^64 records.
pub fn total_of(records: &Vec<RewardRecord>) -> (t: u128)
    ensures
        t as int == records_total(records@),
{
    let mut t: u128 = 0;
    let mut i: usize = 0;
    while i < records.len()
        invariant
            i <= records@.len(),
            t as int == records_total(records@.subrange(0, i as int)),
            t as int <= i * 0xffff_ffff_ffff_ffff,
        decreases records@.len() - i,
    {
        assert(records@.subrange(0, i + 1).drop_last() == records@.subrange(0, i as int));
        assert((i + 1) * 0xffff_ffff_ffff_ffff < 0x1_0000_0000_0000_0000_0000_0000_0000_0000) by (nonlinear_arith)
            requires i < 0x1_0000_0000_0000_0000;
        assert(i * 0xffff_ffff_ffff_ffff + 0xffff_ffff_ffff_ffff == (i + 1) * 0xffff_ffff_ffff_ffff) by (nonlinear_arith);
        t = t + records[i].amount as u128;
        i = i + 1;
    }
    assert(records@.subrange(0, records@.len() as int) == records@);
    t
}

/// The reward report: the ranked records, how many there are, and their total.
pub struct ClaimReport {
    pub ranked: Vec<RewardRecord>,
    pub count: usize,
    pub total: u128,
}

/// Builds the report from the decoded amount of each owner, in owner order.
pub fn build_report(decoded: &Vec<Option<u64>>) -> (rep: ClaimReport)
    ensures
        is_ranked(rep.ranked@),
        rep.ranked@.to_multiset() == claimable_records(decoded@).to_multiset(),
        rep.count as int == claimable_records(decoded@).len(),
        rep.total as int == decoded_total(decoded@),
{
    let kept = retain_claimable(decoded);
    proof {
        lemma_kept_total(decoded@);
    }
    let total = total_of(&kept);
    let count = kept.len();
    let ranked = rank(kept);
    ClaimReport { ranked, count, total }
}

/// Every kept record has a nonzero amount, and the kept records add up to the
/// sum of all decoded amounts.
pub proof fn lemma_kept_total(decoded: Seq<Option<u64>>)
    ensures
        forall|i: int| 0 <= i < claimable_records(decoded).len()
            ==> #[trigger] claimable_records(decoded)[i].amount > 0,
        records_total(claimable_records(decoded)) == decoded_total(decoded),
    decreases decoded.len(),
{
    if decoded.len() > 0 {
        lemma_kept_total(decoded.drop_last());
        let prev = claimable_records(decoded.drop_last());
        match decoded.last() {
            Some(v) => if v > 0 {
                let rec = RewardRecord { owner: (decoded.len() - 1) as usize, amount: v };
                assert(prev.push(rec).drop_last() == prev);
            },
            None => {},
        }
    }
}

/// Kept records carry strictly increasing owner positions, all below the
/// number of decoded amounts.
pub proof fn lemma_kept_owners_increase(decoded: Seq<Option<u64>>)
    requires
        decoded.len() <= usize::MAX,
    ensures
        forall|i: int, j: int| 0 <= i < j < claimable_records(decoded).len()
            ==> (#[trigger] claimable_records(decoded)[i]).owner < (#[trigger] claimable_records(decoded)[j]).owner,
        forall|i: int| 0 <= i < claimable_records(decoded).len()
            ==> (#[trigger] claimable_records(decoded)[i]).owner < decoded.len(),
    decreases decoded.len(),
{
    if decoded.len() > 0 {
        lemma_kept_owners_increase(decoded.drop_last());
        let prev = claimable_records(decoded.drop_last());
        let kept = claimable_records(decoded);
        assert(forall|i: int| 0 <= i < prev.len() ==> (#[trigger] prev[i]).owner < decoded.len() - 1);
        assert(forall|i: int| 0 <= i < prev.len() ==> #[trigger] kept[i] == prev[i]);
    }
}

/// Ranking is a stable sort of the kept records by amount, largest first:
/// every ranked record is a kept one, so its amount is nonzero; amounts never
/// increase along the ranking; and records of equal amount stay in owner
/// order, which is the order in which they were kept.
pub proof fn lemma_ranking_is_stable(decoded: Seq<Option<u64>>, ranked: Seq<RewardRecord>)
    requires
        decoded.len() <= usize::MAX,
        is_ranked(ranked),
        ranked.to_multiset() == claimable_records(decoded).to_multiset(),
    ensures
        forall|i: int, j: int| 0 <= i < j < ranked.len() ==> (#[trigger] ranked[i]).amount >= (#[trigger] ranked[j]).amount,
        forall|i: int| 0 <= i < ranked.len() ==> (#[trigger] ranked[i]).amount > 0,
        forall|i: int, j: int| 0 <= i < j < ranked.len() && ranked[i].amount == ranked[j].amount
            ==> (#[trigger] ranked[i]).owner <= (#[trigger] ranked[j]).owner,
        forall|a: int, b: int| 0 <= a < b < claimable_records(decoded).len()
            ==> (#[trigger] claimable_records(decoded)[a]).owner < (#[trigger] claimable_records(decoded)[b]).owner,
{
    let kept = claimable_records(decoded);
    lemma_kept_total(decoded);
    lemma_kept_owners_increase(decoded);
    assert forall|i: int| 0 <= i < ranked.len() implies (#[trigger] ranked[i]).amount > 0 by {
        assert(ranked.to_multiset().count(ranked[i]) > 0);
        assert(kept.contains(ranked[i]));
    }
    assert forall|i: int, j: int| 0 <= i < j < ranked.len() implies (#[trigger] ranked[i]).amount >= (#[trigger] ranked[j]).amount by {
        assert(!ranks_before(ranked[j], ranked[i]));
    }
    assert forall|i: int, j: int| 0 <= i < j < ranked.len() && ranked[i].amount == ranked[j].amount
        implies (#[trigger] ranked[i]).owner <= (#[trigger] ranked[j]).owner by {
        assert(!ranks_before(ranked[j], ranked[i]));
    }
}

} // verus!
