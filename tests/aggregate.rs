use ore_collector::args::BalanceArgs;
use ore_collector::derive::derive_proof_addresses;
use ore_collector::fetch::{BatchedFetch, FETCH_ACCOUNT_LIMIT};
use ore_collector::rewards::{
    build_report, decode_all, decode_claimable, rank, retain_claimable, total_of, RewardRecord,
    CLAIMABLE_OFFSET, PROOF_ACCOUNT_LEN, PROOF_DISCRIMINATOR,
};

fn proof_account(claimable: u64) -> Vec<u8> {
    let mut d = vec![0u8; PROOF_ACCOUNT_LEN];
    d[0] = PROOF_DISCRIMINATOR;
    d[CLAIMABLE_OFFSET..CLAIMABLE_OFFSET + 8].copy_from_slice(&claimable.to_le_bytes());
    d
}

fn run_fetch(n: usize, limit: usize) -> (usize, Vec<usize>, Vec<(usize, usize)>) {
    let mut f: BatchedFetch<usize> = BatchedFetch::new(n, limit);
    let mut ranges = Vec::new();
    while let Some(c) = f.next_request() {
        ranges.push((c.start, c.end));
        let batch: Vec<usize> = (c.start..c.end).collect();
        f.accept(batch);
    }
    let issued = f.issued;
    (issued, f.into_results(), ranges)
}

#[test]
fn fetch_issues_one_request_per_limit_rounded_up() {
    let (issued, results, ranges) = run_fetch(250, 100);
    assert_eq!(issued, 3);
    assert_eq!(ranges, vec![(0, 100), (100, 200), (200, 250)]);
    assert_eq!(results, (0..250).collect::<Vec<usize>>());
}

#[test]
fn fetch_exact_multiple_of_limit() {
    let (issued, results, ranges) = run_fetch(200, 100);
    assert_eq!(issued, 2);
    assert_eq!(ranges, vec![(0, 100), (100, 200)]);
    assert_eq!(results.len(), 200);
}

#[test]
fn fetch_of_no_addresses_issues_no_request() {
    let (issued, results, ranges) = run_fetch(0, FETCH_ACCOUNT_LIMIT);
    assert_eq!(issued, 0);
    assert!(results.is_empty());
    assert!(ranges.is_empty());
}

#[test]
fn fetch_with_limit_one() {
    let (issued, results, _) = run_fetch(3, 1);
    assert_eq!(issued, 3);
    assert_eq!(results, vec![0, 1, 2]);
}

#[test]
fn decode_reads_claimable_rewards() {
    assert_eq!(decode_claimable(&Some(proof_account(100))), Some(100));
    assert_eq!(decode_claimable(&Some(proof_account(0))), Some(0));
    assert_eq!(decode_claimable(&Some(proof_account(u64::MAX))), Some(u64::MAX));
}

#[test]
fn decode_rejects_absent_short_and_foreign_accounts() {
    assert_eq!(decode_claimable(&None), None);
    assert_eq!(decode_claimable(&Some(vec![])), None);
    assert_eq!(decode_claimable(&Some(vec![PROOF_DISCRIMINATOR; 4])), None);
    let mut other = proof_account(7);
    other[0] = 100;
    assert_eq!(decode_claimable(&Some(other)), None);
    let mut long = proof_account(7);
    long.push(0);
    assert_eq!(decode_claimable(&Some(long)), None);
}

#[test]
fn decode_all_keeps_positions() {
    let snaps = vec![Some(proof_account(3)), None, Some(vec![1, 2, 3]), Some(proof_account(9))];
    assert_eq!(decode_all(&snaps), vec![Some(3), None, None, Some(9)]);
}

#[test]
fn filter_drops_zero_and_absent() {
    let decoded = vec![Some(0), None, Some(7), Some(0), Some(2)];
    let kept = retain_claimable(&decoded);
    assert_eq!(
        kept,
        vec![RewardRecord { owner: 2, amount: 7 }, RewardRecord { owner: 4, amount: 2 }]
    );
    assert!(kept.iter().all(|r| r.amount > 0));
    assert_eq!(total_of(&kept), 9);
}

#[test]
fn ranking_is_stable_descending() {
    let decoded = vec![Some(5), Some(20), Some(5), Some(0), Some(20)];
    let rep = build_report(&decoded);
    let amounts: Vec<u64> = rep.ranked.iter().map(|r| r.amount).collect();
    let owners: Vec<usize> = rep.ranked.iter().map(|r| r.owner).collect();
    assert_eq!(amounts, vec![20, 20, 5, 5]);
    assert_eq!(owners, vec![1, 4, 0, 2]);
    assert_eq!(rep.total, 50);
    assert_eq!(rep.count, 4);
}

#[test]
fn report_of_three_owners() {
    let snaps = vec![Some(proof_account(0)), Some(proof_account(100)), Some(proof_account(50))];
    let rep = build_report(&decode_all(&snaps));
    assert_eq!(rep.total, 150);
    assert_eq!(rep.count, 2);
    let owners: Vec<usize> = rep.ranked.iter().map(|r| r.owner).collect();
    assert_eq!(owners, vec![1, 2]);
}

#[test]
fn report_of_nothing() {
    let rep = build_report(&vec![]);
    assert_eq!(rep.total, 0);
    assert_eq!(rep.count, 0);
    assert!(rep.ranked.is_empty());
}

#[test]
fn total_exceeds_u64() {
    let kept = vec![
        RewardRecord { owner: 0, amount: u64::MAX },
        RewardRecord { owner: 1, amount: u64::MAX },
    ];
    assert_eq!(total_of(&kept), 2 * (u64::MAX as u128));
}

#[test]
fn rank_orders_equal_amounts_by_owner() {
    let recs = vec![
        RewardRecord { owner: 3, amount: 1 },
        RewardRecord { owner: 1, amount: 1 },
        RewardRecord { owner: 2, amount: 9 },
    ];
    let r = rank(recs);
    assert_eq!(
        r,
        vec![
            RewardRecord { owner: 2, amount: 9 },
            RewardRecord { owner: 1, amount: 1 },
            RewardRecord { owner: 3, amount: 1 },
        ]
    );
}

#[test]
fn proof_addresses_are_derived_per_owner() {
    let owners = vec![[1u8; 32], [2u8; 32], [1u8; 32]];
    let derived = derive_proof_addresses(&owners).expect("a proof address exists");
    assert_eq!(derived.len(), 3);
    assert_ne!(derived[0], owners[0]);
    assert_ne!(derived[0], derived[1]);
    assert_eq!(derived[0], derived[2]);
    assert_eq!(derive_proof_addresses(&vec![]), Some(vec![]));
}

#[test]
fn balance_args_hold_folder() {
    let a = BalanceArgs::new("keys".to_string());
    assert_eq!(a.key_folder, "keys");
}
