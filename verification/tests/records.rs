use proposal_ledger::identity::Identity;
use proposal_ledger::proposal::{Choice, Proposal};
use proposal_ledger::record::MAX_RECORD_SIZE;

fn who(tag: u8) -> Identity {
    Identity::new(vec![tag, 7])
}

fn sample() -> Proposal {
    Proposal {
        id: 0x0102030405060708,
        description: "hé".to_string(),
        approve: 1,
        reject: 0x01000000,
        is_active: true,
        voted: vec![Identity::new(vec![9]), Identity::new(vec![])],
        owner: who(5),
    }
}

fn sample_bytes() -> Vec<u8> {
    vec![
        8, 7, 6, 5, 4, 3, 2, 1, // id
        1, 0, 0, 0, // approve
        0, 0, 0, 1, // reject
        1, // is_active
        2, 0, 0, 0, 5, 7, // owner
        3, 0, 0, 0, b'h', 0xc3, 0xa9, // description
        2, 0, 0, 0, // number of voters
        1, 0, 0, 0, 9, // first voter
        0, 0, 0, 0, // second voter
    ]
}

#[test]
fn record_has_the_documented_layout() {
    assert_eq!(sample().to_bytes(), Some(sample_bytes()));
}

#[test]
fn record_reads_back() {
    assert_eq!(Proposal::from_bytes(&sample_bytes()), Some(sample()));
}

#[test]
fn record_of_fresh_proposal_is_29_bytes_and_its_texts() {
    let p = Proposal::fresh(1, "abc".to_string(), false, who(1));
    let bytes = p.to_bytes().unwrap();
    assert_eq!(bytes.len(), 29 + 2 + 3);
    assert_eq!(bytes[16], 0);
    assert_eq!(Proposal::from_bytes(&bytes), Some(p));
}

#[test]
fn record_grows_by_voter_and_four_bytes() {
    let p = Proposal::fresh(1, String::new(), true, who(1));
    let before = p.to_bytes().unwrap().len();
    let q = p.with_vote(Identity::new(vec![1, 2, 3, 4, 5]), Choice::Reject);
    assert_eq!(q.to_bytes().unwrap().len(), before + 4 + 5);
}

#[test]
fn record_at_the_cap_is_written_and_one_byte_more_is_not() {
    let room = MAX_RECORD_SIZE - 29 - 2;
    let fits = Proposal::fresh(1, "x".repeat(room), true, who(1));
    let bytes = fits.to_bytes().unwrap();
    assert_eq!(bytes.len(), MAX_RECORD_SIZE);
    assert_eq!(Proposal::from_bytes(&bytes), Some(fits));
    let too_long = Proposal::fresh(1, "x".repeat(room + 1), true, who(1));
    assert_eq!(too_long.to_bytes(), None);
}

#[test]
fn record_with_too_many_voters_is_not_written() {
    let mut p = Proposal::fresh(1, String::new(), true, who(1));
    for i in 0..1300u32 {
        p.voted.push(Identity::new(i.to_le_bytes().to_vec()));
    }
    assert_eq!(p.to_bytes(), None);
}

#[test]
fn truncated_record_is_refused() {
    let bytes = sample_bytes();
    for cut in 0..bytes.len() {
        assert_eq!(Proposal::from_bytes(&bytes[..cut]), None);
    }
}

#[test]
fn record_with_trailing_byte_is_refused() {
    let mut bytes = sample_bytes();
    bytes.push(0);
    assert_eq!(Proposal::from_bytes(&bytes), None);
}

#[test]
fn record_with_bad_flag_is_refused() {
    let mut bytes = sample_bytes();
    bytes[16] = 2;
    assert_eq!(Proposal::from_bytes(&bytes), None);
}

#[test]
fn record_with_bad_text_is_refused() {
    let mut bytes = sample_bytes();
    bytes[28] = 0xff;
    assert_eq!(Proposal::from_bytes(&bytes), None);
}

#[test]
fn record_with_overlong_voter_count_is_refused() {
    let mut bytes = sample_bytes();
    bytes[30] = 3;
    assert_eq!(Proposal::from_bytes(&bytes), None);
}

#[test]
fn inactive_flag_reads_back() {
    let mut bytes = sample_bytes();
    bytes[16] = 0;
    let p = Proposal::from_bytes(&bytes).unwrap();
    assert!(!p.is_active);
    assert_eq!(p.to_bytes(), Some(bytes));
}
