use syndicate::governance::Governance;
use syndicate::registry::DaoRegistry;
use syndicate::token::SyndicateToken;

#[test]
fn test_full_application_flow() {
    let creator = 0u64;
    let voter_alice = 1u64;
    let voter_bob = 2u64;
    let token_addr = 10u64;
    let gov_addr = 11u64;
    let now = 1_000u64;

    let mut registry = DaoRegistry::new();
    registry.init();

    let mut token = SyndicateToken::new();
    token.init("Alpha DAO".to_string(), "ALP".to_string(), 18, 1000, creator);

    let mut governance = Governance::new();
    governance.init(token_addr);

    let dao_id = registry.register_dao(creator, now, token_addr, gov_addr);
    assert_eq!(dao_id, 1);

    token.transfer(creator, voter_alice, 100).unwrap();
    token.transfer(creator, voter_bob, 50).unwrap();

    let prop_id = governance.create_proposal(
        creator,
        now,
        "Buy Bitcoin".to_string(),
        "Should we buy BTC?".to_string(),
    );

    governance.vote(voter_alice, prop_id, true, &token).unwrap();
    governance.vote(voter_bob, prop_id, false, &token).unwrap();

    let (yes_votes, no_votes) = governance.get_proposal_votes(prop_id).unwrap();

    assert_eq!(yes_votes, 100);
    assert_eq!(no_votes, 50);
}
