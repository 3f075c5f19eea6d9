use gig_registry::gig::ErrorKind;
use gig_registry::registry::FreelanceGigNFT;
use gig_registry::registry::mint_events;

fn strings(items: &[&str]) -> Vec<String> {
    items.iter().map(|s| s.to_string()).collect()
}

#[test]
fn create_get_mint_round_trip() {
    let mut reg = FreelanceGigNFT::new();
    let r = reg.create_gig(
        "gig1".to_string(),
        "Acme".to_string(),
        "addr_c".to_string(),
        strings(&["Alice", "Bob"]),
        strings(&["addr_a", "addr_b"]),
        vec![60, 40],
    );
    assert_eq!(r, Ok(()));

    let gig = reg.get_gig(&"gig1".to_string()).unwrap();
    assert_eq!(gig.gig_id, "gig1");
    assert_eq!(gig.client_name, "Acme");
    assert_eq!(gig.client_address, "addr_c");
    assert_eq!(gig.freelancers.len(), 2);
    assert_eq!(gig.freelancers[0].name, "Alice");
    assert_eq!(gig.freelancers[0].wallet, "addr_a");
    assert_eq!(gig.freelancers[0].ownership_percentage, 60);
    assert_eq!(gig.freelancers[1].name, "Bob");
    assert_eq!(gig.freelancers[1].wallet, "addr_b");
    assert_eq!(gig.freelancers[1].ownership_percentage, 40);
    let total: u32 = gig.freelancers.iter().map(|f| f.ownership_percentage as u32).sum();
    assert_eq!(total, 100);

    let r = reg.mint_nft(&"gig1".to_string());
    assert_eq!(r, Ok(()));
    let events = reg.emitted_events();
    assert_eq!(events.len(), 2);
    assert_eq!(events[0].topic, "NFTMinted");
    assert_eq!(events[0].freelancer_name, "Alice");
    assert_eq!(events[0].ownership_percentage, 60);
    assert_eq!(events[1].topic, "NFTMinted");
    assert_eq!(events[1].freelancer_name, "Bob");
    assert_eq!(events[1].ownership_percentage, 40);
}

#[test]
fn length_mismatch_is_rejected() {
    let mut reg = FreelanceGigNFT::new();
    let r = reg.create_gig(
        "gig2".to_string(),
        "Acme".to_string(),
        "addr_c".to_string(),
        strings(&["Alice"]),
        strings(&["addr_a", "addr_b"]),
        vec![100],
    );
    assert_eq!(r, Err(ErrorKind::DataMismatch));
    assert_eq!(reg.get_gig(&"gig2".to_string()).unwrap_err(), ErrorKind::NotFound);
    assert_eq!(reg.emitted_events().len(), 0);
}

#[test]
fn mismatched_percentage_count_is_rejected_before_summing() {
    let mut reg = FreelanceGigNFT::new();
    // Percentages sum to 90, but the length check comes first.
    let r = reg.create_gig(
        "gig2b".to_string(),
        "Acme".to_string(),
        "addr_c".to_string(),
        strings(&["Alice", "Bob"]),
        strings(&["addr_a", "addr_b"]),
        vec![30, 30, 30],
    );
    assert_eq!(r, Err(ErrorKind::DataMismatch));
    assert_eq!(reg.get_gig(&"gig2b".to_string()).unwrap_err(), ErrorKind::NotFound);
}

#[test]
fn bad_percentage_sum_is_rejected() {
    let mut reg = FreelanceGigNFT::new();
    let r = reg.create_gig(
        "gig3".to_string(),
        "Acme".to_string(),
        "addr_c".to_string(),
        strings(&["Alice", "Bob"]),
        strings(&["addr_a", "addr_b"]),
        vec![60, 50],
    );
    assert_eq!(r, Err(ErrorKind::OwnershipInvalid));
    assert_eq!(reg.get_gig(&"gig3".to_string()).unwrap_err(), ErrorKind::NotFound);
}

#[test]
fn percentage_sum_under_100_is_rejected() {
    let mut reg = FreelanceGigNFT::new();
    let r = reg.create_gig(
        "gig4".to_string(),
        "Acme".to_string(),
        "addr_c".to_string(),
        strings(&["Alice", "Bob"]),
        strings(&["addr_a", "addr_b"]),
        vec![10, 20],
    );
    assert_eq!(r, Err(ErrorKind::OwnershipInvalid));
}

#[test]
fn large_percentage_sums_do_not_wrap() {
    let mut reg = FreelanceGigNFT::new();
    // 200 + 156 = 356, which wraps to 100 in eight bits; the sum must not.
    let r = reg.create_gig(
        "gig5".to_string(),
        "Acme".to_string(),
        "addr_c".to_string(),
        strings(&["Alice", "Bob"]),
        strings(&["addr_a", "addr_b"]),
        vec![200, 156],
    );
    assert_eq!(r, Err(ErrorKind::OwnershipInvalid));
}

#[test]
fn get_gig_on_unknown_id_returns_not_found() {
    let reg = FreelanceGigNFT::new();
    assert_eq!(reg.get_gig(&"nowhere".to_string()).unwrap_err(), ErrorKind::NotFound);
}

#[test]
fn mint_nft_on_unknown_id_returns_not_found() {
    let mut reg = FreelanceGigNFT::new();
    assert_eq!(reg.mint_nft(&"nowhere".to_string()).unwrap_err(), ErrorKind::NotFound);
    assert_eq!(reg.emitted_events().len(), 0);
}

#[test]
fn failed_create_leaves_storage_unchanged() {
    let mut reg = FreelanceGigNFT::new();
    reg.create_gig(
        "gig6".to_string(),
        "Acme".to_string(),
        "addr_c".to_string(),
        strings(&["Alice"]),
        strings(&["addr_a"]),
        vec![100],
    )
    .unwrap();
    let r = reg.create_gig(
        "gig6".to_string(),
        "Acme".to_string(),
        "addr_c".to_string(),
        strings(&["Mallory"]),
        strings(&["addr_m"]),
        vec![99],
    );
    assert_eq!(r, Err(ErrorKind::OwnershipInvalid));
    let gig = reg.get_gig(&"gig6".to_string()).unwrap();
    assert_eq!(gig.freelancers[0].name, "Alice");
}

#[test]
fn overwrite_keeps_only_second_record() {
    let mut reg = FreelanceGigNFT::new();
    reg.create_gig(
        "gig7".to_string(),
        "Acme".to_string(),
        "addr_c".to_string(),
        strings(&["Alice", "Bob"]),
        strings(&["addr_a", "addr_b"]),
        vec![60, 40],
    )
    .unwrap();
    reg.create_gig(
        "gig7".to_string(),
        "Globex".to_string(),
        "addr_g".to_string(),
        strings(&["Carol"]),
        strings(&["addr_x"]),
        vec![100],
    )
    .unwrap();
    let gig = reg.get_gig(&"gig7".to_string()).unwrap();
    assert_eq!(gig.client_name, "Globex");
    assert_eq!(gig.client_address, "addr_g");
    assert_eq!(gig.freelancers.len(), 1);
    assert_eq!(gig.freelancers[0].name, "Carol");
    assert_eq!(gig.freelancers[0].wallet, "addr_x");
    assert_eq!(gig.freelancers[0].ownership_percentage, 100);
}

#[test]
fn mint_twice_emits_full_set_twice() {
    let mut reg = FreelanceGigNFT::new();
    reg.create_gig(
        "gig8".to_string(),
        "Acme".to_string(),
        "addr_c".to_string(),
        strings(&["Alice", "Bob"]),
        strings(&["addr_a", "addr_b"]),
        vec![60, 40],
    )
    .unwrap();
    reg.mint_nft(&"gig8".to_string()).unwrap();
    reg.mint_nft(&"gig8".to_string()).unwrap();
    let events = reg.emitted_events();
    assert_eq!(events.len(), 4);
    for pair in [(0, "Alice", 60), (1, "Bob", 40), (2, "Alice", 60), (3, "Bob", 40)] {
        let (i, name, pct) = pair;
        assert_eq!(events[i].topic, "NFTMinted");
        assert_eq!(events[i].freelancer_name, name);
        assert_eq!(events[i].ownership_percentage, pct);
    }
}

#[test]
fn mint_does_not_change_the_stored_gig() {
    let mut reg = FreelanceGigNFT::new();
    reg.create_gig(
        "gig9".to_string(),
        "Acme".to_string(),
        "addr_c".to_string(),
        strings(&["Alice"]),
        strings(&["addr_a"]),
        vec![100],
    )
    .unwrap();
    reg.mint_nft(&"gig9".to_string()).unwrap();
    let gig = reg.get_gig(&"gig9".to_string()).unwrap();
    assert_eq!(gig.freelancers.len(), 1);
    assert_eq!(gig.freelancers[0].name, "Alice");
}

#[test]
fn mint_events_lists_one_event_per_freelancer() {
    let mut reg = FreelanceGigNFT::new();
    reg.create_gig(
        "gig10".to_string(),
        "Acme".to_string(),
        "addr_c".to_string(),
        strings(&["Alice", "Bob", "Carol"]),
        strings(&["addr_a", "addr_b", "addr_x"]),
        vec![50, 30, 20],
    )
    .unwrap();
    let gig = reg.get_gig(&"gig10".to_string()).unwrap();
    let events = mint_events(&gig);
    assert_eq!(events.len(), 3);
    assert_eq!(events[0].freelancer_name, "Alice");
    assert_eq!(events[0].ownership_percentage, 50);
    assert_eq!(events[1].freelancer_name, "Bob");
    assert_eq!(events[1].ownership_percentage, 30);
    assert_eq!(events[2].freelancer_name, "Carol");
    assert_eq!(events[2].ownership_percentage, 20);
    for e in &events {
        assert_eq!(e.topic, "NFTMinted");
    }
}

#[test]
fn empty_freelancer_lists_cannot_reach_100() {
    let mut reg = FreelanceGigNFT::new();
    let r = reg.create_gig(
        "gig11".to_string(),
        "Acme".to_string(),
        "addr_c".to_string(),
        strings(&[]),
        strings(&[]),
        vec![],
    );
    assert_eq!(r, Err(ErrorKind::OwnershipInvalid));
}

#[test]
fn single_freelancer_with_full_ownership() {
    let mut reg = FreelanceGigNFT::new();
    let r = reg.create_gig(
        "gig12".to_string(),
        "Acme".to_string(),
        "addr_c".to_string(),
        strings(&["Alice"]),
        strings(&["addr_a"]),
        vec![100],
    );
    assert_eq!(r, Ok(()));
    reg.mint_nft(&"gig12".to_string()).unwrap();
    let events = reg.emitted_events();
    assert_eq!(events.len(), 1);
    assert_eq!(events[0].freelancer_name, "Alice");
    assert_eq!(events[0].ownership_percentage, 100);
}
