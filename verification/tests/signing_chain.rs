use aias_gm::signing::bytes_equal;
use aias_gm::signing::combine_gen_pubkey_results;
use aias_gm::signing::reversed_domains;
use aias_gm::signing::GenPubkeyRun;
use aias_gm::signing::PubkeySigningChain;

fn strings(items: &[&str]) -> Vec<String> {
    items.iter().map(|s| s.to_string()).collect()
}

/// Runs a chain where each peer answers with its position appended to the key.
fn run_chain(n: usize, own: usize, start: Vec<u8>) -> (Vec<(usize, Vec<u8>)>, Vec<Vec<u8>>) {
    let mut chain = PubkeySigningChain::new(n, own, start);
    let mut requests = Vec::new();
    while let Some((peer, key)) = chain.next_request() {
        let mut signed = key.clone();
        signed.push(peer as u8);
        requests.push((peer, key));
        chain.record_signed(signed);
    }
    (requests, chain.signed_pubkeys())
}

#[test]
fn chain_skips_the_own_position_and_passes_each_answer_on() {
    let (requests, signed) = run_chain(3, 0, vec![9]);
    assert_eq!(requests, vec![(1, vec![9]), (2, vec![9, 1])]);
    assert_eq!(signed, vec![vec![9, 1], vec![9, 1, 2]]);
    let (requests, _) = run_chain(3, 1, vec![9]);
    assert_eq!(requests.iter().map(|r| r.0).collect::<Vec<_>>(), vec![0, 2]);
    let (requests, _) = run_chain(3, 2, vec![9]);
    assert_eq!(requests.iter().map(|r| r.0).collect::<Vec<_>>(), vec![0, 1]);
}

#[test]
fn chain_asks_everyone_when_its_own_position_is_beyond_the_list() {
    let (requests, signed) = run_chain(3, 3, vec![]);
    assert_eq!(requests.iter().map(|r| r.0).collect::<Vec<_>>(), vec![0, 1, 2]);
    assert_eq!(signed.len(), 3);
}

#[test]
fn chain_over_no_other_domain_asks_nobody() {
    let (requests, signed) = run_chain(1, 0, vec![1]);
    assert!(requests.is_empty());
    assert!(signed.is_empty());
    let (requests, _) = run_chain(0, 0, vec![1]);
    assert!(requests.is_empty());
}

#[test]
fn combine_takes_the_second_answer_as_h() {
    let first = vec![vec![1], vec![7]];
    let second = vec![vec![2], vec![7]];
    let key = combine_gen_pubkey_results(&first, &second).unwrap();
    assert_eq!(key.h, vec![7]);
    assert_eq!(key.u, vec![1]);
    assert_eq!(key.v, vec![2]);
}

#[test]
fn combine_refuses_disagreeing_chains() {
    let first = vec![vec![1], vec![7]];
    let second = vec![vec![1], vec![8]];
    let err = combine_gen_pubkey_results(&first, &second).err().unwrap();
    assert_eq!(err, "wrong combined pubkey generated");
}

#[test]
fn bytes_equal_compares_contents() {
    assert!(bytes_equal(&[1, 2], &[1, 2]));
    assert!(!bytes_equal(&[1, 2], &[1, 3]));
    assert!(!bytes_equal(&[1], &[1, 2]));
    assert!(bytes_equal(&[], &[]));
}

#[test]
fn reversed_domains_reverses() {
    let domains = strings(&["a", "b", "c"]);
    assert_eq!(reversed_domains(&domains), strings(&["c", "b", "a"]));
    assert_eq!(reversed_domains(&Vec::new()), Vec::<String>::new());
}

#[test]
fn gen_pubkey_run_asks_in_order_then_reversed() {
    let domains = strings(&["a", "b", "c"]);
    let mut run = GenPubkeyRun::new(&domains, 1, vec![0]);
    let mut asked = Vec::new();
    while let Some((domain, req)) = run.next_request() {
        asked.push((domain.clone(), req.domains.clone(), req.unsigned_pubkey.clone()));
        // Every manager multiplies by the same secret: here it appends the same byte.
        let mut signed = req.unsigned_pubkey.clone();
        signed.push(5);
        run.record_signed(signed);
    }
    assert_eq!(asked.len(), 4);
    assert_eq!(asked[0], ("a".to_string(), domains.clone(), vec![0]));
    assert_eq!(asked[1], ("c".to_string(), domains.clone(), vec![0, 5]));
    let reversed = strings(&["c", "b", "a"]);
    assert_eq!(asked[2], ("c".to_string(), reversed.clone(), vec![0]));
    assert_eq!(asked[3], ("a".to_string(), reversed, vec![0, 5]));
    let key = run.finish().unwrap();
    assert_eq!(key.h, vec![0, 5, 5]);
    assert_eq!(key.u, vec![0, 5]);
    assert_eq!(key.v, vec![0, 5]);
}

#[test]
fn gen_pubkey_run_reports_disagreement() {
    let domains = strings(&["a", "b", "c"]);
    let mut run = GenPubkeyRun::new(&domains, 0, vec![0]);
    while let Some((domain, req)) = run.next_request() {
        let mut signed = req.unsigned_pubkey.clone();
        signed.push(domain.as_bytes()[0]);
        run.record_signed(signed);
    }
    assert_eq!(run.finish().err().unwrap(), "wrong combined pubkey generated");
}

#[test]
fn current_key_is_the_last_answer_or_the_start() {
    let mut chain = PubkeySigningChain::new(3, 0, vec![7]);
    assert_eq!(chain.current_key(), vec![7]);
    chain.record_signed(vec![8]);
    assert_eq!(chain.current_key(), vec![8]);
    chain.record_signed(vec![9]);
    assert_eq!(chain.current_key(), vec![9]);
    assert!(chain.next_request().is_none());
    let lone = PubkeySigningChain::new(1, 0, vec![1, 2]);
    assert!(lone.next_request().is_none());
    assert_eq!(lone.current_key(), vec![1, 2]);
}
