use aias_gm::domains::domain_position;
use aias_gm::domains::get_gm_index_from_domains;
use aias_gm::domains::joined_domains;
use aias_gm::domains::joined_openers;
use aias_gm::ids::gm_id;
use aias_gm::ids::gm_id_from_index;
use aias_gm::ids::opener_id;
use aias_gm::ids::opener_id_from_index;
use aias_gm::ids::GmId;
use aias_gm::ids::OpenerId;

fn strings(items: &[&str]) -> Vec<String> {
    items.iter().map(|s| s.to_string()).collect()
}

#[test]
fn joined_domains_puts_a_comma_after_each_domain() {
    let gms = strings(&["localhost:8080", "gm2.example:80", "gm3"]);
    assert_eq!(joined_domains(&gms), "localhost:8080,gm2.example:80,gm3,");
}

#[test]
fn joined_domains_of_no_domains_is_empty() {
    assert_eq!(joined_domains(&Vec::new()), "");
}

#[test]
fn joined_openers_matches_joined_domains() {
    let openers = strings(&["a", "b"]);
    assert_eq!(joined_openers(&openers), "a,b,");
    assert_eq!(joined_openers(&openers), joined_domains(&openers));
}

#[test]
fn joining_a_concatenation_concatenates_the_joins() {
    let a = strings(&["x", "yy"]);
    let b = strings(&["zzz"]);
    let mut ab = a.clone();
    ab.extend(b.clone());
    assert_eq!(joined_domains(&ab), joined_domains(&a) + &joined_domains(&b));
}

#[test]
fn domain_position_finds_the_first_match() {
    let gms = strings(&["a", "b", "a"]);
    assert_eq!(domain_position(&gms, &"a".to_string()), Some(0));
    assert_eq!(domain_position(&gms, &"b".to_string()), Some(1));
    assert_eq!(domain_position(&gms, &"c".to_string()), None);
    assert_eq!(domain_position(&[], &"a".to_string()), None);
}

#[test]
fn gm_index_is_one_more_than_the_position() {
    let gms = strings(&["gm1", "gm2", "gm3"]);
    assert_eq!(get_gm_index_from_domains(&gms, &"gm1".to_string()), 1);
    assert_eq!(get_gm_index_from_domains(&gms, &"gm3".to_string()), 3);
    let same = strings(&["d", "d", "d"]);
    assert_eq!(get_gm_index_from_domains(&same, &"d".to_string()), 1);
}

#[test]
fn gm_id_counts_modulo_four() {
    assert_eq!(gm_id(0), None);
    assert_eq!(gm_id(1), Some(GmId::One));
    assert_eq!(gm_id(2), Some(GmId::Two));
    assert_eq!(gm_id(3), Some(GmId::Three));
    assert_eq!(gm_id(4), None);
    assert_eq!(gm_id(5), Some(GmId::One));
    assert_eq!(gm_id(255), Some(GmId::Three));
    for n in 0u8..=251 {
        assert_eq!(gm_id(n), gm_id(n + 4));
    }
}

#[test]
fn opener_id_counts_modulo_four() {
    assert_eq!(opener_id(0), None);
    assert_eq!(opener_id(1), Some(OpenerId::One));
    assert_eq!(opener_id(6), Some(OpenerId::Two));
    assert_eq!(opener_id(7), Some(OpenerId::Three));
    assert_eq!(opener_id(8), None);
}

#[test]
fn ids_from_indices_take_the_index_as_a_byte() {
    assert_eq!(gm_id_from_index(1), Some(GmId::One));
    assert_eq!(gm_id_from_index(3), Some(GmId::Three));
    assert_eq!(gm_id_from_index(256), None);
    assert_eq!(gm_id_from_index(257), Some(GmId::One));
    assert_eq!(opener_id_from_index(1), Some(OpenerId::Two));
    assert_eq!(opener_id_from_index(2), Some(OpenerId::Three));
    assert_eq!(opener_id_from_index(3), None);
    assert_eq!(opener_id_from_index(256), Some(OpenerId::One));
}

#[test]
fn comma_free_lists_split_back_from_their_join() {
    let lists = vec![
        strings(&[]),
        strings(&["a"]),
        strings(&["a", "b"]),
        strings(&["ab"]),
        strings(&["", "a"]),
        strings(&["a", ""]),
    ];
    for list in &lists {
        let joined = joined_domains(list);
        let split: Vec<String> = joined.split_terminator(',').map(String::from).collect();
        if !list.iter().any(|d| d.is_empty()) {
            assert_eq!(&split, list);
        }
        for other in &lists {
            if other != list {
                assert_ne!(joined_domains(other), joined);
            }
        }
    }
}
