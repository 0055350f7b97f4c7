use aias_gm::auth::authorize_issue;
use aias_gm::auth::is_pkcs1_pem;
use aias_gm::auth::try_verify;
use aias_gm::auth::try_verify_issuer_cert;
use aias_gm::auth::verify;
use aias_gm::auth::verify_issuer_cert;
use aias_gm::auth::IssueAuthorization;
use aias_gm::auth::IssueMemberReq;
use aias_gm::challenge::draw_alphanumeric;
use aias_gm::challenge::generate_nonce;
use aias_gm::challenge::nonce_from_draws;
use aias_gm::challenge::NONCE_LEN;
use aias_gm::messages::pubkey_request_accepted;
use aias_gm::messages::GetPubkeyReq;
use aias_gm::records::credential_record;
use aias_gm::records::member_record;
use aias_gm::records::public_key_record;
use openssl::hash::MessageDigest;
use openssl::pkey::PKey;
use openssl::pkey::Private;
use openssl::rsa::Rsa;
use openssl::sign::Signer;

fn new_key() -> (PKey<Private>, String, String) {
    let rsa = Rsa::generate(2048).unwrap();
    let pkcs1 = String::from_utf8(rsa.public_key_to_pem_pkcs1().unwrap()).unwrap();
    let key = PKey::from_rsa(rsa).unwrap();
    let spki = String::from_utf8(key.public_key_to_pem().unwrap()).unwrap();
    (key, spki, pkcs1)
}

fn sign(key: &PKey<Private>, msg: &str) -> String {
    let mut signer = Signer::new(MessageDigest::sha256(), key).unwrap();
    signer.update(msg.as_bytes()).unwrap();
    base64::encode(signer.sign_to_vec().unwrap())
}

#[test]
fn nonce_has_thirty_two_letters_and_digits() {
    let nonce = generate_nonce();
    assert_eq!(nonce.len(), NONCE_LEN);
    assert_eq!(nonce.chars().count(), 32);
    assert!(nonce.chars().all(|c| c.is_ascii_alphanumeric()));
    assert_ne!(generate_nonce(), nonce);
}

#[test]
fn pkcs1_keys_are_recognised() {
    let (_, spki, pkcs1) = new_key();
    assert!(!is_pkcs1_pem(&spki));
    assert!(is_pkcs1_pem(&pkcs1));
    assert!(is_pkcs1_pem(&"xRSA PUBLIC KEY".to_string()));
    assert!(!is_pkcs1_pem(&"RSA PUBLIC KE".to_string()));
    assert!(!is_pkcs1_pem(&String::new()));
}

#[test]
fn verify_accepts_a_signature_under_either_pem_kind() {
    let (key, spki, pkcs1) = new_key();
    let nonce = "hogehoge".to_string();
    let signature = sign(&key, &nonce);
    assert!(verify(&signature, &nonce, &spki));
    assert!(verify(&signature, &nonce, &pkcs1));
    assert_eq!(try_verify(&signature, &nonce, &spki), Some(true));
}

#[test]
fn verify_refuses_a_signature_of_another_message_or_key() {
    let (key, spki, _) = new_key();
    let (_, other_spki, _) = new_key();
    let signature = sign(&key, "nonce-a");
    assert!(!verify(&signature, &"nonce-b".to_string(), &spki));
    assert!(!verify(&signature, &"nonce-a".to_string(), &other_spki));
}

#[test]
fn try_verify_reports_what_cannot_be_checked() {
    let (key, spki, _) = new_key();
    let nonce = "n".to_string();
    assert_eq!(try_verify(&"not base64 !".to_string(), &nonce, &spki), None);
    let signature = sign(&key, &nonce);
    assert_eq!(try_verify(&signature, &nonce, &"not a key".to_string()), None);
}

fn issue_request(key: &PKey<Private>, pubkey: &str, nonce: &str, issuer: &PKey<Private>) -> IssueMemberReq {
    IssueMemberReq {
        cert: sign(issuer, pubkey),
        signature: sign(key, nonce),
        pubkey: pubkey.to_string(),
        domains: vec!["gm1".to_string(), "gm2".to_string(), "gm3".to_string()],
    }
}

#[test]
fn issue_is_authorized_with_both_signatures_valid() {
    let (user, user_pem, _) = new_key();
    let (issuer, issuer_pem, _) = new_key();
    let nonce = "challenge".to_string();
    let req = issue_request(&user, &user_pem, &nonce, &issuer);
    assert_eq!(authorize_issue(&req, &nonce, &Some(issuer_pem.clone())), Some(IssueAuthorization::Authorized));
}

#[test]
fn issue_is_refused_with_a_bad_signature_or_certificate() {
    let (user, user_pem, _) = new_key();
    let (issuer, issuer_pem, _) = new_key();
    let nonce = "challenge".to_string();
    let req = issue_request(&user, &user_pem, &nonce, &issuer);
    assert_eq!(
        authorize_issue(&req, &"another".to_string(), &Some(issuer_pem.clone())),
        Some(IssueAuthorization::Unauthorized)
    );
    let forged = issue_request(&user, &user_pem, &nonce, &user);
    assert_eq!(authorize_issue(&forged, &nonce, &Some(issuer_pem.clone())), Some(IssueAuthorization::Unauthorized));
}

#[test]
fn bad_signature_is_refused_before_the_certificate_is_read() {
    let (user, user_pem, _) = new_key();
    let (issuer, issuer_pem, _) = new_key();
    let nonce = "challenge".to_string();
    let mut req = issue_request(&user, &user_pem, &nonce, &issuer);
    req.cert = "%%% not base64".to_string();
    assert_eq!(
        authorize_issue(&req, &"other".to_string(), &Some(issuer_pem.clone())),
        Some(IssueAuthorization::Unauthorized)
    );
    assert_eq!(authorize_issue(&req, &nonce, &Some(issuer_pem.clone())), None);
}

#[test]
fn issuer_key_is_read_only_for_a_valid_signature() {
    let (user, user_pem, _) = new_key();
    let (issuer, _, _) = new_key();
    let nonce = "challenge".to_string();
    let req = issue_request(&user, &user_pem, &nonce, &issuer);
    assert_eq!(
        authorize_issue(&req, &"other".to_string(), &None),
        Some(IssueAuthorization::Unauthorized)
    );
    assert_eq!(authorize_issue(&req, &nonce, &None), None);
}

#[test]
fn records_join_the_domains() {
    let domains = vec!["gm1".to_string(), "gm2".to_string()];
    let row = public_key_record(&domains, "KEY".to_string(), 2);
    assert_eq!(row.id, None);
    assert_eq!(row.domains, Some("gm1,gm2,".to_string()));
    assert_eq!(row.pubkey, Some("KEY".to_string()));
    assert_eq!(row.gm_id, Some(2));
    let member = member_record(&domains, "encode_usk".to_string(), "cert".to_string());
    assert_eq!(member.id, None);
    assert_eq!(member.domains, Some("gm1,gm2,".to_string()));
    assert_eq!(member.usk, Some("encode_usk".to_string()));
    assert_eq!(member.cert, Some("cert".to_string()));
}

#[test]
fn pubkey_requests_need_three_domains() {
    let three = GetPubkeyReq { domains: vec!["a".into(), "b".into(), "c".into()] };
    let two = GetPubkeyReq { domains: vec!["a".into(), "b".into()] };
    assert!(pubkey_request_accepted(&three));
    assert!(!pubkey_request_accepted(&two));
}

#[test]
fn nonce_from_draws_spells_the_draws() {
    let draws = b"abcdefghijABCDEFGHIJ0123456789Zz";
    assert_eq!(nonce_from_draws(draws), "abcdefghijABCDEFGHIJ0123456789Zz");
    let drawn = draw_alphanumeric(NONCE_LEN);
    assert_eq!(drawn.len(), 32);
    assert!(drawn.iter().all(|b| b.is_ascii_alphanumeric()));
    assert_eq!(nonce_from_draws(&drawn).as_bytes(), drawn.as_slice());
    assert!(draw_alphanumeric(0).is_empty());
}

#[test]
fn credential_rows_join_the_openers() {
    let openers = vec!["o1".to_string(), "o2".to_string(), "o3".to_string()];
    let row = credential_record(&openers, "PK".to_string(), 3);
    assert_eq!(row.id, None);
    assert_eq!(row.openers, Some("o1,o2,o3,".to_string()));
    assert_eq!(row.pubkey, Some("PK".to_string()));
    assert_eq!(row.opener_id, Some(3));
}

#[test]
fn issuer_certificate_is_a_signature_of_the_member_key() {
    let (_, user_pem, _) = new_key();
    let (issuer, issuer_pem, _) = new_key();
    let cert = sign(&issuer, &user_pem);
    assert!(verify_issuer_cert(&cert, &user_pem, &issuer_pem));
    assert_eq!(verify_issuer_cert(&cert, &user_pem, &issuer_pem), verify(&cert, &user_pem, &issuer_pem));
    assert!(!verify_issuer_cert(&cert, &"another key".to_string(), &issuer_pem));
    assert_eq!(try_verify_issuer_cert(&"!!".to_string(), &user_pem, &issuer_pem), None);
}
