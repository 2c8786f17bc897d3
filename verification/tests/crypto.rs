use antiphon::tui::crypto::{seal_path, SealPath};
use antiphon::tui::crypto::{uid_matches, PgpPlan};

#[test]
fn labels_read_per_plan() {
    let cases = [
        (false, false, None),
        (true, false, Some("[sign]")),
        (false, true, Some("[encrypt]")),
        (true, true, Some("[sign+encrypt]")),
    ];
    for (sign, encrypt, expected) in cases {
        let plan = PgpPlan { sign, encrypt };
        assert_eq!(plan.label(), expected);
        assert_eq!(plan.is_plain(), expected.is_none());
    }
}

#[test]
fn uid_matching_needs_the_bracketed_address() {
    let cases = [
        ("Alba <alba@example.com>", "alba@example.com", true),
        ("Alba <alba@example.com>", "ALBA@example.com", true),
        ("alba@example.com", "alba@example.com", true),
        ("Alba <alba@example.com>", "lba@example.com", false),
        ("Alba <other@example.com>", "alba@example.com", false),
    ];
    for (uid, address, expected) in cases {
        assert_eq!(uid_matches(uid, address), expected, "{uid}");
    }
}

fn signing_plan(key: Option<&str>, address: &str) -> antiphon::tui::crypto::ComposeCrypto {
    antiphon::tui::crypto::ComposeCrypto {
        plan: antiphon::tui::crypto::PgpPlan { sign: true, encrypt: false },
        key: key.map(|k| k.to_string()),
        address: address.to_string(),
    }
}

fn cert(fingerprint: &str, uid: Option<&str>) -> antiphon::tui::crypto::SigningCert {
    antiphon::tui::crypto::SigningCert {
        fingerprint: fingerprint.to_string(),
        primary_user_id: uid.map(|u| u.to_string()),
    }
}

#[test]
fn missing_recipient_keys_abort_naming_the_addresses() {
    let recipients = ["alba@example.com".to_string(), "mara@example.com".to_string()].to_vec();
    let error = antiphon::tui::crypto::recipient_certs::<u8>(&recipients, vec![None, None]).unwrap_err();
    assert_eq!(error, "no key in the pgp keyring for: alba@example.com, mara@example.com");
    let one = antiphon::tui::crypto::recipient_certs(&recipients, vec![Some(7u8), None]).unwrap_err();
    assert_eq!(one, "no key in the pgp keyring for: mara@example.com");
    let all = antiphon::tui::crypto::recipient_certs(&recipients, vec![Some(7u8), Some(9u8)]).unwrap();
    assert_eq!(all, vec![7, 9]);
}

#[test]
fn an_unknown_signer_aborts_the_send() {
    let unknown = signing_plan(None, "nobody@example.com");
    let error = antiphon::tui::crypto::resolve_signer(
        &unknown,
        Ok(vec![cert("AAAA", Some("Tester <tester@example.com>")), cert("BBBB", None)]),
    )
    .unwrap_err();
    assert_eq!(error, "no signing key for nobody@example.com known to gpg-agent");
}

#[test]
fn the_signer_is_the_configured_key_or_the_first_matching_cert() {
    let certs = || Ok(vec![cert("AAAA", None), cert("BBBB", Some("Tester <TESTER@example.com>")), cert("CCCC", Some("tester@example.com"))]);
    assert_eq!(
        antiphon::tui::crypto::resolve_signer(&signing_plan(None, "tester@example.com"), certs()),
        Ok("BBBB".to_string())
    );
    assert_eq!(
        antiphon::tui::crypto::resolve_signer(&signing_plan(Some("ABCD"), "tester@example.com"), certs()),
        Ok("ABCD".to_string())
    );
    assert_eq!(
        antiphon::tui::crypto::resolve_signer(&signing_plan(None, "tester@example.com"), Err("agent down".to_string())),
        Err("agent down".to_string())
    );
}

#[test]
fn the_seal_path_follows_the_plan() {
    assert_eq!(seal_path(PgpPlan { sign: false, encrypt: false }), SealPath::Plain);
    assert_eq!(seal_path(PgpPlan { sign: false, encrypt: true }), SealPath::EncryptOnly);
    assert_eq!(seal_path(PgpPlan { sign: true, encrypt: true }), SealPath::Sign { encrypt: true });
    assert_eq!(seal_path(PgpPlan { sign: true, encrypt: false }), SealPath::Sign { encrypt: false });
}
