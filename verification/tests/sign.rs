use git_redate::sign::{
    embedded_signature, is_literal_ssh_key, openpgp_args, sig_path, ssh_args, SignError, SignFormat,
    Signer,
};

#[test]
fn format_parse_defaults_to_openpgp() {
    assert_eq!(SignFormat::parse("ssh"), SignFormat::Ssh);
    assert_eq!(SignFormat::parse("SSH"), SignFormat::Ssh);
    assert_eq!(SignFormat::parse("x509"), SignFormat::X509);
    assert_eq!(SignFormat::parse("openpgp"), SignFormat::OpenPgp);
    assert_eq!(SignFormat::parse(""), SignFormat::OpenPgp);
    assert_eq!(SignFormat::parse("gpg"), SignFormat::OpenPgp);
}

#[test]
fn literal_ssh_key_detection() {
    assert!(is_literal_ssh_key("ssh-ed25519 AAAAC3Nz..."));
    assert!(is_literal_ssh_key("sk-ssh-ed25519@openssh.com AAAA..."));
    assert!(is_literal_ssh_key("key::ssh-ed25519 AAAA..."));
    assert!(!is_literal_ssh_key("~/.ssh/id_ed25519.pub"));
    assert!(!is_literal_ssh_key("/home/u/.ssh/id_ed25519"));
    assert!(!is_literal_ssh_key("ABCD1234")); // a gpg key id
}

#[test]
fn openpgp_argv_matches_git() {
    assert_eq!(
        openpgp_args("ABCD"),
        vec![
            "--status-fd=2".to_string(),
            "-bsau".to_string(),
            "ABCD".to_string()
        ]
    );
}

#[test]
fn ssh_argv_uses_git_namespace() {
    let args = ssh_args("/k", "/p");
    assert_eq!(args, ["-Y", "sign", "-n", "git", "-f", "/k", "/p"]);
}

#[test]
fn sig_path_appends_sig() {
    assert_eq!(sig_path("/tmp/x.payload"), "/tmp/x.payload.sig");
}

#[test]
fn x509_is_unsupported() {
    let s = Signer {
        format: SignFormat::X509,
        key: "whatever".to_string(),
        program: "gpgsm".into(),
    };
    assert!(matches!(s.precheck(), Err(SignError::Unsupported)));
}

#[test]
fn empty_key_is_rejected() {
    let s = Signer {
        format: SignFormat::Ssh,
        key: "  ".to_string(),
        program: "ssh-keygen".into(),
    };
    assert!(matches!(s.precheck(), Err(SignError::NoKey)));
}

#[test]
fn embedded_signature_finds_blocks_at_line_starts() {
    let at_start = b"-----BEGIN SSH SIGNATURE-----\nabc";
    assert_eq!(embedded_signature(at_start), Some(0));

    let after_msg = b"a tag\n-----BEGIN SSH SIGNATURE-----\nabc";
    assert_eq!(embedded_signature(after_msg), Some(6));

    let pgp = b"msg\n-----BEGIN PGP SIGNATURE-----\nabc";
    assert_eq!(embedded_signature(pgp), Some(4));

    assert_eq!(embedded_signature(b"no signature here"), None);
    // Not at a line start: not a signature block.
    let mid_line = b"see -----BEGIN SSH SIGNATURE----- for details";
    assert_eq!(embedded_signature(mid_line), None);
}

#[test]
fn embedded_signature_takes_the_first_block() {
    let two = b"m\n-----BEGIN SIGNED MESSAGE-----\nx\n-----BEGIN PGP MESSAGE-----\n";
    assert_eq!(embedded_signature(two), Some(2));
    assert_eq!(embedded_signature(b"m\n-----BEGIN PGP MESSAGE-----"), Some(2));
    // A truncated marker is no block; nor is an empty message.
    assert_eq!(embedded_signature(b"m\n-----BEGIN SSH SIGNATURE----"), None);
    assert_eq!(embedded_signature(b""), None);
    assert_eq!(embedded_signature(b"m\n"), None);
}

#[test]
fn format_parse_trims_and_ignores_case() {
    assert_eq!(SignFormat::parse("  X509\n"), SignFormat::X509);
    assert_eq!(SignFormat::parse("s sh"), SignFormat::OpenPgp);
}

#[test]
fn literal_key_may_follow_blanks() {
    assert!(is_literal_ssh_key("  \tssh-rsa AAAA"));
    assert!(!is_literal_ssh_key("x ssh-rsa AAAA"));
    assert!(!is_literal_ssh_key("sk"));
}

#[test]
fn precheck_passes_configured_formats() {
    let s = Signer {
        format: SignFormat::OpenPgp,
        key: " ABCD ".to_string(),
        program: "gpg".into(),
    };
    assert!(matches!(s.precheck(), Ok(SignFormat::OpenPgp)));
    // A blank key is refused before the format is looked at.
    let t = Signer {
        format: SignFormat::X509,
        key: String::new(),
        program: "gpgsm".into(),
    };
    assert!(matches!(t.precheck(), Err(SignError::NoKey)));
}

#[test]
fn openpgp_result_needs_success_and_sig_created() {
    let s = Signer {
        format: SignFormat::OpenPgp,
        key: "ABCD".to_string(),
        program: "gpg".into(),
    };
    let ok = s.openpgp_result(true, b"SIG".to_vec(), "[GNUPG:] SIG_CREATED D 1".to_string());
    assert_eq!(ok.unwrap(), b"SIG".to_vec());
    match s.openpgp_result(true, b"SIG".to_vec(), "no key".to_string()) {
        Err(SignError::Failed(p, m)) => {
            assert_eq!(p, "gpg");
            assert_eq!(m, "no key");
        }
        other => panic!("unexpected {other:?}"),
    }
    assert!(matches!(
        s.openpgp_result(false, b"SIG".to_vec(), "SIG_CREATED".to_string()),
        Err(SignError::Failed(_, _))
    ));
}

#[test]
fn ssh_result_checks_the_signature_file() {
    let s = Signer {
        format: SignFormat::Ssh,
        key: "/k".to_string(),
        program: "ssh-keygen".into(),
    };
    let good = b"-----BEGIN SSH SIGNATURE-----\nAAAA\n".to_vec();
    assert_eq!(s.ssh_result(true, String::new(), Ok(good.clone())).unwrap(), good);
    match s.ssh_result(true, String::new(), Ok(b"junk".to_vec())) {
        Err(SignError::Failed(p, m)) => {
            assert_eq!(p, "ssh-keygen");
            assert_eq!(m, "ssh-keygen did not produce an SSH signature");
        }
        other => panic!("unexpected {other:?}"),
    }
    assert!(matches!(
        s.ssh_result(true, String::new(), Err("gone".to_string())),
        Err(SignError::Io(m)) if m == "gone"
    ));
    assert!(matches!(
        s.ssh_result(false, "bad key".to_string(), Ok(good)),
        Err(SignError::Failed(_, m)) if m == "bad key"
    ));
}

#[test]
fn sign_error_messages() {
    assert_eq!(
        SignError::Unsupported.to_string(),
        "x509 (gpgsm) signing is not supported; re-run with --no-sign"
    );
    assert_eq!(
        SignError::NoKey.to_string(),
        "no signing key configured (git config user.signingkey); re-run with --no-sign"
    );
    assert_eq!(
        SignError::Spawn("gpg".into(), "not found".into()).to_string(),
        "could not run the signer 'gpg': not found"
    );
    assert_eq!(
        SignError::Failed("gpg".into(), "bad".into()).to_string(),
        "the signer 'gpg' failed: bad"
    );
    assert_eq!(SignError::Io("x".into()).to_string(), "i/o error while signing: x");
}
