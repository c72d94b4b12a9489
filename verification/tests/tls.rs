use ttyd::serve::TlsFiles;
use ttyd::tls::{
    assemble, certificates_of, key_of, tls_material, ClientCertificates, FileContents, FileError,
    KeyKind, PrivateKey, TlsError,
};

/// A section of a PEM file.
fn section(label: &str, base64: &str) -> String {
    format!("-----BEGIN {label}-----\n{base64}\n-----END {label}-----\n")
}

fn file(text: &str) -> FileContents {
    FileContents::Bytes(text.as_bytes().to_vec())
}

fn certificate() -> FileContents {
    file(&section("CERTIFICATE", "AQID"))
}

fn key() -> FileContents {
    file(&section("PRIVATE KEY", "BAUG"))
}

fn unopened() -> FileContents {
    FileContents::Unopened {
        error: "No such file or directory (os error 2)".into(),
    }
}

fn unreadable() -> FileContents {
    FileContents::Unreadable {
        error: "Is a directory (os error 21)".into(),
    }
}

/// A section whose end is missing.
fn torn(label: &str) -> FileContents {
    file(&format!("-----BEGIN {label}-----\nAQID\n"))
}

fn files() -> TlsFiles {
    TlsFiles {
        cert: "c.pem".into(),
        key: "k.pem".into(),
        ca: Some("a.pem".into()),
    }
}

fn complaint(cert: FileContents, key: FileContents, ca: Option<FileContents>) -> String {
    match tls_material(&cert, &key, &ca) {
        Ok(_) => panic!("expected a complaint"),
        Err(e) => e.message(&files()),
    }
}

#[test]
fn all_certificates_of_a_file_are_read_in_order() {
    let text = section("CERTIFICATE", "AQID")
        + "text between the sections\n"
        + &section("PRIVATE KEY", "BAUG")
        + &section("CERTIFICATE", "BwgJ");
    let certs = certificates_of(&file(&text)).unwrap();
    assert_eq!(certs, vec![vec![1, 2, 3], vec![7, 8, 9]]);
    assert!(certificates_of(&file("")).unwrap().is_empty());
}

#[test]
fn the_first_key_of_a_file_is_read_with_its_kind() {
    for (label, kind) in [
        ("RSA PRIVATE KEY", KeyKind::Pkcs1),
        ("PRIVATE KEY", KeyKind::Pkcs8),
        ("EC PRIVATE KEY", KeyKind::Sec1),
    ] {
        let text = section("CERTIFICATE", "AQID")
            + &section(label, "BAUG")
            + &section("PRIVATE KEY", "BwgJ");
        let key = key_of(&file(&text)).unwrap().unwrap();
        assert_eq!(key.kind, kind);
        assert_eq!(key.der, vec![4, 5, 6]);
    }
    assert!(key_of(&certificate()).unwrap().is_none());
}

#[test]
fn without_an_authority_clients_need_no_certificate() {
    let material = tls_material(&certificate(), &key(), &None).unwrap();
    assert_eq!(material.certs, vec![vec![1, 2, 3]]);
    assert_eq!(material.key.kind, KeyKind::Pkcs8);
    assert_eq!(material.key.der, vec![4, 5, 6]);
    assert!(matches!(material.clients, ClientCertificates::NotAsked));
}

#[test]
fn an_authority_makes_client_certificates_mandatory() {
    let ca = file(&(section("CERTIFICATE", "BwgJ") + &section("CERTIFICATE", "CgsM")));
    let material = tls_material(&certificate(), &key(), &Some(ca)).unwrap();
    match material.clients {
        ClientCertificates::Required { roots } => {
            assert_eq!(roots, vec![vec![7, 8, 9], vec![10, 11, 12]]);
        }
        ClientCertificates::NotAsked => panic!("the authority was ignored"),
    }
    // A file without certificates is an authority all the same.
    let material = tls_material(&certificate(), &key(), &Some(file(""))).unwrap();
    assert!(
        matches!(material.clients, ClientCertificates::Required { roots } if roots.is_empty())
    );
}

#[test]
fn each_file_that_cannot_be_opened_is_named() {
    let reason = "No such file or directory (os error 2)";
    assert_eq!(
        complaint(unopened(), key(), None),
        format!("cannot open c.pem: {reason}")
    );
    assert_eq!(
        complaint(certificate(), unopened(), None),
        format!("cannot open k.pem: {reason}")
    );
    assert_eq!(
        complaint(certificate(), key(), Some(unopened())),
        format!("cannot open a.pem: {reason}")
    );
}

#[test]
fn each_file_that_cannot_be_parsed_is_named() {
    assert_eq!(
        complaint(torn("CERTIFICATE"), key(), None),
        "cannot parse certificates from c.pem: section end \"CERTIFICATE\" missing"
    );
    assert_eq!(
        complaint(certificate(), torn("PRIVATE KEY"), None),
        "cannot parse private key from k.pem: section end \"PRIVATE KEY\" missing"
    );
    assert_eq!(
        complaint(certificate(), key(), Some(torn("CERTIFICATE"))),
        "section end \"CERTIFICATE\" missing"
    );
    assert_eq!(
        complaint(unreadable(), key(), None),
        "cannot parse certificates from c.pem: Is a directory (os error 21)"
    );
    assert_eq!(
        complaint(certificate(), unreadable(), None),
        "cannot parse private key from k.pem: Is a directory (os error 21)"
    );
    assert_eq!(
        complaint(certificate(), key(), Some(unreadable())),
        "Is a directory (os error 21)"
    );
}

#[test]
fn a_file_without_a_key_is_refused() {
    assert_eq!(
        complaint(certificate(), certificate(), None),
        "no private key found"
    );
}

#[test]
fn the_first_trouble_is_reported() {
    let bad = || Err(FileError::Parse("bad".into()));
    let some_key = || {
        Ok(Some(PrivateKey {
            kind: KeyKind::Sec1,
            der: vec![9],
        }))
    };
    assert!(matches!(
        assemble(bad(), Err(FileError::Open("gone".into())), Some(bad())),
        Err(TlsError::Certificates(FileError::Parse(_)))
    ));
    assert!(matches!(
        assemble(Ok(vec![]), Err(FileError::Open("gone".into())), Some(bad())),
        Err(TlsError::Key(FileError::Open(_)))
    ));
    assert!(matches!(
        assemble(Ok(vec![]), Ok(None), Some(bad())),
        Err(TlsError::NoKey)
    ));
    assert!(matches!(
        assemble(Ok(vec![]), some_key(), Some(bad())),
        Err(TlsError::Authority(FileError::Parse(_)))
    ));
    let material = match assemble(Ok(vec![vec![1]]), some_key(), Some(Ok(vec![vec![2]]))) {
        Ok(material) => material,
        Err(e) => panic!("{e:?}"),
    };
    assert_eq!(material.certs, vec![vec![1]]);
    assert_eq!(material.key.kind, KeyKind::Sec1);
    assert_eq!(material.key.der, vec![9]);
    assert!(
        matches!(material.clients, ClientCertificates::Required { roots } if roots == vec![vec![2]])
    );
}
