//! What TLS is served with: the certificates and the key of the server, and the authorities whose
//! certificates clients have to present.

use crate::serve::TlsFiles;
use crate::text::{concat3, opt_text};
use vstd::prelude::*;

verus! {

/// What came of reading a file.
#[derive(Debug, Clone)]
pub enum FileContents {
    /// It could not be opened, for this reason.
    Unopened { error: String },
    /// It was opened and could not be read, for this reason.
    Unreadable { error: String },
    /// It holds this.
    Bytes(Vec<u8>),
}

/// What the reading of a file holds.
#[verifier::ext_equal]
pub enum FileContentsView {
    Unopened { error: Seq<char> },
    Unreadable { error: Seq<char> },
    Bytes(Seq<u8>),
}

impl View for FileContents {
    type V = FileContentsView;

    open spec fn view(&self) -> FileContentsView {
        match self {
            FileContents::Unopened { error } => FileContentsView::Unopened { error: error@ },
            FileContents::Unreadable { error } => FileContentsView::Unreadable { error: error@ },
            FileContents::Bytes(bytes) => FileContentsView::Bytes(bytes@),
        }
    }
}

/// How a private key is encoded.
#[derive(Debug, Clone, Copy, PartialEq, Eq, Structural)]
pub enum KeyKind {
    Pkcs1,
    Pkcs8,
    Sec1,
}

/// A private key, encoded in DER.
#[derive(Clone)]
pub struct PrivateKey {
    pub kind: KeyKind,
    pub der: Vec<u8>,
}

/// What a private key holds.
#[verifier::ext_equal]
pub struct PrivateKeyView {
    pub kind: KeyKind,
    pub der: Seq<u8>,
}

impl View for PrivateKey {
    type V = PrivateKeyView;

    open spec fn view(&self) -> PrivateKeyView {
        PrivateKeyView { kind: self.kind, der: self.der@ }
    }
}

/// What a list of byte strings holds.
pub open spec fn bytes_list(list: Seq<Vec<u8>>) -> Seq<Seq<u8>> {
    list.map_values(|bytes: Vec<u8>| bytes@)
}

/// The certificates in a PEM file, encoded in DER and in order, or why it is no PEM file.
pub uninterp spec fn pem_certificates(pem: Seq<u8>) -> Result<Seq<Seq<u8>>, Seq<char>>;

/// The first private key in a PEM file, if it holds one, or why it is no PEM file.
pub uninterp spec fn pem_key(pem: Seq<u8>) -> Result<Option<PrivateKeyView>, Seq<char>>;

/// `rustls_pemfile::certs`: the certificates among the sections of a PEM file, or the first error.
/// They depend on the bytes alone.
#[verifier::external_body]
fn read_certificates(pem: &[u8]) -> (r: Result<Vec<Vec<u8>>, String>)
    ensures
        match r {
            Ok(certs) => pem_certificates(pem@) == Ok::<_, Seq<char>>(bytes_list(certs@)),
            Err(error) => pem_certificates(pem@) == Err::<Seq<Seq<u8>>, _>(error@),
        },
{
    let mut rest = pem;
    rustls_pemfile::certs(&mut rest)
        .map(|cert| cert.map(|der| der.as_ref().to_vec()).map_err(|e| e.to_string()))
        .collect()
}

/// `rustls_pemfile::private_key`: the first private key among the sections of a PEM file, of one of
/// its three kinds, or the error before that. It depends on the bytes alone.
#[verifier::external_body]
fn read_key(pem: &[u8]) -> (r: Result<Option<PrivateKey>, String>)
    ensures
        match r {
            Ok(key) => pem_key(pem@) == Ok::<_, Seq<char>>(opt_key(key)),
            Err(error) => pem_key(pem@) == Err::<Option<PrivateKeyView>, _>(error@),
        },
{
    let mut rest = pem;
    Ok(match rustls_pemfile::private_key(&mut rest).map_err(|e| e.to_string())? {
        Some(rustls::pki_types::PrivateKeyDer::Pkcs1(key)) => Some(
            PrivateKey { kind: KeyKind::Pkcs1, der: key.secret_pkcs1_der().to_vec() },
        ),
        Some(rustls::pki_types::PrivateKeyDer::Pkcs8(key)) => Some(
            PrivateKey { kind: KeyKind::Pkcs8, der: key.secret_pkcs8_der().to_vec() },
        ),
        Some(rustls::pki_types::PrivateKeyDer::Sec1(key)) => Some(
            PrivateKey { kind: KeyKind::Sec1, der: key.secret_sec1_der().to_vec() },
        ),
        _ => None,
    })
}

/// What an optional key holds.
pub open spec fn opt_key(key: Option<PrivateKey>) -> Option<PrivateKeyView> {
    match key {
        Some(key) => Some(key@),
        None => None,
    }
}

/// Why a file gives nothing.
#[derive(Debug, Clone)]
pub enum FileError {
    /// It could not be opened.
    Open(String),
    /// It could not be read, or is no PEM file.
    Parse(String),
}

/// What the trouble with a file holds.
#[verifier::ext_equal]
pub enum FileErrorView {
    Open(Seq<char>),
    Parse(Seq<char>),
}

impl View for FileError {
    type V = FileErrorView;

    open spec fn view(&self) -> FileErrorView {
        match self {
            FileError::Open(error) => FileErrorView::Open(error@),
            FileError::Parse(error) => FileErrorView::Parse(error@),
        }
    }
}

/// What a reading of certificates holds.
pub open spec fn certs_view(r: Result<Vec<Vec<u8>>, FileError>) -> Result<
    Seq<Seq<u8>>,
    FileErrorView,
> {
    match r {
        Ok(certs) => Ok(bytes_list(certs@)),
        Err(error) => Err(error@),
    }
}

/// What a reading of a key holds.
pub open spec fn key_view(r: Result<Option<PrivateKey>, FileError>) -> Result<
    Option<PrivateKeyView>,
    FileErrorView,
> {
    match r {
        Ok(key) => Ok(opt_key(key)),
        Err(error) => Err(error@),
    }
}

/// What a reading of authorities holds, if they are configured.
pub open spec fn roots_view(r: Option<Result<Vec<Vec<u8>>, FileError>>) -> Option<
    Result<Seq<Seq<u8>>, FileErrorView>,
> {
    match r {
        Some(r) => Some(certs_view(r)),
        None => None,
    }
}

/// The certificates in a file.
pub open spec fn certificates_in(file: FileContentsView) -> Result<Seq<Seq<u8>>, FileErrorView> {
    match file {
        FileContentsView::Unopened { error } => Err(FileErrorView::Open(error)),
        FileContentsView::Unreadable { error } => Err(FileErrorView::Parse(error)),
        FileContentsView::Bytes(pem) => match pem_certificates(pem) {
            Ok(certs) => Ok(certs),
            Err(error) => Err(FileErrorView::Parse(error)),
        },
    }
}

/// The first private key in a file, if it holds one.
pub open spec fn key_in(file: FileContentsView) -> Result<Option<PrivateKeyView>, FileErrorView> {
    match file {
        FileContentsView::Unopened { error } => Err(FileErrorView::Open(error)),
        FileContentsView::Unreadable { error } => Err(FileErrorView::Parse(error)),
        FileContentsView::Bytes(pem) => match pem_key(pem) {
            Ok(key) => Ok(key),
            Err(error) => Err(FileErrorView::Parse(error)),
        },
    }
}

/// Reads the certificates in a file.
pub fn certificates_of(file: &FileContents) -> (r: Result<Vec<Vec<u8>>, FileError>)
    ensures
        certs_view(r) == certificates_in(file@),
{
    match file {
        FileContents::Unopened { error } => Err(FileError::Open(error.clone())),
        FileContents::Unreadable { error } => Err(FileError::Parse(error.clone())),
        FileContents::Bytes(pem) => match read_certificates(pem) {
            Ok(certs) => Ok(certs),
            Err(error) => Err(FileError::Parse(error)),
        },
    }
}

/// Reads the first private key in a file, if it holds one.
pub fn key_of(file: &FileContents) -> (r: Result<Option<PrivateKey>, FileError>)
    ensures
        key_view(r) == key_in(file@),
{
    match file {
        FileContents::Unopened { error } => Err(FileError::Open(error.clone())),
        FileContents::Unreadable { error } => Err(FileError::Parse(error.clone())),
        FileContents::Bytes(pem) => match read_key(pem) {
            Ok(key) => Ok(key),
            Err(error) => Err(FileError::Parse(error)),
        },
    }
}

/// Whether clients have to present a certificate.
#[derive(Clone)]
pub enum ClientCertificates {
    /// They are not asked for one.
    NotAsked,
    /// They have to, and one of these authorities has to have signed it.
    Required { roots: Vec<Vec<u8>> },
}

/// What is asked of clients.
#[verifier::ext_equal]
pub enum ClientCertificatesView {
    NotAsked,
    Required { roots: Seq<Seq<u8>> },
}

impl View for ClientCertificates {
    type V = ClientCertificatesView;

    open spec fn view(&self) -> ClientCertificatesView {
        match self {
            ClientCertificates::NotAsked => ClientCertificatesView::NotAsked,
            ClientCertificates::Required { roots } => ClientCertificatesView::Required {
                roots: bytes_list(roots@),
            },
        }
    }
}

/// What TLS is served with.
#[derive(Clone)]
pub struct TlsMaterial {
    /// The server's certificate and those that lead up to it.
    pub certs: Vec<Vec<u8>>,
    pub key: PrivateKey,
    pub clients: ClientCertificates,
}

/// What the material for TLS holds.
#[verifier::ext_equal]
pub struct TlsMaterialView {
    pub certs: Seq<Seq<u8>>,
    pub key: PrivateKeyView,
    pub clients: ClientCertificatesView,
}

impl View for TlsMaterial {
    type V = TlsMaterialView;

    open spec fn view(&self) -> TlsMaterialView {
        TlsMaterialView {
            certs: bytes_list(self.certs@),
            key: self.key@,
            clients: self.clients@,
        }
    }
}

/// Why TLS cannot be served.
#[derive(Debug, Clone)]
pub enum TlsError {
    /// The file of the certificates gives none.
    Certificates(FileError),
    /// The file of the key gives nothing.
    Key(FileError),
    /// The file of the key holds no key.
    NoKey,
    /// The file of the authorities gives none.
    Authority(FileError),
}

/// What the trouble with TLS holds.
#[verifier::ext_equal]
pub enum TlsErrorView {
    Certificates(FileErrorView),
    Key(FileErrorView),
    NoKey,
    Authority(FileErrorView),
}

impl View for TlsError {
    type V = TlsErrorView;

    open spec fn view(&self) -> TlsErrorView {
        match self {
            TlsError::Certificates(error) => TlsErrorView::Certificates(error@),
            TlsError::Key(error) => TlsErrorView::Key(error@),
            TlsError::NoKey => TlsErrorView::NoKey,
            TlsError::Authority(error) => TlsErrorView::Authority(error@),
        }
    }
}

/// What TLS is served with, given what the files of the certificates, the key and, where one is
/// configured, the authorities gave. The first trouble in this order is the one that is reported.
pub open spec fn material(
    certs: Result<Seq<Seq<u8>>, FileErrorView>,
    key: Result<Option<PrivateKeyView>, FileErrorView>,
    roots: Option<Result<Seq<Seq<u8>>, FileErrorView>>,
) -> Result<TlsMaterialView, TlsErrorView> {
    match (certs, key, roots) {
        (Err(error), _, _) => Err(TlsErrorView::Certificates(error)),
        (Ok(_), Err(error), _) => Err(TlsErrorView::Key(error)),
        (Ok(_), Ok(None), _) => Err(TlsErrorView::NoKey),
        (Ok(_), Ok(Some(_)), Some(Err(error))) => Err(TlsErrorView::Authority(error)),
        (Ok(certs), Ok(Some(key)), Some(Ok(roots))) => Ok(
            TlsMaterialView { certs, key, clients: ClientCertificatesView::Required { roots } },
        ),
        (Ok(certs), Ok(Some(key)), None) => Ok(
            TlsMaterialView { certs, key, clients: ClientCertificatesView::NotAsked },
        ),
    }
}

/// What TLS is served with, given the files.
pub open spec fn material_in(
    cert: FileContentsView,
    key: FileContentsView,
    ca: Option<FileContentsView>,
) -> Result<TlsMaterialView, TlsErrorView> {
    material(
        certificates_in(cert),
        key_in(key),
        match ca {
            Some(ca) => Some(certificates_in(ca)),
            None => None,
        },
    )
}

/// What came of putting the material together.
pub open spec fn material_view(r: Result<TlsMaterial, TlsError>) -> Result<
    TlsMaterialView,
    TlsErrorView,
> {
    match r {
        Ok(material) => Ok(material@),
        Err(error) => Err(error@),
    }
}

/// Puts together what TLS is served with, given what the files of the certificates, the key and,
/// where one is configured, the authorities gave.
pub fn assemble(
    certs: Result<Vec<Vec<u8>>, FileError>,
    key: Result<Option<PrivateKey>, FileError>,
    roots: Option<Result<Vec<Vec<u8>>, FileError>>,
) -> (r: Result<TlsMaterial, TlsError>)
    ensures
        material_view(r) == material(certs_view(certs), key_view(key), roots_view(roots)),
{
    let certs = match certs {
        Ok(certs) => certs,
        Err(error) => {
            return Err(TlsError::Certificates(error));
        },
    };
    let key = match key {
        Ok(Some(key)) => key,
        Ok(None) => {
            return Err(TlsError::NoKey);
        },
        Err(error) => {
            return Err(TlsError::Key(error));
        },
    };
    let clients = match roots {
        Some(Ok(roots)) => ClientCertificates::Required { roots },
        Some(Err(error)) => {
            return Err(TlsError::Authority(error));
        },
        None => ClientCertificates::NotAsked,
    };
    Ok(TlsMaterial { certs, key, clients })
}

/// Reads what TLS is served with from the files of the certificates, the key and, where one is
/// configured, the authorities.
pub fn tls_material(cert: &FileContents, key: &FileContents, ca: &Option<FileContents>) -> (r: Result<
    TlsMaterial,
    TlsError,
>)
    ensures
        material_view(r) == material_in(
            cert@,
            key@,
            match *ca {
                Some(ca) => Some(ca@),
                None => None,
            },
        ),
{
    let roots = match ca {
        Some(ca) => Some(certificates_of(ca)),
        None => None,
    };
    assemble(certificates_of(cert), key_of(key), roots)
}

/// The complaint about a file that could not be opened.
pub open spec fn cannot_open(path: Seq<char>, error: Seq<char>) -> Seq<char> {
    "cannot open "@ + path + ": "@ + error
}

/// The complaint that ends the process.
pub open spec fn complaint(
    error: TlsErrorView,
    cert: Seq<char>,
    key: Seq<char>,
    ca: Option<Seq<char>>,
) -> Seq<char> {
    match error {
        TlsErrorView::Certificates(FileErrorView::Open(error)) => cannot_open(cert, error),
        TlsErrorView::Certificates(FileErrorView::Parse(error)) => "cannot parse certificates from "@
            + cert + ": "@ + error,
        TlsErrorView::Key(FileErrorView::Open(error)) => cannot_open(key, error),
        TlsErrorView::Key(FileErrorView::Parse(error)) => "cannot parse private key from "@ + key
            + ": "@ + error,
        TlsErrorView::NoKey => "no private key found"@,
        TlsErrorView::Authority(FileErrorView::Open(error)) => cannot_open(
            match ca {
                Some(ca) => ca,
                None => ""@,
            },
            error,
        ),
        TlsErrorView::Authority(FileErrorView::Parse(error)) => error,
    }
}

/// A complaint about a file.
fn complain_about(what: &str, path: &str, error: &str) -> (r: String)
    ensures
        r@ == what@ + path@ + ": "@ + error@,
{
    let mut out = concat3(what, path, ": ");
    out.append(error);
    out
}

impl TlsError {
    /// The complaint that ends the process, given the files.
    pub fn message(&self, files: &TlsFiles) -> (r: String)
        ensures
            r@ == complaint(self@, files.cert@, files.key@, opt_text(files.ca)),
    {
        match self {
            TlsError::Certificates(FileError::Open(error)) => complain_about(
                "cannot open ",
                files.cert.as_str(),
                error.as_str(),
            ),
            TlsError::Certificates(FileError::Parse(error)) => complain_about(
                "cannot parse certificates from ",
                files.cert.as_str(),
                error.as_str(),
            ),
            TlsError::Key(FileError::Open(error)) => complain_about(
                "cannot open ",
                files.key.as_str(),
                error.as_str(),
            ),
            TlsError::Key(FileError::Parse(error)) => complain_about(
                "cannot parse private key from ",
                files.key.as_str(),
                error.as_str(),
            ),
            TlsError::NoKey => "no private key found".to_owned(),
            TlsError::Authority(FileError::Open(error)) => match &files.ca {
                Some(ca) => complain_about("cannot open ", ca.as_str(), error.as_str()),
                None => complain_about("cannot open ", "", error.as_str()),
            },
            TlsError::Authority(FileError::Parse(error)) => error.clone(),
        }
    }
}

/// A configured authority makes client certificates mandatory, and nothing else does: TLS is served
/// either with all of its certificates required of clients, or not at all.
pub proof fn law_an_authority_is_never_ignored(
    cert: FileContentsView,
    key: FileContentsView,
    ca: Option<FileContentsView>,
)
    ensures
        match material_in(cert, key, ca) {
            Ok(m) => match ca {
                Some(ca) => certificates_in(ca) matches Ok(roots) && m.clients == (
                ClientCertificatesView::Required { roots }),
                None => m.clients == ClientCertificatesView::NotAsked,
            },
            Err(_) => true,
        },
{
}

/// TLS is served exactly when the certificates can be read, there is a key, and the authorities can
/// be read where they are configured; it is served with what the files hold.
pub proof fn law_tls_is_served_with_what_the_files_hold(
    cert: FileContentsView,
    key: FileContentsView,
    ca: Option<FileContentsView>,
)
    ensures
        material_in(cert, key, ca) is Ok <==> certificates_in(cert) is Ok && (key_in(
            key,
        ) matches Ok(Some(_))) && (ca matches Some(ca) ==> certificates_in(ca) is Ok),
        material_in(cert, key, ca) matches Ok(m) ==> certificates_in(cert) == Ok::<
            _,
            FileErrorView,
        >(m.certs) && key_in(key) == Ok::<_, FileErrorView>(Some(m.key)),
{
}

/// A file gives what its bytes hold. One that could not be opened and one that could not be read, or is
/// no PEM file, are told apart, each with its reason.
pub proof fn law_what_a_file_gives(file: FileContentsView)
    ensures
        match file {
            FileContentsView::Unopened { error } => certificates_in(file) == Err::<Seq<Seq<u8>>, _>(
                FileErrorView::Open(error),
            ) && key_in(file) == Err::<Option<PrivateKeyView>, _>(FileErrorView::Open(error)),
            FileContentsView::Unreadable { error } => certificates_in(file) == Err::<Seq<Seq<u8>>, _>(
                FileErrorView::Parse(error),
            ) && key_in(file) == Err::<Option<PrivateKeyView>, _>(FileErrorView::Parse(error)),
            FileContentsView::Bytes(pem) => {
                &&& pem_certificates(pem) matches Ok(certs) ==> certificates_in(file) == Ok::<
                    _,
                    FileErrorView,
                >(certs)
                &&& pem_certificates(pem) matches Err(error) ==> certificates_in(file) == Err::<
                    Seq<Seq<u8>>,
                    _,
                >(FileErrorView::Parse(error))
                &&& pem_key(pem) matches Ok(key) ==> key_in(file) == Ok::<_, FileErrorView>(key)
                &&& pem_key(pem) matches Err(error) ==> key_in(file) == Err::<
                    Option<PrivateKeyView>,
                    _,
                >(FileErrorView::Parse(error))
            },
        },
{
}

/// The first trouble is the one that is reported: that with the certificates, then that with the key,
/// then a key that is missing, then that with the authorities.
pub proof fn law_the_first_trouble_is_reported(
    certs: Result<Seq<Seq<u8>>, FileErrorView>,
    key: Result<Option<PrivateKeyView>, FileErrorView>,
    roots: Option<Result<Seq<Seq<u8>>, FileErrorView>>,
)
    ensures
        ({
            let r = material(certs, key, roots);
            &&& certs matches Err(error) ==> r == Err::<TlsMaterialView, _>(
                TlsErrorView::Certificates(error),
            )
            &&& certs is Ok ==> {
                &&& key matches Err(error) ==> r == Err::<TlsMaterialView, _>(TlsErrorView::Key(error))
                &&& key == Ok::<_, FileErrorView>(None::<PrivateKeyView>) ==> r == Err::<
                    TlsMaterialView,
                    _,
                >(TlsErrorView::NoKey)
                &&& (key matches Ok(Some(_))) && (roots matches Some(Err(_))) ==> r == Err::<
                    TlsMaterialView,
                    _,
                >(TlsErrorView::Authority(roots->0->Err_0))
            }
        }),
{
}

/// A complaint names the file that it is about and the reason, but for a key that is missing.
pub proof fn law_complaints_name_the_file(
    reason: Seq<char>,
    cert: Seq<char>,
    key: Seq<char>,
    ca: Seq<char>,
)
    ensures
        ({
            let open = FileErrorView::Open(reason);
            let parse = FileErrorView::Parse(reason);
            let said = |error: TlsErrorView| complaint(error, cert, key, Some(ca));
            &&& said(TlsErrorView::Certificates(open)) == "cannot open "@ + cert + ": "@ + reason
            &&& said(TlsErrorView::Key(open)) == "cannot open "@ + key + ": "@ + reason
            &&& said(TlsErrorView::Authority(open)) == "cannot open "@ + ca + ": "@ + reason
            &&& said(TlsErrorView::Certificates(parse)) == "cannot parse certificates from "@ + cert
                + ": "@ + reason
            &&& said(TlsErrorView::Key(parse)) == "cannot parse private key from "@ + key + ": "@
                + reason
            &&& said(TlsErrorView::Authority(parse)) == reason
            &&& said(TlsErrorView::NoKey) == "no private key found"@
        }),
{
}

} // verus!
