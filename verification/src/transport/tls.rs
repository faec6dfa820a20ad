//! The certificate and key that a TLS listener serves with.

use crate::text::join;
use crate::types::{McpError, McpErrorView};
use vstd::prelude::*;
use vstd::string::*;

verus! {

/// A chain and its key, as `rustls` serves with them.
#[verifier::external_type_specification]
#[verifier::external_body]
pub struct ExCertifiedKey(rustls::sign::CertifiedKey);

/// A certificate chain and a private key, as PEM text.
#[derive(Debug)]
pub struct TlsSettings {
    pub certificate: Vec<u8>,
    pub private_key: Vec<u8>,
}

/// A private key, by the form it is encoded in.
#[derive(Debug)]
pub enum PrivateKey {
    Pkcs1(Vec<u8>),
    Sec1(Vec<u8>),
    Pkcs8(Vec<u8>),
}

/// What a [`PrivateKey`] is.
pub enum PrivateKeyView {
    Pkcs1(Seq<u8>),
    Sec1(Seq<u8>),
    Pkcs8(Seq<u8>),
}

impl View for PrivateKey {
    type V = PrivateKeyView;

    open spec fn view(&self) -> PrivateKeyView {
        match *self {
            PrivateKey::Pkcs1(k) => PrivateKeyView::Pkcs1(k@),
            PrivateKey::Sec1(k) => PrivateKeyView::Sec1(k@),
            PrivateKey::Pkcs8(k) => PrivateKeyView::Pkcs8(k@),
        }
    }
}

/// The certificates that `rustls_pemfile` finds in a PEM text, or the words of
/// its complaint.
pub uninterp spec fn pem_certificates(pem: Seq<u8>) -> Result<Seq<Seq<u8>>, Seq<char>>;

/// The first private key that `rustls_pemfile` finds in a PEM text, if any, or
/// the words of its complaint.
pub uninterp spec fn pem_private_key(pem: Seq<u8>) -> Result<Option<PrivateKeyView>, Seq<char>>;

/// The bytes of each item of a list.
pub open spec fn byte_views(v: Seq<Vec<u8>>) -> Seq<Seq<u8>> {
    v.map_values(|b: Vec<u8>| b@)
}

/// Reads every certificate out of a PEM text with `rustls_pemfile::certs`, in
/// order, up to the first error. What it reads, or the words of the error,
/// depends on the text alone.
#[verifier::external_body]
fn read_certificates(pem: &Vec<u8>) -> (r: Result<Vec<Vec<u8>>, String>)
    ensures
        match r {
            Ok(chain) => pem_certificates(pem@) == Ok::<Seq<Seq<u8>>, Seq<char>>(
                byte_views(chain@),
            ),
            Err(why) => pem_certificates(pem@) == Err::<Seq<Seq<u8>>, Seq<char>>(why@),
        },
{
    rustls_pemfile::certs(&mut pem.as_slice())
        .map(|item| item.map(|c| c.to_vec()))
        .collect::<Result<Vec<Vec<u8>>, std::io::Error>>()
        .map_err(|e| e.to_string())
}

/// Reads the first private key out of a PEM text with
/// `rustls_pemfile::private_key`. What it reads, or the words of the error,
/// depends on the text alone.
#[verifier::external_body]
fn read_private_key(pem: &Vec<u8>) -> (r: Result<Option<PrivateKey>, String>)
    ensures
        match r {
            Ok(Some(key)) => pem_private_key(pem@) == Ok::<Option<PrivateKeyView>, Seq<char>>(
                Some(key@),
            ),
            Ok(None) => pem_private_key(pem@) == Ok::<Option<PrivateKeyView>, Seq<char>>(None),
            Err(why) => pem_private_key(pem@) == Err::<Option<PrivateKeyView>, Seq<char>>(why@),
        },
{
    match rustls_pemfile::private_key(&mut pem.as_slice()) {
        Ok(Some(rustls::pki_types::PrivateKeyDer::Pkcs1(k))) => {
            Ok(Some(PrivateKey::Pkcs1(k.secret_pkcs1_der().to_vec())))
        },
        Ok(Some(rustls::pki_types::PrivateKeyDer::Sec1(k))) => {
            Ok(Some(PrivateKey::Sec1(k.secret_sec1_der().to_vec())))
        },
        Ok(Some(rustls::pki_types::PrivateKeyDer::Pkcs8(k))) => {
            Ok(Some(PrivateKey::Pkcs8(k.secret_pkcs8_der().to_vec())))
        },
        Ok(_) => Ok(None),
        Err(e) => Err(e.to_string()),
    }
}

/// Puts a chain and a key together with `rustls::sign::CertifiedKey::from_der`
/// and the `ring` provider. For some keys the provider draws random bytes, and
/// fails where it gets none, so nothing is claimed of whether this succeeds or
/// of the words of the error; [`after_pairing`] takes either.
#[verifier::external_body]
fn pair_up(chain: Vec<Vec<u8>>, key: PrivateKey) -> (r: Result<
    rustls::sign::CertifiedKey,
    String,
>) {
    let chain = chain.into_iter().map(rustls::pki_types::CertificateDer::from).collect();
    let key = match key {
        PrivateKey::Pkcs1(k) => rustls::pki_types::PrivatePkcs1KeyDer::from(k).into(),
        PrivateKey::Sec1(k) => rustls::pki_types::PrivateSec1KeyDer::from(k).into(),
        PrivateKey::Pkcs8(k) => rustls::pki_types::PrivatePkcs8KeyDer::from(k).into(),
    };
    let provider = rustls::crypto::ring::default_provider();
    rustls::sign::CertifiedKey::from_der(chain, key, &provider).map_err(|e| e.to_string())
}

/// The refusal to start.
pub open spec fn cannot_start(what: Seq<char>) -> McpErrorView {
    McpErrorView::Internal("Failed to start HTTP server: "@ + what)
}

fn bad(what: &str) -> (r: McpError)
    ensures
        r@ == cannot_start(what@),
{
    McpError::Internal(join("Failed to start HTTP server: ", what))
}

/// What is wrong with a chain and a key as they were read, if anything.
pub open spec fn material_fault(
    chain: Result<Seq<Seq<u8>>, Seq<char>>,
    key: Result<Option<PrivateKeyView>, Seq<char>>,
) -> Option<Seq<char>> {
    match chain {
        Err(e) => Some("unreadable certificate chain: "@ + e),
        Ok(c) => if c.len() == 0 {
            Some("the certificate chain is empty"@)
        } else {
            match key {
                Err(e) => Some("unreadable private key: "@ + e),
                Ok(None) => Some("no private key in the PEM given"@),
                Ok(Some(_)) => None,
            }
        },
    }
}

/// What is wrong with settings before the chain and the key are put together,
/// if anything.
pub open spec fn settings_fault(certificate: Seq<u8>, private_key: Seq<u8>) -> Option<Seq<char>> {
    material_fault(pem_certificates(certificate), pem_private_key(private_key))
}

/// The refusal to start with a chain and a key that cannot be put together.
pub open spec fn mismatch(why: Seq<char>) -> McpErrorView {
    cannot_start("the certificate and key do not work together: "@ + why)
}

/// The view of a chain as it was read.
pub open spec fn chain_view(r: Result<Vec<Vec<u8>>, String>) -> Result<Seq<Seq<u8>>, Seq<char>> {
    match r {
        Ok(c) => Ok(byte_views(c@)),
        Err(e) => Err(e@),
    }
}

/// The view of a key as it was read.
pub open spec fn key_view(r: Result<Option<PrivateKey>, String>) -> Result<
    Option<PrivateKeyView>,
    Seq<char>,
> {
    match r {
        Ok(Some(k)) => Ok(Some(k@)),
        Ok(None) => Ok(None),
        Err(e) => Err(e@),
    }
}

/// A chain and a key that can be tried, or what is wrong with what was read.
pub fn usable_material(
    chain: Result<Vec<Vec<u8>>, String>,
    key: Result<Option<PrivateKey>, String>,
) -> (r: Result<(Vec<Vec<u8>>, PrivateKey), McpError>)
    ensures
        match r {
            Ok((c, k)) => material_fault(chain_view(chain), key_view(key)) is None && chain_view(
                chain,
            ) == Ok::<Seq<Seq<u8>>, Seq<char>>(byte_views(c@)) && key_view(key) == Ok::<
                Option<PrivateKeyView>,
                Seq<char>,
            >(Some(k@)),
            Err(e) => material_fault(chain_view(chain), key_view(key)) is Some && e@
                == cannot_start(material_fault(chain_view(chain), key_view(key))->0),
        },
{
    let c = match chain {
        Err(e) => {
            return Err(bad(join("unreadable certificate chain: ", e.as_str()).as_str()));
        },
        Ok(c) => c,
    };
    assert(byte_views(c@).len() == c@.len());
    if c.len() == 0 {
        return Err(bad("the certificate chain is empty"));
    }
    match key {
        Err(e) => Err(bad(join("unreadable private key: ", e.as_str()).as_str())),
        Ok(None) => Err(bad("no private key in the PEM given")),
        Ok(Some(k)) => Ok((c, k)),
    }
}

/// What was put together, or the refusal to start with it.
pub fn after_pairing(paired: Result<rustls::sign::CertifiedKey, String>) -> (r: Result<
    rustls::sign::CertifiedKey,
    McpError,
>)
    ensures
        match paired {
            Ok(key) => r == Ok::<rustls::sign::CertifiedKey, McpError>(key),
            Err(why) => r matches Err(e) && e@ == mismatch(why@),
        },
{
    match paired {
        Ok(key) => Ok(key),
        Err(e) => Err(
            bad(join("the certificate and key do not work together: ", e.as_str()).as_str()),
        ),
    }
}

/// The refusal to start where there is no revision of TLS to speak.
pub fn no_usable_versions(why: &str) -> (r: McpError)
    ensures
        r@ == cannot_start("no usable TLS versions: "@ + why@),
{
    bad(join("no usable TLS versions: ", why).as_str())
}

/// Whether this is what came of putting together the chain and the key that
/// these PEM texts hold.
pub closed spec fn pairing_of(
    certificate: Seq<u8>,
    private_key: Seq<u8>,
    paired: Result<rustls::sign::CertifiedKey, String>,
) -> bool {
    exists|chain: Vec<Vec<u8>>, key: PrivateKey|
        #[trigger] call_ensures(pair_up, (chain, key), paired) && pem_certificates(certificate)
            == Ok::<Seq<Seq<u8>>, Seq<char>>(byte_views(chain@)) && pem_private_key(private_key)
            == Ok::<Option<PrivateKeyView>, Seq<char>>(Some(key@))
}

/// What a TLS listener serves with. A certificate that cannot be used keeps
/// the server from starting. Where there is a chain and a key to try, whether
/// they do is for `rustls` and the machine to say.
pub fn certified_key(settings: TlsSettings) -> (r: Result<rustls::sign::CertifiedKey, McpError>)
    ensures
        match settings_fault(settings.certificate@, settings.private_key@) {
            Some(fault) => r matches Err(e) && e@ == cannot_start(fault),
            None => exists|paired: Result<rustls::sign::CertifiedKey, String>| #[trigger]
                pairing_of(settings.certificate@, settings.private_key@, paired) && match paired {
                    Ok(key) => r == Ok::<rustls::sign::CertifiedKey, McpError>(key),
                    Err(why) => r matches Err(e) && e@ == mismatch(why@),
                },
        },
{
    let chain = read_certificates(&settings.certificate);
    let key = read_private_key(&settings.private_key);
    match usable_material(chain, key) {
        Ok((chain, key)) => {
            let paired = pair_up(chain, key);
            assert(pairing_of(settings.certificate@, settings.private_key@, paired));
            after_pairing(paired)
        },
        Err(e) => Err(e),
    }
}

} // verus!
