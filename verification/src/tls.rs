//! The state of TLS handshakes
use vstd::prelude::*;
use vstd::slice::slice_to_vec;

use crate::error::{Error, ErrorKind};

verus! {

/// [`IntoTls`] outcome that can be polled to completion. `C` is the stream.
pub enum IntoTlsOutcome<C> {
    Idle,
    Active,
    Finished(C),
}

/// What a TLS connector made of a stream: a stream, or a handshake that would block.
pub enum TlsProgress<C, M> {
    Finished(C),
    WouldBlock(M),
}

/// The state of a handshake. `C` is the stream, and `M` a stream in the middle of a handshake.
pub enum IntoTlsState<C, M> {
    MidHandshake(M),
    Finished(C),
}

/// What is to be done to poll a handshake.
pub enum IntoTlsStep<C, M> {
    /// The handshake is finished.
    Finished(C),
    /// Go on with the handshake, and then with [`IntoTls::end_poll`].
    Handshake(M),
}

/// A mid-handshake stream that can be polled to handshake completion.
pub struct IntoTls<C, M> {
    state: Option<IntoTlsState<C, M>>,
}

impl<C, M> IntoTls<C, M> {
    /// The state of the handshake, until the stream was given away.
    pub closed spec fn progress(&self) -> Option<IntoTlsState<C, M>> {
        self.state
    }

    /// A TLS connector started a handshake.
    pub fn start(result: Result<TlsProgress<C, M>, Error>) -> (r: Result<Self, Error>)
        ensures
            match result {
                Ok(TlsProgress::Finished(x)) => r matches Ok(into_tls) && into_tls.progress() == Some(
                    IntoTlsState::<C, M>::Finished(x),
                ),
                Ok(TlsProgress::WouldBlock(x)) => r matches Ok(into_tls) && into_tls.progress() == Some(
                    IntoTlsState::<C, M>::MidHandshake(x),
                ),
                Err(e) => r == Err::<Self, Error>(e),
            },
    {
        match result {
            Ok(TlsProgress::Finished(x)) => Ok(IntoTls { state: Some(IntoTlsState::Finished(x)) }),
            Ok(TlsProgress::WouldBlock(x)) => Ok(
                IntoTls { state: Some(IntoTlsState::MidHandshake(x)) },
            ),
            Err(err) => Err(err),
        }
    }

    /// Take what is to be polled. Until what came of it is handed back nothing can be polled.
    pub fn begin_poll(&mut self) -> (r: Result<IntoTlsStep<C, M>, Error>)
        ensures
            final(self).progress() is None,
            match old(self).progress() {
                Some(IntoTlsState::MidHandshake(x)) => r == Ok::<_, Error>(
                    IntoTlsStep::<C, M>::Handshake(x),
                ),
                Some(IntoTlsState::Finished(x)) => r == Ok::<_, Error>(
                    IntoTlsStep::<C, M>::Finished(x),
                ),
                None => crate::error::fails(r, ErrorKind::Other, "done!"@),
            },
    {
        match self.state.take() {
            Some(IntoTlsState::MidHandshake(x)) => Ok(IntoTlsStep::Handshake(x)),
            Some(IntoTlsState::Finished(x)) => Ok(IntoTlsStep::Finished(x)),
            None => Err(Error::new(ErrorKind::Other, "done!")),
        }
    }

    /// The handshake was gone on with.
    pub fn end_poll(&mut self, result: Result<TlsProgress<C, M>, Error>) -> (r: Result<
        IntoTlsOutcome<C>,
        Error,
    >)
        requires
            old(self).progress() is None,
        ensures
            match result {
                Ok(TlsProgress::Finished(x)) => {
                    &&& r == Ok::<_, Error>(IntoTlsOutcome::Finished(x))
                    &&& final(self).progress() is None
                },
                Ok(TlsProgress::WouldBlock(x)) => {
                    &&& r == Ok::<_, Error>(IntoTlsOutcome::<C>::Idle)
                    &&& final(self).progress() == Some(IntoTlsState::<C, M>::MidHandshake(x))
                },
                Err(e) => {
                    &&& r == Err::<IntoTlsOutcome<C>, Error>(e)
                    &&& final(self).progress() is None
                },
            },
    {
        match result {
            Ok(TlsProgress::Finished(x)) => Ok(IntoTlsOutcome::Finished(x)),
            Ok(TlsProgress::WouldBlock(x)) => {
                self.state = Some(IntoTlsState::MidHandshake(x));
                Ok(IntoTlsOutcome::Idle)
            },
            Err(err) => Err(err),
        }
    }

    /// Take what is to be shut down.
    pub fn close(&mut self) -> (r: Option<IntoTlsState<C, M>>)
        ensures
            r == old(self).progress(),
            final(self).progress() is None,
    {
        self.state.take()
    }
}

/// An item of a PEM text.
pub enum PemItem {
    /// A certificate in DER encoding.
    Certificate(Vec<u8>),
    /// Anything else.
    Other,
}

/// An item of a PEM text as a mathematical value: the DER encoding of a certificate, or nothing.
pub open spec fn item_view(item: Result<PemItem, String>) -> Result<Option<Seq<u8>>, Seq<char>> {
    match item {
        Ok(PemItem::Certificate(der)) => Ok(Some(der@)),
        Ok(PemItem::Other) => Ok(None),
        Err(text) => Err(text@),
    }
}

/// The items and errors that the `rustls-pemfile` crate reads from a text.
pub uninterp spec fn pem_items(text: Seq<char>) -> Seq<Result<Option<Seq<u8>>, Seq<char>>>;

/// [`rustls_pemfile::read_all`] reads all items of a text.
#[verifier::external_body]
fn read_pem_items(text: &str) -> (r: Vec<Result<PemItem, String>>)
    ensures
        r@.map_values(|item: Result<PemItem, String>| item_view(item)) == pem_items(text@),
{
    rustls_pemfile::read_all(&mut text.as_bytes()).map(|item| match item {
        Ok(rustls_pemfile::Item::X509Certificate(cert)) => Ok(PemItem::Certificate(cert.to_vec())),
        Ok(_) => Ok(PemItem::Other),
        Err(err) => Err(err.to_string()),
    }).collect()
}

/// The certificates of items, up to the first error.
pub open spec fn certificates(items: Seq<Result<Option<Seq<u8>>, Seq<char>>>) -> Seq<Seq<u8>>
    decreases items.len(),
{
    if items.len() == 0 {
        Seq::empty()
    } else {
        match items[0] {
            Ok(Some(der)) => seq![der] + certificates(items.drop_first()),
            Ok(None) => certificates(items.drop_first()),
            Err(_) => Seq::empty(),
        }
    }
}

/// The first error among items.
pub open spec fn first_error(items: Seq<Result<Option<Seq<u8>>, Seq<char>>>) -> Option<Seq<char>>
    decreases items.len(),
{
    if items.len() == 0 {
        None
    } else {
        match items[0] {
            Err(text) => Some(text),
            _ => first_error(items.drop_first()),
        }
    }
}

/// The certificates to trust, and the error that ended reading them, if one did.
pub struct RootCertificates {
    pub certificates: Vec<Vec<u8>>,
    pub fault: Option<Error>,
}

impl RootCertificates {
    /// Whether these are the certificates and the error of items.
    pub open spec fn are_those_of(&self, items: Seq<Result<Option<Seq<u8>>, Seq<char>>>) -> bool {
        &&& self.certificates@.map_values(|der: Vec<u8>| der@) == certificates(items)
        &&& match first_error(items) {
            Some(text) => self.fault matches Some(e) && e.kind == ErrorKind::Other && e.message@ == text,
            None => self.fault is None,
        }
    }
}

/// The certificates to trust among items. Items that are no certificates are passed over, and the first error ends
/// reading.
pub fn select_certificates(items: Vec<Result<PemItem, String>>) -> (r: RootCertificates)
    ensures
        r.are_those_of(items@.map_values(|item: Result<PemItem, String>| item_view(item))),
{
    let ghost views = items@.map_values(|item: Result<PemItem, String>| item_view(item));
    let mut certificates: Vec<Vec<u8>> = Vec::new();
    let mut i: usize = 0;
    assert(views.skip(0) =~= views);
    assert(self::certificates(views) =~= Seq::<Seq<u8>>::empty() + self::certificates(views.skip(0)));
    while i < items.len()
        invariant
            i <= items@.len(),
            views == items@.map_values(|item: Result<PemItem, String>| item_view(item)),
            self::certificates(views) == certificates@.map_values(|der: Vec<u8>| der@)
                + self::certificates(views.skip(i as int)),
            first_error(views) == first_error(views.skip(i as int)),
        decreases items@.len() - i,
    {
        assert(views.skip(i as int)[0] == item_view(items@[i as int]));
        assert(views.skip(i as int).drop_first() =~= views.skip(i + 1));
        let ghost before = certificates@.map_values(|der: Vec<u8>| der@);
        match &items[i] {
            Ok(PemItem::Certificate(der)) => {
                certificates.push(slice_to_vec(der.as_slice()));
                assert(certificates@.map_values(|der: Vec<u8>| der@) =~= before.push(der@));
                assert(self::certificates(views) =~= before.push(der@) + self::certificates(
                    views.skip(i + 1),
                ));
            },
            Ok(PemItem::Other) => {},
            Err(text) => {
                assert(self::certificates(views) =~= before);
                return RootCertificates {
                    certificates,
                    fault: Some(Error::new(ErrorKind::Other, text.as_str())),
                };
            },
        }
        i = i + 1;
    }
    assert(self::certificates(views) =~= certificates@.map_values(|der: Vec<u8>| der@));
    RootCertificates { certificates, fault: None }
}

/// The certificates to trust of a certificate chain in PEM encoding.
pub fn root_certificates(cert_chain: &str) -> (r: RootCertificates)
    ensures
        r.are_those_of(pem_items(cert_chain@)),
{
    select_certificates(read_pem_items(cert_chain))
}

/// A certificate among items is behind those of the items before it, and other items are passed over. Nothing behind an
/// error counts, and the first error is the one that is reported.
pub proof fn certificates_are_in_order(
    items: Seq<Result<Option<Seq<u8>>, Seq<char>>>,
    item: Result<Option<Seq<u8>>, Seq<char>>,
)
    ensures
        certificates(Seq::empty()) == Seq::<Seq<u8>>::empty(),
        first_error(Seq::empty()) is None,
        first_error(items) is None ==> certificates(items.push(item)) == match item {
            Ok(Some(der)) => certificates(items).push(der),
            _ => certificates(items),
        },
        first_error(items) is Some ==> certificates(items.push(item)) == certificates(items),
        first_error(items.push(item)) == match first_error(items) {
            Some(text) => Some(text),
            None => match item {
                Err(text) => Some(text),
                Ok(_) => None,
            },
        },
    decreases items.len(),
{
    let all = items.push(item);
    if items.len() == 0 {
        assert(all.drop_first() =~= items);
        assert(certificates(items) =~= Seq::<Seq<u8>>::empty());
        assert(certificates(all) =~= match item {
            Ok(Some(der)) => certificates(items).push(der),
            _ => certificates(items),
        });
    } else {
        certificates_are_in_order(items.drop_first(), item);
        assert(all.drop_first() =~= items.drop_first().push(item));
        assert(all[0] == items[0]);
        if first_error(items) is None {
            assert(certificates(all) =~= match item {
                Ok(Some(der)) => certificates(items).push(der),
                _ => certificates(items),
            });
        }
    }
}

/// The certificates to trust are all that were read, each as it was read, and an error that ended reading is reported.
pub proof fn trusted_certificates_were_read(
    roots: RootCertificates,
    items: Seq<Result<Option<Seq<u8>>, Seq<char>>>,
    i: int,
)
    requires
        roots.are_those_of(items),
    ensures
        roots.certificates@.len() == certificates(items).len(),
        0 <= i < certificates(items).len() ==> roots.certificates@[i]@ == certificates(items)[i],
        roots.fault is Some <==> first_error(items) is Some,
        roots.fault matches Some(e) ==> first_error(items) == Some(e.message@) && e.kind == ErrorKind::Other,
{
    let views = roots.certificates@.map_values(|der: Vec<u8>| der@);
    assert(views.len() == roots.certificates@.len());
    if 0 <= i < certificates(items).len() {
        assert(views[i] == roots.certificates@[i]@);
    }
}

} // verus!
