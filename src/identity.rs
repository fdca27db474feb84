//! Caller identity, derived from the certificate chain that a peer presented
//! during the handshake.
use vstd::prelude::*;

verus! {

/// The alternative names that OpenSSL reads from a DER-encoded certificate:
/// `None` when the bytes do not parse as a certificate, `Some(None)` when it has
/// no subject-alternative-name extension, else each name in listed order, as its
/// e-mail text when it is an e-mail name and `None` when it is of another type.
pub uninterp spec fn alt_names_of(der: Seq<u8>) -> Option<Option<Seq<Option<Seq<char>>>>>;

/// The view of one alternative name as `alt_names_of` states it.
pub open spec fn name_view(n: Option<String>) -> Option<Seq<char>> {
    match n {
        Some(s) => Some(s@),
        None => None,
    }
}

/// The view of a list of alternative names.
pub open spec fn names_view(ns: Seq<Option<String>>) -> Seq<Option<Seq<char>>> {
    ns.map_values(|n: Option<String>| name_view(n))
}

/// The view of what `read_alt_names` returns.
pub open spec fn read_view(r: Option<Option<Vec<Option<String>>>>) -> Option<Option<Seq<Option<Seq<char>>>>> {
    match r {
        Some(Some(ns)) => Some(Some(names_view(ns@))),
        Some(None) => Some(None),
        None => None,
    }
}

/// Relies on openssl's `X509::from_der` (parse the certificate),
/// `X509Ref::subject_alt_names` (its subject-alternative-name extension, if
/// any) and `GeneralNameRef::email` (the text of an e-mail name, `None` for any
/// other type of name).
#[verifier::external_body]
fn read_alt_names(der: &[u8]) -> (r: Option<Option<Vec<Option<String>>>>)
    ensures
        read_view(r) == alt_names_of(der@),
{
    match openssl::x509::X509::from_der(der) {
        Ok(cert) => Some(cert.subject_alt_names().map(
            |names| names.iter().map(|n| n.email().map(|e| e.to_string())).collect(),
        )),
        Err(_) => None,
    }
}

/// Who is calling, as far as the connection's handshake tells.
#[derive(Debug, PartialEq, Eq)]
pub enum Identity {
    Anonymous,
    Identified(String),
}

impl View for Identity {
    type V = Option<Seq<char>>;

    open spec fn view(&self) -> Option<Seq<char>> {
        match self {
            Identity::Anonymous => None,
            Identity::Identified(s) => Some(s@),
        }
    }
}

impl Identity {
    /// A copy of this identity.
    pub fn duplicate(&self) -> (r: Identity)
        ensures
            r@ == self@,
    {
        match self {
            Identity::Anonymous => Identity::Anonymous,
            Identity::Identified(s) => Identity::Identified(s.clone()),
        }
    }
}

/// The first e-mail name of a list of alternative names, in listed order.
pub open spec fn first_email(ns: Seq<Option<Seq<char>>>) -> Option<Seq<char>>
    decreases ns.len(),
{
    if ns.len() == 0 {
        None
    } else {
        match ns[0] {
            Some(e) => Some(e),
            None => first_email(ns.drop_first()),
        }
    }
}

/// The identity that a peer chain (leaf first) asserts: the first e-mail name
/// of the leaf certificate, and none when the chain is empty, the leaf does
/// not parse or has no e-mail name.
pub open spec fn chain_identity(chain: Seq<Seq<u8>>) -> Option<Seq<char>> {
    if chain.len() == 0 {
        None
    } else {
        match alt_names_of(chain[0]) {
            Some(Some(ns)) => first_email(ns),
            _ => None,
        }
    }
}

/// The view of a certificate chain.
pub open spec fn chain_view(chain: Seq<Vec<u8>>) -> Seq<Seq<u8>> {
    chain.map_values(|c: Vec<u8>| c@)
}

/// What a finished handshake tells about the peer.
pub struct SessionDescriptor {
    /// The peer's certificates, leaf first; empty when it presented none.
    pub peer_chain: Vec<Vec<u8>>,
    /// The negotiated protocol version, as its wire code.
    pub protocol_version: u16,
    /// Whether both ends presented and verified certificates.
    pub mutually_authenticated: bool,
}

/// The identity that a session descriptor carries: none unless the peer was
/// authenticated by its certificate.
pub open spec fn descriptor_identity(d: SessionDescriptor) -> Option<Seq<char>> {
    if d.mutually_authenticated {
        chain_identity(chain_view(d.peer_chain@))
    } else {
        None
    }
}

/// The identity that a list of alternative names asserts: its first e-mail
/// name, or `Anonymous` when it holds none.
pub fn identity_from_alt_names(names: &Vec<Option<String>>) -> (r: Identity)
    ensures
        r@ == first_email(names_view(names@)),
{
    let mut i: usize = 0;
    assert(names_view(names@).skip(0) =~= names_view(names@));
    while i < names.len()
        invariant
            0 <= i <= names.len(),
            first_email(names_view(names@)) == first_email(names_view(names@).skip(i as int)),
        decreases names.len() - i,
    {
        let ghost rest = names_view(names@).skip(i as int);
        assert(rest.drop_first() =~= names_view(names@).skip(i + 1));
        assert(rest[0] == name_view(names@[i as int]));
        match &names[i] {
            Some(e) => {
                return Identity::Identified(e.clone());
            },
            None => {},
        }
        i = i + 1;
    }
    assert(names_view(names@).skip(i as int).len() == 0);
    Identity::Anonymous
}

/// The identity that a peer chain (leaf first) asserts: the first e-mail name
/// among the leaf certificate's subject alternative names. A malformed or
/// absent leaf gives `Anonymous`, never an error.
pub fn identity_from_chain(chain: &Vec<Vec<u8>>) -> (r: Identity)
    ensures
        r@ == chain_identity(chain_view(chain@)),
{
    if chain.len() == 0 {
        return Identity::Anonymous;
    }
    let read = read_alt_names(chain[0].as_slice());
    assert(chain_view(chain@)[0] == chain@[0]@);
    match read {
        Some(Some(names)) => identity_from_alt_names(&names),
        _ => Identity::Anonymous,
    }
}

/// The identity of the connection that a handshake produced.
pub fn extract(d: &SessionDescriptor) -> (r: Identity)
    ensures
        r@ == descriptor_identity(*d),
{
    if d.mutually_authenticated {
        identity_from_chain(&d.peer_chain)
    } else {
        Identity::Anonymous
    }
}

/// Identity extraction depends on the leaf certificate alone: two chains with
/// the same leaf assert the same identity, whatever follows it.
pub proof fn identity_depends_on_leaf_only(a: Seq<Seq<u8>>, b: Seq<Seq<u8>>)
    requires
        a.len() > 0,
        b.len() > 0,
        a[0] == b[0],
    ensures
        chain_identity(a) == chain_identity(b),
{
}

/// The identity taken from a list of alternative names is its first e-mail
/// name in listed order: every name before it is of another type; and there
/// is none only when no name is an e-mail name.
pub proof fn first_email_is_first(ns: Seq<Option<Seq<char>>>)
    ensures
        match first_email(ns) {
            Some(e) => exists|i: int| 0 <= i < ns.len() && ns[i] == Some(e) && forall|j: int| 0 <= j < i ==> (#[trigger] ns[j]) is None,
            None => forall|i: int| 0 <= i < ns.len() ==> (#[trigger] ns[i]) is None,
        },
    decreases ns.len(),
{
    if ns.len() > 0 {
        first_email_is_first(ns.drop_first());
        let t = ns.drop_first();
        match ns[0] {
            Some(e) => {
                assert(ns[0] == Some(e));
            },
            None => {
                match first_email(t) {
                    Some(e) => {
                        let k = choose|k: int| 0 <= k < t.len() && t[k] == Some(e) && forall|j: int| 0 <= j < k ==> (#[trigger] t[j]) is None;
                        assert(ns[k + 1] == Some(e));
                        assert forall|j: int| 0 <= j < k + 1 implies (#[trigger] ns[j]) is None by {
                            if j > 0 {
                                assert(ns[j] == t[j - 1]);
                            }
                        }
                    },
                    None => {
                        assert forall|i: int| 0 <= i < ns.len() implies (#[trigger] ns[i]) is None by {
                            if i > 0 {
                                assert(ns[i] == t[i - 1]);
                            }
                        }
                    },
                }
            },
        }
    }
}

} // verus!
