//! Opening the input channel: the preamble that names the session, and the proofs by which
//! both ends show that they know the master secret.

use crate::identifier;
use crate::protocol::InputMessage;
use hmac::Mac;
use vstd::prelude::*;

verus! {

/// The version of the channel that this crate speaks.
pub const INPUT_AUX_VERSION: u16 = 1;

/// The name that the certificate of a host is for, and that a client connects under.
pub const SERVER_NAME: &'static str = "synly.local";

/// The longest certificate that a client takes.
pub const MAX_CERTIFICATE_LEN: usize = 65536;

/// The two ends of the channel.
#[derive(Clone, Copy, Debug, PartialEq, Eq, Structural)]
pub enum InputChannelRole {
    Host,
    Client,
}

impl InputChannelRole {
    /// The bytes that stand for the role in a proof: `host` or `client`.
    pub open spec fn label(self) -> Seq<u8> {
        match self {
            InputChannelRole::Host => seq![0x68u8, 0x6f, 0x73, 0x74],
            InputChannelRole::Client => seq![0x63u8, 0x6c, 0x69, 0x65, 0x6e, 0x74],
        }
    }

    pub fn as_bytes(self) -> (r: Vec<u8>)
        ensures
            r@ == self.label(),
    {
        let r = match self {
            InputChannelRole::Host => vec![0x68u8, 0x6f, 0x73, 0x74],
            InputChannelRole::Client => vec![0x63u8, 0x6c, 0x69, 0x65, 0x6e, 0x74],
        };
        assert(r@ =~= self.label());
        r
    }
}

/// What the host hands to the client over another channel.
#[derive(Clone, Debug, PartialEq, Eq)]
pub struct InputChannelOffer {
    pub session_id: [u8; 16],
    pub certificate_der: Vec<u8>,
}

/// What the host opens the channel with: the offer for the client, and the key that belongs to
/// the certificate in it.
#[derive(Debug)]
pub struct HostIdentity {
    pub offer: InputChannelOffer,
    pub private_key_der: Vec<u8>,
}

/// Why the channel was not opened.
#[derive(Clone, Copy, Debug, PartialEq, Eq, Structural)]
pub enum ChannelError {
    /// The first bytes are not those of the preamble.
    Magic,
    /// The preamble names a version that is not spoken.
    Version(u16),
    /// The preamble names another session.
    Session,
    /// The certificate is empty or too long.
    Certificate,
    /// No certificate could be made.
    NotSigned,
    /// The first message is no proof.
    MissingProof,
    /// The proof is that of the wrong end.
    Role,
    /// The proof does not fit the secret, the session, the role and the connection.
    Proof,
}

/// The first bytes of the preamble: `SYNLY-INPUT` and a zero byte.
pub open spec fn magic() -> Seq<u8> {
    seq![0x53u8, 0x59, 0x4e, 0x4c, 0x59, 0x2d, 0x49, 0x4e, 0x50, 0x55, 0x54, 0x00]
}

/// The bytes before everything else in a proof: `synly-input-proof-v1`.
pub open spec fn proof_label() -> Seq<u8> {
    seq![
        0x73u8,
        0x79,
        0x6e,
        0x6c,
        0x79,
        0x2d,
        0x69,
        0x6e,
        0x70,
        0x75,
        0x74,
        0x2d,
        0x70,
        0x72,
        0x6f,
        0x6f,
        0x66,
        0x2d,
        0x76,
        0x31,
    ]
}

/// The preamble of a session: the magic bytes, the version, the session.
pub open spec fn preamble_bytes(session_id: Seq<u8>) -> Seq<u8> {
    magic() + seq![(INPUT_AUX_VERSION / 0x100) as u8, (INPUT_AUX_VERSION % 0x100) as u8] + session_id
}

/// The session that a preamble names, or why it is no preamble. The parts are tested in order.
pub open spec fn preamble_session(bytes: Seq<u8>) -> Result<Seq<u8>, ChannelError> {
    let version = bytes[12] * 0x100 + bytes[13];
    if bytes.take(12) != magic() {
        Err(ChannelError::Magic)
    } else if version != INPUT_AUX_VERSION {
        Err(ChannelError::Version(version as u16))
    } else {
        Ok(bytes.subrange(14, 30))
    }
}

/// What a proof authenticates: the label, the session, the role and the secret of the
/// connection, one after the other.
pub open spec fn proof_message(session_id: Seq<u8>, role: InputChannelRole, exporter: Seq<u8>) -> Seq<u8> {
    proof_label() + session_id + role.label() + exporter
}

/// The HMAC with SHA-256 of a message under a key.
pub uninterp spec fn hmac_sha256(key: Seq<u8>, message: Seq<u8>) -> Seq<u8>;

/// The code that `hmac::Mac` computes for `Hmac<Sha256>`: `new_from_slice`, which takes keys of
/// any length, `update` with the whole message, then `finalize`. The result is the named code,
/// which rests on the key and the message alone.
#[verifier::external_body]
fn compute_hmac(key: &[u8; 32], message: &Vec<u8>) -> (r: [u8; 32])
    ensures
        r@ == hmac_sha256(key@, message@),
{
    let mut mac = hmac::Hmac::<sha2::Sha256>::new_from_slice(key).expect("keys of any length fit");
    mac.update(message);
    mac.finalize().into_bytes().into()
}

/// The comparison by `hmac::Mac::verify_slice` for `Hmac<Sha256>`, set up as for computing a
/// code: it accepts a tag exactly when the tag is the named code.
#[verifier::external_body]
fn hmac_accepts(key: &[u8; 32], message: &Vec<u8>, tag: &[u8; 32]) -> (r: bool)
    ensures
        r == (tag@ == hmac_sha256(key@, message@)),
{
    let mut mac = hmac::Hmac::<sha2::Sha256>::new_from_slice(key).expect("keys of any length fit");
    mac.update(message);
    mac.verify_slice(tag).is_ok()
}

/// The error of `rcgen`.
#[verifier::external_type_specification]
#[verifier::external_body]
pub struct ExCertificateError(rcgen::Error);

/// A certificate for the name of a host and its key, both in DER, from
/// `rcgen::generate_simple_self_signed`. Neither is empty. The certificate holds a name, a public
/// key and a signature of fixed kinds and little else, some hundreds of bytes, so that it is not
/// too long for a client. The key is random: nothing more is said of the bytes, nor of when
/// there are none.
#[verifier::external_body]
fn self_signed(name: &str) -> (r: Result<(Vec<u8>, Vec<u8>), rcgen::Error>)
    requires
        name@ == SERVER_NAME@,
    ensures
        r matches Ok((certificate, key)) ==> {
            &&& 0 < certificate@.len() <= MAX_CERTIFICATE_LEN
            &&& 0 < key@.len()
        },
{
    let certified = rcgen::generate_simple_self_signed(vec![name.to_string()])?;
    Ok((certified.cert.der().to_vec(), certified.signing_key.serialize_der()))
}

impl HostIdentity {
    /// The identity of a host with a session, from what making its certificate gave.
    pub fn from_certificate(
        session_id: [u8; 16],
        made: Result<(Vec<u8>, Vec<u8>), rcgen::Error>,
    ) -> (r: Result<Self, ChannelError>)
        ensures
            match made {
                Ok((certificate, key)) => r matches Ok(identity) && {
                    &&& identity.offer.session_id == session_id
                    &&& identity.offer.certificate_der@ == certificate@
                    &&& identity.private_key_der@ == key@
                },
                Err(_) => r matches Err(error) && error == ChannelError::NotSigned,
            },
    {
        match made {
            Ok((certificate_der, private_key_der)) => Ok(
                HostIdentity {
                    offer: InputChannelOffer { session_id, certificate_der },
                    private_key_der,
                },
            ),
            Err(_) => Err(ChannelError::NotSigned),
        }
    }

    /// A new identity: a random session, and a certificate for the name of a host. A client can
    /// connect to what it offers.
    pub fn create() -> (r: Result<Self, ChannelError>)
        ensures
            match r {
                Ok(identity) => {
                    &&& identifier::is_random_identifier(identity.offer.session_id@)
                    &&& certificate_outcome(identity.offer.certificate_der@) == Ok::<
                        (),
                        ChannelError,
                    >(())
                    &&& identity.private_key_der@.len() > 0
                },
                Err(error) => error == ChannelError::NotSigned,
            },
    {
        let made = self_signed(SERVER_NAME);
        Self::from_certificate(identifier::random_identifier(), made)
    }
}

fn push_all(out: &mut Vec<u8>, bytes: &[u8])
    ensures
        final(out)@ == old(out)@ + bytes@,
{
    let ghost before = out@;
    let mut i: usize = 0;
    while i < bytes.len()
        invariant
            i <= bytes@.len(),
            out@ == before + bytes@.take(i as int),
        decreases bytes@.len() - i,
    {
        out.push(bytes[i]);
        assert(bytes@.take(i + 1) =~= bytes@.take(i as int).push(bytes@[i as int]));
        assert(out@ =~= before + bytes@.take(i + 1));
        i += 1;
    }
    assert(bytes@.take(bytes@.len() as int) =~= bytes@);
}

fn same_bytes(a: &[u8], b: &[u8]) -> (r: bool)
    ensures
        r == (a@ == b@),
{
    if a.len() != b.len() {
        return false;
    }
    let mut i: usize = 0;
    while i < a.len()
        invariant
            i <= a@.len(),
            a@.len() == b@.len(),
            forall|k: int| 0 <= k < i ==> a@[k] == b@[k],
        decreases a@.len() - i,
    {
        if a[i] != b[i] {
            assert(a@[i as int] != b@[i as int]);
            return false;
        }
        i += 1;
    }
    assert(a@ =~= b@);
    true
}

fn magic_bytes() -> (r: Vec<u8>)
    ensures
        r@ == magic(),
{
    let r = vec![0x53u8, 0x59, 0x4e, 0x4c, 0x59, 0x2d, 0x49, 0x4e, 0x50, 0x55, 0x54, 0x00];
    assert(r@ =~= magic());
    r
}

fn label_bytes() -> (r: Vec<u8>)
    ensures
        r@ == proof_label(),
{
    let r = vec![
        0x73u8,
        0x79,
        0x6e,
        0x6c,
        0x79,
        0x2d,
        0x69,
        0x6e,
        0x70,
        0x75,
        0x74,
        0x2d,
        0x70,
        0x72,
        0x6f,
        0x6f,
        0x66,
        0x2d,
        0x76,
        0x31,
    ];
    assert(r@ =~= proof_label());
    r
}

/// The preamble of a session.
pub fn write_preamble(session_id: &[u8; 16]) -> (r: Vec<u8>)
    ensures
        r@ == preamble_bytes(session_id@),
{
    let mut bytes = magic_bytes();
    bytes.push((INPUT_AUX_VERSION / 0x100) as u8);
    bytes.push((INPUT_AUX_VERSION % 0x100) as u8);
    assert(bytes@ =~= magic() + seq![(INPUT_AUX_VERSION / 0x100) as u8, (INPUT_AUX_VERSION
        % 0x100) as u8]);
    push_all(&mut bytes, session_id);
    bytes
}

/// The session that a preamble names.
pub fn read_preamble(bytes: &[u8; 30]) -> (r: Result<[u8; 16], ChannelError>)
    ensures
        match r {
            Ok(session_id) => preamble_session(bytes@) == Ok::<Seq<u8>, ChannelError>(session_id@),
            Err(error) => preamble_session(bytes@) == Err::<Seq<u8>, ChannelError>(error),
        },
{
    let expected = magic_bytes();
    let mut i: usize = 0;
    while i < 12
        invariant
            i <= 12,
            expected@ == magic(),
            bytes@.len() == 30,
            forall|k: int| 0 <= k < i ==> bytes@[k] == expected@[k],
        decreases 12 - i,
    {
        if bytes[i] != expected[i] {
            assert(bytes@.take(12)[i as int] != magic()[i as int]);
            return Err(ChannelError::Magic);
        }
        i += 1;
    }
    assert(bytes@.take(12) =~= magic());
    let version: u16 = bytes[12] as u16 * 0x100 + bytes[13] as u16;
    if version != INPUT_AUX_VERSION {
        return Err(ChannelError::Version(version));
    }
    let mut session_id: [u8; 16] = [0; 16];
    let mut k: usize = 0;
    while k < 16
        invariant
            k <= 16,
            bytes@.len() == 30,
            session_id@.len() == 16,
            forall|j: int| 0 <= j < k ==> session_id@[j] == bytes@[14 + j],
        decreases 16 - k,
    {
        session_id[k] = bytes[14 + k];
        k += 1;
    }
    assert(session_id@ =~= bytes@.subrange(14, 30));
    Ok(session_id)
}

/// A preamble is read as the session that it was written for.
pub proof fn preamble_round_trip(session_id: Seq<u8>)
    requires
        session_id.len() == 16,
    ensures
        preamble_bytes(session_id).len() == 30,
        preamble_session(preamble_bytes(session_id)) == Ok::<Seq<u8>, ChannelError>(session_id),
{
    let bytes = preamble_bytes(session_id);
    assert(bytes.take(12) =~= magic());
    assert(bytes.subrange(14, 30) =~= session_id);
}

fn build_proof_message(session_id: &[u8; 16], role: InputChannelRole, exporter: &[u8; 32]) -> (r: Vec<u8>)
    ensures
        r@ == proof_message(session_id@, role, exporter@),
{
    let mut message = label_bytes();
    push_all(&mut message, session_id);
    let label = role.as_bytes();
    push_all(&mut message, label.as_slice());
    push_all(&mut message, exporter);
    message
}

/// The proof that an end sends.
pub fn make_proof(
    master_secret: &[u8; 32],
    session_id: &[u8; 16],
    role: InputChannelRole,
    exporter: &[u8; 32],
) -> (r: [u8; 32])
    ensures
        r@ == hmac_sha256(master_secret@, proof_message(session_id@, role, exporter@)),
{
    compute_hmac(master_secret, &build_proof_message(session_id, role, exporter))
}

/// Tests the proof of an end.
pub fn verify_proof(
    master_secret: &[u8; 32],
    session_id: &[u8; 16],
    role: InputChannelRole,
    exporter: &[u8; 32],
    proof: &[u8; 32],
) -> (r: Result<(), ChannelError>)
    ensures
        r == if proof@ == hmac_sha256(
            master_secret@,
            proof_message(session_id@, role, exporter@),
        ) {
            Ok(())
        } else {
            Err::<(), ChannelError>(ChannelError::Proof)
        },
{
    if hmac_accepts(master_secret, &build_proof_message(session_id, role, exporter), proof) {
        Ok(())
    } else {
        Err(ChannelError::Proof)
    }
}

/// What a proof authenticates fixes the session, the role and the connection: no two of these
/// give the same bytes.
pub proof fn proof_message_is_injective(
    session_a: Seq<u8>,
    role_a: InputChannelRole,
    exporter_a: Seq<u8>,
    session_b: Seq<u8>,
    role_b: InputChannelRole,
    exporter_b: Seq<u8>,
)
    requires
        session_a.len() == 16,
        session_b.len() == 16,
        exporter_a.len() == 32,
        exporter_b.len() == 32,
        proof_message(session_a, role_a, exporter_a) == proof_message(session_b, role_b, exporter_b),
    ensures
        session_a == session_b,
        role_a == role_b,
        exporter_a == exporter_b,
{
    let a = proof_message(session_a, role_a, exporter_a);
    let b = proof_message(session_b, role_b, exporter_b);
    assert(a.len() == 68 + role_a.label().len());
    assert(b.len() == 68 + role_b.label().len());
    let n = a.len() as int;
    assert(a.subrange(20, 36) =~= session_a);
    assert(b.subrange(20, 36) =~= session_b);
    assert(a.subrange(n - 32, n) =~= exporter_a);
    assert(b.subrange(n - 32, n) =~= exporter_b);
}

/// Whether a message is the accepted proof of the given end.
pub open spec fn proof_outcome(
    message: crate::protocol::MessageView,
    expected: InputChannelRole,
    master_secret: Seq<u8>,
    session_id: Seq<u8>,
    exporter: Seq<u8>,
) -> Result<(), ChannelError> {
    match message {
        crate::protocol::MessageView::Proof { role, proof } => if role != expected {
            Err(ChannelError::Role)
        } else if proof != hmac_sha256(master_secret, proof_message(session_id, role, exporter)) {
            Err(ChannelError::Proof)
        } else {
            Ok(())
        },
        _ => Err(ChannelError::MissingProof),
    }
}

/// The proof that the given end sends, as a message.
pub open spec fn proof_of(
    role: InputChannelRole,
    master_secret: Seq<u8>,
    session_id: Seq<u8>,
    exporter: Seq<u8>,
) -> crate::protocol::MessageView {
    crate::protocol::MessageView::Proof {
        role,
        proof: hmac_sha256(master_secret, proof_message(session_id, role, exporter)),
    }
}

/// Tests the first message of the other end.
pub fn check_proof(
    message: &InputMessage,
    expected: InputChannelRole,
    master_secret: &[u8; 32],
    session_id: &[u8; 16],
    exporter: &[u8; 32],
) -> (r: Result<(), ChannelError>)
    ensures
        r == proof_outcome(message@, expected, master_secret@, session_id@, exporter@),
{
    match message {
        InputMessage::Proof { role, proof } => {
            if *role != expected {
                return Err(ChannelError::Role);
            }
            verify_proof(master_secret, session_id, *role, exporter, proof)
        },
        _ => Err(ChannelError::MissingProof),
    }
}

/// The first message of an end.
pub fn proof_from(
    role: InputChannelRole,
    master_secret: &[u8; 32],
    session_id: &[u8; 16],
    exporter: &[u8; 32],
) -> (r: InputMessage)
    ensures
        r@ == proof_of(role, master_secret@, session_id@, exporter@),
{
    InputMessage::Proof { role, proof: make_proof(master_secret, session_id, role, exporter) }
}

/// What the host does before the handshake: the preamble has to name its own session.
pub fn check_session(offered: &[u8; 16], session_id: &[u8; 16]) -> (r: Result<(), ChannelError>)
    ensures
        r == if offered@ == session_id@ {
            Ok(())
        } else {
            Err::<(), ChannelError>(ChannelError::Session)
        },
{
    if same_bytes(offered, session_id) {
        Ok(())
    } else {
        Err(ChannelError::Session)
    }
}

/// What the host does with the client's first message: it answers a valid proof with its own.
pub fn host_reply(
    message: &InputMessage,
    master_secret: &[u8; 32],
    session_id: &[u8; 16],
    exporter: &[u8; 32],
) -> (r: Result<InputMessage, ChannelError>)
    ensures
        match r {
            Ok(reply) => proof_outcome(
                message@,
                InputChannelRole::Client,
                master_secret@,
                session_id@,
                exporter@,
            ) is Ok && reply@ == proof_of(
                InputChannelRole::Host,
                master_secret@,
                session_id@,
                exporter@,
            ),
            Err(error) => proof_outcome(
                message@,
                InputChannelRole::Client,
                master_secret@,
                session_id@,
                exporter@,
            ) == Err::<(), ChannelError>(error),
        },
{
    match check_proof(message, InputChannelRole::Client, master_secret, session_id, exporter) {
        Ok(()) => Ok(proof_from(InputChannelRole::Host, master_secret, session_id, exporter)),
        Err(error) => Err(error),
    }
}

/// Whether a certificate has a length that can be one.
pub open spec fn certificate_outcome(certificate: Seq<u8>) -> Result<(), ChannelError> {
    if 1 <= certificate.len() <= MAX_CERTIFICATE_LEN {
        Ok(())
    } else {
        Err(ChannelError::Certificate)
    }
}

/// What the client tests before it connects: the certificate has a length that can be one.
pub fn check_certificate(offer: &InputChannelOffer) -> (r: Result<(), ChannelError>)
    ensures
        r == certificate_outcome(offer.certificate_der@),
{
    let n: usize = offer.certificate_der.len();
    if n == 0 || n > MAX_CERTIFICATE_LEN {
        Err(ChannelError::Certificate)
    } else {
        Ok(())
    }
}

/// Two ends that share the secret, the session and the connection accept each other.
pub proof fn matching_ends_accept_each_other(
    role: InputChannelRole,
    master_secret: Seq<u8>,
    session_id: Seq<u8>,
    exporter: Seq<u8>,
)
    ensures
        proof_outcome(
            proof_of(role, master_secret, session_id, exporter),
            role,
            master_secret,
            session_id,
            exporter,
        ) == Ok::<(), ChannelError>(()),
{
}

/// The proof of one end is never taken for that of the other end.
pub proof fn reflected_proof_is_refused(
    role: InputChannelRole,
    expected: InputChannelRole,
    master_secret: Seq<u8>,
    session_id: Seq<u8>,
    exporter: Seq<u8>,
)
    requires
        role != expected,
    ensures
        proof_outcome(
            proof_of(role, master_secret, session_id, exporter),
            expected,
            master_secret,
            session_id,
            exporter,
        ) == Err::<(), ChannelError>(ChannelError::Role),
{
}

/// Only the preamble that is written for a session is read as that session: every other one is
/// refused, for its magic bytes first and then for its version.
pub proof fn only_the_written_preamble_is_read(bytes: Seq<u8>)
    requires
        bytes.len() == 30,
    ensures
        preamble_session(bytes) matches Ok(session_id) ==> bytes == preamble_bytes(session_id)
            && session_id.len() == 16,
        preamble_session(bytes) matches Err(error) ==> match error {
            ChannelError::Magic => bytes.take(12) != magic(),
            ChannelError::Version(version) => bytes.take(12) == magic() && version
                != INPUT_AUX_VERSION && version == bytes[12] * 0x100 + bytes[13],
            _ => false,
        },
{
    if let Ok(session_id) = preamble_session(bytes) {
        assert(bytes =~= preamble_bytes(session_id));
    }
}

/// Exactly one message is accepted from an end: the proof that this end sends itself. Anything
/// else is told apart: no proof at all, the proof of the other role, and a proof that is wrong.
pub proof fn only_the_own_proof_is_accepted(
    message: crate::protocol::MessageView,
    expected: InputChannelRole,
    master_secret: Seq<u8>,
    session_id: Seq<u8>,
    exporter: Seq<u8>,
)
    ensures
        ({
            let outcome = proof_outcome(message, expected, master_secret, session_id, exporter);
            &&& outcome is Ok <==> message == proof_of(
                expected,
                master_secret,
                session_id,
                exporter,
            )
            &&& outcome == Err::<(), ChannelError>(ChannelError::MissingProof) <==> !(message
                is Proof)
            &&& outcome == Err::<(), ChannelError>(ChannelError::Role) <==> (message
                matches crate::protocol::MessageView::Proof { role, .. } && role != expected)
        }),
        proof_of(expected, master_secret, session_id, exporter)
            matches crate::protocol::MessageView::Proof { role, proof } && role == expected
            && proof == hmac_sha256(master_secret, proof_message(session_id, expected, exporter)),
{
}

/// A certificate is taken exactly when it is there and not too long.
pub proof fn certificates_have_a_length(certificate: Seq<u8>)
    ensures
        certificate_outcome(certificate) is Ok <==> 0 < certificate.len() <= MAX_CERTIFICATE_LEN,
        certificate_outcome(certificate) is Err ==> certificate_outcome(certificate) == Err::<
            (),
            ChannelError,
        >(ChannelError::Certificate),
{
}

} // verus!
