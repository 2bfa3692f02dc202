//! The handshake driver's key derivation: the Sec-WebSocket-Key and the
//! Sec-WebSocket-Accept value, computed with SHA-1 and base64, and the
//! fixed upgrade headers.

use vstd::prelude::*;

use crate::error::HandshakeError;
use crate::http::{ascii_eq_ci, headers_model, lemma_lookup_model, lookup_model, Header};
use crate::mask::append_bytes;
use crate::rng::random_bytes;

verus! {

/// The SHA-1 digest of a byte string. The digest is a pure function of
/// its input; its value is not modelled here.
pub uninterp spec fn sha1_of(data: Seq<u8>) -> Seq<u8>;

/// The standard base64 encoding (with padding) of a byte string. The
/// encoding is a pure function of its input; its value is not modelled
/// here beyond its length.
pub uninterp spec fn base64_of(data: Seq<u8>) -> Seq<u8>;

/// Relies on sha1::Sha1 through the digest trait: the SHA-1 digest of
/// the input, always 20 bytes, depending on the input bytes alone.
#[verifier::external_body]
fn sha1_digest(data: &Vec<u8>) -> (r: Vec<u8>)
    ensures
        r@ == sha1_of(data@),
        r@.len() == 20,
{
    let digest = <sha1::Sha1 as sha1::Digest>::digest(data.as_slice());
    digest.to_vec()
}

/// Relies on base64's STANDARD engine: the padded base64 encoding of
/// the input, four output bytes for every three input bytes rounded up,
/// depending on the input bytes alone.
#[verifier::external_body]
fn base64_encode(data: &Vec<u8>) -> (r: Vec<u8>)
    ensures
        r@ == base64_of(data@),
        r@.len() == ((data@.len() + 2) / 3) * 4,
{
    base64::Engine::encode(&base64::engine::general_purpose::STANDARD, data.as_slice())
        .into_bytes()
}

/// The bytes of the WebSocket GUID that the accept value is derived
/// with.
pub open spec fn guid_bytes() -> Seq<u8> {
    seq![50u8, 53u8, 56u8, 69u8, 65u8, 70u8, 65u8, 53u8, 45u8, 69u8, 57u8, 49u8, 52u8, 45u8, 52u8, 55u8, 68u8, 65u8, 45u8, 57u8, 53u8, 67u8, 65u8, 45u8, 67u8, 53u8, 65u8, 66u8, 48u8, 68u8, 67u8, 56u8, 53u8, 66u8, 49u8, 49u8]
}

/// The WebSocket GUID, as bytes.
pub fn guid() -> (r: Vec<u8>)
    ensures
        r@ =~= guid_bytes(),
{
    let mut r: Vec<u8> = Vec::new();
    r.push(50);
    r.push(53);
    r.push(56);
    r.push(69);
    r.push(65);
    r.push(70);
    r.push(65);
    r.push(53);
    r.push(45);
    r.push(69);
    r.push(57);
    r.push(49);
    r.push(52);
    r.push(45);
    r.push(52);
    r.push(55);
    r.push(68);
    r.push(65);
    r.push(45);
    r.push(57);
    r.push(53);
    r.push(67);
    r.push(65);
    r.push(45);
    r.push(67);
    r.push(53);
    r.push(65);
    r.push(66);
    r.push(48);
    r.push(68);
    r.push(67);
    r.push(56);
    r.push(53);
    r.push(66);
    r.push(49);
    r.push(49);
    r
}

/// The accept value derived from a Sec-WebSocket-Key: the base64
/// encoding of the SHA-1 digest of the key followed by the GUID. It is
/// a pure function of the key.
pub open spec fn accept_of(key: Seq<u8>) -> Seq<u8> {
    base64_of(sha1_of(key + guid_bytes()))
}

/// The accept value is deterministic: equal keys yield equal accept
/// values.
pub proof fn lemma_accept_deterministic(key1: Seq<u8>, key2: Seq<u8>)
    requires
        key1 == key2,
    ensures
        accept_of(key1) == accept_of(key2),
{
}

/// A fresh Sec-WebSocket-Key: 16 random bytes, base64-encoded to 24
/// bytes.
pub fn generate_sec_key(rng: &mut rand::rngs::StdRng) -> (r: Vec<u8>)
    ensures
        r@.len() == 24,
        exists|k: Seq<u8>| k.len() == 16 && r@ == base64_of(k),
{
    let key = random_bytes(rng, 16);
    let r = base64_encode(&key);
    proof {
        assert(key@.len() == 16 && r@ == base64_of(key@));
    }
    r
}

/// The accept value for a Sec-WebSocket-Key, always 28 bytes.
pub fn generate_sec_accept(sec_key: &Vec<u8>) -> (r: Vec<u8>)
    ensures
        r@ == accept_of(sec_key@),
        r@.len() == 28,
{
    let mut data: Vec<u8> = Vec::new();
    append_bytes(&mut data, sec_key);
    let g = guid();
    append_bytes(&mut data, &g);
    proof {
        assert(data@ =~= sec_key@ + guid_bytes());
    }
    let digest = sha1_digest(&data);
    base64_encode(&digest)
}


/// The bytes of `upgrade`.
pub open spec fn upgrade_bytes() -> Seq<u8> {
    seq![117u8, 112u8, 103u8, 114u8, 97u8, 100u8, 101u8]
}

/// The bytes of `upgrade`, as a vector.
pub fn upgrade_vec() -> (r: Vec<u8>)
    ensures
        r@ =~= upgrade_bytes(),
{
    let mut r: Vec<u8> = Vec::new();
    r.push(117);
    r.push(112);
    r.push(103);
    r.push(114);
    r.push(97);
    r.push(100);
    r.push(101);
    r
}

/// The bytes of `websocket`.
pub open spec fn websocket_bytes() -> Seq<u8> {
    seq![119u8, 101u8, 98u8, 115u8, 111u8, 99u8, 107u8, 101u8, 116u8]
}

/// The bytes of `websocket`, as a vector.
pub fn websocket_vec() -> (r: Vec<u8>)
    ensures
        r@ =~= websocket_bytes(),
{
    let mut r: Vec<u8> = Vec::new();
    r.push(119);
    r.push(101);
    r.push(98);
    r.push(115);
    r.push(111);
    r.push(99);
    r.push(107);
    r.push(101);
    r.push(116);
    r
}

/// The bytes of `connection`.
pub open spec fn connection_bytes() -> Seq<u8> {
    seq![99u8, 111u8, 110u8, 110u8, 101u8, 99u8, 116u8, 105u8, 111u8, 110u8]
}

/// The bytes of `connection`, as a vector.
pub fn connection_vec() -> (r: Vec<u8>)
    ensures
        r@ =~= connection_bytes(),
{
    let mut r: Vec<u8> = Vec::new();
    r.push(99);
    r.push(111);
    r.push(110);
    r.push(110);
    r.push(101);
    r.push(99);
    r.push(116);
    r.push(105);
    r.push(111);
    r.push(110);
    r
}

/// The bytes of `sec-websocket-version`.
pub open spec fn sec_version_bytes() -> Seq<u8> {
    seq![115u8, 101u8, 99u8, 45u8, 119u8, 101u8, 98u8, 115u8, 111u8, 99u8, 107u8, 101u8, 116u8, 45u8, 118u8, 101u8, 114u8, 115u8, 105u8, 111u8, 110u8]
}

/// The bytes of `sec-websocket-version`, as a vector.
pub fn sec_version_vec() -> (r: Vec<u8>)
    ensures
        r@ =~= sec_version_bytes(),
{
    let mut r: Vec<u8> = Vec::new();
    r.push(115);
    r.push(101);
    r.push(99);
    r.push(45);
    r.push(119);
    r.push(101);
    r.push(98);
    r.push(115);
    r.push(111);
    r.push(99);
    r.push(107);
    r.push(101);
    r.push(116);
    r.push(45);
    r.push(118);
    r.push(101);
    r.push(114);
    r.push(115);
    r.push(105);
    r.push(111);
    r.push(110);
    r
}

/// The bytes of `13`.
pub open spec fn thirteen_bytes() -> Seq<u8> {
    seq![49u8, 51u8]
}

/// The bytes of `13`, as a vector.
pub fn thirteen_vec() -> (r: Vec<u8>)
    ensures
        r@ =~= thirteen_bytes(),
{
    let mut r: Vec<u8> = Vec::new();
    r.push(49);
    r.push(51);
    r
}

/// The bytes of `sec-websocket-key`.
pub open spec fn sec_key_bytes() -> Seq<u8> {
    seq![115u8, 101u8, 99u8, 45u8, 119u8, 101u8, 98u8, 115u8, 111u8, 99u8, 107u8, 101u8, 116u8, 45u8, 107u8, 101u8, 121u8]
}

/// The bytes of `sec-websocket-key`, as a vector.
pub fn sec_key_vec() -> (r: Vec<u8>)
    ensures
        r@ =~= sec_key_bytes(),
{
    let mut r: Vec<u8> = Vec::new();
    r.push(115);
    r.push(101);
    r.push(99);
    r.push(45);
    r.push(119);
    r.push(101);
    r.push(98);
    r.push(115);
    r.push(111);
    r.push(99);
    r.push(107);
    r.push(101);
    r.push(116);
    r.push(45);
    r.push(107);
    r.push(101);
    r.push(121);
    r
}

/// The bytes of `sec-websocket-accept`.
pub open spec fn sec_accept_bytes() -> Seq<u8> {
    seq![115u8, 101u8, 99u8, 45u8, 119u8, 101u8, 98u8, 115u8, 111u8, 99u8, 107u8, 101u8, 116u8, 45u8, 97u8, 99u8, 99u8, 101u8, 112u8, 116u8]
}

/// The bytes of `sec-websocket-accept`, as a vector.
pub fn sec_accept_vec() -> (r: Vec<u8>)
    ensures
        r@ =~= sec_accept_bytes(),
{
    let mut r: Vec<u8> = Vec::new();
    r.push(115);
    r.push(101);
    r.push(99);
    r.push(45);
    r.push(119);
    r.push(101);
    r.push(98);
    r.push(115);
    r.push(111);
    r.push(99);
    r.push(107);
    r.push(101);
    r.push(116);
    r.push(45);
    r.push(97);
    r.push(99);
    r.push(99);
    r.push(101);
    r.push(112);
    r.push(116);
    r
}

/// The bytes of `GET`.
pub open spec fn get_bytes() -> Seq<u8> {
    seq![71u8, 69u8, 84u8]
}

/// The bytes of `GET`, as a vector.
pub fn get_vec() -> (r: Vec<u8>)
    ensures
        r@ =~= get_bytes(),
{
    let mut r: Vec<u8> = Vec::new();
    r.push(71);
    r.push(69);
    r.push(84);
    r
}

/// The four fixed headers of the upgrade request, for a key.
pub open spec fn fixed_request_headers(key: Seq<u8>) -> Seq<(Seq<u8>, Seq<u8>)> {
    seq![
        (upgrade_bytes(), websocket_bytes()),
        (connection_bytes(), upgrade_bytes()),
        (sec_version_bytes(), thirteen_bytes()),
        (sec_key_bytes(), key),
    ]
}

/// The four fixed headers of the upgrade response, for an accept value.
pub open spec fn fixed_response_headers(accept: Seq<u8>) -> Seq<(Seq<u8>, Seq<u8>)> {
    seq![
        (upgrade_bytes(), websocket_bytes()),
        (connection_bytes(), upgrade_bytes()),
        (sec_version_bytes(), thirteen_bytes()),
        (sec_accept_bytes(), accept),
    ]
}

/// Builds the four fixed request headers for a key.
pub fn request_headers(sec_key: &Vec<u8>) -> (r: Vec<Header>)
    ensures
        headers_model(r@) =~~= fixed_request_headers(sec_key@),
{
    let mut r: Vec<Header> = Vec::new();
    r.push(Header { name: upgrade_vec(), value: websocket_vec() });
    r.push(Header { name: connection_vec(), value: upgrade_vec() });
    r.push(Header { name: sec_version_vec(), value: thirteen_vec() });
    r.push(Header { name: sec_key_vec(), value: crate::mask::copy_bytes(sec_key) });
    r
}

/// Builds the four fixed response headers for an accept value.
pub fn response_headers(accept: &Vec<u8>) -> (r: Vec<Header>)
    ensures
        headers_model(r@) =~~= fixed_response_headers(accept@),
{
    let mut r: Vec<Header> = Vec::new();
    r.push(Header { name: upgrade_vec(), value: websocket_vec() });
    r.push(Header { name: connection_vec(), value: upgrade_vec() });
    r.push(Header { name: sec_version_vec(), value: thirteen_vec() });
    r.push(Header { name: sec_accept_vec(), value: crate::mask::copy_bytes(accept) });
    r
}

/// The handshake error a server's upgrade response earns, if any: the
/// status must be 101, the upgrade and connection headers must carry
/// their canonical values (ASCII case-insensitively), and the accept
/// header must equal the value derived from the key.
pub open spec fn server_response_check(
    code: u16,
    headers: Seq<(Seq<u8>, Seq<u8>)>,
    key: Seq<u8>,
) -> Option<HandshakeError> {
    if code != 101 {
        Some(HandshakeError::InvalidStatusCode)
    } else if !(lookup_model(headers, upgrade_bytes()) matches Some(v) && ascii_eq_ci(
        v,
        websocket_bytes(),
    )) {
        Some(HandshakeError::MissingOrInvalidUpgrade)
    } else if !(lookup_model(headers, connection_bytes()) matches Some(v) && ascii_eq_ci(
        v,
        upgrade_bytes(),
    )) {
        Some(HandshakeError::MissingOrInvalidConnection)
    } else if !(lookup_model(headers, sec_accept_bytes()) matches Some(v) && v == accept_of(key)) {
        Some(HandshakeError::MissingOrInvalidAccept)
    } else {
        None
    }
}

/// Validates a server's upgrade response against the key the request
/// was sent with.
pub fn validate_server_response(resp: &crate::http::Response, sec_key: &Vec<u8>) -> (r: Result<
    (),
    HandshakeError,
>)
    ensures
        match server_response_check(resp.code, headers_model(resp.headers@), sec_key@) {
            Some(e) => r matches Err(e2) && e2 == e,
            None => r is Ok,
        },
{
    proof {
        lemma_lookup_model(resp.headers@, upgrade_bytes());
        lemma_lookup_model(resp.headers@, connection_bytes());
        lemma_lookup_model(resp.headers@, sec_accept_bytes());
    }
    if resp.code() != 101 {
        return Err(HandshakeError::InvalidStatusCode);
    }
    let upgrade_ok = match crate::http::header_value(resp.headers(), &upgrade_vec()) {
        Some(v) => crate::http::eq_ignore_ascii_case(&v, &websocket_vec()),
        None => false,
    };
    if !upgrade_ok {
        return Err(HandshakeError::MissingOrInvalidUpgrade);
    }
    let connection_ok = match crate::http::header_value(resp.headers(), &connection_vec()) {
        Some(v) => crate::http::eq_ignore_ascii_case(&v, &upgrade_vec()),
        None => false,
    };
    if !connection_ok {
        return Err(HandshakeError::MissingOrInvalidConnection);
    }
    let expected = generate_sec_accept(sec_key);
    let accept_ok = match crate::http::header_value(resp.headers(), &sec_accept_vec()) {
        Some(v) => crate::mask::eq_bytes(&v, &expected),
        None => false,
    };
    if !accept_ok {
        return Err(HandshakeError::MissingOrInvalidAccept);
    }
    Ok(())
}

/// The handshake error a client's upgrade request earns, if any: the
/// method must be GET, the minor version at least 1, the version header
/// must carry 13, and a key must be present.
pub open spec fn client_request_check(
    method: Seq<u8>,
    version: u8,
    headers: Seq<(Seq<u8>, Seq<u8>)>,
) -> Option<HandshakeError> {
    if method != get_bytes() {
        Some(HandshakeError::WrongHttpMethod)
    } else if version < 1 {
        Some(HandshakeError::WrongHttpVersion)
    } else if !(lookup_model(headers, sec_version_bytes()) matches Some(v) && ascii_eq_ci(
        v,
        thirteen_bytes(),
    )) {
        Some(HandshakeError::MissingOrInvalidSecVersion)
    } else if lookup_model(headers, sec_key_bytes()) is None {
        Some(HandshakeError::MissingSecKey)
    } else {
        None
    }
}

/// Validates a client's upgrade request and hands its key back.
pub fn validate_client_request(req: &crate::http::Request) -> (r: Result<Vec<u8>, HandshakeError>)
    ensures
        match client_request_check(req.method@, req.version, headers_model(req.headers@)) {
            Some(e) => r matches Err(e2) && e2 == e,
            None => r matches Ok(k) && lookup_model(headers_model(req.headers@), sec_key_bytes())
                == Some(k@),
        },
{
    proof {
        lemma_lookup_model(req.headers@, sec_version_bytes());
        lemma_lookup_model(req.headers@, sec_key_bytes());
    }
    if !crate::mask::eq_bytes(req.method(), &get_vec()) {
        return Err(HandshakeError::WrongHttpMethod);
    }
    if req.version() < 1 {
        return Err(HandshakeError::WrongHttpVersion);
    }
    let version_ok = match crate::http::header_value(req.headers(), &sec_version_vec()) {
        Some(v) => crate::http::eq_ignore_ascii_case(&v, &thirteen_vec()),
        None => false,
    };
    if !version_ok {
        return Err(HandshakeError::MissingOrInvalidSecVersion);
    }
    match crate::http::header_value(req.headers(), &sec_key_vec()) {
        Some(k) => Ok(k),
        None => Err(HandshakeError::MissingSecKey),
    }
}


/// The bytes of the upgrade request for a path, a key and additional
/// headers.
pub open spec fn client_request_bytes(
    path: Seq<u8>,
    key: Seq<u8>,
    additional: Seq<(Seq<u8>, Seq<u8>)>,
) -> Seq<u8> {
    crate::http::out_request_bytes(get_bytes(), path, fixed_request_headers(key), additional)
}

/// Builds the upgrade request for a path and a key, if it fits in
/// `capacity` bytes.
pub fn build_client_request(
    path: &Vec<u8>,
    additional: &Vec<Header>,
    sec_key: &Vec<u8>,
    capacity: usize,
) -> (r: Result<Vec<u8>, crate::error::HttpEncodeError>)
    ensures
        (r is Ok) <==> client_request_bytes(path@, sec_key@, headers_model(additional@)).len()
            <= capacity,
        r matches Ok(v) ==> v@ == client_request_bytes(path@, sec_key@, headers_model(additional@)),
        r matches Err(e) ==> e == crate::error::HttpEncodeError::BufferTooSmall,
{
    let headers = request_headers(sec_key);
    let request = crate::http::OutRequest::get_unchecked(
        crate::mask::copy_bytes(path),
        headers,
        crate::http::copy_headers(additional),
    );
    let codec = crate::http::OutRequestCodec::new();
    codec.encode(&request, capacity)
}

/// The bytes of the `101 Switching Protocols` response for an accept
/// value and additional headers.
pub open spec fn server_response_bytes(
    accept: Seq<u8>,
    additional: Seq<(Seq<u8>, Seq<u8>)>,
) -> Seq<u8> {
    crate::http::out_response_bytes(
        seq![49u8, 48u8, 49u8],
        seq![
            83u8, 119u8, 105u8, 116u8, 99u8, 104u8, 105u8, 110u8, 103u8, 32u8, 80u8, 114u8, 111u8,
            116u8, 111u8, 99u8, 111u8, 108u8, 115u8,
        ],
        fixed_response_headers(accept),
        additional,
    )
}

/// Builds the upgrade response for an accept value, if it fits in
/// `capacity` bytes.
pub fn build_server_response(accept: &Vec<u8>, additional: &Vec<Header>, capacity: usize) -> (r:
    Result<Vec<u8>, crate::error::HttpEncodeError>)
    ensures
        (r is Ok) <==> server_response_bytes(accept@, headers_model(additional@)).len() <= capacity,
        r matches Ok(v) ==> v@ == server_response_bytes(accept@, headers_model(additional@)),
        r matches Err(e) ==> e == crate::error::HttpEncodeError::BufferTooSmall,
{
    let headers = response_headers(accept);
    let response = crate::http::OutResponse::switching_protocols(
        headers,
        crate::http::copy_headers(additional),
    );
    let codec = crate::http::OutResponseCodec::new();
    codec.encode(&response, capacity)
}


/// The encoded fixed request headers take 89 bytes beside the key.
proof fn lemma_fixed_request_headers_len(k: Seq<u8>)
    ensures
        crate::http::headers_bytes(fixed_request_headers(k)).len() == 89 + k.len(),
{
    let hs = fixed_request_headers(k);
    let t1 = hs.drop_first();
    let t2 = t1.drop_first();
    let t3 = t2.drop_first();
    let t4 = t3.drop_first();
    assert(t1 =~~= seq![
        (connection_bytes(), upgrade_bytes()),
        (sec_version_bytes(), thirteen_bytes()),
        (sec_key_bytes(), k),
    ]);
    assert(t2 =~~= seq![(sec_version_bytes(), thirteen_bytes()), (sec_key_bytes(), k)]);
    assert(t3 =~~= seq![(sec_key_bytes(), k)]);
    assert(t4.len() == 0);
    assert(crate::http::headers_bytes(t4).len() == 0);
    assert(crate::http::headers_bytes(t3).len() == 21 + k.len());
    assert(crate::http::headers_bytes(t2).len() == 48 + k.len());
    assert(crate::http::headers_bytes(t1).len() == 69 + k.len());
    assert(crate::http::headers_bytes(hs).len() == 89 + k.len());
}

/// The length of an upgrade request depends on the key only through its
/// length: two keys of the same length give requests of the same length.
pub proof fn lemma_request_len_depends_on_key_len(
    path: Seq<u8>,
    additional: Seq<(Seq<u8>, Seq<u8>)>,
    k1: Seq<u8>,
    k2: Seq<u8>,
)
    requires
        k1.len() == k2.len(),
    ensures
        client_request_bytes(path, k1, additional).len() == client_request_bytes(
            path,
            k2,
            additional,
        ).len(),
{
    lemma_fixed_request_headers_len(k1);
    lemma_fixed_request_headers_len(k2);
}

} // verus!



