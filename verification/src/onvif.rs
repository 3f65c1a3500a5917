//! The ONVIF protocol client: WS-Discovery probe text, SOAP envelopes with
//! the WS-UsernameToken digest header, and the request/response steps of
//! the stream-URI, PTZ and time-sync state machines. The surrounding
//! application performs the HTTP and UDP exchanges; each step here builds
//! the exact request text or decides on the exact reply text.

use vstd::prelude::*;
use crate::errors::VmsError;
use crate::models::{Camera, OnvifDateTime, DiscoveredDevice};
use crate::outside::{sha1_of, base64_of, sha1_digest, base64_encode, random_nonce16,
    new_uuid_string};
use crate::percent::{percent_encoded, percent_encode_bytes};
use crate::strutil::{
    has_sub, find_spec, find_sub_from, all_ascii, chars_of_bytes, string_from_bytes_lossy,
    first_token, bytes_first_token, split_ws, bytes_split_ws, bytes_contains, dec_str,
    dec_str_signed, i64_to_string, lemma_find_some_bounds, bytes_subrange,
};
use crate::xmlscan::{
    elem_text_spec, elem_text, profile_token_spec, parse_first_profile_token, stream_uri_spec,
    parse_stream_uri, ptz_xaddr_spec, parse_ptz_xaddr, url_port_spec, parse_url_port,
    scan_scopes_spec, scan_scopes,
};

verus! {

use vstd::string::StringSliceAdditionalSpecFns;
use vstd::string::StrSliceExecFns;
use vstd::string::StringExecFns;

/// One SOAP request the application is to POST: target URL, the
/// Content-Type header value carrying the action, and the envelope text.
pub struct SoapRequest {
    pub url: String,
    pub content_type: String,
    pub body: String,
}

/// The WS-UsernameToken password digest:
/// `base64(SHA1(nonce_raw || created || password))`.
pub open spec fn password_digest_spec(
    nonce: Seq<u8>,
    created: Seq<u8>,
    pass: Seq<u8>,
) -> Seq<char> {
    base64_of(sha1_of(nonce + created + pass))
}

/// Compute the WS-UsernameToken password digest.
pub fn password_digest(nonce: &Vec<u8>, created: &str, pass: &str) -> (r: String)
    ensures
        r@ == password_digest_spec(nonce@, created.spec_bytes(), pass.spec_bytes()),
{
    let mut data: Vec<u8> = Vec::new();
    let mut i: usize = 0;
    while i < nonce.len()
        invariant
            i <= nonce@.len(),
            data@ =~= nonce@.take(i as int),
        decreases nonce@.len() - i,
    {
        data.push(nonce[i]);
        proof {
            assert(data@ =~= nonce@.take(i + 1));
        }
        i = i + 1;
    }
    let created_b = created.as_bytes_vec();
    let mut j: usize = 0;
    while j < created_b.len()
        invariant
            j <= created_b@.len(),
            data@ =~= nonce@.take(nonce@.len() as int) + created_b@.take(j as int),
        decreases created_b@.len() - j,
    {
        data.push(created_b[j]);
        proof {
            assert(data@ =~= nonce@.take(nonce@.len() as int) + created_b@.take(j + 1));
        }
        j = j + 1;
    }
    let pass_b = pass.as_bytes_vec();
    let mut k: usize = 0;
    while k < pass_b.len()
        invariant
            k <= pass_b@.len(),
            data@ =~= (nonce@.take(nonce@.len() as int) + created_b@.take(
                created_b@.len() as int,
            )) + pass_b@.take(k as int),
        decreases pass_b@.len() - k,
    {
        data.push(pass_b[k]);
        proof {
            assert(data@ =~= (nonce@.take(nonce@.len() as int) + created_b@.take(
                created_b@.len() as int,
            )) + pass_b@.take(k + 1));
        }
        k = k + 1;
    }
    proof {
        assert(data@ =~= nonce@ + created.spec_bytes() + pass.spec_bytes());
    }
    let digest = sha1_digest(&data);
    base64_encode(&digest)
}

/// The WS-Security header: a UsernameToken with digest password, base64
/// nonce and creation timestamp.
pub open spec fn security_header_spec(
    user: Seq<char>,
    digest: Seq<char>,
    nonce_b64: Seq<char>,
    created: Seq<char>,
) -> Seq<char> {
    "<wsse:Security xmlns:wsse=\"http://docs.oasis-open.org/wss/2004/01/oasis-200401-wss-wssecurity-secext-1.0.xsd\" xmlns:wsu=\"http://docs.oasis-open.org/wss/2004/01/oasis-200401-wss-wssecurity-utility-1.0.xsd\">\n      <wsse:UsernameToken wsu:Id=\"UsernameToken-1\">\n        <wsse:Username>"@
        + user
        + "</wsse:Username>\n        <wsse:Password Type=\"http://docs.oasis-open.org/wss/2004/01/oasis-200401-wss-username-token-profile-1.0#PasswordDigest\">"@
        + digest
        + "</wsse:Password>\n        <wsse:Nonce EncodingType=\"http://docs.oasis-open.org/wss/2004/01/oasis-200401-wss-soap-message-security-1.0#Base64Binary\">"@
        + nonce_b64
        + "</wsse:Nonce>\n        <wsu:Created>"@ + created
        + "</wsu:Created>\n      </wsse:UsernameToken>\n    </wsse:Security>"@
}

/// Build the WS-Security header for one request.
pub fn generate_security_header(user: &str, pass: &str, nonce: &Vec<u8>, created: &str) -> (r:
    String)
    requires
        nonce@.len() == 16,
    ensures
        r@ == security_header_spec(
            user@,
            password_digest_spec(nonce@, created.spec_bytes(), pass.spec_bytes()),
            base64_of(nonce@),
            created@,
        ),
{
    let digest = password_digest(nonce, created, pass);
    let nonce_b64 = base64_encode(nonce);
    let mut s = String::from_str(
        "<wsse:Security xmlns:wsse=\"http://docs.oasis-open.org/wss/2004/01/oasis-200401-wss-wssecurity-secext-1.0.xsd\" xmlns:wsu=\"http://docs.oasis-open.org/wss/2004/01/oasis-200401-wss-wssecurity-utility-1.0.xsd\">\n      <wsse:UsernameToken wsu:Id=\"UsernameToken-1\">\n        <wsse:Username>",
    );
    s.append(user);
    s.append(
        "</wsse:Username>\n        <wsse:Password Type=\"http://docs.oasis-open.org/wss/2004/01/oasis-200401-wss-username-token-profile-1.0#PasswordDigest\">",
    );
    s.append(digest.as_str());
    s.append(
        "</wsse:Password>\n        <wsse:Nonce EncodingType=\"http://docs.oasis-open.org/wss/2004/01/oasis-200401-wss-soap-message-security-1.0#Base64Binary\">",
    );
    s.append(nonce_b64.as_str());
    s.append("</wsse:Nonce>\n        <wsu:Created>");
    s.append(created);
    s.append("</wsu:Created>\n      </wsse:UsernameToken>\n    </wsse:Security>");
    proof {
        assert(s@ =~= security_header_spec(
            user@,
            password_digest_spec(nonce@, created.spec_bytes(), pass.spec_bytes()),
            base64_of(nonce@),
            created@,
        ));
    }
    s
}

/// A SOAP 1.2 envelope around a header and a body.
pub open spec fn envelope_spec(header: Seq<char>, body: Seq<char>) -> Seq<char> {
    "<?xml version=\"1.0\" encoding=\"UTF-8\"?>\n<s:Envelope xmlns:s=\"http://www.w3.org/2003/05/soap-envelope\">\n  <s:Header>\n    "@
        + header
        + "\n  </s:Header>\n  <s:Body xmlns:xsi=\"http://www.w3.org/2001/XMLSchema-instance\" xmlns:xsd=\"http://www.w3.org/2001/XMLSchema\">\n    "@
        + body + "\n  </s:Body>\n</s:Envelope>"@
}

/// The envelope a request gets: authenticated exactly when a user name is
/// configured; `GetSystemDateAndTime` bypasses this and always goes plain.
pub open spec fn soap_envelope_spec(
    user: Seq<char>,
    pass_bytes: Seq<u8>,
    nonce: Seq<u8>,
    created: Seq<char>,
    created_bytes: Seq<u8>,
    body: Seq<char>,
) -> Seq<char> {
    if user.len() == 0 {
        envelope_spec(Seq::empty(), body)
    } else {
        envelope_spec(
            security_header_spec(
                user,
                password_digest_spec(nonce, created_bytes, pass_bytes),
                base64_of(nonce),
                created,
            ),
            body,
        )
    }
}

/// Wrap a body in a SOAP envelope with an explicit header.
fn build_envelope(header: &str, body: &str) -> (r: String)
    ensures
        r@ == envelope_spec(header@, body@),
{
    let mut s = String::from_str(
        "<?xml version=\"1.0\" encoding=\"UTF-8\"?>\n<s:Envelope xmlns:s=\"http://www.w3.org/2003/05/soap-envelope\">\n  <s:Header>\n    ",
    );
    s.append(header);
    s.append(
        "\n  </s:Header>\n  <s:Body xmlns:xsi=\"http://www.w3.org/2001/XMLSchema-instance\" xmlns:xsd=\"http://www.w3.org/2001/XMLSchema\">\n    ",
    );
    s.append(body);
    s.append("\n  </s:Body>\n</s:Envelope>");
    proof {
        assert(s@ =~= envelope_spec(header@, body@));
    }
    s
}

/// Build the SOAP envelope for one request: authenticated when a user name
/// is present, plain otherwise.
pub fn build_soap_envelope(user: &str, pass: &str, nonce: &Vec<u8>, created: &str, body: &str) -> (r:
    String)
    requires
        nonce@.len() == 16,
    ensures
        r@ == soap_envelope_spec(
            user@,
            pass.spec_bytes(),
            nonce@,
            created@,
            created.spec_bytes(),
            body@,
        ),
{
    if user.unicode_len() == 0 {
        proof {
            reveal_strlit("");
            assert(""@ =~= Seq::<char>::empty());
        }
        build_envelope("", body)
    } else {
        let header = generate_security_header(user, pass, nonce, created);
        build_envelope(header.as_str(), body)
    }
}

/// The WS-Discovery probe for `NetworkVideoTransmitter`, around a fresh
/// message id.
pub open spec fn probe_xml_spec(uuid: Seq<char>) -> Seq<char> {
    "<?xml version=\"1.0\" encoding=\"UTF-8\"?>\n<Envelope xmlns=\"http://www.w3.org/2003/05/soap-envelope\" xmlns:dn=\"http://www.onvif.org/ver10/network/wsdl\">\n    <Header>\n        <wsa:MessageID xmlns:wsa=\"http://schemas.xmlsoap.org/ws/2004/08/addressing\">urn:uuid:"@
        + uuid
        + "</wsa:MessageID>\n        <wsa:To xmlns:wsa=\"http://schemas.xmlsoap.org/ws/2004/08/addressing\">urn:schemas-xmlsoap-org:ws:2005:04:discovery</wsa:To>\n        <wsa:Action xmlns:wsa=\"http://schemas.xmlsoap.org/ws/2004/08/addressing\">http://schemas.xmlsoap.org/ws/2005/04/discovery/Probe</wsa:Action>\n    </Header>\n    <Body>\n        <Probe xmlns=\"http://schemas.xmlsoap.org/ws/2005/04/discovery\">\n            <Types>dn:NetworkVideoTransmitter</Types>\n            <Scopes />\n        </Probe>\n    </Body>\n</Envelope>"@
}

/// Build the WS-Discovery probe text around a given message id.
pub fn build_probe_xml(uuid: &str) -> (r: String)
    ensures
        r@ == probe_xml_spec(uuid@),
{
    let mut s = String::from_str(
        "<?xml version=\"1.0\" encoding=\"UTF-8\"?>\n<Envelope xmlns=\"http://www.w3.org/2003/05/soap-envelope\" xmlns:dn=\"http://www.onvif.org/ver10/network/wsdl\">\n    <Header>\n        <wsa:MessageID xmlns:wsa=\"http://schemas.xmlsoap.org/ws/2004/08/addressing\">urn:uuid:",
    );
    s.append(uuid);
    s.append(
        "</wsa:MessageID>\n        <wsa:To xmlns:wsa=\"http://schemas.xmlsoap.org/ws/2004/08/addressing\">urn:schemas-xmlsoap-org:ws:2005:04:discovery</wsa:To>\n        <wsa:Action xmlns:wsa=\"http://schemas.xmlsoap.org/ws/2004/08/addressing\">http://schemas.xmlsoap.org/ws/2005/04/discovery/Probe</wsa:Action>\n    </Header>\n    <Body>\n        <Probe xmlns=\"http://schemas.xmlsoap.org/ws/2005/04/discovery\">\n            <Types>dn:NetworkVideoTransmitter</Types>\n            <Scopes />\n        </Probe>\n    </Body>\n</Envelope>",
    );
    proof {
        assert(s@ =~= probe_xml_spec(uuid@));
    }
    s
}

/// Draw the random nonce of one authenticated request.
pub fn new_request_nonce() -> (r: Vec<u8>)
    ensures
        r@.len() == 16,
{
    random_nonce16()
}

/// Build the probe text around a fresh random message id.
pub fn new_probe_xml() -> (r: String)
    ensures
        exists|uuid: Seq<char>| uuid.len() == 36 && r@ == probe_xml_spec(uuid),
{
    let uuid = new_uuid_string();
    let r = build_probe_xml(uuid.as_str());
    proof {
        assert(uuid@.len() == 36 && r@ == probe_xml_spec(uuid@));
    }
    r
}

/// The probe targets of one scan: every host of the /24 around the local
/// address, each with the WS-Discovery port.
pub open spec fn probe_target_spec(a: u8, b: u8, c: u8, host: int) -> Seq<char> {
    dec_str(a as nat) + "."@ + dec_str(b as nat) + "."@ + dec_str(c as nat) + "."@ + dec_str(
        host as nat,
    ) + ":3702"@
}

/// The probe target list for the subnet of a local IPv4 address: hosts
/// .1 through .254, in order.
pub fn probe_targets(a: u8, b: u8, c: u8) -> (r: Vec<String>)
    ensures
        r@.len() == 254,
        forall|i: int| 0 <= i < 254 ==> (#[trigger] r@[i])@ == probe_target_spec(a, b, c, i + 1),
{
    let mut out: Vec<String> = Vec::new();
    let mut host: u16 = 1;
    while host <= 254
        invariant
            1 <= host <= 255,
            out@.len() == host - 1,
            forall|i: int| 0 <= i < host - 1 ==> (#[trigger] out@[i])@ == probe_target_spec(
                a,
                b,
                c,
                i + 1,
            ),
        decreases 255 - host,
    {
        let mut s = u64_str(a as u64);
        s.append(".");
        s.append(u64_str(b as u64).as_str());
        s.append(".");
        s.append(u64_str(c as u64).as_str());
        s.append(".");
        s.append(u64_str(host as u64).as_str());
        s.append(":3702");
        proof {
            assert(s@ =~= probe_target_spec(a, b, c, host as int));
        }
        out.push(s);
        host = host + 1;
    }
    out
}

fn u64_str(n: u64) -> (r: String)
    ensures
        r@ == dec_str(n as nat),
{
    crate::strutil::u64_to_string(n)
}

/// A discovery reply parsed into a device record. The reply must carry a
/// `ProbeMatch` element with `XAddrs` and `Scopes`; the display name is the
/// last `/name/` scope fragment, the manufacturer the last `/hardware/`
/// fragment, both percent-decoded.
pub open spec fn probe_match_spec(x: Seq<u8>) -> Option<
    (Option<Seq<u8>>, Option<Seq<u8>>, Option<Seq<u8>>),
> {
    if !has_sub(x, "ProbeMatch".spec_bytes()) {
        None
    } else {
        match elem_text_spec(x, "XAddrs>".spec_bytes()) {
            Some(xt) => match elem_text_spec(x, "Scopes>".spec_bytes()) {
                Some(st) => {
                    let xaddr = if first_token(xt).len() > 0 {
                        Some(first_token(xt))
                    } else {
                        None
                    };
                    let scopes = scan_scopes_spec(split_ws(st));
                    Some((xaddr, scopes.0, scopes.1))
                },
                None => None,
            },
            None => None,
        }
    }
}

/// The device record a successful parse denotes. Where a field's bytes are
/// ASCII, the corresponding string is exactly those bytes as characters.
pub open spec fn device_fields_ok(
    d: DiscoveredDevice,
    ip: Seq<char>,
    xaddr: Option<Seq<u8>>,
    name: Option<Seq<u8>>,
    hardware: Option<Seq<u8>>,
) -> bool {
    &&& d.address@ == ip
    &&& d.hostname@.len() == 0
    &&& d.port as int == (match xaddr {
        Some(a) => url_port_spec(a),
        None => 80,
    })
    &&& (match (d.xaddr, xaddr) {
        (Some(s), Some(b)) => all_ascii(b) ==> s@ == chars_of_bytes(b),
        (None, None) => true,
        _ => false,
    })
    &&& (match name {
        Some(n) => all_ascii(n) ==> d.name@ == chars_of_bytes(n),
        None => d.name@ == "Unknown Camera"@,
    })
    &&& (match hardware {
        Some(h) => if h.len() > 0 {
            all_ascii(h) ==> d.manufacturer@ == chars_of_bytes(h)
        } else {
            d.manufacturer@ == "Unknown"@
        },
        None => d.manufacturer@ == "Unknown"@,
    })
}

/// Parse one WS-Discovery reply against the probed address.
pub fn parse_probe_match(xml: &Vec<u8>, ip: String) -> (r: Option<DiscoveredDevice>)
    ensures
        match r {
            Some(d) => {
                &&& probe_match_spec(xml@) is Some
                &&& ({
                    let t = probe_match_spec(xml@).unwrap();
                    device_fields_ok(d, ip@, t.0, t.1, t.2)
                })
            },
            None => probe_match_spec(xml@) is None,
        },
{
    let pm = "ProbeMatch".as_bytes_vec();
    if !bytes_contains(xml, &pm) {
        return None;
    }
    proof {
        reveal_strlit("XAddrs>");
        reveal_strlit("Scopes>");
        lemma_literal_bytes_len("XAddrs>");
        lemma_literal_bytes_len("Scopes>");
    }
    let xaddrs_text = match elem_text(xml, &"XAddrs>".as_bytes_vec()) {
        Some(t) => t,
        None => {
            return None;
        },
    };
    let scopes_text = match elem_text(xml, &"Scopes>".as_bytes_vec()) {
        Some(t) => t,
        None => {
            return None;
        },
    };
    let xaddr_tok = bytes_first_token(&xaddrs_text);
    let xaddr_bytes: Option<Vec<u8>> = if xaddr_tok.len() > 0 {
        Some(xaddr_tok)
    } else {
        None
    };
    let tokens = bytes_split_ws(&scopes_text);
    let (name_bytes, hw_bytes) = scan_scopes(&tokens);
    let port: i32 = match &xaddr_bytes {
        Some(a) => parse_url_port(a),
        None => 80,
    };
    let name: String = match &name_bytes {
        Some(n) => string_from_bytes_lossy(n),
        None => String::from_str("Unknown Camera"),
    };
    let manufacturer: String = match &hw_bytes {
        Some(h) => {
            if h.len() > 0 {
                string_from_bytes_lossy(h)
            } else {
                String::from_str("Unknown")
            }
        },
        None => String::from_str("Unknown"),
    };
    let xaddr: Option<String> = match &xaddr_bytes {
        Some(a) => Some(string_from_bytes_lossy(a)),
        None => None,
    };
    let d = DiscoveredDevice {
        address: ip,
        port,
        hostname: String::from_str(""),
        name,
        manufacturer,
        xaddr,
    };
    proof {
        reveal_strlit("");
        assert(""@.len() == 0);
        let t = probe_match_spec(xml@).unwrap();
        assert(d.address@ == ip@);
        assert(d.hostname@.len() == 0);
        assert(t.0 == xaddr_bytes.deep_view());
        assert(d.port as int == (match t.0 {
            Some(a) => url_port_spec(a),
            None => 80,
        }));
        assert(match (d.xaddr, t.0) {
            (Some(s), Some(b)) => all_ascii(b) ==> s@ == chars_of_bytes(b),
            (None, None) => true,
            _ => false,
        });
        assert(t.1 == name_bytes.deep_view());
        assert(t.2 == hw_bytes.deep_view());
        match &name_bytes {
            Some(n) => {
                assert(t.1.unwrap() =~= n@);
            },
            None => {},
        }
        match &hw_bytes {
            Some(h) => {
                assert(t.2.unwrap() =~= h@);
            },
            None => {},
        }
        assert(match t.1 {
            Some(n) => all_ascii(n) ==> d.name@ == chars_of_bytes(n),
            None => d.name@ == "Unknown Camera"@,
        });
        assert(match t.2 {
            Some(h) => if h.len() > 0 {
                all_ascii(h) ==> d.manufacturer@ == chars_of_bytes(h)
            } else {
                d.manufacturer@ == "Unknown"@
            },
            None => d.manufacturer@ == "Unknown"@,
        });
        assert(device_fields_ok(d, ip@, t.0, t.1, t.2));
    }
    Some(d)
}

/// A nonempty ASCII literal has one byte per character.
proof fn lemma_literal_bytes_len(s: &str)
    requires
        s@.len() > 0,
        vstd::utf8::is_ascii_chars(s@),
    ensures
        s.spec_bytes().len() == s@.len(),
        s.spec_bytes().len() > 0,
{
    vstd::string::is_ascii_spec_bytes(s);
    assert(s.spec_bytes().len() == s@.len());
}

} // verus!

use crate::strutil::dec_digit_char;

verus! {

use vstd::string::StringSliceAdditionalSpecFns as SpecBytesOf;

/// The configured user name, empty when none is stored.
pub open spec fn opt_chars(o: Option<Seq<char>>) -> Seq<char> {
    match o {
        Some(s) => s,
        None => Seq::empty(),
    }
}

fn opt_str<'a>(o: &'a Option<String>) -> (r: &'a str)
    ensures
        r@ == opt_chars(o.deep_view()),
{
    match o {
        Some(s) => s.as_str(),
        None => {
            proof {
                reveal_strlit("");
                assert(""@ =~= Seq::<char>::empty());
            }
            ""
        },
    }
}

/// The GetProfiles request body.
pub open spec fn profiles_body_spec() -> Seq<char> {
    "<GetProfiles xmlns=\"http://www.onvif.org/ver10/media/wsdl\"/>"@
}

/// The envelope of an authenticated-when-configured request for a camera.
pub open spec fn camera_envelope_spec(
    cam: crate::registry::CameraModel,
    nonce: Seq<u8>,
    created: Seq<char>,
    created_bytes: Seq<u8>,
    body: Seq<char>,
) -> Seq<char> {
    soap_envelope_spec(
        opt_chars(cam.user),
        vstd::utf8::encode_utf8(opt_chars(cam.pass)),
        nonce,
        created,
        created_bytes,
        body,
    )
}

/// Build the GetProfiles request of the stream-URI machine. Fails exactly
/// when the camera carries no device-service URL.
pub fn request_profiles(camera: &Camera, nonce: &Vec<u8>, created: &str) -> (r: Result<
    SoapRequest,
    VmsError,
>)
    requires
        nonce@.len() == 16,
    ensures
        match r {
            Ok(req) => {
                &&& camera.xaddr is Some
                &&& req.url@ == camera@.xaddr.unwrap()
                &&& req.body@ == camera_envelope_spec(
                    camera@,
                    nonce@,
                    created@,
                    created.spec_bytes(),
                    profiles_body_spec(),
                )
                &&& req.content_type@
                    == "application/soap+xml; charset=utf-8; action=\"http://www.onvif.org/ver10/media/wsdl/GetProfiles\""@
            },
            Err(e) => e == VmsError::Validation && camera.xaddr is None,
        },
{
    let xaddr = match &camera.xaddr {
        Some(x) => x.clone(),
        None => {
            return Err(VmsError::Validation);
        },
    };
    let user = opt_str(&camera.user);
    let pass = opt_str(&camera.pass);
    let body = build_soap_envelope(
        user,
        pass,
        nonce,
        created,
        "<GetProfiles xmlns=\"http://www.onvif.org/ver10/media/wsdl\"/>",
    );
    proof {
        lemma_pass_bytes(pass, camera@.pass);
    }
    Ok(
        SoapRequest {
            url: xaddr,
            content_type: String::from_str(
                "application/soap+xml; charset=utf-8; action=\"http://www.onvif.org/ver10/media/wsdl/GetProfiles\"",
            ),
            body,
        },
    )
}

/// For the configured password, the wrapper's byte view is the model's
/// UTF-8 encoding.
proof fn lemma_pass_bytes(pass: &str, model: Option<Seq<char>>)
    requires
        pass@ == opt_chars(model),
    ensures
        pass.spec_bytes() == vstd::utf8::encode_utf8(opt_chars(model)),
{
}

/// The GetStreamUri body around a profile token.
pub open spec fn stream_uri_body_spec(token: Seq<char>) -> Seq<char> {
    "<GetStreamUri xmlns=\"http://www.onvif.org/ver10/media/wsdl\">\n      <StreamSetup>\n        <Stream xmlns=\"http://www.onvif.org/ver10/schema\">RTP-Unicast</Stream>\n        <Transport xmlns=\"http://www.onvif.org/ver10/schema\">\n          <Protocol>RTSP</Protocol>\n        </Transport>\n      </StreamSetup>\n      <ProfileToken>"@
        + token + "</ProfileToken>\n    </GetStreamUri>"@
}

/// Handle the GetProfiles reply: extract the first profile token and build
/// the GetStreamUri request. Fails with a protocol error exactly when no
/// token can be parsed.
pub fn handle_profiles_response(
    camera: &Camera,
    xml: &Vec<u8>,
    nonce: &Vec<u8>,
    created: &str,
) -> (r: Result<SoapRequest, VmsError>)
    requires
        nonce@.len() == 16,
    ensures
        match r {
            Ok(req) => {
                &&& camera.xaddr is Some
                &&& profile_token_spec(xml@) is Some
                &&& req.url@ == camera@.xaddr.unwrap()
                &&& (all_ascii(profile_token_spec(xml@).unwrap()) ==> req.body@
                    == camera_envelope_spec(
                    camera@,
                    nonce@,
                    created@,
                    created.spec_bytes(),
                    stream_uri_body_spec(chars_of_bytes(profile_token_spec(xml@).unwrap())),
                ))
                &&& req.content_type@
                    == "application/soap+xml; charset=utf-8; action=\"http://www.onvif.org/ver10/media/wsdl/GetStreamUri\""@
            },
            Err(e) => {
                &&& (e == VmsError::Validation <==> camera.xaddr is None)
                &&& (e == VmsError::ProtocolFailure <==> camera.xaddr is Some
                    && profile_token_spec(xml@) is None)
                &&& (e == VmsError::Validation || e == VmsError::ProtocolFailure)
            },
        },
{
    let xaddr = match &camera.xaddr {
        Some(x) => x.clone(),
        None => {
            return Err(VmsError::Validation);
        },
    };
    let token = match parse_first_profile_token(xml) {
        Some(t) => t,
        None => {
            return Err(VmsError::ProtocolFailure);
        },
    };
    let token_str = string_from_bytes_lossy(&token);
    let mut body_inner = String::from_str(
        "<GetStreamUri xmlns=\"http://www.onvif.org/ver10/media/wsdl\">\n      <StreamSetup>\n        <Stream xmlns=\"http://www.onvif.org/ver10/schema\">RTP-Unicast</Stream>\n        <Transport xmlns=\"http://www.onvif.org/ver10/schema\">\n          <Protocol>RTSP</Protocol>\n        </Transport>\n      </StreamSetup>\n      <ProfileToken>",
    );
    body_inner.append(token_str.as_str());
    body_inner.append("</ProfileToken>\n    </GetStreamUri>");
    let user = opt_str(&camera.user);
    let pass = opt_str(&camera.pass);
    let body = build_soap_envelope(user, pass, nonce, created, body_inner.as_str());
    proof {
        lemma_pass_bytes(pass, camera@.pass);
        if all_ascii(profile_token_spec(xml@).unwrap()) {
            assert(body_inner@ =~= stream_uri_body_spec(
                chars_of_bytes(profile_token_spec(xml@).unwrap()),
            ));
        }
    }
    Ok(
        SoapRequest {
            url: xaddr,
            content_type: String::from_str(
                "application/soap+xml; charset=utf-8; action=\"http://www.onvif.org/ver10/media/wsdl/GetStreamUri\"",
            ),
            body,
        },
    )
}

/// Credentials injected into a URL authority: `scheme://` becomes
/// `scheme://user:encoded-pass@`; a URL without `://`, or an empty user
/// name, passes through unchanged.
pub open spec fn inject_credentials_spec(uri: Seq<u8>, user: Seq<u8>, pass: Seq<u8>) -> Seq<u8> {
    if user.len() == 0 {
        uri
    } else {
        match find_spec(uri, "://".spec_bytes(), 0) {
            Some(i) => uri.take(i + 3) + user + seq![58u8] + percent_encoded(pass) + seq![64u8]
                + uri.skip(i + 3),
            None => uri,
        }
    }
}

/// Handle the GetStreamUri reply: extract the RTSP URI and inject the
/// camera's credentials into its authority. Fails with a protocol error
/// exactly when no URI can be parsed.
pub fn handle_stream_uri_response(camera: &Camera, xml: &Vec<u8>) -> (r: Result<String, VmsError>)
    ensures
        match r {
            Ok(url) => {
                &&& stream_uri_spec(xml@) is Some
                &&& ({
                    let injected = inject_credentials_spec(
                        stream_uri_spec(xml@).unwrap(),
                        vstd::utf8::encode_utf8(opt_chars(camera@.user)),
                        vstd::utf8::encode_utf8(opt_chars(camera@.pass)),
                    );
                    all_ascii(injected) ==> url@ == chars_of_bytes(injected)
                })
            },
            Err(e) => e == VmsError::ProtocolFailure && stream_uri_spec(xml@) is None,
        },
{
    let uri = match parse_stream_uri(xml) {
        Some(u) => u,
        None => {
            return Err(VmsError::ProtocolFailure);
        },
    };
    let user = opt_str(&camera.user);
    let pass = opt_str(&camera.pass);
    let user_b = user.as_bytes_vec();
    let pass_b = pass.as_bytes_vec();
    let injected = inject_credentials_bytes(&uri, &user_b, &pass_b);
    proof {
        lemma_pass_bytes(user, camera@.user);
        lemma_pass_bytes(pass, camera@.pass);
    }
    Ok(string_from_bytes_lossy(&injected))
}

/// Inject credentials into a URL's authority, byte level.
pub fn inject_credentials_bytes(uri: &Vec<u8>, user: &Vec<u8>, pass: &Vec<u8>) -> (r: Vec<u8>)
    ensures
        r@ == inject_credentials_spec(uri@, user@, pass@),
{
    if user.len() == 0 {
        return bytes_subrange(uri, 0, uri.len());
    }
    let marker = "://".as_bytes_vec();
    let ulen = uri.len();
    match find_sub_from(uri, &marker, 0) {
        Some(i) => {
            proof {
                lemma_find_some_bounds(uri@, marker@, 0, i as int);
                reveal_strlit("://");
                vstd::string::is_ascii_spec_bytes("://");
                assert(vstd::utf8::is_ascii_chars("://"@));
                assert("://".spec_bytes().len() == 3);
                assert(i + 3 <= ulen);
            }
            let mut out = bytes_subrange(uri, 0, i + 3);
            let mut j: usize = 0;
            while j < user.len()
                invariant
                    j <= user@.len(),
                    out@ =~= uri@.take(i + 3) + user@.take(j as int),
                decreases user@.len() - j,
            {
                out.push(user[j]);
                proof {
                    assert(out@ =~= uri@.take(i + 3) + user@.take(j + 1));
                }
                j = j + 1;
            }
            out.push(58);
            let enc = percent_encode_bytes(pass);
            let mut k: usize = 0;
            while k < enc.len()
                invariant
                    k <= enc@.len(),
                    out@ =~= ((uri@.take(i + 3) + user@.take(user@.len() as int)) + seq![58u8])
                        + enc@.take(k as int),
                decreases enc@.len() - k,
            {
                out.push(enc[k]);
                proof {
                    assert(out@ =~= ((uri@.take(i + 3) + user@.take(user@.len() as int)) + seq![
                        58u8,
                    ]) + enc@.take(k + 1));
                }
                k = k + 1;
            }
            out.push(64);
            let mut m: usize = i + 3;
            while m < uri.len()
                invariant
                    i + 3 <= m <= uri@.len(),
                    out@ =~= ((((uri@.take(i + 3) + user@.take(user@.len() as int)) + seq![58u8])
                        + enc@.take(enc@.len() as int)) + seq![64u8]) + uri@.subrange(i + 3, m as int),
                decreases uri@.len() - m,
            {
                out.push(uri[m]);
                proof {
                    assert(out@ =~= ((((uri@.take(i + 3) + user@.take(user@.len() as int)) + seq![
                        58u8,
                    ]) + enc@.take(enc@.len() as int)) + seq![64u8]) + uri@.subrange(i + 3, m + 1));
                }
                m = m + 1;
            }
            proof {
                assert(user@.take(user@.len() as int) =~= user@);
                assert(enc@.take(enc@.len() as int) =~= enc@);
                assert(uri@.subrange(i + 3, uri@.len() as int) =~= uri@.skip(i + 3));
                assert(out@ =~= inject_credentials_spec(uri@, user@, pass@));
            }
            out
        },
        None => bytes_subrange(uri, 0, uri.len()),
    }
}

/// The GetCapabilities (PTZ category) body.
pub open spec fn capabilities_body_spec() -> Seq<char> {
    "<GetCapabilities xmlns=\"http://www.onvif.org/ver10/device/wsdl\">\n        <Category>PTZ</Category>\n    </GetCapabilities>"@
}

/// Build the GetCapabilities request that resolves the PTZ service.
pub fn request_capabilities(camera: &Camera, nonce: &Vec<u8>, created: &str) -> (r: Result<
    SoapRequest,
    VmsError,
>)
    requires
        nonce@.len() == 16,
    ensures
        match r {
            Ok(req) => {
                &&& camera.xaddr is Some
                &&& req.url@ == camera@.xaddr.unwrap()
                &&& req.body@ == camera_envelope_spec(
                    camera@,
                    nonce@,
                    created@,
                    created.spec_bytes(),
                    capabilities_body_spec(),
                )
            },
            Err(e) => e == VmsError::Validation && camera.xaddr is None,
        },
{
    let xaddr = match &camera.xaddr {
        Some(x) => x.clone(),
        None => {
            return Err(VmsError::Validation);
        },
    };
    let user = opt_str(&camera.user);
    let pass = opt_str(&camera.pass);
    let body = build_soap_envelope(
        user,
        pass,
        nonce,
        created,
        "<GetCapabilities xmlns=\"http://www.onvif.org/ver10/device/wsdl\">\n        <Category>PTZ</Category>\n    </GetCapabilities>",
    );
    proof {
        lemma_pass_bytes(pass, camera@.pass);
    }
    Ok(
        SoapRequest {
            url: xaddr,
            content_type: String::from_str(
                "application/soap+xml; charset=utf-8; action=\"http://www.onvif.org/ver10/device/wsdl/GetCapabilities\"",
            ),
            body,
        },
    )
}

/// Handle the GetCapabilities reply: the PTZ service URL, or a protocol
/// error exactly when the reply carries none.
pub fn handle_capabilities_response(xml: &Vec<u8>) -> (r: Result<String, VmsError>)
    ensures
        match r {
            Ok(url) => {
                &&& ptz_xaddr_spec(xml@) is Some
                &&& (all_ascii(ptz_xaddr_spec(xml@).unwrap()) ==> url@ == chars_of_bytes(
                    ptz_xaddr_spec(xml@).unwrap(),
                ))
            },
            Err(e) => e == VmsError::ProtocolFailure && ptz_xaddr_spec(xml@) is None,
        },
{
    match parse_ptz_xaddr(xml) {
        Some(u) => Ok(string_from_bytes_lossy(&u)),
        None => Err(VmsError::ProtocolFailure),
    }
}

/// A velocity in thousandths rendered as the decimal the protocol carries:
/// `500` is `0.5`, `-1000` is `-1`, `0` is `0`.
pub open spec fn milli_str(v: int) -> Seq<char> {
    let sign: Seq<char> = if v < 0 {
        seq!['-']
    } else {
        Seq::empty()
    };
    let a = if v < 0 {
        -v
    } else {
        v
    };
    let whole = a / 1000;
    let frac = a % 1000;
    if frac == 0 {
        sign + dec_str(whole as nat)
    } else {
        sign + dec_str(whole as nat) + seq!['.'] + frac_str(frac as nat)
    }
}

/// The fractional digits of a milli value, trailing zeros trimmed.
pub open spec fn frac_str(f: nat) -> Seq<char> {
    if f % 100 == 0 {
        seq![dec_digit_char(f / 100)]
    } else if f % 10 == 0 {
        seq![dec_digit_char(f / 100), dec_digit_char((f / 10) % 10)]
    } else {
        seq![dec_digit_char(f / 100), dec_digit_char((f / 10) % 10), dec_digit_char(f % 10)]
    }
}

/// Render a milli velocity for the ContinuousMove body.
pub fn milli_to_string(v: i32) -> (r: String)
    requires
        -1000 <= v <= 1000,
    ensures
        r@ == milli_str(v as int),
{
    let neg = v < 0;
    let a: u32 = if neg {
        (-v) as u32
    } else {
        v as u32
    };
    let whole = a / 1000;
    let frac = a % 1000;
    let mut s = if neg {
        let t = String::from_str("-");
        proof {
            reveal_strlit("-");
            assert(t@ =~= seq!['-']);
        }
        t
    } else {
        String::new()
    };
    s.append(u64_str(whole as u64).as_str());
    if frac != 0 {
        s.append(".");
        proof {
            reveal_strlit(".");
            assert("."@ =~= seq!['.']);
        }
        if frac % 100 == 0 {
            s.append(u64_str((frac / 100) as u64).as_str());
        } else if frac % 10 == 0 {
            s.append(u64_str((frac / 100) as u64).as_str());
            s.append(u64_str(((frac / 10) % 10) as u64).as_str());
        } else {
            s.append(u64_str((frac / 100) as u64).as_str());
            s.append(u64_str(((frac / 10) % 10) as u64).as_str());
            s.append(u64_str((frac % 10) as u64).as_str());
        }
    }
    proof {
        assert(s@ =~= milli_str(v as int));
    }
    s
}

/// The ContinuousMove body: the profile token and the pan/tilt/zoom
/// velocities in generic velocity space.
pub open spec fn continuous_move_body_spec(token: Seq<char>, x: int, y: int, zoom: int) -> Seq<
    char,
> {
    "<ContinuousMove xmlns=\"http://www.onvif.org/ver20/ptz/wsdl\">\n      <ProfileToken>"@ + token
        + "</ProfileToken>\n      <Velocity>\n        <PanTilt x=\""@ + milli_str(x) + "\" y=\""@
        + milli_str(y)
        + "\" space=\"http://www.onvif.org/ver10/tptz/PanTiltSpaces/VelocityGenericSpace\" xmlns=\"http://www.onvif.org/ver10/schema\"/>\n        <Zoom x=\""@
        + milli_str(zoom)
        + "\" space=\"http://www.onvif.org/ver10/tptz/ZoomSpaces/VelocityGenericSpace\" xmlns=\"http://www.onvif.org/ver10/schema\"/>\n      </Velocity>\n    </ContinuousMove>"@
}

/// Build the ContinuousMove request against a resolved PTZ service URL.
pub fn continuous_move_request(
    ptz_url: &str,
    token: &str,
    camera: &Camera,
    x: i32,
    y: i32,
    zoom: i32,
    nonce: &Vec<u8>,
    created: &str,
) -> (r: SoapRequest)
    requires
        nonce@.len() == 16,
        -1000 <= x <= 1000,
        -1000 <= y <= 1000,
        -1000 <= zoom <= 1000,
    ensures
        r.url@ == ptz_url@,
        r.body@ == camera_envelope_spec(
            camera@,
            nonce@,
            created@,
            created.spec_bytes(),
            continuous_move_body_spec(token@, x as int, y as int, zoom as int),
        ),
{
    let mut body_inner = String::from_str(
        "<ContinuousMove xmlns=\"http://www.onvif.org/ver20/ptz/wsdl\">\n      <ProfileToken>",
    );
    body_inner.append(token);
    body_inner.append("</ProfileToken>\n      <Velocity>\n        <PanTilt x=\"");
    body_inner.append(milli_to_string(x).as_str());
    body_inner.append("\" y=\"");
    body_inner.append(milli_to_string(y).as_str());
    body_inner.append(
        "\" space=\"http://www.onvif.org/ver10/tptz/PanTiltSpaces/VelocityGenericSpace\" xmlns=\"http://www.onvif.org/ver10/schema\"/>\n        <Zoom x=\"",
    );
    body_inner.append(milli_to_string(zoom).as_str());
    body_inner.append(
        "\" space=\"http://www.onvif.org/ver10/tptz/ZoomSpaces/VelocityGenericSpace\" xmlns=\"http://www.onvif.org/ver10/schema\"/>\n      </Velocity>\n    </ContinuousMove>",
    );
    proof {
        assert(body_inner@ =~= continuous_move_body_spec(token@, x as int, y as int, zoom as int));
    }
    let user = opt_str(&camera.user);
    let pass = opt_str(&camera.pass);
    let body = build_soap_envelope(user, pass, nonce, created, body_inner.as_str());
    proof {
        lemma_pass_bytes(pass, camera@.pass);
    }
    SoapRequest {
        url: String::from_str(ptz_url),
        content_type: String::from_str(
            "application/soap+xml; charset=utf-8; action=\"http://www.onvif.org/ver20/ptz/wsdl/ContinuousMove\"",
        ),
        body,
    }
}

/// The Stop body: halt both pan/tilt and zoom.
pub open spec fn stop_body_spec(token: Seq<char>) -> Seq<char> {
    "<Stop xmlns=\"http://www.onvif.org/ver20/ptz/wsdl\">\n      <ProfileToken>"@ + token
        + "</ProfileToken>\n      <PanTilt>true</PanTilt>\n      <Zoom>true</Zoom>\n    </Stop>"@
}

/// Build the Stop request against a resolved PTZ service URL.
pub fn stop_move_request(
    ptz_url: &str,
    token: &str,
    camera: &Camera,
    nonce: &Vec<u8>,
    created: &str,
) -> (r: SoapRequest)
    requires
        nonce@.len() == 16,
    ensures
        r.url@ == ptz_url@,
        r.body@ == camera_envelope_spec(
            camera@,
            nonce@,
            created@,
            created.spec_bytes(),
            stop_body_spec(token@),
        ),
{
    let mut body_inner = String::from_str(
        "<Stop xmlns=\"http://www.onvif.org/ver20/ptz/wsdl\">\n      <ProfileToken>",
    );
    body_inner.append(token);
    body_inner.append("</ProfileToken>\n      <PanTilt>true</PanTilt>\n      <Zoom>true</Zoom>\n    </Stop>");
    proof {
        assert(body_inner@ =~= stop_body_spec(token@));
    }
    let user = opt_str(&camera.user);
    let pass = opt_str(&camera.pass);
    let body = build_soap_envelope(user, pass, nonce, created, body_inner.as_str());
    proof {
        lemma_pass_bytes(pass, camera@.pass);
    }
    SoapRequest {
        url: String::from_str(ptz_url),
        content_type: String::from_str(
            "application/soap+xml; charset=utf-8; action=\"http://www.onvif.org/ver20/ptz/wsdl/Stop\"",
        ),
        body,
    }
}

/// The GetSystemDateAndTime body.
pub open spec fn get_time_body_spec() -> Seq<char> {
    "<GetSystemDateAndTime xmlns=\"http://www.onvif.org/ver10/device/wsdl\"/>"@
}

/// Build the GetSystemDateAndTime request. The operation is a pre-auth
/// endpoint: the request is always sent unauthenticated, whatever
/// credentials the camera row holds.
pub fn request_get_time(camera: &Camera) -> (r: Result<SoapRequest, VmsError>)
    ensures
        match r {
            Ok(req) => {
                &&& camera.xaddr is Some
                &&& req.url@ == camera@.xaddr.unwrap()
                &&& req.body@ == envelope_spec(Seq::empty(), get_time_body_spec())
            },
            Err(e) => e == VmsError::Validation && camera.xaddr is None,
        },
{
    let xaddr = match &camera.xaddr {
        Some(x) => x.clone(),
        None => {
            return Err(VmsError::Validation);
        },
    };
    proof {
        reveal_strlit("");
        assert(""@ =~= Seq::<char>::empty());
    }
    let body = build_envelope(
        "",
        "<GetSystemDateAndTime xmlns=\"http://www.onvif.org/ver10/device/wsdl\"/>",
    );
    Ok(
        SoapRequest {
            url: xaddr,
            content_type: String::from_str(
                "application/soap+xml; charset=utf-8; action=\"http://www.onvif.org/ver10/device/wsdl/GetSystemDateAndTime\"",
            ),
            body,
        },
    )
}

/// The SetSystemDateAndTime body: manual mode, no daylight saving, UTC,
/// the six clock fields.
pub open spec fn set_time_body_spec(dt: OnvifDateTime) -> Seq<char> {
    "<SetSystemDateAndTime xmlns=\"http://www.onvif.org/ver10/device/wsdl\">\n      <DateTimeType>Manual</DateTimeType>\n      <DaylightSavings>false</DaylightSavings>\n      <TimeZone>\n        <TZ xmlns=\"http://www.onvif.org/ver10/schema\">UTC</TZ>\n      </TimeZone>\n      <UTCDateTime>\n        <Date xmlns=\"http://www.onvif.org/ver10/schema\">\n          <Year>"@
        + dec_str_signed(dt.year as int) + "</Year>\n          <Month>"@ + dec_str_signed(
        dt.month as int,
    ) + "</Month>\n          <Day>"@ + dec_str_signed(dt.day as int)
        + "</Day>\n        </Date>\n        <Time xmlns=\"http://www.onvif.org/ver10/schema\">\n          <Hour>"@
        + dec_str_signed(dt.hour as int) + "</Hour>\n          <Minute>"@ + dec_str_signed(
        dt.minute as int,
    ) + "</Minute>\n          <Second>"@ + dec_str_signed(dt.second as int)
        + "</Second>\n        </Time>\n      </UTCDateTime>\n    </SetSystemDateAndTime>"@
}

/// Build the SetSystemDateAndTime request.
pub fn request_set_time(camera: &Camera, dt: &OnvifDateTime, nonce: &Vec<u8>, created: &str) -> (r:
    Result<SoapRequest, VmsError>)
    requires
        nonce@.len() == 16,
    ensures
        match r {
            Ok(req) => {
                &&& camera.xaddr is Some
                &&& req.url@ == camera@.xaddr.unwrap()
                &&& req.body@ == camera_envelope_spec(
                    camera@,
                    nonce@,
                    created@,
                    created.spec_bytes(),
                    set_time_body_spec(*dt),
                )
            },
            Err(e) => e == VmsError::Validation && camera.xaddr is None,
        },
{
    let xaddr = match &camera.xaddr {
        Some(x) => x.clone(),
        None => {
            return Err(VmsError::Validation);
        },
    };
    let mut body_inner = String::from_str(
        "<SetSystemDateAndTime xmlns=\"http://www.onvif.org/ver10/device/wsdl\">\n      <DateTimeType>Manual</DateTimeType>\n      <DaylightSavings>false</DaylightSavings>\n      <TimeZone>\n        <TZ xmlns=\"http://www.onvif.org/ver10/schema\">UTC</TZ>\n      </TimeZone>\n      <UTCDateTime>\n        <Date xmlns=\"http://www.onvif.org/ver10/schema\">\n          <Year>",
    );
    body_inner.append(i64_to_string(dt.year as i64).as_str());
    body_inner.append("</Year>\n          <Month>");
    body_inner.append(i64_to_string(dt.month as i64).as_str());
    body_inner.append("</Month>\n          <Day>");
    body_inner.append(i64_to_string(dt.day as i64).as_str());
    body_inner.append(
        "</Day>\n        </Date>\n        <Time xmlns=\"http://www.onvif.org/ver10/schema\">\n          <Hour>",
    );
    body_inner.append(i64_to_string(dt.hour as i64).as_str());
    body_inner.append("</Hour>\n          <Minute>");
    body_inner.append(i64_to_string(dt.minute as i64).as_str());
    body_inner.append("</Minute>\n          <Second>");
    body_inner.append(i64_to_string(dt.second as i64).as_str());
    body_inner.append(
        "</Second>\n        </Time>\n      </UTCDateTime>\n    </SetSystemDateAndTime>",
    );
    proof {
        assert(body_inner@ =~= set_time_body_spec(*dt));
    }
    let user = opt_str(&camera.user);
    let pass = opt_str(&camera.pass);
    let body = build_soap_envelope(user, pass, nonce, created, body_inner.as_str());
    proof {
        lemma_pass_bytes(pass, camera@.pass);
    }
    Ok(
        SoapRequest {
            url: xaddr,
            content_type: String::from_str(
                "application/soap+xml; charset=utf-8; action=\"http://www.onvif.org/ver10/device/wsdl/SetSystemDateAndTime\"",
            ),
            body,
        },
    )
}

/// The verdict on a SetSystemDateAndTime reply: success needs a 2xx status
/// and a body free of `Fault` and `fault`, in either case.
pub open spec fn set_time_ok_spec(status_ok: bool, body: Seq<u8>) -> bool {
    status_ok && !has_sub(body, "Fault".spec_bytes()) && !has_sub(body, "fault".spec_bytes())
}

/// Judge a SetSystemDateAndTime reply.
pub fn judge_set_time_response(status_ok: bool, body: &Vec<u8>) -> (r: Result<(), VmsError>)
    ensures
        r is Ok <==> set_time_ok_spec(status_ok, body@),
        r is Err ==> r->Err_0 == VmsError::ProtocolFailure,
{
    if !status_ok {
        return Err(VmsError::ProtocolFailure);
    }
    let fault_upper = "Fault".as_bytes_vec();
    let fault_lower = "fault".as_bytes_vec();
    if bytes_contains(body, &fault_upper) || bytes_contains(body, &fault_lower) {
        return Err(VmsError::ProtocolFailure);
    }
    Ok(())
}

} // verus!

verus! {

/// Whether some device in `s` carries the address.
pub open spec fn addr_in(s: Seq<DiscoveredDevice>, a: Seq<char>) -> bool {
    exists|i: int| 0 <= i < s.len() && (#[trigger] s[i]).address@ == a
}

/// First-wins deduplication of discovery results by address.
pub open spec fn dedup_spec(s: Seq<DiscoveredDevice>) -> Seq<DiscoveredDevice>
    decreases s.len(),
{
    if s.len() == 0 {
        Seq::empty()
    } else {
        let rest = dedup_spec(s.drop_last());
        if addr_in(s.drop_last(), s.last().address@) {
            rest
        } else {
            rest.push(s.last())
        }
    }
}

/// The addresses of a deduplicated sequence are the input's, each kept
/// once, first responder wins.
pub proof fn lemma_dedup_addresses(s: Seq<DiscoveredDevice>)
    ensures
        forall|a: Seq<char>| addr_in(dedup_spec(s), a) <==> addr_in(s, a),
        forall|i: int, j: int|
            0 <= i < j < dedup_spec(s).len() ==> (#[trigger] dedup_spec(s)[i]).address@ != (
            #[trigger] dedup_spec(s)[j]).address@,
    decreases s.len(),
{
    if s.len() > 0 {
        lemma_dedup_addresses(s.drop_last());
        let d = dedup_spec(s);
        let rest = dedup_spec(s.drop_last());
        assert forall|a: Seq<char>| addr_in(d, a) implies addr_in(s, a) by {
            let i = choose|i: int| 0 <= i < d.len() && (#[trigger] d[i]).address@ == a;
            if i < rest.len() {
                assert(d[i] == rest[i]);
                assert(addr_in(rest, a));
                assert(addr_in(s.drop_last(), a));
                let j = choose|j: int|
                    0 <= j < s.drop_last().len() && (#[trigger] s.drop_last()[j]).address@ == a;
                assert(s[j].address@ == a);
            } else {
                assert(d[i] == s.last());
                assert(s[s.len() - 1].address@ == a);
            }
        }
        assert forall|a: Seq<char>| addr_in(s, a) implies addr_in(d, a) by {
            let i = choose|i: int| 0 <= i < s.len() && (#[trigger] s[i]).address@ == a;
            if i < s.len() - 1 {
                assert(s.drop_last()[i].address@ == a);
                assert(addr_in(s.drop_last(), a));
                assert(addr_in(rest, a));
                let j = choose|j: int| 0 <= j < rest.len() && (#[trigger] rest[j]).address@ == a;
                assert(d[j] == rest[j]);
                assert(addr_in(d, a));
            } else {
                if addr_in(s.drop_last(), s.last().address@) {
                    assert(addr_in(rest, a));
                    let k = choose|k: int|
                        0 <= k < rest.len() && (#[trigger] rest[k]).address@ == a;
                    assert(d[k] == rest[k]);
                    assert(addr_in(d, a));
                } else {
                    assert(d[d.len() - 1] == s.last());
                    assert(d[d.len() - 1].address@ == a);
                }
            }
        }
        assert forall|i: int, j: int|
            0 <= i < j < d.len() implies (#[trigger] d[i]).address@ != (
        #[trigger] d[j]).address@ by {
            if j < rest.len() {
                assert(d[i] == rest[i] && d[j] == rest[j]);
            } else {
                assert(d[i] == rest[i]);
                assert(d[j] == s.last());
                assert(addr_in(rest, d[i].address@));
                assert(!addr_in(s.drop_last(), s.last().address@));
                if d[i].address@ == s.last().address@ {
                    assert(addr_in(s.drop_last(), s.last().address@));
                }
            }
        }
    }
}

fn clone_device(d: &DiscoveredDevice) -> (r: DiscoveredDevice)
    ensures
        r.address@ == d.address@,
        r.port == d.port,
        r.hostname@ == d.hostname@,
        r.name@ == d.name@,
        r.manufacturer@ == d.manufacturer@,
        r.xaddr.deep_view() == d.xaddr.deep_view(),
{
    DiscoveredDevice {
        address: d.address.clone(),
        port: d.port,
        hostname: d.hostname.clone(),
        name: d.name.clone(),
        manufacturer: d.manufacturer.clone(),
        xaddr: match &d.xaddr {
            Some(x) => Some(x.clone()),
            None => None,
        },
    }
}

/// Drop duplicate discovery responses: the first device seen at each
/// address wins.
pub fn dedup_devices(devices: Vec<DiscoveredDevice>) -> (r: Vec<DiscoveredDevice>)
    ensures
        forall|a: Seq<char>| addr_in(r@, a) <==> addr_in(devices@, a),
        forall|i: int, j: int|
            0 <= i < j < r@.len() ==> (#[trigger] r@[i]).address@ != (#[trigger] r@[j]).address@,
{
    let mut out: Vec<DiscoveredDevice> = Vec::new();
    let mut i: usize = 0;
    proof {
        assert(devices@.take(0) =~= Seq::<DiscoveredDevice>::empty());
    }
    while i < devices.len()
        invariant
            i <= devices@.len(),
            forall|a: Seq<char>| addr_in(out@, a) <==> addr_in(devices@.take(i as int), a),
            forall|x: int, y: int|
                0 <= x < y < out@.len() ==> (#[trigger] out@[x]).address@ != (
                #[trigger] out@[y]).address@,
        decreases devices@.len() - i,
    {
        let d = &devices[i];
        let mut seen = false;
        let mut k: usize = 0;
        while k < out.len()
            invariant
                k <= out@.len(),
                seen <==> exists|x: int| 0 <= x < k && (#[trigger] out@[x]).address@ == d.address@,
            decreases out@.len() - k,
        {
            if crate::strutil::str_eq(out[k].address.as_str(), d.address.as_str()) {
                seen = true;
                proof {
                    assert((#[trigger] out@[k as int]).address@ == d.address@);
                }
                k = out.len();
            } else {
                k = k + 1;
            }
        }
        let ghost prev = out@;
        if !seen {
            out.push(clone_device(d));
        }
        proof {
            assert(devices@.take(i + 1).drop_last() =~= devices@.take(i as int));
            assert(devices@.take(i + 1).last() == devices@[i as int]);
            assert forall|a: Seq<char>| addr_in(out@, a) implies addr_in(
                devices@.take(i + 1),
                a,
            ) by {
                let x = choose|x: int| 0 <= x < out@.len() && (#[trigger] out@[x]).address@ == a;
                if x < prev.len() {
                    assert(addr_in(prev, a));
                    let y = choose|y: int|
                        0 <= y < devices@.take(i as int).len() && (#[trigger] devices@.take(
                            i as int,
                        )[y]).address@ == a;
                    assert(devices@.take(i + 1)[y].address@ == a);
                } else {
                    assert(devices@.take(i + 1)[i as int].address@ == a);
                }
            }
            assert forall|a: Seq<char>| addr_in(devices@.take(i + 1), a) implies addr_in(
                out@,
                a,
            ) by {
                let y = choose|y: int|
                    0 <= y < devices@.take(i + 1).len() && (#[trigger] devices@.take(
                        i + 1,
                    )[y]).address@ == a;
                if y < i {
                    assert(devices@.take(i as int)[y].address@ == a);
                    assert(addr_in(devices@.take(i as int), a));
                    assert(addr_in(prev, a));
                    let x = choose|x: int|
                        0 <= x < prev.len() && (#[trigger] prev[x]).address@ == a;
                    assert(out@[x].address@ == a);
                } else {
                    if seen {
                        let x = choose|x: int|
                            0 <= x < prev.len() && (#[trigger] prev[x]).address@ == d.address@;
                        assert(out@[x].address@ == a);
                    } else {
                        assert(out@[out@.len() - 1].address@ == a);
                    }
                }
            }
            assert forall|x: int, y: int|
                0 <= x < y < out@.len() implies (#[trigger] out@[x]).address@ != (
            #[trigger] out@[y]).address@ by {
                if y == out@.len() - 1 && !seen && out@.len() > prev.len() {
                    if out@[x].address@ == d.address@ {
                        assert(prev[x].address@ == d.address@);
                    }
                } else {
                    assert(out@[x] == prev[x] && out@[y] == prev[y]);
                }
            }
        }
        i = i + 1;
    }
    proof {
        assert(devices@.take(devices@.len() as int) =~= devices@);
    }
    out
}

} // verus!
