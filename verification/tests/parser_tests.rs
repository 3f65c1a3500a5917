//! Discovery, XML and time parsers.

use camera_vms::clock;
use camera_vms::models::OnvifDateTime;
use camera_vms::onvif;
use camera_vms::percent;
use camera_vms::xmlscan;

#[test]
fn discovery_reply_parses_to_device() {
    let reply = "<?xml version=\"1.0\"?><e:Envelope><e:Body><d:ProbeMatches><d:ProbeMatch><d:XAddrs>http://192.168.1.11/onvif/device_service</d:XAddrs><d:Scopes>onvif://www.onvif.org/name/ACME%20Cam onvif://www.onvif.org/hardware/Model-X</d:Scopes></d:ProbeMatch></d:ProbeMatches></e:Body></e:Envelope>";
    let dev = onvif::parse_probe_match(&reply.as_bytes().to_vec(), "192.168.1.11".to_string())
        .unwrap();
    assert_eq!(dev.address, "192.168.1.11");
    assert_eq!(dev.port, 80);
    assert_eq!(dev.name, "ACME Cam");
    assert_eq!(dev.manufacturer, "Model-X");
    assert_eq!(dev.xaddr.as_deref(), Some("http://192.168.1.11/onvif/device_service"));
}

#[test]
fn discovery_reply_with_explicit_port() {
    let reply = "<a><ProbeMatch><XAddrs>http://192.168.1.20:8080/onvif</XAddrs><Scopes>onvif://www.onvif.org/name/Cam</Scopes></ProbeMatch></a>";
    let dev = onvif::parse_probe_match(&reply.as_bytes().to_vec(), "192.168.1.20".to_string())
        .unwrap();
    assert_eq!(dev.port, 8080);
    assert_eq!(dev.name, "Cam");
    assert_eq!(dev.manufacturer, "Unknown");
}

#[test]
fn discovery_reply_without_probe_match_is_rejected() {
    let reply = b"<Envelope><Body/></Envelope>".to_vec();
    assert!(onvif::parse_probe_match(&reply, "10.0.0.1".to_string()).is_none());
}

#[test]
fn discovery_reply_without_scopes_is_rejected() {
    let reply = b"<a><ProbeMatch><XAddrs>http://h/x</XAddrs></ProbeMatch></a>".to_vec();
    assert!(onvif::parse_probe_match(&reply, "10.0.0.1".to_string()).is_none());
}

#[test]
fn profile_token_extraction() {
    let xml = b"<trt:Profiles fixed=\"true\" token=\"Profile_1\">x</trt:Profiles>".to_vec();
    let tok = xmlscan::parse_first_profile_token(&xml).unwrap();
    assert_eq!(tok, b"Profile_1".to_vec());
}

#[test]
fn profile_token_missing() {
    let xml = b"<trt:Profiles fixed=\"true\">x</trt:Profiles>".to_vec();
    assert!(xmlscan::parse_first_profile_token(&xml).is_none());
}

#[test]
fn stream_uri_extraction_trims() {
    let xml = b"<tt:Uri>\n  rtsp://h/live \n</tt:Uri>".to_vec();
    assert_eq!(xmlscan::parse_stream_uri(&xml).unwrap(), b"rtsp://h/live".to_vec());
}

#[test]
fn ptz_xaddr_extraction() {
    let xml = "<tds:Capabilities><tt:PTZ><tt:XAddr> http://h/onvif/ptz </tt:XAddr></tt:PTZ></tds:Capabilities>"
    .as_bytes()
    .to_vec();
    assert_eq!(xmlscan::parse_ptz_xaddr(&xml).unwrap(), b"http://h/onvif/ptz".to_vec());
    assert!(onvif::handle_capabilities_response(&xml).is_ok());
    assert!(onvif::handle_capabilities_response(&b"<noptz/>".to_vec()).is_err());
}

#[test]
fn system_date_time_extraction() {
    let xml = "<tds:GetSystemDateAndTimeResponse><tt:UTCDateTime><tt:Time><tt:Hour>7</tt:Hour><tt:Minute>8</tt:Minute><tt:Second>9</tt:Second></tt:Time><tt:Date><tt:Year>2024</tt:Year><tt:Month>5</tt:Month><tt:Day>6</tt:Day></tt:Date></tt:UTCDateTime></tds:GetSystemDateAndTimeResponse>"
    .as_bytes()
    .to_vec();
    let dt = xmlscan::parse_system_date_time(&xml).unwrap();
    assert_eq!(
        dt,
        OnvifDateTime { year: 2024, month: 5, day: 6, hour: 7, minute: 8, second: 9 }
    );
}

#[test]
fn system_date_time_missing_field() {
    let xml = b"<r><Year>2024</Year></r>".to_vec();
    assert!(xmlscan::parse_system_date_time(&xml).is_none());
}

#[test]
fn url_port_parsing() {
    assert_eq!(xmlscan::parse_url_port(&b"http://h:8080/x".to_vec()), 8080);
    assert_eq!(xmlscan::parse_url_port(&b"http://h/x".to_vec()), 80);
    assert_eq!(xmlscan::parse_url_port(&b"nonsense".to_vec()), 80);
    assert_eq!(xmlscan::parse_url_port(&b"http://h:99999/x".to_vec()), 80);
}

#[test]
fn percent_round_values() {
    let decoded = percent::percent_decode_bytes(&b"ACME%20Cam".to_vec());
    assert_eq!(decoded, b"ACME Cam".to_vec());
    let kept = percent::percent_decode_bytes(&b"100%zz".to_vec());
    assert_eq!(kept, b"100%zz".to_vec());
    assert_eq!(percent::percent_encode_str("p@ss"), "p%40ss");
    assert_eq!(percent::percent_encode_str("abc-._~"), "abc-._~");
}

#[test]
fn rfc3339_parsing() {
    let (dt, off) = clock::parse_rfc3339(&b"2024-01-01T00:00:00+00:00".to_vec()).unwrap();
    assert_eq!(dt.year, 2024);
    assert_eq!(off, 0);
    let (dt2, off2) = clock::parse_rfc3339(&b"2024-06-30T23:30:05.123456-02:30".to_vec()).unwrap();
    assert_eq!(dt2.minute, 30);
    assert_eq!(off2, -(2 * 3600 + 30 * 60));
    let (_, offz) = clock::parse_rfc3339(&b"1999-12-31T23:59:59Z".to_vec()).unwrap();
    assert_eq!(offz, 0);
    assert!(clock::parse_rfc3339(&b"2024-13-01T00:00:00Z".to_vec()).is_none());
    assert!(clock::parse_rfc3339(&b"garbage".to_vec()).is_none());
    assert!(clock::parse_rfc3339(&b"2024-02-30T00:00:00Z".to_vec()).is_none());
}

#[test]
fn unix_seconds_known_values() {
    let epoch = OnvifDateTime { year: 1970, month: 1, day: 1, hour: 0, minute: 0, second: 0 };
    assert_eq!(clock::to_unix_seconds(&epoch), Some(0));
    let y2k = OnvifDateTime { year: 2000, month: 1, day: 1, hour: 0, minute: 0, second: 0 };
    assert_eq!(clock::to_unix_seconds(&y2k), Some(946684800));
    let bad = OnvifDateTime { year: 2024, month: 2, day: 30, hour: 0, minute: 0, second: 0 };
    assert_eq!(clock::to_unix_seconds(&bad), None);
}

#[test]
fn final_recording_name_is_jst_stamped() {
    let name = clock::final_recording_name(1, &b"2024-01-01T00:00:00+00:00".to_vec()).unwrap();
    assert_eq!(name, "rec_1_20240101_090000.mp4");
    let crossing = clock::final_recording_name(7, &b"2024-12-31T16:30:05+00:00".to_vec()).unwrap();
    assert_eq!(crossing, "rec_7_20250101_013005.mp4");
    assert!(clock::final_recording_name(1, &b"not a time".to_vec()).is_err());
}

#[test]
fn final_recording_name_matches_expected_shape() {
    let name = clock::final_recording_name(12, &b"2024-05-06T07:08:09+00:00".to_vec()).unwrap();
    let bytes = name.as_bytes();
    assert!(name.starts_with("rec_12_"));
    assert!(name.ends_with(".mp4"));
    let stamp = &bytes[7..name.len() - 4];
    assert_eq!(stamp.len(), 15);
    assert!(stamp[..8].iter().all(|b| b.is_ascii_digit()));
    assert_eq!(stamp[8], b'_');
    assert!(stamp[9..].iter().all(|b| b.is_ascii_digit()));
}

#[test]
fn sync_messages_match_policy() {
    assert_eq!(
        camera_vms::clock::sync_message(3, Some(1)),
        "Camera time synchronized successfully (adjusted by 3s, verified)"
    );
    assert_eq!(
        camera_vms::clock::sync_message(3, Some(7)),
        "Camera time may not have been set correctly (before diff: 3s, after diff: 7s)"
    );
    assert_eq!(
        camera_vms::clock::sync_message(1, None),
        "Camera time is already synchronized (difference: 1s)"
    );
    assert_eq!(
        camera_vms::clock::sync_message(-12, None),
        "Camera time command sent (adjusted by -12s, verification unavailable)"
    );
}

#[test]
fn discovery_dedup_is_first_wins() {
    let mk = |addr: &str, name: &str| camera_vms::models::DiscoveredDevice {
        address: addr.to_string(),
        port: 80,
        hostname: String::new(),
        name: name.to_string(),
        manufacturer: "Unknown".to_string(),
        xaddr: None,
    };
    let devices = vec![
        mk("192.168.1.11", "first"),
        mk("192.168.1.12", "other"),
        mk("192.168.1.11", "second"),
    ];
    let unique = onvif::dedup_devices(devices);
    assert_eq!(unique.len(), 2);
    assert_eq!(unique[0].address, "192.168.1.11");
    assert_eq!(unique[0].name, "first");
    assert_eq!(unique[1].address, "192.168.1.12");
}

#[test]
fn clock_delta_between_readings() {
    let a = OnvifDateTime { year: 2024, month: 1, day: 1, hour: 0, minute: 0, second: 30 };
    let b = OnvifDateTime { year: 2024, month: 1, day: 1, hour: 0, minute: 0, second: 0 };
    assert_eq!(clock::clock_delta_seconds(&a, &b).unwrap(), 30);
    let bad = OnvifDateTime { year: 0, month: 1, day: 1, hour: 0, minute: 0, second: 0 };
    assert!(clock::clock_delta_seconds(&a, &bad).is_err());
}
