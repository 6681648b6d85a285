use webdav_multistatus::element::Element;
use webdav_multistatus::elements::{
    Href, Multistatus, Properties, Propstat, Response, ResponseDescription,
};
use webdav_multistatus::error::{DecodeError, WebdavError};
use webdav_multistatus::parser::ResponseParser;
use webdav_multistatus::properties::{Collection, ContentLength, CreationDate, LastModified, ResourceType};
use webdav_multistatus::qname::{
    qname_collection, qname_creationdate, qname_getcontentlength, qname_getlastmodified,
    qname_resourcetype,
};
use webdav_multistatus::reduce::FileKind;
use webdav_multistatus::status::{interpret_status, Status};
use webdav_multistatus::timestamp::{parse_rfc1123, parse_rfc3339};
use webdav_multistatus::value::{Value, ValueMap};

const DIR_LISTING: &str = r#"
        <?xml version="1.0" encoding="utf-8"?>
        <D:multistatus xmlns:D="DAV:" xmlns:ns0="DAV:">
        <D:response xmlns:lp2="http://apache.org/dav/props/" xmlns:lp1="DAV:">
        <D:href>/ciao/</D:href>
        <D:propstat>
        <D:prop>
        <lp1:resourcetype><D:collection/></lp1:resourcetype>
        <lp1:creationdate>2024-03-02T15:44:46Z</lp1:creationdate>
        <lp1:getlastmodified>Sat, 02 Mar 2024 15:44:46 GMT</lp1:getlastmodified>
        <lp1:getetag>"1a-612af5f3d72b2"</lp1:getetag>
        <D:supportedlock>
        <D:lockentry>
        <D:lockscope><D:exclusive/></D:lockscope>
        <D:locktype><D:write/></D:locktype>
        </D:lockentry>
        <D:lockentry>
        <D:lockscope><D:shared/></D:lockscope>
        <D:locktype><D:write/></D:locktype>
        </D:lockentry>
        </D:supportedlock>
        <D:lockdiscovery/>
        <D:getcontenttype>httpd/unix-directory</D:getcontenttype>
        </D:prop>
        <D:status>HTTP/1.1 200 OK</D:status>
        </D:propstat>
        </D:response>
        <D:response xmlns:lp2="http://apache.org/dav/props/" xmlns:lp1="DAV:">
        <D:href>/ciao/pippo/</D:href>
        <D:propstat>
        <D:prop>
        <lp1:resourcetype><D:collection/></lp1:resourcetype>
        <lp1:creationdate>2024-03-02T15:40:53Z</lp1:creationdate>
        <lp1:getlastmodified>Sat, 02 Mar 2024 15:40:53 GMT</lp1:getlastmodified>
        <lp1:getetag>"0-612af5150498f"</lp1:getetag>
        <D:supportedlock>
        <D:lockentry>
        <D:lockscope><D:exclusive/></D:lockscope>
        <D:locktype><D:write/></D:locktype>
        </D:lockentry>
        <D:lockentry>
        <D:lockscope><D:shared/></D:lockscope>
        <D:locktype><D:write/></D:locktype>
        </D:lockentry>
        </D:supportedlock>
        <D:lockdiscovery/>
        <D:getcontenttype>httpd/unix-directory</D:getcontenttype>
        </D:prop>
        <D:status>HTTP/1.1 200 OK</D:status>
        </D:propstat>
        </D:response>
        <D:response xmlns:lp2="http://apache.org/dav/props/" xmlns:lp1="DAV:">
        <D:href>/ciao/build.rs</D:href>
        <D:propstat>
        <D:prop>
        <lp1:resourcetype/>
        <lp1:creationdate>2024-03-02T15:44:46Z</lp1:creationdate>
        <lp1:getcontentlength>486</lp1:getcontentlength>
        <lp1:getlastmodified>Sat, 02 Mar 2024 15:44:46 GMT</lp1:getlastmodified>
        <lp1:getetag>"1e6-612af5f3d72b2"</lp1:getetag>
        <lp2:executable>F</lp2:executable>
        <D:supportedlock>
        <D:lockentry>
        <D:lockscope><D:exclusive/></D:lockscope>
        <D:locktype><D:write/></D:locktype>
        </D:lockentry>
        <D:lockentry>
        <D:lockscope><D:shared/></D:lockscope>
        <D:locktype><D:write/></D:locktype>
        </D:lockentry>
        </D:supportedlock>
        <D:lockdiscovery/>
        <D:getcontenttype>application/rls-services+xml</D:getcontenttype>
        </D:prop>
        <D:status>HTTP/1.1 200 OK</D:status>
        </D:propstat>
        </D:response>
        </D:multistatus>

"#;

fn parse_ok(status: u16, body: &str) -> Vec<webdav_multistatus::reduce::FileRecord> {
    let parser = ResponseParser { status_code: status, body: body.as_bytes().to_vec() };
    parser.files().unwrap()
}

#[test]
fn test_should_parse_dir_content() {
    let files = parse_ok(200, DIR_LISTING);
    assert_eq!(files.len(), 3);
    let ciao_dir = &files[0];
    assert!(ciao_dir.is_dir());
    assert_eq!(ciao_dir.path, b"/ciao/".to_vec());

    let pippo_dir = &files[1];
    assert!(pippo_dir.is_dir());
    assert_eq!(pippo_dir.path, b"/ciao/pippo/".to_vec());

    let build_rs = &files[2];
    assert!(build_rs.is_file());
    assert_eq!(build_rs.path, b"/ciao/build.rs".to_vec());
    assert_eq!(build_rs.metadata.size, 486);
}

#[test]
fn should_parse_timestamps_from_listing() {
    let files = parse_ok(200, DIR_LISTING);
    let created = files[0].metadata.created.unwrap();
    assert_eq!(created.year, 2024);
    assert_eq!(created.month, 3);
    assert_eq!(created.day, 2);
    assert_eq!(created.hour, 15);
    assert_eq!(created.minute, 44);
    assert_eq!(created.second, 46);
    assert_eq!(created.offset_minutes, 0);
    let modified = files[1].metadata.modified.unwrap();
    assert_eq!(modified.minute, 40);
    assert_eq!(modified.second, 53);
}

#[test]
fn empty_multistatus_yields_empty_list() {
    let files = parse_ok(207, r#"<D:multistatus xmlns:D="DAV:"></D:multistatus>"#);
    assert_eq!(files.len(), 0);
    let files = parse_ok(207, r#"<D:multistatus xmlns:D="DAV:"/>"#);
    assert_eq!(files.len(), 0);
}

#[test]
fn missing_optional_properties_leave_defaults() {
    let body = r#"<D:multistatus xmlns:D="DAV:">
        <D:response>
        <D:href>/only/etag</D:href>
        <D:propstat>
        <D:prop><D:getetag>"x"</D:getetag></D:prop>
        <D:status>HTTP/1.1 200 OK</D:status>
        </D:propstat>
        </D:response>
        </D:multistatus>"#;
    let files = parse_ok(207, body);
    assert_eq!(files.len(), 1);
    assert_eq!(files[0].metadata.size, 0);
    assert!(files[0].metadata.created.is_none());
    assert!(files[0].metadata.modified.is_none());
    assert_eq!(files[0].metadata.kind, FileKind::File);
}

#[test]
fn classification_follows_trailing_separator() {
    let body = r#"<D:multistatus xmlns:D="DAV:">
        <D:response>
        <D:href>/a/</D:href>
        <D:propstat><D:prop/><D:status>HTTP/1.1 200 OK</D:status></D:propstat>
        </D:response>
        <D:response>
        <D:href>/a</D:href>
        <D:propstat><D:prop/><D:status>HTTP/1.1 200 OK</D:status></D:propstat>
        </D:response>
        </D:multistatus>"#;
    let files = parse_ok(207, body);
    assert_eq!(files.len(), 2);
    assert_eq!(files[0].metadata.kind, FileKind::Directory);
    assert_eq!(files[1].metadata.kind, FileKind::File);
}

#[test]
fn failing_propstat_contributes_no_record() {
    let body = r#"<D:multistatus xmlns:D="DAV:">
        <D:response>
        <D:href>/gone</D:href>
        <D:propstat>
        <D:prop><D:getcontentlength/></D:prop>
        <D:status>HTTP/1.1 404 Not Found</D:status>
        </D:propstat>
        </D:response>
        </D:multistatus>"#;
    let files = parse_ok(207, body);
    assert_eq!(files.len(), 0);
}

#[test]
fn outer_failure_short_circuits_body() {
    let parser = ResponseParser { status_code: 401, body: DIR_LISTING.as_bytes().to_vec() };
    assert_eq!(parser.files().unwrap_err(), WebdavError::AuthenticationFailed);
    let parser = ResponseParser { status_code: 403, body: Vec::new() };
    assert_eq!(parser.files().unwrap_err(), WebdavError::AccessDenied);
    let parser = ResponseParser { status_code: 404, body: Vec::new() };
    assert_eq!(parser.files().unwrap_err(), WebdavError::NotFound);
    let parser = ResponseParser { status_code: 500, body: Vec::new() };
    assert_eq!(parser.files().unwrap_err(), WebdavError::ProtocolError);
}

#[test]
fn status_interpretation_is_total() {
    assert!(interpret_status(200).is_ok());
    assert!(interpret_status(204).is_ok());
    assert!(interpret_status(299).is_ok());
    assert_eq!(interpret_status(401).unwrap_err(), WebdavError::AuthenticationFailed);
    assert_eq!(interpret_status(403).unwrap_err(), WebdavError::AccessDenied);
    assert_eq!(interpret_status(400).unwrap_err(), WebdavError::NotFound);
    assert_eq!(interpret_status(404).unwrap_err(), WebdavError::NotFound);
    assert_eq!(interpret_status(100).unwrap_err(), WebdavError::ProtocolError);
    assert_eq!(interpret_status(301).unwrap_err(), WebdavError::ProtocolError);
    assert_eq!(interpret_status(500).unwrap_err(), WebdavError::ProtocolError);
    assert_eq!(interpret_status(0).unwrap_err(), WebdavError::ProtocolError);
}

#[test]
fn decoding_twice_yields_equal_lists() {
    let first = parse_ok(200, DIR_LISTING);
    let second = parse_ok(200, DIR_LISTING);
    assert_eq!(first, second);
}

#[test]
fn malformed_bodies_are_protocol_errors() {
    let parser = ResponseParser { status_code: 200, body: vec![0xff, 0xfe, 0x00] };
    assert_eq!(parser.files().unwrap_err(), WebdavError::ProtocolError);
    let parser = ResponseParser { status_code: 200, body: b"<unclosed".to_vec() };
    assert_eq!(parser.files().unwrap_err(), WebdavError::ProtocolError);
    let parser = ResponseParser {
        status_code: 200,
        body: b"<a><b></a></b>".to_vec(),
    };
    assert_eq!(parser.files().unwrap_err(), WebdavError::ProtocolError);
    let parser = ResponseParser {
        status_code: 200,
        body: br#"<D:other xmlns:D="DAV:"/>"#.to_vec(),
    };
    assert_eq!(parser.files().unwrap_err(), WebdavError::ProtocolError);
}

#[test]
fn status_method_interprets_outer_code() {
    let parser = ResponseParser { status_code: 201, body: Vec::new() };
    assert!(parser.status().is_ok());
    let parser = ResponseParser { status_code: 401, body: Vec::new() };
    assert_eq!(parser.status().unwrap_err(), WebdavError::AuthenticationFailed);
}

#[test]
fn status_line_parses_three_tokens() {
    let s = Status::parse(&b"HTTP/1.1 404 Not Found".to_vec()).unwrap();
    assert_eq!(s.version, b"1.1".to_vec());
    assert_eq!(s.code, 404);
    assert_eq!(s.reason, b"Not Found".to_vec());
    assert_eq!(
        Status::parse(&b"HTTP/1.1 404".to_vec()).unwrap_err(),
        DecodeError::InvalidStatusLine
    );
    assert_eq!(
        Status::parse(&b"HTTP/1.1 4o4 Not Found".to_vec()).unwrap_err(),
        DecodeError::InvalidStatusLine
    );
    assert_eq!(
        Status::parse(&b"nonsense".to_vec()).unwrap_err(),
        DecodeError::InvalidStatusLine
    );
}

#[test]
fn status_line_roundtrips_through_render() {
    let s = Status { version: b"1.1".to_vec(), code: 207, reason: b"Multi-Status".to_vec() };
    let rendered = s.render();
    assert_eq!(rendered, b"HTTP/1.1 207 Multi-Status".to_vec());
    let back = Status::parse(&rendered).unwrap();
    assert_eq!(back, s);
}

#[test]
fn rfc3339_parsing_accepts_offsets() {
    let ts = parse_rfc3339(&b"2024-03-02T15:44:46Z".to_vec()).unwrap();
    assert_eq!(ts.year, 2024);
    assert_eq!(ts.offset_minutes, 0);
    let ts = parse_rfc3339(&b"2024-03-02T15:44:46+02:30".to_vec()).unwrap();
    assert_eq!(ts.offset_minutes, 150);
    let ts = parse_rfc3339(&b"2024-03-02t15:44:46.123-01:15".to_vec()).unwrap();
    assert_eq!(ts.offset_minutes, -75);
    assert!(parse_rfc3339(&b"2024-13-02T15:44:46Z".to_vec()).is_none());
    assert!(parse_rfc3339(&b"2024-03-02 15:44:46Z".to_vec()).is_none());
    assert!(parse_rfc3339(&b"2024-03-02T15:44:46".to_vec()).is_none());
}

#[test]
fn rfc1123_parsing_reads_month_names() {
    let ts = parse_rfc1123(&b"Sat, 02 Mar 2024 15:44:46 GMT".to_vec()).unwrap();
    assert_eq!(ts.year, 2024);
    assert_eq!(ts.month, 3);
    assert_eq!(ts.day, 2);
    assert_eq!(ts.offset_minutes, 0);
    let ts = parse_rfc1123(&b"Mon, 31 Dec 2001 23:59:59 GMT".to_vec()).unwrap();
    assert_eq!(ts.month, 12);
    assert!(parse_rfc1123(&b"Sat, 02 Xxx 2024 15:44:46 GMT".to_vec()).is_none());
    assert!(parse_rfc1123(&b"Sat, 02 Mar 2024 15:44:46 UTC".to_vec()).is_none());
    assert!(parse_rfc1123(&b"02 Mar 2024 15:44:46 GMT".to_vec()).is_none());
}

#[test]
fn property_access_has_four_states() {
    let mut m = ValueMap::new();
    m.insert(qname_creationdate(), Value::Text(b"2024-03-02T15:44:46Z".to_vec()));
    m.insert(qname_getlastmodified(), Value::Empty);
    m.insert(qname_getcontentlength(), Value::Text(b"oops".to_vec()));
    let props = Properties::from_value(&Value::Children(m)).unwrap();
    match props.creationdate() {
        Some(Some(Ok(CreationDate(ts)))) => assert_eq!(ts.year, 2024),
        _ => panic!("creationdate should decode"),
    }
    match props.getlastmodified() {
        Some(None) => {},
        _ => panic!("empty property should be present-but-empty"),
    }
    match props.getcontentlength() {
        Some(Some(Err(e))) => assert_eq!(e, DecodeError::MalformedInteger),
        _ => panic!("malformed length should fail locally"),
    }
    let absent: Option<Option<Result<LastModified, DecodeError>>> =
        Properties::from_value(&Value::Empty).unwrap().get();
    assert!(absent.is_none());
}

#[test]
fn content_length_bounds_are_checked() {
    let mut m = ValueMap::new();
    m.insert(qname_getcontentlength(), Value::Text(b"18446744073709551615".to_vec()));
    let props = Properties::from_value(&Value::Children(m)).unwrap();
    match props.getcontentlength() {
        Some(Some(Ok(ContentLength(n)))) => assert_eq!(n, u64::MAX),
        _ => panic!("maximal length should decode"),
    }
    let mut m = ValueMap::new();
    m.insert(qname_getcontentlength(), Value::Text(b"18446744073709551616".to_vec()));
    let props = Properties::from_value(&Value::Children(m)).unwrap();
    match props.getcontentlength() {
        Some(Some(Err(DecodeError::MalformedInteger))) => {},
        _ => panic!("overflowing length should fail"),
    }
}

#[test]
fn resourcetype_reports_collection_marker() {
    let mut inner = ValueMap::new();
    inner.insert(qname_collection(), Value::Empty);
    let mut m = ValueMap::new();
    m.insert(qname_resourcetype(), Value::Children(inner));
    let props = Properties::from_value(&Value::Children(m)).unwrap();
    let rt: ResourceType = match props.get() {
        Some(Some(Ok(rt))) => rt,
        _ => panic!("resourcetype should decode"),
    };
    assert!(rt.is_collection());
    let plain = ResourceType::from_value(&Value::Children(ValueMap::new())).unwrap();
    assert!(!plain.is_collection());
    assert_eq!(Collection::qname(), qname_collection());
}

#[test]
fn repeated_keys_merge_into_lists() {
    let body = r#"<D:multistatus xmlns:D="DAV:">
        <D:response>
        <D:href>/r</D:href>
        <D:propstat><D:prop/><D:status>HTTP/1.1 404 Not Found</D:status></D:propstat>
        <D:propstat><D:prop><D:getcontentlength>7</D:getcontentlength></D:prop><D:status>HTTP/1.1 200 OK</D:status></D:propstat>
        </D:response>
        </D:multistatus>"#;
    let files = parse_ok(207, body);
    assert_eq!(files.len(), 1);
    assert_eq!(files[0].metadata.size, 7);
}

#[test]
fn roundtrip_encode_then_decode() {
    let ms = Multistatus {
        response: vec![
            Response::Propstat {
                href: Href(b"/x/".to_vec()),
                propstat: vec![
                    Propstat {
                        prop: Properties(ValueMap::new()),
                        status: Status {
                            version: b"1.1".to_vec(),
                            code: 200,
                            reason: b"OK".to_vec(),
                        },
                        responsedescription: None,
                    },
                    Propstat {
                        prop: Properties(ValueMap::new()),
                        status: Status {
                            version: b"1.1".to_vec(),
                            code: 404,
                            reason: b"Not Found".to_vec(),
                        },
                        responsedescription: Some(ResponseDescription(b"missing".to_vec())),
                    },
                ],
                responsedescription: None,
            },
            Response::Status {
                href: vec![Href(b"/y".to_vec()), Href(b"/z".to_vec())],
                status: Status {
                    version: b"1.1".to_vec(),
                    code: 424,
                    reason: b"Failed Dependency".to_vec(),
                },
                responsedescription: None,
            },
        ],
        responsedescription: Some(ResponseDescription(b"done".to_vec())),
    };
    let v = ms.to_value();
    let back = Multistatus::from_value(&v).unwrap();
    assert_eq!(back, ms);
}

#[test]
fn roundtrip_of_empty_multistatus() {
    let ms = Multistatus { response: Vec::new(), responsedescription: None };
    let v = ms.to_value();
    let back = Multistatus::from_value(&v).unwrap();
    assert_eq!(back, ms);
}

#[test]
fn status_only_responses_are_skipped() {
    let body = r#"<D:multistatus xmlns:D="DAV:">
        <D:response>
        <D:href>/moved</D:href>
        <D:status>HTTP/1.1 423 Locked</D:status>
        </D:response>
        <D:response>
        <D:href>/kept</D:href>
        <D:propstat><D:prop/><D:status>HTTP/1.1 200 OK</D:status></D:propstat>
        </D:response>
        </D:multistatus>"#;
    let files = parse_ok(207, body);
    assert_eq!(files.len(), 1);
    assert_eq!(files[0].path, b"/kept".to_vec());
}

#[test]
fn default_namespace_resolves_elements() {
    let body = r#"<multistatus xmlns="DAV:">
        <response>
        <href>/plain</href>
        <propstat><prop/><status>HTTP/1.1 200 OK</status></propstat>
        </response>
        </multistatus>"#;
    let files = parse_ok(207, body);
    assert_eq!(files.len(), 1);
    assert_eq!(files[0].path, b"/plain".to_vec());
}

#[test]
fn epoch_seconds_match_known_values() {
    let ts = parse_rfc3339(&b"2024-03-02T15:44:46Z".to_vec()).unwrap();
    assert_eq!(ts.epoch_seconds(), 1709394286);
    let ts = parse_rfc3339(&b"1970-01-01T00:00:00Z".to_vec()).unwrap();
    assert_eq!(ts.epoch_seconds(), 0);
    let ts = parse_rfc3339(&b"1969-12-31T23:00:00Z".to_vec()).unwrap();
    assert_eq!(ts.epoch_seconds(), -3600);
    let ts = parse_rfc3339(&b"2024-03-02T15:44:46+02:30".to_vec()).unwrap();
    assert_eq!(ts.epoch_seconds(), 1709394286 - 9000);
    let ts = parse_rfc1123(&b"Sat, 02 Mar 2024 15:44:46 GMT".to_vec()).unwrap();
    assert_eq!(ts.epoch_seconds(), 1709394286);
}

#[test]
fn entity_references_decode_in_text() {
    let body = r#"<D:multistatus xmlns:D="DAV:">
        <D:response>
        <D:href>/a&amp;b &lt;c&gt; &quot;d&apos; &unknown;</D:href>
        <D:propstat><D:prop/><D:status>HTTP/1.1 200 OK</D:status></D:propstat>
        </D:response>
        </D:multistatus>"#;
    let files = parse_ok(207, body);
    assert_eq!(files.len(), 1);
    assert_eq!(files[0].path, b"/a&b <c> \"d' &unknown;".to_vec());
}

#[test]
fn non_ascii_hrefs_survive_decoding() {
    let body = "<D:multistatus xmlns:D=\"DAV:\">\
        <D:response>\
        <D:href>/caf\u{e9}/</D:href>\
        <D:propstat><D:prop/><D:status>HTTP/1.1 200 OK</D:status></D:propstat>\
        </D:response>\
        </D:multistatus>";
    let files = parse_ok(207, body);
    assert_eq!(files.len(), 1);
    assert_eq!(files[0].path, "/caf\u{e9}/".as_bytes().to_vec());
    assert_eq!(files[0].metadata.kind, FileKind::Directory);
}
