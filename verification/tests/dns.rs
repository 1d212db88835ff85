use domeneshop_client::client::{DomeneshopClient, DomeneshopClientConfiguration};
use domeneshop_client::codec::{JsonEncode, JsonPayload};
use domeneshop_client::endpoints::dns::{
    CNAMERecordData, DnsRecordData, DnsType, ExistingDnsRecord, MXRecordData, SRVRecordData,
};
use domeneshop_client::errors::DomeneshopError;
use domeneshop_client::http::{HttpClient, Method, Request, Response};
use domeneshop_client::json::write_json;
use domeneshop_client::parse::parse_json;

struct Mock {
    expected_url: Option<&'static str>,
    expected_method: Option<Method>,
    expected_body: Option<&'static str>,
    status: u16,
    headers: Vec<(&'static str, &'static str)>,
    body: &'static str,
}

impl Mock {
    fn respond(status: u16, body: &'static str) -> Mock {
        Mock {
            expected_url: None,
            expected_method: None,
            expected_body: None,
            status,
            headers: Vec::new(),
            body,
        }
    }
}

impl HttpClient for Mock {
    fn execute_request(&self, request: Request) -> Result<Response, DomeneshopError> {
        if let Some(expected) = self.expected_url {
            assert_eq!(request.url, format!("https://test.local/v0{}", expected));
        }
        if let Some(method) = self.expected_method {
            assert!(request.method == method);
        }
        if let Some(expected) = self.expected_body {
            assert_eq!(request.body.as_ref().unwrap(), expected);
        }
        let mut response = Response::new(self.status);
        for (name, value) in &self.headers {
            response.append_header(name, value);
        }
        response.set_body(self.body.to_string());
        Ok(response)
    }
}

fn create_client(mock: Mock) -> DomeneshopClient<Mock> {
    DomeneshopClient::new(
        String::from("token"),
        String::from("secret"),
        DomeneshopClientConfiguration {
            user_agent: None,
            base_url: Some(String::from("https://test.local")),
            underlying_client: mock,
        },
    )
    .unwrap()
}

#[test]
fn get_dns_deserializes_correctly() {
    let mut mock = Mock::respond(
        200,
        "{\"id\": 2, \"host\":\"t\", \"ttl\": 1, \"type\": \"A\", \"data\": \"a\"}",
    );
    mock.expected_url = Some("/domains/3/dns/2");
    let client = create_client(mock);

    let response = client.get_dns_record(3, 2).unwrap();
    assert_eq!(2, response.id);
    match response.data {
        DnsRecordData::A(_) => {},
        _ => panic!("Wrong record type"),
    }
}

#[test]
fn list_dns_formats_url_correctly() {
    let mut mock = Mock::respond(200, "[]");
    mock.expected_url = Some("/domains/3/dns");
    let client = create_client(mock);

    let response = client.list_dns_records(3).unwrap();

    assert_eq!(0, response.len())
}

#[test]
fn list_dns_with_host_filter_formats_url_correctly() {
    let mut mock = Mock::respond(200, "[]");
    mock.expected_url = Some("/domains/3/dns?host=test");
    let client = create_client(mock);

    client
        .list_dns_records_with_filter(3, Some(String::from("test")), None)
        .unwrap();
}

#[test]
fn list_dns_with_type_filter_formats_url_correctly() {
    let mut mock = Mock::respond(200, "[]");
    mock.expected_url = Some("/domains/3/dns?type=SRV");
    let client = create_client(mock);

    client
        .list_dns_records_with_filter(3, None, Some(DnsType::SRV))
        .unwrap();
}

#[test]
fn list_dns_with_both_filters_formats_url_correctly() {
    let mut mock = Mock::respond(200, "[]");
    mock.expected_url = Some("/domains/3/dns?host=test&type=SRV");
    let client = create_client(mock);

    client
        .list_dns_records_with_filter(3, Some(String::from("test")), Some(DnsType::SRV))
        .unwrap();
}

#[test]
fn list_dns_deserializes_a_record_correctly() {
    let mock = Mock::respond(
        200,
        "[{\"id\": 1, \"host\":\"t\", \"ttl\": 1, \"type\": \"A\", \"data\": \"a\"}]",
    );
    let client = create_client(mock);

    let response = client.list_dns_records(3).unwrap();
    let record = response.first().unwrap();
    match record.data {
        DnsRecordData::A(_) => {},
        _ => panic!("Wrong record type"),
    }
}

#[test]
fn list_dns_deserializes_aaaa_record_correctly() {
    let mock = Mock::respond(
        200,
        "[{\"id\": 1, \"host\":\"t\", \"ttl\": 1, \"type\": \"AAAA\", \"data\": \"a\"}]",
    );
    let client = create_client(mock);

    let response = client.list_dns_records(3).unwrap();
    let record = response.first().unwrap();
    match record.data {
        DnsRecordData::AAAA(_) => {},
        _ => panic!("Wrong record type"),
    }
}

#[test]
fn list_dns_deserializes_cname_record_correctly() {
    let mock = Mock::respond(
        200,
        "[{\"id\": 1, \"host\":\"t\", \"ttl\": 1, \"type\": \"CNAME\", \"data\": \"a\"}]",
    );
    let client = create_client(mock);

    let response = client.list_dns_records(3).unwrap();
    let record = response.first().unwrap();
    match record.data {
        DnsRecordData::CNAME(_) => {},
        _ => panic!("Wrong record type"),
    }
}

#[test]
fn list_dns_deserializes_mx_record_correctly() {
    let mock = Mock::respond(
        200,
        "[{\"id\": 1, \"host\":\"t\", \"ttl\": 1, \"type\": \"MX\", \"data\": \"a\", \"priority\": 1}]",
    );
    let client = create_client(mock);

    let response = client.list_dns_records(3).unwrap();
    let record = response.first().unwrap();
    match record.data {
        DnsRecordData::MX(_) => {},
        _ => panic!("Wrong record type"),
    }
}

#[test]
fn list_dns_deserializes_srv_record_correctly() {
    let mock = Mock::respond(
        200,
        "[{\"id\": 1, \"host\":\"t\", \"ttl\": 1, \"type\": \"SRV\", \"data\": \"a\", \"priority\": 1, \"weight\": 1, \"port\": 1}]",
    );
    let client = create_client(mock);

    let response = client.list_dns_records(3).unwrap();
    let record = response.first().unwrap();
    match record.data {
        DnsRecordData::SRV(_) => {},
        _ => panic!("Wrong record type"),
    }
}

#[test]
fn list_dns_deserializes_txt_record_correctly() {
    let mock = Mock::respond(
        200,
        "[{\"id\": 1, \"host\":\"t\", \"ttl\": 1, \"type\": \"TXT\", \"data\": \"a\"}]",
    );
    let client = create_client(mock);

    let response = client.list_dns_records(3).unwrap();
    let record = response.first().unwrap();
    match record.data {
        DnsRecordData::TXT(_) => {},
        _ => panic!("Wrong record type"),
    }
}

#[test]
fn add_dns_serializes_response_correctly() {
    let mut mock = Mock::respond(201, "{\"id\": 5}");
    mock.expected_url = Some("/domains/3/dns");
    mock.expected_body = Some("{\"type\":\"CNAME\",\"host\":\"t\",\"ttl\":1,\"data\":\"a\"}");
    let client = create_client(mock);

    let record = DnsRecordData::CNAME(CNAMERecordData {
        host: "t".to_string(),
        ttl: 1,
        data: "a".to_string(),
    });

    let response = client.add_dns_record(3, record).unwrap();
    assert_eq!(response.id, 5);
}

#[test]
fn add_dns_gets_url_from_location_header() {
    let mut mock = Mock::respond(201, "{\"id\": 5}");
    mock.headers.push(("Location", "https://example.com"));
    let client = create_client(mock);

    let record = DnsRecordData::CNAME(CNAMERecordData {
        host: "t".to_string(),
        ttl: 1,
        data: "a".to_string(),
    });

    let response = client.add_dns_record(3, record).unwrap();
    assert_eq!(response.url.unwrap().as_str(), "https://example.com/");
}

#[test]
fn add_dns_invalid_url_in_location_header_results_in_none() {
    let mut mock = Mock::respond(201, "{\"id\": 5}");
    mock.headers.push(("Location", "relative/url"));
    let client = create_client(mock);

    let record = DnsRecordData::CNAME(CNAMERecordData {
        host: "t".to_string(),
        ttl: 1,
        data: "a".to_string(),
    });

    let response = client.add_dns_record(3, record).unwrap();
    assert!(response.url.is_none())
}

#[test]
fn add_dns_missing_location_header_results_in_none_url() {
    let mock = Mock::respond(201, "{\"id\": 5}");
    let client = create_client(mock);

    let record = DnsRecordData::CNAME(CNAMERecordData {
        host: "t".to_string(),
        ttl: 1,
        data: "a".to_string(),
    });

    let response = client.add_dns_record(3, record).unwrap();
    assert!(response.url.is_none());
}

#[test]
fn update_dns_serializes_correctly() {
    let mut mock = Mock::respond(204, "");
    mock.expected_url = Some("/domains/3/dns/1");
    mock.expected_body = Some("{\"type\":\"CNAME\",\"host\":\"t\",\"ttl\":1,\"data\":\"a\"}");
    let client = create_client(mock);

    let record = ExistingDnsRecord {
        id: 1,
        data: DnsRecordData::CNAME(CNAMERecordData {
            host: "t".to_string(),
            ttl: 1,
            data: "a".to_string(),
        }),
    };

    client.update_dns_record(3, record).unwrap();
}

#[test]
fn add_dns_unexpected_success_status_is_reported() {
    let mock = Mock::respond(200, "{\"id\": 5}");
    let client = create_client(mock);

    let record = DnsRecordData::CNAME(CNAMERecordData {
        host: "t".to_string(),
        ttl: 1,
        data: "a".to_string(),
    });

    let error = client.add_dns_record(3, record).unwrap_err();
    assert_eq!(error.code(), "UnexpectedStatus");
    assert_eq!(error.help(), "Encountered unexpected response status 200");
}

#[test]
fn delete_dns_succeeds_on_no_content() {
    let mut mock = Mock::respond(204, "");
    mock.expected_url = Some("/domains/3/dns/2");
    mock.expected_method = Some(Method::Delete);
    let client = create_client(mock);

    client.delete_dns_record(3, 2).unwrap();
}

#[test]
fn dns_record_round_trips_through_json_text() {
    let record = DnsRecordData::CNAME(CNAMERecordData {
        host: "t".to_string(),
        ttl: 1,
        data: "a".to_string(),
    });

    let text = write_json(&record.encode_json());
    assert_eq!(text, "{\"type\":\"CNAME\",\"host\":\"t\",\"ttl\":1,\"data\":\"a\"}");

    let value = parse_json(text.as_str()).unwrap();
    let decoded = DnsRecordData::decode_json(&value).unwrap();
    assert!(decoded == record);
}

#[test]
fn dns_record_with_every_field_round_trips() {
    let record = DnsRecordData::SRV(SRVRecordData {
        host: "_sip._tcp".to_string(),
        ttl: 3600,
        data: "sip.example.com.".to_string(),
        priority: 10,
        weight: 60,
        port: 5060,
    });

    let text = write_json(&record.encode_json());
    let value = parse_json(text.as_str()).unwrap();
    let decoded = DnsRecordData::decode_json(&value).unwrap();
    assert!(decoded == record);

    let mx = DnsRecordData::MX(MXRecordData {
        host: "@".to_string(),
        ttl: 300,
        data: "mail.example.com.".to_string(),
        priority: 5,
    });
    let mx_text = write_json(&mx.encode_json());
    let mx_value = parse_json(mx_text.as_str()).unwrap();
    let mx_decoded = DnsRecordData::decode_json(&mx_value).unwrap();
    assert!(mx_decoded == mx);
}
