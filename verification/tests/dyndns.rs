use domeneshop_client::client::{DomeneshopClient, DomeneshopClientConfiguration};
use domeneshop_client::errors::DomeneshopError;
use domeneshop_client::http::{HttpClient, Request, Response};

struct Mock {
    expected_url: &'static str,
}

impl HttpClient for Mock {
    fn execute_request(&self, request: Request) -> Result<Response, DomeneshopError> {
        assert_eq!(request.url, format!("https://test.local/v0{}", self.expected_url));
        Ok(Response::new(204))
    }
}

fn create_client(mock: Mock) -> DomeneshopClient<Mock> {
    DomeneshopClient::new(
        String::from("token"),
        String::from("secret"),
        DomeneshopClientConfiguration {
            user_agent: None,
            base_url: Some(String::from("https://test.local")),
            underlying_client: mock,
        },
    )
    .unwrap()
}

#[test]
fn update_dyndns_creates_correct_url() {
    let client = create_client(Mock { expected_url: "/dyndns/update?hostname=example.com" });

    client.update_dyndns("example.com", None).unwrap();
}

#[test]
fn update_dyndns_ipv4_address_is_set_correctly() {
    let client = create_client(
        Mock { expected_url: "/dyndns/update?hostname=example.com&myip=192.168.0.1" },
    );

    client
        .update_dyndns("example.com", Some("192.168.0.1".to_string()))
        .unwrap();
}

#[test]
fn update_dyndns_ipv6_address_is_set_correctly() {
    let client = create_client(
        Mock {
            expected_url: "/dyndns/update?hostname=example.com&myip=2001%3A4860%3A4860%3A%3A8888",
        },
    );

    client
        .update_dyndns("example.com", Some("2001:4860:4860::8888".to_string()))
        .unwrap();
}
