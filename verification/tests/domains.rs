use domeneshop_client::client::{DomeneshopClient, DomeneshopClientConfiguration};
use domeneshop_client::date::Date;
use domeneshop_client::endpoints::domains::{DomainStatus, WebhotelType};
use domeneshop_client::errors::DomeneshopError;
use domeneshop_client::http::{HttpClient, Request, Response};

struct Mock {
    expected_url: Option<&'static str>,
    status: u16,
    body: &'static str,
}

impl HttpClient for Mock {
    fn execute_request(&self, request: Request) -> Result<Response, DomeneshopError> {
        if let Some(expected) = self.expected_url {
            assert_eq!(request.url, format!("https://test.local/v0{}", expected));
        }
        let mut response = Response::new(self.status);
        response.set_body(self.body.to_string());
        Ok(response)
    }
}

fn create_client(mock: Mock) -> DomeneshopClient<Mock> {
    DomeneshopClient::new(
        String::from("token"),
        String::from("secret"),
        DomeneshopClientConfiguration {
            user_agent: None,
            base_url: Some(String::from("https://test.local")),
            underlying_client: mock,
        },
    )
    .unwrap()
}

#[test]
fn get_domain_formats_url_correctly() {
    let mock = Mock {
        expected_url: Some("/domains/3"),
        status: 200,
        body: "{ \"domain\": \"d\", \"registrant\": \"d\", \"status\": \"active\", \"expiry_date\": \"2023-04-05\", \"id\": 3, \"renew\": false, \"nameservers\": [], \"services\": { \"registrar\": false, \"dns\": false, \"email\": false, \"webhotel\": \"none\" } }",
    };
    let client = create_client(mock);

    let response = client.get_domain(3).unwrap();

    assert_eq!(3, response.id)
}

#[test]
fn list_domains_with_filter_adds_correct_query_parameter() {
    let mock = Mock { expected_url: Some("/domains?domain=.no"), status: 200, body: "[]" };
    let client = create_client(mock);

    let _ = client.list_domains_with_filter(".no").unwrap();
}

#[test]
fn get_domain_decodes_every_field() {
    let mock = Mock {
        expected_url: None,
        status: 200,
        body: "{\"domain\":\"example.no\",\"registrant\":\"Example Person\",\"status\":\"pendingDeleteRestorable\",\"expiry_date\":\"2024-02-29\",\"registered_date\":\"2019-08-24\",\"id\":7,\"renew\":true,\"nameservers\":[\"ns1.hyp.net\",\"ns2.hyp.net\"],\"services\":{\"registrar\":true,\"dns\":true,\"email\":false,\"webhotel\":\"webXLarge\"}}",
    };
    let client = create_client(mock);

    let domain = client.get_domain(7).unwrap();
    assert_eq!(domain.id, 7);
    assert_eq!(domain.domain, "example.no");
    assert_eq!(domain.registrant, "Example Person");
    assert!(domain.status == DomainStatus::PendingDeleteRestorable);
    assert_eq!(domain.expiry_date, Date { year: 2024, month: 2, day: 29 });
    assert_eq!(domain.registered_date, Some(Date { year: 2019, month: 8, day: 24 }));
    assert!(domain.renew);
    assert_eq!(domain.nameservers, vec!["ns1.hyp.net".to_string(), "ns2.hyp.net".to_string()]);
    assert!(domain.services.registrar);
    assert!(domain.services.dns);
    assert!(!domain.services.email);
    assert!(domain.services.webhotel == WebhotelType::WebXLarge);
}

#[test]
fn get_domain_with_missing_registered_date_decodes_to_none() {
    let mock = Mock {
        expected_url: None,
        status: 200,
        body: "{ \"domain\": \"d\", \"registrant\": \"d\", \"status\": \"expired\", \"expiry_date\": \"2023-04-05\", \"id\": 3, \"renew\": false, \"nameservers\": [], \"services\": { \"registrar\": false, \"dns\": false, \"email\": false, \"webhotel\": \"none\" } }",
    };
    let client = create_client(mock);

    let domain = client.get_domain(3).unwrap();
    assert!(domain.registered_date.is_none());
    assert!(domain.status == DomainStatus::Expired);
    assert!(domain.services.webhotel == WebhotelType::NoWebhotel);
}

#[test]
fn get_domain_with_impossible_date_fails_as_infrastructure_error() {
    let mock = Mock {
        expected_url: None,
        status: 200,
        body: "{ \"domain\": \"d\", \"registrant\": \"d\", \"status\": \"active\", \"expiry_date\": \"2023-02-30\", \"id\": 3, \"renew\": false, \"nameservers\": [], \"services\": { \"registrar\": false, \"dns\": false, \"email\": false, \"webhotel\": \"none\" } }",
    };
    let client = create_client(mock);

    let error = client.get_domain(3).unwrap_err();
    assert_eq!(error.code(), "InfrastructureError");
}
