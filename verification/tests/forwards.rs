use domeneshop_client::client::{DomeneshopClient, DomeneshopClientConfiguration};
use domeneshop_client::endpoints::forwards::HttpForward;
use domeneshop_client::errors::DomeneshopError;
use domeneshop_client::http::{HttpClient, Method, Request, Response};
use domeneshop_client::weburl::WebUrl;

struct Mock {
    expected_url: Option<&'static str>,
    expected_method: Option<Method>,
    expected_body: Option<&'static str>,
    status: u16,
    body: &'static str,
}

impl Mock {
    fn respond(status: u16, body: &'static str) -> Mock {
        Mock {
            expected_url: None,
            expected_method: None,
            expected_body: None,
            status,
            body,
        }
    }
}

impl HttpClient for Mock {
    fn execute_request(&self, request: Request) -> Result<Response, DomeneshopError> {
        if let Some(expected) = self.expected_url {
            assert_eq!(request.url, format!("https://test.local/v0{}", expected));
        }
        if let Some(method) = self.expected_method {
            assert!(request.method == method);
        }
        if let Some(expected) = self.expected_body {
            assert_eq!(request.body.as_ref().unwrap(), expected);
        }
        let mut response = Response::new(self.status);
        response.set_body(self.body.to_string());
        Ok(response)
    }
}

fn create_client(mock: Mock) -> DomeneshopClient<Mock> {
    DomeneshopClient::new(
        String::from("token"),
        String::from("secret"),
        DomeneshopClientConfiguration {
            user_agent: None,
            base_url: Some(String::from("https://test.local")),
            underlying_client: mock,
        },
    )
    .unwrap()
}

#[test]
fn find_forward_deserializes_correctly() {
    let mut mock = Mock::respond(
        200,
        "{\"host\":\"t\", \"frame\": false, \"url\": \"https://example.com\"}",
    );
    mock.expected_url = Some("/domains/3/forwards/www");
    let client = create_client(mock);

    let response = client.find_forward_by_host(3, "www".to_string()).unwrap();

    assert!(response.is_some());
}

#[test]
fn find_forward_404_returns_none() {
    let mock = Mock::respond(404, "");
    let client = create_client(mock);

    let response = client.find_forward_by_host(3, "www".to_string()).unwrap();

    assert!(response.is_none());
}

#[test]
fn list_forwards_deserializes_correctly() {
    let mut mock = Mock::respond(
        200,
        "[{\"host\":\"t\",\"frame\":false,\"url\":\"https://example.com\"}]",
    );
    mock.expected_url = Some("/domains/3/forwards");
    let client = create_client(mock);

    let response = client.list_forwards(3).unwrap();

    assert_eq!(1, response.len())
}

#[test]
fn add_forward_serializes_response_correctly() {
    let mut mock = Mock::respond(
        201,
        "{\"host\":\"www\", \"frame\": false, \"url\": \"https://example.com\"}",
    );
    mock.expected_url = Some("/domains/3/forwards");
    mock.expected_body = Some("{\"host\":\"www\",\"frame\":false,\"url\":\"https://example.com/\"}");
    let client = create_client(mock);

    let forward = HttpForward {
        frame: false,
        host: "www".to_string(),
        url: WebUrl::parse("https://example.com").unwrap(),
    };

    client.add_forward(3, forward).unwrap();
}

#[test]
fn update_forward_serializes_correctly() {
    let mut mock = Mock::respond(
        200,
        "{\"host\":\"www\", \"frame\": false, \"url\": \"https://example.com\"}",
    );
    mock.expected_url = Some("/domains/3/forwards/www");
    mock.expected_body = Some("{\"host\":\"www\",\"frame\":false,\"url\":\"https://example.com/\"}");
    let client = create_client(mock);

    let forward = HttpForward {
        frame: false,
        host: "www".to_string(),
        url: WebUrl::parse("https://example.com").unwrap(),
    };

    client.update_forward(3, forward).unwrap();
}

#[test]
fn delete_forward_succeeds() {
    let mut mock = Mock::respond(204, "");
    mock.expected_url = Some("/domains/3/forwards/www");
    mock.expected_method = Some(Method::Delete);
    let client = create_client(mock);

    client.delete_forward(3, "www".to_string()).unwrap();
}

#[test]
fn delete_forward_404_returns_err() {
    let mock = Mock::respond(404, "");
    let client = create_client(mock);

    let response = client.delete_forward(3, "www".to_string());
    assert!(response.is_err());
}

#[test]
fn find_forward_unexpected_status_reports_api_error() {
    let mock = Mock::respond(403, "{\"code\":\"forbidden\",\"help\":\"No access\"}");
    let client = create_client(mock);

    let error = client.find_forward_by_host(3, "www".to_string()).unwrap_err();
    assert_eq!(error.code(), "forbidden");
    assert_eq!(error.help(), "No access");
}
