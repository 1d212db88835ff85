use domeneshop_client::client::{
    create_basic_auth_header, DomeneshopClient, DomeneshopClientConfiguration,
};
use domeneshop_client::errors::DomeneshopError;
use domeneshop_client::http::{HttpClient, Method, Request, Response};
use domeneshop_client::text::{strip_leading_slash, strip_trailing_slash};

struct HeaderCheck {
    expected_header: &'static str,
    expected_value: &'static str,
}

impl HttpClient for HeaderCheck {
    fn execute_request(&self, request: Request) -> Result<Response, DomeneshopError> {
        let value = request.header(self.expected_header).unwrap();
        assert_eq!(value, self.expected_value);
        Ok(Response::new(200))
    }
}

fn create_client(mock: HeaderCheck) -> DomeneshopClient<HeaderCheck> {
    DomeneshopClient::new(
        String::from("token"),
        String::from("secret"),
        DomeneshopClientConfiguration {
            user_agent: None,
            base_url: None,
            underlying_client: mock,
        },
    )
    .unwrap()
}

#[test]
fn create_basic_auth_header_creates_valid_header() {
    let token = String::from("token");
    let secret = String::from("secret");
    let result = create_basic_auth_header(token, secret);

    assert_eq!(result, "Basic dG9rZW46c2VjcmV0");
}

#[test]
fn create_url_creates_valid_absolute_urls() {
    let client = create_client(HeaderCheck { expected_header: "", expected_value: "" });

    let url = client.create_url("/test").unwrap();
    let url2 = client.create_url("test").unwrap();

    assert_eq!(url.as_str(), "https://api.domeneshop.no/v0/test");
    assert_eq!(url2.as_str(), "https://api.domeneshop.no/v0/test");
}

#[test]
fn strip_trailing_slash_strips_correctly() {
    assert_eq!(strip_trailing_slash(""), "");
    assert_eq!(strip_trailing_slash("/"), "");
    assert_eq!(strip_trailing_slash("/a"), "/a");
    assert_eq!(strip_trailing_slash("/a/"), "/a");
    assert_eq!(strip_trailing_slash("/a/b/"), "/a/b");
}

#[test]
fn strip_leading_slash_strips_correctly() {
    assert_eq!(strip_leading_slash(""), "");
    assert_eq!(strip_leading_slash("/"), "");
    assert_eq!(strip_leading_slash("/a"), "a");
    assert_eq!(strip_leading_slash("/a/"), "a/");
    assert_eq!(strip_leading_slash("/a/b/"), "a/b/");
}

#[test]
fn create_url_with_parameters_creates_valid_absolute_urls() {
    let client = create_client(HeaderCheck { expected_header: "", expected_value: "" });

    let params = vec![(String::from("test"), String::from("val"))];
    let url = client.create_url_with_parameters("/test", &params).unwrap();
    let params2 = vec![
        (String::from("test"), String::from("val")),
        (String::from("test2"), String::from("val2")),
    ];
    let url2 = client.create_url_with_parameters("test", &params2).unwrap();

    assert_eq!(url.as_str(), "https://api.domeneshop.no/v0/test?test=val");
    assert_eq!(url2.as_str(), "https://api.domeneshop.no/v0/test?test=val&test2=val2");
}

#[test]
fn create_url_with_no_parameters_leaves_query_absent() {
    let client = create_client(HeaderCheck { expected_header: "", expected_value: "" });

    let params: Vec<(String, String)> = Vec::new();
    let url = client.create_url_with_parameters("/test", &params).unwrap();

    assert_eq!(url.as_str(), "https://api.domeneshop.no/v0/test");
}

#[test]
fn create_url_strips_trailing_slash_of_base() {
    let client = DomeneshopClient::new(
        String::from("token"),
        String::from("secret"),
        DomeneshopClientConfiguration {
            user_agent: None,
            base_url: Some(String::from("https://test.local/")),
            underlying_client: HeaderCheck { expected_header: "", expected_value: "" },
        },
    )
    .unwrap();

    let url = client.create_url("/test").unwrap();
    assert_eq!(url.as_str(), "https://test.local/v0/test");
}

#[test]
fn create_url_with_invalid_base_fails_as_infrastructure_error() {
    let client = DomeneshopClient::new(
        String::from("token"),
        String::from("secret"),
        DomeneshopClientConfiguration {
            user_agent: None,
            base_url: Some(String::from("not a url")),
            underlying_client: HeaderCheck { expected_header: "", expected_value: "" },
        },
    )
    .unwrap();

    let result = client.create_url("/test");
    let error = result.unwrap_err();
    assert_eq!(error.code(), "InfrastructureError");
}

struct Unreachable;

impl HttpClient for Unreachable {
    fn execute_request(&self, _request: Request) -> Result<Response, DomeneshopError> {
        unreachable!("the transport must not be reached");
    }
}

#[test]
fn operations_fail_before_sending_when_the_base_does_not_parse() {
    let client = DomeneshopClient::new(
        String::from("token"),
        String::from("secret"),
        DomeneshopClientConfiguration {
            user_agent: None,
            base_url: Some(String::from("not a url")),
            underlying_client: Unreachable,
        },
    )
    .unwrap();

    let error = client.update_dyndns("example.com", None).unwrap_err();
    assert_eq!(error.code(), "InfrastructureError");
    let error = client.get_invoice(2).unwrap_err();
    assert_eq!(error.code(), "InfrastructureError");
    let error = client.list_dns_records(3).unwrap_err();
    assert_eq!(error.code(), "InfrastructureError");
    let error = client.delete_forward(3, "www".to_string()).unwrap_err();
    assert_eq!(error.code(), "InfrastructureError");
}

#[test]
fn send_adds_auth_header() {
    let mock = HeaderCheck {
        expected_header: "Authorization",
        expected_value: "Basic dG9rZW46c2VjcmV0",
    };
    let client = create_client(mock);

    let request = Request::new(
        Method::Get,
        String::from("https://api.domeneshop.no/v0/test"),
    );
    client.send(request).unwrap();
}

#[test]
fn send_adds_useragent_header() {
    const USER_AGENT: &str = "testagent";
    let mock = HeaderCheck { expected_header: "User-Agent", expected_value: USER_AGENT };
    let client = DomeneshopClient::new(
        String::from("token"),
        String::from("secret"),
        DomeneshopClientConfiguration {
            user_agent: Some(USER_AGENT.to_string()),
            base_url: None,
            underlying_client: mock,
        },
    )
    .unwrap();

    let request = Request::new(
        Method::Get,
        String::from("https://api.domeneshop.no/v0/test"),
    );
    client.send(request).unwrap();
}

#[test]
fn send_overrides_preset_standard_headers() {
    let mock = HeaderCheck {
        expected_header: "Authorization",
        expected_value: "Basic dG9rZW46c2VjcmV0",
    };
    let client = create_client(mock);

    let mut request = Request::new(
        Method::Get,
        String::from("https://api.domeneshop.no/v0/test"),
    );
    request.insert_header("authorization", "Basic somethingelse");
    client.send(request).unwrap();
}
