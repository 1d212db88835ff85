use domeneshop_client::client::{DomeneshopClient, DomeneshopClientConfiguration};
use domeneshop_client::endpoints::invoices::{InvoiceCurrency, InvoiceStatus, InvoiceType};
use domeneshop_client::errors::DomeneshopError;
use domeneshop_client::http::{HttpClient, MockClient, Request, Response};

struct Mock {
    expected_url: Option<&'static str>,
    status: u16,
    body: &'static str,
}

impl HttpClient for Mock {
    fn execute_request(&self, request: Request) -> Result<Response, DomeneshopError> {
        if let Some(expected) = self.expected_url {
            assert_eq!(request.url, format!("https://test.local/v0{}", expected));
        }
        let mut response = Response::new(self.status);
        response.set_body(self.body.to_string());
        Ok(response)
    }
}

fn create_client(mock: Mock) -> DomeneshopClient<Mock> {
    DomeneshopClient::new(
        String::from("token"),
        String::from("secret"),
        DomeneshopClientConfiguration {
            user_agent: None,
            base_url: Some(String::from("https://test.local")),
            underlying_client: mock,
        },
    )
    .unwrap()
}

#[test]
fn invoice_status_displayed_correctly() {
    assert_eq!("paid", InvoiceStatus::Paid.text());
    assert_eq!("settled", InvoiceStatus::Settled.text());
    assert_eq!("unpaid", InvoiceStatus::Unpaid.text());
}

#[test]
fn list_invoices_with_status_adds_correct_query_parameter() {
    let mock = Mock { expected_url: Some("/invoices?status=paid"), status: 200, body: "[]" };
    let client = create_client(mock);

    let _ = client.list_invoices_with_status(InvoiceStatus::Paid).unwrap();
}

#[test]
fn find_invoice_by_number_serializes_correctly() {
    let mock = Mock {
        expected_url: Some("/invoices/2"),
        status: 200,
        body: "{\r\n\r\n    \"id\": 1,    \"type\": \"invoice\",    \"amount\": 120,   \"currency\": \"NOK\",   \"due_date\": \"2019-08-24\",   \"issued_date\": \"2019-08-24\",    \"paid_date\": \"2019-08-24\",   \"status\": \"paid\",    \"url\": \"https://www.domeneshop.no/invoice?nr=1&code=\"}",
    };
    let client = create_client(mock);

    let response = client.get_invoice(2).unwrap();

    assert!(response.is_some());
}

#[test]
fn find_invoice_by_number_404_returns_none() {
    let mut not_found = Response::new(404);
    not_found.set_body(String::new());
    let mock = MockClient { response: Ok(not_found) };
    let client = DomeneshopClient::new(
        String::from("token"),
        String::from("secret"),
        DomeneshopClientConfiguration {
            user_agent: None,
            base_url: Some(String::from("https://test.local")),
            underlying_client: mock,
        },
    )
    .unwrap();

    let response = client.get_invoice(2).unwrap();

    assert!(response.is_none());
}

#[test]
fn invoice_fields_decode_to_their_wire_values() {
    let mock = Mock {
        expected_url: None,
        status: 200,
        body: "{\"id\": 1, \"type\": \"invoice\", \"amount\": 120, \"currency\": \"NOK\", \"due_date\": \"2019-08-24\", \"issued_date\": \"2019-08-01\", \"status\": \"paid\", \"url\": \"https://example.com/invoice\"}",
    };
    let client = create_client(mock);

    let invoice = client.get_invoice(1).unwrap().unwrap();
    assert_eq!(invoice.id, 1);
    assert!(invoice.invoice_type == InvoiceType::Invoice);
    assert_eq!(invoice.amount, 120);
    assert!(invoice.currency == InvoiceCurrency::NOK);
    assert_eq!(invoice.due_date.unwrap().day, 24);
    assert_eq!(invoice.issued_date.month, 8);
    assert!(invoice.paid_date.is_none());
    assert!(invoice.status == InvoiceStatus::Paid);
    assert_eq!(invoice.url, "https://example.com/invoice");
}

#[test]
fn unparseable_error_body_keeps_the_context_text() {
    let mock = Mock { expected_url: None, status: 500, body: "not json at all" };
    let client = create_client(mock);

    let error = client.get_invoice(2).unwrap_err();
    assert_eq!(error.code(), "InfrastructureError");
    assert!(error.help().contains("Failed to deserialize error response"));
}

#[test]
fn structured_error_body_is_surfaced_verbatim() {
    let mock = Mock {
        expected_url: None,
        status: 402,
        body: "{\"code\":\"payment:required\",\"help\":\"The invoice is unpaid\"}",
    };
    let client = create_client(mock);

    let error = client.get_invoice(2).unwrap_err();
    assert_eq!(error.code(), "payment:required");
    assert_eq!(error.help(), "The invoice is unpaid");
}
