use borui::models::client::{Client, ClientStatus};
use borui::webhook::{
    build_json_payload, build_template_data, prepare_webhook, render_custom_template,
    retry_decision, simulate_delivery, validate_webhook_url, AttemptOutcome, RetryDecision,
    WebhookError, WebhookEvent,
};

fn sample_client() -> Client {
    Client {
        id: 1,
        name: "web".to_string(),
        description: None,
        local_host: "127.0.0.1".to_string(),
        local_port: 8080,
        remote_server: "tunnel.example.com".to_string(),
        remote_port: 0,
        assigned_port: Some(45000),
        secret: None,
        status: ClientStatus::Connected,
        auto_start: false,
        webhook_url: Some("https://example.com/hook".to_string()),
        webhook_format: "json".to_string(),
        webhook_template: None,
        created_at: "2024-01-01T00:00:00Z".to_string(),
        updated_at: "2024-01-01T00:00:00Z".to_string(),
        last_connected_at: None,
        error_message: None,
    }
}

#[test]
fn url_validation_rejects_internal_destinations() {
    assert_eq!(
        validate_webhook_url("http://127.0.0.1/hook"),
        Err(WebhookError::UrlPrivateAddress)
    );
    assert_eq!(
        validate_webhook_url("http://localhost/hook"),
        Err(WebhookError::UrlInternalHost)
    );
    assert_eq!(
        validate_webhook_url("http://10.0.0.5/hook"),
        Err(WebhookError::UrlPrivateAddress)
    );
    assert_eq!(
        validate_webhook_url("ftp://example.com/hook"),
        Err(WebhookError::UrlScheme)
    );
    assert_eq!(validate_webhook_url("https://example.com/hook"), Ok(()));
}

#[test]
fn url_validation_covers_address_ranges_and_suffixes() {
    assert_eq!(
        validate_webhook_url("http://192.168.1.10/hook"),
        Err(WebhookError::UrlPrivateAddress)
    );
    assert_eq!(
        validate_webhook_url("http://172.16.0.1/hook"),
        Err(WebhookError::UrlPrivateAddress)
    );
    assert_eq!(
        validate_webhook_url("http://169.254.0.1/hook"),
        Err(WebhookError::UrlPrivateAddress)
    );
    assert_eq!(
        validate_webhook_url("http://0.0.0.0/hook"),
        Err(WebhookError::UrlPrivateAddress)
    );
    assert_eq!(
        validate_webhook_url("http://192.0.2.1/hook"),
        Err(WebhookError::UrlPrivateAddress)
    );
    assert_eq!(
        validate_webhook_url("https://db.internal/hook"),
        Err(WebhookError::UrlInternalHost)
    );
    assert_eq!(
        validate_webhook_url("https://printer.local/hook"),
        Err(WebhookError::UrlInternalHost)
    );
    assert_eq!(validate_webhook_url("not a url"), Err(WebhookError::UrlParse));
    // The scheme is matched after normalization to lower case.
    assert_eq!(validate_webhook_url("HTTPS://example.com/hook"), Ok(()));
    // 172.32.x.x is outside the private block.
    assert_eq!(validate_webhook_url("http://172.32.0.1/hook"), Ok(()));
}

#[test]
fn json_payload_exact_text_for_connected() {
    let client = sample_client();
    let body = build_json_payload(
        &WebhookEvent::Connected,
        &client,
        None,
        "2024-06-01T12:00:00+00:00",
    );
    let expected = "{\"assigned_port\":45000,\"client_id\":1,\"client_name\":\"web\",\"event\":\"client.connected\",\"local_host\":\"127.0.0.1\",\"local_port\":8080,\"remote_server\":\"tunnel.example.com\",\"timestamp\":\"2024-06-01T12:00:00+00:00\"}";
    assert_eq!(body, expected);
    // The payload is exactly what the JSON serializer would produce.
    let parsed: serde_json::Value = serde_json::from_str(&body).unwrap();
    assert_eq!(serde_json::to_string(&parsed).unwrap(), body);
    assert_eq!(parsed["assigned_port"], serde_json::Value::from(45000));
}

#[test]
fn json_payload_exact_text_for_disconnected() {
    let mut client = sample_client();
    client.description = Some("edge \"prod\"\n".to_string());
    let body = build_json_payload(
        &WebhookEvent::Disconnected,
        &client,
        Some(3600),
        "2024-06-01T13:00:00+00:00",
    );
    let expected = "{\"client_id\":1,\"client_name\":\"web\",\"description\":\"edge \\\"prod\\\"\\n\",\"event\":\"client.disconnected\",\"timestamp\":\"2024-06-01T13:00:00+00:00\",\"uptime_seconds\":3600}";
    assert_eq!(body, expected);
    let parsed: serde_json::Value = serde_json::from_str(&body).unwrap();
    assert_eq!(serde_json::to_string(&parsed).unwrap(), body);
    assert_eq!(parsed["description"], serde_json::Value::from("edge \"prod\"\n"));
}

#[test]
fn template_rendering_uses_the_field_set() {
    let mut client = sample_client();
    client.webhook_format = "custom".to_string();
    client.webhook_template =
        Some("{{client_name}} is {{event}} on port {{assigned_port}}".to_string());
    let body = render_custom_template(
        &WebhookEvent::Connected,
        &client,
        None,
        "2024-06-01T12:00:00+00:00",
    )
    .expect("rendered");
    assert_eq!(body, "web is connected on port 45000");
}

#[test]
fn template_mode_without_template_is_a_configuration_error() {
    let mut client = sample_client();
    client.webhook_format = "custom".to_string();
    client.webhook_template = None;
    assert_eq!(
        render_custom_template(&WebhookEvent::Connected, &client, None, "t"),
        Err(WebhookError::MissingTemplate)
    );
    assert_eq!(
        prepare_webhook(
            "https://example.com/hook",
            &WebhookEvent::Connected,
            &client,
            None,
            "t"
        )
        .unwrap_err(),
        WebhookError::MissingTemplate
    );
}

#[test]
fn malformed_template_fails_rendering() {
    let mut client = sample_client();
    client.webhook_format = "custom".to_string();
    client.webhook_template = Some("{{#if}".to_string());
    assert_eq!(
        render_custom_template(&WebhookEvent::Connected, &client, None, "t"),
        Err(WebhookError::TemplateRender)
    );
}

#[test]
fn prepare_webhook_picks_body_and_content_type() {
    let client = sample_client();
    let req = prepare_webhook(
        "https://example.com/hook",
        &WebhookEvent::Connected,
        &client,
        None,
        "2024-06-01T12:00:00+00:00",
    )
    .expect("prepared");
    assert_eq!(req.content_type, "application/json");
    assert!(req.body.starts_with("{\"assigned_port\":45000,"));

    let mut custom = sample_client();
    custom.webhook_format = "custom".to_string();
    custom.webhook_template = Some("event={{event}}".to_string());
    let req = prepare_webhook(
        "https://example.com/hook",
        &WebhookEvent::Disconnected,
        &custom,
        Some(60),
        "t",
    )
    .expect("prepared");
    assert_eq!(req.content_type, "text/plain");
    assert_eq!(req.body, "event=disconnected");
    // Template data carries the plain event name, the JSON envelope the
    // prefixed one.
    let data = build_template_data(&WebhookEvent::Disconnected, &custom, Some(60), "t");
    assert!(data.contains("\"event\":\"disconnected\""));

    assert_eq!(
        prepare_webhook(
            "http://127.0.0.1/hook",
            &WebhookEvent::Connected,
            &client,
            None,
            "t"
        )
        .unwrap_err(),
        WebhookError::UrlPrivateAddress
    );
}

#[test]
fn server_error_is_retried_three_times_with_backoff() {
    let outcomes = vec![
        AttemptOutcome::HttpStatus(500),
        AttemptOutcome::HttpStatus(500),
        AttemptOutcome::HttpStatus(500),
    ];
    let report = simulate_delivery(&outcomes);
    assert_eq!(report.attempts, 3);
    assert!(!report.delivered);
    assert_eq!(report.delays, vec![100, 200]);
}

#[test]
fn client_error_is_not_retried() {
    let outcomes = vec![
        AttemptOutcome::HttpStatus(400),
        AttemptOutcome::HttpStatus(200),
        AttemptOutcome::HttpStatus(200),
    ];
    let report = simulate_delivery(&outcomes);
    assert_eq!(report.attempts, 1);
    assert!(!report.delivered);
    assert_eq!(report.delays, Vec::<u64>::new());
}

#[test]
fn success_ends_the_attempt_loop() {
    let outcomes = vec![
        AttemptOutcome::HttpStatus(204),
        AttemptOutcome::HttpStatus(500),
        AttemptOutcome::HttpStatus(500),
    ];
    let report = simulate_delivery(&outcomes);
    assert_eq!(report.attempts, 1);
    assert!(report.delivered);

    let outcomes = vec![
        AttemptOutcome::TransportFailure,
        AttemptOutcome::HttpStatus(503),
        AttemptOutcome::HttpStatus(200),
    ];
    let report = simulate_delivery(&outcomes);
    assert_eq!(report.attempts, 3);
    assert!(report.delivered);
    assert_eq!(report.delays, vec![100, 200]);
}

#[test]
fn retry_decisions_match_the_policy() {
    assert_eq!(
        retry_decision(1, &AttemptOutcome::HttpStatus(201)),
        RetryDecision::Delivered
    );
    assert_eq!(
        retry_decision(1, &AttemptOutcome::HttpStatus(404)),
        RetryDecision::GiveUpClientError(404)
    );
    assert_eq!(
        retry_decision(1, &AttemptOutcome::HttpStatus(500)),
        RetryDecision::RetryAfterMillis(100)
    );
    assert_eq!(
        retry_decision(2, &AttemptOutcome::TransportFailure),
        RetryDecision::RetryAfterMillis(200)
    );
    assert_eq!(
        retry_decision(3, &AttemptOutcome::HttpStatus(502)),
        RetryDecision::GiveUpExhausted
    );
}

#[test]
fn event_names() {
    assert_eq!(WebhookEvent::Connected.as_str(), "connected");
    assert_eq!(WebhookEvent::Disconnected.as_str(), "disconnected");
}
