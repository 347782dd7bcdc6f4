//! The webhook notifier's logic: validation of the destination URL against
//! internal addresses, the two payload modes (a fixed JSON envelope, or a
//! user template rendered over the same fields), and the retry policy for
//! delivery. Delivery itself is outbound HTTP and belongs to the
//! surrounding service, which asks `retry_decision` what to do after every
//! attempt.

use vstd::prelude::*;
use vstd::string::StringExecFns;
use crate::models::client::Client;
use crate::net::{is_private_ip, parse_ip, spec_is_private_ip, spec_parse_ip};
use crate::text::{
    append_i64_dec, append_json_escaped, append_u64_dec, lower_of, lowercase, opt_string_view,
    push_char, spec_ends_with, spec_i64_dec, spec_json_escaped, spec_u64_dec, str_ends_with,
    str_eq,
};

verus! {

/// A lifecycle event a webhook reports.
#[derive(Clone, Copy, Debug, PartialEq, Eq, Structural)]
pub enum WebhookEvent {
    Connected,
    Disconnected,
}

impl WebhookEvent {
    /// The event's wire name.
    pub open spec fn spec_as_str(&self) -> Seq<char> {
        match self {
            WebhookEvent::Connected => "connected"@,
            WebhookEvent::Disconnected => "disconnected"@,
        }
    }

    pub fn as_str(&self) -> (r: &str)
        ensures
            r@ == self.spec_as_str(),
    {
        match self {
            WebhookEvent::Connected => "connected",
            WebhookEvent::Disconnected => "disconnected",
        }
    }
}

/// Why a webhook could not be prepared: the destination URL was refused,
/// template mode was selected without a template (a configuration error),
/// or the template did not render. Each aborts the send with no retry;
/// what happens after a delivery attempt is `RetryDecision`'s business.
#[derive(Clone, Copy, Debug, PartialEq, Eq, Structural)]
pub enum WebhookError {
    UrlParse,
    UrlScheme,
    UrlPrivateAddress,
    UrlInternalHost,
    MissingTemplate,
    TemplateRender,
}

/// The scheme and host that the URL parser extracts from a string, or
/// nothing where it refuses the string; a function of the characters alone.
/// The scheme comes back lower-cased.
pub uninterp spec fn url_parts_of(s: Seq<char>) -> Option<(Seq<char>, Option<Seq<char>>)>;

/// The parsed pieces of a webhook destination.
#[derive(Debug)]
struct UrlParts {
    scheme: String,
    host: Option<String>,
}

/// Relies on `url::Url::parse`, with `Url::scheme` and `Url::host_str` to
/// read the result: parsing depends on the input characters alone.
#[verifier::external_body]
fn parse_url_parts(s: &str) -> (r: Option<UrlParts>)
    ensures
        match r {
            Some(p) => url_parts_of(s@) == Some((p.scheme@, opt_string_view(p.host))),
            None => url_parts_of(s@) is None,
        },
{
    match url::Url::parse(s) {
        Ok(u) => {
            let scheme = u.scheme().to_string();
            let host = u.host_str().map(|h| h.to_string());
            Some(UrlParts { scheme, host })
        },
        Err(_) => None,
    }
}

/// The validation verdict on a webhook destination: the scheme must be
/// exactly `http` or `https`; a host that is a literal IP address must not
/// be an internal one; a host name must not be `localhost` nor end in
/// `.local` or `.internal`.
pub open spec fn spec_validate_webhook_url(s: Seq<char>) -> Result<(), WebhookError> {
    match url_parts_of(s) {
        None => Err(WebhookError::UrlParse),
        Some(parts) => {
            if parts.0 != "http"@ && parts.0 != "https"@ {
                Err(WebhookError::UrlScheme)
            } else {
                match parts.1 {
                    None => Ok(()),
                    Some(h) => match spec_parse_ip(h) {
                        Some(ip) => if spec_is_private_ip(ip) {
                            Err(WebhookError::UrlPrivateAddress)
                        } else {
                            Ok(())
                        },
                        None => if lower_of(h) == "localhost"@ || spec_ends_with(
                            lower_of(h),
                            ".local"@,
                        ) || spec_ends_with(lower_of(h), ".internal"@) {
                            Err(WebhookError::UrlInternalHost)
                        } else {
                            Ok(())
                        },
                    },
                }
            }
        },
    }
}

/// Validates a webhook destination before every send, refusing URLs that
/// would point the service at internal infrastructure.
pub fn validate_webhook_url(url: &str) -> (r: Result<(), WebhookError>)
    ensures
        r == spec_validate_webhook_url(url@),
{
    let parts = match parse_url_parts(url) {
        Some(p) => p,
        None => {
            return Err(WebhookError::UrlParse);
        },
    };
    let scheme_ok = str_eq(parts.scheme.as_str(), "http") || str_eq(parts.scheme.as_str(), "https");
    if !scheme_ok {
        return Err(WebhookError::UrlScheme);
    }
    match &parts.host {
        None => Ok(()),
        Some(h) => {
            match parse_ip(h.as_str()) {
                Some(ip) => {
                    if is_private_ip(&ip) {
                        Err(WebhookError::UrlPrivateAddress)
                    } else {
                        Ok(())
                    }
                },
                None => {
                    let hl = lowercase(h.as_str());
                    if str_eq(hl.as_str(), "localhost") || str_ends_with(hl.as_str(), ".local")
                        || str_ends_with(hl.as_str(), ".internal") {
                        Err(WebhookError::UrlInternalHost)
                    } else {
                        Ok(())
                    }
                },
            }
        },
    }
}

/// A JSON string literal for the characters `s`.
pub open spec fn spec_json_str(s: Seq<char>) -> Seq<char> {
    seq!['"'] + spec_json_escaped(s) + seq!['"']
}

fn append_json_string(v: &str, out: &mut String)
    ensures
        final(out)@ == old(out)@ + spec_json_str(v@),
{
    push_char(out, '"');
    append_json_escaped(v, out);
    push_char(out, '"');
    proof {
        assert(final(out)@ =~= old(out)@ + spec_json_str(v@));
    }
}

/// The `assigned_port` field with its trailing comma, present only on a
/// connect event of an entity that has one.
pub open spec fn spec_ap_field(event: WebhookEvent, c: Client) -> Seq<char> {
    if event is Connected && c.assigned_port is Some {
        "\"assigned_port\":"@ + spec_i64_dec(c.assigned_port->0 as int) + ","@
    } else {
        Seq::empty()
    }
}

/// The optional `description` field with its leading comma.
pub open spec fn spec_desc_field(c: Client) -> Seq<char> {
    if c.description is Some {
        ",\"description\":"@ + spec_json_str(c.description->0@)
    } else {
        Seq::empty()
    }
}

/// The endpoint fields a connect event reports, with leading commas.
pub open spec fn spec_conn_fields(event: WebhookEvent, c: Client) -> Seq<char> {
    if event is Connected {
        ",\"local_host\":"@ + spec_json_str(c.local_host@) + ",\"local_port\":"@ + spec_i64_dec(
            c.local_port as int,
        ) + ",\"remote_server\":"@ + spec_json_str(c.remote_server@)
    } else {
        Seq::empty()
    }
}

/// The `uptime_seconds` field a disconnect event reports, when known.
pub open spec fn spec_uptime_field(event: WebhookEvent, uptime_seconds: Option<u64>) -> Seq<char> {
    if event is Disconnected && uptime_seconds is Some {
        ",\"uptime_seconds\":"@ + spec_u64_dec(uptime_seconds->0 as nat)
    } else {
        Seq::empty()
    }
}

/// One JSON object of webhook fields, keys in sorted order, with
/// `event_value` as the text of the `event` field.
pub open spec fn spec_fields_text(
    event: WebhookEvent,
    c: Client,
    uptime_seconds: Option<u64>,
    timestamp: Seq<char>,
    event_value: Seq<char>,
) -> Seq<char> {
    "{"@ + spec_ap_field(event, c) + "\"client_id\":"@ + spec_i64_dec(c.id as int)
        + ",\"client_name\":"@ + spec_json_str(c.name@) + spec_desc_field(c) + ",\"event\":"@
        + spec_json_str(event_value) + spec_conn_fields(event, c) + ",\"timestamp\":"@
        + spec_json_str(timestamp) + spec_uptime_field(event, uptime_seconds) + "}"@
}

fn build_fields_text(
    event: &WebhookEvent,
    c: &Client,
    uptime_seconds: Option<u64>,
    timestamp: &str,
    event_value: &str,
) -> (r: String)
    ensures
        r@ == spec_fields_text(*event, *c, uptime_seconds, timestamp@, event_value@),
{
    let mut out = "{".to_owned();
    match event {
        WebhookEvent::Connected => {
            if let Some(p) = c.assigned_port {
                out.append("\"assigned_port\":");
                append_i64_dec(p, &mut out);
                out.append(",");
            }
        },
        WebhookEvent::Disconnected => {},
    }
    proof {
        assert(out@ =~= "{"@ + spec_ap_field(*event, *c));
    }
    let ghost s1 = out@;
    out.append("\"client_id\":");
    append_i64_dec(c.id, &mut out);
    out.append(",\"client_name\":");
    append_json_string(c.name.as_str(), &mut out);
    proof {
        assert(out@ =~= s1 + "\"client_id\":"@ + spec_i64_dec(c.id as int) + ",\"client_name\":"@
            + spec_json_str(c.name@));
    }
    let ghost s2 = out@;
    match &c.description {
        Some(d) => {
            out.append(",\"description\":");
            append_json_string(d.as_str(), &mut out);
        },
        None => {},
    }
    proof {
        assert(out@ =~= s2 + spec_desc_field(*c));
    }
    let ghost s3 = out@;
    out.append(",\"event\":");
    append_json_string(event_value, &mut out);
    proof {
        assert(out@ =~= s3 + ",\"event\":"@ + spec_json_str(event_value@));
    }
    let ghost s4 = out@;
    match event {
        WebhookEvent::Connected => {
            out.append(",\"local_host\":");
            append_json_string(c.local_host.as_str(), &mut out);
            out.append(",\"local_port\":");
            append_i64_dec(c.local_port, &mut out);
            out.append(",\"remote_server\":");
            append_json_string(c.remote_server.as_str(), &mut out);
        },
        WebhookEvent::Disconnected => {},
    }
    proof {
        assert(out@ =~= s4 + spec_conn_fields(*event, *c));
    }
    let ghost s5 = out@;
    out.append(",\"timestamp\":");
    append_json_string(timestamp, &mut out);
    proof {
        assert(out@ =~= s5 + ",\"timestamp\":"@ + spec_json_str(timestamp@));
    }
    let ghost s6 = out@;
    match (event, uptime_seconds) {
        (WebhookEvent::Disconnected, Some(u)) => {
            out.append(",\"uptime_seconds\":");
            append_u64_dec(u, &mut out);
        },
        _ => {},
    }
    proof {
        assert(out@ =~= s6 + spec_uptime_field(*event, uptime_seconds));
    }
    out.append("}");
    proof {
        assert(out@ =~= spec_fields_text(*event, *c, uptime_seconds, timestamp@, event_value@));
    }
    out
}

/// The structured JSON envelope of an event: the event name under
/// `client.`, the timestamp, the entity's identity, and the event-specific
/// fields.
pub open spec fn spec_payload_text(
    event: WebhookEvent,
    c: Client,
    uptime_seconds: Option<u64>,
    timestamp: Seq<char>,
) -> Seq<char> {
    spec_fields_text(event, c, uptime_seconds, timestamp, "client."@ + event.spec_as_str())
}

/// The JSON text of the field set a user template is rendered over: the
/// same fields, with the plain event name.
pub open spec fn spec_template_data_text(
    event: WebhookEvent,
    c: Client,
    uptime_seconds: Option<u64>,
    timestamp: Seq<char>,
) -> Seq<char> {
    spec_fields_text(event, c, uptime_seconds, timestamp, event.spec_as_str())
}

/// Builds the structured JSON payload of an event.
pub fn build_json_payload(
    event: &WebhookEvent,
    client: &Client,
    uptime_seconds: Option<u64>,
    timestamp: &str,
) -> (r: String)
    ensures
        r@ == spec_payload_text(*event, *client, uptime_seconds, timestamp@),
{
    let mut ev = "client.".to_owned();
    ev.append(event.as_str());
    build_fields_text(event, client, uptime_seconds, timestamp, ev.as_str())
}

/// Builds the JSON text of the field set a user template sees.
pub fn build_template_data(
    event: &WebhookEvent,
    client: &Client,
    uptime_seconds: Option<u64>,
    timestamp: &str,
) -> (r: String)
    ensures
        r@ == spec_template_data_text(*event, *client, uptime_seconds, timestamp@),
{
    build_fields_text(event, client, uptime_seconds, timestamp, event.as_str())
}

/// What template rendering gives for a template and the JSON text of its
/// data, or nothing where rendering fails; a function of the two texts
/// alone.
pub uninterp spec fn hbs_render(template: Seq<char>, data_json: Seq<char>) -> Option<Seq<char>>;

/// Relies on handlebars' `render_template`, with `serde_json::from_str`
/// turning the data text into the value handed to it: rendering is a
/// function of the template and the data text alone.
#[verifier::external_body]
fn hbs_render_json(template: &str, data_json: &str) -> (r: Option<String>)
    ensures
        match r {
            Some(s) => hbs_render(template@, data_json@) == Some(s@),
            None => hbs_render(template@, data_json@) is None,
        },
{
    let data: serde_json::Value = match serde_json::from_str(data_json) {
        Ok(v) => v,
        Err(_) => return None,
    };
    handlebars::Handlebars::new().render_template(template, &data).ok()
}

/// Renders the entity's user template over the event's field set. A client
/// in template mode without a template is a configuration error, not a
/// delivery failure.
pub fn render_custom_template(
    event: &WebhookEvent,
    client: &Client,
    uptime_seconds: Option<u64>,
    timestamp: &str,
) -> (r: Result<String, WebhookError>)
    ensures
        client.webhook_template is None ==> (r matches Err(e) && e == WebhookError::MissingTemplate),
        client.webhook_template matches Some(t) ==> (match hbs_render(
            t@,
            spec_template_data_text(*event, *client, uptime_seconds, timestamp@),
        ) {
            Some(s) => r matches Ok(b) && b@ == s,
            None => r matches Err(e) && e == WebhookError::TemplateRender,
        }),
{
    let template = match &client.webhook_template {
        Some(t) => t,
        None => {
            return Err(WebhookError::MissingTemplate);
        },
    };
    let data = build_template_data(event, client, uptime_seconds, timestamp);
    match hbs_render_json(template.as_str(), data.as_str()) {
        Some(s) => Ok(s),
        None => Err(WebhookError::TemplateRender),
    }
}

/// A prepared webhook request: the body and its content type.
#[derive(Debug)]
pub struct WebhookRequest {
    pub body: String,
    pub content_type: String,
}

/// The body and content type an event is sent with: the rendered template
/// as plain text when the entity's format is `custom`, the JSON envelope
/// otherwise.
pub open spec fn spec_webhook_body(
    event: WebhookEvent,
    c: Client,
    uptime_seconds: Option<u64>,
    timestamp: Seq<char>,
) -> Result<(Seq<char>, Seq<char>), WebhookError> {
    if c.webhook_format@ == "custom"@ {
        match c.webhook_template {
            None => Err(WebhookError::MissingTemplate),
            Some(t) => match hbs_render(
                t@,
                spec_template_data_text(event, c, uptime_seconds, timestamp),
            ) {
                Some(s) => Ok((s, "text/plain"@)),
                None => Err(WebhookError::TemplateRender),
            },
        }
    } else {
        Ok((spec_payload_text(event, c, uptime_seconds, timestamp), "application/json"@))
    }
}

/// Validates the destination and builds the request for one event. The
/// surrounding service delivers the result under the retry policy; a
/// failure here aborts the send with no retry.
pub fn prepare_webhook(
    url: &str,
    event: &WebhookEvent,
    client: &Client,
    uptime_seconds: Option<u64>,
    timestamp: &str,
) -> (r: Result<WebhookRequest, WebhookError>)
    ensures
        spec_validate_webhook_url(url@) matches Err(e) ==> (r matches Err(e2) && e2 == e),
        spec_validate_webhook_url(url@) is Ok ==> (match spec_webhook_body(
            *event,
            *client,
            uptime_seconds,
            timestamp@,
        ) {
            Ok(body_ct) => r matches Ok(w) && w.body@ == body_ct.0 && w.content_type@ == body_ct.1,
            Err(e) => r matches Err(e2) && e2 == e,
        }),
{
    if let Err(e) = validate_webhook_url(url) {
        return Err(e);
    }
    if str_eq(client.webhook_format.as_str(), "custom") {
        let body = render_custom_template(event, client, uptime_seconds, timestamp)?;
        Ok(WebhookRequest { body, content_type: "text/plain".to_owned() })
    } else {
        let body = build_json_payload(event, client, uptime_seconds, timestamp);
        Ok(WebhookRequest { body, content_type: "application/json".to_owned() })
    }
}

/// How many delivery attempts the retry policy allows in all.
pub const WEBHOOK_MAX_ATTEMPTS: u32 = 3;

/// What one delivery attempt came back with: an HTTP status, or a
/// transport-level failure (timeout, resolution, connection refused).
#[derive(Clone, Copy, Debug, PartialEq, Eq, Structural)]
pub enum AttemptOutcome {
    HttpStatus(u16),
    TransportFailure,
}

/// What the retry policy says after one attempt: the delivery succeeded; it
/// failed on a client error and must not be retried; it is retried after
/// the given delay; or every attempt is spent.
#[derive(Clone, Copy, Debug, PartialEq, Eq, Structural)]
pub enum RetryDecision {
    Delivered,
    GiveUpClientError(u16),
    RetryAfterMillis(u64),
    GiveUpExhausted,
}

/// The backoff before the attempt after `attempt`: 100 milliseconds,
/// doubled for each attempt already spent.
pub open spec fn spec_retry_delay_millis(attempt: u32) -> u64 {
    if attempt <= 1 {
        100
    } else if attempt == 2 {
        200
    } else {
        400
    }
}

/// The retry policy for attempt number `attempt` (counted from one): a
/// status in the 200 range is success; one in the 400 range is never
/// retried; anything else — other statuses or transport failure — is
/// retried with exponential backoff until the attempts are spent.
pub open spec fn spec_retry_decision(attempt: u32, outcome: AttemptOutcome) -> RetryDecision {
    match outcome {
        AttemptOutcome::HttpStatus(s) => {
            if 200 <= s < 300 {
                RetryDecision::Delivered
            } else if 400 <= s < 500 {
                RetryDecision::GiveUpClientError(s)
            } else if attempt < WEBHOOK_MAX_ATTEMPTS {
                RetryDecision::RetryAfterMillis(spec_retry_delay_millis(attempt))
            } else {
                RetryDecision::GiveUpExhausted
            }
        },
        AttemptOutcome::TransportFailure => {
            if attempt < WEBHOOK_MAX_ATTEMPTS {
                RetryDecision::RetryAfterMillis(spec_retry_delay_millis(attempt))
            } else {
                RetryDecision::GiveUpExhausted
            }
        },
    }
}

/// Decides what the delivery loop does after one attempt.
pub fn retry_decision(attempt: u32, outcome: &AttemptOutcome) -> (r: RetryDecision)
    requires
        1 <= attempt <= WEBHOOK_MAX_ATTEMPTS,
    ensures
        r == spec_retry_decision(attempt, *outcome),
{
    let retryable = attempt < WEBHOOK_MAX_ATTEMPTS;
    let delay: u64 = if attempt <= 1 {
        100
    } else if attempt == 2 {
        200
    } else {
        400
    };
    match outcome {
        AttemptOutcome::HttpStatus(s) => {
            if 200 <= *s && *s < 300 {
                RetryDecision::Delivered
            } else if 400 <= *s && *s < 500 {
                RetryDecision::GiveUpClientError(*s)
            } else if retryable {
                RetryDecision::RetryAfterMillis(delay)
            } else {
                RetryDecision::GiveUpExhausted
            }
        },
        AttemptOutcome::TransportFailure => {
            if retryable {
                RetryDecision::RetryAfterMillis(delay)
            } else {
                RetryDecision::GiveUpExhausted
            }
        },
    }
}

/// How many attempts a delivery makes against an endpoint whose answers,
/// per attempt, are `outcomes`, starting at attempt `attempt`.
pub open spec fn spec_delivery_attempts(outcomes: Seq<AttemptOutcome>, attempt: u32) -> nat
    decreases WEBHOOK_MAX_ATTEMPTS + 1 - attempt,
{
    if attempt < 1 || attempt > WEBHOOK_MAX_ATTEMPTS || attempt > outcomes.len() {
        0
    } else {
        match spec_retry_decision(attempt, outcomes[attempt as int - 1]) {
            RetryDecision::RetryAfterMillis(_) => 1 + spec_delivery_attempts(outcomes, (attempt + 1) as u32),
            _ => 1,
        }
    }
}

/// Whether such a delivery ends in success.
pub open spec fn spec_delivery_succeeds(outcomes: Seq<AttemptOutcome>, attempt: u32) -> bool
    decreases WEBHOOK_MAX_ATTEMPTS + 1 - attempt,
{
    if attempt < 1 || attempt > WEBHOOK_MAX_ATTEMPTS || attempt > outcomes.len() {
        false
    } else {
        match spec_retry_decision(attempt, outcomes[attempt as int - 1]) {
            RetryDecision::Delivered => true,
            RetryDecision::RetryAfterMillis(_) => spec_delivery_succeeds(outcomes, (attempt + 1) as u32),
            _ => false,
        }
    }
}

/// The delays such a delivery sleeps between attempts, in order.
pub open spec fn spec_delivery_delays(outcomes: Seq<AttemptOutcome>, attempt: u32) -> Seq<u64>
    decreases WEBHOOK_MAX_ATTEMPTS + 1 - attempt,
{
    if attempt < 1 || attempt > WEBHOOK_MAX_ATTEMPTS || attempt > outcomes.len() {
        Seq::empty()
    } else {
        match spec_retry_decision(attempt, outcomes[attempt as int - 1]) {
            RetryDecision::RetryAfterMillis(d) => seq![d] + spec_delivery_delays(
                outcomes,
                (attempt + 1) as u32,
            ),
            _ => Seq::empty(),
        }
    }
}

/// What a whole delivery run did: how many attempts it made, whether it
/// succeeded, and the delays it slept between attempts.
#[derive(Debug)]
pub struct DeliveryReport {
    pub attempts: usize,
    pub delivered: bool,
    pub delays: Vec<u64>,
}

/// Replays the retry policy against three prerecorded attempt outcomes, as
/// an endpoint answering that way would drive the delivery loop.
pub fn simulate_delivery(outcomes: &Vec<AttemptOutcome>) -> (r: DeliveryReport)
    requires
        outcomes@.len() >= WEBHOOK_MAX_ATTEMPTS,
    ensures
        r.attempts == spec_delivery_attempts(outcomes@, 1),
        r.delivered == spec_delivery_succeeds(outcomes@, 1),
        r.delays@ == spec_delivery_delays(outcomes@, 1),
{
    let mut delays: Vec<u64> = Vec::new();
    let d1 = retry_decision(1, &outcomes[0]);
    let d1_retry: u64 = match d1 {
        RetryDecision::Delivered => {
            proof {
                assert(spec_delivery_attempts(outcomes@, 1) == 1);
                assert(spec_delivery_succeeds(outcomes@, 1));
                assert(delays@ =~= spec_delivery_delays(outcomes@, 1));
            }
            return DeliveryReport { attempts: 1, delivered: true, delays };
        },
        RetryDecision::GiveUpClientError(_) | RetryDecision::GiveUpExhausted => {
            proof {
                assert(spec_delivery_attempts(outcomes@, 1) == 1);
                assert(!spec_delivery_succeeds(outcomes@, 1));
                assert(delays@ =~= spec_delivery_delays(outcomes@, 1));
            }
            return DeliveryReport { attempts: 1, delivered: false, delays };
        },
        RetryDecision::RetryAfterMillis(d) => d,
    };
    delays.push(d1_retry);
    proof {
        assert(spec_delivery_attempts(outcomes@, 1) == 1 + spec_delivery_attempts(outcomes@, 2));
        assert(spec_delivery_succeeds(outcomes@, 1) == spec_delivery_succeeds(outcomes@, 2));
        assert(spec_delivery_delays(outcomes@, 1) =~= seq![d1_retry] + spec_delivery_delays(
            outcomes@,
            2,
        ));
    }
    let d2 = retry_decision(2, &outcomes[1]);
    let d2_retry: u64 = match d2 {
        RetryDecision::Delivered => {
            proof {
                assert(spec_delivery_attempts(outcomes@, 2) == 1);
                assert(spec_delivery_succeeds(outcomes@, 2));
                assert(spec_delivery_delays(outcomes@, 2) =~= Seq::<u64>::empty());
                assert(delays@ =~= spec_delivery_delays(outcomes@, 1));
            }
            return DeliveryReport { attempts: 2, delivered: true, delays };
        },
        RetryDecision::GiveUpClientError(_) | RetryDecision::GiveUpExhausted => {
            proof {
                assert(spec_delivery_attempts(outcomes@, 2) == 1);
                assert(!spec_delivery_succeeds(outcomes@, 2));
                assert(spec_delivery_delays(outcomes@, 2) =~= Seq::<u64>::empty());
                assert(delays@ =~= spec_delivery_delays(outcomes@, 1));
            }
            return DeliveryReport { attempts: 2, delivered: false, delays };
        },
        RetryDecision::RetryAfterMillis(d) => d,
    };
    delays.push(d2_retry);
    proof {
        assert(spec_delivery_attempts(outcomes@, 2) == 1 + spec_delivery_attempts(outcomes@, 3));
        assert(spec_delivery_succeeds(outcomes@, 2) == spec_delivery_succeeds(outcomes@, 3));
        assert(spec_delivery_delays(outcomes@, 2) =~= seq![d2_retry] + spec_delivery_delays(
            outcomes@,
            3,
        ));
    }
    let d3 = retry_decision(3, &outcomes[2]);
    let delivered = match d3 {
        RetryDecision::Delivered => true,
        _ => false,
    };
    proof {
        assert(spec_delivery_attempts(outcomes@, 3) == 1);
        assert(spec_delivery_succeeds(outcomes@, 3) == delivered);
        assert(spec_delivery_delays(outcomes@, 3) =~= Seq::<u64>::empty());
        assert(delays@ =~= spec_delivery_delays(outcomes@, 1));
    }
    DeliveryReport { attempts: 3, delivered, delays }
}

/// Law: an endpoint answering a server error on every attempt is tried
/// exactly three times, with increasing delays of 100 then 200 milliseconds
/// between the attempts, and the delivery ends without success.
pub proof fn lemma_server_error_three_attempts(outcomes: Seq<AttemptOutcome>, s: u16)
    requires
        outcomes.len() >= 3,
        500 <= s < 600,
        forall|i: int| 0 <= i < 3 ==> outcomes[i] == AttemptOutcome::HttpStatus(s),
    ensures
        spec_delivery_attempts(outcomes, 1) == 3,
        !spec_delivery_succeeds(outcomes, 1),
        spec_delivery_delays(outcomes, 1) =~= seq![100u64, 200u64],
{
    assert(spec_retry_decision(1, outcomes[0]) == RetryDecision::RetryAfterMillis(100u64));
    assert(spec_retry_decision(2, outcomes[1]) == RetryDecision::RetryAfterMillis(200u64));
    assert(spec_retry_decision(3, outcomes[2]) == RetryDecision::GiveUpExhausted);
    assert(spec_delivery_attempts(outcomes, 3) == 1);
    assert(spec_delivery_attempts(outcomes, 2) == 2);
    assert(spec_delivery_attempts(outcomes, 1) == 3);
    assert(!spec_delivery_succeeds(outcomes, 3));
    assert(!spec_delivery_succeeds(outcomes, 2));
    assert(!spec_delivery_succeeds(outcomes, 1));
    assert(spec_delivery_delays(outcomes, 3) =~= Seq::<u64>::empty());
    assert(spec_delivery_delays(outcomes, 2) =~= seq![200u64]);
    assert(spec_delivery_delays(outcomes, 1) =~= seq![100u64] + seq![200u64]);
}

/// Law: an endpoint answering a client error is tried exactly once, with
/// no delay and no success.
pub proof fn lemma_client_error_single_attempt(outcomes: Seq<AttemptOutcome>, s: u16)
    requires
        outcomes.len() >= 3,
        400 <= s < 500,
        outcomes[0] == AttemptOutcome::HttpStatus(s),
    ensures
        spec_delivery_attempts(outcomes, 1) == 1,
        !spec_delivery_succeeds(outcomes, 1),
        spec_delivery_delays(outcomes, 1) =~= Seq::<u64>::empty(),
{
    assert(spec_retry_decision(1, outcomes[0]) == RetryDecision::GiveUpClientError(s));
}

} // verus!
