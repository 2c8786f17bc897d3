use antiphon::oauthgrants::{
    account_grants, client_id_var, describe, expiry, graph_grant, imap_grant, login_hint,
    resolve_client_id, Graph, GrantKind, GrantSpec, Oauth, Scopes,
};
use antiphon::tui::account_form::{GraphAuth, OauthProvider};

const THUNDERBIRD_MS_CLIENT_ID: &str = "9e5f94bc-e8a4-4e73-b8be-63364c29d753";

fn oauth_config(provider: OauthProvider, client_id: Option<&str>) -> Oauth {
    Oauth {
        provider,
        client_id: client_id.map(str::to_string),
        tenant: None,
    }
}

fn graph_config(auth: GraphAuth, tenant: Option<&str>, client_id: Option<&str>) -> Graph {
    Graph {
        send: true,
        tenant: tenant.map(str::to_string),
        client_id: client_id.map(str::to_string),
        auth,
        secret_cmd: None,
    }
}

fn microsoft_account_grants(graph: Option<Graph>) -> Vec<GrantSpec> {
    let oauth = oauth_config(OauthProvider::Microsoft, Some("imap-app"));
    account_grants("work", "work@example.com", &oauth, "imap-app", &graph)
}

#[test]
fn the_environment_overrides_the_account_client_id() {
    let oauth = oauth_config(OauthProvider::Microsoft, Some("from-config"));
    let id = resolve_client_id(&oauth, "work", |var| {
        (var == "ANTIPHON_MS_CLIENT_ID").then(|| "from-env".to_string())
    })
    .unwrap();
    assert_eq!(id, "from-env");
}

#[test]
fn without_an_override_the_account_client_id_stands() {
    let oauth = oauth_config(OauthProvider::Microsoft, Some("from-config"));
    let id = resolve_client_id(&oauth, "work", |_| None).unwrap();
    assert_eq!(id, "from-config");
}

#[test]
fn a_google_account_with_no_source_names_the_variable() {
    let oauth = oauth_config(OauthProvider::Google, None);
    let error = resolve_client_id(&oauth, "work", |_| None).unwrap_err();
    assert!(error.contains("ANTIPHON_GOOGLE_CLIENT_ID"));
}

#[test]
fn microsoft_without_a_client_id_falls_back_to_thunderbird() {
    let oauth = oauth_config(OauthProvider::Microsoft, None);
    let id = resolve_client_id(&oauth, "work", |_| None).unwrap();
    assert_eq!(id, THUNDERBIRD_MS_CLIENT_ID);
}

#[test]
fn a_set_microsoft_client_id_beats_the_thunderbird_fallback() {
    let oauth = oauth_config(OauthProvider::Microsoft, Some("from-config"));
    let id = resolve_client_id(&oauth, "work", |_| None).unwrap();
    assert_eq!(id, "from-config");
}

#[test]
fn the_oauth_tenant_is_preferred_and_graph_keeps_its_override() {
    let mut oauth = oauth_config(OauthProvider::Microsoft, Some("app"));
    oauth.tenant = Some("primary".to_string());
    let graph = graph_config(GraphAuth::Delegated, Some("graph-tenant"), None);
    let grants = account_grants("work", "work@example.com", &oauth, "app", &Some(graph));
    assert_eq!(
        grants[0].grant.tenant.as_deref(),
        Some("primary"),
        "the [oauth] tenant covers the IMAP grant"
    );
    assert_eq!(
        grants[1].grant.tenant.as_deref(),
        Some("graph-tenant"),
        "[graph] tenant still overrides for Graph"
    );
}

#[test]
fn the_env_override_beats_the_thunderbird_fallback() {
    let oauth = oauth_config(OauthProvider::Microsoft, None);
    let id = resolve_client_id(&oauth, "work", |var| {
        (var == "ANTIPHON_MS_CLIENT_ID").then(|| "from-env".to_string())
    })
    .unwrap();
    assert_eq!(id, "from-env");
}

#[test]
fn an_empty_override_is_ignored() {
    let oauth = oauth_config(OauthProvider::Microsoft, Some("from-config"));
    let id = resolve_client_id(&oauth, "work", |_| Some(String::new())).unwrap();
    assert_eq!(id, "from-config");
}

#[test]
fn a_google_account_wants_one_mail_grant() {
    let oauth = oauth_config(OauthProvider::Google, Some("google-app"));
    let grants = account_grants("work", "work@example.com", &oauth, "google-app", &None);
    assert_eq!(grants.len(), 1);
    assert!(grants[0].wanted);
    assert_eq!(grants[0].grant_name, "work-imap");
    assert_eq!(grants[0].grant.provider, OauthProvider::Google);
    assert_eq!(grants[0].grant.scopes, Scopes::GoogleMail);
}

#[test]
fn a_delegated_graph_grant_carries_tenant_and_client_id() {
    let graph = graph_config(GraphAuth::Delegated, Some("tenant-1"), Some("graph-app"));
    let grants = microsoft_account_grants(Some(graph));
    let send = &grants[1];
    assert!(send.wanted);
    assert_eq!(send.grant.client_id, "graph-app");
    assert_eq!(send.grant.tenant.as_deref(), Some("tenant-1"));
    assert_eq!(grants[0].grant.client_id, "imap-app");
    assert_eq!(
        grants[0].grant.tenant.as_deref(),
        Some("tenant-1"),
        "the IMAP grant reuses the tenant, not /common"
    );
}

#[test]
fn a_delegated_grant_falls_back_to_the_imap_client_id() {
    let graph = graph_config(GraphAuth::Delegated, None, None);
    let grants = microsoft_account_grants(Some(graph));
    assert_eq!(grants[1].grant.client_id, "imap-app");
}

#[test]
fn app_only_graph_wants_no_interactive_grant() {
    let graph = graph_config(GraphAuth::AppOnly, Some("tenant-1"), Some("graph-app"));
    let grants = microsoft_account_grants(Some(graph));
    assert!(!grants[1].wanted);
    assert!(grants[0].wanted);
}

#[test]
fn no_graph_table_wants_only_the_imap_grant() {
    let grants = microsoft_account_grants(None);
    assert!(grants[0].wanted);
    assert!(!grants[1].wanted);
}

#[test]
fn the_imap_grant_carries_the_address_as_login_hint() {
    let grants = microsoft_account_grants(None);
    assert_eq!(
        grants[0].grant.login_hint.as_deref(),
        Some("work@example.com"),
        "the address steers the picker and is checked against the signed-in identity"
    );
}

#[test]
fn expiry_reports_minutes_left_or_expired() {
    let now = 1_000_000;
    assert_eq!(expiry(now + 45 * 60, now), "access token valid for 45 min");
    assert!(expiry(now, now).contains("expired"));
}

#[test]
fn describe_names_the_grant_scope_and_provider() {
    let now = 1_000_000;
    let line = describe("imap", "https://mail.google.com/", OauthProvider::Google, now + 60 * 60, now);
    assert!(line.starts_with("imap: https://mail.google.com/"));
    assert!(line.contains("via google"));
    assert!(line.contains("60 min"));
}

#[test]
fn grants_are_stored_under_the_account_name() {
    assert_eq!(imap_grant("work"), "work-imap");
    assert_eq!(graph_grant("work"), "work-graph");
    let grants = microsoft_account_grants(None);
    assert_eq!(grants[1].grant_name, "work-graph");
    assert_eq!(grants[1].kind, GrantKind::Graph);
    assert_eq!(grants[1].audience, "Graph send");
    assert_eq!(grants[1].grant.scopes, Scopes::MicrosoftGraphSend);
}

#[test]
fn an_expired_grant_at_any_past_time_reads_expired() {
    assert_eq!(
        expiry(10, 500),
        "access token expired (refreshes on the next sync)"
    );
    assert_eq!(expiry(119 + 7, 7), "access token valid for 1 min");
    assert_eq!(expiry(59 + 7, 7), "access token valid for 0 min");
}

#[test]
fn the_login_hint_is_the_trimmed_address() {
    assert_eq!(login_hint("  a@b.c "), Some("a@b.c".to_string()));
    assert_eq!(login_hint("   "), None);
    let oauth = oauth_config(OauthProvider::Google, None);
    let grants = account_grants("g", "", &oauth, "id", &None);
    assert_eq!(grants[0].grant.login_hint, None);
}

#[test]
fn a_blank_account_client_id_falls_through() {
    let oauth = oauth_config(OauthProvider::Microsoft, Some(""));
    assert_eq!(
        resolve_client_id(&oauth, "work", |_| None).unwrap(),
        THUNDERBIRD_MS_CLIENT_ID
    );
    let google = oauth_config(OauthProvider::Google, Some(""));
    assert_eq!(
        resolve_client_id(&google, "home", |_| None).unwrap_err(),
        "account home: set client_id in [oauth] (or ANTIPHON_GOOGLE_CLIENT_ID); \
         register your own app with the provider first"
    );
}

#[test]
fn a_graph_table_that_does_not_send_lends_only_its_tenant() {
    let mut graph = graph_config(GraphAuth::Delegated, Some("t"), Some("graph-app"));
    graph.send = false;
    let grants = microsoft_account_grants(Some(graph));
    assert!(!grants[1].wanted);
    assert_eq!(grants[1].grant.client_id, "imap-app");
    assert_eq!(grants[0].grant.tenant.as_deref(), Some("t"));
    assert_eq!(grants[1].grant.tenant.as_deref(), Some("t"));
}

#[test]
fn the_lookup_asks_once_for_the_providers_variable() {
    let asked = std::cell::RefCell::new(Vec::new());
    let oauth = oauth_config(OauthProvider::Google, Some("from-config"));
    let id = resolve_client_id(&oauth, "home", |var| {
        asked.borrow_mut().push(var.to_string());
        None
    })
    .unwrap();
    assert_eq!(id, "from-config");
    assert_eq!(asked.into_inner(), vec![client_id_var(OauthProvider::Google).to_string()]);
    assert_eq!(client_id_var(OauthProvider::Google), "ANTIPHON_GOOGLE_CLIENT_ID");
}
