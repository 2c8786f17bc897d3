//! The grant set an account's sign-in must obtain, shared by the
//! `oauth login` command and the settings view's in-client authorise so
//! both always ask for exactly the same scopes; and how a grant's
//! expiry reads. Reading the environment, the token store and the clock
//! is the caller's I/O.
use vstd::prelude::*;

use crate::text::{append_str, chars_of, decimal, opt_text, push_decimal, string_of, trim, trimmed};
use crate::tui::account_form::{GraphAuth, OauthProvider};

verus! {

broadcast use vstd::string::group_string_axioms;

/// Thunderbird's public Microsoft app registration, which a Microsoft
/// account without a client id of its own borrows.
pub open spec fn thunderbird_ms_client_id() -> Seq<char> {
    "9e5f94bc-e8a4-4e73-b8be-63364c29d753"@
}

/// An account's `[oauth]` table.
#[derive(Clone, Debug, PartialEq, Eq)]
pub struct Oauth {
    pub provider: OauthProvider,
    pub client_id: Option<String>,
    pub tenant: Option<String>,
}

/// An account's `[graph]` table.
#[derive(Clone, Debug, PartialEq, Eq)]
pub struct Graph {
    pub send: bool,
    pub tenant: Option<String>,
    pub client_id: Option<String>,
    pub auth: GraphAuth,
    pub secret_cmd: Option<String>,
}

/// The scopes a grant asks for.
#[derive(Clone, Copy, Debug, PartialEq, Eq, Structural)]
pub enum Scopes {
    GoogleMail,
    MicrosoftImap,
    MicrosoftGraphSend,
}

/// Which of an account's grants: its mail login, or Graph sending.
#[derive(Clone, Copy, Debug, PartialEq, Eq, Structural)]
pub enum GrantKind {
    Imap,
    Graph,
}

/// One interactive grant.
#[derive(Clone, Debug, PartialEq, Eq)]
pub struct Grant {
    pub provider: OauthProvider,
    pub scopes: Scopes,
    pub client_id: String,
    pub tenant: Option<String>,
    pub login_hint: Option<String>,
}

/// A grant the account's setup calls for, and whether it is wanted
/// now (app-only Graph needs none).
#[derive(Clone, Debug, PartialEq, Eq)]
pub struct GrantSpec {
    pub audience: String,
    pub grant_name: String,
    pub kind: GrantKind,
    pub grant: Grant,
    pub wanted: bool,
}

/// The environment variable that overrides a provider's client id.
pub open spec fn client_id_var_spec(provider: OauthProvider) -> Seq<char> {
    match provider {
        OauthProvider::Microsoft => "ANTIPHON_MS_CLIENT_ID"@,
        OauthProvider::Google => "ANTIPHON_GOOGLE_CLIENT_ID"@,
    }
}

pub fn client_id_var(provider: OauthProvider) -> (r: &'static str)
    ensures
        r@ == client_id_var_spec(provider),
{
    match provider {
        OauthProvider::Microsoft => "ANTIPHON_MS_CLIENT_ID",
        OauthProvider::Google => "ANTIPHON_GOOGLE_CLIENT_ID",
    }
}

/// The client id an account signs in with: the environment's override,
/// else the account's own, else Thunderbird's for Microsoft; a Google
/// account with neither is refused, naming the variable.
pub open spec fn client_id_of(provider: OauthProvider, configured: Option<Seq<char>>, env: Option<Seq<char>>, name: Seq<char>) -> Result<Seq<char>, Seq<char>> {
    if env is Some && env->0.len() > 0 {
        Ok(env->0)
    } else if configured is Some && configured->0.len() > 0 {
        Ok(configured->0)
    } else if provider == OauthProvider::Microsoft {
        Ok(thunderbird_ms_client_id())
    } else {
        Err("account "@ + name + ": set client_id in [oauth] (or "@ + client_id_var_spec(provider)
            + "); register your own app with the provider first"@)
    }
}

fn non_blank(o: &Option<String>) -> (r: Option<String>)
    ensures
        match *o {
            Some(s) => if s@.len() > 0 {
                r == Some(s)
            } else {
                r is None
            },
            None => r is None,
        },
{
    match o {
        Some(s) => if s.as_str().unicode_len() > 0 {
            Some(s.clone())
        } else {
            None
        },
        None => None,
    }
}

/// Resolves the client id, looking the provider's variable (as
/// `client_id_var` names it) up once through `env`.
pub fn resolve_client_id<F: Fn(&str) -> Option<String>>(oauth: &Oauth, name: &str, env: F) -> (r: Result<String, String>)
    requires
        forall|var: &str| env.requires((var,)),
    ensures
        exists|var: &str, found: Option<String>|
            {
                &&& var@ == client_id_var_spec(oauth.provider)
                &&& env.ensures((var,), found)
                &&& match client_id_of(oauth.provider, opt_text(oauth.client_id), opt_text(found), name@) {
                    Ok(id) => r matches Ok(x) && x@ == id,
                    Err(e) => r matches Err(x) && x@ == e,
                }
            },
{
    let var = client_id_var(oauth.provider);
    let env = env(var);
    match non_blank(&env) {
        Some(id) => return Ok(id),
        None => {},
    }
    match non_blank(&oauth.client_id) {
        Some(id) => return Ok(id),
        None => {},
    }
    if oauth.provider == OauthProvider::Microsoft {
        return Ok("9e5f94bc-e8a4-4e73-b8be-63364c29d753".to_owned());
    }
    let mut out = chars_of("account ");
    append_str(&mut out, name);
    append_str(&mut out, ": set client_id in [oauth] (or ");
    append_str(&mut out, client_id_var(oauth.provider));
    append_str(&mut out, "); register your own app with the provider first");
    Err(string_of(&out))
}

/// The address sent as `login_hint` to steer the provider's account
/// picker; an empty address sends none.
pub open spec fn login_hint_of(address: Seq<char>) -> Option<Seq<char>> {
    if trim(address).len() == 0 {
        None
    } else {
        Some(trim(address))
    }
}

pub fn login_hint(address: &str) -> (r: Option<String>)
    ensures
        opt_text(r) == login_hint_of(address@),
{
    let t = trimmed(&chars_of(address));
    if t.len() == 0 {
        None
    } else {
        Some(string_of(&t))
    }
}

fn copy_opt(o: &Option<String>) -> (r: Option<String>)
    ensures
        r == *o,
{
    match o {
        Some(s) => Some(s.clone()),
        None => None,
    }
}

/// The Graph table when it sends, and when it does so with delegated
/// sign-in.
pub open spec fn delegated_graph(graph: Option<Graph>) -> Option<Graph> {
    match graph {
        Some(g) => if g.send && g.auth == GraphAuth::Delegated {
            Some(g)
        } else {
            None
        },
        None => None,
    }
}

/// The account's tenant: `[oauth]`'s, or `[graph]`'s when only that is
/// set.
pub open spec fn account_tenant_of(oauth_tenant: Option<String>, graph: Option<Graph>) -> Option<String> {
    match oauth_tenant {
        Some(t) => Some(t),
        None => match graph {
            Some(g) => g.tenant,
            None => None,
        },
    }
}

/// The name an account's mail grant is stored under.
pub open spec fn imap_grant_name(account: Seq<char>) -> Seq<char> {
    account + "-imap"@
}

/// The name an account's Graph send grant is stored under.
pub open spec fn graph_grant_name(account: Seq<char>) -> Seq<char> {
    account + "-graph"@
}

pub fn imap_grant(account: &str) -> (r: String)
    ensures
        r@ == imap_grant_name(account@),
{
    let mut out = chars_of(account);
    append_str(&mut out, "-imap");
    string_of(&out)
}

pub fn graph_grant(account: &str) -> (r: String)
    ensures
        r@ == graph_grant_name(account@),
{
    let mut out = chars_of(account);
    append_str(&mut out, "-graph");
    string_of(&out)
}

/// What a Microsoft account's grants are: the IMAP grant with the
/// `[oauth]` registration and the account tenant, and the Graph send
/// grant, wanted only for delegated Graph sending, which may carry its
/// own registration and tenant.
pub open spec fn microsoft_grants_are(
    r: Seq<GrantSpec>,
    account: Seq<char>,
    address: Seq<char>,
    client_id: Seq<char>,
    oauth_tenant: Option<String>,
    graph: Option<Graph>,
) -> bool {
    &&& r.len() == 2
    &&& r[0].audience@ == "IMAP"@
    &&& r[0].grant_name@ == imap_grant_name(account)
    &&& r[0].kind == GrantKind::Imap
    &&& r[0].wanted
    &&& r[0].grant.provider == OauthProvider::Microsoft
    &&& r[0].grant.scopes == Scopes::MicrosoftImap
    &&& r[0].grant.client_id@ == client_id
    &&& r[0].grant.tenant == account_tenant_of(oauth_tenant, graph)
    &&& opt_text(r[0].grant.login_hint) == login_hint_of(address)
    &&& r[1].audience@ == "Graph send"@
    &&& r[1].grant_name@ == graph_grant_name(account)
    &&& r[1].kind == GrantKind::Graph
    &&& r[1].wanted == delegated_graph(graph) is Some
    &&& r[1].grant.provider == OauthProvider::Microsoft
    &&& r[1].grant.scopes == Scopes::MicrosoftGraphSend
    &&& r[1].grant.client_id@ == match delegated_graph(graph) {
        Some(g) => match g.client_id {
            Some(c) => c@,
            None => client_id,
        },
        None => client_id,
    }
    &&& r[1].grant.tenant == match delegated_graph(graph) {
        Some(g) => match g.tenant {
            Some(t) => Some(t),
            None => account_tenant_of(oauth_tenant, graph),
        },
        None => account_tenant_of(oauth_tenant, graph),
    }
    &&& opt_text(r[1].grant.login_hint) == login_hint_of(address)
}

/// What a Google account's one mail grant is.
pub open spec fn google_grants_are(r: Seq<GrantSpec>, account: Seq<char>, address: Seq<char>, client_id: Seq<char>) -> bool {
    &&& r.len() == 1
    &&& r[0].audience@ == "mail"@
    &&& r[0].grant_name@ == imap_grant_name(account)
    &&& r[0].kind == GrantKind::Imap
    &&& r[0].wanted
    &&& r[0].grant.provider == OauthProvider::Google
    &&& r[0].grant.scopes == Scopes::GoogleMail
    &&& r[0].grant.client_id@ == client_id
    &&& r[0].grant.tenant is None
    &&& opt_text(r[0].grant.login_hint) == login_hint_of(address)
}

pub fn microsoft_grants(
    account: &str,
    address: &str,
    client_id: &str,
    oauth_tenant: &Option<String>,
    graph: &Option<Graph>,
) -> (r: Vec<GrantSpec>)
    ensures
        microsoft_grants_are(r@, account@, address@, client_id@, *oauth_tenant, *graph),
{
    let delegated: Option<&Graph> = match graph {
        Some(g) => if g.send && g.auth == GraphAuth::Delegated {
            Some(g)
        } else {
            None
        },
        None => None,
    };
    let account_tenant = match oauth_tenant {
        Some(t) => Some(t.clone()),
        None => match graph {
            Some(g) => copy_opt(&g.tenant),
            None => None,
        },
    };
    let graph_client = match delegated {
        Some(g) => match &g.client_id {
            Some(c) => c.clone(),
            None => client_id.to_owned(),
        },
        None => client_id.to_owned(),
    };
    let graph_tenant = match delegated {
        Some(g) => match &g.tenant {
            Some(t) => Some(t.clone()),
            None => copy_opt(&account_tenant),
        },
        None => copy_opt(&account_tenant),
    };
    let mut grants: Vec<GrantSpec> = Vec::new();
    grants.push(GrantSpec {
        audience: "IMAP".to_owned(),
        grant_name: imap_grant(account),
        kind: GrantKind::Imap,
        grant: Grant {
            provider: OauthProvider::Microsoft,
            scopes: Scopes::MicrosoftImap,
            client_id: client_id.to_owned(),
            tenant: account_tenant,
            login_hint: login_hint(address),
        },
        wanted: true,
    });
    grants.push(GrantSpec {
        audience: "Graph send".to_owned(),
        grant_name: graph_grant(account),
        kind: GrantKind::Graph,
        grant: Grant {
            provider: OauthProvider::Microsoft,
            scopes: Scopes::MicrosoftGraphSend,
            client_id: graph_client,
            tenant: graph_tenant,
            login_hint: login_hint(address),
        },
        wanted: delegated.is_some(),
    });
    grants
}

/// Every grant the account's provider calls for: one mail grant for
/// Google, the IMAP and Graph send grants for Microsoft. Grants not
/// wanted are listed so callers can say why they are skipped.
pub fn account_grants(account: &str, address: &str, oauth: &Oauth, client_id: &str, graph: &Option<Graph>) -> (r: Vec<GrantSpec>)
    ensures
        oauth.provider == OauthProvider::Google ==> google_grants_are(r@, account@, address@, client_id@),
        oauth.provider == OauthProvider::Microsoft ==> microsoft_grants_are(
            r@,
            account@,
            address@,
            client_id@,
            oauth.tenant,
            *graph,
        ),
{
    match oauth.provider {
        OauthProvider::Google => {
            let mut grants: Vec<GrantSpec> = Vec::new();
            grants.push(GrantSpec {
                audience: "mail".to_owned(),
                grant_name: imap_grant(account),
                kind: GrantKind::Imap,
                grant: Grant {
                    provider: OauthProvider::Google,
                    scopes: Scopes::GoogleMail,
                    client_id: client_id.to_owned(),
                    tenant: None,
                    login_hint: login_hint(address),
                },
                wanted: true,
            });
            grants
        },
        OauthProvider::Microsoft => microsoft_grants(account, address, client_id, &oauth.tenant, graph),
    }
}

/// One grant's expiry, phrased for a status line.
pub open spec fn expiry_text(expires_at: nat, now: nat) -> Seq<char> {
    if expires_at <= now {
        "access token expired (refreshes on the next sync)"@
    } else {
        "access token valid for "@ + decimal(((expires_at - now) as nat) / 60) + " min"@
    }
}

pub fn expiry(expires_at_unix: u64, now: u64) -> (r: String)
    ensures
        r@ == expiry_text(expires_at_unix as nat, now as nat),
{
    if expires_at_unix <= now {
        return "access token expired (refreshes on the next sync)".to_owned();
    }
    let minutes = (expires_at_unix - now) / 60;
    let mut out = chars_of("access token valid for ");
    push_decimal(&mut out, minutes as u128);
    append_str(&mut out, " min");
    string_of(&out)
}

/// A provider's name as a status line shows it.
pub open spec fn provider_text(provider: OauthProvider) -> Seq<char> {
    match provider {
        OauthProvider::Google => "google"@,
        OauthProvider::Microsoft => "microsoft"@,
    }
}

/// One stored grant's status line: its label, the scope it holds, the
/// provider that issued it and its expiry.
pub open spec fn describe_text(label: Seq<char>, scope: Seq<char>, provider: OauthProvider, expires_at: nat, now: nat) -> Seq<char> {
    label + ": "@ + scope + " via "@ + provider_text(provider) + ", "@ + expiry_text(expires_at, now)
}

pub fn describe(label: &str, scope: &str, provider: OauthProvider, expires_at_unix: u64, now: u64) -> (r: String)
    ensures
        r@ == describe_text(label@, scope@, provider, expires_at_unix as nat, now as nat),
{
    let mut out = chars_of(label);
    append_str(&mut out, ": ");
    append_str(&mut out, scope);
    append_str(&mut out, " via ");
    match provider {
        OauthProvider::Google => append_str(&mut out, "google"),
        OauthProvider::Microsoft => append_str(&mut out, "microsoft"),
    }
    append_str(&mut out, ", ");
    let e = expiry(expires_at_unix, now);
    append_str(&mut out, e.as_str());
    string_of(&out)
}

} // verus!
