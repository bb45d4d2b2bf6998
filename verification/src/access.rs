//! Who may ask for what: API keys, tenants, and the origins of browsers.
use crate::identity;
use crate::reply;
use crate::reply::ApiError;
use crate::text;
use vstd::prelude::*;

verus! {

/// Which tenants this installation serves.
#[derive(Debug, Clone, Copy, PartialEq, Eq, Structural)]
pub enum TenantRule {
    /// Every tenant.
    Any,
    /// One tenant.
    Only(u128),
    /// None, as the configured tenant is not an id.
    Malformed,
}

/// What the configuration says of the tenants.
pub open spec fn configured_rule(configured: Option<Seq<char>>) -> TenantRule {
    match configured {
        Some(expected) => match identity::id_parsed(expected) {
            Ok(id) => TenantRule::Only(id),
            Err(_) => TenantRule::Malformed,
        },
        None => TenantRule::Any,
    }
}

/// The value of an optional text.
pub open spec fn optional(text: Option<&str>) -> Option<Seq<char>> {
    match text {
        Some(s) => Some(s@),
        None => None,
    }
}

/// What the configuration says of the tenants: the id of the one that is served, if it names one.
pub fn tenant_rule(configured: Option<&str>) -> (r: TenantRule)
    ensures
        r == configured_rule(optional(configured)),
{
    match configured {
        Some(expected) => match identity::parse_id(expected) {
            Ok(id) => TenantRule::Only(id),
            Err(_) => TenantRule::Malformed,
        },
        None => TenantRule::Any,
    }
}

impl TenantRule {
    /// The tenant is served.
    pub open spec fn admits(self, tenant_id: u128) -> bool {
        match self {
            TenantRule::Any => true,
            TenantRule::Only(expected) => expected == tenant_id,
            TenantRule::Malformed => false,
        }
    }

    /// The refusal is the one that the rule gives a tenant that is not served.
    pub open spec fn refuses(self, error: ApiError) -> bool {
        match self {
            TenantRule::Malformed => error.says(
                reply::INTERNAL_SERVER_ERROR,
                "OBSERVABILITY_TENANT_ID must be a UUID"@,
            ),
            _ => error.says(reply::FORBIDDEN, "tenant is not authorized"@),
        }
    }

    /// Refuses a tenant that is not served.
    pub fn check(&self, tenant_id: u128) -> (r: Result<(), ApiError>)
        ensures
            match r {
                Ok(_) => self.admits(tenant_id),
                Err(error) => !self.admits(tenant_id) && self.refuses(error),
            },
    {
        match self {
            TenantRule::Any => Ok(()),
            TenantRule::Only(expected) => if *expected == tenant_id {
                Ok(())
            } else {
                Err(ApiError::new(reply::FORBIDDEN, "tenant is not authorized"))
            },
            TenantRule::Malformed => Err(
                ApiError::new(
                    reply::INTERNAL_SERVER_ERROR,
                    "OBSERVABILITY_TENANT_ID must be a UUID",
                ),
            ),
        }
    }
}

/// Refuses a tenant other than the configured one, where one is configured.
pub fn enforce_tenant(configured: Option<&str>, tenant_id: u128) -> (r: Result<(), ApiError>)
    ensures
        match r {
            Ok(_) => configured_rule(optional(configured)).admits(tenant_id),
            Err(error) => !configured_rule(optional(configured)).admits(tenant_id)
                && configured_rule(optional(configured)).refuses(error),
        },
{
    tenant_rule(configured).check(tenant_id)
}

/// The tenant that the key of a request was given out for, if it was for one.
#[derive(Debug, Clone, Copy, PartialEq, Eq, Structural)]
pub struct AuthorizedTenant(pub Option<u128>);

impl Default for AuthorizedTenant {
    fn default() -> (r: Self)
        ensures
            r == AuthorizedTenant(None),
    {
        AuthorizedTenant(None)
    }
}

impl AuthorizedTenant {
    /// The key may be used for the tenant.
    pub open spec fn covers(self, tenant_id: u128) -> bool {
        self.0 matches Some(expected) ==> expected == tenant_id
    }
}

/// Refuses a tenant that the rule does not admit, and then one that the key was not given out for.
pub fn check_tenant_for(rule: TenantRule, authorized: &AuthorizedTenant, tenant_id: u128) -> (r:
    Result<(), ApiError>)
    ensures
        match r {
            Ok(_) => rule.admits(tenant_id) && authorized.covers(tenant_id),
            Err(error) => if rule.admits(tenant_id) {
                !authorized.covers(tenant_id) && error.says(
                    reply::FORBIDDEN,
                    "tenant is not authorized"@,
                )
            } else {
                rule.refuses(error)
            },
        },
{
    match rule.check(tenant_id) {
        Ok(_) => {},
        Err(error) => {
            return Err(error);
        },
    }
    match authorized.0 {
        Some(expected) => if expected == tenant_id {
            Ok(())
        } else {
            Err(ApiError::new(reply::FORBIDDEN, "tenant is not authorized"))
        },
        None => Ok(()),
    }
}

/// Refuses a tenant other than the configured one, and then one that the key was not given out
/// for.
pub fn enforce_tenant_for(
    configured: Option<&str>,
    authorized: &AuthorizedTenant,
    tenant_id: u128,
) -> (r: Result<(), ApiError>)
    ensures
        match r {
            Ok(_) => configured_rule(optional(configured)).admits(tenant_id) && authorized.covers(
                tenant_id,
            ),
            Err(error) => if configured_rule(optional(configured)).admits(tenant_id) {
                !authorized.covers(tenant_id) && error.says(
                    reply::FORBIDDEN,
                    "tenant is not authorized"@,
                )
            } else {
                configured_rule(optional(configured)).refuses(error)
            },
        },
{
    check_tenant_for(tenant_rule(configured), authorized, tenant_id)
}

/// A key that was given out for a tenant.
#[derive(Debug, Clone, PartialEq, Eq)]
pub struct KeyEntry {
    pub tenant_id: u128,
    pub secret: String,
}

/// The values of keys.
pub open spec fn entry_views(entries: Seq<KeyEntry>) -> Seq<(u128, Seq<char>)> {
    Seq::new(entries.len(), |i: int| (entries[i].tenant_id, entries[i].secret@))
}

/// What one part of a key mapping says: a tenant, an equals sign and a secret, with white space
/// around each of the two; anything else says nothing.
pub open spec fn key_entry(part: Seq<char>) -> Option<(u128, Seq<char>)> {
    match text::cut(part, '=') {
        Some(pair) => match identity::id_parsed(text::trimmed(pair.0)) {
            Ok(tenant_id) => Some((tenant_id, text::trimmed(pair.1))),
            Err(_) => None,
        },
        None => None,
    }
}

/// What the parts of a key mapping say.
pub open spec fn key_entries(parts: Seq<Seq<char>>) -> Seq<(u128, Seq<char>)>
    decreases parts.len(),
{
    if parts.len() == 0 {
        Seq::empty()
    } else {
        let before = key_entries(parts.drop_last());
        match key_entry(parts.last()) {
            Some(entry) => before.push(entry),
            None => before,
        }
    }
}

/// The keys of a mapping such as `tenant=secret,tenant=secret`.
pub fn read_key_entries(mapping: &str) -> (r: Vec<KeyEntry>)
    ensures
        entry_views(r@) == key_entries(text::parts_of(mapping@, ',')),
{
    let parts: Vec<String> = text::split(mapping, ',');
    let ghost all = text::views(parts@);
    let mut r: Vec<KeyEntry> = Vec::new();
    assert(all.take(0) =~= Seq::empty());
    assert(entry_views(r@) =~= key_entries(all.take(0)));
    let mut i: usize = 0;
    while i < parts.len()
        invariant
            i <= parts.len(),
            all == text::views(parts@),
            entry_views(r@) == key_entries(all.take(i as int)),
        decreases parts.len() - i,
    {
        assert(all.take(i + 1).drop_last() =~= all.take(i as int));
        assert(all.take(i + 1).last() == parts@[i as int]@);
        match text::split_once(parts[i].as_str(), '=') {
            Some(pair) => {
                let name: &str = text::trim(pair.0.as_str());
                match identity::parse_id(name) {
                    Ok(tenant_id) => {
                        let ghost before = r@;
                        let secret: &str = text::trim(pair.1.as_str());
                        r.push(KeyEntry { tenant_id, secret: secret.to_owned() });
                        assert(entry_views(r@) =~= entry_views(before).push((tenant_id, secret@)));
                    },
                    Err(_) => {},
                }
            },
            None => {},
        }
        i += 1;
    }
    assert(all.take(all.len() as int) =~= all);
    r
}

/// The keys hold one with this secret for this tenant.
pub open spec fn granted(
    entries: Seq<(u128, Seq<char>)>,
    key: Option<Seq<char>>,
    tenant_id: Option<u128>,
) -> bool {
    key is Some && tenant_id is Some && entries.contains((tenant_id->0, key->0))
}

/// Whether the keys hold one with this secret for this tenant.
pub fn is_granted(entries: &Vec<KeyEntry>, key: Option<&str>, tenant_id: Option<u128>) -> (r: bool)
    ensures
        r == granted(entry_views(entries@), optional(key), tenant_id),
{
    match (key, tenant_id) {
        (Some(secret), Some(tenant)) => {
            let ghost wanted = (tenant, secret@);
            let mut i: usize = 0;
            while i < entries.len()
                invariant
                    i <= entries.len(),
                    key == Some(secret),
                    tenant_id == Some(tenant),
                    wanted == (tenant, secret@),
                    forall|k: int| 0 <= k < i ==> entry_views(entries@)[k] != wanted,
                decreases entries.len() - i,
            {
                if entries[i].tenant_id == tenant && text::same(entries[i].secret.as_str(), secret) {
                    assert(entry_views(entries@)[i as int] == wanted);
                    return true;
                }
                i += 1;
            }
            false
        },
        _ => false,
    }
}

/// Which keys are asked for.
#[derive(Debug, Clone, PartialEq, Eq)]
pub struct KeyPolicy {
    /// Whether this is a production installation, which must ask for keys.
    pub production: bool,
    /// The keys of tenants, where there are such.
    pub entries: Option<Vec<KeyEntry>>,
    /// The key of the installation, where there is one.
    pub global: Option<String>,
}

/// The value of a policy.
pub struct PolicyView {
    pub production: bool,
    pub entries: Option<Seq<(u128, Seq<char>)>>,
    pub global: Option<Seq<char>>,
}

impl View for KeyPolicy {
    type V = PolicyView;

    open spec fn view(&self) -> PolicyView {
        PolicyView {
            production: self.production,
            entries: match self.entries {
                Some(entries) => Some(entry_views(entries@)),
                None => None,
            },
            global: match self.global {
                Some(key) => Some(key@),
                None => None,
            },
        }
    }
}

/// What the configuration says of keys. A blank mapping, and an empty key, are as none.
pub open spec fn configured_policy(
    environment: Option<Seq<char>>,
    mapping: Option<Seq<char>>,
    global: Option<Seq<char>>,
) -> PolicyView {
    PolicyView {
        production: environment == Some("production"@),
        entries: match mapping {
            Some(entries) => if text::blank(entries) {
                None
            } else {
                Some(key_entries(text::parts_of(entries, ',')))
            },
            None => None,
        },
        global: match global {
            Some(key) => if key.len() == 0 {
                None
            } else {
                Some(key)
            },
            None => None,
        },
    }
}

/// What the configuration says of keys.
pub fn read_policy(environment: Option<&str>, mapping: Option<&str>, global: Option<&str>) -> (r:
    KeyPolicy)
    ensures
        r@ == configured_policy(optional(environment), optional(mapping), optional(global)),
{
    let production: bool = match environment {
        Some(name) => text::same(name, "production"),
        None => false,
    };
    let entries: Option<Vec<KeyEntry>> = match mapping {
        Some(entries) => if text::is_blank(entries) {
            None
        } else {
            Some(read_key_entries(entries))
        },
        None => None,
    };
    let global: Option<String> = match global {
        Some(key) => if key.is_empty() {
            None
        } else {
            Some(key.to_owned())
        },
        None => None,
    };
    KeyPolicy { production, entries, global }
}

impl PolicyView {
    /// What a request is answered: the tenant that its key was given out for, if it was for one, or
    /// the status of the refusal. The health check is open to everyone. Where tenants have keys, the
    /// request needs one of them together with its tenant; else it needs the key of the
    /// installation, where there is one.
    pub open spec fn verdict(
        self,
        path: Seq<char>,
        key: Option<Seq<char>>,
        tenant_id: Option<u128>,
    ) -> Result<AuthorizedTenant, u16> {
        if path == "/health"@ {
            Ok(AuthorizedTenant(None))
        } else {
            match self.entries {
                Some(entries) => if granted(entries, key, tenant_id) {
                    Ok(AuthorizedTenant(tenant_id))
                } else {
                    Err(reply::UNAUTHORIZED)
                },
                None => match self.global {
                    Some(expected) => if key == Some(expected) {
                        Ok(AuthorizedTenant(None))
                    } else {
                        Err(reply::UNAUTHORIZED)
                    },
                    None => if self.production {
                        Err(reply::INTERNAL_SERVER_ERROR)
                    } else {
                        Ok(AuthorizedTenant(None))
                    },
                },
            }
        }
    }
}

impl KeyPolicy {
    /// Decides on a request by its path, its key and its tenant.
    pub fn authorize(&self, path: &str, key: Option<&str>, tenant_id: Option<u128>) -> (r: Result<
        AuthorizedTenant,
        u16,
    >)
        ensures
            r == self@.verdict(path@, optional(key), tenant_id),
    {
        if text::same(path, "/health") {
            return Ok(AuthorizedTenant(None));
        }
        match &self.entries {
            Some(entries) => if is_granted(entries, key, tenant_id) {
                Ok(AuthorizedTenant(tenant_id))
            } else {
                Err(reply::UNAUTHORIZED)
            },
            None => match &self.global {
                Some(expected) => {
                    let matches: bool = match key {
                        Some(supplied) => text::same(supplied, expected.as_str()),
                        None => false,
                    };
                    if matches {
                        Ok(AuthorizedTenant(None))
                    } else {
                        Err(reply::UNAUTHORIZED)
                    }
                },
                None => if self.production {
                    Err(reply::INTERNAL_SERVER_ERROR)
                } else {
                    Ok(AuthorizedTenant(None))
                },
            },
        }
    }
}

/// The tenant that a header names, where its text is an id.
pub open spec fn named_tenant(header: Option<Seq<char>>) -> Option<u128> {
    match header {
        Some(name) => match identity::id_parsed(name) {
            Ok(id) => Some(id),
            Err(_) => None,
        },
        None => None,
    }
}

/// The tenant that a header names, where its text is an id.
pub fn tenant_of(header: Option<&str>) -> (r: Option<u128>)
    ensures
        r == named_tenant(optional(header)),
{
    match header {
        Some(name) => identity::read_id(name),
        None => None,
    }
}

/// Decides on a request by its path and the headers with its key and its tenant, as the
/// configuration says.
pub fn api_key_guard(
    environment: Option<&str>,
    mapping: Option<&str>,
    global: Option<&str>,
    path: &str,
    key: Option<&str>,
    tenant: Option<&str>,
) -> (r: Result<AuthorizedTenant, u16>)
    ensures
        r == configured_policy(
            optional(environment),
            optional(mapping),
            optional(global),
        ).verdict(path@, optional(key), named_tenant(optional(tenant))),
{
    read_policy(environment, mapping, global).authorize(path, key, tenant_of(tenant))
}

/// A text that can be the value of a header: no control characters but the tab.
pub open spec fn header_text(s: Seq<char>) -> bool {
    forall|i: int| 0 <= i < s.len() ==> #[trigger] s[i] == '\t' || (s[i] >= ' ' && s[i] != '\x7f')
}

/// Calls `http::HeaderValue::from_str`, as `axum::http` has it, which accepts a text exactly where
/// each of its bytes is a tab, or at least 32 and not 127.
#[verifier::external_body]
pub(crate) fn is_header_value(s: &str) -> (r: bool)
    ensures
        r == header_text(s@),
{
    axum::http::HeaderValue::from_str(s).is_ok()
}

/// The origins among the parts of a list: each without the white space around it, where it can be
/// the value of a header.
pub open spec fn origins_among(parts: Seq<Seq<char>>) -> Seq<Seq<char>>
    decreases parts.len(),
{
    if parts.len() == 0 {
        Seq::empty()
    } else {
        let before = origins_among(parts.drop_last());
        if header_text(text::trimmed(parts.last())) {
            before.push(text::trimmed(parts.last()))
        } else {
            before
        }
    }
}

/// The origins of a list that is separated by commas.
pub fn cors_origins(list: &str) -> (r: Vec<String>)
    ensures
        text::views(r@) == origins_among(text::parts_of(list@, ',')),
{
    let parts: Vec<String> = text::split(list, ',');
    let ghost all = text::views(parts@);
    let mut r: Vec<String> = Vec::new();
    assert(all.take(0) =~= Seq::empty());
    assert(text::views(r@) =~= origins_among(all.take(0)));
    let mut i: usize = 0;
    while i < parts.len()
        invariant
            i <= parts.len(),
            all == text::views(parts@),
            text::views(r@) == origins_among(all.take(i as int)),
        decreases parts.len() - i,
    {
        assert(all.take(i + 1).drop_last() =~= all.take(i as int));
        assert(all.take(i + 1).last() == parts@[i as int]@);
        let origin: &str = text::trim(parts[i].as_str());
        if is_header_value(origin) {
            let ghost before = r@;
            r.push(origin.to_owned());
            assert(text::views(r@) =~= text::views(before).push(origin@));
        }
        i += 1;
    }
    assert(all.take(all.len() as int) =~= all);
    r
}

/// What browsers are allowed.
#[derive(Debug, Clone, PartialEq, Eq)]
pub enum CorsPolicy {
    /// Everything.
    Permissive,
    /// Requests from these origins, with these methods and these headers, and nothing else.
    Listed { origins: Vec<String>, methods: Vec<String>, headers: Vec<String> },
}

/// The methods that listed origins may use.
pub open spec fn allowed_methods() -> Seq<Seq<char>> {
    seq!["GET"@, "POST"@]
}

/// The headers that listed origins may send.
pub open spec fn allowed_headers() -> Seq<Seq<char>> {
    seq!["content-type"@, "x-api-key"@, "x-tenant-id"@, "idempotency-key"@]
}

/// What browsers are allowed as the configuration says: everything where no origins are listed.
pub fn cors_policy(list: Option<&str>) -> (r: CorsPolicy)
    ensures
        match list {
            Some(origins) => {
                &&& r is Listed
                &&& text::views(r->origins@) == origins_among(text::parts_of(origins@, ','))
                &&& text::views(r->methods@) == allowed_methods()
                &&& text::views(r->headers@) == allowed_headers()
            },
            None => r is Permissive,
        },
{
    match list {
        Some(origins) => {
            let mut methods: Vec<String> = Vec::new();
            methods.push("GET".to_owned());
            methods.push("POST".to_owned());
            assert(text::views(methods@) =~= allowed_methods());
            let mut headers: Vec<String> = Vec::new();
            headers.push("content-type".to_owned());
            headers.push("x-api-key".to_owned());
            headers.push("x-tenant-id".to_owned());
            headers.push("idempotency-key".to_owned());
            assert(text::views(headers@) =~= allowed_headers());
            CorsPolicy::Listed { origins: cors_origins(origins), methods, headers }
        },
        None => CorsPolicy::Permissive,
    }
}

/// A request that gets through with the key of a tenant is held to that tenant: it names the
/// tenant, the mapping has the key for it, and no other tenant is covered.
pub proof fn tenant_keys_are_held_to_their_tenant(
    policy: PolicyView,
    path: Seq<char>,
    key: Option<Seq<char>>,
    tenant_id: Option<u128>,
    other: u128,
)
    requires
        policy.entries is Some,
        path != "/health"@,
        policy.verdict(path, key, tenant_id) is Ok,
    ensures
        tenant_id is Some,
        key is Some,
        policy.entries->0.contains((tenant_id->0, key->0)),
        other != tenant_id->0 ==> !(policy.verdict(path, key, tenant_id)->Ok_0).covers(other),
{
}

/// A production installation without keys refuses everything but the health check.
pub proof fn production_needs_keys(
    policy: PolicyView,
    path: Seq<char>,
    key: Option<Seq<char>>,
    tenant_id: Option<u128>,
)
    requires
        policy.production,
        policy.entries is None,
        policy.global is None,
    ensures
        policy.verdict(path, key, tenant_id) == if path == "/health"@ {
            Ok(AuthorizedTenant(None))
        } else {
            Err(reply::INTERNAL_SERVER_ERROR)
        },
{
}

/// Where any key is configured, a request without a key is refused, but for the health check.
pub proof fn configured_keys_are_asked_for(
    policy: PolicyView,
    path: Seq<char>,
    tenant_id: Option<u128>,
)
    requires
        policy.entries is Some || policy.global is Some,
        path != "/health"@,
    ensures
        policy.verdict(path, None, tenant_id) == Err::<AuthorizedTenant, u16>(reply::UNAUTHORIZED),
{
}

/// A tenant is served where no tenant is configured or it is the configured one. Any other tenant is
/// forbidden, and where the configured one is no id nobody is served and the installation is at
/// fault.
pub proof fn one_configured_tenant_is_served(
    configured: Option<&str>,
    tenant_id: u128,
    r: Result<(), ApiError>,
)
    requires
        call_ensures(enforce_tenant, (configured, tenant_id), r),
    ensures
        configured is None ==> r is Ok,
        configured is Some ==> match identity::id_parsed(configured->0@) {
            Ok(id) => {
                &&& r is Ok <==> id == tenant_id
                &&& r is Err ==> r->Err_0.status == 403 && r->Err_0.message@
                    == "tenant is not authorized"@
            },
            Err(_) => r is Err && r->Err_0.status == 500 && r->Err_0.message@
                == "OBSERVABILITY_TENANT_ID must be a UUID"@,
        },
{
}

/// A key that was given out for a tenant serves that tenant alone, and only where the tenant is
/// served at all; a key of no tenant serves every tenant that is served.
pub proof fn a_key_serves_its_tenant(
    configured: Option<&str>,
    authorized: &AuthorizedTenant,
    tenant_id: u128,
    r: Result<(), ApiError>,
    served: Result<(), ApiError>,
)
    requires
        call_ensures(enforce_tenant_for, (configured, authorized, tenant_id), r),
        call_ensures(enforce_tenant, (configured, tenant_id), served),
    ensures
        r is Ok <==> served is Ok && (authorized.0 is None || authorized.0 == Some(tenant_id)),
        served is Err ==> r is Err && r->Err_0.status == served->Err_0.status && r->Err_0.message@
            == served->Err_0.message@,
        served is Ok && r is Err ==> r->Err_0.status == 403 && r->Err_0.message@
            == "tenant is not authorized"@,
{
}

/// The same decisions for a rule that was read before: a rule admits a tenant as the configuration
/// that it was read from does.
pub proof fn a_rule_decides_as_its_configuration(
    configured: Option<&str>,
    rule: TenantRule,
    authorized: &AuthorizedTenant,
    tenant_id: u128,
    by_rule: Result<(), ApiError>,
    direct: Result<(), ApiError>,
)
    requires
        call_ensures(tenant_rule, (configured,), rule),
        call_ensures(check_tenant_for, (rule, authorized, tenant_id), by_rule),
        call_ensures(enforce_tenant_for, (configured, authorized, tenant_id), direct),
    ensures
        by_rule is Ok <==> direct is Ok,
        by_rule is Err ==> by_rule->Err_0.status == direct->Err_0.status && by_rule->Err_0.message@
            == direct->Err_0.message@,
{
}

/// A rule that names a tenant admits that tenant and no other; the rule for any tenant admits all,
/// and a malformed one none.
pub proof fn a_rule_admits_its_tenant(rule: &TenantRule, tenant_id: u128, r: Result<(), ApiError>)
    requires
        call_ensures(TenantRule::check, (rule, tenant_id), r),
    ensures
        *rule == TenantRule::Any ==> r is Ok,
        *rule is Only ==> (r is Ok <==> rule->Only_0 == tenant_id),
        *rule == TenantRule::Malformed ==> r is Err && r->Err_0.status == 500,
        *rule is Only && r is Err ==> r->Err_0.status == 403 && r->Err_0.message@
            == "tenant is not authorized"@,
        rule.admits(tenant_id) <==> r is Ok,
{
}

/// The health check needs no key. Where a mapping of keys is configured any other request needs a
/// secret of the mapping together with its tenant, and is held to that tenant. Where only a key of
/// the installation is configured the request needs just that key. Without any key a production
/// installation refuses everything, and any other lets everything in.
pub proof fn a_request_needs_a_configured_key(
    environment: Option<&str>,
    mapping: Option<&str>,
    global: Option<&str>,
    path: &str,
    key: Option<&str>,
    tenant: Option<&str>,
    r: Result<AuthorizedTenant, u16>,
)
    requires
        call_ensures(api_key_guard, (environment, mapping, global, path, key, tenant), r),
    ensures
        path@ == "/health"@ ==> r == Ok::<AuthorizedTenant, u16>(AuthorizedTenant(None)),
        path@ != "/health"@ ==> if mapping is Some && exists|i: int|
            0 <= i < mapping->0@.len() && !text::white(#[trigger] mapping->0@[i]) {
            let held = key is Some && tenant is Some && identity::id_parsed(tenant->0@) is Ok
                && key_entries(text::parts_of(mapping->0@, ',')).contains(
                (identity::id_parsed(tenant->0@)->Ok_0, key->0@),
            );
            &&& held ==> r == Ok::<AuthorizedTenant, u16>(
                AuthorizedTenant(Some(identity::id_parsed(tenant->0@)->Ok_0)),
            )
            &&& !held ==> r == Err::<AuthorizedTenant, u16>(401)
        } else if global is Some && global->0@.len() > 0 {
            &&& key is Some && key->0@ == global->0@ ==> r == Ok::<AuthorizedTenant, u16>(
                AuthorizedTenant(None),
            )
            &&& key is None || key->0@ != global->0@ ==> r == Err::<AuthorizedTenant, u16>(401)
        } else if environment is Some && environment->0@ == "production"@ {
            r == Err::<AuthorizedTenant, u16>(500)
        } else {
            r == Ok::<AuthorizedTenant, u16>(AuthorizedTenant(None))
        },
{
    if mapping is Some {
        assert(text::blank(mapping->0@) <==> !exists|i: int|
            0 <= i < mapping->0@.len() && !text::white(#[trigger] mapping->0@[i]));
    }
}

/// A part of a mapping gives out a key where it holds an equals sign and what stands before the
/// first one, without white space around it, is an id: the secret is what stands behind it, without
/// white space around it. Parts are read one after the other, and any other part gives out nothing.
pub proof fn a_mapping_gives_out_keys_part_by_part(
    parts: Seq<Seq<char>>,
    name: Seq<char>,
    secret: Seq<char>,
    plain: Seq<char>,
)
    requires
        !name.contains('='),
        !plain.contains('='),
    ensures
        key_entries(Seq::empty()) == Seq::<(u128, Seq<char>)>::empty(),
        key_entries(parts.push(plain)) == key_entries(parts),
        identity::id_parsed(text::trimmed(name)) is Err ==> key_entries(
            parts.push(name + seq!['='] + secret),
        ) == key_entries(parts),
        identity::id_parsed(text::trimmed(name)) is Ok ==> key_entries(
            parts.push(name + seq!['='] + secret),
        ) == key_entries(parts).push(
            (identity::id_parsed(text::trimmed(name))->Ok_0, text::trimmed(secret)),
        ),
{
    let part = name + seq!['='] + secret;
    assert(parts.push(plain).drop_last() =~= parts);
    assert(parts.push(part).drop_last() =~= parts);
    assert forall|i: int| 0 <= i < plain.len() implies plain[i] != '=' by {
        assert(plain.contains(plain[i]));
    }
    text::lemma_mark_at_is(plain, '=', plain.len() as int);
    assert forall|i: int| 0 <= i < name.len() implies part[i] != '=' by {
        assert(name.contains(name[i]));
    }
    text::lemma_mark_at_is(part, '=', name.len() as int);
    assert(part.take(name.len() as int) =~= name);
    assert(part.skip(name.len() as int + 1) =~= secret);
}

/// Keys are read as the parts of the mapping between its commas say, and one is held where its
/// tenant and its secret stand together.
pub proof fn a_key_is_held_with_its_tenant(
    mapping: &str,
    entries: Vec<KeyEntry>,
    key: Option<&str>,
    tenant_id: Option<u128>,
    r: bool,
)
    requires
        call_ensures(read_key_entries, (mapping,), entries),
        call_ensures(is_granted, (&entries, key, tenant_id), r),
    ensures
        r <==> key is Some && tenant_id is Some && exists|i: int|
            0 <= i < entries@.len() && (#[trigger] entries@[i]).tenant_id == tenant_id->0
                && entries@[i].secret@ == key->0@,
        entries@.len() == key_entries(text::parts_of(mapping@, ',')).len(),
        forall|i: int|
            0 <= i < entries@.len() ==> (
                (#[trigger] entries@[i]).tenant_id,
                entries@[i].secret@,
            ) == key_entries(text::parts_of(mapping@, ','))[i],
{
    let views = entry_views(entries@);
    assert forall|i: int| 0 <= i < entries@.len() implies (
        (#[trigger] entries@[i]).tenant_id,
        entries@[i].secret@,
    ) == views[i] by {}
    if r {
        let wanted = (tenant_id->0, key->0@);
        let i = choose|i: int| 0 <= i < views.len() && views[i] == wanted;
        assert(entries@[i].tenant_id == tenant_id->0);
    }
    if key is Some && tenant_id is Some && exists|i: int|
        0 <= i < entries@.len() && (#[trigger] entries@[i]).tenant_id == tenant_id->0
            && entries@[i].secret@ == key->0@ {
        let i = choose|i: int|
            0 <= i < entries@.len() && (#[trigger] entries@[i]).tenant_id == tenant_id->0
                && entries@[i].secret@ == key->0@;
        assert(views[i] == (tenant_id->0, key->0@));
    }
}

/// A header names a tenant where its text is an id.
pub proof fn a_header_names_its_tenant(header: Option<&str>, r: Option<u128>)
    requires
        call_ensures(tenant_of, (header,), r),
    ensures
        header is None ==> r is None,
        header is Some && identity::id_parsed(header->0@) is Ok ==> r == Some(
            identity::id_parsed(header->0@)->Ok_0,
        ),
        header is Some && identity::id_parsed(header->0@) is Err ==> r is None,
{
}

/// Browsers are allowed everything where no origins are listed. Else they are allowed the listed
/// ones, with two methods and four headers: each part between the commas that can be the value of a
/// header is an origin, without the white space around it.
pub proof fn browsers_are_held_to_the_listed_origins(list: Option<&str>, r: CorsPolicy)
    requires
        call_ensures(cors_policy, (list,), r),
    ensures
        list is None ==> r is Permissive,
        list is Some ==> {
            &&& r is Listed
            &&& text::views(r->origins@) == origins_among(text::parts_of(list->0@, ','))
            &&& r->methods@.len() == 2
            &&& r->methods@[0]@ == "GET"@
            &&& r->methods@[1]@ == "POST"@
            &&& r->headers@.len() == 4
            &&& r->headers@[0]@ == "content-type"@
            &&& r->headers@[1]@ == "x-api-key"@
            &&& r->headers@[2]@ == "x-tenant-id"@
            &&& r->headers@[3]@ == "idempotency-key"@
        },
{
    if list is Some {
        let methods = text::views(r->methods@);
        let headers = text::views(r->headers@);
        assert(methods.len() == 2 && headers.len() == 4);
        assert(methods[0] == r->methods@[0]@ && methods[1] == r->methods@[1]@);
        assert(headers[0] == r->headers@[0]@ && headers[1] == r->headers@[1]@);
        assert(headers[2] == r->headers@[2]@ && headers[3] == r->headers@[3]@);
    }
}

/// One more part adds its origin behind the others, where that can be the value of a header.
pub proof fn origins_are_read_part_by_part(parts: Seq<Seq<char>>, part: Seq<char>)
    ensures
        origins_among(Seq::empty()) == Seq::<Seq<char>>::empty(),
        header_text(text::trimmed(part)) ==> origins_among(parts.push(part)) == origins_among(
            parts,
        ).push(text::trimmed(part)),
        !header_text(text::trimmed(part)) ==> origins_among(parts.push(part)) == origins_among(
            parts,
        ),
{
    assert(parts.push(part).drop_last() =~= parts);
}

/// A policy that was read before decides as its configuration does. A key of no tenant is the
/// default.
pub proof fn a_policy_decides_as_its_configuration(
    environment: Option<&str>,
    mapping: Option<&str>,
    global: Option<&str>,
    policy: KeyPolicy,
    path: &str,
    key: Option<&str>,
    tenant: Option<&str>,
    tenant_id: Option<u128>,
    r: Result<AuthorizedTenant, u16>,
    guarded: Result<AuthorizedTenant, u16>,
    default: AuthorizedTenant,
)
    requires
        call_ensures(read_policy, (environment, mapping, global), policy),
        call_ensures(tenant_of, (tenant,), tenant_id),
        call_ensures(KeyPolicy::authorize, (&policy, path, key, tenant_id), r),
        call_ensures(api_key_guard, (environment, mapping, global, path, key, tenant), guarded),
        call_ensures(AuthorizedTenant::default, (), default),
    ensures
        r == guarded,
        default.0 is None,
{
}

} // verus!
