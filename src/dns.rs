//! DNS provider clients: credentials, records, and the REST provider's
//! requests and replies.
use vstd::prelude::*;

use crate::ip::ResolvedIp;

verus! {

/// The API key and secret of one provider.
#[derive(Clone, Debug)]
pub struct Credentials {
    pub api_key: String,
    pub api_secret: String,
}

impl View for Credentials {
    type V = (Seq<char>, Seq<char>);

    open spec fn view(&self) -> (Seq<char>, Seq<char>) {
        (self.api_key@, self.api_secret@)
    }
}

/// A provider's view of one record at one moment.
#[derive(Clone, Debug)]
pub struct DnsRecord {
    pub name: String,
    pub record_type: String,
    pub data: String,
    pub ttl: u32,
}

impl View for DnsRecord {
    type V = (Seq<char>, Seq<char>, Seq<char>, u32);

    open spec fn view(&self) -> (Seq<char>, Seq<char>, Seq<char>, u32) {
        (self.name@, self.record_type@, self.data@, self.ttl)
    }
}

/// The time-to-live given to a record when nothing else sets one.
pub const DEFAULT_TTL: u32 = 600;

impl DnsRecord {
    pub fn new(name: &str, record_type: &str, ip: &ResolvedIp, ttl: u32) -> (r: DnsRecord)
        ensures
            r.name@ == name@,
            r.record_type@ == record_type@,
            r.data@ == ip.text@,
            r.ttl == ttl,
    {
        DnsRecord {
            name: String::from_str(name),
            record_type: String::from_str(record_type),
            data: ip.text.clone(),
            ttl,
        }
    }
}

/// A record object as the provider's API writes it.
#[derive(Clone, Debug)]
pub struct ApiRecord {
    pub data: String,
    pub name: Option<String>,
    pub ttl: Option<u32>,
    pub record_type: Option<String>,
}

/// Why a provider call failed.
#[derive(Clone, Debug)]
pub enum ProviderError {
    /// The request could not be sent or its reply not received.
    Network(String),
    /// The reply's body was not the expected list of records.
    Decode(String),
    /// The provider answered with a status outside 200..=299.
    HttpStatus { status: u16, body: String },
    /// The reply listed no record of that name.
    NotFound { name: String, domain: String },
}

/// A provider name that no client is known for.
#[derive(Clone, Debug)]
pub struct UnknownProviderError {
    pub name: String,
}

pub open spec fn is_success(status: u16) -> bool {
    200 <= status <= 299
}

pub open spec fn api_base() -> Seq<char> {
    "https://api.godaddy.com/v1"@
}

/// The REST path of one record.
pub open spec fn record_url_spec(domain: Seq<char>, record_type: Seq<char>, name: Seq<char>) -> Seq<
    char,
> {
    api_base() + "/domains/"@ + domain + "/records/"@ + record_type + "/"@ + name
}

pub open spec fn auth_header_spec(c: (Seq<char>, Seq<char>)) -> Seq<char> {
    "sso-key "@ + c.0 + ":"@ + c.1
}

/// Reads a status reply: success exactly for a 2xx status, else the status
/// and the body as the error.
pub fn check_status(status: u16, body: String) -> (r: Result<(), ProviderError>)
    ensures
        r is Ok <==> is_success(status),
        r matches Err(ProviderError::HttpStatus { status: s, body: b }) ==> s == status && b
            == body,
        r is Err ==> r->Err_0 is HttpStatus,
{
    if 200 <= status && status <= 299 {
        Ok(())
    } else {
        Err(ProviderError::HttpStatus { status, body })
    }
}

/// The client of the REST provider: it turns record operations into requests,
/// and replies into records.
#[derive(Clone, Debug)]
pub struct GoDaddyProvider {
    credentials: Credentials,
}

impl GoDaddyProvider {
    pub closed spec fn credentials_spec(&self) -> (Seq<char>, Seq<char>) {
        self.credentials@
    }

    pub fn new(credentials: Credentials) -> (r: GoDaddyProvider)
        ensures
            r.credentials_spec() == credentials@,
    {
        GoDaddyProvider { credentials }
    }

    pub fn provider_name(&self) -> (r: &'static str)
        ensures
            r@ == "godaddy"@,
    {
        "godaddy"
    }

    /// The value of the `Authorization` header of every request.
    pub fn auth_header(&self) -> (r: String)
        ensures
            r@ == auth_header_spec(self.credentials_spec()),
    {
        let r = String::from_str("sso-key ");
        let r = r.concat(self.credentials.api_key.as_str());
        let r = r.concat(":");
        r.concat(self.credentials.api_secret.as_str())
    }

    /// The URL that both reading and replacing a record use.
    pub fn record_url(&self, domain: &str, record_type: &str, name: &str) -> (r: String)
        ensures
            r@ == record_url_spec(domain@, record_type@, name@),
    {
        let r = String::from_str("https://api.godaddy.com/v1");
        let r = r.concat("/domains/");
        let r = r.concat(domain);
        let r = r.concat("/records/");
        let r = r.concat(record_type);
        let r = r.concat("/");
        r.concat(name)
    }

    /// Reads the reply to a record lookup. `decoded` is the reply's body read
    /// as a list of record objects; it is looked at only on success.
    pub fn read_record(
        &self,
        domain: &str,
        record_type: &str,
        name: &str,
        status: u16,
        body: String,
        decoded: Result<Vec<ApiRecord>, String>,
    ) -> (r: Result<DnsRecord, ProviderError>)
        ensures
            !is_success(status) ==> (r matches Err(ProviderError::HttpStatus { status: s, body: b })
                && s == status && b == body),
            is_success(status) ==> match decoded {
                Err(msg) => r == Err::<DnsRecord, ProviderError>(ProviderError::Decode(msg)),
                Ok(list) => if list.len() == 0 {
                    r matches Err(ProviderError::NotFound { name: n, domain: d }) && n@ == name@
                        && d@ == domain@
                } else {
                    r matches Ok(rec) && rec.name@ == name@ && rec.record_type@ == record_type@
                        && rec.data == list[0].data && rec.ttl == (match list[0].ttl {
                        Some(t) => t,
                        None => DEFAULT_TTL,
                    })
                },
            },
    {
        match check_status(status, body) {
            Err(e) => Err(e),
            Ok(()) => match decoded {
                Err(msg) => Err(ProviderError::Decode(msg)),
                Ok(list) => {
                    if list.len() == 0 {
                        Err(
                            ProviderError::NotFound {
                                name: String::from_str(name),
                                domain: String::from_str(domain),
                            },
                        )
                    } else {
                        let mut list = list;
                        let first = list.swap_remove(0);
                        let ttl = match first.ttl {
                            Some(t) => t,
                            None => DEFAULT_TTL,
                        };
                        Ok(
                            DnsRecord {
                                name: String::from_str(name),
                                record_type: String::from_str(record_type),
                                data: first.data,
                                ttl,
                            },
                        )
                    }
                },
            },
        }
    }

    /// The body of a replacing request: one record object with the new data
    /// and time-to-live, and nothing else.
    pub fn update_payload(&self, record: &DnsRecord) -> (r: Vec<ApiRecord>)
        ensures
            r.len() == 1,
            r[0].data == record.data,
            r[0].ttl == Some(record.ttl),
            r[0].name is None,
            r[0].record_type is None,
    {
        let mut r: Vec<ApiRecord> = Vec::new();
        r.push(
            ApiRecord { data: record.data.clone(), name: None, ttl: Some(record.ttl), record_type: None },
        );
        r
    }

    /// Reads the reply to a replacing request.
    pub fn read_update(&self, status: u16, body: String) -> (r: Result<(), ProviderError>)
        ensures
            r is Ok <==> is_success(status),
            r matches Err(ProviderError::HttpStatus { status: s, body: b }) ==> s == status && b
                == body,
            r is Err ==> r->Err_0 is HttpStatus,
    {
        check_status(status, body)
    }
}

/// A constructed provider client, one variant per supported provider.
#[derive(Clone, Debug)]
pub enum ProviderClient {
    GoDaddy(GoDaddyProvider),
}

impl ProviderClient {
    /// The credentials the client was built with.
    pub open spec fn credentials_spec(self) -> (Seq<char>, Seq<char>) {
        match self {
            ProviderClient::GoDaddy(p) => p.credentials_spec(),
        }
    }

    pub fn provider_name(&self) -> (r: &'static str)
        ensures
            r@ == "godaddy"@,
    {
        match self {
            ProviderClient::GoDaddy(p) => p.provider_name(),
        }
    }
}

/// What `str::to_lowercase` makes of a string.
pub uninterp spec fn lower_of(s: Seq<char>) -> Seq<char>;

/// Relies on `str::to_lowercase`: the lower-case form depends on the
/// characters alone.
#[verifier::external_body]
fn lowercase(s: &str) -> (r: String)
    ensures
        r@ == lower_of(s@),
{
    s.to_lowercase()
}

/// Builds the client that `lowered`, a provider name already in lower case,
/// names; `name` is the name as given, kept for the error.
pub fn provider_from_lowered(lowered: &str, name: &str, credentials: Credentials) -> (r: Result<
    ProviderClient,
    UnknownProviderError,
>)
    ensures
        r is Ok <==> lowered@ == "godaddy"@,
        r matches Ok(ProviderClient::GoDaddy(p)) ==> p.credentials_spec() == credentials@,
        r matches Err(e) ==> e.name@ == name@,
{
    if String::from_str(lowered) == String::from_str("godaddy") {
        Ok(ProviderClient::GoDaddy(GoDaddyProvider::new(credentials)))
    } else {
        Err(UnknownProviderError { name: String::from_str(name) })
    }
}

/// Builds the client for the provider `name`, matched without regard to case.
pub fn create_provider(name: &str, credentials: Credentials) -> (r: Result<
    ProviderClient,
    UnknownProviderError,
>)
    ensures
        r is Ok <==> lower_of(name@) == "godaddy"@,
        r matches Ok(ProviderClient::GoDaddy(p)) ==> p.credentials_spec() == credentials@,
        r matches Err(e) ==> e.name@ == name@,
{
    let lowered = lowercase(name);
    provider_from_lowered(lowered.as_str(), name, credentials)
}

} // verus!
