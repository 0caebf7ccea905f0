//! The bridge's pairing handshake and its two authenticated reads, as far as
//! they decide: which address is asked, what is sent, and what each reply means.
use vstd::prelude::*;
use vstd::string::*;
use crate::json::{JsonValue, field, as_string};
use crate::light::{Light, light_of, str_field, index_field};

verus! {

#[verifier::external_type_specification]
#[verifier::external_body]
pub struct ExClient(reqwest::Client);

#[verifier::external_type_specification]
#[verifier::external_body]
pub struct ExUrl(reqwest::Url);

#[verifier::external_type_specification]
#[verifier::external_body]
pub struct ExError(reqwest::Error);

/// Whether `url::Url::parse` accepts `s` as an absolute URL.
pub uninterp spec fn url_accepts(s: Seq<char>) -> bool;

/// The URL that `url::Url::parse` makes of `s`, where it accepts it.
pub uninterp spec fn url_of(s: Seq<char>) -> reqwest::Url;

/// Relies on reqwest::Url::parse (the url crate's parser): it returns a URL
/// exactly when the text is one.
#[verifier::external_body]
fn parse_url(s: &str) -> (r: Option<reqwest::Url>)
    ensures
        r is Some == url_accepts(s@),
        r matches Some(u) ==> u == url_of(s@),
{
    reqwest::Url::parse(s).ok()
}

/// The name this exporter pairs under.
pub const DEVICE_TYPE: &'static str = "phue-exporter";

/// Why pairing failed.
#[derive(Debug)]
pub enum RegisterError {
    /// The address does not make a URL.
    UrlParsing,
    /// The request could not be sent or its reply not received.
    SendingRequest(reqwest::Error),
    /// The reply is not what the bridge sends.
    Other,
    /// The bridge refused, with its own code and description.
    HueError { description: String, id: usize },
}

/// A session with one bridge: its address and the token that pairing gave.
pub struct Bridge {
    address: String,
    username: String,
    client: reqwest::Client,
}

/// The text of the pairing endpoint of the bridge at `address`.
pub open spec fn register_url_text(address: Seq<char>) -> Seq<char> {
    "http://"@ + address + "/api"@
}

/// The text of an authenticated endpoint `leaf` of the bridge at `address`.
pub open spec fn session_url_text(address: Seq<char>, username: Seq<char>, leaf: Seq<char>) -> Seq<char> {
    "http://"@ + address + "/api/"@ + username + "/"@ + leaf
}

/// Whether `v` is the object `{"devicetype": DEVICE_TYPE}`.
pub open spec fn is_register_body(v: JsonValue) -> bool {
    match v {
        JsonValue::Object(members) => {
            &&& members@.len() == 1
            &&& members@[0].0@ == "devicetype"@
            &&& as_string(members@[0].1) matches Some(s)
            &&& s@ == DEVICE_TYPE@
        },
        _ => false,
    }
}

/// Whether an HTTP status code is a success (2xx).
pub open spec fn is_success_status(status: u16) -> bool {
    200 <= status < 300
}

/// Whether every item is a JSON object.
pub open spec fn all_objects(items: Seq<JsonValue>) -> bool {
    forall|i: int| 0 <= i < items.len() ==> #[trigger] items[i] is Object
}

/// What a pairing entry (`{"success": ..}` or `{"error": ..}`) means.
pub open spec fn register_entry_result(entry: JsonValue) -> Result<String, RegisterError> {
    match field(entry, "success"@) {
        Some(s) => match str_field(s, "username"@) {
            Some(u) => Ok(u),
            None => Err(RegisterError::Other),
        },
        None => match field(entry, "error"@) {
            Some(e) => if index_field(e, "type"@) is Some && str_field(e, "description"@) is Some {
                Err(RegisterError::HueError {
                    description: str_field(e, "description"@)->0,
                    id: index_field(e, "type"@)->0,
                })
            } else {
                Err(RegisterError::Other)
            },
            None => Err(RegisterError::Other),
        },
    }
}

/// What a reply to the pairing request means, given its status and its body
/// (`None` where the body is not JSON).
pub open spec fn register_result(status: u16, body: Option<JsonValue>) -> Result<String, RegisterError> {
    if !is_success_status(status) {
        Err(RegisterError::Other)
    } else {
        match body {
            Some(JsonValue::Array(items)) => if items@.len() > 0 && all_objects(items@) {
                register_entry_result(items@[0])
            } else {
                Err(RegisterError::Other)
            },
            _ => Err(RegisterError::Other),
        }
    }
}

/// What a reply to the configuration read means.
pub open spec fn config_result(status: u16, body: Option<JsonValue>) -> Result<JsonValue, ()> {
    if is_success_status(status) && body is Some {
        Ok(body->0)
    } else {
        Err(())
    }
}

/// Whether a reply to the lights read is accepted: a success status and an
/// object each of whose members describes a light.
pub open spec fn lights_accepted(status: u16, body: Option<JsonValue>) -> bool {
    &&& is_success_status(status)
    &&& body matches Some(JsonValue::Object(members))
    &&& forall|i: int| 0 <= i < members@.len() ==> #[trigger] light_of(members@[i].1) is Some
}

/// The lights that `members` describe, by key: a later member with a key
/// replaces an earlier one, as in a map.
pub open spec fn decoded_lights(members: Seq<(String, JsonValue)>) -> Map<Seq<char>, Light>
    decreases members.len(),
{
    if members.len() == 0 {
        Map::empty()
    } else {
        decoded_lights(members.drop_last()).insert(members.last().0@, light_of(members.last().1)->0)
    }
}

/// Whether one of `lights` is under `key`.
pub open spec fn has_key(lights: Seq<(String, Light)>, key: Seq<char>) -> bool {
    exists|j: int| 0 <= j < lights.len() && lights[j].0@ == key
}

/// Whether no two of `lights` share a key.
pub open spec fn distinct_keys(lights: Seq<(String, Light)>) -> bool {
    forall|i: int, j: int| 0 <= i < j < lights.len() ==> (#[trigger] lights[i]).0@ != (#[trigger] lights[j]).0@
}

/// Whether `lights` holds one entry for each distinct key of `members`,
/// with the light that the last member under that key describes.
pub open spec fn lights_match(lights: Seq<(String, Light)>, members: Seq<(String, JsonValue)>) -> bool {
    &&& distinct_keys(lights)
    &&& forall|j: int| 0 <= j < lights.len() ==> {
        &&& decoded_lights(members).contains_key((#[trigger] lights[j]).0@)
        &&& decoded_lights(members)[lights[j].0@] == lights[j].1
    }
    &&& forall|k: Seq<char>| decoded_lights(members).contains_key(k) ==> #[trigger] has_key(lights, k)
}

/// Where the light under `key` stands in `lights`, if one is.
fn find_key(lights: &Vec<(String, Light)>, key: &String) -> (r: Option<usize>)
    ensures
        match r {
            Some(j) => j < lights@.len() && lights@[j as int].0@ == key@,
            None => !has_key(lights@, key@),
        },
{
    let mut j: usize = 0;
    while j < lights.len()
        invariant
            0 <= j <= lights@.len(),
            forall|t: int| 0 <= t < j ==> (#[trigger] lights@[t]).0@ != key@,
        decreases lights.len() - j,
    {
        if lights[j].0 == *key {
            return Some(j);
        }
        j = j + 1;
    }
    None
}

/// Whether `status` is a success (2xx).
pub fn status_is_success(status: u16) -> (r: bool)
    ensures
        r == is_success_status(status),
{
    200 <= status && status < 300
}

impl Bridge {
    /// A session with the bridge at `addr`, authenticated as `username`.
    pub fn new(client: reqwest::Client, addr: String, username: String) -> (r: Bridge)
        ensures
            r.address_view() == addr@,
            r.username_view() == username@,
            r.client_view() == client,
    {
        Bridge { address: addr, username, client }
    }

    /// The bridge's address.
    pub closed spec fn address_view(&self) -> Seq<char> {
        self.address@
    }

    /// The token the session authenticates with.
    pub closed spec fn username_view(&self) -> Seq<char> {
        self.username@
    }

    /// The HTTP client the session sends with.
    pub closed spec fn client_view(&self) -> reqwest::Client {
        self.client
    }

    /// The HTTP client the session sends with.
    pub fn client(&self) -> (r: &reqwest::Client)
        ensures
            *r == self.client_view(),
    {
        &self.client
    }

    /// The pairing endpoint of the bridge at `address`.
    pub fn register_url(address: &str) -> (r: Result<reqwest::Url, RegisterError>)
        ensures
            r is Ok == url_accepts(register_url_text(address@)),
            r matches Ok(u) ==> u == url_of(register_url_text(address@)),
            r matches Err(e) ==> e is UrlParsing,
    {
        let mut text = "http://".to_owned();
        text.append(address);
        text.append("/api");
        assert(text@ == register_url_text(address@));
        match parse_url(text.as_str()) {
            Some(u) => Ok(u),
            None => Err(RegisterError::UrlParsing),
        }
    }

    /// The body of the pairing request: `{"devicetype": DEVICE_TYPE}`.
    pub fn register_body() -> (r: JsonValue)
        ensures
            is_register_body(r),
    {
        let members = vec![("devicetype".to_owned(), JsonValue::Str(DEVICE_TYPE.to_owned()))];
        JsonValue::Object(members)
    }

    /// What the bridge's reply to the pairing request means: the token it
    /// handed out, its refusal, or `Other` for anything it would not send.
    pub fn register_response(status: u16, body: Option<JsonValue>) -> (r: Result<String, RegisterError>)
        ensures
            r == register_result(status, body),
    {
        if !status_is_success(status) {
            return Err(RegisterError::Other);
        }
        let items = match body {
            Some(JsonValue::Array(items)) => items,
            _ => return Err(RegisterError::Other),
        };
        if items.len() == 0 {
            return Err(RegisterError::Other);
        }
        let mut i: usize = 0;
        while i < items.len()
            invariant
                0 <= i <= items.len(),
                is_success_status(status),
                body == Some(JsonValue::Array(items)),
                forall|j: int| 0 <= j < i ==> #[trigger] items@[j] is Object,
            decreases items.len() - i,
        {
            match &items[i] {
                JsonValue::Object(_) => {},
                _ => {
                    assert(!all_objects(items@));
                    return Err(RegisterError::Other);
                },
            }
            i = i + 1;
        }
        let entry = &items[0];
        match entry.get("success") {
            Some(s) => match s.get("username") {
                Some(JsonValue::Str(u)) => Ok(u.clone()),
                _ => Err(RegisterError::Other),
            },
            None => match entry.get("error") {
                Some(e) => {
                    let id = match e.get("type") {
                        Some(t) => t.as_usize(),
                        None => None,
                    };
                    match (id, e.get("description")) {
                        (Some(id), Some(JsonValue::Str(d))) => Err(RegisterError::HueError { description: d.clone(), id }),
                        _ => Err(RegisterError::Other),
                    }
                },
                None => Err(RegisterError::Other),
            },
        }
    }

    /// The authenticated endpoint `leaf` of this session's bridge.
    fn session_url(&self, leaf: &str) -> (r: Result<reqwest::Url, ()>)
        ensures
            r is Ok == url_accepts(session_url_text(self.address_view(), self.username_view(), leaf@)),
            r matches Ok(u) ==> u == url_of(session_url_text(self.address_view(), self.username_view(), leaf@)),
    {
        let mut text = "http://".to_owned();
        text.append(self.address.as_str());
        text.append("/api/");
        text.append(self.username.as_str());
        text.append("/");
        text.append(leaf);
        assert(text@ == session_url_text(self.address_view(), self.username_view(), leaf@));
        match parse_url(text.as_str()) {
            Some(u) => Ok(u),
            None => Err(()),
        }
    }

    /// The endpoint of the bridge's configuration.
    pub fn config_url(&self) -> (r: Result<reqwest::Url, ()>)
        ensures
            r is Ok == url_accepts(session_url_text(self.address_view(), self.username_view(), "config"@)),
            r matches Ok(u) ==> u == url_of(session_url_text(self.address_view(), self.username_view(), "config"@)),
    {
        self.session_url("config")
    }

    /// The endpoint of the bridge's light list.
    pub fn lights_url(&self) -> (r: Result<reqwest::Url, ()>)
        ensures
            r is Ok == url_accepts(session_url_text(self.address_view(), self.username_view(), "lights"@)),
            r matches Ok(u) ==> u == url_of(session_url_text(self.address_view(), self.username_view(), "lights"@)),
    {
        self.session_url("lights")
    }

    /// What a reply to the configuration read means: the document itself,
    /// where the status is a success and the body is JSON.
    pub fn read_config_response(status: u16, body: Option<JsonValue>) -> (r: Result<JsonValue, ()>)
        ensures
            r == config_result(status, body),
    {
        if !status_is_success(status) {
            return Err(());
        }
        match body {
            Some(v) => Ok(v),
            None => Err(()),
        }
    }

    /// What a reply to the lights read means: each light under its key, in
    /// the reply's order, where every member describes a light.
    pub fn lights_response(status: u16, body: Option<JsonValue>) -> (r: Result<Vec<(String, Light)>, ()>)
        ensures
            r is Ok == lights_accepted(status, body),
            r matches Ok(lights) ==> body matches Some(JsonValue::Object(members)) && lights_match(lights@, members@),
    {
        if !status_is_success(status) {
            return Err(());
        }
        let members = match body {
            Some(JsonValue::Object(members)) => members,
            _ => return Err(()),
        };
        let ghost all = members@;
        let ghost mut done: int = 0;
        let mut rest = members;
        let mut lights: Vec<(String, Light)> = Vec::new();
        assert(all.subrange(0, 0) =~= Seq::<(String, JsonValue)>::empty());
        while rest.len() > 0
            invariant
                is_success_status(status),
                body == Some(JsonValue::Object(members)),
                all == members@,
                0 <= done <= all.len(),
                rest@ == all.subrange(done, all.len() as int),
                forall|i: int| 0 <= i < done ==> #[trigger] light_of(all[i].1) is Some,
                lights_match(lights@, all.subrange(0, done)),
            decreases rest.len(),
        {
            let (key, value) = rest.remove(0);
            assert(all[done] == (key, value));
            let light = match Light::from_json(value) {
                Some(light) => light,
                None => return Err(()),
            };
            let ghost kv = key@;
            let ghost before = lights@;
            let ghost dm0 = decoded_lights(all.subrange(0, done));
            let ghost dm1 = dm0.insert(kv, light);
            assert(all.subrange(0, done + 1).drop_last() =~= all.subrange(0, done));
            assert(decoded_lights(all.subrange(0, done + 1)) == dm1);
            match find_key(&lights, &key) {
                Some(j) => {
                    lights.set(j, (key, light));
                    assert(lights@ == before.update(j as int, (key, light)));
                    assert forall|k: Seq<char>| dm1.contains_key(k) implies #[trigger] has_key(lights@, k) by {
                        if k == kv {
                            assert(lights@[j as int].0@ == k);
                        } else {
                            assert(has_key(before, k));
                            let t = choose|t: int| 0 <= t < before.len() && before[t].0@ == k;
                            assert(lights@[t].0@ == k);
                        }
                    }
                },
                None => {
                    lights.push((key, light));
                    assert(lights@ == before.push((key, light)));
                    assert forall|k: Seq<char>| dm1.contains_key(k) implies #[trigger] has_key(lights@, k) by {
                        if k == kv {
                            assert(lights@[before.len() as int].0@ == k);
                        } else {
                            assert(has_key(before, k));
                            let t = choose|t: int| 0 <= t < before.len() && before[t].0@ == k;
                            assert(lights@[t].0@ == k);
                        }
                    }
                },
            }
            proof {
                done = done + 1;
            }
            assert(rest@ =~= all.subrange(done, all.len() as int));
        }
        assert(all.subrange(0, done) =~= all);
        Ok(lights)
    }
}

/// A successful pairing reply whose first entry holds `success.username`
/// gives exactly that token.
pub proof fn lemma_register_success_gives_token(status: u16, items: Vec<JsonValue>, token: String)
    requires
        is_success_status(status),
        items@.len() > 0,
        all_objects(items@),
        field(items@[0], "success"@) matches Some(s) && str_field(s, "username"@) == Some(token),
    ensures
        register_result(status, Some(JsonValue::Array(items))) == Ok::<String, RegisterError>(token),
{
}

/// A pairing reply whose first entry holds an `error` with a code and a
/// description gives the bridge's refusal with that code and description.
pub proof fn lemma_register_error_gives_refusal(status: u16, items: Vec<JsonValue>, id: usize, description: String)
    requires
        is_success_status(status),
        items@.len() > 0,
        all_objects(items@),
        field(items@[0], "success"@) is None,
        field(items@[0], "error"@) matches Some(e) && index_field(e, "type"@) == Some(id)
            && str_field(e, "description"@) == Some(description),
    ensures
        register_result(status, Some(JsonValue::Array(items))) == Err::<String, RegisterError>(
            RegisterError::HueError { description, id },
        ),
{
}

/// A pairing reply that is not an array, is an empty one, or whose first
/// entry has neither `success` nor `error` gives the generic failure.
pub proof fn lemma_register_malformed_is_other(status: u16, body: Option<JsonValue>)
    requires
        match body {
            Some(JsonValue::Array(items)) => items@.len() == 0 || (field(items@[0], "success"@) is None
                && field(items@[0], "error"@) is None),
            _ => true,
        },
    ensures
        register_result(status, body) == Err::<String, RegisterError>(RegisterError::Other),
{
}

} // verus!
