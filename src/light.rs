//! The bridge's description of a light, decoded from its JSON form.
use vstd::prelude::*;
use crate::json::{JsonValue, field, as_string, as_boolean, as_index, take_member};

verus! {

/// What a light can do.
#[derive(Debug)]
pub struct LightCapabilities {
    pub certified: bool,
    pub control: JsonValue,
    pub streaming: JsonValue,
}

/// How a light is set up.
#[derive(Debug)]
pub struct LightConfig {
    pub archetype: String,
    pub direction: String,
    pub function: String,
    pub startup: JsonValue,
}

/// The current state of a light.
#[derive(Debug)]
pub struct LightState {
    pub alert: String,
    /// Brightness, 0 to 255 on the bridge.
    pub bri: usize,
    pub colormode: String,
    pub ct: usize,
    pub effect: String,
    pub hue: usize,
    pub mode: String,
    pub on: bool,
    pub reachable: bool,
    pub sat: usize,
    pub xy: JsonValue,
}

/// One light as the bridge reports it.
#[derive(Debug)]
pub struct Light {
    pub capabilities: LightCapabilities,
    pub config: LightConfig,
    pub manufacturername: String,
    pub modelid: String,
    pub name: String,
    pub productid: String,
    pub productname: String,
    pub state: LightState,
    pub swconfigid: String,
    pub swupdate: JsonValue,
    pub swversion: String,
    /// The member named `type`.
    pub light_type: String,
    pub uniqueid: String,
}

/// The string of member `key` of `v`, if it is there and a string.
pub open spec fn str_field(v: JsonValue, key: Seq<char>) -> Option<String> {
    match field(v, key) {
        Some(x) => as_string(x),
        None => None,
    }
}

/// The boolean of member `key` of `v`, if it is there and a boolean.
pub open spec fn bool_field(v: JsonValue, key: Seq<char>) -> Option<bool> {
    match field(v, key) {
        Some(x) => as_boolean(x),
        None => None,
    }
}

/// The integer of member `key` of `v`, if it is there and fits `usize`.
pub open spec fn index_field(v: JsonValue, key: Seq<char>) -> Option<usize> {
    match field(v, key) {
        Some(x) => as_index(x),
        None => None,
    }
}

/// The capabilities that `v` describes, if every member is there with its type.
pub open spec fn capabilities_of(v: JsonValue) -> Option<LightCapabilities> {
    if bool_field(v, "certified"@) is Some && field(v, "control"@) is Some && field(v, "streaming"@) is Some {
        Some(LightCapabilities {
            certified: bool_field(v, "certified"@)->0,
            control: field(v, "control"@)->0,
            streaming: field(v, "streaming"@)->0,
        })
    } else {
        None
    }
}

/// The configuration that `v` describes, if every member is there with its type.
pub open spec fn config_of(v: JsonValue) -> Option<LightConfig> {
    if str_field(v, "archetype"@) is Some && str_field(v, "direction"@) is Some
        && str_field(v, "function"@) is Some && field(v, "startup"@) is Some {
        Some(LightConfig {
            archetype: str_field(v, "archetype"@)->0,
            direction: str_field(v, "direction"@)->0,
            function: str_field(v, "function"@)->0,
            startup: field(v, "startup"@)->0,
        })
    } else {
        None
    }
}

/// The state that `v` describes, if every member is there with its type.
pub open spec fn state_of(v: JsonValue) -> Option<LightState> {
    if str_field(v, "alert"@) is Some && index_field(v, "bri"@) is Some
        && str_field(v, "colormode"@) is Some && index_field(v, "ct"@) is Some
        && str_field(v, "effect"@) is Some && index_field(v, "hue"@) is Some
        && str_field(v, "mode"@) is Some && bool_field(v, "on"@) is Some
        && bool_field(v, "reachable"@) is Some && index_field(v, "sat"@) is Some
        && field(v, "xy"@) is Some {
        Some(LightState {
            alert: str_field(v, "alert"@)->0,
            bri: index_field(v, "bri"@)->0,
            colormode: str_field(v, "colormode"@)->0,
            ct: index_field(v, "ct"@)->0,
            effect: str_field(v, "effect"@)->0,
            hue: index_field(v, "hue"@)->0,
            mode: str_field(v, "mode"@)->0,
            on: bool_field(v, "on"@)->0,
            reachable: bool_field(v, "reachable"@)->0,
            sat: index_field(v, "sat"@)->0,
            xy: field(v, "xy"@)->0,
        })
    } else {
        None
    }
}

/// The capabilities nested in member `key` of `v`.
pub open spec fn capabilities_field(v: JsonValue, key: Seq<char>) -> Option<LightCapabilities> {
    match field(v, key) {
        Some(x) => capabilities_of(x),
        None => None,
    }
}

/// The configuration nested in member `key` of `v`.
pub open spec fn config_field(v: JsonValue, key: Seq<char>) -> Option<LightConfig> {
    match field(v, key) {
        Some(x) => config_of(x),
        None => None,
    }
}

/// The state nested in member `key` of `v`.
pub open spec fn state_field(v: JsonValue, key: Seq<char>) -> Option<LightState> {
    match field(v, key) {
        Some(x) => state_of(x),
        None => None,
    }
}

/// The light that `v` describes, if every member is there with its type.
/// Members that a light does not have are ignored.
pub open spec fn light_of(v: JsonValue) -> Option<Light> {
    if capabilities_field(v, "capabilities"@) is Some && config_field(v, "config"@) is Some
        && str_field(v, "manufacturername"@) is Some && str_field(v, "modelid"@) is Some
        && str_field(v, "name"@) is Some && str_field(v, "productid"@) is Some
        && str_field(v, "productname"@) is Some && state_field(v, "state"@) is Some
        && str_field(v, "swconfigid"@) is Some && field(v, "swupdate"@) is Some
        && str_field(v, "swversion"@) is Some && str_field(v, "type"@) is Some
        && str_field(v, "uniqueid"@) is Some {
        Some(Light {
            capabilities: capabilities_field(v, "capabilities"@)->0,
            config: config_field(v, "config"@)->0,
            manufacturername: str_field(v, "manufacturername"@)->0,
            modelid: str_field(v, "modelid"@)->0,
            name: str_field(v, "name"@)->0,
            productid: str_field(v, "productid"@)->0,
            productname: str_field(v, "productname"@)->0,
            state: state_field(v, "state"@)->0,
            swconfigid: str_field(v, "swconfigid"@)->0,
            swupdate: field(v, "swupdate"@)->0,
            swversion: str_field(v, "swversion"@)->0,
            light_type: str_field(v, "type"@)->0,
            uniqueid: str_field(v, "uniqueid"@)->0,
        })
    } else {
        None
    }
}

/// The string of member `key` of `v`, copied.
fn str_member(v: &JsonValue, key: &str) -> (r: Option<String>)
    ensures
        r == str_field(*v, key@),
{
    match v.get(key) {
        Some(x) => match x.as_str() {
            Some(s) => Some(s.clone()),
            None => None,
        },
        None => None,
    }
}

/// The boolean of member `key` of `v`.
fn bool_member(v: &JsonValue, key: &str) -> (r: Option<bool>)
    ensures
        r == bool_field(*v, key@),
{
    match v.get(key) {
        Some(x) => x.as_bool(),
        None => None,
    }
}

/// The integer of member `key` of `v`.
fn index_member(v: &JsonValue, key: &str) -> (r: Option<usize>)
    ensures
        r == index_field(*v, key@),
{
    match v.get(key) {
        Some(x) => x.as_usize(),
        None => None,
    }
}

impl LightCapabilities {
    /// Decodes the capabilities from their JSON object.
    pub fn from_json(v: JsonValue) -> (r: Option<LightCapabilities>)
        ensures
            r == capabilities_of(v),
    {
        let certified = match bool_member(&v, "certified") {
            Some(b) => b,
            None => return None,
        };
        match v {
            JsonValue::Object(members) => {
                let mut members = members;
                proof {
                    reveal_strlit("control");
                    reveal_strlit("streaming");
                }
                assert("control"@.len() != "streaming"@.len());
                let control = match take_member(&mut members, "control") {
                    Some(x) => x,
                    None => return None,
                };
                let streaming = match take_member(&mut members, "streaming") {
                    Some(x) => x,
                    None => return None,
                };
                Some(LightCapabilities { certified, control, streaming })
            },
            _ => None,
        }
    }
}

impl LightConfig {
    /// Decodes the configuration from its JSON object.
    pub fn from_json(v: JsonValue) -> (r: Option<LightConfig>)
        ensures
            r == config_of(v),
    {
        let archetype = match str_member(&v, "archetype") {
            Some(x) => x,
            None => return None,
        };
        let direction = match str_member(&v, "direction") {
            Some(x) => x,
            None => return None,
        };
        let function = match str_member(&v, "function") {
            Some(x) => x,
            None => return None,
        };
        match v {
            JsonValue::Object(members) => {
                let mut members = members;
                let startup = match take_member(&mut members, "startup") {
                    Some(x) => x,
                    None => return None,
                };
                Some(LightConfig { archetype, direction, function, startup })
            },
            _ => None,
        }
    }
}

impl LightState {
    /// Decodes the state from its JSON object.
    pub fn from_json(v: JsonValue) -> (r: Option<LightState>)
        ensures
            r == state_of(v),
    {
        let alert = match str_member(&v, "alert") {
            Some(x) => x,
            None => return None,
        };
        let bri = match index_member(&v, "bri") {
            Some(x) => x,
            None => return None,
        };
        let colormode = match str_member(&v, "colormode") {
            Some(x) => x,
            None => return None,
        };
        let ct = match index_member(&v, "ct") {
            Some(x) => x,
            None => return None,
        };
        let effect = match str_member(&v, "effect") {
            Some(x) => x,
            None => return None,
        };
        let hue = match index_member(&v, "hue") {
            Some(x) => x,
            None => return None,
        };
        let mode = match str_member(&v, "mode") {
            Some(x) => x,
            None => return None,
        };
        let on = match bool_member(&v, "on") {
            Some(x) => x,
            None => return None,
        };
        let reachable = match bool_member(&v, "reachable") {
            Some(x) => x,
            None => return None,
        };
        let sat = match index_member(&v, "sat") {
            Some(x) => x,
            None => return None,
        };
        match v {
            JsonValue::Object(members) => {
                let mut members = members;
                let xy = match take_member(&mut members, "xy") {
                    Some(x) => x,
                    None => return None,
                };
                Some(LightState { alert, bri, colormode, ct, effect, hue, mode, on, reachable, sat, xy })
            },
            _ => None,
        }
    }
}

impl Light {
    /// Decodes a light from its JSON object.
    pub fn from_json(v: JsonValue) -> (r: Option<Light>)
        ensures
            r == light_of(v),
    {
        let manufacturername = match str_member(&v, "manufacturername") {
            Some(x) => x,
            None => return None,
        };
        let modelid = match str_member(&v, "modelid") {
            Some(x) => x,
            None => return None,
        };
        let name = match str_member(&v, "name") {
            Some(x) => x,
            None => return None,
        };
        let productid = match str_member(&v, "productid") {
            Some(x) => x,
            None => return None,
        };
        let productname = match str_member(&v, "productname") {
            Some(x) => x,
            None => return None,
        };
        let swconfigid = match str_member(&v, "swconfigid") {
            Some(x) => x,
            None => return None,
        };
        let swversion = match str_member(&v, "swversion") {
            Some(x) => x,
            None => return None,
        };
        let light_type = match str_member(&v, "type") {
            Some(x) => x,
            None => return None,
        };
        let uniqueid = match str_member(&v, "uniqueid") {
            Some(x) => x,
            None => return None,
        };
        match v {
            JsonValue::Object(members) => {
                let mut members = members;
                proof {
                    reveal_strlit("capabilities");
                    reveal_strlit("config");
                    reveal_strlit("state");
                    reveal_strlit("swupdate");
                }
                assert("capabilities"@.len() != "config"@.len());
                assert("capabilities"@.len() != "state"@.len());
                assert("capabilities"@.len() != "swupdate"@.len());
                assert("config"@.len() != "state"@.len());
                assert("config"@.len() != "swupdate"@.len());
                assert("state"@.len() != "swupdate"@.len());
                let capabilities = match take_member(&mut members, "capabilities") {
                    Some(x) => match LightCapabilities::from_json(x) {
                        Some(c) => c,
                        None => return None,
                    },
                    None => return None,
                };
                let config = match take_member(&mut members, "config") {
                    Some(x) => match LightConfig::from_json(x) {
                        Some(c) => c,
                        None => return None,
                    },
                    None => return None,
                };
                let state = match take_member(&mut members, "state") {
                    Some(x) => match LightState::from_json(x) {
                        Some(c) => c,
                        None => return None,
                    },
                    None => return None,
                };
                let swupdate = match take_member(&mut members, "swupdate") {
                    Some(x) => x,
                    None => return None,
                };
                Some(Light {
                    capabilities,
                    config,
                    manufacturername,
                    modelid,
                    name,
                    productid,
                    productname,
                    state,
                    swconfigid,
                    swupdate,
                    swversion,
                    light_type,
                    uniqueid,
                })
            },
            _ => None,
        }
    }
}

} // verus!
