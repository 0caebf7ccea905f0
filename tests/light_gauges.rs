use phue_exporter::{
    poll_samples, samples_of, Bridge, Gauge, JsonNumber, JsonValue, Light, MetricSample, NAME_LABEL,
    POLL_INTERVAL_SECS, UNIQUE_ID_LABEL,
};

fn s(text: &str) -> JsonValue {
    JsonValue::Str(text.to_string())
}

fn n(value: u64) -> JsonValue {
    JsonValue::Number(JsonNumber::PosInt(value))
}

fn obj(members: Vec<(&str, JsonValue)>) -> JsonValue {
    JsonValue::Object(members.into_iter().map(|(k, v)| (k.to_string(), v)).collect())
}

fn light_json(uniqueid: &str, name: &str, on: bool, bri: u64) -> JsonValue {
    obj(vec![
        ("capabilities", obj(vec![("certified", JsonValue::Bool(true)), ("control", obj(vec![])), ("streaming", obj(vec![]))])),
        (
            "config",
            obj(vec![("archetype", s("sultanbulb")), ("direction", s("omnidirectional")), ("function", s("mixed")), ("startup", obj(vec![]))]),
        ),
        ("manufacturername", s("Signify")),
        ("modelid", s("LCT015")),
        ("name", s(name)),
        ("productid", s("p1")),
        ("productname", s("Hue color lamp")),
        (
            "state",
            obj(vec![
                ("alert", s("select")),
                ("bri", n(bri)),
                ("colormode", s("ct")),
                ("ct", n(366)),
                ("effect", s("none")),
                ("hue", n(8418)),
                ("mode", s("homeautomation")),
                ("on", JsonValue::Bool(on)),
                ("reachable", JsonValue::Bool(true)),
                ("sat", n(140)),
                ("xy", JsonValue::Array(vec![JsonValue::Number(JsonNumber::NonInteger("0.4573".to_string())), JsonValue::Number(JsonNumber::NonInteger("0.41".to_string()))])),
            ]),
        ),
        ("swconfigid", s("conf")),
        ("swupdate", obj(vec![("state", s("noupdates"))])),
        ("swversion", s("1.50")),
        ("type", s("Extended color light")),
        ("uniqueid", s(uniqueid)),
    ])
}

fn without(v: JsonValue, key: &str) -> JsonValue {
    match v {
        JsonValue::Object(members) => JsonValue::Object(members.into_iter().filter(|(k, _)| k != key).collect()),
        other => other,
    }
}

fn gauges() -> (prometheus::Registry, prometheus::GaugeVec, prometheus::GaugeVec) {
    let registry = prometheus::Registry::new();
    let labels = [UNIQUE_ID_LABEL, NAME_LABEL];
    let on = prometheus::GaugeVec::new(prometheus::Opts::new(Gauge::LightsOn.metric_name(), Gauge::LightsOn.help()), &labels).unwrap();
    let bri = prometheus::GaugeVec::new(
        prometheus::Opts::new(Gauge::LightsBrightness.metric_name(), Gauge::LightsBrightness.help()),
        &labels,
    )
    .unwrap();
    registry.register(Box::new(on.clone())).unwrap();
    registry.register(Box::new(bri.clone())).unwrap();
    (registry, on, bri)
}

fn publish(samples: &[MetricSample], on: &prometheus::GaugeVec, bri: &prometheus::GaugeVec) {
    for sample in samples {
        let family = match sample.gauge {
            Gauge::LightsOn => on,
            Gauge::LightsBrightness => bri,
        };
        family.with_label_values(&[&sample.unique_id, &sample.name]).set(sample.value as f64);
    }
}

fn render(registry: &prometheus::Registry) -> String {
    prometheus::TextEncoder::new().encode_to_string(&registry.gather()).unwrap()
}

#[test]
fn light_decodes_all_fields() {
    let light = Light::from_json(light_json("L1", "Lamp", true, 128)).unwrap();
    assert_eq!(light.uniqueid, "L1");
    assert_eq!(light.name, "Lamp");
    assert!(light.state.on);
    assert_eq!(light.state.bri, 128);
    assert_eq!(light.state.ct, 366);
    assert_eq!(light.state.hue, 8418);
    assert_eq!(light.state.sat, 140);
    assert_eq!(light.light_type, "Extended color light");
    assert_eq!(light.config.archetype, "sultanbulb");
    assert!(light.capabilities.certified);
    match &light.state.xy {
        JsonValue::Array(xs) => {
            assert_eq!(xs.len(), 2);
            assert!(matches!(&xs[0], JsonValue::Number(JsonNumber::NonInteger(t)) if t == "0.4573"));
        }
        other => panic!("unexpected: {:?}", other),
    }
}

#[test]
fn light_missing_member_is_refused() {
    assert!(Light::from_json(without(light_json("L1", "Lamp", true, 1), "modelid")).is_none());
    assert!(Light::from_json(without(light_json("L1", "Lamp", true, 1), "swupdate")).is_none());
    assert!(Light::from_json(s("L1")).is_none());
}

#[test]
fn light_brightness_must_be_an_integer() {
    let mut v = light_json("L1", "Lamp", true, 1);
    if let JsonValue::Object(members) = &mut v {
        for (k, value) in members.iter_mut() {
            if k == "state" {
                *value = without(std::mem::replace(value, JsonValue::Null), "bri");
                if let JsonValue::Object(state) = value {
                    state.push(("bri".to_string(), JsonValue::Number(JsonNumber::NonInteger("128.0".to_string()))));
                }
            }
        }
    }
    assert!(Light::from_json(v).is_none());
}

#[test]
fn lights_keep_keys_and_order() {
    let body = obj(vec![("1", light_json("L1", "Lamp", true, 128)), ("2", light_json("L2", "Desk", false, 0))]);
    let lights = Bridge::lights_response(200, Some(body)).unwrap();
    assert_eq!(lights.len(), 2);
    assert_eq!(lights[0].0, "1");
    assert_eq!(lights[0].1.uniqueid, "L1");
    assert_eq!(lights[1].0, "2");
    assert!(!lights[1].1.state.on);
    assert_eq!(lights[1].1.state.bri, 0);
}

#[test]
fn lights_empty_object_is_no_lights() {
    let lights = Bridge::lights_response(200, Some(obj(vec![]))).unwrap();
    assert!(lights.is_empty());
}

#[test]
fn lights_fail_uniformly() {
    assert!(Bridge::lights_response(500, Some(obj(vec![("1", light_json("L1", "Lamp", true, 1))]))).is_err());
    assert!(Bridge::lights_response(200, None).is_err());
    assert!(Bridge::lights_response(200, Some(JsonValue::Array(vec![]))).is_err());
    let body = obj(vec![("1", light_json("L1", "Lamp", true, 1)), ("2", s("broken"))]);
    assert!(Bridge::lights_response(200, Some(body)).is_err());
}

#[test]
fn samples_copy_on_and_brightness() {
    let body = obj(vec![("1", light_json("L1", "Lamp", true, 128)), ("2", light_json("L2", "Desk", false, 255))]);
    let lights = Bridge::lights_response(200, Some(body)).unwrap();
    let samples = samples_of(&lights);
    assert_eq!(samples.len(), 4);
    assert_eq!(samples[0].gauge, Gauge::LightsOn);
    assert_eq!(samples[0].value, 1);
    assert_eq!(samples[0].unique_id, "L1");
    assert_eq!(samples[0].name, "Lamp");
    assert_eq!(samples[1].gauge, Gauge::LightsBrightness);
    assert_eq!(samples[1].value, 128);
    assert_eq!(samples[2].value, 0);
    assert_eq!(samples[3].value, 255);
    assert_eq!(samples[3].unique_id, "L2");
}

#[test]
fn scenario_one_light_is_exported() {
    let body = obj(vec![("1", light_json("L1", "Lamp", true, 128))]);
    let outcome = Bridge::lights_response(200, Some(body));
    let samples = poll_samples(&outcome);
    let (registry, on, bri) = gauges();
    publish(&samples, &on, &bri);
    let text = render(&registry);
    assert!(text.contains("lights_on{name=\"Lamp\",unique_id=\"L1\"} 1\n"));
    assert!(text.contains("lights_brightness{name=\"Lamp\",unique_id=\"L1\"} 128\n"));
}

#[test]
fn repeated_poll_gives_same_values() {
    let reply = || obj(vec![("1", light_json("L1", "Lamp", true, 200)), ("2", light_json("L2", "Desk", false, 17))]);
    let (registry, on, bri) = gauges();
    publish(&poll_samples(&Bridge::lights_response(200, Some(reply()))), &on, &bri);
    let first = render(&registry);
    publish(&poll_samples(&Bridge::lights_response(200, Some(reply()))), &on, &bri);
    let second = render(&registry);
    assert_eq!(first, second);
    assert_eq!(bri.with_label_values(&["L1", "Lamp"]).get(), 200.0);
}

#[test]
fn failed_poll_keeps_values() {
    let (registry, on, bri) = gauges();
    let body = obj(vec![("1", light_json("L1", "Lamp", true, 128))]);
    publish(&poll_samples(&Bridge::lights_response(200, Some(body))), &on, &bri);
    let before = render(&registry);
    let failed = Bridge::lights_response(503, None);
    let samples = poll_samples(&failed);
    assert!(samples.is_empty());
    publish(&samples, &on, &bri);
    assert_eq!(render(&registry), before);
    assert_eq!(on.with_label_values(&["L1", "Lamp"]).get(), 1.0);
}

#[test]
fn vanished_light_stays_exported() {
    let (registry, on, bri) = gauges();
    let both = obj(vec![("1", light_json("L1", "Lamp", true, 128)), ("2", light_json("L2", "Desk", true, 3))]);
    publish(&poll_samples(&Bridge::lights_response(200, Some(both))), &on, &bri);
    let one = obj(vec![("1", light_json("L1", "Lamp", false, 9))]);
    publish(&poll_samples(&Bridge::lights_response(200, Some(one))), &on, &bri);
    let text = render(&registry);
    assert!(text.contains("lights_brightness{name=\"Desk\",unique_id=\"L2\"} 3\n"));
    assert!(text.contains("lights_brightness{name=\"Lamp\",unique_id=\"L1\"} 9\n"));
}

#[test]
fn gauge_names_and_interval() {
    assert_eq!(Gauge::LightsOn.metric_name(), "lights_on");
    assert_eq!(Gauge::LightsBrightness.metric_name(), "lights_brightness");
    assert_eq!(Gauge::LightsOn.help(), "The State of Lights");
    assert_eq!(POLL_INTERVAL_SECS, 5);
    assert_eq!(UNIQUE_ID_LABEL, "unique_id");
    assert_eq!(NAME_LABEL, "name");
}

#[test]
fn lights_repeated_key_keeps_last() {
    let body = obj(vec![
        ("1", light_json("L1", "Lamp", true, 10)),
        ("2", light_json("L2", "Desk", true, 20)),
        ("1", light_json("L1", "Lamp", false, 30)),
    ]);
    let lights = Bridge::lights_response(200, Some(body)).unwrap();
    assert_eq!(lights.len(), 2);
    let first = lights.iter().find(|(k, _)| k == "1").unwrap();
    assert_eq!(first.1.state.bri, 30);
    assert!(!first.1.state.on);
}

#[test]
fn reordered_reply_gives_same_values() {
    let (registry, on, bri) = gauges();
    let a = obj(vec![("1", light_json("L1", "Lamp", true, 200)), ("2", light_json("L2", "Desk", false, 17))]);
    publish(&poll_samples(&Bridge::lights_response(200, Some(a))), &on, &bri);
    let first = render(&registry);
    let b = obj(vec![("2", light_json("L2", "Desk", false, 17)), ("1", light_json("L1", "Lamp", true, 200))]);
    publish(&poll_samples(&Bridge::lights_response(200, Some(b))), &on, &bri);
    assert_eq!(render(&registry), first);
}
