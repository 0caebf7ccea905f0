//! The gauge samples that each poll of the bridge publishes, and what
//! publishing does to the exported values.
use vstd::prelude::*;
use crate::light::Light;

verus! {

/// Seconds between two polls of the bridge.
pub const POLL_INTERVAL_SECS: u64 = 5;

/// The label that holds a light's unique id.
pub const UNIQUE_ID_LABEL: &'static str = "unique_id";

/// The label that holds a light's name.
pub const NAME_LABEL: &'static str = "name";

/// The two gauge families this exporter publishes.
#[derive(Debug, Clone, Copy, PartialEq, Eq, Structural)]
pub enum Gauge {
    /// `lights_on`: 1 for a light that is on, 0 otherwise.
    LightsOn,
    /// `lights_brightness`: a light's brightness.
    LightsBrightness,
}

impl Gauge {
    /// The family's metric name.
    pub fn metric_name(&self) -> (r: &'static str)
        ensures
            r@ == (match *self {
                Gauge::LightsOn => "lights_on"@,
                Gauge::LightsBrightness => "lights_brightness"@,
            }),
    {
        match self {
            Gauge::LightsOn => "lights_on",
            Gauge::LightsBrightness => "lights_brightness",
        }
    }

    /// The family's help text.
    pub fn help(&self) -> (r: &'static str)
        ensures
            r@ == (match *self {
                Gauge::LightsOn => "The State of Lights"@,
                Gauge::LightsBrightness => "The Brightness of Lights"@,
            }),
    {
        match self {
            Gauge::LightsOn => "The State of Lights",
            Gauge::LightsBrightness => "The Brightness of Lights",
        }
    }
}

/// One value for one gauge, under the label set `{unique_id, name}`.
#[derive(Debug)]
pub struct MetricSample {
    pub gauge: Gauge,
    pub unique_id: String,
    pub name: String,
    pub value: usize,
}

/// The `lights_on` sample of a light.
pub open spec fn on_sample(l: Light) -> MetricSample {
    MetricSample {
        gauge: Gauge::LightsOn,
        unique_id: l.uniqueid,
        name: l.name,
        value: if l.state.on { 1 } else { 0 },
    }
}

/// The `lights_brightness` sample of a light: its brightness as reported.
pub open spec fn brightness_sample(l: Light) -> MetricSample {
    MetricSample {
        gauge: Gauge::LightsBrightness,
        unique_id: l.uniqueid,
        name: l.name,
        value: l.state.bri,
    }
}

/// Sample `j` of a poll that returned `lights`: the on sample and then the
/// brightness sample of each light in turn.
pub open spec fn sample_at(lights: Seq<(String, Light)>, j: int) -> MetricSample {
    if j % 2 == 0 {
        on_sample(lights[j / 2].1)
    } else {
        brightness_sample(lights[j / 2].1)
    }
}

/// The samples of a poll that returned `lights`.
pub open spec fn light_samples(lights: Seq<(String, Light)>) -> Seq<MetricSample> {
    Seq::new(2 * lights.len(), |j: int| sample_at(lights, j))
}

/// The samples of a poll with the given outcome: none for a failed one.
pub open spec fn poll_samples_of(outcome: Result<Seq<(String, Light)>, ()>) -> Seq<MetricSample> {
    match outcome {
        Ok(lights) => light_samples(lights),
        Err(_) => Seq::empty(),
    }
}

/// A series: a gauge and the values of its two labels.
pub open spec fn series_of(s: MetricSample) -> (Gauge, Seq<char>, Seq<char>) {
    (s.gauge, s.unique_id@, s.name@)
}

/// The exported values after `samples` are set, in order, over `m`: each
/// sample sets its series, and no series is ever removed.
pub open spec fn publish(m: Map<(Gauge, Seq<char>, Seq<char>), usize>, samples: Seq<MetricSample>) -> Map<(Gauge, Seq<char>, Seq<char>), usize>
    decreases samples.len(),
{
    if samples.len() == 0 {
        m
    } else {
        publish(m, samples.drop_last()).insert(series_of(samples.last()), samples.last().value)
    }
}

/// The samples of one poll that returned `lights`.
pub fn samples_of(lights: &Vec<(String, Light)>) -> (r: Vec<MetricSample>)
    requires
        lights@.len() <= usize::MAX / 2,
    ensures
        r@ == light_samples(lights@),
{
    let mut out: Vec<MetricSample> = Vec::new();
    let mut i: usize = 0;
    while i < lights.len()
        invariant
            0 <= i <= lights@.len(),
            lights@.len() <= usize::MAX / 2,
            out@.len() == 2 * i,
            forall|j: int| 0 <= j < 2 * i ==> #[trigger] out@[j] == sample_at(lights@, j),
        decreases lights.len() - i,
    {
        let light = &lights[i].1;
        out.push(MetricSample {
            gauge: Gauge::LightsOn,
            unique_id: light.uniqueid.clone(),
            name: light.name.clone(),
            value: if light.state.on { 1 } else { 0 },
        });
        out.push(MetricSample {
            gauge: Gauge::LightsBrightness,
            unique_id: light.uniqueid.clone(),
            name: light.name.clone(),
            value: light.state.bri,
        });
        assert(out@[2 * i as int] == sample_at(lights@, 2 * i as int));
        assert(out@[2 * i as int + 1] == sample_at(lights@, 2 * i as int + 1));
        i = i + 1;
    }
    assert(out@ =~= light_samples(lights@));
    out
}

/// The samples to publish after a poll with the given outcome: those of its
/// lights, or none where the poll failed.
pub fn poll_samples(outcome: &Result<Vec<(String, Light)>, ()>) -> (r: Vec<MetricSample>)
    requires
        outcome matches Ok(lights) ==> lights@.len() <= usize::MAX / 2,
    ensures
        r@ == poll_samples_of(match outcome {
            Ok(lights) => Ok(lights@),
            Err(_) => Err(()),
        }),
{
    match outcome {
        Ok(lights) => samples_of(lights),
        Err(_) => {
            let r: Vec<MetricSample> = Vec::new();
            assert(r@ =~= Seq::<MetricSample>::empty());
            r
        },
    }
}

/// Publishing over `m` is `m` overridden by what publishing over nothing gives.
proof fn lemma_publish_overrides(m: Map<(Gauge, Seq<char>, Seq<char>), usize>, samples: Seq<MetricSample>)
    ensures
        publish(m, samples) == m.union_prefer_right(publish(Map::empty(), samples)),
    decreases samples.len(),
{
    if samples.len() == 0 {
        assert(m.union_prefer_right(Map::empty()) =~= m);
    } else {
        lemma_publish_overrides(m, samples.drop_last());
        let k = series_of(samples.last());
        let v = samples.last().value;
        let p = publish(Map::<(Gauge, Seq<char>, Seq<char>), usize>::empty(), samples.drop_last());
        assert(m.union_prefer_right(p).insert(k, v) =~= m.union_prefer_right(p.insert(k, v)));
    }
}

/// Publishing the same samples a second time changes no value: two polls
/// that get the same reply export the same values as one.
pub proof fn lemma_repeated_poll_is_idempotent(m: Map<(Gauge, Seq<char>, Seq<char>), usize>, lights: Seq<(String, Light)>)
    ensures
        publish(publish(m, light_samples(lights)), light_samples(lights)) == publish(m, light_samples(lights)),
{
    let s = light_samples(lights);
    let p = publish(Map::empty(), s);
    lemma_publish_overrides(m, s);
    lemma_publish_overrides(publish(m, s), s);
    assert(m.union_prefer_right(p).union_prefer_right(p) =~= m.union_prefer_right(p));
}

/// A failed poll leaves every exported value as it was.
pub proof fn lemma_failed_poll_keeps_values(m: Map<(Gauge, Seq<char>, Seq<char>), usize>)
    ensures
        publish(m, poll_samples_of(Err(()))) == m,
{
}

/// No poll removes a series, and a series that a poll does not sample keeps
/// its value: lights that vanish from the bridge's reply stay exported.
pub proof fn lemma_poll_keeps_unsampled(m: Map<(Gauge, Seq<char>, Seq<char>), usize>, outcome: Result<Seq<(String, Light)>, ()>, k: (Gauge, Seq<char>, Seq<char>))
    ensures
        m.contains_key(k) ==> publish(m, poll_samples_of(outcome)).contains_key(k),
        m.contains_key(k) && !publish(Map::empty(), poll_samples_of(outcome)).contains_key(k)
            ==> publish(m, poll_samples_of(outcome))[k] == m[k],
{
    lemma_publish_overrides(m, poll_samples_of(outcome));
}

/// Whether no two samples set the same series.
pub open spec fn distinct_series(samples: Seq<MetricSample>) -> bool {
    forall|i: int, j: int| 0 <= i < j < samples.len() ==> series_of(#[trigger] samples[i]) != series_of(#[trigger] samples[j])
}

/// Whether no two lights share a unique id.
pub open spec fn distinct_ids(lights: Seq<(String, Light)>) -> bool {
    forall|i: int, j: int| 0 <= i < j < lights.len() ==> (#[trigger] lights[i]).1.uniqueid@ != (#[trigger] lights[j]).1.uniqueid@
}

/// Where no two samples set the same series, each sample's series holds
/// its value once they are published.
proof fn lemma_publish_sets_each(m: Map<(Gauge, Seq<char>, Seq<char>), usize>, samples: Seq<MetricSample>)
    requires
        distinct_series(samples),
    ensures
        forall|j: int| 0 <= j < samples.len() ==> {
            &&& #[trigger] publish(m, samples).contains_key(series_of(samples[j]))
            &&& publish(m, samples)[series_of(samples[j])] == samples[j].value
        },
    decreases samples.len(),
{
    if samples.len() > 0 {
        let init = samples.drop_last();
        assert(publish(m, samples) == publish(m, init).insert(series_of(samples.last()), samples.last().value));
        assert(distinct_series(init)) by {
            assert forall|i: int, j: int| 0 <= i < j < init.len() implies series_of(#[trigger] init[i]) != series_of(#[trigger] init[j]) by {
                assert(init[i] == samples[i] && init[j] == samples[j]);
            }
        }
        lemma_publish_sets_each(m, init);
        assert forall|j: int| 0 <= j < samples.len() implies {
            &&& #[trigger] publish(m, samples).contains_key(series_of(samples[j]))
            &&& publish(m, samples)[series_of(samples[j])] == samples[j].value
        } by {
            if j < samples.len() - 1 {
                assert(init[j] == samples[j]);
                assert(publish(m, init).contains_key(series_of(init[j])));
                assert(series_of(samples[j]) != series_of(samples[samples.len() - 1]));
            }
        }
    }
}

/// After a poll that returned lights with distinct unique ids, each light's
/// `lights_on` series holds 1 or 0 as it is on or off, and its
/// `lights_brightness` series holds its brightness as reported.
pub proof fn lemma_poll_exports_lights(m: Map<(Gauge, Seq<char>, Seq<char>), usize>, lights: Seq<(String, Light)>)
    requires
        distinct_ids(lights),
    ensures
        forall|i: int| 0 <= i < lights.len() ==> {
            let l = #[trigger] lights[i].1;
            let after = publish(m, light_samples(lights));
            &&& after.contains_key((Gauge::LightsOn, l.uniqueid@, l.name@))
            &&& after[(Gauge::LightsOn, l.uniqueid@, l.name@)] == (if l.state.on { 1usize } else { 0usize })
            &&& after.contains_key((Gauge::LightsBrightness, l.uniqueid@, l.name@))
            &&& after[(Gauge::LightsBrightness, l.uniqueid@, l.name@)] == l.state.bri
        },
{
    let s = light_samples(lights);
    assert(distinct_series(s)) by {
        assert forall|a: int, b: int| 0 <= a < b < s.len() implies series_of(#[trigger] s[a]) != series_of(#[trigger] s[b]) by {
            if a / 2 != b / 2 {
                assert(lights[a / 2].1.uniqueid@ != lights[b / 2].1.uniqueid@);
            }
        }
    }
    lemma_publish_sets_each(m, s);
    assert forall|i: int| 0 <= i < lights.len() implies {
        let l = #[trigger] lights[i].1;
        let after = publish(m, s);
        &&& after.contains_key((Gauge::LightsOn, l.uniqueid@, l.name@))
        &&& after[(Gauge::LightsOn, l.uniqueid@, l.name@)] == (if l.state.on { 1usize } else { 0usize })
        &&& after.contains_key((Gauge::LightsBrightness, l.uniqueid@, l.name@))
        &&& after[(Gauge::LightsBrightness, l.uniqueid@, l.name@)] == l.state.bri
    } by {
        assert(s[2 * i] == on_sample(lights[i].1));
        assert(s[2 * i + 1] == brightness_sample(lights[i].1));
    }
}

/// Every series that publishing sets was there before or is set by a sample.
proof fn lemma_publish_domain(m: Map<(Gauge, Seq<char>, Seq<char>), usize>, samples: Seq<MetricSample>, k: (Gauge, Seq<char>, Seq<char>))
    requires
        publish(m, samples).contains_key(k),
    ensures
        m.contains_key(k) || exists|j: int| 0 <= j < samples.len() && series_of(#[trigger] samples[j]) == k,
    decreases samples.len(),
{
    if samples.len() > 0 {
        let init = samples.drop_last();
        if k != series_of(samples.last()) {
            lemma_publish_domain(m, init, k);
            if !m.contains_key(k) {
                let j = choose|j: int| 0 <= j < init.len() && series_of(#[trigger] init[j]) == k;
                assert(samples[j] == init[j]);
            }
        } else {
            assert(series_of(samples[samples.len() - 1]) == k);
        }
    }
}

/// Whether two lights report the same unique id, name, on state and brightness.
pub open spec fn same_reading(a: Light, b: Light) -> bool {
    &&& a.uniqueid@ == b.uniqueid@
    &&& a.name@ == b.name@
    &&& a.state.on == b.state.on
    &&& a.state.bri == b.state.bri
}

/// Whether each light of `a` has a light of `b` with the same reading.
pub open spec fn readings_within(a: Seq<(String, Light)>, b: Seq<(String, Light)>) -> bool {
    forall|i: int| 0 <= i < a.len() ==> exists|j: int| 0 <= j < b.len() && same_reading(#[trigger] a[i].1, #[trigger] b[j].1)
}

/// Where every reading of `a` is also one of `b`, every series that the
/// samples of `a` set is set by those of `b` to the same value.
proof fn lemma_readings_within(a: Seq<(String, Light)>, b: Seq<(String, Light)>)
    requires
        distinct_ids(a),
        distinct_ids(b),
        readings_within(a, b),
    ensures
        forall|k: (Gauge, Seq<char>, Seq<char>)| #[trigger] publish(Map::empty(), light_samples(a)).contains_key(k) ==> {
            &&& publish(Map::empty(), light_samples(b)).contains_key(k)
            &&& publish(Map::empty(), light_samples(b))[k] == publish(Map::empty(), light_samples(a))[k]
        },
{
    let e = Map::<(Gauge, Seq<char>, Seq<char>), usize>::empty();
    let sa = light_samples(a);
    lemma_poll_exports_lights(e, a);
    lemma_poll_exports_lights(e, b);
    assert forall|k: (Gauge, Seq<char>, Seq<char>)| #[trigger] publish(e, sa).contains_key(k) implies {
        &&& publish(e, light_samples(b)).contains_key(k)
        &&& publish(e, light_samples(b))[k] == publish(e, sa)[k]
    } by {
        lemma_publish_domain(e, sa, k);
        let j = choose|j: int| 0 <= j < sa.len() && series_of(#[trigger] sa[j]) == k;
        let i = j / 2;
        assert(0 <= i < a.len());
        let t = choose|t: int| 0 <= t < b.len() && same_reading(#[trigger] a[i].1, #[trigger] b[t].1);
        let la = a[i].1;
        let lb = b[t].1;
        assert(la == a[i].1);
        assert(lb == b[t].1);
    }
}

/// Two polls whose lights report the same readings, in whatever order,
/// export the same values: publishing the second over the first changes
/// nothing.
pub proof fn lemma_unchanged_readings_no_drift(
    m: Map<(Gauge, Seq<char>, Seq<char>), usize>,
    first: Seq<(String, Light)>,
    second: Seq<(String, Light)>,
)
    requires
        distinct_ids(first),
        distinct_ids(second),
        readings_within(first, second),
        readings_within(second, first),
    ensures
        publish(publish(m, light_samples(first)), light_samples(second)) == publish(m, light_samples(first)),
{
    let e = Map::<(Gauge, Seq<char>, Seq<char>), usize>::empty();
    lemma_readings_within(first, second);
    lemma_readings_within(second, first);
    let p1 = publish(e, light_samples(first));
    let p2 = publish(e, light_samples(second));
    assert(p1 =~= p2);
    lemma_publish_overrides(m, light_samples(first));
    lemma_publish_overrides(publish(m, light_samples(first)), light_samples(second));
    assert(m.union_prefer_right(p1).union_prefer_right(p1) =~= m.union_prefer_right(p1));
}

} // verus!
