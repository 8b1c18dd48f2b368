//! Reading hardware sensors. The monitoring service reports sensors by name;
//! the name decides which reading feeds which gauge. When several sensors
//! match, the one reported last wins, except for the GPU temperature, where
//! a sensor whose name mentions `Temp` always wins, and another GPU core or
//! edge sensor only fills a temperature that is still zero.

use vstd::prelude::*;
use crate::text::{has_substring, same_text, str_contains};

verus! {

/// Which reported sensor, by position, feeds each gauge; `None` leaves the
/// gauge at zero.
#[derive(Clone, Copy, Debug, PartialEq, Eq, Structural)]
pub struct SensorPicks {
    pub cpu_temp: Option<usize>,
    pub gpu_temp: Option<usize>,
    pub gpu_load: Option<usize>,
    pub vram_load: Option<usize>,
}

/// A CPU package or Ryzen die temperature sensor.
pub open spec fn is_cpu_temp_sensor(name: Seq<char>) -> bool {
    has_substring(name, "CPU Package"@) || has_substring(name, "Core (Tctl/Tdie)"@)
}

/// A sensor of the GPU core or edge (load or temperature).
pub open spec fn is_gpu_core_sensor(name: Seq<char>) -> bool {
    has_substring(name, "GPU Core"@) || has_substring(name, "GPU Edge"@)
}

/// The GPU core load sensor, named exactly `GPU Core`.
pub open spec fn is_gpu_load_sensor(name: Seq<char>) -> bool {
    name == "GPU Core"@
}

/// A GPU memory sensor.
pub open spec fn is_vram_sensor(name: Seq<char>) -> bool {
    has_substring(name, "GPU Memory"@)
}

/// The last of the first `n` sensors whose name satisfies `p`.
pub open spec fn last_where(names: Seq<Seq<char>>, n: nat, p: spec_fn(Seq<char>) -> bool) -> Option<
    usize,
>
    decreases n,
{
    if n == 0 {
        None
    } else if p(names[n - 1]) {
        Some((n - 1) as usize)
    } else {
        last_where(names, (n - 1) as nat, p)
    }
}

/// The GPU temperature gauge is zero: nothing fed it yet, or what fed it
/// read zero.
pub open spec fn reads_zero(pick: Option<usize>, zero: Seq<bool>) -> bool {
    match pick {
        None => true,
        Some(j) => zero[j as int],
    }
}

/// The sensor that feeds the GPU temperature after the first `n` sensors.
pub open spec fn gpu_temp_pick(names: Seq<Seq<char>>, zero: Seq<bool>, n: nat) -> Option<usize>
    decreases n,
{
    if n == 0 {
        None
    } else {
        let prev = gpu_temp_pick(names, zero, (n - 1) as nat);
        let name = names[n - 1];
        if is_gpu_core_sensor(name) && (has_substring(name, "Temp"@) || reads_zero(prev, zero)) {
            Some((n - 1) as usize)
        } else {
            prev
        }
    }
}

/// The choices after all of `names` (`zero[i]`: sensor `i` reads zero).
pub open spec fn sensor_picks(names: Seq<Seq<char>>, zero: Seq<bool>) -> SensorPicks {
    SensorPicks {
        cpu_temp: last_where(names, names.len(), |s: Seq<char>| is_cpu_temp_sensor(s)),
        gpu_temp: gpu_temp_pick(names, zero, names.len()),
        gpu_load: last_where(names, names.len(), |s: Seq<char>| is_gpu_load_sensor(s)),
        vram_load: last_where(names, names.len(), |s: Seq<char>| is_vram_sensor(s)),
    }
}

/// Decides, for the sensors `names` in the order reported, which one feeds
/// each gauge; `zero[i]` tells whether sensor `i` reads zero.
pub fn pick_sensors(names: &Vec<String>, zero: &Vec<bool>) -> (picks: SensorPicks)
    requires
        names.len() == zero.len(),
    ensures
        picks == sensor_picks(names@.map_values(|s: String| s@), zero@),
{
    let ghost ns = names@.map_values(|s: String| s@);
    let mut picks = SensorPicks { cpu_temp: None, gpu_temp: None, gpu_load: None, vram_load: None };
    let mut i: usize = 0;
    while i < names.len()
        invariant
            i <= names.len(),
            names.len() == zero.len(),
            ns == names@.map_values(|s: String| s@),
            picks.cpu_temp == last_where(ns, i as nat, |s: Seq<char>| is_cpu_temp_sensor(s)),
            picks.gpu_temp == gpu_temp_pick(ns, zero@, i as nat),
            picks.gpu_temp matches Some(j) ==> j < i,
            picks.gpu_load == last_where(ns, i as nat, |s: Seq<char>| is_gpu_load_sensor(s)),
            picks.vram_load == last_where(ns, i as nat, |s: Seq<char>| is_vram_sensor(s)),
        decreases names.len() - i,
    {
        let name = names[i].as_str();
        assert(ns[i as int] == name@);
        if str_contains(name, "CPU Package") || str_contains(name, "Core (Tctl/Tdie)") {
            picks.cpu_temp = Some(i);
        }
        if str_contains(name, "GPU Core") || str_contains(name, "GPU Edge") {
            let zero_now = match picks.gpu_temp {
                None => true,
                Some(j) => zero[j],
            };
            if str_contains(name, "Temp") || zero_now {
                picks.gpu_temp = Some(i);
            }
        }
        if same_text(name, "GPU Core") {
            picks.gpu_load = Some(i);
        }
        if str_contains(name, "GPU Memory") {
            picks.vram_load = Some(i);
        }
        i = i + 1;
    }
    picks
}


/// A GPU core or edge sensor whose name mentions `Temp`.
pub open spec fn is_gpu_temp_sensor(name: Seq<char>) -> bool {
    is_gpu_core_sensor(name) && has_substring(name, "Temp"@)
}

proof fn lemma_gpu_temp_stays(names: Seq<Seq<char>>, zero: Seq<bool>, t: int, n: nat)
    requires
        0 <= t < n <= names.len(),
        names.len() <= usize::MAX,
        names.len() == zero.len(),
        is_gpu_temp_sensor(names[t]),
        !zero[t],
        forall|i: int| t < i < names.len() ==> !is_gpu_temp_sensor(#[trigger] names[i]),
    ensures
        gpu_temp_pick(names, zero, n) == Some(t as usize),
    decreases n,
{
    if n > t + 1 {
        lemma_gpu_temp_stays(names, zero, t, (n - 1) as nat);
        assert(!is_gpu_temp_sensor(names[n - 1]));
    }
}

/// Once a GPU temperature sensor (a `GPU Core` or `GPU Edge` sensor whose
/// name mentions `Temp`) has reported a reading that is not zero, no later
/// load or edge reading displaces it: the last such sensor feeds the GPU
/// temperature gauge.
pub proof fn gpu_temperature_sensor_wins(names: Seq<Seq<char>>, zero: Seq<bool>, t: int)
    requires
        names.len() == zero.len(),
        names.len() <= usize::MAX,
        0 <= t < names.len(),
        has_substring(names[t], "GPU Core"@) || has_substring(names[t], "GPU Edge"@),
        has_substring(names[t], "Temp"@),
        !zero[t],
        forall|i: int|
            t < i < names.len() ==> !((has_substring(#[trigger] names[i], "GPU Core"@)
                || has_substring(names[i], "GPU Edge"@)) && has_substring(names[i], "Temp"@)),
    ensures
        sensor_picks(names, zero).gpu_temp == Some(t as usize),
{
    assert forall|i: int| t < i < names.len() implies !is_gpu_temp_sensor(#[trigger] names[i]) by {}
    lemma_gpu_temp_stays(names, zero, t, names.len());
}

proof fn lemma_no_gpu_core_no_pick(names: Seq<Seq<char>>, zero: Seq<bool>, n: nat)
    requires
        n <= names.len(),
        forall|i: int|
            0 <= i < n ==> !has_substring(#[trigger] names[i], "GPU Core"@) && !has_substring(
                names[i],
                "GPU Edge"@,
            ),
    ensures
        gpu_temp_pick(names, zero, n) is None,
    decreases n,
{
    if n > 0 {
        lemma_no_gpu_core_no_pick(names, zero, (n - 1) as nat);
        assert(!has_substring(names[n - 1], "GPU Core"@));
    }
}

/// Without a sensor whose name contains `GPU Core` or `GPU Edge`, the GPU
/// temperature gauge is fed by nothing.
pub proof fn no_gpu_sensor_no_gpu_temperature(names: Seq<Seq<char>>, zero: Seq<bool>)
    requires
        forall|i: int|
            0 <= i < names.len() ==> !has_substring(#[trigger] names[i], "GPU Core"@) && !has_substring(
                names[i],
                "GPU Edge"@,
            ),
    ensures
        sensor_picks(names, zero).gpu_temp is None,
{
    lemma_no_gpu_core_no_pick(names, zero, names.len());
}

/// The first GPU core or edge sensor feeds the temperature gauge even when
/// its name does not mention `Temp`, since the gauge still reads zero.
pub proof fn first_gpu_sensor_fills_the_temperature(names: Seq<Seq<char>>, zero: Seq<bool>, t: int)
    requires
        names.len() == zero.len(),
        0 <= t < names.len(),
        has_substring(names[t], "GPU Core"@) || has_substring(names[t], "GPU Edge"@),
        forall|i: int|
            0 <= i < t ==> !has_substring(#[trigger] names[i], "GPU Core"@) && !has_substring(
                names[i],
                "GPU Edge"@,
            ),
    ensures
        gpu_temp_pick(names, zero, (t + 1) as nat) == Some(t as usize),
{
    lemma_no_gpu_core_no_pick(names, zero, t as nat);
}

proof fn lemma_last_where_is(names: Seq<Seq<char>>, n: nat, p: spec_fn(Seq<char>) -> bool, t: int)
    requires
        0 <= t < n <= names.len(),
        p(names[t]),
        forall|i: int| t < i < n ==> !p(#[trigger] names[i]),
    ensures
        last_where(names, n, p) == Some(t as usize),
    decreases n,
{
    if n > t + 1 {
        lemma_last_where_is(names, (n - 1) as nat, p, t);
        assert(!p(names[n - 1]));
    }
}

proof fn lemma_last_where_none(names: Seq<Seq<char>>, n: nat, p: spec_fn(Seq<char>) -> bool)
    requires
        n <= names.len(),
        forall|i: int| 0 <= i < n ==> !p(#[trigger] names[i]),
    ensures
        last_where(names, n, p) is None,
    decreases n,
{
    if n > 0 {
        lemma_last_where_none(names, (n - 1) as nat, p);
    }
}

/// The CPU temperature comes from the last sensor whose name contains
/// `CPU Package` (Intel) or `Core (Tctl/Tdie)` (AMD Ryzen).
pub proof fn cpu_temperature_from_last_cpu_sensor(names: Seq<Seq<char>>, zero: Seq<bool>, t: int)
    requires
        0 <= t < names.len(),
        has_substring(names[t], "CPU Package"@) || has_substring(names[t], "Core (Tctl/Tdie)"@),
        forall|i: int|
            t < i < names.len() ==> !has_substring(#[trigger] names[i], "CPU Package"@)
                && !has_substring(names[i], "Core (Tctl/Tdie)"@),
    ensures
        sensor_picks(names, zero).cpu_temp == Some(t as usize),
{
    let p = |s: Seq<char>| is_cpu_temp_sensor(s);
    assert forall|i: int| t < i < names.len() implies !p(#[trigger] names[i]) by {}
    lemma_last_where_is(names, names.len(), p, t);
}

/// Without a sensor named for the CPU package or the Ryzen die, the CPU
/// temperature gauge is fed by nothing.
pub proof fn no_cpu_sensor_no_cpu_temperature(names: Seq<Seq<char>>, zero: Seq<bool>)
    requires
        forall|i: int|
            0 <= i < names.len() ==> !has_substring(#[trigger] names[i], "CPU Package"@)
                && !has_substring(names[i], "Core (Tctl/Tdie)"@),
    ensures
        sensor_picks(names, zero).cpu_temp is None,
{
    let p = |s: Seq<char>| is_cpu_temp_sensor(s);
    assert forall|i: int| 0 <= i < names.len() implies !p(#[trigger] names[i]) by {}
    lemma_last_where_none(names, names.len(), p);
}

/// The GPU load comes from the last sensor named exactly `GPU Core`, and
/// from nothing when there is none.
pub proof fn gpu_load_from_last_core_sensor(names: Seq<Seq<char>>, zero: Seq<bool>, t: int)
    requires
        0 <= t < names.len(),
        names[t] == "GPU Core"@,
        forall|i: int| t < i < names.len() ==> #[trigger] names[i] != "GPU Core"@,
    ensures
        sensor_picks(names, zero).gpu_load == Some(t as usize),
{
    let p = |s: Seq<char>| is_gpu_load_sensor(s);
    assert forall|i: int| t < i < names.len() implies !p(#[trigger] names[i]) by {}
    lemma_last_where_is(names, names.len(), p, t);
}

/// Without a sensor named exactly `GPU Core`, the GPU load gauge is fed by
/// nothing, whatever other GPU sensors there are.
pub proof fn no_core_sensor_no_gpu_load(names: Seq<Seq<char>>, zero: Seq<bool>)
    requires
        forall|i: int| 0 <= i < names.len() ==> #[trigger] names[i] != "GPU Core"@,
    ensures
        sensor_picks(names, zero).gpu_load is None,
{
    let p = |s: Seq<char>| is_gpu_load_sensor(s);
    assert forall|i: int| 0 <= i < names.len() implies !p(#[trigger] names[i]) by {}
    lemma_last_where_none(names, names.len(), p);
}

/// The VRAM gauge comes from the last sensor whose name contains
/// `GPU Memory`, and from nothing when there is none.
pub proof fn vram_from_last_memory_sensor(names: Seq<Seq<char>>, zero: Seq<bool>, t: int)
    requires
        0 <= t < names.len(),
        has_substring(names[t], "GPU Memory"@),
        forall|i: int| t < i < names.len() ==> !has_substring(#[trigger] names[i], "GPU Memory"@),
    ensures
        sensor_picks(names, zero).vram_load == Some(t as usize),
{
    let p = |s: Seq<char>| is_vram_sensor(s);
    assert forall|i: int| t < i < names.len() implies !p(#[trigger] names[i]) by {}
    lemma_last_where_is(names, names.len(), p, t);
}

/// Without a sensor whose name contains `GPU Memory`, the VRAM gauge is fed
/// by nothing.
pub proof fn no_memory_sensor_no_vram(names: Seq<Seq<char>>, zero: Seq<bool>)
    requires
        forall|i: int| 0 <= i < names.len() ==> !has_substring(#[trigger] names[i], "GPU Memory"@),
    ensures
        sensor_picks(names, zero).vram_load is None,
{
    let p = |s: Seq<char>| is_vram_sensor(s);
    assert forall|i: int| 0 <= i < names.len() implies !p(#[trigger] names[i]) by {}
    lemma_last_where_none(names, names.len(), p);
}

} // verus!
