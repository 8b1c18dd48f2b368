use esp_sender::processes::{top_ranked, TOP_PROCESSES};
use esp_sender::sensors::{pick_sensors, SensorPicks};

#[test]
fn largest_first() {
    assert_eq!(top_ranked(&vec![10, 50, 30, 40], TOP_PROCESSES), vec![1, 3, 2]);
}

#[test]
fn ties_keep_arrival_order() {
    assert_eq!(top_ranked(&vec![5, 7, 7, 5, 7], TOP_PROCESSES), vec![1, 2, 4]);
    assert_eq!(top_ranked(&vec![1, 1, 1, 1], 2), vec![0, 1]);
}

#[test]
fn fewer_processes_than_places() {
    assert_eq!(top_ranked(&vec![3, 9], TOP_PROCESSES), vec![1, 0]);
    assert_eq!(top_ranked(&Vec::new(), TOP_PROCESSES), Vec::<usize>::new());
    assert_eq!(top_ranked(&vec![3, 9], 0), Vec::<usize>::new());
}

#[test]
fn agrees_with_stable_sort() {
    let mem: Vec<u64> = vec![4, 8, 15, 16, 23, 42, 8, 15, 42, 4, 0, 23];
    let mut order: Vec<usize> = (0..mem.len()).collect();
    order.sort_by(|a, b| mem[*b].cmp(&mem[*a]));
    for k in 0..=mem.len() + 1 {
        let expected: Vec<usize> = order.iter().take(k).cloned().collect();
        assert_eq!(top_ranked(&mem, k), expected);
    }
}

fn names(v: &[&str]) -> Vec<String> {
    v.iter().map(|s| s.to_string()).collect()
}

#[test]
fn sensors_feed_their_gauges() {
    let n = names(&["CPU Package", "GPU Core", "GPU Memory", "GPU Core Temp"]);
    let picks = pick_sensors(&n, &vec![false, false, false, false]);
    assert_eq!(
        picks,
        SensorPicks { cpu_temp: Some(0), gpu_temp: Some(3), gpu_load: Some(1), vram_load: Some(2) }
    );
}

#[test]
fn load_reading_fills_zero_temperature_only() {
    // "GPU Core" (load) fills the temperature while it is still zero.
    let n = names(&["GPU Core"]);
    assert_eq!(pick_sensors(&n, &vec![false]).gpu_temp, Some(0));
    // A temperature that reads zero is replaced by a later core reading.
    let n = names(&["GPU Core Temp", "GPU Edge"]);
    assert_eq!(pick_sensors(&n, &vec![true, false]).gpu_temp, Some(1));
    // A temperature that is not zero stays.
    assert_eq!(pick_sensors(&n, &vec![false, false]).gpu_temp, Some(0));
}

#[test]
fn last_matching_sensor_wins() {
    let n = names(&["Core (Tctl/Tdie)", "CPU Package", "GPU Memory Used", "GPU Memory Total"]);
    let picks = pick_sensors(&n, &vec![false; 4]);
    assert_eq!(picks.cpu_temp, Some(1));
    assert_eq!(picks.vram_load, Some(3));
    assert_eq!(picks.gpu_load, None);
    assert_eq!(picks.gpu_temp, None);
}

#[test]
fn no_sensors() {
    let picks = pick_sensors(&Vec::new(), &Vec::new());
    assert_eq!(picks, SensorPicks { cpu_temp: None, gpu_temp: None, gpu_load: None, vram_load: None });
}
