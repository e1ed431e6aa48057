use pulse::collector::{find_by_name, find_by_pid, top_by_memory};

fn reference_top(memory: &[u64], n: usize) -> Vec<usize> {
    let mut idx: Vec<usize> = (0..memory.len()).collect();
    idx.sort_by(|a, b| memory[*b].cmp(&memory[*a]));
    idx.truncate(n);
    idx
}

#[test]
fn top_by_memory_is_stable_descending_prefix() {
    let memory = vec![5u64, 9, 5, 1, 9, 0, 7];
    assert_eq!(top_by_memory(&memory, 3), vec![1, 4, 6]);
    assert_eq!(top_by_memory(&memory, 5), vec![1, 4, 6, 0, 2]);
    assert_eq!(top_by_memory(&memory, 100), reference_top(&memory, 100));
    assert_eq!(top_by_memory(&memory, 0), Vec::<usize>::new());
    assert_eq!(top_by_memory(&vec![], 4), Vec::<usize>::new());
    let mut x: u64 = 12345;
    for len in 0..40usize {
        let mut m = Vec::new();
        for _ in 0..len {
            x = x.wrapping_mul(6364136223846793005).wrapping_add(1442695040888963407);
            m.push((x >> 60) % 6);
        }
        for n in [0usize, 1, 3, len / 2, len, len + 2] {
            assert_eq!(top_by_memory(&m, n), reference_top(&m, n));
        }
    }
}

#[test]
fn find_by_name_ignores_ascii_case() {
    let names: Vec<String> = ["Firefox", "bash", "FIREFOX", "firefox-bin", "fireFox", "Ｆirefox"]
        .iter()
        .map(|s| s.to_string())
        .collect();
    assert_eq!(find_by_name(&names, "firefox"), vec![0, 2, 4]);
    let reference: Vec<usize> = (0..names.len()).filter(|i| names[*i].eq_ignore_ascii_case("FireFox")).collect();
    assert_eq!(find_by_name(&names, "FireFox"), reference);
    assert_eq!(find_by_name(&names, "zsh"), Vec::<usize>::new());
}

#[test]
fn find_by_pid_takes_first() {
    let pids = vec![10, 20, 30, 20];
    assert_eq!(find_by_pid(&pids, 20), Some(1));
    assert_eq!(find_by_pid(&pids, 10), Some(0));
    assert_eq!(find_by_pid(&pids, 99), None);
    assert_eq!(find_by_pid(&vec![], 1), None);
}
