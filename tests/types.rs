use rust_basics::types::{analyze_slice, lookup, probe_all, reverse};

#[test]
fn reverse_swaps() {
    assert_eq!(reverse((1, true)), (true, 1));
    assert_eq!(reverse((-5, false)), (false, -5));
}

#[test]
fn analyze_slice_first_and_len() {
    let xs: [i32; 5] = [1, 2, 3, 4, 5];
    assert_eq!(analyze_slice(&xs), (1, 5));
    let ys: [i32; 500] = [69; 500];
    assert_eq!(analyze_slice(&ys[0..4]), (69, 4));
}

#[test]
fn lookup_in_and_out_of_bounds() {
    let xs: [i32; 5] = [1, 2, 3, 4, 5];
    assert_eq!(lookup(&xs, 3), Some(4));
    assert_eq!(lookup(&xs, 5), None);
    assert_eq!(lookup(&xs, usize::MAX), None);
    let empty: [i32; 0] = [];
    assert_eq!(lookup(&empty, 0), None);
}

#[test]
fn probe_length_five() {
    let xs: [i32; 5] = [1, 2, 3, 4, 5];
    let r = probe_all(&xs);
    assert_eq!(r, vec![Some(1), Some(2), Some(3), Some(4), Some(5), None]);
    assert_eq!(r.iter().filter(|o| o.is_some()).count(), 5);
    assert_eq!(r.iter().filter(|o| o.is_none()).count(), 1);
}

#[test]
fn probe_empty() {
    let empty: [i32; 0] = [];
    assert_eq!(probe_all(&empty), vec![None]);
}
