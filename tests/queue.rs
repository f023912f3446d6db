use worker::queue::ResponseQueue;

fn permutations(n: u64) -> Vec<Vec<u64>> {
    if n == 0 {
        return vec![vec![]];
    }
    let mut out = Vec::new();
    for p in permutations(n - 1) {
        for i in 0..=p.len() {
            let mut q = p.clone();
            q.insert(i, n - 1);
            out.push(q);
        }
    }
    out
}

#[test]
fn resolve_c_then_a_then_b() {
    let mut q = ResponseQueue::new();
    let a = q.submit(10).unwrap();
    let b = q.submit(11).unwrap();
    let c = q.submit(12).unwrap();
    assert_eq!((a, b, c), (0, 1, 2));
    assert!(q.complete(c, Some(b"C".to_vec())).is_empty());
    let d = q.complete(a, Some(b"A".to_vec()));
    assert_eq!(d.len(), 1);
    assert_eq!((d[0].slot, d[0].caller, d[0].response.clone()), (a, 10, Some(b"A".to_vec())));
    let d = q.complete(b, None);
    assert_eq!(d.len(), 2);
    assert_eq!((d[0].slot, d[0].caller, d[0].response.clone()), (b, 11, None));
    assert_eq!((d[1].slot, d[1].caller, d[1].response.clone()), (c, 12, Some(b"C".to_vec())));
    assert_eq!(q.len(), 0);
}

#[test]
fn every_completion_order_delivers_in_submission_order() {
    for n in 1..=5u64 {
        for order in permutations(n) {
            let mut q = ResponseQueue::new();
            for i in 0..n {
                assert_eq!(q.submit(100 + i), Some(i));
            }
            let mut delivered = Vec::new();
            for &s in &order {
                for d in q.complete(s, Some(vec![s as u8])) {
                    assert_eq!(d.caller, 100 + d.slot);
                    assert_eq!(d.response, Some(vec![d.slot as u8]));
                    delivered.push(d.slot);
                }
            }
            assert_eq!(delivered, (0..n).collect::<Vec<_>>(), "order {:?}", order);
            assert_eq!(q.len(), 0);
        }
    }
}

#[test]
fn unknown_or_repeated_completion_is_ignored() {
    let mut q = ResponseQueue::new();
    let a = q.submit(1).unwrap();
    let b = q.submit(2).unwrap();
    assert!(q.complete(7, Some(vec![7])).is_empty());
    assert!(q.complete(b, Some(vec![1])).is_empty());
    assert!(q.complete(b, Some(vec![2])).is_empty());
    let d = q.complete(a, None);
    assert_eq!(d.len(), 2);
    assert_eq!(d[1].response, Some(vec![1]));
    assert!(q.complete(a, None).is_empty());
    assert_eq!(q.len(), 0);
}

#[test]
fn head_of_line_blocking() {
    let mut q = ResponseQueue::new();
    let a = q.submit(1).unwrap();
    for _ in 0..3 {
        let s = q.submit(2).unwrap();
        assert!(q.complete(s, Some(vec![])).is_empty());
    }
    assert_eq!(q.len(), 4);
    assert_eq!(q.complete(a, Some(vec![])).len(), 4);
}
