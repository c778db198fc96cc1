use intraprocess::endpoint::{Edge, PushError, Puller, Pusher};
use intraprocess::process::Process;
use intraprocess::table::AllocError;

fn allocate_all<T>(workers: &mut Vec<Process<T>>, kind: u64) -> Vec<(Vec<Pusher<T>>, Puller<T>)> {
    let mut out = Vec::new();
    for w in workers.iter_mut() {
        let (pushers, puller, hint) = w.allocate(kind).expect("allocation failed");
        assert_eq!(hint, None);
        out.push((pushers, puller));
    }
    out
}

fn drain<T>(puller: &mut Puller<T>) -> Vec<T> {
    let mut got = Vec::new();
    while let Some(v) = puller.pull().take() {
        got.push(v);
    }
    got
}

#[test]
fn three_workers_deliver_to_the_destination_only() {
    let mut workers = Process::<i32>::new_vector(3);
    let mut eps = allocate_all(&mut workers, 0);
    eps[0].0[2].push(&mut Some(42)).unwrap();
    assert_eq!(*eps[2].1.pull(), Some(42));
    assert_eq!(*eps[1].1.pull(), None);
    assert_eq!(*eps[2].1.pull(), None);
}

#[test]
fn new_vector_numbers_the_workers() {
    let workers = Process::<u8>::new_vector(4);
    assert_eq!(workers.len(), 4);
    for (i, w) in workers.iter().enumerate() {
        assert_eq!(w.index(), i);
        assert_eq!(w.peers(), 4);
        assert_eq!(w.allocated(), 0);
    }
    assert!(Process::<u8>::new_vector(0).is_empty());
}

#[test]
fn every_worker_gets_a_pusher_per_destination() {
    for n in 1..=4usize {
        let mut workers = Process::<usize>::new_vector(n);
        // allocate in reverse order: the last worker creates the slot
        let mut eps: Vec<_> = Vec::new();
        for w in workers.iter_mut().rev() {
            let (pushers, puller, _) = w.allocate(7).unwrap();
            eps.push((pushers, puller));
        }
        eps.reverse();
        for (w, (pushers, puller)) in eps.iter().enumerate() {
            assert_eq!(pushers.len(), n);
            for (d, p) in pushers.iter().enumerate() {
                assert_eq!(p.location(), Edge { slot: 0, dest: d });
            }
            assert_eq!(puller.location(), Edge { slot: 0, dest: w });
        }
        for w in 0..n {
            for d in 0..n {
                eps[w].0[d].push(&mut Some(w * 10 + d)).unwrap();
            }
        }
        for d in 0..n {
            let mut got = drain(&mut eps[d].1);
            got.sort();
            let want: Vec<usize> = (0..n).map(|w| w * 10 + d).collect();
            assert_eq!(got, want);
        }
        for w in workers.iter() {
            assert_eq!(w.allocated(), 1);
        }
    }
}

#[test]
fn one_edge_keeps_push_order() {
    let mut workers = Process::<&'static str>::new_vector(2);
    let mut eps = allocate_all(&mut workers, 0);
    eps[0].0[1].push(&mut Some("a")).unwrap();
    eps[0].0[1].push(&mut Some("b")).unwrap();
    assert_eq!(*eps[1].1.pull(), Some("a"));
    assert_eq!(*eps[1].1.pull(), Some("b"));
    assert_eq!(*eps[1].1.pull(), None);
}

#[test]
fn a_worker_reaches_itself() {
    let mut workers = Process::<i64>::new_vector(2);
    let mut eps = allocate_all(&mut workers, 0);
    eps[1].0[1].push(&mut Some(-5)).unwrap();
    assert_eq!(*eps[1].1.pull(), Some(-5));
    assert_eq!(*eps[0].1.pull(), None);
}

#[test]
fn empty_polls_stay_empty() {
    let mut workers = Process::<u32>::new_vector(2);
    let mut eps = allocate_all(&mut workers, 0);
    for _ in 0..5 {
        assert_eq!(*eps[0].1.pull(), None);
        assert_eq!(eps[0].1.location(), Edge { slot: 0, dest: 0 });
    }
    eps[1].0[0].push(&mut Some(9)).unwrap();
    assert_eq!(*eps[0].1.pull(), Some(9));
}

#[test]
fn two_allocations_are_independent() {
    let mut workers = Process::<u32>::new_vector(2);
    let mut first = allocate_all(&mut workers, 1);
    let mut second = allocate_all(&mut workers, 2);
    assert_eq!(second[1].1.location(), Edge { slot: 1, dest: 1 });
    first[0].0[1].push(&mut Some(100)).unwrap();
    second[0].0[1].push(&mut Some(200)).unwrap();
    assert_eq!(*second[1].1.pull(), Some(200));
    assert_eq!(*second[1].1.pull(), None);
    assert_eq!(*first[1].1.pull(), Some(100));
    assert_eq!(*first[1].1.pull(), None);
    assert_eq!(workers[0].allocated(), 2);
}

#[test]
fn disagreeing_kinds_are_refused() {
    let mut workers = Process::<u32>::new_vector(2);
    assert!(workers[0].allocate(1).is_ok());
    assert_eq!(workers[1].allocate(2).err(), Some(AllocError::KindMismatch));
    assert_eq!(workers[1].allocated(), 0);
    assert!(workers[1].allocate(1).is_ok());
    assert_eq!(workers[1].allocated(), 1);
}

#[test]
fn empty_push_is_a_no_op() {
    let mut workers = Process::<u32>::new_vector(1);
    let mut eps = allocate_all(&mut workers, 0);
    let mut nothing: Option<u32> = None;
    assert_eq!(eps[0].0[0].push(&mut nothing), Ok(()));
    assert_eq!(*eps[0].1.pull(), None);
    let mut one = Some(3);
    eps[0].0[0].push(&mut one).unwrap();
    assert_eq!(one, None);
}

#[test]
fn push_to_a_departed_worker_gives_the_value_back() {
    let mut workers = Process::<u32>::new_vector(2);
    let mut eps = allocate_all(&mut workers, 0);
    let (_, gone) = eps.pop().unwrap();
    drop(gone);
    let mut v = Some(11);
    assert_eq!(eps[0].0[1].push(&mut v), Err(PushError::Disconnected));
    assert_eq!(v, Some(11));
}

#[test]
fn cloned_pushers_share_the_queue() {
    let mut workers = Process::<u32>::new_vector(2);
    let mut eps = allocate_all(&mut workers, 0);
    let mut copy = eps[0].0[1].clone();
    assert_eq!(copy.location(), eps[0].0[1].location());
    copy.push(&mut Some(1)).unwrap();
    eps[0].0[1].push(&mut Some(2)).unwrap();
    assert_eq!(drain(&mut eps[1].1), vec![1, 2]);
}

#[test]
fn inner_allocator_is_reachable() {
    let mut workers = Process::<u32>::new_vector(1);
    let _inner = workers[0].inner();
    assert_eq!(workers[0].index(), 0);
}
