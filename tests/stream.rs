use mempool_view::adapter::{ingest, Filter};
use mempool_view::amount::Amount;
use mempool_view::record::Record;
use mempool_view::view_model::ViewModel;

fn rec(id: &str, value: u64) -> Record {
    Record::new(id.to_string(), "0xfrom".to_string(), None, Amount::from_u64(value))
}

fn values(vm: &ViewModel) -> Vec<[u64; 4]> {
    vm.snapshot().iter().map(|r| r.value.limbs).collect()
}

#[test]
fn lookup_miss_changes_nothing() {
    let mut vm = ViewModel::new(3);
    assert!(ingest(&mut vm, Some(rec("a", 1)), Filter::AcceptAll));
    assert!(!ingest(&mut vm, None, Filter::AcceptAll));
    assert!(!ingest(&mut vm, None, Filter::NonZero));
    assert_eq!(vm.len(), 1);
    assert_eq!(vm.selected(), Some(0));
}

#[test]
fn nonzero_filter_drops_zero_values() {
    let mut vm = ViewModel::new(10);
    for (i, v) in [0u64, 3, 0, 7, 0, 0, 1].iter().enumerate() {
        let changed = ingest(&mut vm, Some(rec(&i.to_string(), *v)), Filter::NonZero);
        assert_eq!(changed, *v != 0);
    }
    assert_eq!(values(&vm), vec![[3, 0, 0, 0], [7, 0, 0, 0], [1, 0, 0, 0]]);
    assert!(vm.snapshot().iter().all(|r| !r.value.is_zero()));
}

#[test]
fn nonzero_filter_keeps_high_limb_values() {
    let mut vm = ViewModel::new(2);
    let big = Record::new("b".to_string(), "f".to_string(), None, Amount::from_limbs([0, 0, 0, 1]));
    assert!(ingest(&mut vm, Some(big), Filter::NonZero));
    assert_eq!(vm.len(), 1);
}

#[test]
fn accept_all_keeps_zero_values() {
    let mut vm = ViewModel::new(2);
    assert!(ingest(&mut vm, Some(rec("z", 0)), Filter::AcceptAll));
    assert_eq!(values(&vm), vec![[0, 0, 0, 0]]);
}

#[test]
fn three_items_capacity_two_nonzero_filter() {
    let mut vm = ViewModel::new(2);
    for (id, v) in [("t0", 0u64), ("t1", 5), ("t2", 10)] {
        ingest(&mut vm, Some(rec(id, v)), Filter::NonZero);
    }
    assert_eq!(values(&vm), vec![[5, 0, 0, 0], [10, 0, 0, 0]]);
    let ids: Vec<String> = vm.snapshot().iter().map(|r| r.id.clone()).collect();
    assert_eq!(ids, vec!["t1", "t2"]);
    assert_eq!(vm.selected(), Some(1));
}

#[test]
fn amount_zero_test_reads_every_limb() {
    assert!(Amount::from_u64(0).is_zero());
    assert!(!Amount::from_u64(9).is_zero());
    assert!(!Amount::from_limbs([0, 2, 0, 0]).is_zero());
    assert!(Amount::from_limbs([0, 0, 0, 0]).is_zero());
}
