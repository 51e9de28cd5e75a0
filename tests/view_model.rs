use mempool_view::amount::Amount;
use mempool_view::record::Record;
use mempool_view::view_model::ViewModel;

fn rec(id: u64, value: u64) -> Record {
    Record::new(format!("0x{:02x}", id), "0xfrom".to_string(), Some("0xto".to_string()), Amount::from_u64(value))
}

fn ids(vm: &ViewModel) -> Vec<String> {
    vm.snapshot().iter().map(|r| r.id.clone()).collect()
}

#[test]
fn new_view_is_empty_with_no_selection() {
    let vm = ViewModel::new(4);
    assert_eq!(vm.len(), 0);
    assert_eq!(vm.selected(), None);
    assert_eq!(vm.capacity_limit(), 4);
    assert!(vm.selected_record().is_none());
}

#[test]
fn appends_beyond_capacity_keep_latest_in_order() {
    let mut vm = ViewModel::new(3);
    for i in 1..=5u64 {
        vm.append(rec(i, i));
        assert!(vm.len() <= 3);
    }
    assert_eq!(vm.len(), 3);
    assert_eq!(ids(&vm), vec!["0x03", "0x04", "0x05"]);
}

#[test]
fn capacity_one_keeps_only_newest() {
    let mut vm = ViewModel::new(1);
    vm.append(rec(1, 1));
    vm.append(rec(2, 2));
    assert_eq!(ids(&vm), vec!["0x02"]);
    assert_eq!(vm.selected(), Some(0));
}

#[test]
fn append_selects_newest() {
    let mut vm = ViewModel::new(5);
    vm.append(rec(1, 1));
    assert_eq!(vm.selected(), Some(0));
    vm.append(rec(2, 2));
    assert_eq!(vm.selected(), Some(1));
    assert_eq!(vm.selected_record().unwrap().id, "0x02");
}

#[test]
fn navigation_on_empty_view_is_noop() {
    let mut vm = ViewModel::new(2);
    vm.select_next();
    assert_eq!(vm.selected(), None);
    vm.select_prev();
    assert_eq!(vm.selected(), None);
}

#[test]
fn navigation_is_clamped_to_records() {
    let mut vm = ViewModel::new(5);
    for i in 0..3u64 {
        vm.append(rec(i, i));
    }
    assert_eq!(vm.selected(), Some(2));
    vm.select_next();
    assert_eq!(vm.selected(), Some(2));
    vm.select_prev();
    assert_eq!(vm.selected(), Some(1));
    vm.select_prev();
    vm.select_prev();
    vm.select_prev();
    assert_eq!(vm.selected(), Some(0));
    vm.select_next();
    assert_eq!(vm.selected(), Some(1));
    assert_eq!(vm.selected_record().unwrap().id, "0x01");
}

#[test]
fn capacity_zero_keeps_nothing() {
    let mut vm = ViewModel::new(0);
    vm.append(rec(1, 1));
    assert_eq!(vm.len(), 0);
    assert_eq!(vm.selected(), None);
    vm.select_next();
    assert_eq!(vm.selected(), None);
}
