use counter::counter::{
    call, counter_entry_points, counter_get, counter_inc, resolve_storage, Host, CONTRACT_ACCESS_UREF, CONTRACT_KEY,
    CONTRACT_PACKAGE_NAME, CONTRACT_VERSION_KEY, COUNT_KEY, ENTRY_POINT_COUNTER_GET,
    ENTRY_POINT_COUNTER_INC, CLType, EntryPointAccess, EntryPointType,
};
use counter::registry::{Key, NamedKeys};
use counter::storage::{Storage, StoredValue};
use counter::CounterError;

const ENTRY_POINT_COUNTER_DEC: &str = "counter_dec";

fn installed() -> (Host, usize) {
    let mut host = Host::new();
    call(&mut host);
    let contract = match host.account_keys.get(CONTRACT_KEY) {
        Some(Key::Contract(k)) => k,
        other => panic!("must have contract hash key, got {:?}", other),
    };
    (host, contract)
}

fn cell(host: &Host, key: Option<Key>) -> Option<StoredValue> {
    match key {
        Some(Key::URef(u)) => host.storage.cells[u],
        other => panic!("expected a storage reference, got {:?}", other),
    }
}

fn count(host: &Host, contract: usize) -> i32 {
    let key = host.contracts[contract].named_keys.get(COUNT_KEY);
    match cell(host, key) {
        Some(StoredValue::I32(v)) => v,
        other => panic!("should be i32, got {:?}", other),
    }
}

fn read(host: &mut Host, contract: usize) -> i32 {
    match host.call_entry_point(contract, ENTRY_POINT_COUNTER_GET) {
        Ok(Some(v)) => v,
        other => panic!("read failed: {:?}", other),
    }
}

fn increment(host: &mut Host, contract: usize) {
    assert_eq!(host.call_entry_point(contract, ENTRY_POINT_COUNTER_INC), Ok(None));
}

#[test]
fn install_v1_and_check_entry_points() {
    let (mut host, contract) = installed();

    let version = cell(&host, host.account_keys.get(CONTRACT_VERSION_KEY));
    assert_eq!(version, Some(StoredValue::U32(1)));

    assert_eq!(count(&host, contract), 0);

    increment(&mut host, contract);
    assert_eq!(count(&host, contract), 1);

    let r = host.call_entry_point(contract, ENTRY_POINT_COUNTER_DEC);
    assert_eq!(r, Err(CounterError::UnknownEntryPoint));
    assert_eq!(count(&host, contract), 1);
}

#[test]
fn install_then_read_and_increment_twice() {
    let (mut host, contract) = installed();
    assert_eq!(read(&mut host, contract), 0);
    increment(&mut host, contract);
    assert_eq!(read(&mut host, contract), 1);
    increment(&mut host, contract);
    assert_eq!(read(&mut host, contract), 2);
}

#[test]
fn install_publishes_handles_and_entry_points() {
    let (host, contract) = installed();
    assert_eq!(contract, 0);
    assert_eq!(host.account_keys.get(CONTRACT_PACKAGE_NAME), Some(Key::Package(0)));
    let access = cell(&host, host.account_keys.get(CONTRACT_ACCESS_UREF));
    assert_eq!(access, Some(StoredValue::Unit));
    let c = &host.contracts[contract];
    assert_eq!(c.version, 1);
    assert_eq!(c.package, 0);
    assert_eq!(c.entry_points.len(), 2);
    assert_eq!(c.entry_points[0].name, "counter_get");
    assert_eq!(c.entry_points[1].name, "counter_inc");
    assert_eq!(host.packages[0].latest_version, 1);
}

#[test]
fn reinstall_mints_next_version_in_same_package() {
    let (mut host, first) = installed();
    increment(&mut host, first);
    call(&mut host);
    let second = match host.account_keys.get(CONTRACT_KEY) {
        Some(Key::Contract(k)) => k,
        other => panic!("must have contract hash key, got {:?}", other),
    };
    assert_eq!(second, 1);
    assert_eq!(host.contracts[second].version, 2);
    assert_eq!(host.contracts[second].package, 0);
    assert_eq!(host.packages.len(), 1);
    assert_eq!(host.packages[0].latest_version, 2);
    let version = cell(&host, host.account_keys.get(CONTRACT_VERSION_KEY));
    assert_eq!(version, Some(StoredValue::U32(2)));
    assert_eq!(read(&mut host, second), 0);
    assert_eq!(read(&mut host, first), 1);
}

#[test]
fn read_twice_returns_same_value() {
    let (mut host, contract) = installed();
    increment(&mut host, contract);
    let a = read(&mut host, contract);
    let b = read(&mut host, contract);
    let c = read(&mut host, contract);
    assert_eq!(a, 1);
    assert_eq!(b, 1);
    assert_eq!(c, 1);
}

#[test]
fn read_after_increment_adds_exactly_one() {
    let (mut host, contract) = installed();
    for _ in 0..5 {
        let before = read(&mut host, contract);
        increment(&mut host, contract);
        assert_eq!(read(&mut host, contract), before + 1);
    }
}

#[test]
fn hundred_increments_give_hundred() {
    let (mut host, contract) = installed();
    for _ in 0..100 {
        increment(&mut host, contract);
    }
    assert_eq!(read(&mut host, contract), 100);
}

#[test]
fn undeclared_operation_aborts_without_effect() {
    let (mut host, contract) = installed();
    increment(&mut host, contract);
    let before = host.storage.cells.clone();
    assert_eq!(
        host.call_entry_point(contract, "counter_dec"),
        Err(CounterError::UnknownEntryPoint)
    );
    assert_eq!(host.call_entry_point(contract, ""), Err(CounterError::UnknownEntryPoint));
    assert_eq!(host.storage.cells, before);
    assert_eq!(read(&mut host, contract), 1);
}

#[test]
fn missing_binding_is_reported() {
    let keys = NamedKeys::new();
    let mut storage = Storage::new();
    storage.new_uref(StoredValue::I32(3));
    assert_eq!(counter_get(&keys, &storage), Err(CounterError::MissingBinding));
    assert_eq!(counter_inc(&keys, &mut storage), Err(CounterError::MissingBinding));
    assert_eq!(storage.cells, vec![Some(StoredValue::I32(3))]);
}

#[test]
fn wrong_reference_kind_is_reported() {
    let mut keys = NamedKeys::new();
    keys.put(COUNT_KEY, Key::Contract(0));
    let mut storage = Storage::new();
    storage.new_uref(StoredValue::I32(3));
    assert_eq!(counter_get(&keys, &storage), Err(CounterError::WrongReferenceKind));
    assert_eq!(counter_inc(&keys, &mut storage), Err(CounterError::WrongReferenceKind));
    assert_eq!(storage.cells, vec![Some(StoredValue::I32(3))]);
}

#[test]
fn empty_or_unallocated_cell_is_value_absent() {
    let mut keys = NamedKeys::new();
    keys.put(COUNT_KEY, Key::URef(0));
    let mut storage = Storage { cells: vec![None] };
    assert_eq!(counter_get(&keys, &storage), Err(CounterError::ValueAbsent));
    assert_eq!(counter_inc(&keys, &mut storage), Err(CounterError::ValueAbsent));
    keys.put(COUNT_KEY, Key::URef(7));
    assert_eq!(counter_get(&keys, &storage), Err(CounterError::ValueAbsent));
    assert_eq!(storage.cells, vec![None]);
}

#[test]
fn cell_of_other_type_is_read_failure() {
    let mut keys = NamedKeys::new();
    let mut storage = Storage::new();
    let u = storage.new_uref(StoredValue::U32(5));
    keys.put(COUNT_KEY, Key::URef(u));
    assert_eq!(counter_get(&keys, &storage), Err(CounterError::ReadFailure));
    assert_eq!(counter_inc(&keys, &mut storage), Err(CounterError::ReadFailure));
    assert_eq!(storage.cells, vec![Some(StoredValue::U32(5))]);
}

#[test]
fn increment_at_top_of_range_wraps() {
    let mut keys = NamedKeys::new();
    let mut storage = Storage::new();
    let u = storage.new_uref(StoredValue::I32(i32::MAX));
    keys.put(COUNT_KEY, Key::URef(u));
    assert_eq!(counter_inc(&keys, &mut storage), Ok(()));
    assert_eq!(counter_get(&keys, &storage), Ok(i32::MIN));
    assert_eq!(counter_inc(&keys, &mut storage), Ok(()));
    assert_eq!(counter_get(&keys, &storage), Ok(i32::MIN + 1));
}

#[test]
fn put_replaces_existing_binding() {
    let mut keys = NamedKeys::new();
    keys.put("a", Key::URef(1));
    keys.put("b", Key::Package(2));
    keys.put("a", Key::Contract(3));
    assert_eq!(keys.get("a"), Some(Key::Contract(3)));
    assert_eq!(keys.get("b"), Some(Key::Package(2)));
    assert_eq!(keys.get("c"), None);
    assert_eq!(keys.entries.len(), 2);
}

#[test]
fn entry_point_table_is_get_then_inc() {
    let eps = counter_entry_points();
    assert_eq!(eps.len(), 2);
    assert_eq!(eps[0].name, ENTRY_POINT_COUNTER_GET);
    assert_eq!(eps[0].ret, CLType::I32);
    assert_eq!(eps[1].name, ENTRY_POINT_COUNTER_INC);
    assert_eq!(eps[1].ret, CLType::Unit);
    assert_eq!(eps[1].access, EntryPointAccess::Public);
    assert_eq!(eps[1].entry_point_type, EntryPointType::Contract);
}

#[test]
fn resolve_storage_cases() {
    assert_eq!(resolve_storage(None), Err(CounterError::MissingBinding));
    assert_eq!(resolve_storage(Some(Key::URef(4))), Ok(4));
    assert_eq!(resolve_storage(Some(Key::Contract(4))), Err(CounterError::WrongReferenceKind));
    assert_eq!(resolve_storage(Some(Key::Package(4))), Err(CounterError::WrongReferenceKind));
}
