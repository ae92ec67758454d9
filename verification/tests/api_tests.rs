use ledger_pruner::block::{BlockInfo, HashValue};
use ledger_pruner::response::{build_not_found, BasicErrorWith404};
use ledger_pruner::state::resolve_requested_version;
use ledger_pruner::table::TableHandle;

#[test]
fn requested_version_is_taken_when_it_exists() {
    assert_eq!(resolve_requested_version(Some(7), 10), Ok(7));
    assert_eq!(resolve_requested_version(Some(10), 10), Ok(10));
}

#[test]
fn missing_requested_version_falls_back_to_latest() {
    assert_eq!(resolve_requested_version(None, 10), Ok(10));
}

#[test]
fn future_requested_version_is_not_found() {
    match resolve_requested_version(Some(11), 10) {
        Err(BasicErrorWith404::NotFound(e)) => {
            assert_eq!(e.message, "ledger not found by 11");
            assert_eq!(e.aptos_ledger_version, Some(10));
        },
        _ => panic!("expected a not-found response"),
    }
}

#[test]
fn error_constructors_tag_their_status() {
    match BasicErrorWith404::bad_request_str("bad field") {
        BasicErrorWith404::BadRequest(e) => {
            assert_eq!(e.message, "bad field");
            assert_eq!(e.aptos_ledger_version, None);
        },
        _ => panic!("expected a bad-request response"),
    }
    match BasicErrorWith404::internal_str("boom").aptos_ledger_version(3) {
        BasicErrorWith404::Internal(e) => {
            assert_eq!(e.message, "boom");
            assert_eq!(e.aptos_ledger_version, Some(3));
        },
        _ => panic!("expected an internal response"),
    }
}

#[test]
fn not_found_response_carries_message_and_version() {
    let r = build_not_found("Resource", "0x1::account::Account", 42);
    match r {
        BasicErrorWith404::NotFound(e) => {
            assert_eq!(e.message, "Resource not found by 0x1::account::Account");
            assert_eq!(e.aptos_ledger_version, Some(42));
        },
        _ => panic!("expected a not-found response"),
    }
}

#[test]
fn not_found_response_for_a_pruned_ledger_version() {
    let r = build_not_found("ledger", "5", 100);
    match r {
        BasicErrorWith404::NotFound(e) => {
            assert_eq!(e.message, "ledger not found by 5");
            assert_eq!(e.aptos_ledger_version, Some(100));
        },
        _ => panic!("expected a not-found response"),
    }
}

#[test]
fn table_handle_size_is_sixteen_bytes() {
    let handle = TableHandle(0x0123_4567_89ab_cdef_u128);
    assert_eq!(handle.size(), 16);
    assert_eq!(handle.size(), std::mem::size_of_val(&handle.0));
}

#[test]
fn table_handles_order_by_value() {
    let a = TableHandle(1);
    let b = TableHandle(2);
    assert!(a < b);
    assert_eq!(a, TableHandle(1));
}

#[test]
fn block_info_covers_a_version_range() {
    let info = BlockInfo {
        block_height: 7,
        block_hash: HashValue { hash: [0xab; 32] },
        block_timestamp: 1_650_000_000,
        start_version: 30,
        end_version: 45,
        num_transactions: 15,
    };
    assert_eq!(info.block_height, 7);
    assert_eq!(info.block_hash.hash[0], 0xab);
    assert!(info.start_version <= info.end_version);
    assert_eq!(
        info.end_version - info.start_version,
        info.num_transactions as u64
    );
}
