use namada_utils::config::{display_name, get_mainnet_ibc_nicknames};
use namada_utils::manifest::{load_transfer_targets, targets_from_records, ManifestError, RowError};
use namada_utils::text::{convert_to_hours, decimal_string, parse_u64};

#[test]
fn hours_minutes_seconds() {
    assert_eq!(convert_to_hours(3725), "1h-2m-5s");
    assert_eq!(convert_to_hours(3600), "1h-0m-0s");
    assert_eq!(convert_to_hours(125), "2m-5s");
    assert_eq!(convert_to_hours(60), "1m-0s");
    assert_eq!(convert_to_hours(42), "42s");
    assert_eq!(convert_to_hours(0), "0s");
    assert_eq!(convert_to_hours(90061), "25h-1m-1s");
}

#[test]
fn decimal_text() {
    assert_eq!(decimal_string(0), "0");
    assert_eq!(decimal_string(1_000_000_007), "1000000007");
    assert_eq!(decimal_string(u64::MAX), u64::MAX.to_string());
}

#[test]
fn unsigned_parsing() {
    assert_eq!(parse_u64("0"), Some(0));
    assert_eq!(parse_u64("+15"), Some(15));
    assert_eq!(parse_u64("18446744073709551615"), Some(u64::MAX));
    assert_eq!(parse_u64("18446744073709551616"), None);
    assert_eq!(parse_u64(""), None);
    assert_eq!(parse_u64("+"), None);
    assert_eq!(parse_u64("-1"), None);
    assert_eq!(parse_u64("1 0"), None);
    assert_eq!(parse_u64("12a"), None);
}

#[test]
fn manifest_targets() {
    let text = "address,amount\ntnam1pppppppppppppppppppppppppppppppppppppppp,10\ntnam1zzzzzzzzzzzzzzzzzzzzzzzzzzzzzzzzzzzzzzzz,20\n";
    let v = load_transfer_targets(text).unwrap();
    assert_eq!(v.len(), 2);
    assert_eq!(v[0].address, "tnam1pppppppppppppppppppppppppppppppppppppppp");
    assert_eq!(v[0].amount, 10);
    assert_eq!(v[1].amount, 20);
    let swapped = "amount,address\n5,\"key\"\n";
    let v = load_transfer_targets(swapped).unwrap();
    assert_eq!(v[0].address, "key");
    assert_eq!(v[0].amount, 5);
    assert_eq!(load_transfer_targets("").unwrap().len(), 0);
}

#[test]
fn manifest_errors() {
    assert_eq!(
        load_transfer_targets("address,value\na,1\n").unwrap_err(),
        ManifestError::MissingColumn
    );
    assert_eq!(
        load_transfer_targets("address,amount\na,1\nb,x\n").unwrap_err(),
        ManifestError::Row { row: 1, kind: RowError::InvalidAmount }
    );
    assert_eq!(
        load_transfer_targets("address,amount\na,1\nb\n").unwrap_err(),
        ManifestError::Malformed
    );
    let rows = vec![
        vec!["address".to_string(), "amount".to_string()],
        vec!["a".to_string()],
    ];
    assert_eq!(
        targets_from_records(&rows).unwrap_err(),
        ManifestError::Row { row: 0, kind: RowError::ShortRow }
    );
}

#[test]
fn ibc_display_names() {
    let table = get_mainnet_ibc_nicknames();
    assert_eq!(table.len(), 6);
    assert_eq!(display_name(&table, "transfer/channel-2/uatom"), "ATOM");
    assert_eq!(display_name(&table, "transfer/channel-0/stutia"), "stTIA");
    assert_eq!(display_name(&table, "transfer/channel-9/uxyz"), "transfer/channel-9/uxyz");
}
