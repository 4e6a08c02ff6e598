use namada_utils::address::{
    classify_reference, get_addresses, looks_like_address, resolve, Address, AddressError,
    AddressRef, KeyEntry, Keyring, ResolveError,
};

const LIT: &str = "tnam1qyctcwkgthr06k7lx38zmjka5dakmvhhyyr0zafu";
const OTHER: &str = "tnam1pppppppppppppppppppppppppppppppppppppppp";

fn addr(s: &str) -> Address {
    Address { canonical: s.to_string() }
}

#[test]
fn address_shape() {
    assert!(looks_like_address(LIT));
    assert!(!looks_like_address("tnam1qyctcwkgthr06k7lx38zmjka5dakmvhhyyr0zaf"));
    assert!(!looks_like_address("tnam1qyctcwkgthr06k7lx38zmjka5dakmvhhyyr0zafb"));
    assert!(!looks_like_address("tnam2qyctcwkgthr06k7lx38zmjka5dakmvhhyyr0zafu"));
    assert!(!looks_like_address("TNAM1QYCTCWKGTHR06K7LX38ZMJKA5DAKMVHHYYR0ZAFU"));
    assert!(!looks_like_address(""));
}

#[test]
fn classification_by_prefix() {
    assert!(matches!(classify_reference(LIT), AddressRef::Literal(s) if s == LIT));
    assert!(matches!(classify_reference("key-0"), AddressRef::Alias(s) if s == "key-0"));
    assert!(matches!(classify_reference("tna"), AddressRef::Alias(_)));
}

#[test]
fn resolution() {
    let kr = Keyring {
        entries: vec![
            KeyEntry { alias: "nam".to_string(), address: addr(OTHER) },
            KeyEntry { alias: "nam".to_string(), address: addr(LIT) },
        ],
    };
    assert_eq!(kr.find_address("nam"), Some(addr(OTHER)));
    assert_eq!(kr.find_address("pgf"), None);
    assert_eq!(resolve(&AddressRef::Alias("nam".to_string()), &kr), Ok(addr(OTHER)));
    assert_eq!(
        resolve(&AddressRef::Alias("pgf".to_string()), &kr),
        Err(ResolveError::AliasNotFound)
    );
    assert_eq!(resolve(&AddressRef::Literal(LIT.to_string()), &kr), Ok(addr(LIT)));
    assert_eq!(
        resolve(&AddressRef::Literal("tnam1xyz".to_string()), &kr),
        Err(ResolveError::Malformed)
    );
}

#[test]
fn address_list_resolution() {
    let kr = Keyring { entries: vec![KeyEntry { alias: "mine".to_string(), address: addr(OTHER) }] };
    let refs = vec![LIT.to_string(), "mine".to_string()];
    assert_eq!(get_addresses(&kr, &refs).unwrap(), vec![addr(LIT), addr(OTHER)]);
    let refs = vec![LIT.to_string(), "tnam1bad".to_string(), "unknown".to_string()];
    assert_eq!(
        get_addresses(&kr, &refs).unwrap_err(),
        AddressError { index: 1, kind: ResolveError::Malformed }
    );
    let refs = vec!["unknown".to_string()];
    assert_eq!(
        get_addresses(&kr, &refs).unwrap_err(),
        AddressError { index: 0, kind: ResolveError::AliasNotFound }
    );
    assert!(addr(LIT).same_as(&addr(LIT)));
    assert!(!addr(LIT).same_as(&addr(OTHER)));
}
