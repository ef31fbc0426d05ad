//! Behavioural tests of the registry operations, run against both storage
//! backends.
use uuid_pool::interface::{DEFAULT_MAX_RETRIES, DEFAULT_UUID_BASE};
use uuid_pool::registry::Registry;
use uuid_pool::token::Token;
use uuid_pool::UuidPoolError;

fn both_backends() -> Vec<Registry> {
    vec![Registry::new(), Registry::new_concurrent()]
}

#[test]
fn reserve_keeps_base_bits() {
    for mut reg in both_backends() {
        let t = reg.reserve_with_base("ctx", 7).unwrap();
        assert_eq!(t.base(), 7);
        assert_eq!((t.value >> 96) as u32, 7);
    }
}

#[test]
fn reserve_uses_default_base() {
    for mut reg in both_backends() {
        let t = reg.reserve("ctx").unwrap();
        assert_eq!(t.base(), DEFAULT_UUID_BASE);
        assert_eq!(t.base(), 64);
    }
}

#[test]
fn reserve_extreme_bases() {
    for mut reg in both_backends() {
        let t0 = reg.reserve_with_base("ctx", 0).unwrap();
        assert_eq!(t0.base(), 0);
        let t1 = reg.reserve_with_base("ctx", u32::MAX).unwrap();
        assert_eq!(t1.base(), u32::MAX);
    }
}

#[test]
fn reserved_tokens_carry_version_and_variant_bits() {
    for mut reg in both_backends() {
        let t = reg.reserve("ctx").unwrap();
        assert_eq!((t.value >> 76) & 0xf, 8);
        assert_eq!((t.value >> 62) & 0x3, 0b10);
    }
}

#[test]
fn reserve_zero_retries_fails_immediately() {
    for mut reg in both_backends() {
        let r = reg.reserve_with("ctx", 64, 0);
        assert!(matches!(r, Err(UuidPoolError::FailedToGenerateUniqueUuidError(_))));
        assert!(reg.get("ctx").is_err());
    }
}

#[test]
fn add_twice_is_rejected() {
    for mut reg in both_backends() {
        let t = Token { value: 0xabcdef };
        assert!(reg.add("ctx", t).is_ok());
        let second = reg.add("ctx", t);
        assert!(matches!(second, Err(UuidPoolError::FailedToSetUuidInPoolError(_))));
        let entries = reg.get("ctx").unwrap();
        assert_eq!(entries.len(), 1);
        assert_eq!(entries[0].0, "ctx");
        assert_eq!(entries[0].1, t);
    }
}

#[test]
fn remove_and_try_remove_agree() {
    for mut reg in both_backends() {
        let t = Token { value: 42 };
        assert!(!reg.try_remove("ctx", t));
        assert!(reg.remove("ctx", t).is_err());
        reg.add("ctx", t).unwrap();
        assert!(reg.remove("ctx", t).is_ok());
        reg.add("ctx", t).unwrap();
        assert!(reg.try_remove("ctx", t));
        assert!(!reg.try_remove("ctx", t));
        assert!(reg.remove("ctx", t).is_err());
    }
}

#[test]
fn remove_prunes_emptied_context() {
    for mut reg in both_backends() {
        let t = Token { value: 1 };
        reg.add("ctx", t).unwrap();
        reg.remove("ctx", t).unwrap();
        assert!(matches!(reg.get("ctx"), Err(UuidPoolError::FailedToFindUuidInPoolError(_))));
    }
}

#[test]
fn replace_round_trip() {
    for mut reg in both_backends() {
        let a = Token { value: 10 };
        let b = Token { value: 20 };
        reg.add("ctx", a).unwrap();
        assert!(reg.replace("ctx", a, b).is_ok());
        let entries = reg.get("ctx").unwrap();
        let tokens: Vec<Token> = entries.iter().map(|p| p.1).collect();
        assert!(tokens.contains(&b));
        assert!(!tokens.contains(&a));
        // `a` is gone now, so the second replace first tries to establish `b`,
        // which is already present: the establish step's failure propagates.
        let again = reg.replace("ctx", a, b);
        assert!(matches!(again, Err(UuidPoolError::FailedToSetUuidInPoolError(_))));
        let entries = reg.get("ctx").unwrap();
        assert_eq!(entries.len(), 1);
        assert_eq!(entries[0].1, b);
    }
}

#[test]
fn replace_onto_tracked_token_drops_old_without_rollback() {
    for mut reg in both_backends() {
        let a = Token { value: 10 };
        let b = Token { value: 20 };
        reg.add("ctx", a).unwrap();
        reg.add("ctx", b).unwrap();
        // `b` is already tracked, so the post-removal insert fails; `a` stays
        // removed (best-effort swap, no rollback) and `b` stays tracked once.
        let r = reg.replace("ctx", a, b);
        assert!(matches!(r, Err(UuidPoolError::FailedToSetUuidInPoolError(_))));
        let entries = reg.get("ctx").unwrap();
        assert_eq!(entries.len(), 1);
        assert_eq!(entries[0].1, b);
    }
}

#[test]
fn reserve_on_fresh_context_never_exhausts() {
    for mut reg in both_backends() {
        assert!(reg.reserve("fresh").is_ok());
        assert!(reg.reserve_with_base("fresh2", 9).is_ok());
        assert!(reg.reserve_with("fresh3", 9, 1).is_ok());
    }
}

#[test]
fn replace_of_absent_token_establishes_new_but_reports_not_found() {
    for mut reg in both_backends() {
        let a = Token { value: 1 };
        let b = Token { value: 2 };
        let r = reg.replace("ctx", a, b);
        assert!(matches!(r, Err(UuidPoolError::FailedToFindUuidInPoolError(_))));
        let entries = reg.get("ctx").unwrap();
        assert_eq!(entries.len(), 1);
        assert_eq!(entries[0].1, b);
    }
}

#[test]
fn replace_absent_token_with_itself_establishes_it() {
    for mut reg in both_backends() {
        let x = Token { value: 77 };
        assert!(reg.replace("ctx", x, x).is_ok());
        let entries = reg.get("ctx").unwrap();
        assert_eq!(entries.len(), 1);
        assert_eq!(entries[0].1, x);
    }
}

#[test]
fn clear_context_empties_and_is_idempotent() {
    for mut reg in both_backends() {
        reg.add("ctx", Token { value: 1 }).unwrap();
        reg.add("ctx", Token { value: 2 }).unwrap();
        assert!(reg.clear_context("ctx").is_ok());
        assert!(matches!(reg.get("ctx"), Err(UuidPoolError::FailedToFindUuidInPoolError(_))));
        assert!(reg.clear_context("ctx").is_ok());
        assert!(reg.get("ctx").is_err());
    }
}

#[test]
fn clear_all_empties_every_context() {
    for mut reg in both_backends() {
        reg.add("one", Token { value: 1 }).unwrap();
        reg.add("two", Token { value: 2 }).unwrap();
        assert!(reg.clear_all().is_ok());
        assert!(reg.get("one").is_err());
        assert!(reg.get("two").is_err());
        assert!(reg.clear_all().is_ok());
    }
}

#[test]
fn same_token_in_two_contexts() {
    for mut reg in both_backends() {
        let t = Token { value: 0xdeadbeef };
        assert!(reg.add("ctx1", t).is_ok());
        assert!(reg.add("ctx2", t).is_ok());
        assert_eq!(reg.get("ctx1").unwrap().len(), 1);
        assert_eq!(reg.get("ctx2").unwrap().len(), 1);
        assert!(reg.try_remove("ctx1", t));
        assert_eq!(reg.get("ctx2").unwrap().len(), 1);
    }
}

#[test]
fn repeated_reserve_yields_distinct_tracked_tokens() {
    for mut reg in both_backends() {
        let rounds = 300;
        let mut seen: Vec<u128> = Vec::new();
        for _ in 0..rounds {
            let t = reg
                .reserve_with("ctx", DEFAULT_UUID_BASE, DEFAULT_MAX_RETRIES)
                .expect("entropy space is large enough that reserve must succeed");
            assert_eq!(t.base(), 64);
            assert!(!seen.contains(&t.value));
            seen.push(t.value);
        }
        let entries = reg.get("ctx").unwrap();
        assert_eq!(entries.len(), rounds);
        let mut values: Vec<u128> = entries.iter().map(|p| p.1.value).collect();
        values.sort_unstable();
        values.dedup();
        assert_eq!(values.len(), rounds);
    }
}

#[test]
fn get_returns_owned_snapshot() {
    for mut reg in both_backends() {
        let t = Token { value: 5 };
        reg.add("ctx", t).unwrap();
        let snapshot = reg.get("ctx").unwrap();
        reg.clear_context("ctx").unwrap();
        assert_eq!(snapshot.len(), 1);
        assert_eq!(snapshot[0].1, t);
    }
}
