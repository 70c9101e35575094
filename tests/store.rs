use integrity::{
    candidate_name, digest, next_file_size, pick_name, plan_file, resolve_seed, resolve_size,
    size_from_candidate, verify_contents, verify_exit_code, CreateError, VerifyError,
    MAX_FILE_SIZE, MIN_FILE_SIZE,
};

const MIB: u64 = 1024 * 1024;
const GIB: u64 = 1024 * MIB;

#[test]
fn planned_file_verifies() {
    let p = plan_file(42, 1024);
    assert_eq!(p.data.len(), 1024);
    assert_eq!(p.size, 1024);
    assert_eq!(p.seed, 42);
    let expected = format!(
        "{}-42-1024:{}:integrity",
        digest(&p.data),
        digest(&format!("{}-42-1024", digest(&p.data)))
    );
    assert_eq!(p.name, expected);
    let r = verify_contents(&p.name, 1024, &p.data);
    assert!(r.is_ok());
    assert_eq!(verify_exit_code(&r), 0);
}

#[test]
fn recreate_twice_gets_suffix() {
    let first = plan_file(42, 1024);
    let second = plan_file(42, 1024);
    assert_eq!(first.name, second.name);
    assert_eq!(first.data, second.data);
    let n1 = pick_name(&first.name, &vec![false]).unwrap();
    assert_eq!(n1, first.name);
    let n2 = pick_name(&second.name, &vec![true, false]).unwrap();
    assert_eq!(n2, format!("{}.0", first.name));
    assert!(verify_contents(&n2, 1024, &second.data).is_ok());
}

#[test]
fn naming_exhausted() {
    let taken = vec![true; 51];
    assert_eq!(pick_name("n", &taken), Err(CreateError::NamingExhausted));
    assert_eq!(pick_name("n", &Vec::new()), Err(CreateError::NamingExhausted));
    let mut last_free = vec![true; 51];
    last_free[50] = false;
    assert_eq!(pick_name("n", &last_free), Ok(String::from("n.49")));
    let mut beyond = vec![true; 52];
    beyond[51] = false;
    assert_eq!(pick_name("n", &beyond), Err(CreateError::NamingExhausted));
}

#[test]
fn mutated_byte_is_content_mismatch() {
    let p = plan_file(7, 256);
    let mut bytes = p.data.clone().into_bytes();
    bytes[100] = if bytes[100] == b'a' { b'b' } else { b'a' };
    let mutated = String::from_utf8(bytes).unwrap();
    assert_eq!(
        verify_contents(&p.name, 256, &mutated).err(),
        Some(VerifyError::ContentMismatch)
    );
}

#[test]
fn truncated_or_extended_is_size_mismatch() {
    let p = plan_file(7, 256);
    assert_eq!(
        verify_contents(&p.name, 255, &p.data[..255]).err(),
        Some(VerifyError::SizeMismatch)
    );
    let longer = format!("{}x", p.data);
    assert_eq!(
        verify_contents(&p.name, 257, &longer).err(),
        Some(VerifyError::SizeMismatch)
    );
}

#[test]
fn renamed_file_is_malformed() {
    let p = plan_file(7, 256);
    let renamed = p.name.replacen(":", "_", 1);
    let r = verify_contents(&renamed, 256, &p.data);
    assert_eq!(r.as_ref().err(), Some(&VerifyError::MalformedName));
    assert_eq!(verify_exit_code(&r), 2);
}

#[test]
fn suffixed_candidate_verifies() {
    let p = plan_file(3, 600);
    let n = candidate_name(&p.name, 12);
    assert!(verify_contents(&n, 600, &p.data).is_ok());
}

#[test]
fn policy_scenario_gib_volume() {
    let total = GIB;
    for c in [MIN_FILE_SIZE, 4096, MAX_FILE_SIZE - 1] {
        assert_eq!(size_from_candidate(total, 900 * MIB, c), Some(c));
    }
    for _ in 0..20 {
        let s = next_file_size(total, 900 * MIB).unwrap();
        assert!(s >= 512 && s < 8 * MIB);
    }
    assert_eq!(size_from_candidate(total, 500 * MIB, 4096), None);
    assert_eq!(size_from_candidate(total, 400 * MIB, 4096), None);
    assert_eq!(next_file_size(total, 500 * MIB), None);
}

#[test]
fn policy_caps_at_headroom() {
    assert_eq!(size_from_candidate(GIB, 512 * MIB + 100, 4096), Some(100));
    assert_eq!(size_from_candidate(1000, 501, 4096), Some(1));
    assert_eq!(size_from_candidate(1000, 500, 4096), None);
    assert_eq!(size_from_candidate(0, 0, 4096), None);
    assert_eq!(size_from_candidate(0, 10, 4096), Some(10));
    let s = next_file_size(GIB, 512 * MIB + 100).unwrap();
    assert_eq!(s, 100);
}

#[test]
fn policy_keeps_half_free() {
    for free in [0u64, 1, 511, 512, 600, 1000, 5000] {
        for c in [512u64, 700, 8000] {
            if let Some(s) = size_from_candidate(1000, free, c) {
                assert!(2 * (free - s) >= 1000);
            }
        }
    }
}

#[test]
fn resolve_size_explicit_and_policy() {
    assert_eq!(resolve_size(GIB, 0, Some(1024)), Ok(1024));
    assert_eq!(resolve_size(GIB, 500 * MIB, None), Err(CreateError::NoRoom));
    let s = resolve_size(GIB, 900 * MIB, None).unwrap();
    assert!(s >= 512 && (s as u64) < MAX_FILE_SIZE);
}

#[test]
fn resolve_seed_explicit() {
    assert_eq!(resolve_seed(Some(42)), 42);
    let _ = resolve_seed(None);
}
