use create_pda_example::address;
use create_pda_example::{Address, DerivationProof, DerivedAddress};
use solana_program::pubkey::Pubkey;
use solana_program::system_program;

const DERIVED_FOR_9_UNDER_7: [u8; 32] = [
    141, 142, 3, 21, 208, 100, 40, 152, 114, 152, 77, 35, 244, 139, 180, 159, 149, 203, 88, 240,
    73, 134, 169, 253, 215, 42, 105, 134, 145, 222, 16, 58,
];

const DERIVED_FOR_10_UNDER_7: [u8; 32] = [
    48, 103, 162, 127, 137, 80, 91, 223, 29, 140, 198, 207, 49, 5, 103, 227, 104, 170, 187, 23,
    41, 11, 112, 212, 238, 60, 0, 147, 53, 57, 132, 185,
];

#[test]
fn derive_exact_address_and_bump() {
    let program = Address { bytes: [7; 32] };
    let derived = address::derive(&program, &Address { bytes: [9; 32] }).unwrap();
    assert_eq!(
        derived,
        DerivedAddress { address: Address { bytes: DERIVED_FOR_9_UNDER_7 }, bump: 255 }
    );
}

#[test]
fn derive_takes_the_first_bump_from_the_top_that_is_off_curve() {
    let program = Address { bytes: [7; 32] };
    let seed = Address { bytes: [10; 32] };
    let derived = address::derive(&program, &seed).unwrap();
    assert_eq!(derived.bump, 252);
    assert_eq!(derived.address.bytes, DERIVED_FOR_10_UNDER_7);
    let program_id = Pubkey::new_from_array(program.bytes);
    for bump in [255u8, 254, 253] {
        assert!(Pubkey::create_program_address(&[&seed.bytes, &[bump]], &program_id).is_err());
    }
    assert_eq!(
        Pubkey::create_program_address(&[&seed.bytes, &[252]], &program_id),
        Ok(Pubkey::new_from_array(DERIVED_FOR_10_UNDER_7))
    );
}

#[test]
fn derive_is_deterministic() {
    for (program, seed) in [([7u8; 32], [9u8; 32]), ([3; 32], [4; 32]), ([0; 32], [0; 32])] {
        let first = address::derive(&Address { bytes: program }, &Address { bytes: seed });
        let second = address::derive(&Address { bytes: program }, &Address { bytes: seed });
        assert!(first.is_ok());
        assert_eq!(first, second);
    }
}

#[test]
fn derive_depends_on_program_and_on_seed() {
    let a = address::derive(&Address { bytes: [3; 32] }, &Address { bytes: [4; 32] }).unwrap();
    let b = address::derive(&Address { bytes: [3; 32] }, &Address { bytes: [5; 32] }).unwrap();
    let c = address::derive(&Address { bytes: [4; 32] }, &Address { bytes: [3; 32] }).unwrap();
    assert_eq!(a.bump, 254);
    assert_eq!(b.bump, 255);
    assert_ne!(a.address, b.address);
    assert_ne!(a.address, c.address);
    assert_ne!(a.address, Address { bytes: [4; 32] });
    assert_ne!(a.address, Address { bytes: [3; 32] });
}

#[test]
fn derive_agrees_with_find_program_address() {
    for i in 0u8..40 {
        let program_id = Pubkey::new_unique();
        let mut seed = [i; 32];
        seed[0] = 200 - i;
        let (expected, bump) = Pubkey::find_program_address(&[&seed], &program_id);
        let derived = address::derive(&Address { bytes: program_id.to_bytes() }, &Address { bytes: seed });
        assert_eq!(
            derived,
            Ok(DerivedAddress { address: Address { bytes: expected.to_bytes() }, bump })
        );
    }
}

#[test]
fn derived_address_is_off_curve() {
    for i in 0u8..40 {
        let program = Address { bytes: [i; 32] };
        let seed = Address { bytes: [255 - i; 32] };
        let derived = address::derive(&program, &seed).unwrap();
        assert!(!derived.address.is_on_curve());
        assert!(!Pubkey::new_from_array(derived.address.bytes).is_on_curve());
    }
}

#[test]
fn is_on_curve_tells_points_from_other_bytes() {
    let mut base_point = [0x66u8; 32];
    base_point[0] = 0x58;
    assert!(Address { bytes: base_point }.is_on_curve());
    let mut one = [0u8; 32];
    one[0] = 1;
    assert!(Address { bytes: one }.is_on_curve());
    let mut two = [0u8; 32];
    two[0] = 2;
    assert!(!Address { bytes: two }.is_on_curve());
    assert!(!Address { bytes: DERIVED_FOR_9_UNDER_7 }.is_on_curve());
}

#[test]
fn system_program_is_the_zero_address() {
    assert!(Address { bytes: [0; 32] }.is_system_program());
    assert!(Address { bytes: system_program::id().to_bytes() }.is_system_program());
    assert_eq!(system_program::id().to_bytes(), [0u8; 32]);
    assert!(!Address { bytes: [1; 32] }.is_system_program());
    let mut last = [0u8; 32];
    last[31] = 1;
    assert!(!Address { bytes: last }.is_system_program());
    let mut first = [0u8; 32];
    first[0] = 1;
    assert!(!Address { bytes: first }.is_system_program());
}

#[test]
fn same_compares_all_bytes() {
    let a = Address { bytes: [5; 32] };
    let mut b = a;
    assert!(a.same(&b));
    b.bytes[31] = 6;
    assert!(!a.same(&b));
    let mut c = a;
    c.bytes[0] = 4;
    assert!(!a.same(&c));
    assert!(!c.same(&a));
}

#[test]
fn derive_with_bump_exact_addresses() {
    let program = Address { bytes: [7; 32] };
    assert_eq!(
        address::derive_with_bump(&program, &Address { bytes: [9; 32] }, 255),
        Some(Address { bytes: DERIVED_FOR_9_UNDER_7 })
    );
    assert_eq!(
        address::derive_with_bump(&program, &Address { bytes: [10; 32] }, 252),
        Some(Address { bytes: DERIVED_FOR_10_UNDER_7 })
    );
}

#[test]
fn derive_with_bump_gives_none_where_the_hash_is_on_the_curve() {
    let program = Address { bytes: [7; 32] };
    let seed = Address { bytes: [10; 32] };
    for bump in [255u8, 254, 253] {
        assert_eq!(address::derive_with_bump(&program, &seed, bump), None);
    }
}

#[test]
fn derive_with_bump_of_derived_bump_is_the_derived_address() {
    for i in 0u8..40 {
        let program = Address { bytes: [i; 32] };
        let seed = Address { bytes: [100 + i; 32] };
        let derived = address::derive(&program, &seed).unwrap();
        assert!(derived.bump >= 1);
        assert_eq!(address::derive_with_bump(&program, &seed, derived.bump), Some(derived.address));
        for higher in derived.bump..255 {
            assert_eq!(address::derive_with_bump(&program, &seed, higher + 1), None);
        }
    }
}

#[test]
fn derive_with_bump_agrees_with_create_program_address() {
    let program = Address { bytes: [3; 32] };
    let program_id = Pubkey::new_from_array(program.bytes);
    let seed = Address { bytes: [4; 32] };
    for bump in 0u8..=255 {
        let expected = Pubkey::create_program_address(&[&seed.bytes, &[bump]], &program_id)
            .ok()
            .map(|key| Address { bytes: key.to_bytes() });
        let ours = address::derive_with_bump(&program, &seed, bump);
        assert_eq!(ours, expected);
        if let Some(found) = ours {
            assert!(!found.is_on_curve());
            assert_ne!(found, seed);
            assert_ne!(found, program);
        }
    }
}

#[test]
fn proof_authorizes_only_its_own_address_under_its_program() {
    let program = Address { bytes: [7; 32] };
    let target = Address { bytes: DERIVED_FOR_9_UNDER_7 };
    let token = DerivationProof { seed: Address { bytes: [9; 32] }, bump: 255 };
    assert!(token.authorizes(&program, &target));
    assert!(!token.authorizes(&Address { bytes: [8; 32] }, &target));
    assert!(!token.authorizes(&program, &Address { bytes: DERIVED_FOR_10_UNDER_7 }));
    assert!(!token.authorizes(&program, &Address { bytes: [9; 32] }));
    let other_bump = DerivationProof { seed: Address { bytes: [9; 32] }, bump: 254 };
    assert!(!other_bump.authorizes(&program, &target));
    let other_seed = DerivationProof { seed: Address { bytes: [10; 32] }, bump: 255 };
    assert!(!other_seed.authorizes(&program, &target));
    let on_curve_hash = DerivationProof { seed: Address { bytes: [10; 32] }, bump: 255 };
    assert!(!on_curve_hash.authorizes(&program, &Address { bytes: DERIVED_FOR_10_UNDER_7 }));
    let lower = DerivationProof { seed: Address { bytes: [10; 32] }, bump: 252 };
    assert!(lower.authorizes(&program, &Address { bytes: DERIVED_FOR_10_UNDER_7 }));
}
