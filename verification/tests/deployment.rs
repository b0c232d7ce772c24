use contract_deployer::addressing::{get_asset_contract_id, get_contract_id, DeploymentKey};
use contract_deployer::deploy::Deployer;
use contract_deployer::env::Env;
use contract_deployer::ledger::{raised_ttl, Executable};
use contract_deployer::types::{bytes_eq, Address, DeployError, Digest, Salt};

const EMPTY_SHA256: [u8; 32] = [
    0xe3, 0xb0, 0xc4, 0x42, 0x98, 0xfc, 0x1c, 0x14, 0x9a, 0xfb, 0xf4, 0xc8, 0x99, 0x6f, 0xb9, 0x24,
    0x27, 0xae, 0x41, 0xe4, 0x64, 0x9b, 0x93, 0x4c, 0xa4, 0x95, 0x99, 0x1b, 0x78, 0x52, 0xb8, 0x55,
];

const ABC_SHA256: [u8; 32] = [
    0xba, 0x78, 0x16, 0xbf, 0x8f, 0x01, 0xcf, 0xea, 0x41, 0x41, 0x40, 0xde, 0x5d, 0xae, 0x22, 0x23,
    0xb0, 0x03, 0x61, 0xa3, 0x96, 0x17, 0x7a, 0x9c, 0xb4, 0x10, 0xff, 0x61, 0xf2, 0x00, 0x15, 0xad,
];

fn contract(tag: u8) -> Address {
    Address::from_bytes(vec![tag; 32])
}

fn deployer(entry_ttl: u32) -> Deployer {
    Deployer::new(Env::new(contract(7), entry_ttl))
}

#[test]
fn end_to_end_deploy_and_extend() {
    let mut deployer = deployer(5);
    let empty: [u8; 0] = [0u8; 0];
    let digest = deployer.upload_contract_wasm(&empty);
    assert_eq!(digest, Digest::new(EMPTY_SHA256));

    let mut with_address = deployer.with_current_contract(Salt::new([0u8; 32]));
    let address = with_address.deployed_address();
    assert_eq!(with_address.deploy(&digest), Ok(address.clone()));
    assert_eq!(with_address.deploy(&digest), Err(DeployError::AlreadyExists));

    let mut deployer = with_address.into_deployer();
    assert_eq!(deployer.env().instance_ttl(&address), Some(5));
    assert_eq!(deployer.env().code_ttl(&digest), Some(5));
    assert_eq!(deployer.extend_ttl(&address, 10, 1000), Ok(()));
    assert_eq!(deployer.env().instance_ttl(&address), Some(1000));
    assert_eq!(deployer.env().code_ttl(&digest), Some(1000));
    assert_eq!(deployer.extend_ttl(&address, 10, 2000), Ok(()));
    assert_eq!(deployer.env().instance_ttl(&address), Some(1000));
    assert_eq!(deployer.env().code_ttl(&digest), Some(1000));
}

#[test]
fn upload_hashes_the_bytes() {
    let mut deployer = deployer(1);
    let digest = deployer.upload_contract_wasm(b"abc");
    assert_eq!(digest, Digest::new(ABC_SHA256));
    assert_eq!(digest.as_bytes(), &ABC_SHA256[..]);
    assert!(deployer.env().has_wasm(&digest));
    assert!(!deployer.env().has_wasm(&Digest::new(EMPTY_SHA256)));
}

#[test]
fn upload_twice_gives_one_digest_and_one_entry() {
    let mut deployer = deployer(5);
    let first = deployer.upload_contract_wasm(b"contract code");
    let salt = Salt::new([1u8; 32]);
    let mut with_address = deployer.with_current_contract(salt);
    let address = with_address.deploy(&first).unwrap();
    let mut deployer = with_address.into_deployer();
    assert_eq!(deployer.extend_ttl(&address, 6, 40), Ok(()));
    assert_eq!(deployer.env().code_ttl(&first), Some(40));

    let second = deployer.upload_contract_wasm(b"contract code");
    assert_eq!(first, second);
    assert_eq!(deployer.env().code_ttl(&first), Some(40));

    let other = deployer.upload_contract_wasm(b"other contract code");
    assert_ne!(first, other);
    assert_eq!(deployer.env().code_ttl(&other), Some(5));
}

#[test]
fn install_code_keeps_the_first_entry_of_a_digest() {
    let mut env = Env::new(contract(1), 9);
    let digest = Digest::new([3u8; 32]);
    assert!(!env.has_wasm(&digest));
    env.install_code(digest, b"first");
    assert!(env.has_wasm(&digest));
    assert_eq!(env.code_ttl(&digest), Some(9));
    env.install_code(digest, b"second");
    assert_eq!(env.code_ttl(&digest), Some(9));
}

#[test]
fn address_is_scheme_byte_identity_and_salt() {
    let identity = Address::from_bytes(vec![0xaa, 0xbb]);
    let mut salt_bytes = [0u8; 32];
    salt_bytes[0] = 9;
    salt_bytes[31] = 4;
    let address = get_contract_id(&identity, &Salt::new(salt_bytes));
    let mut expected = vec![0u8, 0xaa, 0xbb];
    expected.extend_from_slice(&salt_bytes);
    assert_eq!(address.as_bytes(), &expected[..]);
    assert_eq!(address, Address::from_bytes(expected));

    let asset = get_asset_contract_id(&[5, 6, 7]);
    assert_eq!(asset.as_bytes(), &[1u8, 5, 6, 7][..]);
    let empty_asset = get_asset_contract_id(&[]);
    assert_eq!(empty_asset.as_bytes(), &[1u8][..]);
}

#[test]
fn deployment_key_derives_by_its_form() {
    let current = contract(2);
    let other = contract(3);
    let salt = Salt::new([8u8; 32]);
    assert_eq!(
        DeploymentKey::CurrentContract(salt).derive_address(&current),
        get_contract_id(&current, &salt)
    );
    assert_eq!(
        DeploymentKey::ExplicitAddress(other.clone(), salt).derive_address(&current),
        get_contract_id(&other, &salt)
    );
    assert_eq!(
        DeploymentKey::Asset(vec![1, 2, 3]).derive_address(&current),
        get_asset_contract_id(&[1, 2, 3])
    );
    assert_ne!(
        DeploymentKey::CurrentContract(salt).derive_address(&current),
        DeploymentKey::ExplicitAddress(other, salt).derive_address(&current)
    );
}

#[test]
fn previewed_address_is_the_deployed_address() {
    let mut deployer = deployer(5);
    let digest = deployer.upload_contract_wasm(b"code");
    let current = deployer.env().current_contract_address();
    let salt = Salt::new([0x5a; 32]);
    let mut with_address = deployer.with_current_contract(salt);
    let before = with_address.deployed_address();
    assert!(!with_address.env().has_contract(&before));
    let deployed = with_address.deploy(&digest).unwrap();
    let after = with_address.deployed_address();
    assert_eq!(before, deployed);
    assert_eq!(after, deployed);
    assert_eq!(get_contract_id(&current, &salt), deployed);
    assert!(with_address.env().has_contract(&deployed));
    assert_eq!(with_address.env().contract_executable(&deployed), Some(Executable::Wasm(digest)));
}

#[test]
fn schemes_never_collide() {
    let identity = contract(7);
    for seed in 0u8..=255 {
        let mut salt = [seed; 32];
        salt[usize::from(seed) % 32] = seed.wrapping_mul(31).wrapping_add(7);
        let generic = get_contract_id(&identity, &Salt::new(salt));
        for len in 0usize..40 {
            let descriptor: Vec<u8> = (0..len).map(|i| seed.wrapping_add(i as u8)).collect();
            assert_ne!(generic, get_asset_contract_id(&descriptor));
        }
    }
}

#[test]
fn salt_crafted_after_a_descriptor_does_not_collide() {
    // The descriptor spells out what a generic address is made of, and the
    // identity and salt spell out what an asset address is made of.
    let identity = Address::from_bytes(vec![]);
    let salt = Salt::new([1u8; 32]);
    let generic = get_contract_id(&identity, &salt);
    let mut descriptor = vec![0u8];
    descriptor.extend_from_slice(&[1u8; 32]);
    assert_ne!(generic, get_asset_contract_id(&descriptor));
    assert_ne!(generic, get_asset_contract_id(&[1u8; 32]));
    assert_ne!(generic, get_asset_contract_id(&generic.as_bytes()[1..]));

    let asset = get_asset_contract_id(&[1u8; 33]);
    let crafted = Address::from_bytes(vec![1u8]);
    assert_ne!(get_contract_id(&crafted, &salt), asset);
    assert_ne!(get_contract_id(&identity, &salt), get_asset_contract_id(&[1u8; 32]));
}

#[test]
fn second_deploy_fails_with_already_exists() {
    let mut deployer = deployer(5);
    let digest = deployer.upload_contract_wasm(b"code");
    let other = deployer.upload_contract_wasm(b"other code");
    let salt = Salt::new([2u8; 32]);
    let mut first = deployer.with_current_contract(salt);
    let address = first.deploy(&digest).unwrap();
    let mut second = first.into_deployer().with_current_contract(salt);
    assert_eq!(second.deploy(&digest), Err(DeployError::AlreadyExists));
    assert_eq!(second.deploy(&other), Err(DeployError::AlreadyExists));
    assert_eq!(second.env().contract_executable(&address), Some(Executable::Wasm(digest)));

    let mut fresh = second.into_deployer().with_current_contract(Salt::new([3u8; 32]));
    assert!(fresh.deploy(&other).is_ok());
}

#[test]
fn explicit_address_needs_authorization() {
    let mut env = Env::new(contract(7), 5);
    let digest = env.upload_wasm(b"code");
    let owner = contract(9);
    let salt = Salt::new([4u8; 32]);
    assert!(!env.is_authorized(&owner));
    assert!(env.is_authorized(&contract(7)));

    let mut with_address = Deployer::new(env).with_address(owner.clone(), salt);
    let address = with_address.deployed_address();
    assert_eq!(with_address.deploy(&digest), Err(DeployError::Unauthorized));
    assert!(!with_address.env().has_contract(&address));

    let mut env = with_address.into_deployer().into_env();
    env.authorize(owner.clone());
    assert!(env.is_authorized(&owner));
    let mut with_address = Deployer::new(env).with_address(owner.clone(), salt);
    assert_eq!(with_address.deploy(&digest), Ok(address.clone()));
    assert!(with_address.env().has_contract(&address));

    let mut env = with_address.into_deployer().into_env();
    env.complete_invocation();
    assert!(!env.is_authorized(&owner));
    let mut with_address = Deployer::new(env).with_address(owner, Salt::new([5u8; 32]));
    assert_eq!(with_address.deploy(&digest), Err(DeployError::Unauthorized));
}

#[test]
fn unauthorized_comes_before_already_exists_and_not_found() {
    let mut env = Env::new(contract(7), 5);
    let owner = contract(9);
    let salt = Salt::new([4u8; 32]);
    let missing = Digest::new([0u8; 32]);
    assert_eq!(env.create_contract(&owner, &missing, &salt), Err(DeployError::Unauthorized));
    env.authorize(owner.clone());
    assert_eq!(env.create_contract(&owner, &missing, &salt), Err(DeployError::NotFound));
    let digest = env.upload_wasm(b"code");
    assert!(env.create_contract(&owner, &digest, &salt).is_ok());
    assert_eq!(env.create_contract(&owner, &missing, &salt), Err(DeployError::AlreadyExists));
}

#[test]
fn deploy_of_unknown_code_is_not_found() {
    let deployer = deployer(5);
    let mut with_address = deployer.with_current_contract(Salt::new([0u8; 32]));
    let address = with_address.deployed_address();
    assert_eq!(with_address.deploy(&Digest::new([1u8; 32])), Err(DeployError::NotFound));
    assert!(!with_address.env().has_contract(&address));
}

#[test]
fn asset_deploys_once() {
    let deployer = deployer(12);
    let mut with_asset = deployer.with_hcnet_asset(vec![0, 0, 0, 1, 85, 83, 68]);
    let address = with_asset.deployed_address();
    assert_eq!(address, get_asset_contract_id(&[0, 0, 0, 1, 85, 83, 68]));
    assert_eq!(with_asset.deploy(), Ok(address.clone()));
    assert_eq!(with_asset.deploy(), Err(DeployError::AlreadyExists));
    assert_eq!(with_asset.env().contract_executable(&address), Some(Executable::HcnetAsset));
    assert_eq!(with_asset.env().instance_ttl(&address), Some(12));

    let mut deployer = with_asset.into_deployer();
    assert_eq!(deployer.extend_ttl(&address, 13, 90), Ok(()));
    assert_eq!(deployer.env().instance_ttl(&address), Some(90));
}

#[test]
fn ttl_is_raised_only_below_the_threshold() {
    assert_eq!(raised_ttl(5, 10, 1000), 1000);
    assert_eq!(raised_ttl(9, 10, 9), 9);
    assert_eq!(raised_ttl(10, 10, 1000), 10);
    assert_eq!(raised_ttl(1000, 10, 2000), 1000);
    assert_eq!(raised_ttl(0, 0, 7), 0);
    assert_eq!(raised_ttl(0, 1, u32::MAX), u32::MAX);
}

#[test]
fn ttl_is_never_lowered() {
    assert_eq!(raised_ttl(5, 10, 3), 5);
    assert_eq!(raised_ttl(5, 10, 5), 5);
    assert_eq!(raised_ttl(u32::MAX, u32::MAX, 0), u32::MAX);
    for ttl in [0u32, 1, 5, 9, 10, 11, 500, u32::MAX] {
        for threshold in [0u32, 1, 10, 11, u32::MAX] {
            for extend_to in [0u32, 4, 5, 6, 10, 1000, u32::MAX] {
                let raised = raised_ttl(ttl, threshold, extend_to);
                assert!(raised >= ttl);
                if ttl >= threshold {
                    assert_eq!(raised, ttl);
                } else if extend_to >= ttl {
                    assert_eq!(raised, extend_to);
                }
            }
        }
    }
}

#[test]
fn code_and_instance_are_extended_each_by_itself() {
    let mut deployer = deployer(5);
    let digest = deployer.upload_contract_wasm(b"shared code");
    let mut first = deployer.with_current_contract(Salt::new([1u8; 32]));
    let a = first.deploy(&digest).unwrap();
    let mut second = first.into_deployer().with_current_contract(Salt::new([2u8; 32]));
    let b = second.deploy(&digest).unwrap();
    let mut deployer = second.into_deployer();

    assert_eq!(deployer.extend_ttl(&a, 10, 100), Ok(()));
    assert_eq!(deployer.env().instance_ttl(&a), Some(100));
    assert_eq!(deployer.env().code_ttl(&digest), Some(100));
    assert_eq!(deployer.env().instance_ttl(&b), Some(5));

    assert_eq!(deployer.extend_ttl(&b, 10, 50), Ok(()));
    assert_eq!(deployer.env().instance_ttl(&b), Some(50));
    assert_eq!(deployer.env().code_ttl(&digest), Some(100));
    assert_eq!(deployer.env().instance_ttl(&a), Some(100));

    assert_eq!(deployer.extend_ttl(&a, 200, 60), Ok(()));
    assert_eq!(deployer.env().instance_ttl(&a), Some(100));
    assert_eq!(deployer.env().code_ttl(&digest), Some(100));
}

#[test]
fn extend_ttl_of_unknown_address_is_not_found() {
    let mut deployer = deployer(5);
    let digest = deployer.upload_contract_wasm(b"code");
    assert_eq!(deployer.extend_ttl(&contract(1), 10, 100), Err(DeployError::NotFound));
    assert_eq!(deployer.env().code_ttl(&digest), Some(5));
    assert_eq!(deployer.env().instance_ttl(&contract(1)), None);
}

#[test]
fn code_swap_waits_for_the_end_of_the_invocation() {
    let mut deployer = deployer(5);
    let old_code = deployer.upload_contract_wasm(b"old code");
    let new_code = deployer.upload_contract_wasm(b"new code");
    let mut with_address = deployer.with_current_contract(Salt::new([0u8; 32]));
    let address = with_address.deploy(&old_code).unwrap();
    let mut env = with_address.into_deployer().into_env();
    env.complete_invocation();
    env.enter_contract(address.clone());

    let mut deployer = Deployer::new(env);
    assert_eq!(deployer.update_current_contract_wasm(&new_code), Ok(()));
    assert_eq!(deployer.env().contract_executable(&address), Some(Executable::Wasm(old_code)));
    assert_eq!(deployer.extend_ttl(&address, 10, 20), Ok(()));
    assert_eq!(deployer.env().code_ttl(&old_code), Some(20));
    assert_eq!(deployer.env().code_ttl(&new_code), Some(5));
    assert_eq!(deployer.env().contract_executable(&address), Some(Executable::Wasm(old_code)));

    let mut env = deployer.into_env();
    env.complete_invocation();
    assert_eq!(env.contract_executable(&address), Some(Executable::Wasm(new_code)));
    assert_eq!(env.instance_ttl(&address), Some(20));
    env.complete_invocation();
    assert_eq!(env.contract_executable(&address), Some(Executable::Wasm(new_code)));
}

#[test]
fn code_swap_is_dropped_when_the_invocation_fails() {
    let mut env = Env::new(contract(7), 5);
    let old_code = env.upload_wasm(b"old code");
    let new_code = env.upload_wasm(b"new code");
    let address = env.create_contract(&contract(7), &old_code, &Salt::new([0u8; 32])).unwrap();
    env.complete_invocation();
    env.enter_contract(address.clone());

    assert_eq!(env.update_current_contract_wasm(&new_code), Ok(()));
    env.abort_invocation();
    assert_eq!(env.contract_executable(&address), Some(Executable::Wasm(old_code)));
    env.complete_invocation();
    assert_eq!(env.contract_executable(&address), Some(Executable::Wasm(old_code)));
}

#[test]
fn code_swap_needs_contract_and_code_on_the_ledger() {
    let mut deployer = deployer(5);
    let digest = deployer.upload_contract_wasm(b"code");
    assert_eq!(deployer.update_current_contract_wasm(&digest), Err(DeployError::NotFound));

    let mut with_address = deployer.with_current_contract(Salt::new([0u8; 32]));
    let address = with_address.deploy(&digest).unwrap();
    let mut env = with_address.into_deployer().into_env();
    env.enter_contract(address.clone());
    let mut deployer = Deployer::new(env);
    assert_eq!(
        deployer.update_current_contract_wasm(&Digest::new([0u8; 32])),
        Err(DeployError::NotFound)
    );
    let mut env = deployer.into_env();
    env.complete_invocation();
    assert_eq!(env.contract_executable(&address), Some(Executable::Wasm(digest)));
}

#[test]
fn failed_invocation_leaves_no_trace() {
    let mut env = Env::new(contract(7), 5);
    let kept = env.upload_wasm(b"kept");
    let salt = Salt::new([0u8; 32]);
    let first = env.create_contract(&contract(7), &kept, &salt).unwrap();
    env.complete_invocation();

    let dropped = env.upload_wasm(b"dropped");
    let second = env.create_contract(&contract(7), &dropped, &Salt::new([1u8; 32])).unwrap();
    assert_eq!(env.extend_contract_instance_and_code_ttl(&first, 10, 99), Ok(()));
    assert!(env.has_contract(&second));
    env.abort_invocation();

    assert!(env.has_contract(&first));
    assert!(!env.has_contract(&second));
    assert!(env.has_wasm(&kept));
    assert!(!env.has_wasm(&dropped));
    assert_eq!(env.instance_ttl(&first), Some(5));
    assert_eq!(env.code_ttl(&kept), Some(5));
    assert_eq!(env.create_contract(&contract(7), &kept, &salt), Err(DeployError::AlreadyExists));
}

#[test]
fn salt_and_digest_must_be_32_bytes() {
    assert_eq!(Salt::from_slice(&[0u8; 31]), Err(DeployError::Malformed));
    assert_eq!(Salt::from_slice(&[0u8; 33]), Err(DeployError::Malformed));
    assert_eq!(Salt::from_slice(&[]), Err(DeployError::Malformed));
    assert_eq!(Salt::from_slice(&[6u8; 32]), Ok(Salt::new([6u8; 32])));
    assert_eq!(Digest::from_slice(&[0u8; 31]), Err(DeployError::Malformed));
    assert_eq!(Digest::from_slice(&[0u8; 64]), Err(DeployError::Malformed));
    let mut bytes = [0u8; 32];
    bytes[5] = 77;
    assert_eq!(Digest::from_slice(&bytes), Ok(Digest::new(bytes)));
    assert_eq!(Digest::from_slice(&bytes).unwrap().as_bytes(), &bytes[..]);
    assert_eq!(Salt::from_slice(&bytes).unwrap().as_bytes(), &bytes[..]);
}

#[test]
fn bytes_and_addresses_compare_by_content() {
    assert!(bytes_eq(&[], &[]));
    assert!(bytes_eq(&[1, 2, 3], &[1, 2, 3]));
    assert!(!bytes_eq(&[1, 2, 3], &[1, 2, 4]));
    assert!(!bytes_eq(&[1, 2, 3], &[1, 2]));
    assert!(contract(1).same_as(&contract(1)));
    assert!(!contract(1).same_as(&contract(2)));
    assert!(contract(1).clone().same_as(&contract(1)));
    assert!(Digest::new([1u8; 32]).same_as(&Digest::new([1u8; 32])));
    assert!(!Digest::new([1u8; 32]).same_as(&Digest::new([2u8; 32])));
}

#[test]
fn entering_a_contract_changes_who_deploys() {
    let mut env = Env::new(contract(7), 5);
    let digest = env.upload_wasm(b"code");
    env.enter_contract(contract(8));
    assert_eq!(env.current_contract_address(), contract(8));
    let salt = Salt::new([0u8; 32]);
    let mut with_address = Deployer::new(env).with_current_contract(salt);
    assert_eq!(with_address.deployed_address(), get_contract_id(&contract(8), &salt));
    assert_eq!(with_address.deploy(&digest), Ok(get_contract_id(&contract(8), &salt)));
    assert!(!with_address.env().has_contract(&get_contract_id(&contract(7), &salt)));
}
