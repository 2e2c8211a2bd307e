use std::str::FromStr;

use ikubchain::node::version;
use ikubchain::node::ChainSpec;
use ikubchain::node::Executor;
use ikubchain::node::IkubChain;

#[test]
fn test_version() {
    // Simple test to verify the version is set
    assert_eq!(version().spec_name, "ikubchain");
}

#[test]
fn version_numbers_are_set() {
    let v = version();
    assert_eq!(v.spec_version, 1);
    assert_eq!(v.impl_version, 1);
    assert_eq!(v.authoring_version, 1);
    assert_eq!(v.transaction_version, 1);
    assert_eq!(v.state_version, 1);
    assert_eq!(v.executable_name, "ikubchain");
}

#[test]
fn chain_spec_selectors() {
    assert_eq!(ChainSpec::from_str("dev"), Ok(ChainSpec::Development));
    assert_eq!(ChainSpec::from_str("local"), Ok(ChainSpec::LocalTestnet));
    assert_eq!(ChainSpec::from_str("ikub"), Ok(ChainSpec::IkubChain));
    assert_eq!(
        ChainSpec::from_str("mainnet"),
        Err("Invalid chain spec".to_string())
    );
}

#[test]
fn ikubchain_wraps_its_client() {
    let handle = IkubChain::new(42u64);
    assert_eq!(handle.client, 42);
    let _marker = Executor;
}
