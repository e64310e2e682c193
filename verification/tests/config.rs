use near_pump_listener::config::{rpc_url_for, Cli, Networks};

#[test]
fn default_configuration_follows_the_test_network() {
    let cli = Cli::default();
    assert!(matches!(cli.network, Networks::Testnet));
}

#[test]
fn each_network_selects_its_rpc_endpoint() {
    assert_eq!(rpc_url_for(Networks::Mainnet), "https://rpc.mainnet.near.org");
    assert_eq!(rpc_url_for(Networks::Testnet), "https://rpc.testnet.near.org");
}
