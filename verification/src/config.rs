//! The settings of a chain, fixed once at start-up and handed to every
//! component that needs them.

use vstd::prelude::*;

verus! {

/// The settings of one running ledger.
#[derive(Debug)]
pub struct Config {
    pub database_url: String,
    pub jwt_secret: String,
    /// The master key that seals private keys.
    pub aes_key: Vec<u8>,
    /// How many zeros a block's hash must start with.
    pub mining_difficulty: usize,
    /// The reward of the first blocks, in base units.
    pub block_reward: i64,
    /// After how many blocks the reward halves.
    pub halving_interval: i64,
    /// The most that rewards may ever issue, in base units.
    pub max_coin_supply: i64,
    /// The fee of a transfer, in base units.
    pub transaction_fee: i64,
    /// The levy on a balance, in hundredths of a percent.
    pub zakat_percentage: i64,
    /// The least balance on which the levy falls, in base units.
    pub zakat_threshold: i64,
    /// How many seconds lie between two levies on one wallet.
    pub zakat_period: i64,
    /// How many seconds lie between two rounds of the levy.
    pub zakat_check_interval: u64,
    /// The wallet that receives the levy and pays none.
    pub zakat_pool_wallet_id: String,
}

impl Config {
    /// Whether the settings make sense: no negative amount, a halving
    /// interval of at least one block, and a levy of at most the whole.
    pub open spec fn wf(self) -> bool {
        &&& self.block_reward >= 0
        &&& self.halving_interval > 0
        &&& self.max_coin_supply >= 0
        &&& self.transaction_fee >= 0
        &&& 0 <= self.zakat_percentage <= 10_000
    }

    /// Tests `wf`.
    pub fn is_valid(&self) -> (valid: bool)
        ensures
            valid == self.wf(),
    {
        self.block_reward >= 0 && self.halving_interval > 0 && self.max_coin_supply >= 0
            && self.transaction_fee >= 0 && 0 <= self.zakat_percentage && self.zakat_percentage
            <= 10_000
    }

    /// The settings that hold where nothing else is said: difficulty 5, a
    /// reward of 50 coins that halves every 210 blocks, at most 21 million
    /// coins, a fee of 0.1 coin, and a levy of 2.5 % every 30 days on balances
    /// of 100 coins and more, looked after every 5 minutes, to the wallet
    /// `ZAKAT_POOL`.
    pub fn new(database_url: String, jwt_secret: String, aes_key: Vec<u8>) -> (config: Config)
        ensures
            config.wf(),
            config.database_url == database_url,
            config.jwt_secret == jwt_secret,
            config.aes_key == aes_key,
            config.mining_difficulty == 5,
            config.block_reward == 5_000_000_000,
            config.halving_interval == 210,
            config.max_coin_supply == 2_100_000_000_000_000,
            config.transaction_fee == 10_000_000,
            config.zakat_percentage == 250,
            config.zakat_threshold == 10_000_000_000,
            config.zakat_period == 2_592_000,
            config.zakat_check_interval == 300,
            config.zakat_pool_wallet_id@ == "ZAKAT_POOL"@,
    {
        Config {
            database_url,
            jwt_secret,
            aes_key,
            mining_difficulty: 5,
            block_reward: 5_000_000_000,
            halving_interval: 210,
            max_coin_supply: 2_100_000_000_000_000,
            transaction_fee: 10_000_000,
            zakat_percentage: 250,
            zakat_threshold: 10_000_000_000,
            zakat_period: 2_592_000,
            zakat_check_interval: 300,
            zakat_pool_wallet_id: "ZAKAT_POOL".to_owned(),
        }
    }
}

} // verus!
