use tezedge_node::hashes::block_hash_to_b58check;
use tezedge_node::rpc::actor::{pick_current_head, receive, BlockMeta, MetaRecord, ShellChannelMsg};
use tezedge_node::rpc::encoding::TimeStamp;
use tezedge_node::rpc::filters::block::routes as block_routes;
use tezedge_node::rpc::filters::monitor::{routes as monitor_routes, MonitorRoute};
use tezedge_node::rpc::filters::{result_as_json, JsonReply};
use tezedge_node::rpc::handlers::{bootstrapped, chains_block_id, commit_hash, BlockLookup};
use tezedge_node::rpc::state::{BlockApplied, RpcCollectedState};
use tezedge_node::rpc::time::{ts_to_rfc3339, MAX_TIMESTAMP, MIN_TIMESTAMP};

fn block(level: i32) -> BlockApplied {
    BlockApplied::new(vec![level as u8; 32], level, 1_600_000_000 + level as i64)
}

fn head_level(state: &RpcCollectedState) -> Option<i32> {
    state.current_head().as_ref().map(|b| b.level)
}

fn genesis_hash() -> Vec<u8> {
    let hex = "8fcf233671b6a04fcf679d2a381c2544ea6c1ea29ba6157776ed8424c7ccd00b";
    (0..32).map(|i| u8::from_str_radix(&hex[2 * i..2 * i + 2], 16).unwrap()).collect()
}

#[test]
fn first_block_becomes_head() {
    let mut state = RpcCollectedState::new(None, vec![1, 2, 3]);
    receive(&mut state, ShellChannelMsg::BlockApplied(block(5)));
    assert_eq!(head_level(&state), Some(5));
    assert_eq!(state.chain_id(), &vec![1, 2, 3]);
}

#[test]
fn head_moves_only_to_higher_levels() {
    let mut state = RpcCollectedState::new(Some(block(10)), vec![]);
    receive(&mut state, ShellChannelMsg::BlockApplied(block(9)));
    assert_eq!(head_level(&state), Some(10));
    let same_level = BlockApplied::new(vec![0xaa; 32], 10, 0);
    receive(&mut state, ShellChannelMsg::BlockApplied(same_level));
    assert_eq!(state.current_head().as_ref().unwrap().hash, vec![10u8; 32]);
    receive(&mut state, ShellChannelMsg::BlockApplied(block(11)));
    assert_eq!(head_level(&state), Some(11));
    receive(&mut state, ShellChannelMsg::Other);
    assert_eq!(head_level(&state), Some(11));
}

#[test]
fn head_after_a_sequence_is_first_highest() {
    let mut state = RpcCollectedState::new(None, vec![]);
    let levels = [3, 7, 2, 7, 5];
    for (i, level) in levels.iter().enumerate() {
        let b = BlockApplied::new(vec![i as u8; 32], *level, 0);
        receive(&mut state, ShellChannelMsg::BlockApplied(b));
    }
    let head = state.current_head().as_ref().unwrap();
    assert_eq!(head.level, 7);
    assert_eq!(head.hash, vec![1u8; 32]);
}

#[test]
fn set_current_head_replaces() {
    let mut state = RpcCollectedState::new(Some(block(4)), vec![9]);
    state.set_current_head(None);
    assert_eq!(head_level(&state), None);
    assert_eq!(state.chain_id(), &vec![9]);
}

fn record(hash: bool, meta: Option<(bool, i32)>) -> MetaRecord {
    MetaRecord {
        block_hash: if hash { Some(vec![0u8; 32]) } else { None },
        meta: meta.map(|(is_applied, level)| BlockMeta { is_applied, level }),
    }
}

#[test]
fn start_up_head_is_last_highest_applied() {
    let records = vec![
        record(true, Some((true, 3))),
        record(true, Some((true, 8))),
        record(true, Some((false, 20))),
        record(false, Some((true, 30))),
        record(true, None),
        record(true, Some((true, 8))),
        record(true, Some((true, 1))),
    ];
    assert_eq!(pick_current_head(&records), Some(5));
}

#[test]
fn start_up_without_applied_blocks_has_no_head() {
    assert_eq!(pick_current_head(&vec![]), None);
    let records = vec![record(true, Some((false, 3))), record(false, Some((true, 2))), record(true, None)];
    assert_eq!(pick_current_head(&records), None);
}

#[test]
fn bootstrapped_without_head() {
    let state = RpcCollectedState::new(None, vec![]);
    let info = bootstrapped(&state);
    assert_eq!(info.block.value, "");
    assert!(matches!(info.timestamp, TimeStamp::Integral(0)));
}

#[test]
fn bootstrapped_with_head() {
    let head = BlockApplied::new(genesis_hash(), 0, 1_537_228_800);
    let state = RpcCollectedState::new(Some(head), vec![]);
    let info = bootstrapped(&state);
    assert_eq!(info.block.value, "BLockGenesisGenesisGenesisGenesisGenesisf79b5d1CoW2");
    match info.timestamp {
        TimeStamp::Rfc(text) => assert_eq!(text, "2018-09-18T00:00:00Z"),
        TimeStamp::Integral(_) => panic!("expected an RFC 3339 timestamp"),
    }
}

#[test]
fn block_hash_strings() {
    assert_eq!(
        block_hash_to_b58check(&[0u8; 32]),
        "BKiHLREqU3JkXfzEDYAkmmfX48gBDtYhMrpA98s7Aq4SzbUAB6M"
    );
}

#[test]
fn timestamps_print_as_rfc3339() {
    assert_eq!(ts_to_rfc3339(0), "1970-01-01T00:00:00Z");
    assert_eq!(ts_to_rfc3339(-1), "1969-12-31T23:59:59Z");
    assert_eq!(ts_to_rfc3339(MIN_TIMESTAMP), "-262143-01-01T00:00:00Z");
    assert_eq!(ts_to_rfc3339(MAX_TIMESTAMP), "+262142-12-31T23:59:59Z");
}

#[test]
fn commit_hash_is_given_back() {
    assert_eq!(commit_hash("0123abcd").value, "0123abcd");
}

#[test]
fn block_lookups() {
    assert!(matches!(chains_block_id("main".to_string(), "head".to_string()), BlockLookup::CurrentHead));
    match chains_block_id("main".to_string(), "BLockGenesis".to_string()) {
        BlockLookup::Block(id) => assert_eq!(id, "BLockGenesis"),
        _ => panic!("expected a block lookup"),
    }
    assert!(matches!(chains_block_id("test".to_string(), "head".to_string()), BlockLookup::NoSuchChain));
}

#[test]
fn monitor_routing() {
    let route = |path: &str| monitor_routes(true, path.as_bytes());
    assert!(matches!(route("/monitor/bootstrapped"), Some(MonitorRoute::Bootstrapped)));
    assert!(matches!(route("/monitor/bootstrapped/"), Some(MonitorRoute::Bootstrapped)));
    assert!(matches!(route("/monitor/bootstrapped/more"), Some(MonitorRoute::Bootstrapped)));
    assert!(matches!(route("/monitor/commit_hash"), Some(MonitorRoute::CommitHash)));
    assert!(matches!(route("/monitor/active_chains"), Some(MonitorRoute::ActiveChains)));
    assert!(matches!(route("/monitor/protocols"), Some(MonitorRoute::Protocols)));
    assert!(matches!(route("/monitor/valid_blocks"), Some(MonitorRoute::ValidBlocks)));
    match route("/monitor/heads/main") {
        Some(MonitorRoute::Heads(chain)) => assert_eq!(chain, b"main".to_vec()),
        _ => panic!("expected the heads route"),
    }
    assert!(matches!(route("/monitor/heads/main/"), Some(MonitorRoute::Heads(_))));
    assert!(route("/monitor/heads/").is_none());
    assert!(route("/monitor/heads").is_none());
    assert!(route("/monitor/heads/main/extra").is_none());
    assert!(route("/monitor").is_none());
    assert!(route("/monitor/").is_none());
    assert!(route("/monitor/unknown").is_none());
    assert!(route("/other/bootstrapped").is_none());
    assert!(route("").is_none());
    assert!(monitor_routes(false, b"/monitor/bootstrapped").is_none());
}

#[test]
fn block_routing() {
    let route = block_routes(true, b"/chains/main/blocks/head").unwrap();
    assert_eq!(route.chain_id, b"main".to_vec());
    assert_eq!(route.block_id, b"head".to_vec());
    assert!(block_routes(true, b"/chains/main/blocks/head/").is_some());
    assert!(block_routes(true, b"/chains/main/blocks/head/header").is_none());
    assert!(block_routes(true, b"/chains//blocks/head").is_none());
    assert!(block_routes(true, b"/chains/main/block/head").is_none());
    assert!(block_routes(true, b"/chains/main/blocks").is_none());
    assert!(block_routes(false, b"/chains/main/blocks/head").is_none());
}

#[test]
fn json_replies() {
    let ok = result_as_json::<u32>(Ok(7));
    assert_eq!(ok.status(), 200);
    assert!(matches!(ok, JsonReply::Success(7)));
    let failed = result_as_json::<u32>(Err("boom".to_string()));
    assert_eq!(failed.status(), 500);
    match failed {
        JsonReply::Failure(body) => {
            assert_eq!(body.code, 500);
            assert_eq!(body.message, "boom");
        }
        JsonReply::Success(_) => panic!("expected a failure"),
    }
}

#[test]
fn unreadable_records_do_not_change_the_start_up_head() {
    let good = vec![record(true, Some((true, 4))), record(true, Some((true, 9))), record(true, Some((true, 2)))];
    assert_eq!(pick_current_head(&good), Some(1));
    let with_bad = vec![
        record(false, Some((true, 50))),
        record(true, Some((true, 4))),
        record(true, None),
        record(true, Some((true, 9))),
        record(true, Some((false, 70))),
        record(true, Some((true, 2))),
        record(false, None),
    ];
    assert_eq!(pick_current_head(&with_bad), Some(3));
    assert_eq!(with_bad[3].meta.as_ref().unwrap().level, 9);
}

#[test]
fn rpc_server_name() {
    assert_eq!(tezedge_node::rpc::actor::name(), "rpc-server");
}

#[test]
fn interleaved_events_keep_first_highest_block() {
    let mut state = RpcCollectedState::new(None, vec![]);
    receive(&mut state, ShellChannelMsg::Other);
    receive(&mut state, ShellChannelMsg::BlockApplied(BlockApplied::new(vec![1u8; 32], 6, 0)));
    receive(&mut state, ShellChannelMsg::Other);
    receive(&mut state, ShellChannelMsg::BlockApplied(BlockApplied::new(vec![2u8; 32], 8, 0)));
    receive(&mut state, ShellChannelMsg::Other);
    receive(&mut state, ShellChannelMsg::BlockApplied(BlockApplied::new(vec![3u8; 32], 8, 0)));
    receive(&mut state, ShellChannelMsg::BlockApplied(BlockApplied::new(vec![4u8; 32], 1, 0)));
    assert_eq!(state.current_head().as_ref().unwrap().hash, vec![2u8; 32]);
}
