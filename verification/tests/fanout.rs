use rpc_fanout::call::RpcCall;
use rpc_fanout::dispatch::{dispatch_plan, fan_in, Collector};
use rpc_fanout::endpoints::Endpoints;
use rpc_fanout::outcome::CallError;

#[test]
fn empty_registry_yields_empty_results() {
    let registry = Endpoints::builder().build();
    assert_eq!(registry.len(), 0);

    let call = RpcCall::send_bundle(String::from("{}"));
    let units = dispatch_plan(&registry, &call);
    assert_eq!(units.len(), 0);

    let results: Vec<Result<u64, String>> = fan_in(0, Vec::new());
    assert!(results.is_empty());
}

#[test]
fn builder_keeps_order_and_duplicates() {
    let registry = Endpoints::builder()
        .endpoint(String::from("http://a.example"))
        .endpoint(String::from("http://b.example"))
        .endpoint(String::from("http://a.example"))
        .build();
    assert_eq!(registry.len(), 3);
    assert_eq!(registry.get(0), "http://a.example");
    assert_eq!(registry.get(1), "http://b.example");
    assert_eq!(registry.get(2), "http://a.example");
}

#[test]
fn plan_pairs_every_endpoint_with_its_index() {
    let registry = Endpoints::builder()
        .endpoint(String::from("http://a.example"))
        .endpoint(String::from("http://a.example"))
        .endpoint(String::from("http://b.example"))
        .build();
    let call = RpcCall::new(String::from("eth_sendBundle"), vec![String::from("0xbeef")]);

    let units = dispatch_plan(&registry, &call);
    assert_eq!(units.len(), 3);
    for (i, unit) in units.iter().enumerate() {
        assert_eq!(unit.index(), i);
        assert_eq!(unit.endpoint(), registry.get(i));
        assert_eq!(unit.call().method(), "eth_sendBundle");
        assert_eq!(unit.call().params_len(), 1);
        assert_eq!(unit.call().param(0), "0xbeef");
    }
}

#[test]
fn template_replay_leaves_call_unchanged() {
    let registry = Endpoints::builder()
        .endpoint(String::from("http://a.example"))
        .endpoint(String::from("http://b.example"))
        .build();
    let call = RpcCall::new(String::from("eth_callBundle"), vec![String::from("0x01")]);

    let first = dispatch_plan(&registry, &call);
    let second = dispatch_plan(&registry, &call);

    // The same call object served both plans, untouched.
    assert_eq!(call.method(), "eth_callBundle");
    assert_eq!(call.params_len(), 1);
    assert_eq!(call.param(0), "0x01");

    for (a, b) in first.iter().zip(second.iter()) {
        assert_eq!(a.index(), b.index());
        assert_eq!(a.endpoint(), b.endpoint());
        assert_eq!(a.call().method(), b.call().method());
        assert_eq!(a.call().param(0), b.call().param(0));
    }
}

#[test]
fn example_three_endpoints_one_failure() {
    // registry = [A, B, C]; A and C succeed with 1 and 3; B fails with E.
    let arrivals: Vec<(usize, Result<u64, String>)> = vec![
        (0, Ok(1)),
        (1, Err(String::from("E"))),
        (2, Ok(3)),
    ];
    let results = fan_in(3, arrivals);
    assert_eq!(
        results,
        vec![Ok(1), Err(String::from("E")), Ok(3)]
    );
}

#[test]
fn shuffled_completion_order_same_results() {
    let orders: Vec<Vec<(usize, Result<u64, String>)>> = vec![
        vec![(0, Ok(1)), (1, Err(String::from("E"))), (2, Ok(3))],
        vec![(2, Ok(3)), (0, Ok(1)), (1, Err(String::from("E")))],
        vec![(1, Err(String::from("E"))), (2, Ok(3)), (0, Ok(1))],
        vec![(2, Ok(3)), (1, Err(String::from("E"))), (0, Ok(1))],
    ];
    let expected = vec![Ok(1), Err(String::from("E")), Ok(3)];
    for arrivals in orders {
        assert_eq!(fan_in(3, arrivals), expected);
    }
}

#[test]
fn failure_stays_in_its_slot() {
    let n = 4;
    for failing in 0..n {
        let mut arrivals: Vec<(usize, Result<u64, String>)> = Vec::new();
        // Settle in reverse order, so the failing endpoint's timing varies too.
        for i in (0..n).rev() {
            if i == failing {
                arrivals.push((i, Err(String::from("boom"))));
            } else {
                arrivals.push((i, Ok(i as u64 * 10)));
            }
        }
        let results = fan_in(n, arrivals);
        assert_eq!(results.len(), n);
        for (i, r) in results.iter().enumerate() {
            if i == failing {
                assert_eq!(r, &Err(String::from("boom")));
            } else {
                assert_eq!(r, &Ok(i as u64 * 10));
            }
        }
    }
}

#[test]
fn collector_settles_each_slot_once() {
    let mut collector: Collector<Result<u64, String>> = Collector::new(3);
    assert_eq!(collector.len(), 3);
    assert!(!collector.is_complete());
    assert!(!collector.is_settled(0));

    collector.settle(1, Err(String::from("timeout")));
    assert!(collector.is_settled(1));
    assert!(!collector.is_complete());

    collector.settle(2, Ok(30));
    collector.settle(0, Ok(10));
    assert!(collector.is_complete());

    let results = collector.finish();
    assert_eq!(results, vec![Ok(10), Err(String::from("timeout")), Ok(30)]);
}

#[test]
fn empty_collector_is_immediately_complete() {
    let collector: Collector<u64> = Collector::new(0);
    assert!(collector.is_complete());
    assert!(collector.finish().is_empty());
}

#[test]
fn call_constructors_use_documented_methods() {
    let send = RpcCall::send_bundle(String::from("{\"txs\":[]}"));
    assert_eq!(send.method(), "eth_sendBundle");
    assert_eq!(send.params_len(), 1);
    assert_eq!(send.param(0), "{\"txs\":[]}");

    let call = RpcCall::call_bundle(String::from("{\"txs\":[]}"));
    assert_eq!(call.method(), "eth_callBundle");

    let cancel = RpcCall::cancel_bundle(String::from("{\"replacementUuid\":\"u\"}"));
    assert_eq!(cancel.method(), "eth_cancelBundle");

    let private = RpcCall::send_private_transaction(String::from("{\"tx\":\"0x\"}"));
    assert_eq!(private.method(), "eth_sendPrivateTransaction");
    assert_eq!(private.params_len(), 1);
}

#[test]
fn cloned_call_matches_original() {
    let call = RpcCall::new(
        String::from("eth_sendBundle"),
        vec![String::from("0x01"), String::from("0x02")],
    );
    let copy = call.clone();
    assert_eq!(copy.method(), call.method());
    assert_eq!(copy.params_len(), 2);
    assert_eq!(copy.param(0), "0x01");
    assert_eq!(copy.param(1), "0x02");
}

#[test]
fn call_error_kinds_are_told_apart() {
    let transport = CallError::Transport(String::from("connection refused"));
    assert!(transport.is_transport());
    assert_eq!(transport.message(), "connection refused");

    let rpc = CallError::Rpc(String::from("bundle rejected"));
    assert!(!rpc.is_transport());
    assert_eq!(rpc.message(), "bundle rejected");
}
