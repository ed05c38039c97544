use airdrop::airdrop::{
    mint_amount, plan_airdrop, plan_task, InvalidWallet, MintCollection, MintOrchestrator,
};
use airdrop::holders::Holders;
use airdrop::mint_status::{MintStatus, MintTxInfo};
use airdrop::worker::{MintOutcome, MintProgress, MintTask, MintWorker};

const SYSTEM_PROGRAM: &str = "11111111111111111111111111111111";
const TOKEN_PROGRAM: &str = "TokenkegQfeZyiNwAJbNbGKPFXCWuBvf9Ss623VQ5DA";
const METADATA_PROGRAM: &str = "metaqbxxUerdq28cj1RbAWkYQm3ybzjb6a8bt518x1s";

fn text(s: &str) -> String {
    String::from(s)
}

/// What one run of an airdrop came to.
struct AirdropRun {
    statuses: MintStatus,
    fetches: Vec<String>,
    submissions: Vec<(String, u64)>,
    waits: Vec<(String, u128)>,
    consumed: usize,
}

/// The remote client of a test: whether a fetch of the freshness token for a
/// wallet succeeds, and what a submission for it is answered with. Both are
/// told how many calls of their kind were made for the wallet before.
struct Client<'a> {
    token: &'a dyn Fn(&str, u32) -> bool,
    submit: &'a dyn Fn(&str, u32) -> Option<String>,
}

/// Carries out one task against the client, keeping account of the calls
/// and the waits.
fn run_task(task: MintTask, sleep_ms: u64, client: &Client, run: &mut AirdropRun) -> MintOutcome {
    let mut worker = MintWorker::new(task, sleep_ms);
    let mut fetches: u32 = 0;
    let mut submissions: u32 = 0;
    loop {
        let wallet = worker.wallet().clone();
        run.fetches.push(wallet.clone());
        let token = (client.token)(&wallet, fetches);
        fetches += 1;
        let progress = if token {
            let submission = worker.token_obtained();
            run.submissions.push((wallet.clone(), submission.amount()));
            let answer = (client.submit)(&wallet, submissions);
            submissions += 1;
            match answer {
                Some(signature) => return submission.confirmed(signature),
                None => submission.rejected(),
            }
        } else {
            worker.token_failed()
        };
        match progress {
            MintProgress::Retry { worker: next, delay_ms } => {
                run.waits.push((wallet, delay_ms));
                worker = next;
            }
            MintProgress::Finished(outcome) => return outcome,
        }
    }
}

/// Carries out the tasks one after the other and hands the outcomes to the
/// collector in the order `arrival`.
fn run_airdrop(
    tasks: Vec<MintTask>,
    sleep_ms: u64,
    client: &Client,
    arrival: &dyn Fn(Vec<MintOutcome>) -> Vec<MintOutcome>,
) -> AirdropRun {
    let expected = tasks.len();
    let mut run = AirdropRun {
        statuses: MintStatus::new(),
        fetches: Vec::new(),
        submissions: Vec::new(),
        waits: Vec::new(),
        consumed: 0,
    };
    let mut outcomes = Vec::new();
    for task in tasks {
        let outcome = run_task(task, sleep_ms, client, &mut run);
        outcomes.push(outcome);
    }
    let mut collection = MintOrchestrator::start(expected);
    for outcome in arrival(outcomes) {
        collection = match collection {
            MintCollection::Waiting(orchestrator) => {
                run.consumed += 1;
                orchestrator.accept(outcome)
            }
            MintCollection::Complete(statuses) => MintCollection::Complete(statuses),
        };
    }
    match collection {
        MintCollection::Complete(statuses) => run.statuses = statuses,
        MintCollection::Waiting(_) => panic!("outcomes are still owed"),
    }
    run
}

fn token_always(_: &str, _: u32) -> bool {
    true
}

fn sign_with_wallet(wallet: &str, _: u32) -> Option<String> {
    Some(format!("sig-{}", wallet))
}

fn in_order(outcomes: Vec<MintOutcome>) -> Vec<MintOutcome> {
    outcomes
}

fn reversed(mut outcomes: Vec<MintOutcome>) -> Vec<MintOutcome> {
    outcomes.reverse();
    outcomes
}

#[test]
fn mint_amount_is_one_or_the_balance() {
    assert_eq!(mint_amount(5, true), 1);
    assert_eq!(mint_amount(5, false), 5);
    assert_eq!(mint_amount(0, true), 1);
    assert_eq!(mint_amount(0, false), 0);
    assert_eq!(mint_amount(u32::MAX, false), 4294967295u64);
}

#[test]
fn plan_task_takes_the_key_that_was_read() {
    let task = plan_task(text("walletA"), 5, false, Some([7u8; 32])).unwrap();
    assert_eq!(task, MintTask { wallet: text("walletA"), key: [7u8; 32], amount: 5 });
    let task = plan_task(text("walletA"), 5, true, Some([7u8; 32])).unwrap();
    assert_eq!(task.amount, 1);
}

#[test]
fn plan_task_names_the_unreadable_wallet() {
    let refused = plan_task(text("walletA"), 5, false, None);
    assert_eq!(refused, Err(InvalidWallet { wallet: text("walletA") }));
}

#[test]
fn plan_reads_each_address() {
    let mut holders = Holders::new();
    holders.insert(text(SYSTEM_PROGRAM), 5);
    holders.insert(text(TOKEN_PROGRAM), 2);
    let tasks = plan_airdrop(&holders, false).unwrap();
    assert_eq!(tasks.len(), 2);
    assert_eq!(tasks[0].wallet, SYSTEM_PROGRAM);
    assert_eq!(tasks[0].key, [0u8; 32]);
    assert_eq!(tasks[0].amount, 5);
    assert_eq!(tasks[1].wallet, TOKEN_PROGRAM);
    assert_eq!(tasks[1].key, spl_token::id().to_bytes());
    assert_ne!(tasks[1].key, [0u8; 32]);
    assert_eq!(tasks[1].amount, 2);
}

#[test]
fn plan_mints_one_token_each_when_asked() {
    let mut holders = Holders::new();
    holders.insert(text(SYSTEM_PROGRAM), 5);
    holders.insert(text(TOKEN_PROGRAM), 2);
    let tasks = plan_airdrop(&holders, true).unwrap();
    assert_eq!(tasks[0].amount, 1);
    assert_eq!(tasks[1].amount, 1);
}

#[test]
fn plan_of_no_holders_is_empty() {
    let tasks = plan_airdrop(&Holders::new(), false).unwrap();
    assert!(tasks.is_empty());
}

#[test]
fn plan_refuses_the_first_unreadable_wallet() {
    let mut holders = Holders::new();
    holders.insert(text(SYSTEM_PROGRAM), 5);
    holders.insert(text("walletA"), 1);
    holders.insert(text(TOKEN_PROGRAM), 2);
    holders.insert(text("walletB"), 3);
    let refused = plan_airdrop(&holders, false);
    assert_eq!(refused, Err(InvalidWallet { wallet: text("walletA") }));
}

#[test]
fn plan_refuses_an_address_of_the_wrong_size() {
    let mut holders = Holders::new();
    holders.insert(text("1111"), 5);
    assert_eq!(plan_airdrop(&holders, false), Err(InvalidWallet { wallet: text("1111") }));
    let mut holders = Holders::new();
    holders.insert(text(""), 5);
    assert_eq!(plan_airdrop(&holders, false), Err(InvalidWallet { wallet: text("") }));
}

#[test]
fn airdrop_where_every_submission_succeeds_at_once() {
    let tasks = vec![
        plan_task(text("walletA"), 5, false, Some([1u8; 32])).unwrap(),
        plan_task(text("walletB"), 2, false, Some([2u8; 32])).unwrap(),
    ];
    let client = Client { token: &token_always, submit: &sign_with_wallet };
    let run = run_airdrop(tasks, 700, &client, &in_order);
    assert_eq!(run.consumed, 2);
    assert_eq!(run.statuses.len(), 2);
    let a = run.statuses.get(&text("walletA")).unwrap();
    assert!(a.status);
    assert_eq!(a.signature, Some(text("sig-walletA")));
    let b = run.statuses.get(&text("walletB")).unwrap();
    assert!(b.status);
    assert_eq!(b.signature, Some(text("sig-walletB")));
    assert_eq!(run.submissions, vec![(text("walletA"), 5), (text("walletB"), 2)]);
    assert_eq!(run.fetches, vec![text("walletA"), text("walletB")]);
    assert!(run.waits.is_empty());
}

#[test]
fn airdrop_of_a_read_registry_mirrors_the_held_quantities() {
    let mut holders = Holders::new();
    holders.insert(text(SYSTEM_PROGRAM), 5);
    holders.insert(text(METADATA_PROGRAM), 2);
    let tasks = plan_airdrop(&holders, false).unwrap();
    let client = Client { token: &token_always, submit: &|_, _| Some(text("sig")) };
    let run = run_airdrop(tasks, 700, &client, &reversed);
    assert_eq!(run.statuses.len(), 2);
    assert_eq!(run.statuses.wallet_at(0), METADATA_PROGRAM);
    assert_eq!(run.statuses.wallet_at(1), SYSTEM_PROGRAM);
    assert!(run.statuses.get(&text(SYSTEM_PROGRAM)).unwrap().status);
    assert!(run.statuses.get(&text(METADATA_PROGRAM)).unwrap().status);
    assert_eq!(run.submissions, vec![(text(SYSTEM_PROGRAM), 5), (text(METADATA_PROGRAM), 2)]);
}

#[test]
fn airdrop_where_one_wallet_fails_on_all_five_attempts() {
    let tasks = vec![
        plan_task(text("walletA"), 5, false, Some([1u8; 32])).unwrap(),
        plan_task(text("walletB"), 2, false, Some([2u8; 32])).unwrap(),
        plan_task(text("walletC"), 1, false, Some([3u8; 32])).unwrap(),
    ];
    let submit = |wallet: &str, _: u32| {
        if wallet == "walletB" {
            None
        } else {
            Some(format!("sig-{}", wallet))
        }
    };
    let client = Client { token: &token_always, submit: &submit };
    let run = run_airdrop(tasks, 700, &client, &in_order);
    assert_eq!(run.statuses.len(), 3);
    assert_eq!(run.statuses.get(&text("walletB")), Some(&MintTxInfo { signature: None, status: false }));
    assert_eq!(run.statuses.get(&text("walletA")), Some(&MintTxInfo::confirmed(text("sig-walletA"))));
    assert_eq!(run.statuses.get(&text("walletC")), Some(&MintTxInfo::confirmed(text("sig-walletC"))));
    let for_b = run.submissions.iter().filter(|s| s.0 == "walletB").count();
    assert_eq!(for_b, 5);
    assert_eq!(run.submissions.len(), 7);
    let waits: Vec<u128> = run.waits.iter().map(|w| w.1).collect();
    assert_eq!(waits, vec![700u128, 1400, 2800, 5600]);
}

#[test]
fn airdrop_where_a_wallet_succeeds_on_its_last_attempt() {
    let tasks = vec![plan_task(text("walletA"), 5, true, Some([1u8; 32])).unwrap()];
    let submit = |_: &str, attempt: u32| if attempt == 4 { Some(text("late")) } else { None };
    let client = Client { token: &token_always, submit: &submit };
    let run = run_airdrop(tasks, 10, &client, &in_order);
    assert_eq!(run.statuses.get(&text("walletA")), Some(&MintTxInfo::confirmed(text("late"))));
    assert_eq!(run.submissions, vec![(text("walletA"), 1); 5]);
    let waits: Vec<u128> = run.waits.iter().map(|w| w.1).collect();
    assert_eq!(waits, vec![10u128, 20, 40, 80]);
}

#[test]
fn collection_of_nothing_is_complete_at_once() {
    match MintOrchestrator::start(0) {
        MintCollection::Complete(statuses) => assert_eq!(statuses.len(), 0),
        MintCollection::Waiting(_) => panic!("nothing is expected"),
    }
}

#[test]
fn collection_completes_with_the_expected_outcome_and_not_before() {
    for expected in 1..6usize {
        let mut collection = MintOrchestrator::start(expected);
        for k in 0..expected {
            let orchestrator = match collection {
                MintCollection::Waiting(orchestrator) => orchestrator,
                MintCollection::Complete(_) => panic!("complete after {} of {}", k, expected),
            };
            assert_eq!(orchestrator.expected(), expected);
            assert_eq!(orchestrator.received(), k);
            let outcome = MintOutcome { wallet: format!("wallet{}", k), info: MintTxInfo::failed() };
            collection = orchestrator.accept(outcome);
        }
        match collection {
            MintCollection::Complete(statuses) => assert_eq!(statuses.len(), expected),
            MintCollection::Waiting(_) => panic!("waiting after all {}", expected),
        }
    }
}

#[test]
fn result_registry_has_one_entry_per_wallet_in_any_arrival_order() {
    let names = ["w0", "w1", "w2", "w3"];
    let tasks = |_: ()| -> Vec<MintTask> {
        names.iter().map(|n| plan_task(text(n), 1, true, Some([9u8; 32])).unwrap()).collect()
    };
    for arrival in [&in_order as &dyn Fn(Vec<MintOutcome>) -> Vec<MintOutcome>, &reversed] {
        let client = Client { token: &token_always, submit: &|w, _| Some(text(w)) };
        let run = run_airdrop(tasks(()), 1, &client, arrival);
        assert_eq!(run.statuses.len(), names.len());
        for name in names {
            assert_eq!(run.statuses.get(&text(name)), Some(&MintTxInfo::confirmed(text(name))));
        }
    }
}

#[test]
fn airdrop_where_no_token_can_be_had() {
    let tasks = vec![plan_task(text("walletA"), 5, false, Some([1u8; 32])).unwrap()];
    let client = Client { token: &|_, _| false, submit: &sign_with_wallet };
    let run = run_airdrop(tasks, 700, &client, &in_order);
    assert_eq!(run.statuses.get(&text("walletA")), Some(&MintTxInfo::failed()));
    assert_eq!(run.fetches.len(), 50);
    assert!(run.submissions.is_empty());
    let waits: Vec<u128> = run.waits.iter().map(|w| w.1).collect();
    let mut expected = Vec::new();
    for attempt in 0..5u32 {
        expected.extend(vec![2000u128; 9]);
        if attempt < 4 {
            expected.push(700u128 << attempt);
        }
    }
    assert_eq!(waits, expected);
}

#[test]
fn token_failures_and_rejections_share_the_five_attempts() {
    let tasks = vec![plan_task(text("walletA"), 5, false, Some([1u8; 32])).unwrap()];
    // The token of the second and of the fourth attempt cannot be had; every
    // submission is rejected.
    let token = |_: &str, fetch: u32| !((1..11).contains(&fetch) || (12..22).contains(&fetch));
    let client = Client { token: &token, submit: &|_, _| None };
    let run = run_airdrop(tasks, 100, &client, &in_order);
    assert_eq!(run.statuses.get(&text("walletA")), Some(&MintTxInfo::failed()));
    assert_eq!(run.submissions.len(), 3);
    assert_eq!(run.fetches.len(), 23);
    let outer: Vec<u128> = run.waits.iter().map(|w| w.1).filter(|w| *w != 2000).collect();
    assert_eq!(outer, vec![100u128, 200, 400, 800]);
}

#[test]
fn token_found_late_does_not_cost_an_attempt() {
    let tasks = vec![plan_task(text("walletA"), 5, false, Some([1u8; 32])).unwrap()];
    let client = Client { token: &|_, fetch| fetch == 9, submit: &sign_with_wallet };
    let run = run_airdrop(tasks, 700, &client, &in_order);
    assert_eq!(run.statuses.get(&text("walletA")), Some(&MintTxInfo::confirmed(text("sig-walletA"))));
    assert_eq!(run.fetches.len(), 10);
    assert_eq!(run.submissions.len(), 1);
    let waits: Vec<u128> = run.waits.iter().map(|w| w.1).collect();
    assert_eq!(waits, vec![2000u128; 9]);
}

#[test]
fn mint_worker_keeps_its_task() {
    let task = MintTask { wallet: text("walletA"), key: [4u8; 32], amount: 3 };
    let worker = MintWorker::new(task, 700);
    assert_eq!(worker.wallet(), "walletA");
    assert_eq!(worker.key(), &[4u8; 32]);
    assert_eq!(worker.amount(), 3);
    assert_eq!(worker.attempts_left(), 5);
    assert_eq!(worker.token_fetches_left(), 10);
    let submission = worker.token_obtained();
    assert_eq!(submission.wallet(), "walletA");
    assert_eq!(submission.key(), &[4u8; 32]);
    assert_eq!(submission.amount(), 3);
    match submission.rejected() {
        MintProgress::Retry { worker, delay_ms } => {
            assert_eq!(delay_ms, 700);
            assert_eq!(worker.wallet(), "walletA");
            assert_eq!(worker.key(), &[4u8; 32]);
            assert_eq!(worker.amount(), 3);
            assert_eq!(worker.attempts_left(), 4);
            assert_eq!(worker.token_fetches_left(), 10);
        }
        MintProgress::Finished(_) => panic!("four attempts are left"),
    }
}

#[test]
fn mint_worker_counts_token_fetches_within_an_attempt() {
    let task = MintTask { wallet: text("walletA"), key: [4u8; 32], amount: 3 };
    let worker = MintWorker::new(task, 700);
    match worker.token_failed() {
        MintProgress::Retry { worker, delay_ms } => {
            assert_eq!(delay_ms, 2000);
            assert_eq!(worker.attempts_left(), 5);
            assert_eq!(worker.token_fetches_left(), 9);
        }
        MintProgress::Finished(_) => panic!("nine fetches are left"),
    }
}

#[test]
fn mint_worker_success_carries_the_signature() {
    let task = MintTask { wallet: text("walletA"), key: [4u8; 32], amount: 3 };
    let outcome = MintWorker::new(task, 700).token_obtained().confirmed(text("5igna7ure"));
    assert_eq!(outcome.wallet, "walletA");
    assert_eq!(outcome.info, MintTxInfo { signature: Some(text("5igna7ure")), status: true });
}

#[test]
fn surplus_outcomes_are_not_consumed() {
    let tasks = vec![
        plan_task(text("walletA"), 5, false, Some([1u8; 32])).unwrap(),
        plan_task(text("walletB"), 2, false, Some([2u8; 32])).unwrap(),
    ];
    let with_surplus = |mut outcomes: Vec<MintOutcome>| {
        outcomes.push(MintOutcome { wallet: text("walletZ"), info: MintTxInfo::failed() });
        outcomes
    };
    let client = Client { token: &token_always, submit: &sign_with_wallet };
    let run = run_airdrop(tasks, 700, &client, &with_surplus);
    assert_eq!(run.consumed, 2);
    assert_eq!(run.statuses.len(), 2);
    assert_eq!(run.statuses.get(&text("walletZ")), None);
}
