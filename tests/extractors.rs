use farm_events::events::{
    process_initialize, process_new_reward, process_restart_or_add, FARM_PROGRAM_ID,
};

fn strings(v: &[&str]) -> Vec<String> {
    v.iter().map(|s| s.to_string()).collect()
}

fn program_line() -> String {
    format!("Program {} invoke [1]", FARM_PROGRAM_ID)
}

fn with_program(lines: &[&str]) -> Vec<String> {
    let mut v = vec![program_line()];
    v.extend(strings(lines));
    v
}

#[test]
fn initialize_scenario() {
    let logs = with_program(&[
        "Program log: process_initialize reward_per_second 5, begin:100, current:90, end:200",
        "Program log: process_initialize reward_per_second 3, begin:110, current:90, end:190",
    ]);
    let accounts = strings(&["userA", "farmB", "lpMintC", "rewardD", "rewardE"]);
    let sig = "sig1".to_string();
    let e = process_initialize(&logs, &sig, &accounts).unwrap().unwrap();
    assert_eq!(e.signature, "sig1");
    assert_eq!(e.user, "userA");
    assert_eq!(e.farm_id, "farmB");
    assert_eq!(e.lp_mint, "lpMintC");
    assert_eq!(e.reward_mints, strings(&["rewardD", "rewardE"]));
    assert_eq!(e.start_time, 100);
    assert_eq!(e.end_time, 200);
}

#[test]
fn initialize_earliest_and_latest_of_three() {
    let logs = with_program(&[
        "process_initialize reward_per_second 1, begin:50, current:1, end:10",
        "process_initialize reward_per_second 1, begin:10, current:1, end:50",
        "process_initialize reward_per_second 1, begin:30, current:1, end:30",
    ]);
    let accounts = strings(&["u", "f", "lp", "r1", "r2", "r3"]);
    let e = process_initialize(&logs, &"s".to_string(), &accounts).unwrap().unwrap();
    assert_eq!(e.start_time, 10);
    assert_eq!(e.end_time, 50);
    assert_eq!(e.lp_mint, "lp");
    assert_eq!(e.reward_mints, strings(&["r1", "r2", "r3"]));
}

#[test]
fn reward_mints_are_the_last_accounts() {
    let logs = with_program(&[
        "process_initialize reward_per_second 1, begin:1, current:1, end:2",
        "process_initialize reward_per_second 2, begin:1, current:1, end:2",
    ]);
    let accounts = strings(&["u", "f", "a", "b", "lp", "m1", "m2"]);
    let e = process_initialize(&logs, &"s".to_string(), &accounts).unwrap().unwrap();
    assert_eq!(e.reward_mints.len(), 2);
    assert_eq!(e.reward_mints, strings(&["m1", "m2"]));
    assert_eq!(e.lp_mint, "lp");
}

#[test]
fn initialize_absent_label_gives_zero() {
    let logs = with_program(&["process_initialize reward_per_second 5, current:90"]);
    let accounts = strings(&["u", "f", "lp", "r"]);
    let e = process_initialize(&logs, &"s".to_string(), &accounts).unwrap().unwrap();
    assert_eq!(e.start_time, 0);
    assert_eq!(e.end_time, 0);
}

#[test]
fn initialize_malformed_begin_is_skipped() {
    let logs = with_program(&[
        "process_initialize reward_per_second 5, begin:abc, current:90, end:200",
    ]);
    let accounts = strings(&["u", "f", "lp", "r"]);
    let e = process_initialize(&logs, &"s".to_string(), &accounts).unwrap().unwrap();
    assert_eq!(e.start_time, 0);
    assert_eq!(e.end_time, 200);
}

#[test]
fn initialize_malformed_value_does_not_hide_others() {
    let logs = with_program(&[
        "process_initialize reward_per_second 5, begin:abc, current:90, end:4294967296",
        "process_initialize reward_per_second 5, begin:+70, current:90, end:80",
    ]);
    let accounts = strings(&["u", "f", "lp", "r1", "r2"]);
    let e = process_initialize(&logs, &"s".to_string(), &accounts).unwrap().unwrap();
    assert_eq!(e.start_time, 70);
    assert_eq!(e.end_time, 80);
}

#[test]
fn initialize_too_few_accounts_is_an_error() {
    let logs = with_program(&[
        "process_initialize reward_per_second 5, begin:1, current:1, end:2",
        "process_initialize reward_per_second 5, begin:1, current:1, end:2",
    ]);
    let accounts = strings(&["u", "f"]);
    assert!(process_initialize(&logs, &"s".to_string(), &accounts).is_err());
}

#[test]
fn initialize_needs_the_program_mentioned() {
    let logs = strings(&["process_initialize reward_per_second 5, begin:1, current:1, end:2"]);
    let accounts = strings(&["u", "f", "lp", "r"]);
    assert_eq!(process_initialize(&logs, &"s".to_string(), &accounts), Ok(None));
}

#[test]
fn restart_scenario() {
    let logs = with_program(&["process_creator_restart: ADDR1, 500, 900, 2"]);
    let accounts = strings(&["userX", "farmY", "other"]);
    let e = process_restart_or_add(&logs, &"sigR".to_string(), &accounts).unwrap().unwrap();
    assert_eq!(e.signature, "sigR");
    assert_eq!(e.user, "userX");
    assert_eq!(e.farm_id, "farmY");
    assert_eq!(e.start_time, 500);
    assert_eq!(e.end_time, 900);
}

#[test]
fn restart_over_several_lines() {
    let logs = with_program(&[
        "Program log: process_creator_restart: EVfHjrgu9KFV4889AdyBNtB7jgBhAaPZeSAJ9sY163vD, 1740777211, 1741382011, 16",
        "Program log: process_creator_restart: DpiGX6UpwH7pz9YKka2t6zyWFfBQyiq4ihCy7nzGciEh, 1740777232, 1741382032, 3",
    ]);
    let accounts = strings(&["u", "f"]);
    let e = process_restart_or_add(&logs, &"s".to_string(), &accounts).unwrap().unwrap();
    assert_eq!(e.start_time, 1740777211);
    assert_eq!(e.end_time, 1741382032);
}

#[test]
fn restart_without_farm_account_is_an_error() {
    let logs = with_program(&["process_creator_restart: ADDR1, 500, 900, 2"]);
    let accounts = strings(&["userX"]);
    assert!(process_restart_or_add(&logs, &"s".to_string(), &accounts).is_err());
}

#[test]
fn new_reward_scenario() {
    let logs = with_program(&[
        "Program log: process_admin_add_reward_token: 6npFrUXvt7yniYerAwcBjg5SKspxN4tZbGFxEqMFEZHJ, 1740785220, 1741390020, 1, 0",
    ]);
    let accounts = strings(&["admin", "farm", "x"]);
    let e = process_new_reward(&logs, &"sigN".to_string(), &accounts).unwrap().unwrap();
    assert_eq!(e.signature, "sigN");
    assert_eq!(e.user, "admin");
    assert_eq!(e.farm_id, "farm");
    assert_eq!(e.start_time, 1740785220);
    assert_eq!(e.end_time, 1741390020);
}

#[test]
fn new_reward_without_accounts_is_an_error() {
    let logs = with_program(&["process_admin_add_reward_token: A, 1, 2, 1, 0"]);
    assert!(process_new_reward(&logs, &"s".to_string(), &Vec::new()).is_err());
}

#[test]
fn untagged_lines_give_no_event() {
    let logs = with_program(&["Program log: Instruction: Deposit", "Program log: something else"]);
    let accounts = strings(&["u", "f", "lp"]);
    let sig = "s".to_string();
    assert_eq!(process_initialize(&logs, &sig, &accounts), Ok(None));
    assert_eq!(process_restart_or_add(&logs, &sig, &accounts), Ok(None));
    assert_eq!(process_new_reward(&logs, &sig, &accounts), Ok(None));
}

#[test]
fn extraction_is_repeatable() {
    let logs = with_program(&[
        "process_initialize reward_per_second 5, begin:100, current:90, end:200",
        "process_creator_restart: ADDR1, 500, 900, 2",
        "process_admin_add_reward_token: A, 7, 8, 1, 0",
    ]);
    let accounts = strings(&["u", "f", "lp", "r"]);
    let sig = "s".to_string();
    assert_eq!(
        process_initialize(&logs, &sig, &accounts),
        process_initialize(&logs, &sig, &accounts)
    );
    assert_eq!(
        process_restart_or_add(&logs, &sig, &accounts),
        process_restart_or_add(&logs, &sig, &accounts)
    );
    assert_eq!(
        process_new_reward(&logs, &sig, &accounts),
        process_new_reward(&logs, &sig, &accounts)
    );
}
