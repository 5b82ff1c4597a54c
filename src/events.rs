//! The three event extractors: farm initialization, reward-period restart
//! or extension, and registration of a new reward token.

use vstd::prelude::*;
use crate::text::{chars_of, contains, contains_exec};
use crate::aggregate::{char_lines, earliest, latest, earliest_time, latest_time};

verus! {

/// Address of the farm program whose logs are interpreted.
pub const FARM_PROGRAM_ID: &'static str = "FarmqiPv5eAj3j1GMdMCMUGXqPUvmquZtMy86QH6rzhG";

/// Tag of the log lines that report one reward token of a new farm.
pub const INITIALIZE_TAG: &'static str = "process_initialize reward_per_second";

/// Tag of the log lines that report a reward period being restarted or extended.
pub const RESTART_TAG: &'static str = "process_creator_restart";

/// Tag of the log lines that report a reward token being added to a farm.
pub const NEW_REWARD_TAG: &'static str = "process_admin_add_reward_token";

/// What precedes the comma-separated fields of a restart line.
pub const RESTART_PREFIX: &'static str = "process_creator_restart: ";

/// What precedes the comma-separated fields of a new-reward line.
pub const NEW_REWARD_PREFIX: &'static str = "process_admin_add_reward_token: ";

/// Label of the start time in an initialize line.
pub const BEGIN_LABEL: &'static str = "begin:";

/// Label of the end time in an initialize line.
pub const END_LABEL: &'static str = "end:";

/// Ends the labeled value in an initialize line.
pub const VALUE_END: &'static str = ",";

/// Separates the fields of a restart or new-reward line.
pub const FIELD_SEPARATOR: &'static str = ", ";

/// Position of the start time among the fields of a restart or new-reward line.
pub const START_FIELD: usize = 1;

/// Position of the end time among the fields of a restart or new-reward line.
pub const END_FIELD: usize = 2;

/// Error of an initialize transaction whose account list is too short for
/// the reward tokens that its logs report.
pub const MISSING_ACCOUNTS: &'static str = "account list too short for the reported reward tokens";

/// Error of a transaction without the user and farm accounts.
pub const MISSING_USER_OR_FARM: &'static str = "account list lacks the user or the farm account";

/// A farm was created with its reward tokens.
#[derive(Clone, Debug, PartialEq, Eq)]
pub struct InitializeTransaction {
    pub signature: String,
    pub farm_id: String,
    pub user: String,
    pub lp_mint: String,
    pub reward_mints: Vec<String>,
    pub start_time: u32,
    pub end_time: u32,
}

/// A reward period of a farm was restarted or extended.
#[derive(Clone, Debug, PartialEq, Eq)]
pub struct RestartOrAddTransaction {
    pub signature: String,
    pub farm_id: String,
    pub user: String,
    pub start_time: u32,
    pub end_time: u32,
}

/// A reward token was added to a farm.
#[derive(Clone, Debug, PartialEq, Eq)]
pub struct NewRewardTransaction {
    pub signature: String,
    pub farm_id: String,
    pub user: String,
    pub start_time: u32,
    pub end_time: u32,
}

/// Abstract value of an [`InitializeTransaction`].
pub struct InitializeView {
    pub signature: Seq<char>,
    pub farm_id: Seq<char>,
    pub user: Seq<char>,
    pub lp_mint: Seq<char>,
    pub reward_mints: Seq<Seq<char>>,
    pub start_time: u32,
    pub end_time: u32,
}

/// Abstract value of a [`RestartOrAddTransaction`] or a [`NewRewardTransaction`].
pub struct PeriodView {
    pub signature: Seq<char>,
    pub farm_id: Seq<char>,
    pub user: Seq<char>,
    pub start_time: u32,
    pub end_time: u32,
}

/// The contents of each string, in order.
pub open spec fn texts(v: Seq<String>) -> Seq<Seq<char>> {
    v.map_values(|s: String| s@)
}

impl View for InitializeTransaction {
    type V = InitializeView;

    open spec fn view(&self) -> InitializeView {
        InitializeView {
            signature: self.signature@,
            farm_id: self.farm_id@,
            user: self.user@,
            lp_mint: self.lp_mint@,
            reward_mints: texts(self.reward_mints@),
            start_time: self.start_time,
            end_time: self.end_time,
        }
    }
}

impl View for RestartOrAddTransaction {
    type V = PeriodView;

    open spec fn view(&self) -> PeriodView {
        PeriodView {
            signature: self.signature@,
            farm_id: self.farm_id@,
            user: self.user@,
            start_time: self.start_time,
            end_time: self.end_time,
        }
    }
}

impl View for NewRewardTransaction {
    type V = PeriodView;

    open spec fn view(&self) -> PeriodView {
        PeriodView {
            signature: self.signature@,
            farm_id: self.farm_id@,
            user: self.user@,
            start_time: self.start_time,
            end_time: self.end_time,
        }
    }
}

/// Some line mentions the farm program.
pub open spec fn mentions_program(lines: Seq<Seq<char>>) -> bool {
    exists|i: int| 0 <= i < lines.len() && contains(#[trigger] lines[i], FARM_PROGRAM_ID@)
}

/// The lines that contain `tag`, in order.
pub open spec fn matching_lines(lines: Seq<Seq<char>>, tag: Seq<char>) -> Seq<Seq<char>>
    decreases lines.len(),
{
    if lines.len() == 0 {
        lines
    } else if contains(lines.last(), tag) {
        matching_lines(lines.drop_last(), tag).push(lines.last())
    } else {
        matching_lines(lines.drop_last(), tag)
    }
}

/// What an initialize extraction yields: nothing when the farm program is
/// not mentioned or no line carries the initialize tag; an error when the
/// account list has no room for the LP mint before the `k` reward mints;
/// else the event, whose reward mints are the last `k` accounts.
pub open spec fn initialize_outcome(
    lines: Seq<Seq<char>>,
    signature: Seq<char>,
    accounts: Seq<Seq<char>>,
) -> Result<Option<InitializeView>, ()> {
    let matched = matching_lines(lines, INITIALIZE_TAG@);
    let k = matched.len();
    let n = accounts.len();
    if !mentions_program(lines) || k == 0 {
        Ok(None)
    } else if k >= n {
        Err(())
    } else {
        Ok(
            Some(
                InitializeView {
                    signature,
                    user: accounts[0],
                    farm_id: accounts[1],
                    lp_mint: accounts[n - 1 - k],
                    reward_mints: accounts.subrange(n - k, n as int),
                    start_time: earliest(matched, BEGIN_LABEL@, VALUE_END@, 0),
                    end_time: latest(matched, END_LABEL@, VALUE_END@, 0),
                },
            ),
        )
    }
}

/// What a restart or new-reward extraction yields for lines tagged `tag`
/// whose fields follow `prefix`: nothing when the farm program is not
/// mentioned or no line carries the tag; an error when the user or farm
/// account is missing; else the period of the event.
pub open spec fn period_outcome(
    lines: Seq<Seq<char>>,
    signature: Seq<char>,
    accounts: Seq<Seq<char>>,
    tag: Seq<char>,
    prefix: Seq<char>,
) -> Result<Option<PeriodView>, ()> {
    let matched = matching_lines(lines, tag);
    if !mentions_program(lines) || matched.len() == 0 {
        Ok(None)
    } else if accounts.len() < 2 {
        Err(())
    } else {
        Ok(
            Some(
                PeriodView {
                    signature,
                    user: accounts[0],
                    farm_id: accounts[1],
                    start_time: earliest(matched, prefix, FIELD_SEPARATOR@, START_FIELD as nat),
                    end_time: latest(matched, prefix, FIELD_SEPARATOR@, END_FIELD as nat),
                },
            ),
        )
    }
}

/// The characters of each line, in order.
pub fn lines_of(log_messages: &Vec<String>) -> (r: Vec<Vec<char>>)
    ensures
        char_lines(r@) == texts(log_messages@),
{
    let mut r: Vec<Vec<char>> = Vec::new();
    let mut i: usize = 0;
    while i < log_messages.len()
        invariant
            i <= log_messages.len(),
            r.len() == i,
            char_lines(r@) == texts(log_messages@).take(i as int),
        decreases log_messages.len() - i,
    {
        let ghost prev = r@;
        let line = chars_of(log_messages[i].as_str());
        assert(line@ == log_messages@[i as int]@);
        r.push(line);
        assert(char_lines(r@) =~= texts(log_messages@).take(i + 1));
        i = i + 1;
    }
    assert(texts(log_messages@).take(log_messages.len() as int) =~= texts(log_messages@));
    r
}

/// Whether some line mentions the farm program.
pub fn mentions_program_exec(lines: &Vec<Vec<char>>) -> (r: bool)
    ensures
        r == mentions_program(char_lines(lines@)),
{
    let id = chars_of(FARM_PROGRAM_ID);
    let mut i: usize = 0;
    while i < lines.len()
        invariant
            i <= lines.len(),
            id@ == FARM_PROGRAM_ID@,
            forall|j: int| 0 <= j < i ==> !contains(#[trigger] char_lines(lines@)[j], FARM_PROGRAM_ID@),
        decreases lines.len() - i,
    {
        if contains_exec(&lines[i], &id) {
            assert(contains(char_lines(lines@)[i as int], FARM_PROGRAM_ID@));
            return true;
        }
        i = i + 1;
    }
    false
}

/// The lines that contain `tag`, in order.
pub fn matching_lines_exec(lines: &Vec<Vec<char>>, tag: &Vec<char>) -> (r: Vec<Vec<char>>)
    ensures
        char_lines(r@) == matching_lines(char_lines(lines@), tag@),
{
    let ghost ls = char_lines(lines@);
    let mut r: Vec<Vec<char>> = Vec::new();
    let mut i: usize = 0;
    while i < lines.len()
        invariant
            i <= lines.len(),
            ls == char_lines(lines@),
            char_lines(r@) == matching_lines(ls.take(i as int), tag@),
        decreases lines.len() - i,
    {
        assert(ls.take(i + 1).drop_last() == ls.take(i as int));
        assert(ls.take(i + 1).last() == lines[i as int]@);
        if contains_exec(&lines[i], tag) {
            r.push(lines[i].clone());
        }
        i = i + 1;
    }
    assert(ls.take(lines.len() as int) == ls);
    r
}

/// The abstract outcome of an initialize extraction.
pub open spec fn initialize_result_view(r: Result<Option<InitializeTransaction>, String>) -> Result<
    Option<InitializeView>,
    (),
> {
    match r {
        Ok(Some(e)) => Ok(Some(e@)),
        Ok(None) => Ok(None),
        Err(_) => Err(()),
    }
}

/// The abstract outcome of a restart-or-add extraction.
pub open spec fn restart_result_view(r: Result<Option<RestartOrAddTransaction>, String>) -> Result<
    Option<PeriodView>,
    (),
> {
    match r {
        Ok(Some(e)) => Ok(Some(e@)),
        Ok(None) => Ok(None),
        Err(_) => Err(()),
    }
}

/// The abstract outcome of a new-reward extraction.
pub open spec fn new_reward_result_view(r: Result<Option<NewRewardTransaction>, String>) -> Result<
    Option<PeriodView>,
    (),
> {
    match r {
        Ok(Some(e)) => Ok(Some(e@)),
        Ok(None) => Ok(None),
        Err(_) => Err(()),
    }
}

/// The user and the farm of an instruction: the first two accounts.
pub fn user_and_farm(accounts: &Vec<String>) -> (r: Option<(String, String)>)
    ensures
        r is Some <==> accounts.len() >= 2,
        r matches Some(p) ==> p.0@ == accounts@[0]@ && p.1@ == accounts@[1]@,
{
    if accounts.len() < 2 {
        None
    } else {
        Some((accounts[0].clone(), accounts[1].clone()))
    }
}

/// The account layout of an initialize instruction that reports `k` reward
/// tokens: the reward mints are the last `k` accounts, in order, and the LP
/// mint is the account just before them. `None` when the list has no room
/// for the LP mint.
pub fn reward_layout(accounts: &Vec<String>, k: usize) -> (r: Option<(String, Vec<String>)>)
    ensures
        r is Some <==> k < accounts.len(),
        r matches Some(p) ==> p.0@ == accounts@[accounts.len() - 1 - k]@ && texts(p.1@)
            == texts(accounts@).subrange(accounts.len() - k, accounts.len() as int),
{
    if k >= accounts.len() {
        return None;
    }
    let n = accounts.len();
    let lp_mint = accounts[n - 1 - k].clone();
    let mut mints: Vec<String> = Vec::new();
    let mut i: usize = n - k;
    while i < n
        invariant
            n - k <= i <= n,
            n == accounts.len(),
            mints.len() == i - (n - k),
            k < n,
            texts(accounts@).len() == n,
            texts(mints@) == texts(accounts@).subrange(n - k, i as int),
        decreases n - i,
    {
        mints.push(accounts[i].clone());
        assert(texts(mints@) =~= texts(accounts@).subrange(n - k, i + 1));
        i = i + 1;
    }
    Some((lp_mint, mints))
}

/// Reads the initialize event of a transaction from its log lines: one
/// reward token per line carrying the initialize tag, the reward mints taken
/// from the end of the account list, the start time the earliest `begin:`
/// value and the end time the latest `end:` value.
pub fn process_initialize(log_messages: &Vec<String>, signature: &String, accounts: &Vec<String>) -> (r:
    Result<Option<InitializeTransaction>, String>)
    ensures
        initialize_result_view(r) == initialize_outcome(
            texts(log_messages@),
            signature@,
            texts(accounts@),
        ),
        r matches Err(e) ==> e@ == MISSING_ACCOUNTS@,
{
    let lines = lines_of(log_messages);
    if !mentions_program_exec(&lines) {
        return Ok(None);
    }
    let matched = matching_lines_exec(&lines, &chars_of(INITIALIZE_TAG));
    let k = matched.len();
    if k == 0 {
        return Ok(None);
    }
    let (lp_mint, reward_mints) = match reward_layout(accounts, k) {
        Some(layout) => layout,
        None => {
            return Err(MISSING_ACCOUNTS.to_owned());
        },
    };
    let user = accounts[0].clone();
    let farm_id = accounts[1].clone();
    let start_time = earliest_time(&matched, &chars_of(BEGIN_LABEL), &chars_of(VALUE_END), 0);
    let end_time = latest_time(&matched, &chars_of(END_LABEL), &chars_of(VALUE_END), 0);
    Ok(
        Some(
            InitializeTransaction {
                signature: signature.clone(),
                farm_id,
                user,
                lp_mint,
                reward_mints,
                start_time,
                end_time,
            },
        ),
    )
}

/// The user, farm, start time and end time of a restart or new-reward event
/// whose lines carry `tag` and whose fields follow `prefix`.
fn period_fields(log_messages: &Vec<String>, accounts: &Vec<String>, tag: &str, prefix: &str) -> (r:
    Result<Option<(String, String, u32, u32)>, String>)
    ensures
        period_outcome(texts(log_messages@), Seq::empty(), texts(accounts@), tag@, prefix@) == match r {
            Ok(Some(f)) => Ok(
                Some(
                    PeriodView {
                        signature: Seq::empty(),
                        user: f.0@,
                        farm_id: f.1@,
                        start_time: f.2,
                        end_time: f.3,
                    },
                ),
            ),
            Ok(None) => Ok(None),
            Err(_) => Err(()),
        },
        r matches Err(e) ==> e@ == MISSING_USER_OR_FARM@,
{
    let lines = lines_of(log_messages);
    if !mentions_program_exec(&lines) {
        return Ok(None);
    }
    let matched = matching_lines_exec(&lines, &chars_of(tag));
    if matched.len() == 0 {
        return Ok(None);
    }
    let (user, farm_id) = match user_and_farm(accounts) {
        Some(pair) => pair,
        None => {
            return Err(MISSING_USER_OR_FARM.to_owned());
        },
    };
    let prefix_chars = chars_of(prefix);
    let separator = chars_of(FIELD_SEPARATOR);
    let start_time = earliest_time(&matched, &prefix_chars, &separator, START_FIELD);
    let end_time = latest_time(&matched, &prefix_chars, &separator, END_FIELD);
    Ok(Some((user, farm_id, start_time, end_time)))
}

/// Reads the restart-or-add event of a transaction from its log lines
/// (`process_creator_restart: <account>, <start>, <end>, <n>`): the start
/// time is the earliest start field, the end time the latest end field.
pub fn process_restart_or_add(
    log_messages: &Vec<String>,
    signature: &String,
    accounts: &Vec<String>,
) -> (r: Result<Option<RestartOrAddTransaction>, String>)
    ensures
        restart_result_view(r) == period_outcome(
            texts(log_messages@),
            signature@,
            texts(accounts@),
            RESTART_TAG@,
            RESTART_PREFIX@,
        ),
        r matches Err(e) ==> e@ == MISSING_USER_OR_FARM@,
{
    match period_fields(log_messages, accounts, RESTART_TAG, RESTART_PREFIX) {
        Ok(Some((user, farm_id, start_time, end_time))) => Ok(
            Some(
                RestartOrAddTransaction {
                    signature: signature.clone(),
                    farm_id,
                    user,
                    start_time,
                    end_time,
                },
            ),
        ),
        Ok(None) => Ok(None),
        Err(e) => Err(e),
    }
}

/// Reads the new-reward event of a transaction from its log lines
/// (`process_admin_add_reward_token: <account>, <start>, <end>, ...`): the
/// start time is the earliest start field, the end time the latest end field.
pub fn process_new_reward(
    log_messages: &Vec<String>,
    signature: &String,
    accounts: &Vec<String>,
) -> (r: Result<Option<NewRewardTransaction>, String>)
    ensures
        new_reward_result_view(r) == period_outcome(
            texts(log_messages@),
            signature@,
            texts(accounts@),
            NEW_REWARD_TAG@,
            NEW_REWARD_PREFIX@,
        ),
        r matches Err(e) ==> e@ == MISSING_USER_OR_FARM@,
{
    match period_fields(log_messages, accounts, NEW_REWARD_TAG, NEW_REWARD_PREFIX) {
        Ok(Some((user, farm_id, start_time, end_time))) => Ok(
            Some(
                NewRewardTransaction {
                    signature: signature.clone(),
                    farm_id,
                    user,
                    start_time,
                    end_time,
                },
            ),
        ),
        Ok(None) => Ok(None),
        Err(e) => Err(e),
    }
}

/// No line is selected for a tag that no line contains.
proof fn lemma_no_matching_lines(lines: Seq<Seq<char>>, tag: Seq<char>)
    requires
        forall|i: int| 0 <= i < lines.len() ==> !contains(#[trigger] lines[i], tag),
    ensures
        matching_lines(lines, tag).len() == 0,
    decreases lines.len(),
{
    if lines.len() > 0 {
        let init = lines.drop_last();
        assert forall|i: int| 0 <= i < init.len() implies !contains(#[trigger] init[i], tag) by {
            assert(init[i] == lines[i]);
        }
        assert(lines.last() == lines[lines.len() - 1]);
        lemma_no_matching_lines(init, tag);
    }
}

/// When no log line carries any of the three event tags, none of the three
/// extractions yields an event (nor an error).
pub proof fn lemma_untagged_lines_give_no_event(
    lines: Seq<Seq<char>>,
    signature: Seq<char>,
    accounts: Seq<Seq<char>>,
)
    requires
        forall|i: int|
            0 <= i < lines.len() ==> !contains(#[trigger] lines[i], INITIALIZE_TAG@) && !contains(
                lines[i],
                RESTART_TAG@,
            ) && !contains(lines[i], NEW_REWARD_TAG@),
    ensures
        initialize_outcome(lines, signature, accounts) == Ok::<Option<InitializeView>, ()>(None),
        period_outcome(lines, signature, accounts, RESTART_TAG@, RESTART_PREFIX@) == Ok::<
            Option<PeriodView>,
            (),
        >(None),
        period_outcome(lines, signature, accounts, NEW_REWARD_TAG@, NEW_REWARD_PREFIX@) == Ok::<
            Option<PeriodView>,
            (),
        >(None),
{
    lemma_no_matching_lines(lines, INITIALIZE_TAG@);
    lemma_no_matching_lines(lines, RESTART_TAG@);
    lemma_no_matching_lines(lines, NEW_REWARD_TAG@);
}

/// With `k` lines carrying the initialize tag and more than `k` accounts, an
/// initialize extraction that yields an event has exactly `k` reward mints,
/// the last `k` accounts in order; it yields one whenever the farm program
/// is mentioned.
pub proof fn lemma_reward_mints_are_last_accounts(
    lines: Seq<Seq<char>>,
    signature: Seq<char>,
    accounts: Seq<Seq<char>>,
    k: nat,
)
    requires
        matching_lines(lines, INITIALIZE_TAG@).len() == k,
        k > 0,
        accounts.len() > k,
    ensures
        mentions_program(lines) ==> initialize_outcome(lines, signature, accounts) matches Ok(Some(_)),
        initialize_outcome(lines, signature, accounts) matches Ok(Some(e)) ==> e.reward_mints.len()
            == k && e.reward_mints == accounts.subrange(accounts.len() - k, accounts.len() as int),
{
}

/// Running the extractors twice on the same transaction gives the same
/// outcomes, field for field.
pub proof fn lemma_extraction_is_repeatable(
    lines: Seq<Seq<char>>,
    signature: Seq<char>,
    accounts: Seq<Seq<char>>,
    first_init: Result<Option<InitializeTransaction>, String>,
    second_init: Result<Option<InitializeTransaction>, String>,
    first_restart: Result<Option<RestartOrAddTransaction>, String>,
    second_restart: Result<Option<RestartOrAddTransaction>, String>,
    first_reward: Result<Option<NewRewardTransaction>, String>,
    second_reward: Result<Option<NewRewardTransaction>, String>,
)
    requires
        initialize_result_view(first_init) == initialize_outcome(lines, signature, accounts),
        initialize_result_view(second_init) == initialize_outcome(lines, signature, accounts),
        restart_result_view(first_restart) == period_outcome(
            lines,
            signature,
            accounts,
            RESTART_TAG@,
            RESTART_PREFIX@,
        ),
        restart_result_view(second_restart) == period_outcome(
            lines,
            signature,
            accounts,
            RESTART_TAG@,
            RESTART_PREFIX@,
        ),
        new_reward_result_view(first_reward) == period_outcome(
            lines,
            signature,
            accounts,
            NEW_REWARD_TAG@,
            NEW_REWARD_PREFIX@,
        ),
        new_reward_result_view(second_reward) == period_outcome(
            lines,
            signature,
            accounts,
            NEW_REWARD_TAG@,
            NEW_REWARD_PREFIX@,
        ),
    ensures
        initialize_result_view(first_init) == initialize_result_view(second_init),
        restart_result_view(first_restart) == restart_result_view(second_restart),
        new_reward_result_view(first_reward) == new_reward_result_view(second_reward),
{
}

} // verus!
