//! What health factors and scans come to, told by the answers themselves.

use crate::address::Address;
use crate::call::Message;
use crate::health::{
    answers, health_outcome, health_reply_at, is_first_lending_failure,
    is_lending_failure, law_outcome_is_lowest, lending_queries, next_query,
    perp_queries, reported_health, reported_healths, returns_outcome, HealthQuery,
    HealthReply,
};
use crate::liquidation_monitor::{
    law_scan_reports_every_account, law_scan_reports_nothing_else, risk_events,
    LiquidationMonitorState, MonitorEvent,
};
use crate::registry::Entry;
use crate::word::{group_word, U256};
use vstd::prelude::*;
use vstd::string::StringSliceAdditionalSpecFns;

verus! {

broadcast use group_word;

/// The health factor of an account is no more than what any protocol answered, and it
/// is what one of them answered: the sixth field of an account's data in a lending
/// protocol, the number itself in a perpetuals protocol.
pub proof fn law_health_is_the_lowest_answer(
    queries: Seq<HealthQuery>,
    replies: Seq<HealthReply>,
    r: Result<U256, Vec<u8>>,
    k: int,
)
    requires
        returns_outcome(r, health_outcome(queries, replies)),
        r is Ok,
    ensures
        0 <= k < queries.len() && queries[k] is AccountData ==> k < replies.len() && (replies[k]
            matches HealthReply::AccountData(data) && r->Ok_0@ <= data.health_factor@),
        0 <= k < queries.len() && queries[k] is AccountHealth && k < replies.len() ==> (replies[k]
            matches HealthReply::Health(hf) ==> r->Ok_0@ <= hf@),
        exists|j: int|
            0 <= j < queries.len() && j < replies.len() && match (
                #[trigger] queries[j],
                replies[j],
            ) {
                (HealthQuery::AccountData { .. }, HealthReply::AccountData(data)) => r->Ok_0
                    == data.health_factor,
                (HealthQuery::AccountHealth { .. }, HealthReply::Health(hf)) => r->Ok_0 == hf,
                _ => false,
            },
{
    law_outcome_is_lowest(queries, replies, k);
    let healths = reported_healths(queries, replies);
    let hf = r->Ok_0;
    let i = choose|i: int| 0 <= i < healths.len() && healths[i] == hf;
    let j = lemma_listed_was_reported(queries, replies, i);
}

/// A health factor in the list was reported.
proof fn lemma_listed_was_reported(
    queries: Seq<HealthQuery>,
    replies: Seq<HealthReply>,
    i: int,
) -> (k: int)
    requires
        0 <= i < reported_healths(queries, replies).len(),
    ensures
        0 <= k < queries.len(),
        reported_health(queries[k], health_reply_at(replies, k)) == Some(
            reported_healths(queries, replies)[i],
        ),
    decreases queries.len(),
{
    let before = reported_healths(queries.drop_last(), replies);
    if i < before.len() {
        lemma_listed_was_reported(queries.drop_last(), replies, i)
    } else {
        queries.len() - 1
    }
}

/// A health factor that was reported is in the list.
proof fn lemma_reported_was_listed(queries: Seq<HealthQuery>, replies: Seq<HealthReply>, k: int)
    requires
        0 <= k < queries.len(),
        reported_health(queries[k], health_reply_at(replies, k)) is Some,
    ensures
        reported_healths(queries, replies).len() > 0,
    decreases queries.len(),
{
    if k < queries.len() - 1 {
        lemma_reported_was_listed(queries.drop_last(), replies, k);
    }
}

/// There is a health factor if and only if every lending protocol that was asked
/// answered with the account's data, and some protocol answered at all.
pub proof fn law_health_is_had_when_lending_answers(
    queries: Seq<HealthQuery>,
    replies: Seq<HealthReply>,
    r: Result<U256, Vec<u8>>,
)
    requires
        returns_outcome(r, health_outcome(queries, replies)),
    ensures
        r is Ok <==> {
            &&& forall|k: int|
                0 <= k < queries.len() && #[trigger] queries[k] is AccountData ==> k
                    < replies.len() && replies[k] is AccountData
            &&& exists|k: int|
                0 <= k < queries.len() && k < replies.len() && (#[trigger] queries[k] is AccountData
                    && replies[k] is AccountData || queries[k] is AccountHealth
                    && replies[k] is Health)
        },
{
    if r is Ok {
        law_health_is_the_lowest_answer(queries, replies, r, 0);
        assert forall|k: int| 0 <= k < queries.len() && #[trigger] queries[k] is AccountData implies
            k < replies.len() && replies[k] is AccountData by {
            law_health_is_the_lowest_answer(queries, replies, r, k);
        }
    }
    if (forall|k: int|
        0 <= k < queries.len() && #[trigger] queries[k] is AccountData ==> k < replies.len()
            && replies[k] is AccountData) && exists|k: int|
        0 <= k < queries.len() && k < replies.len() && (#[trigger] queries[k] is AccountData
            && replies[k] is AccountData || queries[k] is AccountHealth && replies[k] is Health) {
        let k = choose|k: int|
            0 <= k < queries.len() && k < replies.len() && (#[trigger] queries[k] is AccountData
                && replies[k] is AccountData || queries[k] is AccountHealth
                && replies[k] is Health);
        lemma_reported_was_listed(queries, replies, k);
        assert forall|j: int| !is_first_lending_failure(queries, replies, j) by {
            if is_first_lending_failure(queries, replies, j) {
                assert(queries[j] is AccountData);
            }
        }
    }
}

/// Where a single question was answered, the answer is the health factor, whatever
/// number it is.
pub proof fn law_single_answer_is_the_health_factor(
    queries: Seq<HealthQuery>,
    replies: Seq<HealthReply>,
    r: Result<U256, Vec<u8>>,
    k: int,
)
    requires
        returns_outcome(r, health_outcome(queries, replies)),
        0 <= k < queries.len(),
        k < replies.len(),
        forall|j: int|
            0 <= j < queries.len() && j != k ==> #[trigger] queries[j] is AccountHealth && !(j
                < replies.len() && replies[j] is Health),
    ensures
        match (queries[k], replies[k]) {
            (HealthQuery::AccountData { .. }, HealthReply::AccountData(data)) => r == Ok::<
                U256,
                Vec<u8>,
            >(data.health_factor),
            (HealthQuery::AccountHealth { .. }, HealthReply::Health(hf)) => r == Ok::<
                U256,
                Vec<u8>,
            >(hf),
            _ => r is Err,
        },
{
    law_health_is_had_when_lending_answers(queries, replies, r);
    assert(queries[k] == queries[k]);
    if r is Ok {
        law_health_is_the_lowest_answer(queries, replies, r, k);
        let j = choose|j: int|
            0 <= j < queries.len() && j < replies.len() && match (
                #[trigger] queries[j],
                replies[j],
            ) {
                (HealthQuery::AccountData { .. }, HealthReply::AccountData(data)) => r->Ok_0
                    == data.health_factor,
                (HealthQuery::AccountHealth { .. }, HealthReply::Health(hf)) => r->Ok_0 == hf,
                _ => false,
            };
        assert(j == k);
    }
}

/// The first lending protocol that did not answer with the account's data decides:
/// the data that its call failed with is what comes back.
pub proof fn law_first_lending_failure_decides(
    queries: Seq<HealthQuery>,
    replies: Seq<HealthReply>,
    r: Result<U256, Vec<u8>>,
    k: int,
)
    requires
        returns_outcome(r, health_outcome(queries, replies)),
        0 <= k < queries.len(),
        queries[k] is AccountData,
        !(k < replies.len() && replies[k] is AccountData),
        forall|j: int|
            0 <= j < k && #[trigger] queries[j] is AccountData ==> j < replies.len()
                && replies[j] is AccountData,
    ensures
        r matches Err(data) && data@ == if k < replies.len() {
            match replies[k] {
                HealthReply::Failed(failure) => failure@,
                _ => seq![],
            }
        } else {
            seq![]
        },
{
    assert forall|j: int| 0 <= j < k implies !is_lending_failure(queries, replies, j) by {
        assert(queries[j] == queries[j]);
    }
    assert(is_first_lending_failure(queries, replies, k));
    let first = choose|j: int| is_first_lending_failure(queries, replies, j);
    assert(first == k) by {
        if first < k {
            assert(!is_lending_failure(queries, replies, first));
        } else if k < first {
            assert(!is_lending_failure(queries, replies, k));
        }
    }
}

/// Where no lending protocol was asked and no perpetuals protocol answered, that is
/// what comes back.
pub proof fn law_without_answers_there_is_no_health(
    queries: Seq<HealthQuery>,
    replies: Seq<HealthReply>,
    r: Result<U256, Vec<u8>>,
)
    requires
        returns_outcome(r, health_outcome(queries, replies)),
        forall|j: int|
            0 <= j < queries.len() ==> #[trigger] queries[j] is AccountHealth && !(j
                < replies.len() && replies[j] is Health),
    ensures
        r matches Err(data) && data@ == "no protocols registered".spec_bytes(),
{
    assert forall|j: int| !is_first_lending_failure(queries, replies, j) by {
        if is_first_lending_failure(queries, replies, j) {
            assert(queries[j] is AccountData);
        }
    }
    let healths = reported_healths(queries, replies);
    if healths.len() > 0 {
        let j = lemma_listed_was_reported(queries, replies, 0);
        assert(queries[j] is AccountHealth);
    }
}

/// Who is asked about an account: the active lending protocols of type 0, in the order
/// in which they were registered, and then the active perpetuals protocols of type 0,
/// in theirs; each once, at its own address and about this account.
pub proof fn law_protocols_are_asked_in_order(s: LiquidationMonitorState, account: Address)
    ensures
        s.queries(account) == s.lending.filter(
            |e: Entry| e.active && e.kind.limbs@[0] == 0,
        ).map_values(|e: Entry| HealthQuery::AccountData { pool: e.address, account })
            + s.perps.filter(|e: Entry| e.active && e.kind.limbs@[0] == 0).map_values(
            |e: Entry| HealthQuery::AccountHealth { reader: e.address, account },
        ),
{
    let asked = |e: Entry| e.active && e.kind.limbs@[0] == 0;
    lemma_lending_in_order(s.lending, account, asked);
    lemma_perps_in_order(s.perps, account, asked);
    assert(s.queries(account) =~= s.lending.filter(asked).map_values(
        |e: Entry| HealthQuery::AccountData { pool: e.address, account },
    ) + s.perps.filter(asked).map_values(
        |e: Entry| HealthQuery::AccountHealth { reader: e.address, account },
    ));
}

proof fn lemma_lending_in_order(
    lending: Seq<Entry>,
    account: Address,
    asked: spec_fn(Entry) -> bool,
)
    requires
        forall|e: Entry| #[trigger] asked(e) <==> e.active && e.kind.limbs@[0] == 0,
    ensures
        lending_queries(lending, account).len() == lending.filter(asked).len(),
        forall|k: int|
            0 <= k < lending.filter(asked).len() ==> #[trigger] lending_queries(lending, account)[k]
                == (HealthQuery::AccountData { pool: lending.filter(asked)[k].address, account }),
    decreases lending.len(),
{
    reveal(Seq::filter);
    if lending.len() > 0 {
        lemma_lending_in_order(lending.drop_last(), account, asked);
        assert(asked(lending.last()) <==> lending.last().active
            && lending.last().kind.limbs@[0] == 0);
        let front = lending.drop_last();
        assert forall|k: int| 0 <= k < lending.filter(asked).len() implies #[trigger]
            lending_queries(lending, account)[k] == (HealthQuery::AccountData {
            pool: lending.filter(asked)[k].address,
            account,
        }) by {
            if k < front.filter(asked).len() {
                assert(lending_queries(front, account)[k] == (HealthQuery::AccountData {
                    pool: front.filter(asked)[k].address,
                    account,
                }));
            }
        }
    }
}

proof fn lemma_perps_in_order(
    perps: Seq<Entry>,
    account: Address,
    asked: spec_fn(Entry) -> bool,
)
    requires
        forall|e: Entry| #[trigger] asked(e) <==> e.active && e.kind.limbs@[0] == 0,
    ensures
        perp_queries(perps, account).len() == perps.filter(asked).len(),
        forall|k: int|
            0 <= k < perps.filter(asked).len() ==> #[trigger] perp_queries(perps, account)[k] == (
            HealthQuery::AccountHealth { reader: perps.filter(asked)[k].address, account }),
    decreases perps.len(),
{
    reveal(Seq::filter);
    if perps.len() > 0 {
        lemma_perps_in_order(perps.drop_last(), account, asked);
        assert(asked(perps.last()) <==> perps.last().active && perps.last().kind.limbs@[0] == 0);
        let front = perps.drop_last();
        assert forall|k: int| 0 <= k < perps.filter(asked).len() implies #[trigger] perp_queries(
            perps,
            account,
        )[k] == (HealthQuery::AccountHealth {
            reader: perps.filter(asked)[k].address,
            account,
        }) by {
            if k < front.filter(asked).len() {
                assert(perp_queries(front, account)[k] == (HealthQuery::AccountHealth {
                    reader: front.filter(asked)[k].address,
                    account,
                }));
            }
        }
    }
}

/// The questions are asked one after the other; once a lending protocol did not answer
/// with the account's data, or every question has a reply, nothing more is asked.
pub proof fn law_questions_are_asked_one_by_one(
    queries: Seq<HealthQuery>,
    replies: Seq<HealthReply>,
)
    ensures
        next_query(queries, replies) == if replies.len() < queries.len() && (forall|k: int|
            0 <= k < replies.len() && #[trigger] queries[k] is AccountData
                ==> replies[k] is AccountData) {
            Some(queries[replies.len() as int])
        } else {
            None::<HealthQuery>
        },
{
    if replies.len() < queries.len() {
        if forall|k: int|
            0 <= k < replies.len() && #[trigger] queries[k] is AccountData
                ==> replies[k] is AccountData {
            assert forall|k: int| 0 <= k < replies.len() implies !is_lending_failure(
                queries,
                replies,
                k,
            ) by {
                assert(queries[k] == queries[k]);
            }
        } else {
            let k = choose|k: int|
                0 <= k < replies.len() && #[trigger] queries[k] is AccountData
                    && !(replies[k] is AccountData);
            assert(is_lending_failure(queries, replies, k));
        }
    }
}

/// How an answer is read: a lending protocol's is six words of 32 bytes, of which the
/// last is the health factor; a perpetuals protocol's is one.  A shorter answer cannot
/// be read, and a failed call keeps its data.
pub proof fn law_answers_are_read_by_words(
    query: HealthQuery,
    returned: Result<Vec<u8>, Vec<u8>>,
    reply: HealthReply,
)
    requires
        answers(query, returned, reply),
    ensures
        match returned {
            Err(data) => reply matches HealthReply::Failed(failure) && failure@ == data@,
            Ok(data) => match query {
                HealthQuery::AccountData { .. } => {
                    let n = |i: int| crate::abi::be_value(data@.subrange(32 * i, 32 * i + 32));
                    &&& reply is AccountData <==> data@.len() >= 192
                    &&& reply is Failed <==> data@.len() < 192
                    &&& reply matches HealthReply::AccountData(account) ==> {
                        &&& account.total_collateral_base@ == n(0)
                        &&& account.total_debt_base@ == n(1)
                        &&& account.available_borrows_base@ == n(2)
                        &&& account.current_liquidation_threshold@ == n(3)
                        &&& account.ltv@ == n(4)
                        &&& account.health_factor@ == n(5)
                    }
                    &&& reply matches HealthReply::Failed(failure) ==> failure@
                        == crate::abi::unreadable()
                },
                HealthQuery::AccountHealth { .. } => {
                    &&& reply is Health <==> data@.len() >= 32
                    &&& reply is Failed <==> data@.len() < 32
                    &&& reply matches HealthReply::Health(hf) ==> hf@ == crate::abi::be_value(
                        data@.subrange(0, 32),
                    )
                    &&& reply matches HealthReply::Failed(failure) ==> failure@
                        == crate::abi::unreadable()
                },
            },
        },
{
}

/// A scan of one account: it is at risk, with its health factor, if that is below the
/// threshold, failed if it has none, and else it is not reported.
pub proof fn law_scan_of_one_account(
    s: LiquidationMonitorState,
    account: Address,
    answered: Vec<HealthReply>,
    r: Result<U256, Vec<u8>>,
)
    requires
        returns_outcome(r, health_outcome(s.queries(account), answered@)),
    ensures
        ({
            let at_risk = s.at_risk(seq![account], seq![answered]);
            let failed = s.failed(seq![account], seq![answered]);
            match r {
                Ok(hf) => {
                    &&& failed.len() == 0
                    &&& hf@ < s.risk_threshold@ ==> at_risk == seq![(account, hf)]
                    &&& hf@ >= s.risk_threshold@ ==> at_risk.len() == 0
                },
                Err(_) => at_risk.len() == 0 && failed == seq![account],
            }
        }),
{
    reveal_with_fuel(LiquidationMonitorState::at_risk, 2);
    reveal_with_fuel(LiquidationMonitorState::failed, 2);
    assert(s.at_risk(seq![account], seq![answered]) =~= match r {
        Ok(hf) => if hf@ < s.risk_threshold@ {
            seq![(account, hf)]
        } else {
            seq![]
        },
        Err(_) => seq![],
    });
    assert(s.failed(seq![account], seq![answered]) =~= match r {
        Ok(_) => seq![],
        Err(_) => seq![account],
    });
}

/// A scan in two parts, each account with its own answers, finds what a scan of all
/// the accounts finds, in the same order.
pub proof fn law_scan_in_parts(
    s: LiquidationMonitorState,
    first: Seq<Address>,
    first_replies: Seq<Vec<HealthReply>>,
    second: Seq<Address>,
    second_replies: Seq<Vec<HealthReply>>,
)
    requires
        first.len() == first_replies.len(),
    ensures
        s.at_risk(first + second, first_replies + second_replies) == s.at_risk(
            first,
            first_replies,
        ) + s.at_risk(second, second_replies),
        s.failed(first + second, first_replies + second_replies) == s.failed(first, first_replies)
            + s.failed(second, second_replies),
    decreases second.len(),
{
    let accounts = first + second;
    let replies = first_replies + second_replies;
    if second.len() == 0 {
        assert(accounts =~= first);
        lemma_scan_agrees(s, first, replies, first_replies);
        assert(s.at_risk(first, first_replies) + s.at_risk(second, second_replies) =~= s.at_risk(
            first,
            first_replies,
        ));
        assert(s.failed(first, first_replies) + s.failed(second, second_replies) =~= s.failed(
            first,
            first_replies,
        ));
    } else {
        law_scan_in_parts(s, first, first_replies, second.drop_last(), second_replies);
        assert(accounts.drop_last() =~= first + second.drop_last());
        let last = second.len() - 1;
        let place = accounts.len() - 1;
        assert(accounts[place] == second[last]);
        if last < second_replies.len() {
            assert(replies[place] == second_replies[last]);
        }
        assert(s.account_outcome(accounts, replies, place) == s.account_outcome(
            second,
            second_replies,
            last,
        ));
        assert(s.at_risk(accounts, replies) =~= s.at_risk(first, first_replies) + s.at_risk(
            second,
            second_replies,
        ));
        assert(s.failed(accounts, replies) =~= s.failed(first, first_replies) + s.failed(
            second,
            second_replies,
        ));
    }
}

/// A scan depends on the replies about its accounts alone.
proof fn lemma_scan_agrees(
    s: LiquidationMonitorState,
    accounts: Seq<Address>,
    a: Seq<Vec<HealthReply>>,
    b: Seq<Vec<HealthReply>>,
)
    requires
        accounts.len() <= a.len(),
        accounts.len() <= b.len(),
        forall|i: int| 0 <= i < accounts.len() ==> a[i] == b[i],
    ensures
        s.at_risk(accounts, a) == s.at_risk(accounts, b),
        s.failed(accounts, a) == s.failed(accounts, b),
    decreases accounts.len(),
{
    if accounts.len() > 0 {
        lemma_scan_agrees(s, accounts.drop_last(), a, b);
    }
}

/// An account that nothing was answered about is judged as one whose questions have no
/// replies.
pub proof fn law_scan_without_answers(
    s: LiquidationMonitorState,
    accounts: Seq<Address>,
    replies: Seq<Vec<HealthReply>>,
    none: Vec<HealthReply>,
)
    requires
        replies.len() < accounts.len(),
        none@.len() == 0,
    ensures
        s.at_risk(accounts, replies) == s.at_risk(accounts, replies.push(none)),
        s.failed(accounts, replies) == s.failed(accounts, replies.push(none)),
{
    lemma_scan_without_answers(s, accounts, replies, none);
}

proof fn lemma_scan_without_answers(
    s: LiquidationMonitorState,
    accounts: Seq<Address>,
    replies: Seq<Vec<HealthReply>>,
    none: Vec<HealthReply>,
)
    requires
        none@.len() == 0,
    ensures
        s.at_risk(accounts, replies) == s.at_risk(accounts, replies.push(none)),
        s.failed(accounts, replies) == s.failed(accounts, replies.push(none)),
    decreases accounts.len(),
{
    if accounts.len() > 0 {
        lemma_scan_without_answers(s, accounts.drop_last(), replies, none);
        assert(none@ =~= seq![]);
    }
}

/// Each account is judged by its own answers: what `get_health_factor` returns for it
/// on them decides whether it is at risk, and with which health factor, or failed.
pub proof fn law_account_is_judged_by_its_own_answers(
    s: LiquidationMonitorState,
    accounts: Seq<Address>,
    replies: Seq<Vec<HealthReply>>,
    i: int,
    r: Result<U256, Vec<u8>>,
)
    requires
        0 <= i < accounts.len(),
        i < replies.len(),
        returns_outcome(r, health_outcome(s.queries(accounts[i]), replies[i]@)),
    ensures
        match r {
            Ok(hf) => hf@ < s.risk_threshold@ ==> s.at_risk(accounts, replies).contains(
                (accounts[i], hf),
            ),
            Err(_) => s.failed(accounts, replies).contains(accounts[i]),
        },
        accounts.no_duplicates() ==> {
            &&& s.failed(accounts, replies).contains(accounts[i]) ==> r is Err
            &&& forall|hf: U256|
                #[trigger] s.at_risk(accounts, replies).contains((accounts[i], hf)) ==> r == Ok::<
                    U256,
                    Vec<u8>,
                >(hf) && hf@ < s.risk_threshold@
        },
{
    law_scan_reports_every_account(s, accounts, replies, i);
    if accounts.no_duplicates() {
        let at_risk = s.at_risk(accounts, replies);
        let failed = s.failed(accounts, replies);
        if failed.contains(accounts[i]) {
            let k = choose|k: int| 0 <= k < failed.len() && failed[k] == accounts[i];
            law_scan_reports_nothing_else(s, accounts, replies, k);
        }
        assert forall|hf: U256| #[trigger] at_risk.contains((accounts[i], hf)) implies r == Ok::<
            U256,
            Vec<u8>,
        >(hf) && hf@ < s.risk_threshold@ by {
            let k = choose|k: int| 0 <= k < at_risk.len() && at_risk[k] == (accounts[i], hf);
            law_scan_reports_nothing_else(s, accounts, replies, k);
        }
    }
}

/// The scan of the tracked accounts reports each account at risk once, in order, with
/// its health factor and the time of the block.
pub proof fn law_risk_is_reported(at_risk: Seq<(Address, U256)>, msg: Message, i: int)
    requires
        0 <= i < at_risk.len(),
    ensures
        risk_events(at_risk, msg).len() == at_risk.len(),
        risk_events(at_risk, msg)[i] matches MonitorEvent::AccountAtRisk {
            account,
            health_factor,
            timestamp,
        } && account == at_risk[i].0 && health_factor == at_risk[i].1 && timestamp@
            == msg.timestamp,
{
}

} // verus!
