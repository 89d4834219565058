//! Health factors: what the protocols are asked about an account, and what their
//! answers come to.

use crate::abi::{
    address_word, alloy_decode_six_uints, alloy_decode_uint, alloy_encode_address, calldata,
    selector, stylus_decoding_failed, unreadable, word_value,
};
use crate::address::Address;
use crate::registry::{kind_number, Entry};
use crate::word::{group_word, lemma_word_injective, U256};
use vstd::prelude::*;
use vstd::string::StringSliceAdditionalSpecFns;

verus! {

broadcast use group_word;

/// A lending protocol that speaks the Aave V3 pool interface.
pub const LENDING_TYPE_AAVE_V3: u64 = 0;

/// A perpetuals protocol that speaks the GMX V2 reader interface.
pub const PERP_TYPE_GMX_V2: u64 = 0;

/// A question to a protocol about an account.
#[derive(Clone, Copy, Debug)]
pub enum HealthQuery {
    /// `getUserAccountData` of an Aave V3 pool.
    AccountData { pool: Address, account: Address },
    /// `getAccountHealth` of a perpetuals reader.
    AccountHealth { reader: Address, account: Address },
}

impl HealthQuery {
    /// Whom the question goes to.
    pub fn target(&self) -> (r: Address)
        ensures
            match *self {
                HealthQuery::AccountData { pool, .. } => r == pool,
                HealthQuery::AccountHealth { reader, .. } => r == reader,
            },
    {
        match *self {
            HealthQuery::AccountData { pool, .. } => pool,
            HealthQuery::AccountHealth { reader, .. } => reader,
        }
    }

    /// The question as calldata.
    pub fn calldata(&self) -> (r: Vec<u8>)
        ensures
            match *self {
                HealthQuery::AccountData { account, .. } => r@ == selector(
                    "getUserAccountData(address)",
                ) + address_word(account),
                HealthQuery::AccountHealth { account, .. } => r@ == selector(
                    "getAccountHealth(address)",
                ) + address_word(account),
            },
    {
        match *self {
            HealthQuery::AccountData { account, .. } => calldata(
                "getUserAccountData(address)",
                alloy_encode_address(account),
            ),
            HealthQuery::AccountHealth { account, .. } => calldata(
                "getAccountHealth(address)",
                alloy_encode_address(account),
            ),
        }
    }

    /// What came back, read as an answer to this question.
    pub fn read(&self, returned: Result<Vec<u8>, Vec<u8>>) -> (r: HealthReply)
        ensures
            answers(*self, returned, r),
    {
        let data = match returned {
            Err(data) => {
                return HealthReply::Failed(data);
            },
            Ok(data) => data,
        };
        match *self {
            HealthQuery::AccountData { .. } => match alloy_decode_six_uints(&data) {
                Some(ns) => HealthReply::AccountData(
                    AccountData {
                        total_collateral_base: ns[0],
                        total_debt_base: ns[1],
                        available_borrows_base: ns[2],
                        current_liquidation_threshold: ns[3],
                        ltv: ns[4],
                        health_factor: ns[5],
                    },
                ),
                None => HealthReply::Failed(stylus_decoding_failed()),
            },
            HealthQuery::AccountHealth { .. } => match alloy_decode_uint(&data) {
                Some(hf) => HealthReply::Health(hf),
                None => HealthReply::Failed(stylus_decoding_failed()),
            },
        }
    }
}

/// Whether `reply` is what `returned` says in answer to `query`.  A call that failed
/// keeps the data it failed with; an answer that is too short cannot be read.
pub open spec fn answers(
    query: HealthQuery,
    returned: Result<Vec<u8>, Vec<u8>>,
    reply: HealthReply,
) -> bool {
    match (query, returned) {
        (_, Err(data)) => reply matches HealthReply::Failed(d) && d@ == data@,
        (HealthQuery::AccountData { .. }, Ok(data)) => if data@.len() < 192 {
            reply matches HealthReply::Failed(d) && d@ == unreadable()
        } else {
            &&& reply matches HealthReply::AccountData(account)
            &&& account.total_collateral_base@ == word_value(data@, 0)
            &&& account.total_debt_base@ == word_value(data@, 1)
            &&& account.available_borrows_base@ == word_value(data@, 2)
            &&& account.current_liquidation_threshold@ == word_value(data@, 3)
            &&& account.ltv@ == word_value(data@, 4)
            &&& account.health_factor@ == word_value(data@, 5)
        },
        (HealthQuery::AccountHealth { .. }, Ok(data)) => if data@.len() < 32 {
            reply matches HealthReply::Failed(d) && d@ == unreadable()
        } else {
            reply matches HealthReply::Health(hf) && hf@ == word_value(data@, 0)
        },
    }
}

/// What an Aave V3 pool knows of an account.
#[derive(Clone, Copy, Debug)]
pub struct AccountData {
    pub total_collateral_base: U256,
    pub total_debt_base: U256,
    pub available_borrows_base: U256,
    pub current_liquidation_threshold: U256,
    pub ltv: U256,
    pub health_factor: U256,
}

/// What a protocol answered.
#[derive(Debug)]
pub enum HealthReply {
    /// The call failed; the data is what it failed with.
    Failed(Vec<u8>),
    /// The account's data in an Aave V3 pool.
    AccountData(AccountData),
    /// The account's health factor in a perpetuals protocol.
    Health(U256),
}

/// The health factor that a reply gives, if it answers the question.
pub open spec fn reported_health(query: HealthQuery, reply: Option<HealthReply>) -> Option<U256> {
    match (query, reply) {
        (HealthQuery::AccountData { .. }, Some(HealthReply::AccountData(data))) => Some(
            data.health_factor,
        ),
        (HealthQuery::AccountHealth { .. }, Some(HealthReply::Health(hf))) => Some(hf),
        _ => None,
    }
}

/// What a call failed with; nothing where there was no reply to the question.
pub open spec fn failure_data(reply: Option<HealthReply>) -> Seq<u8> {
    match reply {
        Some(HealthReply::Failed(data)) => data@,
        _ => seq![],
    }
}

/// The reply to question number `k`, if there is one.
pub open spec fn health_reply_at(replies: Seq<HealthReply>, k: int) -> Option<HealthReply> {
    if 0 <= k < replies.len() {
        Some(replies[k])
    } else {
        None
    }
}

/// The questions to the lending protocols.
pub open spec fn lending_queries(lending: Seq<Entry>, account: Address) -> Seq<HealthQuery>
    decreases lending.len(),
{
    if lending.len() == 0 {
        seq![]
    } else {
        let before = lending_queries(lending.drop_last(), account);
        if lending.last().active && kind_number(lending.last()) == LENDING_TYPE_AAVE_V3 {
            before.push(HealthQuery::AccountData { pool: lending.last().address, account })
        } else {
            before
        }
    }
}

/// The questions to the perpetuals protocols.
pub open spec fn perp_queries(perps: Seq<Entry>, account: Address) -> Seq<HealthQuery>
    decreases perps.len(),
{
    if perps.len() == 0 {
        seq![]
    } else {
        let before = perp_queries(perps.drop_last(), account);
        if perps.last().active && kind_number(perps.last()) == PERP_TYPE_GMX_V2 {
            before.push(HealthQuery::AccountHealth { reader: perps.last().address, account })
        } else {
            before
        }
    }
}

/// Every question about an account: the active protocols of a known type, lending
/// first.
pub open spec fn health_queries(lending: Seq<Entry>, perps: Seq<Entry>, account: Address) -> Seq<
    HealthQuery,
> {
    lending_queries(lending, account) + perp_queries(perps, account)
}

/// Whether question `k` went to a lending protocol and was not answered.
pub open spec fn is_lending_failure(
    queries: Seq<HealthQuery>,
    replies: Seq<HealthReply>,
    k: int,
) -> bool {
    &&& 0 <= k < queries.len()
    &&& queries[k] is AccountData
    &&& reported_health(queries[k], health_reply_at(replies, k)) is None
}

/// Whether `k` is the first lending protocol that did not answer.
pub open spec fn is_first_lending_failure(
    queries: Seq<HealthQuery>,
    replies: Seq<HealthReply>,
    k: int,
) -> bool {
    &&& is_lending_failure(queries, replies, k)
    &&& forall|j: int| 0 <= j < k ==> !is_lending_failure(queries, replies, j)
}

/// The health factors that were reported, in the order of the questions.
pub open spec fn reported_healths(queries: Seq<HealthQuery>, replies: Seq<HealthReply>) -> Seq<
    U256,
>
    decreases queries.len(),
{
    if queries.len() == 0 {
        seq![]
    } else {
        let before = reported_healths(queries.drop_last(), replies);
        match reported_health(queries.last(), health_reply_at(replies, queries.len() - 1)) {
            Some(hf) => before.push(hf),
            None => before,
        }
    }
}

/// Whether `hf` is the lowest of the health factors.
pub open spec fn is_lowest(healths: Seq<U256>, hf: U256) -> bool {
    &&& healths.contains(hf)
    &&& forall|i: int| 0 <= i < healths.len() ==> hf@ <= (#[trigger] healths[i])@
}

/// The lowest of the health factors.
pub open spec fn lowest(healths: Seq<U256>) -> U256 {
    choose|hf: U256| is_lowest(healths, hf)
}

/// What the answers about an account come to.  A lending protocol that does not
/// answer decides at once, with the data its call failed with; a perpetuals
/// protocol that does not answer is passed over.  Otherwise the lowest reported
/// health factor counts, and there has to be one.
pub open spec fn health_outcome(queries: Seq<HealthQuery>, replies: Seq<HealthReply>) -> Result<
    U256,
    Seq<u8>,
> {
    if exists|k: int| is_first_lending_failure(queries, replies, k) {
        let k = choose|k: int| is_first_lending_failure(queries, replies, k);
        Err(failure_data(health_reply_at(replies, k)))
    } else if reported_healths(queries, replies).len() == 0 {
        Err("no protocols registered".spec_bytes())
    } else {
        Ok(lowest(reported_healths(queries, replies)))
    }
}

/// Whether a returned result is `outcome`.
pub open spec fn returns_outcome(r: Result<U256, Vec<u8>>, outcome: Result<U256, Seq<u8>>) -> bool {
    match (r, outcome) {
        (Ok(hf), Ok(expected)) => hf == expected,
        (Err(data), Err(expected)) => data@ == expected,
        _ => false,
    }
}

/// There is only one first failure.
proof fn lemma_first_failure_unique(
    queries: Seq<HealthQuery>,
    replies: Seq<HealthReply>,
    j: int,
    k: int,
)
    requires
        is_first_lending_failure(queries, replies, j),
        is_first_lending_failure(queries, replies, k),
    ensures
        j == k,
{
}

/// There is only one lowest health factor.
pub proof fn lemma_lowest_unique(healths: Seq<U256>, hf: U256)
    requires
        is_lowest(healths, hf),
    ensures
        lowest(healths) == hf,
{
    let other = lowest(healths);
    assert(is_lowest(healths, other));
    let i = choose|i: int| 0 <= i < healths.len() && healths[i] == hf;
    let j = choose|j: int| 0 <= j < healths.len() && healths[j] == other;
    assert(other@ <= healths[i]@);
    assert(hf@ <= healths[j]@);
    lemma_word_injective(other, hf);
}

/// The health factor that a reply gives, if it answers the question.
fn read_health(query: HealthQuery, reply: Option<&HealthReply>) -> (r: Option<U256>)
    ensures
        r == reported_health(
            query,
            match reply {
                Some(reply) => Some(*reply),
                None => None,
            },
        ),
{
    match (query, reply) {
        (HealthQuery::AccountData { .. }, Some(HealthReply::AccountData(data))) => Some(
            data.health_factor,
        ),
        (HealthQuery::AccountHealth { .. }, Some(HealthReply::Health(hf))) => Some(*hf),
        _ => None,
    }
}

/// What a call failed with.
fn read_failure(reply: Option<&HealthReply>) -> (r: Vec<u8>)
    ensures
        r@ == failure_data(
            match reply {
                Some(reply) => Some(*reply),
                None => None,
            },
        ),
{
    match reply {
        Some(HealthReply::Failed(data)) => {
            let r = data.clone();
            assert(r@ =~= data@);
            r
        },
        _ => {
            let r: Vec<u8> = Vec::new();
            assert(r@ =~= seq![]);
            r
        },
    }
}

/// The reply to question number `k`, if there is one.
fn read_reply(replies: &Vec<HealthReply>, k: usize) -> (r: Option<&HealthReply>)
    ensures
        (match r {
            Some(reply) => Some(*reply),
            None => None,
        }) == health_reply_at(replies@, k as int),
{
    if k < replies.len() {
        Some(&replies[k])
    } else {
        None
    }
}

/// Appends the questions to the lending protocols.
pub fn push_lending_queries(
    lending: &Vec<Entry>,
    account: Address,
    queries: &mut Vec<HealthQuery>,
)
    ensures
        final(queries)@ == old(queries)@ + lending_queries(lending@, account),
{
    let ghost start = queries@;
    let mut i: usize = 0;
    assert(lending@.take(0) =~= seq![]);
    while i < lending.len()
        invariant
            i <= lending@.len(),
            queries@ =~= start + lending_queries(lending@.take(i as int), account),
        decreases lending@.len() - i,
    {
        let protocol = lending[i];
        assert(lending@.take(i + 1).drop_last() =~= lending@.take(i as int));
        if protocol.active && protocol.kind.limbs[0] == LENDING_TYPE_AAVE_V3 {
            queries.push(HealthQuery::AccountData { pool: protocol.address, account });
        }
        i += 1;
    }
    assert(lending@.take(i as int) =~= lending@);
}

/// Appends the questions to the perpetuals protocols.
pub fn push_perp_queries(perps: &Vec<Entry>, account: Address, queries: &mut Vec<HealthQuery>)
    ensures
        final(queries)@ == old(queries)@ + perp_queries(perps@, account),
{
    let ghost start = queries@;
    let mut i: usize = 0;
    assert(perps@.take(0) =~= seq![]);
    while i < perps.len()
        invariant
            i <= perps@.len(),
            queries@ =~= start + perp_queries(perps@.take(i as int), account),
        decreases perps@.len() - i,
    {
        let protocol = perps[i];
        assert(perps@.take(i + 1).drop_last() =~= perps@.take(i as int));
        if protocol.active && protocol.kind.limbs[0] == PERP_TYPE_GMX_V2 {
            queries.push(HealthQuery::AccountHealth { reader: protocol.address, account });
        }
        i += 1;
    }
    assert(perps@.take(i as int) =~= perps@);
}

/// What the answers to the questions come to.
pub fn lowest_health(queries: &Vec<HealthQuery>, replies: &Vec<HealthReply>) -> (r: Result<
    U256,
    Vec<u8>,
>)
    ensures
        returns_outcome(r, health_outcome(queries@, replies@)),
{
    let mut lowest_hf = U256::max();
    let mut found_any = false;
    let mut k: usize = 0;
    assert(queries@.take(0) =~= seq![]);
    while k < queries.len()
        invariant
            k <= queries@.len(),
            forall|j: int| 0 <= j < k ==> !is_lending_failure(queries@, replies@, j),
            ({
                let healths = reported_healths(queries@.take(k as int), replies@);
                if found_any {
                    is_lowest(healths, lowest_hf)
                } else {
                    healths.len() == 0 && lowest_hf@ == crate::word::modulus() - 1
                }
            }),
        decreases queries@.len() - k,
    {
        let query = queries[k];
        let ghost before = reported_healths(queries@.take(k as int), replies@);
        let ghost after = reported_healths(queries@.take(k + 1), replies@);
        assert(queries@.take(k + 1).drop_last() =~= queries@.take(k as int));
        assert(queries@.take(k + 1).last() == query);
        match read_health(query, read_reply(replies, k)) {
            Some(hf) => {
                assert(after == before.push(hf));
                assert(after[before.len() as int] == hf);
                proof {
                    assert forall|x: U256| before.contains(x) implies after.contains(x) by {
                        let i = choose|i: int| 0 <= i < before.len() && before[i] == x;
                        assert(after[i] == x);
                    }
                    crate::word::lemma_word_of_view(hf);
                    if hf@ == lowest_hf@ {
                        lemma_word_injective(hf, lowest_hf);
                    }
                }
                found_any = true;
                if hf.less_than(lowest_hf) {
                    lowest_hf = hf;
                }
            },
            None => {
                if let HealthQuery::AccountData { .. } = query {
                    proof {
                        assert(is_first_lending_failure(queries@, replies@, k as int));
                        let first = choose|k: int|
                            is_first_lending_failure(queries@, replies@, k);
                        lemma_first_failure_unique(queries@, replies@, k as int, first);
                    }
                    return Err(read_failure(read_reply(replies, k)));
                }
            },
        }
        k += 1;
    }
    assert(queries@.take(k as int) =~= queries@);
    proof {
        assert(forall|k: int| !is_first_lending_failure(queries@, replies@, k));
    }
    if !found_any {
        return Err(crate::call::revert_data("no protocols registered"));
    }
    proof {
        lemma_lowest_unique(reported_healths(queries@, replies@), lowest_hf);
    }
    Ok(lowest_hf)
}

/// The question to ask next, given the answers so far.  Nothing is asked once a
/// lending protocol did not answer.
pub open spec fn next_query(queries: Seq<HealthQuery>, replies: Seq<HealthReply>) -> Option<
    HealthQuery,
> {
    if replies.len() >= queries.len() {
        None
    } else if exists|k: int| 0 <= k < replies.len() && is_lending_failure(queries, replies, k) {
        None
    } else {
        Some(queries[replies.len() as int])
    }
}

/// The question to ask next, given the answers so far.
pub fn query_after(queries: &Vec<HealthQuery>, replies: &Vec<HealthReply>) -> (r: Option<
    HealthQuery,
>)
    ensures
        r == next_query(queries@, replies@),
{
    if replies.len() >= queries.len() {
        return None;
    }
    let mut k: usize = 0;
    while k < replies.len()
        invariant
            k <= replies@.len() < queries@.len(),
            forall|j: int| 0 <= j < k ==> !is_lending_failure(queries@, replies@, j),
        decreases replies@.len() - k,
    {
        let query = queries[k];
        if read_health(query, read_reply(replies, k)).is_none() {
            if let HealthQuery::AccountData { .. } = query {
                assert(is_lending_failure(queries@, replies@, k as int));
                return None;
            }
        }
        k += 1;
    }
    Some(queries[replies.len()])
}

/// Once there is no next question, answers that come later change nothing.
pub proof fn law_outcome_is_final(
    queries: Seq<HealthQuery>,
    replies: Seq<HealthReply>,
    later: Seq<HealthReply>,
)
    requires
        next_query(queries, replies) is None,
    ensures
        health_outcome(queries, replies + later) == health_outcome(queries, replies),
{
    let all = replies + later;
    if replies.len() >= queries.len() {
        assert forall|k: int| 0 <= k < queries.len() implies health_reply_at(all, k)
            == health_reply_at(replies, k) by {}
        assert forall|k: int|
            is_first_lending_failure(queries, all, k) == is_first_lending_failure(
                queries,
                replies,
                k,
            ) by {
            assert forall|j: int|
                is_lending_failure(queries, all, j) == is_lending_failure(queries, replies, j) by {}
        }
        lemma_healths_agree(queries, all, replies);
        if exists|k: int| is_first_lending_failure(queries, replies, k) {
            let k = choose|k: int| is_first_lending_failure(queries, replies, k);
            let j = choose|j: int| is_first_lending_failure(queries, all, j);
            lemma_first_failure_unique(queries, replies, k, j);
        }
    } else {
        let k = choose|k: int| 0 <= k < replies.len() && is_lending_failure(queries, replies, k);
        let first = lemma_first_failure_exists(queries, replies, k);
        assert forall|j: int| j <= first implies is_lending_failure(queries, all, j)
            == is_lending_failure(queries, replies, j) by {}
        assert(is_first_lending_failure(queries, all, first));
        lemma_first_failure_unique(
            queries,
            replies,
            first,
            choose|j: int| is_first_lending_failure(queries, replies, j),
        );
        lemma_first_failure_unique(
            queries,
            all,
            first,
            choose|j: int| is_first_lending_failure(queries, all, j),
        );
    }
}

/// Where a lending protocol did not answer, there is a first such one.
proof fn lemma_first_failure_exists(
    queries: Seq<HealthQuery>,
    replies: Seq<HealthReply>,
    k: int,
) -> (first: int)
    requires
        is_lending_failure(queries, replies, k),
    ensures
        first <= k,
        is_first_lending_failure(queries, replies, first),
    decreases k,
{
    if exists|j: int| 0 <= j < k && is_lending_failure(queries, replies, j) {
        let j = choose|j: int| 0 <= j < k && is_lending_failure(queries, replies, j);
        lemma_first_failure_exists(queries, replies, j)
    } else {
        k
    }
}

/// The reported health factors depend on the answers to the questions alone.
proof fn lemma_healths_agree(
    queries: Seq<HealthQuery>,
    a: Seq<HealthReply>,
    b: Seq<HealthReply>,
)
    requires
        forall|k: int|
            0 <= k < queries.len() ==> health_reply_at(a, k) == health_reply_at(b, k),
    ensures
        reported_healths(queries, a) == reported_healths(queries, b),
    decreases queries.len(),
{
    if queries.len() > 0 {
        lemma_healths_agree(queries.drop_last(), a, b);
    }
}

/// The health factor of an account is one that some protocol reported, and none
/// reported a lower one.
pub proof fn law_outcome_is_lowest(queries: Seq<HealthQuery>, replies: Seq<HealthReply>, k: int)
    requires
        health_outcome(queries, replies) is Ok,
    ensures
        is_lowest(reported_healths(queries, replies), health_outcome(queries, replies)->Ok_0),
        0 <= k < queries.len() ==> match reported_health(queries[k], health_reply_at(replies, k)) {
            Some(hf) => health_outcome(queries, replies)->Ok_0@ <= hf@,
            None => queries[k] is AccountHealth,
        },
{
    let healths = reported_healths(queries, replies);
    lemma_lowest_exists(healths);
    if 0 <= k < queries.len() {
        match reported_health(queries[k], health_reply_at(replies, k)) {
            Some(hf) => {
                lemma_reported_is_listed(queries, replies, k);
                let i = choose|i: int| 0 <= i < healths.len() && healths[i] == hf;
                assert(lowest(healths)@ <= healths[i]@);
            },
            None => {
                if is_lending_failure(queries, replies, k) {
                    let first = lemma_first_failure_exists(queries, replies, k);
                }
            },
        }
    }
}

/// A health factor that was reported is in the list.
proof fn lemma_reported_is_listed(queries: Seq<HealthQuery>, replies: Seq<HealthReply>, k: int)
    requires
        0 <= k < queries.len(),
        reported_health(queries[k], health_reply_at(replies, k)) is Some,
    ensures
        reported_healths(queries, replies).contains(
            reported_health(queries[k], health_reply_at(replies, k))->0,
        ),
    decreases queries.len(),
{
    let hf = reported_health(queries[k], health_reply_at(replies, k))->0;
    let healths = reported_healths(queries, replies);
    if k == queries.len() - 1 {
        assert(healths.last() == hf);
    } else {
        let before = reported_healths(queries.drop_last(), replies);
        lemma_reported_is_listed(queries.drop_last(), replies, k);
        let i = choose|i: int| 0 <= i < before.len() && before[i] == hf;
        assert(healths[i] == hf);
    }
}

/// Where there are health factors, one is the lowest.
proof fn lemma_lowest_exists(healths: Seq<U256>)
    requires
        healths.len() > 0,
    ensures
        is_lowest(healths, lowest(healths)),
    decreases healths.len(),
{
    let last = healths.last();
    assert(healths[healths.len() - 1] == last);
    if healths.len() == 1 {
        assert(is_lowest(healths, last));
    } else {
        let front = healths.drop_last();
        lemma_lowest_exists(front);
        let low = lowest(front);
        let i = choose|i: int| 0 <= i < front.len() && front[i] == low;
        assert(healths[i] == low);
        assert forall|j: int| 0 <= j < healths.len() - 1 implies low@ <= (
        #[trigger] healths[j])@ by {
            assert(front[j] == healths[j]);
        }
        if last@ < low@ {
            assert(is_lowest(healths, last));
        } else {
            assert(is_lowest(healths, low));
        }
    }
}

/// Every active protocol of a known type is asked.
pub proof fn law_active_protocols_are_asked(
    lending: Seq<Entry>,
    perps: Seq<Entry>,
    account: Address,
    i: int,
)
    ensures
        0 <= i < lending.len() && lending[i].active && kind_number(lending[i])
            == LENDING_TYPE_AAVE_V3 ==> health_queries(lending, perps, account).contains(
            HealthQuery::AccountData { pool: lending[i].address, account },
        ),
        0 <= i < perps.len() && perps[i].active && kind_number(perps[i]) == PERP_TYPE_GMX_V2
            ==> health_queries(lending, perps, account).contains(
            HealthQuery::AccountHealth { reader: perps[i].address, account },
        ),
{
    let first = lending_queries(lending, account);
    let second = perp_queries(perps, account);
    let all = health_queries(lending, perps, account);
    if 0 <= i < lending.len() && lending[i].active && kind_number(lending[i])
        == LENDING_TYPE_AAVE_V3 {
        let k = lemma_lending_asked(lending, account, i);
        assert(all[k] == first[k]);
    }
    if 0 <= i < perps.len() && perps[i].active && kind_number(perps[i]) == PERP_TYPE_GMX_V2 {
        let k = lemma_perp_asked(perps, account, i);
        assert(all[first.len() + k] == second[k]);
    }
}

/// Only active protocols of a known type are asked, and only about the account in
/// question: one that was removed is left alone.
pub proof fn law_only_active_protocols_are_asked(
    lending: Seq<Entry>,
    perps: Seq<Entry>,
    account: Address,
    k: int,
)
    requires
        0 <= k < health_queries(lending, perps, account).len(),
    ensures
        match health_queries(lending, perps, account)[k] {
            HealthQuery::AccountData { pool, account: asked } => asked == account && exists|i: int|
                0 <= i < lending.len() && (#[trigger] lending[i]).active && kind_number(lending[i])
                    == LENDING_TYPE_AAVE_V3 && lending[i].address == pool,
            HealthQuery::AccountHealth { reader, account: asked } => asked == account && exists|
                i: int,
            |
                0 <= i < perps.len() && (#[trigger] perps[i]).active && kind_number(perps[i])
                    == PERP_TYPE_GMX_V2 && perps[i].address == reader,
        },
{
    let first = lending_queries(lending, account);
    if k < first.len() {
        let i = lemma_lending_active(lending, account, k);
    } else {
        let i = lemma_perp_active(perps, account, k - first.len());
    }
}

/// An active lending protocol is asked.
proof fn lemma_lending_asked(lending: Seq<Entry>, account: Address, i: int) -> (k: int)
    requires
        0 <= i < lending.len(),
        lending[i].active,
        kind_number(lending[i]) == LENDING_TYPE_AAVE_V3,
    ensures
        0 <= k < lending_queries(lending, account).len(),
        lending_queries(lending, account)[k] == (HealthQuery::AccountData {
            pool: lending[i].address,
            account,
        }),
    decreases lending.len(),
{
    if i == lending.len() - 1 {
        lending_queries(lending, account).len() - 1
    } else {
        lemma_lending_asked(lending.drop_last(), account, i)
    }
}

/// An active perpetuals protocol is asked.
proof fn lemma_perp_asked(perps: Seq<Entry>, account: Address, i: int) -> (k: int)
    requires
        0 <= i < perps.len(),
        perps[i].active,
        kind_number(perps[i]) == PERP_TYPE_GMX_V2,
    ensures
        0 <= k < perp_queries(perps, account).len(),
        perp_queries(perps, account)[k] == (HealthQuery::AccountHealth {
            reader: perps[i].address,
            account,
        }),
    decreases perps.len(),
{
    if i == perps.len() - 1 {
        perp_queries(perps, account).len() - 1
    } else {
        lemma_perp_asked(perps.drop_last(), account, i)
    }
}

/// A lending protocol that is asked is active.
proof fn lemma_lending_active(lending: Seq<Entry>, account: Address, k: int) -> (i: int)
    requires
        0 <= k < lending_queries(lending, account).len(),
    ensures
        0 <= i < lending.len(),
        lending[i].active,
        kind_number(lending[i]) == LENDING_TYPE_AAVE_V3,
        lending_queries(lending, account)[k] == (HealthQuery::AccountData {
            pool: lending[i].address,
            account,
        }),
    decreases lending.len(),
{
    if k < lending_queries(lending.drop_last(), account).len() {
        lemma_lending_active(lending.drop_last(), account, k)
    } else {
        lending.len() - 1
    }
}

/// A perpetuals protocol that is asked is active.
proof fn lemma_perp_active(perps: Seq<Entry>, account: Address, k: int) -> (i: int)
    requires
        0 <= k < perp_queries(perps, account).len(),
    ensures
        0 <= i < perps.len(),
        perps[i].active,
        kind_number(perps[i]) == PERP_TYPE_GMX_V2,
        perp_queries(perps, account)[k] == (HealthQuery::AccountHealth {
            reader: perps[i].address,
            account,
        }),
    decreases perps.len(),
{
    if k < perp_queries(perps.drop_last(), account).len() {
        lemma_perp_active(perps.drop_last(), account, k)
    } else {
        perps.len() - 1
    }
}

} // verus!
