//! Asking several master servers at once, and what all of them know together.
//!
//! Each master is asked on its own; what one of them answers, or fails to,
//! has no bearing on the others. The outcomes are kept apart as successes and
//! failures, one entry for each master that was asked.

use crate::query::QueryError;
use crate::sorted::{merge_unique, same_values, strictly_ascending, views};
use std::slice::Iter;
use vstd::prelude::*;
use vstd::std_specs::slice::into_iter_elts;

verus! {

/// What a `QuerySuccess` stands for.
pub struct SuccessView {
    pub master_address: Seq<char>,
    pub server_addresses: Seq<Seq<char>>,
}

/// What a `QueryFailure` stands for.
pub struct FailedView {
    pub master_address: Seq<char>,
    pub error: QueryError,
}

/// What a `MultiQueryResult` stands for.
pub struct MultiQueryView {
    pub successes: Seq<SuccessView>,
    pub failures: Seq<FailedView>,
}

/// A master server that answered, and the addresses it gave, in its order.
#[derive(Debug)]
pub struct QuerySuccess {
    master_address: String,
    server_addresses: Vec<String>,
}

/// A master server that gave no list, and why.
#[derive(Debug)]
pub struct QueryFailure {
    master_address: String,
    error: QueryError,
}

/// How the query of one master server ended.
#[derive(Debug)]
pub enum QueryOutcome {
    Success(QuerySuccess),
    Failure(QueryFailure),
}

/// The outcomes of asking several master servers.
#[derive(Debug)]
pub struct MultiQueryResult {
    /// Collection of successful queries.
    successes: Vec<QuerySuccess>,
    /// Collection of failed queries.
    failures: Vec<QueryFailure>,
}

impl View for QuerySuccess {
    type V = SuccessView;

    closed spec fn view(&self) -> SuccessView {
        SuccessView {
            master_address: self.master_address@,
            server_addresses: views(self.server_addresses@),
        }
    }
}

impl View for QueryFailure {
    type V = FailedView;

    closed spec fn view(&self) -> FailedView {
        FailedView { master_address: self.master_address@, error: self.error }
    }
}

impl View for MultiQueryResult {
    type V = MultiQueryView;

    closed spec fn view(&self) -> MultiQueryView {
        MultiQueryView { successes: views(self.successes@), failures: views(self.failures@) }
    }
}

/// What an outcome adds to the successes: itself, or nothing.
pub open spec fn success_in(outcome: QueryOutcome) -> Seq<SuccessView> {
    match outcome {
        QueryOutcome::Success(success) => seq![success@],
        QueryOutcome::Failure(_) => Seq::empty(),
    }
}

/// What an outcome adds to the failures: itself, or nothing.
pub open spec fn failure_in(outcome: QueryOutcome) -> Seq<FailedView> {
    match outcome {
        QueryOutcome::Success(_) => Seq::empty(),
        QueryOutcome::Failure(failure) => seq![failure@],
    }
}

/// The successes among some outcomes, in their order.
pub open spec fn successes_of(outcomes: Seq<QueryOutcome>) -> Seq<SuccessView>
    decreases outcomes.len(),
{
    if outcomes.len() == 0 {
        Seq::empty()
    } else {
        successes_of(outcomes.drop_last()) + success_in(outcomes.last())
    }
}

/// The failures among some outcomes, in their order.
pub open spec fn failures_of(outcomes: Seq<QueryOutcome>) -> Seq<FailedView>
    decreases outcomes.len(),
{
    if outcomes.len() == 0 {
        Seq::empty()
    } else {
        failures_of(outcomes.drop_last()) + failure_in(outcomes.last())
    }
}

/// Every outcome is a success or a failure, and one of them only: together
/// they are as many as the outcomes.
pub proof fn lemma_one_entry_for_each_outcome(outcomes: Seq<QueryOutcome>)
    ensures
        successes_of(outcomes).len() + failures_of(outcomes).len() == outcomes.len(),
    decreases outcomes.len(),
{
    if outcomes.len() > 0 {
        lemma_one_entry_for_each_outcome(outcomes.drop_last());
    }
}

impl MultiQueryView {
    /// All addresses that the successes hold, one success after another.
    pub open spec fn all_addresses(self) -> Seq<Seq<char>> {
        self.successes.map_values(|success: SuccessView| success.server_addresses).flatten()
    }
}

impl QuerySuccess {
    /// A success of the master at `master_address`, which gave
    /// `server_addresses`.
    pub fn new(master_address: String, server_addresses: Vec<String>) -> (success: QuerySuccess)
        ensures
            success@ == (SuccessView {
                master_address: master_address@,
                server_addresses: views(server_addresses@),
            }),
    {
        QuerySuccess { master_address, server_addresses }
    }

    /// The master server that was asked.
    pub fn master_address(&self) -> (address: &str)
        ensures
            address@ == self@.master_address,
    {
        self.master_address.as_str()
    }

    /// The addresses that the master server gave, in its order.
    pub fn server_addresses(&self) -> (addresses: &[String])
        ensures
            views(addresses@) == self@.server_addresses,
    {
        self.server_addresses.as_slice()
    }
}

impl Default for QuerySuccess {
    fn default() -> (success: QuerySuccess)
        ensures
            success@ == (SuccessView {
                master_address: Seq::empty(),
                server_addresses: Seq::empty(),
            }),
    {
        let success = QuerySuccess { master_address: String::new(), server_addresses: Vec::new() };
        assert(success@.server_addresses =~= Seq::empty());
        success
    }
}

impl QueryFailure {
    /// A failure of the master at `master_address`, for the reason `error`.
    pub fn new(master_address: String, error: QueryError) -> (failure: QueryFailure)
        ensures
            failure@ == (FailedView { master_address: master_address@, error }),
    {
        QueryFailure { master_address, error }
    }

    /// The master server that was asked.
    pub fn master_address(&self) -> (address: &str)
        ensures
            address@ == self@.master_address,
    {
        self.master_address.as_str()
    }

    /// Why the master server gave no list.
    pub fn error(&self) -> (error: &QueryError)
        ensures
            *error == self@.error,
    {
        &self.error
    }
}

impl QueryOutcome {
    /// The outcome of asking the master at `master_address`, from what the
    /// query gave.
    pub fn new(master_address: String, result: Result<Vec<String>, QueryError>) -> (outcome:
        QueryOutcome)
        ensures
            match result {
                Ok(server_addresses) => outcome matches QueryOutcome::Success(success)
                    && success@ == (SuccessView {
                    master_address: master_address@,
                    server_addresses: views(server_addresses@),
                }),
                Err(error) => outcome matches QueryOutcome::Failure(failure) && failure@ == (
                FailedView { master_address: master_address@, error }),
            },
    {
        match result {
            Ok(server_addresses) => QueryOutcome::Success(
                QuerySuccess::new(master_address, server_addresses),
            ),
            Err(error) => QueryOutcome::Failure(QueryFailure::new(master_address, error)),
        }
    }
}

impl MultiQueryResult {
    /// Sorts outcomes into successes and failures. Each outcome becomes one
    /// entry, and the entries of either kind keep the order of the outcomes.
    pub fn from_outcomes(outcomes: Vec<QueryOutcome>) -> (result: MultiQueryResult)
        ensures
            result@.successes == successes_of(outcomes@),
            result@.failures == failures_of(outcomes@),
            result@.successes.len() + result@.failures.len() == outcomes.len(),
    {
        let mut successes: Vec<QuerySuccess> = Vec::new();
        let mut failures: Vec<QueryFailure> = Vec::new();
        let ghost all = outcomes@;
        for outcome in iter: outcomes
            invariant
                iter.seq() == all,
                views(successes@) == successes_of(all.take(iter.index() as int)),
                views(failures@) == failures_of(all.take(iter.index() as int)),
        {
            proof {
                let n = iter.index() as int;
                assert(all.take(n + 1).drop_last() =~= all.take(n));
            }
            match outcome {
                QueryOutcome::Success(success) => {
                    successes.push(success);
                },
                QueryOutcome::Failure(failure) => {
                    failures.push(failure);
                },
            }
        }
        proof {
            assert(all.take(all.len() as int) =~= all);
            lemma_one_entry_for_each_outcome(all);
        }
        MultiQueryResult { successes, failures }
    }

    /// Iterator over successful query results.
    pub fn successful_queries(&self) -> (queries: Iter<'_, QuerySuccess>)
        ensures
            views(into_iter_elts(queries)) == self@.successes,
    {
        self.successes.iter()
    }

    /// Iterator over failed query results.
    pub fn failed_queries(&self) -> (queries: Iter<'_, QueryFailure>)
        ensures
            views(into_iter_elts(queries)) == self@.failures,
    {
        self.failures.iter()
    }

    /// Unique server addresses from successful queries: every address that
    /// some master gave, once, in the order of text.
    pub fn server_addresses(&self) -> (addresses: Vec<String>)
        ensures
            strictly_ascending::<String>(views(addresses@)),
            same_values(views(addresses@), self@.all_addresses()),
    {
        let mut addresses: Vec<String> = Vec::new();
        let ghost lists = self@.successes.map_values(
            |success: SuccessView| success.server_addresses,
        );
        let mut i: usize = 0;
        while i < self.successes.len()
            invariant
                i <= self.successes.len(),
                lists == self@.successes.map_values(
                    |success: SuccessView| success.server_addresses,
                ),
                strictly_ascending::<String>(views(addresses@)),
                same_values(views(addresses@), lists.take(i as int).flatten()),
            decreases self.successes.len() - i,
        {
            let ghost before = views(addresses@);
            let given = self.successes[i].server_addresses();
            merge_unique(&mut addresses, given);
            proof {
                let seen = lists.take(i as int);
                assert(lists.take(i + 1) =~= seen.push(views(given@)));
                seen.lemma_flatten_push(views(given@));
                assert forall|v: Seq<char>| views(addresses@).contains(v) <==> lists.take(
                    i + 1,
                ).flatten().contains(v) by {
                    vstd::seq_lib::lemma_seq_concat_contains_all_elements(
                        before,
                        views(given@),
                        v,
                    );
                    vstd::seq_lib::lemma_seq_concat_contains_all_elements(
                        seen.flatten(),
                        views(given@),
                        v,
                    );
                }
            }
            i += 1;
        }
        assert(lists.take(i as int) =~= lists);
        addresses
    }
}

impl Default for MultiQueryResult {
    fn default() -> (result: MultiQueryResult)
        ensures
            result@ == (MultiQueryView { successes: Seq::empty(), failures: Seq::empty() }),
    {
        let result = MultiQueryResult { successes: Vec::new(), failures: Vec::new() };
        assert(result@.successes =~= Seq::empty());
        assert(result@.failures =~= Seq::empty());
        result
    }
}

} // verus!
