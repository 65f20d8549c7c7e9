//! Slices: what an operation does to the rows that it needs is what it does to the whole state.
//!
//! A transaction reads some rows, carries out an operation on them and writes the rows back. Each
//! law here names the rows that have to be among those that are read, and says that the answer and
//! the written rows are then those of the operation on everything that is stored.

use vstd::prelude::*;

use crate::error::StorageFailure;
use crate::input::{ClosePeriod, Completion, PutAccount, ResolveDelivery};
use crate::laws::lemma_claim_place;
use crate::model::{models, CommandKeyModel, SnapshotLine, SnapshotLineModel};
use crate::order::{
    in_order, is_listing, law_rows_are_put_in_order, law_text_order_is_irreflexive,
    law_text_order_is_transitive, text_less,
};
use crate::tables::{
    account_ids, account_outcome, account_overlaps, accounts_outcome, anything_to_claim, claim_of,
    claim_outcome, claimable, close_key, close_outcome, complete_outcome, delivery_ids_taken,
    delivery_outcome, delivery_place, delivery_stored, lemma_next_is_unique, line, line_at,
    next_to_claim, open_to_claim, page_cursor, page_ids, period_ids, period_outcome,
    periods_outcome, put_key, put_outcome, replayed, resolve_key, resolve_outcome, spent,
    tables_given_up, tables_ok, windows_overlap, Tables,
};
use crate::text::Text;

verus! {

/// Some of the rows of the whole.
pub open spec fn slice_of(part: Tables, whole: Tables) -> bool {
    &&& forall|id: Text| #[trigger]
        part.accounts.contains_key(id) ==> whole.accounts.contains_key(id) && whole.accounts[id]
            == part.accounts[id]
    &&& forall|id: Text| #[trigger]
        part.periods.contains_key(id) ==> whole.periods.contains_key(id) && whole.periods[id]
            == part.periods[id]
    &&& forall|key: CommandKeyModel| #[trigger]
        part.commands.contains_key(key) ==> whole.commands.contains_key(key) && whole.commands[key]
            == part.commands[key]
}

/// The whole with the rows of the part written over it.
pub open spec fn written_back(whole: Tables, part: Tables) -> Tables {
    Tables {
        accounts: whole.accounts.union_prefer_right(part.accounts),
        periods: whole.periods.union_prefer_right(part.periods),
        commands: whole.commands.union_prefer_right(part.commands),
    }
}

/// What came of the part, written back, is what comes of the whole.
pub open spec fn carries_over<A>(
    whole: Tables,
    of_part: Result<(Tables, A), StorageFailure>,
    of_whole: Result<(Tables, A), StorageFailure>,
) -> bool {
    match of_part {
        Ok((rows, answer)) => of_whole == Ok::<(Tables, A), StorageFailure>(
            (written_back(whole, rows), answer),
        ),
        Err(failure) => of_whole == Err::<(Tables, A), StorageFailure>(failure),
    }
}

/// A put needs its command and its account.
pub proof fn law_put_needs_its_rows(part: Tables, whole: Tables, input: PutAccount, now: i128)
    requires
        slice_of(part, whole),
        whole.commands.contains_key(put_key(input)) ==> part.commands.contains_key(put_key(input)),
        whole.accounts.contains_key(input.account_id@) ==> part.accounts.contains_key(
            input.account_id@,
        ),
    ensures
        carries_over(whole, put_outcome(part, input, now), put_outcome(whole, input, now)),
{
    let key = put_key(input);
    assert(part.commands.contains_key(key) <==> whole.commands.contains_key(key));
    assert(part.accounts.contains_key(input.account_id@) <==> whole.accounts.contains_key(
        input.account_id@,
    ));
    match put_outcome(part, input, now) {
        Ok((rows, view)) => {
            let u = put_outcome(whole, input, now)->Ok_0.0;
            assert(u =~= written_back(whole, rows));
        },
        Err(failure) => {},
    }
}

/// A close needs its command, its account, the periods of that account, the period of its own id,
/// and the periods that hold one of its delivery ids.
pub open spec fn close_needs(part: Tables, whole: Tables, input: ClosePeriod) -> bool {
    &&& slice_of(part, whole)
    &&& whole.commands.contains_key(close_key(input)) ==> part.commands.contains_key(
        close_key(input),
    )
    &&& whole.accounts.contains_key(input.account_id@) ==> part.accounts.contains_key(
        input.account_id@,
    )
    &&& whole.periods.contains_key(input.period_id@) ==> part.periods.contains_key(
        input.period_id@,
    )
    &&& forall|id: Text| #[trigger]
        whole.periods.contains_key(id) && whole.periods[id].account_id == input.account_id@
            ==> part.periods.contains_key(id)
    &&& forall|id: Text, i: int, j: int|
        #[trigger] line_at(whole, id, i) && 0 <= j < input.lines@.len() && line(
            whole,
            id,
            i,
        ).delivery_id == (#[trigger] input.lines@[j])@.delivery_id ==> part.periods.contains_key(id)
}

/// The rows that a close needs are enough to tell whether its delivery ids are taken.
proof fn lemma_ids_taken_alike(
    part: Tables,
    whole: Tables,
    input: ClosePeriod,
    lines: Seq<SnapshotLineModel>,
)
    requires
        close_needs(part, whole, input),
        lines.to_multiset() == models(input.lines@).to_multiset(),
    ensures
        delivery_ids_taken(part, lines) == delivery_ids_taken(whole, lines),
{
    broadcast use vstd::seq_lib::group_to_multiset_ensures;

    assert forall|i: int| 0 <= i < lines.len() implies (delivery_stored(
        part,
        #[trigger] lines[i].delivery_id,
    ) <==> delivery_stored(whole, lines[i].delivery_id)) by {
        let delivery_id = lines[i].delivery_id;
        if delivery_stored(part, delivery_id) {
            let (id, k) = choose|id: Text, k: int| #[trigger]
                line_at(part, id, k) && line(part, id, k).delivery_id == delivery_id;
            assert(line_at(whole, id, k) && line(whole, id, k) == line(part, id, k));
        }
        if delivery_stored(whole, delivery_id) {
            let (id, k) = choose|id: Text, k: int| #[trigger]
                line_at(whole, id, k) && line(whole, id, k).delivery_id == delivery_id;
            let given = models(input.lines@);
            assert(lines.to_multiset().count(lines[i]) > 0) by {
                assert(lines.contains(lines[i]));
            }
            assert(given.to_multiset().count(lines[i]) > 0);
            assert(given.contains(lines[i]));
            let j = choose|j: int| 0 <= j < given.len() && given[j] == lines[i];
            assert(input.lines@[j]@.delivery_id == delivery_id);
            assert(line_at(part, id, k) && line(part, id, k) == line(whole, id, k));
        }
    }
}

/// A close needs no other rows.
pub proof fn law_close_needs_its_rows(part: Tables, whole: Tables, input: ClosePeriod, now: i128)
    requires
        close_needs(part, whole, input),
    ensures
        carries_over(whole, close_outcome(part, input, now), close_outcome(whole, input, now)),
{
    let key = close_key(input);
    assert(part.commands.contains_key(key) <==> whole.commands.contains_key(key));
    assert(part.accounts.contains_key(input.account_id@) <==> whole.accounts.contains_key(
        input.account_id@,
    ));
    assert(part.periods.contains_key(input.period_id@) <==> whole.periods.contains_key(
        input.period_id@,
    ));
    let lines = in_order::<SnapshotLine>(models(input.lines@));
    law_rows_are_put_in_order::<SnapshotLine>(models(input.lines@));
    lemma_ids_taken_alike(part, whole, input, lines);
    assert forall|start: i128, end: i128|
        #[trigger] account_overlaps(part, input.account_id@, start, end) <==> account_overlaps(
            whole,
            input.account_id@,
            start,
            end,
        ) by {
        if account_overlaps(part, input.account_id@, start, end) {
            let id = choose|id: Text| #[trigger]
                part.periods.contains_key(id) && part.periods[id].account_id == input.account_id@
                    && windows_overlap(
                    part.periods[id].period_start,
                    part.periods[id].period_end,
                    start,
                    end,
                );
            assert(whole.periods.contains_key(id) && whole.periods[id] == part.periods[id]);
        }
        if account_overlaps(whole, input.account_id@, start, end) {
            let id = choose|id: Text| #[trigger]
                whole.periods.contains_key(id) && whole.periods[id].account_id == input.account_id@
                    && windows_overlap(
                    whole.periods[id].period_start,
                    whole.periods[id].period_end,
                    start,
                    end,
                );
            assert(part.periods.contains_key(id) && whole.periods[id] == part.periods[id]);
        }
    }
    match close_outcome(part, input, now) {
        Ok((rows, view)) => {
            let u = close_outcome(whole, input, now)->Ok_0.0;
            assert(u =~= written_back(whole, rows));
        },
        Err(failure) => {},
    }
}

/// The period of a delivery is among the rows, if there is one.
pub open spec fn holds_delivery(part: Tables, whole: Tables, delivery_id: Text) -> bool {
    forall|id: Text, i: int| #[trigger]
        line_at(whole, id, i) && line(whole, id, i).delivery_id == delivery_id
            ==> part.periods.contains_key(id)
}

/// A delivery stands in the slice where it stands in the whole.
proof fn lemma_same_place(part: Tables, whole: Tables, delivery_id: Text)
    requires
        tables_ok(whole),
        slice_of(part, whole),
        holds_delivery(part, whole, delivery_id),
    ensures
        delivery_stored(part, delivery_id) == delivery_stored(whole, delivery_id),
        delivery_stored(whole, delivery_id) ==> delivery_place(part, delivery_id) == delivery_place(
            whole,
            delivery_id,
        ) && part.periods.contains_key(delivery_place(whole, delivery_id).0)
            && part.periods[delivery_place(whole, delivery_id).0]
            == whole.periods[delivery_place(whole, delivery_id).0],
{
    if delivery_stored(part, delivery_id) {
        let (id, i) = delivery_place(part, delivery_id);
        assert(line_at(part, id, i));
        assert(line_at(whole, id, i) && line(whole, id, i) == line(part, id, i));
    }
    if delivery_stored(whole, delivery_id) {
        let (id, i) = delivery_place(whole, delivery_id);
        assert(line_at(whole, id, i));
        assert(line_at(part, id, i) && line(whole, id, i) == line(part, id, i));
        let (other, j) = delivery_place(part, delivery_id);
        assert(line_at(part, other, j));
        assert(line_at(whole, other, j) && line(whole, other, j) == line(part, other, j));
    }
}

/// A completion needs the period of its delivery.
pub proof fn law_completion_needs_its_rows(
    part: Tables,
    whole: Tables,
    input: Completion,
    now: i128,
)
    requires
        tables_ok(whole),
        slice_of(part, whole),
        holds_delivery(part, whole, input.delivery_id@),
    ensures
        match complete_outcome(part, input, now) {
            Ok(rows) => complete_outcome(whole, input, now) == Ok::<Tables, StorageFailure>(
                written_back(whole, rows),
            ),
            Err(failure) => complete_outcome(whole, input, now) == Err::<Tables, StorageFailure>(
                failure,
            ),
        },
{
    lemma_same_place(part, whole, input.delivery_id@);
    match complete_outcome(part, input, now) {
        Ok(rows) => {
            assert(complete_outcome(whole, input, now)->Ok_0 =~= written_back(whole, rows));
        },
        Err(failure) => {},
    }
}

/// A resolution needs its command and the period of its delivery.
pub proof fn law_resolution_needs_its_rows(
    part: Tables,
    whole: Tables,
    input: ResolveDelivery,
    now: i128,
)
    requires
        tables_ok(whole),
        slice_of(part, whole),
        whole.commands.contains_key(resolve_key(input)) ==> part.commands.contains_key(
            resolve_key(input),
        ),
        holds_delivery(part, whole, input.delivery_id@),
    ensures
        carries_over(whole, resolve_outcome(part, input, now), resolve_outcome(whole, input, now)),
{
    let key = resolve_key(input);
    assert(part.commands.contains_key(key) <==> whole.commands.contains_key(key));
    lemma_same_place(part, whole, input.delivery_id@);
    match resolve_outcome(part, input, now) {
        Ok((rows, view)) => {
            let u = resolve_outcome(whole, input, now)->Ok_0.0;
            assert(u =~= written_back(whole, rows));
        },
        Err(failure) => {},
    }
}

/// Finding out what is kept of a command needs that command.
pub proof fn law_lookup_needs_its_command(
    part: Tables,
    whole: Tables,
    key: CommandKeyModel,
    request_hash: Seq<u8>,
)
    requires
        slice_of(part, whole),
        whole.commands.contains_key(key) ==> part.commands.contains_key(key),
    ensures
        replayed(part, key, request_hash) == replayed(whole, key, request_hash),
{
}

/// Reading an account, a period or a delivery needs that row.
pub proof fn law_reads_need_their_rows(
    part: Tables,
    whole: Tables,
    organization_id: Text,
    account_id: Text,
    period_id: Text,
    delivery_id: Text,
)
    requires
        tables_ok(whole),
        slice_of(part, whole),
    ensures
        (whole.accounts.contains_key(account_id) ==> part.accounts.contains_key(account_id))
            ==> account_outcome(part, organization_id, account_id) == account_outcome(
            whole,
            organization_id,
            account_id,
        ),
        (whole.periods.contains_key(period_id) ==> part.periods.contains_key(period_id))
            ==> period_outcome(part, organization_id, period_id) == period_outcome(
            whole,
            organization_id,
            period_id,
        ),
        holds_delivery(part, whole, delivery_id) ==> delivery_outcome(
            part,
            organization_id,
            delivery_id,
        ) == delivery_outcome(whole, organization_id, delivery_id),
{
    if holds_delivery(part, whole, delivery_id) {
        lemma_same_place(part, whole, delivery_id);
    }
}

/// The first rows of a listing, one more than the page may hold, are enough for the page.
proof fn lemma_page_from_first_rows(
    of_part: Seq<Text>,
    of_whole: Seq<Text>,
    part: Set<Text>,
    whole: Set<Text>,
    limit: int,
)
    requires
        is_listing(of_part, part),
        is_listing(of_whole, whole),
        part.subset_of(whole),
        0 <= limit,
        forall|i: int|
            0 <= i <= limit && i < of_whole.len() ==> part.contains(#[trigger] of_whole[i]),
    ensures
        page_ids(of_part, limit) == page_ids(of_whole, limit),
        page_cursor(of_part, limit) == page_cursor(of_whole, limit),
{
    let n: int = if limit + 1 < of_whole.len() {
        limit + 1
    } else {
        of_whole.len() as int
    };
    lemma_common_front(of_part, of_whole, part, whole, n);
    assert(of_part.len() >= n);
    if of_whole.len() <= limit {
        lemma_no_longer(of_part, of_whole, part, whole);
        assert(of_part =~= of_whole);
    } else {
        assert(of_part.take(limit) =~= of_whole.take(limit));
        if limit > 0 {
            assert(of_part[limit - 1] == of_whole[limit - 1]);
        }
    }
}

/// A listing of some is no longer than the listing of all.
proof fn lemma_no_longer(of_part: Seq<Text>, of_whole: Seq<Text>, part: Set<Text>, whole: Set<Text>)
    requires
        is_listing(of_part, part),
        is_listing(of_whole, whole),
        part.subset_of(whole),
        of_part.len() >= of_whole.len(),
        forall|i: int| 0 <= i < of_whole.len() ==> of_part[i] == #[trigger] of_whole[i],
    ensures
        of_part.len() == of_whole.len(),
{
    if of_part.len() > of_whole.len() {
        let extra = of_part[of_whole.len() as int];
        assert(of_part.contains(extra));
        assert(part.contains(extra) && whole.contains(extra));
        assert(of_whole.contains(extra));
        let j = choose|j: int| 0 <= j < of_whole.len() && of_whole[j] == extra;
        assert(of_part[j] == of_whole[j]);
        law_text_order_is_irreflexive(extra);
        assert(text_less(of_part[j], of_part[of_whole.len() as int]));
    }
}

/// Listings of which the first rows are the same begin alike.
proof fn lemma_common_front(
    of_part: Seq<Text>,
    of_whole: Seq<Text>,
    part: Set<Text>,
    whole: Set<Text>,
    n: int,
)
    requires
        is_listing(of_part, part),
        is_listing(of_whole, whole),
        part.subset_of(whole),
        0 <= n <= of_whole.len(),
        forall|i: int| 0 <= i < n ==> part.contains(#[trigger] of_whole[i]),
    ensures
        n <= of_part.len(),
        forall|i: int| 0 <= i < n ==> of_part[i] == #[trigger] of_whole[i],
    decreases n,
{
    if n > 0 {
        lemma_common_front(of_part, of_whole, part, whole, n - 1);
        let x = of_whole[n - 1];
        assert(part.contains(x));
        assert(of_part.contains(x));
        let j = choose|j: int| 0 <= j < of_part.len() && of_part[j] == x;
        if j < n - 1 {
            assert(of_part[j] == of_whole[j]);
            assert(text_less(of_whole[j], of_whole[n - 1]));
            law_text_order_is_irreflexive(x);
        }
        if j > n - 1 {
            let y = of_part[n - 1];
            assert(of_part.contains(y));
            assert(whole.contains(y));
            assert(of_whole.contains(y));
            let k = choose|k: int| 0 <= k < of_whole.len() && of_whole[k] == y;
            assert(text_less(of_part[n - 1], of_part[j]));
            law_text_order_is_irreflexive(x);
            if k < n - 1 {
                assert(of_part[k] == of_whole[k]);
                assert(text_less(of_part[k], of_part[n - 1]));
                law_text_order_is_irreflexive(y);
            } else if k > n - 1 {
                assert(text_less(of_whole[n - 1], of_whole[k]));
                law_text_order_is_transitive(x, y, x);
            }
        }
    }
}

/// A page of accounts needs the first accounts behind the cursor, one more than the page may hold.
pub proof fn law_account_page_needs_its_rows(
    part: Tables,
    whole: Tables,
    organization_id: Text,
    cursor: Option<Text>,
    of_part: Seq<Text>,
    of_whole: Seq<Text>,
    limit: int,
)
    requires
        slice_of(part, whole),
        0 <= limit,
        is_listing(of_part, account_ids(part, organization_id, cursor)),
        is_listing(of_whole, account_ids(whole, organization_id, cursor)),
        forall|i: int|
            0 <= i <= limit && i < of_whole.len() ==> part.accounts.contains_key(
                #[trigger] of_whole[i],
            ),
    ensures
        page_ids(of_part, limit) == page_ids(of_whole, limit),
        page_cursor(of_part, limit) == page_cursor(of_whole, limit),
        accounts_outcome(part, organization_id, page_ids(of_whole, limit)) == accounts_outcome(
            whole,
            organization_id,
            page_ids(of_whole, limit),
        ),
{
    let (p, w) = (
        account_ids(part, organization_id, cursor),
        account_ids(whole, organization_id, cursor),
    );
    assert forall|i: int| 0 <= i <= limit && i < of_whole.len() implies p.contains(
        #[trigger] of_whole[i],
    ) by {
        assert(of_whole.contains(of_whole[i]));
        assert(w.contains(of_whole[i]));
    }
    assert(p.subset_of(w));
    lemma_page_from_first_rows(of_part, of_whole, p, w, limit);
    lemma_accounts_alike(part, whole, organization_id, page_ids(of_whole, limit));
}

proof fn lemma_accounts_alike(
    part: Tables,
    whole: Tables,
    organization_id: Text,
    ids: Seq<Text>,
)
    requires
        slice_of(part, whole),
        forall|i: int| 0 <= i < ids.len() ==> part.accounts.contains_key(#[trigger] ids[i]),
    ensures
        accounts_outcome(part, organization_id, ids) == accounts_outcome(
            whole,
            organization_id,
            ids,
        ),
    decreases ids.len(),
{
    if ids.len() > 0 {
        lemma_accounts_alike(part, whole, organization_id, ids.drop_last());
        assert(part.accounts.contains_key(ids[ids.len() - 1]));
    }
}

/// A page of periods needs the first periods behind the cursor, one more than the page may hold.
pub proof fn law_period_page_needs_its_rows(
    part: Tables,
    whole: Tables,
    organization_id: Text,
    account_id: Text,
    cursor: Option<Text>,
    of_part: Seq<Text>,
    of_whole: Seq<Text>,
    limit: int,
)
    requires
        slice_of(part, whole),
        0 <= limit,
        is_listing(of_part, period_ids(part, organization_id, account_id, cursor)),
        is_listing(of_whole, period_ids(whole, organization_id, account_id, cursor)),
        forall|i: int|
            0 <= i <= limit && i < of_whole.len() ==> part.periods.contains_key(
                #[trigger] of_whole[i],
            ),
    ensures
        page_ids(of_part, limit) == page_ids(of_whole, limit),
        page_cursor(of_part, limit) == page_cursor(of_whole, limit),
        periods_outcome(part, organization_id, page_ids(of_whole, limit)) == periods_outcome(
            whole,
            organization_id,
            page_ids(of_whole, limit),
        ),
{
    let (p, w) = (
        period_ids(part, organization_id, account_id, cursor),
        period_ids(whole, organization_id, account_id, cursor),
    );
    assert forall|i: int| 0 <= i <= limit && i < of_whole.len() implies p.contains(
        #[trigger] of_whole[i],
    ) by {
        assert(of_whole.contains(of_whole[i]));
        assert(w.contains(of_whole[i]));
    }
    assert(p.subset_of(w));
    lemma_page_from_first_rows(of_part, of_whole, p, w, limit);
    lemma_periods_alike(part, whole, organization_id, page_ids(of_whole, limit));
}

proof fn lemma_periods_alike(part: Tables, whole: Tables, organization_id: Text, ids: Seq<Text>)
    requires
        slice_of(part, whole),
        forall|i: int| 0 <= i < ids.len() ==> part.periods.contains_key(#[trigger] ids[i]),
    ensures
        periods_outcome(part, organization_id, ids) == periods_outcome(whole, organization_id, ids),
    decreases ids.len(),
{
    if ids.len() > 0 {
        lemma_periods_alike(part, whole, organization_id, ids.drop_last());
        assert(part.periods.contains_key(ids[ids.len() - 1]));
    }
}

/// A claim needs the periods with spent lines, and the period of the line that is next with its
/// account. In the slice every other line that could be taken on is passed over.
pub open spec fn claim_needs(
    part: Tables,
    whole: Tables,
    held_in_part: Set<Text>,
    held: Set<Text>,
    max_attempts: i32,
    now: i128,
) -> bool {
    &&& slice_of(part, whole)
    &&& forall|id: Text, i: int| #[trigger]
        line_at(whole, id, i) && spent(line(whole, id, i), max_attempts)
            ==> part.periods.contains_key(id)
    &&& forall|id: Text, i: int| #[trigger]
        next_to_claim(whole, held, max_attempts, now, id, i) ==> {
            &&& part.periods.contains_key(id)
            &&& !held_in_part.contains(line(whole, id, i).delivery_id)
            &&& whole.accounts.contains_key(whole.periods[id].account_id)
                ==> part.accounts.contains_key(whole.periods[id].account_id)
        }
    &&& forall|id: Text, i: int| #[trigger]
        line_at(part, id, i) && claimable(line(part, id, i), max_attempts, now) && !next_to_claim(
            whole,
            held,
            max_attempts,
            now,
            id,
            i,
        ) ==> held_in_part.contains(line(part, id, i).delivery_id)
}

/// A claim needs no other rows.
pub proof fn law_claim_needs_its_rows(
    part: Tables,
    whole: Tables,
    worker_id: Text,
    lease_seconds: i64,
    max_attempts: i32,
    held_in_part: Set<Text>,
    held: Set<Text>,
    now: i128,
)
    requires
        tables_ok(whole),
        claim_needs(part, whole, held_in_part, held, max_attempts, now),
    ensures
        carries_over(
            whole,
            claim_outcome(part, worker_id, lease_seconds, max_attempts, held_in_part, now),
            claim_outcome(whole, worker_id, lease_seconds, max_attempts, held, now),
        ),
{
    let g_part = tables_given_up(part, max_attempts, now);
    let g_whole = tables_given_up(whole, max_attempts, now);
    lemma_given_up_carries_over(part, whole, max_attempts, now);
    if anything_to_claim(whole, held, max_attempts, now) {
        let (id, i) = lemma_claim_place(whole, worker_id, lease_seconds, max_attempts, held, now);
        assert(line_at(whole, id, i));
        assert(line_at(part, id, i) && line(part, id, i) == line(whole, id, i));
        assert(open_to_claim(part, held_in_part, max_attempts, now, id, i));
        assert forall|other: Text, j: int| #[trigger]
            open_to_claim(part, held_in_part, max_attempts, now, other, j) implies other == id && j
            == i by {
            assert(next_to_claim(whole, held, max_attempts, now, other, j));
            lemma_next_is_unique(
                whole,
                held,
                max_attempts,
                now,
                other,
                j,
                id,
                i,
            );
        }
        assert(next_to_claim(part, held_in_part, max_attempts, now, id, i));
        let (chosen, k) = choose|chosen: Text, k: int| #[trigger]
            next_to_claim(part, held_in_part, max_attempts, now, chosen, k);
        assert(open_to_claim(part, held_in_part, max_attempts, now, chosen, k));
        assert(chosen == id && k == i);
        let of_part = claim_of(part, worker_id, lease_seconds, max_attempts, now, id, i);
        let of_whole = claim_of(whole, worker_id, lease_seconds, max_attempts, now, id, i);
        assert(g_part.periods[id] == g_whole.periods[id]);
        let account_id = g_whole.periods[id].account_id;
        assert(account_id == whole.periods[id].account_id);
        assert(part.accounts.contains_key(account_id) <==> whole.accounts.contains_key(account_id));
        match of_part {
            Ok((rows, claim)) => {
                assert(of_whole->Ok_0.0 =~= written_back(whole, rows));
            },
            Err(failure) => {},
        }
    } else {
        assert forall|id: Text, i: int| !#[trigger]
            open_to_claim(part, held_in_part, max_attempts, now, id, i) by {
            if open_to_claim(part, held_in_part, max_attempts, now, id, i) {
                assert(next_to_claim(whole, held, max_attempts, now, id, i));
                assert(open_to_claim(whole, held, max_attempts, now, id, i));
            }
        }
        assert(g_whole =~= written_back(whole, g_part));
    }
}

/// Giving up in the slice, written back, is giving up in the whole.
proof fn lemma_given_up_carries_over(part: Tables, whole: Tables, max_attempts: i32, now: i128)
    requires
        slice_of(part, whole),
        forall|id: Text, i: int| #[trigger]
            line_at(whole, id, i) && spent(line(whole, id, i), max_attempts)
                ==> part.periods.contains_key(id),
    ensures
        tables_given_up(whole, max_attempts, now) == written_back(
            whole,
            tables_given_up(part, max_attempts, now),
        ),
{
    let g_part = tables_given_up(part, max_attempts, now);
    let g_whole = tables_given_up(whole, max_attempts, now);
    let back = written_back(whole, g_part);
    assert forall|id: Text| #[trigger] whole.periods.contains_key(id) implies g_whole.periods[id]
        == back.periods[id] by {
        if !part.periods.contains_key(id) {
            assert forall|i: int| 0 <= i < whole.periods[id].lines.len() implies !spent(
                #[trigger] whole.periods[id].lines[i],
                max_attempts,
            ) by {
                assert(line_at(whole, id, i));
            }
        }
    }
    assert(g_whole.periods =~= back.periods);
    assert(g_whole.accounts =~= back.accounts);
    assert(g_whole.commands =~= back.commands);
}

} // verus!
