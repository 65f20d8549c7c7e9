//! Pages: following the cursor lists everything once.

use vstd::prelude::*;

use crate::laws::records::{
    law_account_is_shown_as_stored, law_accounts_are_listed_as_they_are_read,
    law_period_is_shown_as_stored, law_periods_are_listed_as_they_are_read,
};
use crate::order::{is_listing, law_listing_goes_on_behind, law_text_order_is_transitive, text_less};
use crate::tables::{
    account_ids, accounts_outcome, page_cursor, page_ids, period_ids, periods_outcome, tables_ok,
    Tables,
};
use crate::text::Text;

verus! {

/// The page and what its cursor leads to are all the accounts that were to be listed, in order and
/// each once; a page without a cursor is the last one.
pub proof fn law_account_pages_list_everything(
    t: Tables,
    organization_id: Text,
    cursor: Option<Text>,
    ids: Seq<Text>,
    limit: int,
)
    requires
        is_listing(ids, account_ids(t, organization_id, cursor)),
        0 < limit,
    ensures
        match page_cursor(ids, limit) {
            Some(next) => {
                &&& ids == page_ids(ids, limit) + ids.skip(limit)
                &&& is_listing(ids.skip(limit), account_ids(t, organization_id, Some(next)))
            },
            None => page_ids(ids, limit) == ids,
        },
{
    if limit < ids.len() {
        let wanted = account_ids(t, organization_id, cursor);
        let next = ids[limit - 1];
        law_listing_goes_on_behind(ids, wanted, limit - 1);
        let rest = wanted.intersect(Set::new(|text: Text| text_less(next, text)));
        assert(ids.contains(next));
        assert(wanted.contains(next));
        assert(rest =~= account_ids(t, organization_id, Some(next))) by {
            assert forall|id: Text|
                account_ids(t, organization_id, Some(next)).contains(id) implies wanted.contains(
                id,
            ) by {
                if cursor is Some {
                    law_text_order_is_transitive(cursor->0, next, id);
                }
            }
        }
        assert(ids =~= page_ids(ids, limit) + ids.skip(limit));
    }
}

/// The page and what its cursor leads to are all the periods that were to be listed, in order and
/// each once; a page without a cursor is the last one.
pub proof fn law_period_pages_list_everything(
    t: Tables,
    organization_id: Text,
    account_id: Text,
    cursor: Option<Text>,
    ids: Seq<Text>,
    limit: int,
)
    requires
        is_listing(ids, period_ids(t, organization_id, account_id, cursor)),
        0 < limit,
    ensures
        match page_cursor(ids, limit) {
            Some(next) => {
                &&& ids == page_ids(ids, limit) + ids.skip(limit)
                &&& is_listing(
                    ids.skip(limit),
                    period_ids(t, organization_id, account_id, Some(next)),
                )
            },
            None => page_ids(ids, limit) == ids,
        },
{
    if limit < ids.len() {
        let wanted = period_ids(t, organization_id, account_id, cursor);
        let next = ids[limit - 1];
        law_listing_goes_on_behind(ids, wanted, limit - 1);
        let rest = wanted.intersect(Set::new(|text: Text| text_less(next, text)));
        assert(ids.contains(next));
        assert(wanted.contains(next));
        assert(rest =~= period_ids(t, organization_id, account_id, Some(next))) by {
            assert forall|id: Text|
                period_ids(
                    t,
                    organization_id,
                    account_id,
                    Some(next),
                ).contains(id) implies wanted.contains(id) by {
                if cursor is Some {
                    law_text_order_is_transitive(cursor->0, next, id);
                }
            }
        }
        assert(ids =~= page_ids(ids, limit) + ids.skip(limit));
    }
}

/// A page of accounts: at most as many as asked for, all of them of the organization and behind
/// the cursor, in strict order; none is left out up to where the page ends; and it says where to
/// go on exactly when something is left, namely behind its last account.
pub proof fn law_account_page_is_complete(
    t: Tables,
    organization_id: Text,
    cursor: Option<Text>,
    ids: Seq<Text>,
    limit: int,
)
    requires
        tables_ok(t),
        is_listing(ids, account_ids(t, organization_id, cursor)),
        0 < limit,
        accounts_outcome(t, organization_id, page_ids(ids, limit)) is Ok,
    ensures
        ({
            let page = accounts_outcome(t, organization_id, page_ids(ids, limit))->Ok_0;
            let next = page_cursor(ids, limit);
            &&& page.len() <= limit
            &&& forall|i: int|
                0 <= i < page.len() ==> {
                    &&& (#[trigger] page[i]).organization_id == organization_id
                    &&& t.accounts.contains_key(page[i].account_id)
                    &&& cursor is Some ==> text_less(cursor->0, page[i].account_id)
                }
            &&& forall|i: int, j: int|
                0 <= i < j < page.len() ==> text_less(
                    (#[trigger] page[i]).account_id,
                    (#[trigger] page[j]).account_id,
                )
            &&& forall|id: Text| #[trigger]
                t.accounts.contains_key(id) && t.accounts[id].organization_id == organization_id
                    && (cursor is Some ==> text_less(cursor->0, id)) ==> {
                    ||| exists|i: int| 0 <= i < page.len() && (#[trigger] page[i]).account_id == id
                    ||| next is Some && text_less(next->0, id)
                }
            &&& next is Some ==> {
                &&& page.len() == limit
                &&& next->0 == page.last().account_id
                &&& exists|id: Text| #[trigger]
                    t.accounts.contains_key(id) && t.accounts[id].organization_id == organization_id
                        && text_less(next->0, id)
            }
        }),
{
    let on_page = page_ids(ids, limit);
    let page = accounts_outcome(t, organization_id, on_page)->Ok_0;
    let next = page_cursor(ids, limit);
    let wanted = account_ids(t, organization_id, cursor);
    law_accounts_are_listed_as_they_are_read(t, organization_id, on_page);
    assert forall|i: int| 0 <= i < page.len() implies (#[trigger] page[i]).account_id == ids[i]
        && page[i].organization_id == organization_id && wanted.contains(ids[i]) by {
        law_account_is_shown_as_stored(t, organization_id, on_page[i]);
        assert(on_page[i] == ids[i]);
        assert(ids.contains(ids[i]));
    }
    assert forall|id: Text| #[trigger]
        t.accounts.contains_key(id) && t.accounts[id].organization_id == organization_id && (cursor
            is Some ==> text_less(cursor->0, id)) implies (exists|i: int|
        0 <= i < page.len() && (#[trigger] page[i]).account_id == id) || (next is Some && text_less(
        next->0,
        id,
    )) by {
        assert(wanted.contains(id));
        assert(ids.contains(id));
        let i = choose|i: int| 0 <= i < ids.len() && ids[i] == id;
        if i < page.len() {
            assert(page[i].account_id == id);
        } else {
            assert(text_less(ids[limit - 1], ids[i]));
        }
    }
    if next is Some {
        assert(ids.contains(ids[limit]));
        assert(wanted.contains(ids[limit]));
        assert(text_less(ids[limit - 1], ids[limit]));
        assert(t.accounts.contains_key(ids[limit]));
    }
}

/// A page of periods: at most as many as asked for, all of them of the organization's account and
/// behind the cursor, in strict order; none is left out up to where the page ends; and it says
/// where to go on exactly when something is left, namely behind its last period.
pub proof fn law_period_page_is_complete(
    t: Tables,
    organization_id: Text,
    account_id: Text,
    cursor: Option<Text>,
    ids: Seq<Text>,
    limit: int,
)
    requires
        tables_ok(t),
        is_listing(ids, period_ids(t, organization_id, account_id, cursor)),
        0 < limit,
        periods_outcome(t, organization_id, page_ids(ids, limit)) is Ok,
    ensures
        ({
            let page = periods_outcome(t, organization_id, page_ids(ids, limit))->Ok_0;
            let next = page_cursor(ids, limit);
            &&& page.len() <= limit
            &&& forall|i: int|
                0 <= i < page.len() ==> {
                    &&& (#[trigger] page[i]).organization_id == organization_id
                    &&& page[i].account_id == account_id
                    &&& t.periods.contains_key(page[i].period_id)
                    &&& cursor is Some ==> text_less(cursor->0, page[i].period_id)
                }
            &&& forall|i: int, j: int|
                0 <= i < j < page.len() ==> text_less(
                    (#[trigger] page[i]).period_id,
                    (#[trigger] page[j]).period_id,
                )
            &&& forall|id: Text| #[trigger]
                t.periods.contains_key(id) && t.periods[id].organization_id == organization_id
                    && t.periods[id].account_id == account_id && (cursor is Some ==> text_less(
                    cursor->0,
                    id,
                )) ==> {
                    ||| exists|i: int| 0 <= i < page.len() && (#[trigger] page[i]).period_id == id
                    ||| next is Some && text_less(next->0, id)
                }
            &&& next is Some ==> {
                &&& page.len() == limit
                &&& next->0 == page.last().period_id
                &&& exists|id: Text| #[trigger]
                    t.periods.contains_key(id) && t.periods[id].organization_id == organization_id
                        && t.periods[id].account_id == account_id && text_less(next->0, id)
            }
        }),
{
    let on_page = page_ids(ids, limit);
    let page = periods_outcome(t, organization_id, on_page)->Ok_0;
    let next = page_cursor(ids, limit);
    let wanted = period_ids(t, organization_id, account_id, cursor);
    law_periods_are_listed_as_they_are_read(t, organization_id, on_page);
    assert forall|i: int| 0 <= i < page.len() implies (#[trigger] page[i]).period_id == ids[i]
        && page[i].organization_id == organization_id && page[i].account_id == account_id
        && wanted.contains(ids[i]) by {
        law_period_is_shown_as_stored(t, organization_id, on_page[i]);
        assert(on_page[i] == ids[i]);
        assert(ids.contains(ids[i]));
        assert(wanted.contains(ids[i]));
    }
    assert forall|id: Text| #[trigger]
        t.periods.contains_key(id) && t.periods[id].organization_id == organization_id
            && t.periods[id].account_id == account_id && (cursor is Some ==> text_less(
            cursor->0,
            id,
        )) implies (exists|i: int|
        0 <= i < page.len() && (#[trigger] page[i]).period_id == id) || (next is Some && text_less(
        next->0,
        id,
    )) by {
        assert(wanted.contains(id));
        assert(ids.contains(id));
        let i = choose|i: int| 0 <= i < ids.len() && ids[i] == id;
        if i < page.len() {
            assert(page[i].period_id == id);
        } else {
            assert(text_less(ids[limit - 1], ids[i]));
        }
    }
    if next is Some {
        assert(ids.contains(ids[limit]));
        assert(wanted.contains(ids[limit]));
        assert(text_less(ids[limit - 1], ids[limit]));
        assert(t.periods.contains_key(ids[limit]));
    }
}

} // verus!
