//! The ledger store: categories and cost entries of every chat, and the
//! statistics computed over them.

use vstd::prelude::*;
use crate::calendar::{in_window, month_window_around, month_window_at, now_seconds, window_contains};
use crate::item::{Category, CategoryView};
use crate::resolver::{is_match, is_only_match, resolved};
use crate::stat::{group_fits, groups_view, total_amount, total_items, StatCategoryView};
pub use crate::stat::{Stat, StatCategory};

verus! {

/// The identity of a chat: the account that categories and costs belong to.
#[derive(Clone, Copy, Debug, PartialEq, Eq, Structural)]
pub struct ChatId(pub i64);

/// Why the store refused or could not do an operation.
#[derive(Debug)]
pub enum DBError {
    /// The store could not be reached.
    Connection,
    /// The store's tables could not be set up.
    Migration,
    /// A date was not written as YYYY-MM-DD; holds the text that was given.
    DateFormatError(String),
    /// The alias is already taken by a category of the same chat.
    Conflict,
    /// No category has the id that a cost was to be filed under.
    UnknownCategory,
    /// The store has no id left to give.
    Exhausted,
    /// The instant lies outside the range of the calendar.
    OutOfRange,
}

/// A stored category: its id, the chat that owns it, and the category.
pub struct CategoryRow {
    pub id: i64,
    pub chat_id: ChatId,
    pub category: Category,
}

/// The mathematical content of a [`CategoryRow`].
pub struct CategoryRowView {
    pub id: i64,
    pub chat_id: i64,
    pub category: CategoryView,
}

impl View for CategoryRow {
    type V = CategoryRowView;

    open spec fn view(&self) -> CategoryRowView {
        CategoryRowView { id: self.id, chat_id: self.chat_id.0, category: self.category@ }
    }
}

impl Clone for CategoryRow {
    fn clone(&self) -> (res: Self)
        ensures
            res@ == self@,
    {
        CategoryRow { id: self.id, chat_id: self.chat_id, category: self.category.clone() }
    }
}

/// The views of a sequence of rows, one per row.
pub open spec fn rows_view(rows: Seq<CategoryRow>) -> Seq<CategoryRowView> {
    rows.map_values(|r: CategoryRow| r@)
}

/// How a category is listed: its name, then its alias in brackets.
pub open spec fn category_line(c: CategoryView) -> Seq<char> {
    c.name + " ("@ + c.alias + ")"@
}

impl CategoryRow {
    /// The line that lists this category.
    pub fn to_string(&self) -> (res: String)
        ensures
            res@ == category_line(self.category@),
    {
        let mut out = self.category.name.clone();
        out.append(" (");
        out.append(self.category.alias.as_str());
        out.append(")");
        out
    }
}

/// A stored cost: its id, the category it is filed under, the instant it is
/// dated at in seconds since the Unix epoch, and its amount in cents.
#[derive(Clone, Copy, Debug)]
pub struct CostRow {
    pub id: i64,
    pub category_id: i64,
    pub dt: i64,
    pub amount_cent: i64,
}

/// The ledger store, held in memory. Ids are handed out in the order of
/// creation and never again.
pub struct DB {
    categories: Vec<CategoryRow>,
    spendings: Vec<CostRow>,
    last_category_id: i64,
    last_cost_id: i64,
}

/// The mathematical content of a [`DB`]: its categories and its costs, each in
/// the order of creation, and the last id handed out of each kind.
pub struct DBView {
    pub categories: Seq<CategoryRowView>,
    pub spendings: Seq<CostRow>,
    pub last_category_id: i64,
    pub last_cost_id: i64,
}

impl View for DB {
    type V = DBView;

    closed spec fn view(&self) -> DBView {
        DBView {
            categories: rows_view(self.categories@),
            spendings: self.spendings@,
            last_category_id: self.last_category_id,
            last_cost_id: self.last_cost_id,
        }
    }
}

/// Whether the category at index `i` belongs to `chat` and has `alias`.
pub open spec fn has_alias(cats: Seq<CategoryRowView>, chat: i64, alias: Seq<char>, i: int) -> bool {
    0 <= i < cats.len() && cats[i].chat_id == chat && cats[i].category.alias == alias
}

/// Whether the category at index `i` is the first of `chat` that has `alias`.
pub open spec fn is_first_with_alias(
    cats: Seq<CategoryRowView>,
    chat: i64,
    alias: Seq<char>,
    i: int,
) -> bool {
    has_alias(cats, chat, alias, i) && forall|j: int| 0 <= j < i ==> !has_alias(cats, chat, alias, j)
}

/// Whether a category of `chat` has `alias`.
pub open spec fn alias_taken(cats: Seq<CategoryRowView>, chat: i64, alias: Seq<char>) -> bool {
    exists|i: int| has_alias(cats, chat, alias, i)
}

/// Whether a category has the id `category_id`.
pub open spec fn category_exists(cats: Seq<CategoryRowView>, category_id: i64) -> bool {
    exists|i: int| 0 <= i < cats.len() && #[trigger] cats[i].id == category_id
}

/// Whether the category with the id `category_id` belongs to `chat`.
pub open spec fn category_in_chat(cats: Seq<CategoryRowView>, category_id: i64, chat: i64) -> bool {
    exists|i: int|
        0 <= i < cats.len() && #[trigger] cats[i].id == category_id && cats[i].chat_id == chat
}

/// The invariant of the store: ids are positive, not above the last one
/// handed out, and rise with the order of creation; no two categories of a
/// chat share an alias; every cost is filed under a category that exists.
pub open spec fn ledger_wf(v: DBView) -> bool {
    &&& 0 <= v.last_category_id
    &&& 0 <= v.last_cost_id
    &&& forall|i: int|
        0 <= i < v.categories.len() ==> 0 < #[trigger] v.categories[i].id <= v.last_category_id
    &&& forall|i: int, j: int|
        0 <= i < j < v.categories.len() ==> #[trigger] v.categories[i].id
            < #[trigger] v.categories[j].id
    &&& forall|i: int, j: int|
        has_alias(v.categories, v.categories[i].chat_id, v.categories[i].category.alias, j) && 0
            <= i < v.categories.len() ==> i == j
    &&& forall|k: int|
        0 <= k < v.spendings.len() ==> 0 < #[trigger] v.spendings[k].id <= v.last_cost_id
    &&& forall|k: int, l: int|
        0 <= k < l < v.spendings.len() ==> #[trigger] v.spendings[k].id
            < #[trigger] v.spendings[l].id
    &&& forall|k: int|
        0 <= k < v.spendings.len() ==> category_exists(
            v.categories,
            #[trigger] v.spendings[k].category_id,
        )
}

/// A store that holds nothing and has handed out no id.
pub open spec fn empty_ledger() -> DBView {
    DBView {
        categories: Seq::empty(),
        spendings: Seq::empty(),
        last_category_id: 0,
        last_cost_id: 0,
    }
}

/// The categories of one chat, in the order of creation.
pub open spec fn rows_of_chat(cats: Seq<CategoryRowView>, chat: i64) -> Seq<CategoryRowView> {
    cats.filter(|r: CategoryRowView| r.chat_id == chat)
}

/// The store after a category was created in it.
pub open spec fn category_created(
    v: DBView,
    chat: i64,
    alias: Seq<char>,
    name: Seq<char>,
) -> DBView {
    DBView {
        categories: v.categories.push(
            CategoryRowView {
                id: (v.last_category_id + 1) as i64,
                chat_id: chat,
                category: CategoryView { alias, name },
            },
        ),
        last_category_id: (v.last_category_id + 1) as i64,
        ..v
    }
}

/// What creating a category does: it is refused where the alias is taken in
/// the chat, and where no id is left; else the category is appended under the
/// next id.
pub open spec fn create_category_outcome(
    before: DBView,
    after: DBView,
    res: Result<i64, DBError>,
    chat: i64,
    alias: Seq<char>,
    name: Seq<char>,
) -> bool {
    if alias_taken(before.categories, chat, alias) {
        res matches Err(DBError::Conflict) && after == before
    } else if before.last_category_id == i64::MAX {
        res matches Err(DBError::Exhausted) && after == before
    } else {
        &&& res matches Ok(id)
        &&& id == before.last_category_id + 1
        &&& after == category_created(before, chat, alias, name)
    }
}

/// The store after the category at index `i` got a new alias and name.
pub open spec fn category_renamed(
    v: DBView,
    i: int,
    new_alias: Seq<char>,
    name: Seq<char>,
) -> DBView {
    DBView {
        categories: v.categories.update(
            i,
            CategoryRowView {
                category: CategoryView { alias: new_alias, name },
                ..v.categories[i]
            },
        ),
        ..v
    }
}

/// What renaming a category does. Where no category of the chat has the
/// alias, nothing changes. Where another category of the chat has the new
/// alias, the change is refused. Else the category gets the new alias and
/// name, and keeps its id and its place.
pub open spec fn update_category_outcome(
    before: DBView,
    after: DBView,
    res: Result<(), DBError>,
    chat: i64,
    alias: Seq<char>,
    new_alias: Seq<char>,
    name: Seq<char>,
) -> bool {
    if !alias_taken(before.categories, chat, alias) {
        res is Ok && after == before
    } else if new_alias != alias && alias_taken(before.categories, chat, new_alias) {
        res matches Err(DBError::Conflict) && after == before
    } else {
        &&& res is Ok
        &&& exists|i: int|
            has_alias(before.categories, chat, alias, i) && after == category_renamed(
                before,
                i,
                new_alias,
                name,
            )
    }
}

/// The store after a cost was created in it.
pub open spec fn cost_created(v: DBView, category_id: i64, amount: i64, dt: i64) -> DBView {
    DBView {
        spendings: v.spendings.push(
            CostRow { id: (v.last_cost_id + 1) as i64, category_id, dt, amount_cent: amount },
        ),
        last_cost_id: (v.last_cost_id + 1) as i64,
        ..v
    }
}

/// What creating a cost dated at `dt` does: it is refused where the category
/// does not exist, and where no id is left; else the cost is appended under
/// the next id.
pub open spec fn create_cost_outcome(
    before: DBView,
    after: DBView,
    res: Result<i64, DBError>,
    category_id: i64,
    amount: i64,
    dt: i64,
) -> bool {
    if !category_exists(before.categories, category_id) {
        res matches Err(DBError::UnknownCategory) && after == before
    } else if before.last_cost_id == i64::MAX {
        res matches Err(DBError::Exhausted) && after == before
    } else {
        &&& res matches Ok(id)
        &&& id == before.last_cost_id + 1
        &&& after == cost_created(before, category_id, amount, dt)
    }
}

/// Whether the cost at index `k` is filed under a category of `chat`.
pub open spec fn cost_of_chat(v: DBView, chat: i64, k: int) -> bool {
    0 <= k < v.spendings.len() && category_in_chat(v.categories, v.spendings[k].category_id, chat)
}

/// Whether the cost at index `k` is the one of `chat` that was created last:
/// no cost of the chat has a greater id.
pub open spec fn is_last_cost(v: DBView, chat: i64, k: int) -> bool {
    &&& cost_of_chat(v, chat, k)
    &&& forall|l: int| cost_of_chat(v, chat, l) ==> v.spendings[l].id <= v.spendings[k].id
}

/// What removing the last cost of a chat does: the cost of the chat with the
/// greatest id leaves the store and its id is returned, whatever instant it
/// is dated at; where the chat has no cost, nothing changes.
pub open spec fn remove_last_cost_outcome(
    before: DBView,
    after: DBView,
    res: Option<i64>,
    chat: i64,
) -> bool {
    match res {
        Some(id) => exists|k: int|
            is_last_cost(before, chat, k) && before.spendings[k].id == id && after == (DBView {
                spendings: before.spendings.remove(k),
                ..before
            }),
        None => after == before && forall|k: int| !cost_of_chat(before, chat, k),
    }
}

/// Whether a cost is filed under a category and dated within a window.
pub open spec fn cost_hits(c: CostRow, category_id: i64, from: Option<i64>, to: Option<i64>) -> bool {
    c.category_id == category_id && in_window(c.dt, from, to)
}

/// The number of costs of a category within a window.
pub open spec fn category_count(
    costs: Seq<CostRow>,
    category_id: i64,
    from: Option<i64>,
    to: Option<i64>,
) -> nat
    decreases costs.len(),
{
    if costs.len() == 0 {
        0
    } else {
        category_count(costs.drop_last(), category_id, from, to) + (if cost_hits(
            costs.last(),
            category_id,
            from,
            to,
        ) {
            1nat
        } else {
            0
        })
    }
}

/// The sum of the amounts of the costs of a category within a window.
pub open spec fn category_amount(
    costs: Seq<CostRow>,
    category_id: i64,
    from: Option<i64>,
    to: Option<i64>,
) -> int
    decreases costs.len(),
{
    if costs.len() == 0 {
        0
    } else {
        category_amount(costs.drop_last(), category_id, from, to) + (if cost_hits(
            costs.last(),
            category_id,
            from,
            to,
        ) {
            costs.last().amount_cent as int
        } else {
            0
        })
    }
}

/// The groups of a chat's statistic over a window: one for each category of
/// the chat that has a cost in the window, in the order of creation of the
/// categories.
pub open spec fn stat_groups(
    cats: Seq<CategoryRowView>,
    costs: Seq<CostRow>,
    chat: i64,
    from: Option<i64>,
    to: Option<i64>,
) -> Seq<StatCategoryView>
    decreases cats.len(),
{
    if cats.len() == 0 {
        Seq::empty()
    } else {
        let rest = stat_groups(cats.drop_last(), costs, chat, from, to);
        let cat = cats.last();
        if cat.chat_id == chat && category_count(costs, cat.id, from, to) > 0 {
            rest.push(
                StatCategoryView {
                    category: cat.category,
                    n_items: category_count(costs, cat.id, from, to),
                    amount: category_amount(costs, cat.id, from, to),
                },
            )
        } else {
            rest
        }
    }
}

/// Whether a cost belongs to a chat and is dated within a window.
pub open spec fn cost_counts(
    cats: Seq<CategoryRowView>,
    c: CostRow,
    chat: i64,
    from: Option<i64>,
    to: Option<i64>,
) -> bool {
    category_in_chat(cats, c.category_id, chat) && in_window(c.dt, from, to)
}

/// The number of costs of a chat within a window, whatever their category.
pub open spec fn account_count(
    cats: Seq<CategoryRowView>,
    costs: Seq<CostRow>,
    chat: i64,
    from: Option<i64>,
    to: Option<i64>,
) -> nat
    decreases costs.len(),
{
    if costs.len() == 0 {
        0
    } else {
        account_count(cats, costs.drop_last(), chat, from, to) + (if cost_counts(
            cats,
            costs.last(),
            chat,
            from,
            to,
        ) {
            1nat
        } else {
            0
        })
    }
}

/// The sum of the amounts of the costs of a chat within a window, whatever
/// their category.
pub open spec fn account_amount(
    cats: Seq<CategoryRowView>,
    costs: Seq<CostRow>,
    chat: i64,
    from: Option<i64>,
    to: Option<i64>,
) -> int
    decreases costs.len(),
{
    if costs.len() == 0 {
        0
    } else {
        account_amount(cats, costs.drop_last(), chat, from, to) + (if cost_counts(
            cats,
            costs.last(),
            chat,
            from,
            to,
        ) {
            costs.last().amount_cent as int
        } else {
            0
        })
    }
}

/// The costs of a chat within a window, counted category by category.
pub open spec fn chat_count(
    cats: Seq<CategoryRowView>,
    costs: Seq<CostRow>,
    chat: i64,
    from: Option<i64>,
    to: Option<i64>,
) -> nat
    decreases cats.len(),
{
    if cats.len() == 0 {
        0
    } else {
        chat_count(cats.drop_last(), costs, chat, from, to) + (if cats.last().chat_id == chat {
            category_count(costs, cats.last().id, from, to)
        } else {
            0
        })
    }
}

/// The amounts of a chat within a window, summed category by category.
pub open spec fn chat_amount(
    cats: Seq<CategoryRowView>,
    costs: Seq<CostRow>,
    chat: i64,
    from: Option<i64>,
    to: Option<i64>,
) -> int
    decreases cats.len(),
{
    if cats.len() == 0 {
        0
    } else {
        chat_amount(cats.drop_last(), costs, chat, from, to) + (if cats.last().chat_id == chat {
            category_amount(costs, cats.last().id, from, to)
        } else {
            0
        })
    }
}

/// Whether no two categories share an id.
pub open spec fn distinct_ids(cats: Seq<CategoryRowView>) -> bool {
    forall|i: int, j: int|
        0 <= i < j < cats.len() ==> #[trigger] cats[i].id != #[trigger] cats[j].id
}

/// A category holds no more costs than there are, and the sum of their
/// amounts is that of as many amounts of 64 bits.
pub proof fn lemma_category_bounds(
    costs: Seq<CostRow>,
    category_id: i64,
    from: Option<i64>,
    to: Option<i64>,
)
    ensures
        category_count(costs, category_id, from, to) <= costs.len(),
        group_fits(
            category_count(costs, category_id, from, to),
            category_amount(costs, category_id, from, to),
        ),
    decreases costs.len(),
{
    if costs.len() > 0 {
        lemma_category_bounds(costs.drop_last(), category_id, from, to);
        let n = category_count(costs.drop_last(), category_id, from, to);
        assert((n + 1) * 0x8000_0000_0000_0000 == n * 0x8000_0000_0000_0000
            + 0x8000_0000_0000_0000);
    }
}

/// The totals of the groups are the counts and amounts of the chat's
/// categories, added up.
pub proof fn lemma_groups_total(
    cats: Seq<CategoryRowView>,
    costs: Seq<CostRow>,
    chat: i64,
    from: Option<i64>,
    to: Option<i64>,
)
    ensures
        total_items(stat_groups(cats, costs, chat, from, to)) == chat_count(
            cats,
            costs,
            chat,
            from,
            to,
        ),
        total_amount(stat_groups(cats, costs, chat, from, to)) == chat_amount(
            cats,
            costs,
            chat,
            from,
            to,
        ),
    decreases cats.len(),
{
    if cats.len() > 0 {
        lemma_groups_total(cats.drop_last(), costs, chat, from, to);
        lemma_category_bounds(costs, cats.last().id, from, to);
        let rest = stat_groups(cats.drop_last(), costs, chat, from, to);
        let all = stat_groups(cats, costs, chat, from, to);
        if all.len() > rest.len() {
            assert(all.drop_last() =~= rest);
        }
    }
}

/// A cost more adds to the sums over the categories what it adds to the sums
/// over the costs.
pub proof fn lemma_chat_push(
    cats: Seq<CategoryRowView>,
    costs: Seq<CostRow>,
    c: CostRow,
    chat: i64,
    from: Option<i64>,
    to: Option<i64>,
)
    requires
        distinct_ids(cats),
    ensures
        chat_count(cats, costs.push(c), chat, from, to) == chat_count(cats, costs, chat, from, to)
            + (if cost_counts(cats, c, chat, from, to) { 1nat } else { 0 }),
        chat_amount(cats, costs.push(c), chat, from, to) == chat_amount(
            cats,
            costs,
            chat,
            from,
            to,
        ) + (if cost_counts(cats, c, chat, from, to) { c.amount_cent as int } else { 0 }),
    decreases cats.len(),
{
    if cats.len() > 0 {
        let init = cats.drop_last();
        let k = cats.last();
        assert(distinct_ids(init)) by {
            assert forall|i: int, j: int| 0 <= i < j < init.len() implies #[trigger] init[i].id
                != #[trigger] init[j].id by {
                assert(cats[i].id != cats[j].id);
            }
        }
        lemma_chat_push(init, costs, c, chat, from, to);
        assert(costs.push(c).drop_last() =~= costs);
        assert(costs.push(c).last() == c);
        let here = k.id == c.category_id && k.chat_id == chat;
        let before = category_in_chat(init, c.category_id, chat);
        if before {
            let i = choose|i: int|
                0 <= i < init.len() && #[trigger] init[i].id == c.category_id && init[i].chat_id
                    == chat;
            assert(cats[i].id == c.category_id && cats[i].chat_id == chat);
            assert(cats[i].id != cats[cats.len() - 1].id);
            assert(category_in_chat(cats, c.category_id, chat));
        }
        if here {
            assert(cats[cats.len() - 1].id == c.category_id);
            assert(category_in_chat(cats, c.category_id, chat));
        }
        if category_in_chat(cats, c.category_id, chat) {
            let i = choose|i: int|
                0 <= i < cats.len() && #[trigger] cats[i].id == c.category_id && cats[i].chat_id
                    == chat;
            if i < init.len() {
                assert(init[i].id == c.category_id && init[i].chat_id == chat);
            }
            assert(before || here);
        }
        if k.id == c.category_id && !here {
            // The category of the cost belongs to another chat.
            if before {
                let i = choose|i: int|
                    0 <= i < init.len() && #[trigger] init[i].id == c.category_id
                        && init[i].chat_id == chat;
                assert(cats[i].id != cats[cats.len() - 1].id);
            }
        }
    }
}

/// Summed category by category or cost by cost, the costs of a chat within a
/// window come to the same.
pub proof fn lemma_chat_is_account(
    cats: Seq<CategoryRowView>,
    costs: Seq<CostRow>,
    chat: i64,
    from: Option<i64>,
    to: Option<i64>,
)
    requires
        distinct_ids(cats),
    ensures
        chat_count(cats, costs, chat, from, to) == account_count(cats, costs, chat, from, to),
        chat_amount(cats, costs, chat, from, to) == account_amount(cats, costs, chat, from, to),
        account_count(cats, costs, chat, from, to) <= costs.len(),
    decreases costs.len(), cats.len(),
{
    if costs.len() == 0 {
        if cats.len() > 0 {
            assert(distinct_ids(cats.drop_last())) by {
                let init = cats.drop_last();
                assert forall|i: int, j: int| 0 <= i < j < init.len() implies #[trigger] init[i].id
                    != #[trigger] init[j].id by {
                    assert(cats[i].id != cats[j].id);
                }
            }
            lemma_chat_is_account(cats.drop_last(), costs, chat, from, to);
        }
    } else {
        lemma_chat_is_account(cats, costs.drop_last(), chat, from, to);
        lemma_chat_push(cats, costs.drop_last(), costs.last(), chat, from, to);
        assert(costs.drop_last().push(costs.last()) =~= costs);
    }
}

/// Law of the statistic: over any chat and window, the counts of the groups
/// add up to the number of the chat's costs in the window, and the amounts of
/// the groups add up to the sum of those costs' amounts.
pub proof fn lemma_stat_totals(v: DBView, chat: i64, from: Option<i64>, to: Option<i64>)
    requires
        ledger_wf(v),
    ensures
        total_items(stat_groups(v.categories, v.spendings, chat, from, to)) == account_count(
            v.categories,
            v.spendings,
            chat,
            from,
            to,
        ),
        total_amount(stat_groups(v.categories, v.spendings, chat, from, to)) == account_amount(
            v.categories,
            v.spendings,
            chat,
            from,
            to,
        ),
        account_count(v.categories, v.spendings, chat, from, to) <= v.spendings.len(),
{
    lemma_groups_total(v.categories, v.spendings, chat, from, to);
    lemma_chat_is_account(v.categories, v.spendings, chat, from, to);
}

/// Where no category of a chat has a cost in the window, the statistic has no
/// group.
pub proof fn lemma_no_groups(
    cats: Seq<CategoryRowView>,
    costs: Seq<CostRow>,
    chat: i64,
    from: Option<i64>,
    to: Option<i64>,
)
    requires
        chat_count(cats, costs, chat, from, to) == 0,
    ensures
        stat_groups(cats, costs, chat, from, to) == Seq::<StatCategoryView>::empty(),
    decreases cats.len(),
{
    if cats.len() > 0 {
        lemma_no_groups(cats.drop_last(), costs, chat, from, to);
    }
}

/// A chat that none of the costs belongs to counts none in any window.
pub proof fn lemma_no_costs_count_nothing(
    cats: Seq<CategoryRowView>,
    costs: Seq<CostRow>,
    chat: i64,
    from: Option<i64>,
    to: Option<i64>,
)
    requires
        forall|k: int|
            0 <= k < costs.len() ==> !category_in_chat(cats, #[trigger] costs[k].category_id, chat),
    ensures
        account_count(cats, costs, chat, from, to) == 0,
    decreases costs.len(),
{
    if costs.len() > 0 {
        assert forall|k: int| 0 <= k < costs.drop_last().len() implies !category_in_chat(
            cats,
            #[trigger] costs.drop_last()[k].category_id,
            chat,
        ) by {
            assert(costs.drop_last()[k] == costs[k]);
        }
        lemma_no_costs_count_nothing(cats, costs.drop_last(), chat, from, to);
        assert(costs.last() == costs[costs.len() - 1]);
    }
}

/// Law of the empty statistic: a chat without a cost in the window has a
/// statistic of no groups and totals of zero.
pub proof fn lemma_stat_of_nothing(v: DBView, chat: i64, from: Option<i64>, to: Option<i64>)
    requires
        ledger_wf(v),
        account_count(v.categories, v.spendings, chat, from, to) == 0,
    ensures
        stat_groups(v.categories, v.spendings, chat, from, to).len() == 0,
        total_items(stat_groups(v.categories, v.spendings, chat, from, to)) == 0,
        total_amount(stat_groups(v.categories, v.spendings, chat, from, to)) == 0,
{
    lemma_chat_is_account(v.categories, v.spendings, chat, from, to);
    lemma_no_groups(v.categories, v.spendings, chat, from, to);
}

/// Law of the empty account: a chat without any cost has, over every window,
/// a statistic of no groups and totals of zero.
pub proof fn lemma_stat_of_empty_account(v: DBView, chat: i64, from: Option<i64>, to: Option<i64>)
    requires
        ledger_wf(v),
        forall|k: int| !cost_of_chat(v, chat, k),
    ensures
        stat_groups(v.categories, v.spendings, chat, from, to).len() == 0,
        total_items(stat_groups(v.categories, v.spendings, chat, from, to)) == 0,
        total_amount(stat_groups(v.categories, v.spendings, chat, from, to)) == 0,
{
    assert forall|k: int| 0 <= k < v.spendings.len() implies !category_in_chat(
        v.categories,
        #[trigger] v.spendings[k].category_id,
        chat,
    ) by {
        assert(!cost_of_chat(v, chat, k));
    }
    lemma_no_costs_count_nothing(v.categories, v.spendings, chat, from, to);
    lemma_stat_of_nothing(v, chat, from, to);
}

/// Law of the last cost: of the costs of a chat, exactly one is the last, the
/// one that was created after all others, whatever the instants they are
/// dated at.
pub proof fn lemma_last_cost_is_latest(v: DBView, chat: i64, k: int, l: int)
    requires
        ledger_wf(v),
        is_last_cost(v, chat, k),
        cost_of_chat(v, chat, l),
    ensures
        l <= k,
        v.spendings[l].id <= v.spendings[k].id,
        is_last_cost(v, chat, l) ==> l == k,
{
    if k < l {
        assert(v.spendings[k].id < v.spendings[l].id);
    }
}

/// Law of removal after creation: once a cost is created in a chat, dated
/// whenever, removing the chat's last cost removes that cost and no other.
pub proof fn lemma_remove_takes_created(
    v: DBView,
    chat: i64,
    category_id: i64,
    amount: i64,
    dt: i64,
    after: DBView,
    res: Option<i64>,
)
    requires
        ledger_wf(v),
        category_in_chat(v.categories, category_id, chat),
        v.last_cost_id < i64::MAX,
        remove_last_cost_outcome(cost_created(v, category_id, amount, dt), after, res, chat),
    ensures
        res == Some((v.last_cost_id + 1) as i64),
        after == (DBView { last_cost_id: (v.last_cost_id + 1) as i64, ..v }),
{
    let mid = cost_created(v, category_id, amount, dt);
    let n = v.spendings.len() as int;
    assert(mid.spendings[n].category_id == category_id);
    assert(cost_of_chat(mid, chat, n));
    let k = choose|k: int|
        is_last_cost(mid, chat, k) && mid.spendings[k].id == res->0 && after == (DBView {
            spendings: mid.spendings.remove(k),
            ..mid
        });
    if k < n {
        assert(mid.spendings[k] == v.spendings[k]);
        assert(v.spendings[k].id <= v.last_cost_id);
        assert(mid.spendings[n].id <= mid.spendings[k].id);
    }
    assert(mid.spendings.remove(n) =~= v.spendings);
}

/// Law of the alias: once a category is created in a chat, creating another
/// with the same alias in that chat is refused as a conflict and leaves the
/// store as it was.
pub proof fn lemma_second_create_conflicts(
    v: DBView,
    chat: i64,
    alias: Seq<char>,
    name: Seq<char>,
    other_name: Seq<char>,
    after: DBView,
    res: Result<i64, DBError>,
)
    requires
        create_category_outcome(
            category_created(v, chat, alias, name),
            after,
            res,
            chat,
            alias,
            other_name,
        ),
    ensures
        res matches Err(DBError::Conflict),
        after == category_created(v, chat, alias, name),
{
    let mid = category_created(v, chat, alias, name);
    assert(has_alias(mid.categories, chat, alias, v.categories.len() as int));
}

/// Whether no two categories of one chat share an alias.
pub open spec fn aliases_unique(cats: Seq<CategoryRowView>) -> bool {
    forall|i: int, j: int|
        has_alias(cats, cats[i].chat_id, cats[i].category.alias, j) && 0 <= i < cats.len() ==> i
            == j
}

/// Among the categories of a chat, an alias is found as it is among all
/// categories: where none of the chat has it, none matches; where one has it,
/// that one is the only match.
pub proof fn lemma_matches_in_chat(cats: Seq<CategoryRowView>, chat: i64, alias: Seq<char>)
    requires
        aliases_unique(cats),
    ensures
        !alias_taken(cats, chat, alias) ==> forall|j: int|
            !is_match(rows_of_chat(cats, chat), alias, j),
        forall|i: int|
            has_alias(cats, chat, alias, i) ==> exists|j: int|
                is_only_match(rows_of_chat(cats, chat), alias, j) && rows_of_chat(cats, chat)[j]
                    == cats[i],
    decreases cats.len(),
{
    reveal(Seq::filter);
    let here = rows_of_chat(cats, chat);
    if cats.len() > 0 {
        let init = cats.drop_last();
        let last = cats.last();
        let n = init.len() as int;
        let before = rows_of_chat(init, chat);
        assert(aliases_unique(init)) by {
            assert forall|i: int, j: int|
                has_alias(init, init[i].chat_id, init[i].category.alias, j) && 0 <= i
                    < init.len() implies i == j by {
                assert(has_alias(cats, cats[i].chat_id, cats[i].category.alias, j));
            }
        }
        lemma_matches_in_chat(init, chat, alias);
        assert(here == if last.chat_id == chat { before.push(last) } else { before });
        let last_has = last.chat_id == chat && last.category.alias == alias;
        if !alias_taken(init, chat, alias) {
            assert forall|j: int| 0 <= j < before.len() implies !is_match(here, alias, j) by {
                assert(!is_match(before, alias, j));
            }
            if last_has {
                assert(is_only_match(here, alias, before.len() as int));
            }
        }
        if !alias_taken(cats, chat, alias) {
            assert(!has_alias(cats, chat, alias, n));
            assert forall|i: int| !has_alias(init, chat, alias, i) by {
                assert(!has_alias(cats, chat, alias, i));
            }
        }
        assert forall|i: int| has_alias(cats, chat, alias, i) implies exists|j: int|
            is_only_match(here, alias, j) && here[j] == cats[i] by {
            if i == n {
                assert forall|k: int| !has_alias(init, chat, alias, k) by {
                    if has_alias(init, chat, alias, k) {
                        assert(has_alias(cats, cats[n].chat_id, cats[n].category.alias, k));
                    }
                }
                assert(is_only_match(here, alias, before.len() as int));
            } else {
                assert(has_alias(init, chat, alias, i));
                assert(has_alias(cats, cats[i].chat_id, cats[i].category.alias, n) ==> i == n);
                let j = choose|j: int| is_only_match(before, alias, j) && before[j] == init[i];
                assert forall|k: int| is_match(here, alias, k) implies k == j by {
                    if k < before.len() {
                        assert(is_match(before, alias, k));
                    }
                }
                assert(is_only_match(here, alias, j));
            }
        }
    }
}

/// Law of the resolver within the store: against the categories of a chat, an
/// alias resolves to the chat's category that has it, and to none where the
/// chat has no such category.
pub proof fn lemma_resolve_in_chat(v: DBView, chat: i64, alias: Seq<char>)
    requires
        ledger_wf(v),
    ensures
        !alias_taken(v.categories, chat, alias) ==> resolved(
            rows_of_chat(v.categories, chat),
            alias,
        ) is None,
        forall|i: int|
            has_alias(v.categories, chat, alias, i) ==> resolved(
                rows_of_chat(v.categories, chat),
                alias,
            ) == Some(v.categories[i]),
{
    lemma_matches_in_chat(v.categories, chat, alias);
    let here = rows_of_chat(v.categories, chat);
    assert forall|i: int| has_alias(v.categories, chat, alias, i) implies resolved(here, alias)
        == Some(v.categories[i]) by {
        let j = choose|j: int| is_only_match(here, alias, j) && here[j] == v.categories[i];
        let k = choose|k: int| is_only_match(here, alias, k);
        assert(is_match(here, alias, k));
        assert(k == j);
    }
}

/// What the statistic of the month around an instant is: the statistic over
/// that month's window, or a refusal where the calendar has no such month.
pub open spec fn month_stat_outcome(v: DBView, res: Result<Stat, DBError>, chat: i64, seconds: i64) -> bool {
    match month_window_around(seconds) {
        Some(window) => res matches Ok(stat) && stat@ == stat_groups(
            v.categories,
            v.spendings,
            chat,
            Some(window.0),
            Some(window.1),
        ),
        None => res matches Err(DBError::OutOfRange),
    }
}

impl DB {
    /// Whether the store keeps its invariant.
    pub open spec fn wf(&self) -> bool {
        ledger_wf(self@)
    }

    /// An empty store.
    pub fn from_memory() -> (res: Result<Self, DBError>)
        ensures
            res matches Ok(db) && db.wf() && db@ == empty_ledger(),
    {
        let db = DB {
            categories: Vec::new(),
            spendings: Vec::new(),
            last_category_id: 0,
            last_cost_id: 0,
        };
        assert(db@.categories =~= Seq::empty());
        Ok(db)
    }

    /// The categories of a chat, in the order of creation.
    pub fn get_categories(&self, chat_id: ChatId) -> (res: Result<Vec<CategoryRow>, DBError>)
        ensures
            res matches Ok(rows) && rows_view(rows@) == rows_of_chat(self@.categories, chat_id.0),
    {
        let ghost views = rows_view(self.categories@);
        let ghost pred = |r: CategoryRowView| r.chat_id == chat_id.0;
        let mut rows: Vec<CategoryRow> = Vec::new();
        let mut i: usize = 0;
        proof {
            reveal(Seq::filter);
            assert(views.take(0).filter(pred) =~= Seq::empty());
            assert(rows_view(rows@) =~= Seq::empty());
        }
        while i < self.categories.len()
            invariant
                0 <= i <= self.categories.len(),
                views == rows_view(self.categories@),
                pred == |r: CategoryRowView| r.chat_id == chat_id.0,
                rows_view(rows@) == views.take(i as int).filter(pred),
            decreases self.categories.len() - i,
        {
            proof {
                reveal(Seq::filter);
                assert(views.take(i + 1).drop_last() =~= views.take(i as int));
                assert(views.take(i + 1).last() == self.categories@[i as int]@);
            }
            if self.categories[i].chat_id.0 == chat_id.0 {
                let row = self.categories[i].clone();
                assert(rows_view(rows@.push(row)) =~= rows_view(rows@).push(row@));
                rows.push(row);
            }
            i = i + 1;
        }
        assert(views.take(self.categories.len() as int) =~= views);
        Ok(rows)
    }

    fn find_alias(&self, chat_id: ChatId, alias: &String) -> (res: Option<usize>)
        ensures
            match res {
                Some(i) => is_first_with_alias(self@.categories, chat_id.0, alias@, i as int),
                None => !alias_taken(self@.categories, chat_id.0, alias@),
            },
    {
        let ghost views = rows_view(self.categories@);
        let mut i: usize = 0;
        while i < self.categories.len()
            invariant
                0 <= i <= self.categories.len(),
                views == rows_view(self.categories@),
                forall|j: int| 0 <= j < i ==> !has_alias(views, chat_id.0, alias@, j),
            decreases self.categories.len() - i,
        {
            assert(views[i as int] == self.categories@[i as int]@);
            if self.categories[i].chat_id.0 == chat_id.0 && self.categories[i].category.alias
                == *alias {
                return Some(i);
            }
            i = i + 1;
        }
        None
    }

    /// The category of a chat that has the alias given, if there is one.
    pub fn get_category_by_alias(&self, chat_id: ChatId, alias: String) -> (res: Result<
        Option<CategoryRow>,
        DBError,
    >)
        ensures
            match res {
                Ok(Some(row)) => exists|i: int|
                    is_first_with_alias(self@.categories, chat_id.0, alias@, i) && row@
                        == self@.categories[i],
                Ok(None) => !alias_taken(self@.categories, chat_id.0, alias@),
                Err(_) => false,
            },
    {
        match self.find_alias(chat_id, &alias) {
            Some(i) => {
                let row = self.categories[i].clone();
                assert(self@.categories[i as int] == self.categories@[i as int]@);
                Ok(Some(row))
            },
            None => Ok(None),
        }
    }

    /// Creates a category in a chat and gives its id.
    pub fn create_category(&mut self, chat_id: ChatId, alias: String, name: String) -> (res: Result<
        i64,
        DBError,
    >)
        requires
            old(self).wf(),
        ensures
            final(self).wf(),
            create_category_outcome(old(self)@, final(self)@, res, chat_id.0, alias@, name@),
    {
        if self.find_alias(chat_id, &alias).is_some() {
            return Err(DBError::Conflict);
        }
        if self.last_category_id == i64::MAX {
            return Err(DBError::Exhausted);
        }
        let id = self.last_category_id + 1;
        let row = CategoryRow { id, chat_id, category: Category::new(alias, name) };
        proof {
            let before = self@;
            let after = category_created(before, chat_id.0, alias@, name@);
            assert(rows_view(self.categories@.push(row)) =~= before.categories.push(row@));
            assert forall|i: int, j: int|
                has_alias(
                    after.categories,
                    after.categories[i].chat_id,
                    after.categories[i].category.alias,
                    j,
                ) && 0 <= i < after.categories.len() implies i == j by {
                if i < before.categories.len() && j < before.categories.len() {
                    assert(has_alias(
                        before.categories,
                        before.categories[i].chat_id,
                        before.categories[i].category.alias,
                        j,
                    ));
                } else if i < before.categories.len() {
                    assert(has_alias(before.categories, chat_id.0, alias@, i));
                } else if j < before.categories.len() {
                    assert(has_alias(before.categories, chat_id.0, alias@, j));
                }
            }
            assert forall|k: int| 0 <= k < after.spendings.len() implies category_exists(
                after.categories,
                #[trigger] after.spendings[k].category_id,
            ) by {
                let i = choose|i: int|
                    0 <= i < before.categories.len() && #[trigger] before.categories[i].id
                        == before.spendings[k].category_id;
                assert(after.categories[i].id == after.spendings[k].category_id);
            }
            assert(ledger_wf(after));
        }
        self.last_category_id = id;
        self.categories.push(row);
        Ok(id)
    }

    /// Gives the category of a chat that has `alias` a new alias and name.
    pub fn update_category(
        &mut self,
        chat_id: ChatId,
        alias: String,
        new_alias: String,
        name: String,
    ) -> (res: Result<(), DBError>)
        requires
            old(self).wf(),
        ensures
            final(self).wf(),
            update_category_outcome(
                old(self)@,
                final(self)@,
                res,
                chat_id.0,
                alias@,
                new_alias@,
                name@,
            ),
    {
        let i = match self.find_alias(chat_id, &alias) {
            Some(i) => i,
            None => {
                return Ok(());
            },
        };
        if let Some(j) = self.find_alias(chat_id, &new_alias) {
            if j != i {
                assert(new_alias@ != alias@);
                return Err(DBError::Conflict);
            }
        }
        let row = CategoryRow {
            id: self.categories[i].id,
            chat_id,
            category: Category::new(new_alias, name),
        };
        proof {
            let before = self@;
            let after = category_renamed(before, i as int, new_alias@, name@);
            assert(before.categories[i as int] == self.categories@[i as int]@);
            assert(rows_view(self.categories@.update(i as int, row)) =~= after.categories);
            if new_alias@ != alias@ && alias_taken(before.categories, chat_id.0, new_alias@) {
                let j = choose|j: int| has_alias(before.categories, chat_id.0, new_alias@, j);
                assert(has_alias(
                    before.categories,
                    before.categories[j].chat_id,
                    before.categories[j].category.alias,
                    j,
                ));
            }
            assert forall|a: int, b: int|
                has_alias(
                    after.categories,
                    after.categories[a].chat_id,
                    after.categories[a].category.alias,
                    b,
                ) && 0 <= a < after.categories.len() implies a == b by {
                if a != i && b != i {
                    assert(has_alias(
                        before.categories,
                        before.categories[a].chat_id,
                        before.categories[a].category.alias,
                        b,
                    ));
                } else if a == i && b != i {
                    assert(has_alias(before.categories, chat_id.0, new_alias@, b));
                } else if a != i && b == i {
                    assert(has_alias(before.categories, chat_id.0, new_alias@, a));
                }
            }
            assert forall|k: int| 0 <= k < after.spendings.len() implies category_exists(
                after.categories,
                #[trigger] after.spendings[k].category_id,
            ) by {
                let c = choose|c: int|
                    0 <= c < before.categories.len() && #[trigger] before.categories[c].id
                        == before.spendings[k].category_id;
                assert(after.categories[c].id == after.spendings[k].category_id);
            }
            assert forall|a: int, b: int|
                0 <= a < b < after.categories.len() implies #[trigger] after.categories[a].id
                < #[trigger] after.categories[b].id by {
                assert(before.categories[a].id < before.categories[b].id);
            }
            assert forall|a: int| 0 <= a < after.categories.len() implies 0
                < #[trigger] after.categories[a].id <= after.last_category_id by {
                assert(0 < before.categories[a].id);
            }
            assert(ledger_wf(after));
        }
        self.categories.set(i, row);
        Ok(())
    }

    fn chat_of(&self, category_id: i64) -> (res: Option<i64>)
        ensures
            match res {
                Some(chat) => category_in_chat(self@.categories, category_id, chat),
                None => !category_exists(self@.categories, category_id),
            },
    {
        let ghost views = rows_view(self.categories@);
        let mut i: usize = 0;
        while i < self.categories.len()
            invariant
                0 <= i <= self.categories.len(),
                views == rows_view(self.categories@),
                forall|j: int| 0 <= j < i ==> (#[trigger] views[j]).id != category_id,
            decreases self.categories.len() - i,
        {
            assert(views[i as int] == self.categories@[i as int]@);
            if self.categories[i].id == category_id {
                assert(views[i as int].id == category_id);
                return Some(self.categories[i].chat_id.0);
            }
            i = i + 1;
        }
        None
    }

    /// Files a cost dated at the instant `dt` under a category and gives its
    /// id.
    pub fn create_cost_at(&mut self, category_id: i64, amount: i64, dt: i64) -> (res: Result<
        i64,
        DBError,
    >)
        requires
            old(self).wf(),
        ensures
            final(self).wf(),
            create_cost_outcome(old(self)@, final(self)@, res, category_id, amount, dt),
    {
        if self.chat_of(category_id).is_none() {
            return Err(DBError::UnknownCategory);
        }
        if self.last_cost_id == i64::MAX {
            return Err(DBError::Exhausted);
        }
        let id = self.last_cost_id + 1;
        let row = CostRow { id, category_id, dt, amount_cent: amount };
        proof {
            let before = self@;
            let after = cost_created(before, category_id, amount, dt);
            assert forall|k: int| 0 <= k < after.spendings.len() implies category_exists(
                after.categories,
                #[trigger] after.spendings[k].category_id,
            ) by {
                if k < before.spendings.len() {
                    assert(after.spendings[k] == before.spendings[k]);
                }
            }
            assert(ledger_wf(after));
        }
        self.last_cost_id = id;
        self.spendings.push(row);
        Ok(id)
    }

    /// Files a cost under a category and gives its id. The cost is dated at
    /// `date`, or at the present instant where no date is given.
    pub fn create_cost(&mut self, category_id: i64, amount: i64, date: Option<i64>) -> (res: Result<
        i64,
        DBError,
    >)
        requires
            old(self).wf(),
        ensures
            final(self).wf(),
            exists|dt: i64|
                (date matches Some(d) ==> dt == d) && #[trigger] create_cost_outcome(
                    old(self)@,
                    final(self)@,
                    res,
                    category_id,
                    amount,
                    dt,
                ),
    {
        let dt = match date {
            Some(d) => d,
            None => now_seconds(),
        };
        self.create_cost_at(category_id, amount, dt)
    }

    /// Removes the cost of a chat that was created last and gives its id, or
    /// `None` where the chat has no cost.
    pub fn remove_last_cost(&mut self, chat_id: ChatId) -> (res: Result<Option<i64>, DBError>)
        requires
            old(self).wf(),
        ensures
            final(self).wf(),
            res matches Ok(removed) && remove_last_cost_outcome(
                old(self)@,
                final(self)@,
                removed,
                chat_id.0,
            ),
    {
        let ghost before = self@;
        let mut k: usize = self.spendings.len();
        while k > 0
            invariant
                0 <= k <= self.spendings.len(),
                self@ == before,
                old(self)@ == before,
                ledger_wf(before),
                forall|l: int| k <= l < self.spendings.len() ==> !cost_of_chat(before, chat_id.0, l),
            decreases k,
        {
            k = k - 1;
            let owner = self.chat_of(self.spendings[k].category_id);
            if owner == Some(chat_id.0) {
                let removed = self.spendings.remove(k);
                proof {
                    let after = self@;
                    assert(is_last_cost(before, chat_id.0, k as int)) by {
                        assert forall|l: int|
                            cost_of_chat(before, chat_id.0, l) implies before.spendings[l].id
                            <= before.spendings[k as int].id by {
                            if l < k {
                                assert(before.spendings[l].id < before.spendings[k as int].id);
                            }
                        }
                    }
                    assert forall|a: int| 0 <= a < after.spendings.len() implies category_exists(
                        after.categories,
                        #[trigger] after.spendings[a].category_id,
                    ) && 0 < after.spendings[a].id <= after.last_cost_id by {
                        if a < k {
                            assert(after.spendings[a] == before.spendings[a]);
                        } else {
                            assert(after.spendings[a] == before.spendings[a + 1]);
                        }
                    }
                    assert forall|a: int, b: int|
                        0 <= a < b < after.spendings.len() implies #[trigger] after.spendings[a].id
                        < #[trigger] after.spendings[b].id by {
                        let a0 = if a < k { a } else { a + 1 };
                        let b0 = if b < k { b } else { b + 1 };
                        assert(after.spendings[a] == before.spendings[a0]);
                        assert(after.spendings[b] == before.spendings[b0]);
                    }
                    assert(ledger_wf(after));
                    assert(after.spendings == before.spendings.remove(k as int));
                    assert(after == (DBView {
                        spendings: before.spendings.remove(k as int),
                        ..before
                    }));
                    assert(removed == before.spendings[k as int]);
                }
                return Ok(Some(removed.id));
            }
            proof {
                if cost_of_chat(before, chat_id.0, k as int) {
                    // Ids of categories are distinct, so the owner found is the only one.
                    let i = choose|i: int|
                        0 <= i < before.categories.len() && #[trigger] before.categories[i].id
                            == before.spendings[k as int].category_id && before.categories[i].chat_id
                            == chat_id.0;
                    let chat = owner->0;
                    let j = choose|j: int|
                        0 <= j < before.categories.len() && #[trigger] before.categories[j].id
                            == before.spendings[k as int].category_id && before.categories[j].chat_id
                            == chat;
                    if i < j {
                        assert(before.categories[i].id < before.categories[j].id);
                    } else if j < i {
                        assert(before.categories[j].id < before.categories[i].id);
                    }
                    assert(false);
                }
            }
        }
        Ok(None)
    }

    fn aggregate(&self, category_id: i64, date_from: Option<i64>, date_to: Option<i64>) -> (res: (
        u64,
        i128,
    ))
        ensures
            res.0 == category_count(self@.spendings, category_id, date_from, date_to),
            res.1 == category_amount(self@.spendings, category_id, date_from, date_to),
    {
        let ghost costs = self.spendings@;
        let mut n: u64 = 0;
        let mut sum: i128 = 0;
        let mut k: usize = 0;
        assert(costs.take(0) =~= Seq::empty());
        while k < self.spendings.len()
            invariant
                0 <= k <= self.spendings.len(),
                costs == self.spendings@,
                n == category_count(costs.take(k as int), category_id, date_from, date_to),
                sum == category_amount(costs.take(k as int), category_id, date_from, date_to),
            decreases self.spendings.len() - k,
        {
            proof {
                assert(costs.take(k + 1).drop_last() =~= costs.take(k as int));
                assert(costs.take(k + 1).last() == costs[k as int]);
                lemma_category_bounds(costs.take(k as int), category_id, date_from, date_to);
                lemma_category_bounds(costs.take(k + 1), category_id, date_from, date_to);
            }
            let cost = self.spendings[k];
            if cost.category_id == category_id && window_contains(cost.dt, date_from, date_to) {
                n = n + 1;
                sum = sum + cost.amount_cent as i128;
            }
            k = k + 1;
        }
        assert(costs.take(self.spendings.len() as int) =~= costs);
        (n, sum)
    }

    /// The statistic of a chat over a window: a bound that is absent does not
    /// restrict.
    pub fn get_stat(&self, chat_id: ChatId, date_from: Option<i64>, date_to: Option<i64>) -> (res:
        Result<Stat, DBError>)
        requires
            self.wf(),
        ensures
            res matches Ok(stat) && stat@ == stat_groups(
                self@.categories,
                self@.spendings,
                chat_id.0,
                date_from,
                date_to,
            ),
    {
        let ghost cats = rows_view(self.categories@);
        let ghost costs = self.spendings@;
        let mut groups: Vec<StatCategory> = Vec::new();
        let mut i: usize = 0;
        assert(cats.take(0) =~= Seq::empty());
        assert(groups_view(groups@) =~= Seq::empty());
        while i < self.categories.len()
            invariant
                0 <= i <= self.categories.len(),
                cats == rows_view(self.categories@),
                costs == self.spendings@,
                groups_view(groups@) == stat_groups(
                    cats.take(i as int),
                    costs,
                    chat_id.0,
                    date_from,
                    date_to,
                ),
            decreases self.categories.len() - i,
        {
            assert(cats.take(i + 1).drop_last() =~= cats.take(i as int));
            assert(cats.take(i + 1).last() == self.categories@[i as int]@);
            if self.categories[i].chat_id.0 == chat_id.0 {
                let (n, sum) = self.aggregate(self.categories[i].id, date_from, date_to);
                if n > 0 {
                    proof {
                        lemma_category_bounds(costs, self.categories[i as int].id, date_from, date_to);
                    }
                    let group = StatCategory::new(self.categories[i].category.clone(), n, sum);
                    assert(groups_view(groups@.push(group)) =~= groups_view(groups@).push(group@));
                    groups.push(group);
                }
            }
            i = i + 1;
        }
        proof {
            assert(cats.take(self.categories.len() as int) =~= cats);
            lemma_stat_totals(self@, chat_id.0, date_from, date_to);
            assert(costs.len() == self.spendings.len());
        }
        Ok(Stat::new(groups))
    }

    /// The statistic of a chat over the month, in UTC, that holds the instant
    /// `seconds`.
    pub fn get_stat_in_month_of(&self, chat_id: ChatId, seconds: i64) -> (res: Result<Stat, DBError>)
        requires
            self.wf(),
        ensures
            month_stat_outcome(self@, res, chat_id.0, seconds),
    {
        match month_window_at(seconds) {
            Some(window) => self.get_stat(chat_id, Some(window.0), Some(window.1)),
            None => Err(DBError::OutOfRange),
        }
    }

    /// The statistic of a chat over the current month in UTC.
    pub fn get_stat_this_month(&self, chat_id: ChatId) -> (res: Result<Stat, DBError>)
        requires
            self.wf(),
        ensures
            exists|now: i64| #[trigger] month_stat_outcome(self@, res, chat_id.0, now),
    {
        let now = now_seconds();
        self.get_stat_in_month_of(chat_id, now)
    }
}

} // verus!
