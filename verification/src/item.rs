//! Spending categories and an in-memory collection of spending items.

use vstd::prelude::*;
use crate::calendar::{utc_year_month, year_month_of};

verus! {

/// A spending category: the short alias a user types and its display name.
pub struct Category {
    pub alias: String,
    pub name: String,
}

/// The mathematical content of a [`Category`].
pub struct CategoryView {
    pub alias: Seq<char>,
    pub name: Seq<char>,
}

impl View for Category {
    type V = CategoryView;

    open spec fn view(&self) -> CategoryView {
        CategoryView { alias: self.alias@, name: self.name@ }
    }
}

impl Clone for Category {
    fn clone(&self) -> (res: Self)
        ensures
            res@ == self@,
    {
        Category { alias: self.alias.clone(), name: self.name.clone() }
    }
}

impl Category {
    pub fn new(alias: String, name: String) -> (res: Self)
        ensures
            res.alias == alias,
            res.name == name,
    {
        Self { alias, name }
    }
}

/// One spending: the instant it is dated at, in seconds since the Unix epoch,
/// its category, and its amount in cents.
pub struct Item {
    date: i64,
    category: Category,
    amount: i64,
}

/// The mathematical content of an [`Item`].
pub struct ItemView {
    pub date: i64,
    pub category: CategoryView,
    pub amount: i64,
}

impl View for Item {
    type V = ItemView;

    closed spec fn view(&self) -> ItemView {
        ItemView { date: self.date, category: self.category@, amount: self.amount }
    }
}

impl Item {
    pub fn new(date: i64, category: Category, amount: i64) -> (res: Self)
        ensures
            res@ == (ItemView { date, category: category@, amount }),
    {
        Self { date, category, amount }
    }
}

/// A collection of spendings, in the order in which they were added.
pub struct ItemCollection {
    items: Vec<Item>,
}

impl View for ItemCollection {
    type V = Seq<ItemView>;

    closed spec fn view(&self) -> Seq<ItemView> {
        self.items@.map_values(|i: Item| i@)
    }
}

/// The views of a sequence of items, one per item.
pub open spec fn items_view(items: Seq<Item>) -> Seq<ItemView> {
    items.map_values(|i: Item| i@)
}

/// The views of a sequence of borrowed items, one per item.
pub open spec fn refs_view(items: Seq<&Item>) -> Seq<ItemView> {
    items.map_values(|i: &Item| i@)
}

/// A selection of the spendings of a collection, narrowed filter by filter.
pub struct ItemCollectionFilter<'a> {
    items: Vec<&'a Item>,
}

impl<'a> View for ItemCollectionFilter<'a> {
    type V = Seq<ItemView>;

    closed spec fn view(&self) -> Seq<ItemView> {
        refs_view(self.items@)
    }
}

/// What is known of a selection: the number of its spendings.
pub struct ItemCollectionStat {
    n_items: usize,
}

impl View for ItemCollectionStat {
    type V = usize;

    closed spec fn view(&self) -> usize {
        self.n_items
    }
}

impl ItemCollectionStat {
    pub fn n_items(&self) -> (res: usize)
        ensures
            res == self@,
    {
        self.n_items
    }
}

impl ItemCollection {
    pub fn new() -> (res: Self)
        ensures
            res@ == Seq::<ItemView>::empty(),
    {
        let res = Self { items: Vec::new() };
        assert(res@ =~= Seq::<ItemView>::empty());
        res
    }

    pub fn from(items: Vec<Item>) -> (res: Self)
        ensures
            res@ == items_view(items@),
    {
        Self { items }
    }

    pub fn add(&mut self, item: Item)
        ensures
            final(self)@ == old(self)@.push(item@),
    {
        self.items.push(item);
        assert(self@ =~= old(self)@.push(item@));
    }

    pub fn len(&self) -> (res: usize)
        ensures
            res == self@.len(),
    {
        self.items.len()
    }

    /// All spendings of the collection, to be narrowed.
    pub fn select(&self) -> (res: ItemCollectionFilter<'_>)
        ensures
            res@ == self@,
    {
        let mut items: Vec<&Item> = Vec::new();
        let mut i: usize = 0;
        while i < self.items.len()
            invariant
                0 <= i <= self.items.len(),
                refs_view(items@) == self@.take(i as int),
            decreases self.items.len() - i,
        {
            let item = &self.items[i];
            assert(self@[i as int] == item@);
            assert(self@.take(i + 1) =~= self@.take(i as int).push(item@));
            assert(refs_view(items@.push(item)) =~= refs_view(items@).push(item@));
            items.push(item);
            i = i + 1;
        }
        assert(self@.take(self.items.len() as int) =~= self@);
        ItemCollectionFilter { items }
    }
}

/// A condition that a filter keeps spendings by.
enum Keep {
    Alias(String),
    MonthYear(u32, i32),
    From(i64),
    Before(i64),
}

/// Whether the spending is filed under the alias.
pub open spec fn has_category_alias(item: ItemView, alias: Seq<char>) -> bool {
    item.category.alias == alias
}

/// Whether the spending is dated, in UTC, in the month of the year.
pub open spec fn is_in_month(item: ItemView, month: u32, year: i32) -> bool {
    utc_year_month(item.date) == Some((year, month))
}

/// Whether the spending is dated at the instant or later.
pub open spec fn is_dated_from(item: ItemView, seconds: i64) -> bool {
    item.date >= seconds
}

/// Whether the spending is dated before the instant.
pub open spec fn is_dated_before(item: ItemView, seconds: i64) -> bool {
    item.date < seconds
}

/// Whether a year and month that were worked out are the month of the year
/// asked for: `None` stands for an instant outside the calendar.
pub fn is_month_of_year(found: Option<(i32, u32)>, month: u32, year: i32) -> (res: bool)
    ensures
        res == (found == Some((year, month))),
{
    match found {
        Some(ym) => ym.0 == year && ym.1 == month,
        None => false,
    }
}

impl Keep {
    spec fn holds(&self, item: ItemView) -> bool {
        match self {
            Keep::Alias(alias) => has_category_alias(item, alias@),
            Keep::MonthYear(month, year) => is_in_month(item, *month, *year),
            Keep::From(seconds) => is_dated_from(item, *seconds),
            Keep::Before(seconds) => is_dated_before(item, *seconds),
        }
    }

    fn check(&self, item: &Item) -> (res: bool)
        ensures
            res == self.holds(item@),
    {
        match self {
            Keep::Alias(alias) => item.category.alias == *alias,
            Keep::MonthYear(month, year) => is_month_of_year(
                year_month_of(item.date),
                *month,
                *year,
            ),
            Keep::From(seconds) => item.date >= *seconds,
            Keep::Before(seconds) => item.date < *seconds,
        }
    }
}

impl<'a> ItemCollectionFilter<'a> {
    fn retain(&mut self, keep: &Keep)
        ensures
            final(self)@ == old(self)@.filter(|i: ItemView| keep.holds(i)),
    {
        let ghost all = self@;
        let ghost pred = |i: ItemView| keep.holds(i);
        let mut kept: Vec<&'a Item> = Vec::new();
        let mut i: usize = 0;
        proof {
            reveal(Seq::filter);
            assert(all.take(0).filter(pred) =~= Seq::empty());
            assert(refs_view(kept@) =~= Seq::empty());
        }
        while i < self.items.len()
            invariant
                0 <= i <= self.items.len(),
                all == self@,
                all == old(self)@,
                pred == |i: ItemView| keep.holds(i),
                refs_view(kept@) == all.take(i as int).filter(pred),
            decreases self.items.len() - i,
        {
            proof {
                reveal(Seq::filter);
                assert(all.take(i + 1).drop_last() =~= all.take(i as int));
                assert(all.take(i + 1).last() == self.items@[i as int]@);
            }
            let item = self.items[i];
            if keep.check(item) {
                assert(refs_view(kept@.push(item)) =~= refs_view(kept@).push(item@));
                kept.push(item);
            }
            i = i + 1;
        }
        assert(all.take(self.items.len() as int) =~= all);
        self.items = kept;
    }

    /// Keeps the spendings filed under the alias.
    pub fn by_category_alias(&mut self, alias: String) -> (res: &mut Self)
        ensures
            res@ == old(self)@.filter(|i: ItemView| has_category_alias(i, alias@)),
            *final(self) == *final(res),
    {
        let keep = Keep::Alias(alias);
        self.retain(&keep);
        assert(self@ =~= old(self)@.filter(|i: ItemView| has_category_alias(i, alias@))) by {
            assert((|i: ItemView| keep.holds(i)) =~= (|i: ItemView| has_category_alias(i, alias@)));
        }
        self
    }

    /// The number of spendings selected.
    pub fn len(&self) -> (res: usize)
        ensures
            res == self@.len(),
    {
        self.items.len()
    }

    /// Keeps the spendings dated, in UTC, in the month of the year.
    pub fn by_month_year(&mut self, month: u32, year: i32) -> (res: &mut Self)
        ensures
            res@ == old(self)@.filter(|i: ItemView| is_in_month(i, month, year)),
            *final(self) == *final(res),
    {
        let keep = Keep::MonthYear(month, year);
        self.retain(&keep);
        assert(self@ =~= old(self)@.filter(|i: ItemView| is_in_month(i, month, year))) by {
            assert((|i: ItemView| keep.holds(i)) =~= (|i: ItemView| is_in_month(i, month, year)));
        }
        self
    }

    /// Keeps the spendings dated at the instant `dt` or later.
    pub fn date_from(&mut self, dt: i64) -> (res: &mut Self)
        ensures
            res@ == old(self)@.filter(|i: ItemView| is_dated_from(i, dt)),
            *final(self) == *final(res),
    {
        let keep = Keep::From(dt);
        self.retain(&keep);
        assert(self@ =~= old(self)@.filter(|i: ItemView| is_dated_from(i, dt))) by {
            assert((|i: ItemView| keep.holds(i)) =~= (|i: ItemView| is_dated_from(i, dt)));
        }
        self
    }

    /// Keeps the spendings dated before the instant `dt`.
    pub fn date_to(&mut self, dt: i64) -> (res: &mut Self)
        ensures
            res@ == old(self)@.filter(|i: ItemView| is_dated_before(i, dt)),
            *final(self) == *final(res),
    {
        let keep = Keep::Before(dt);
        self.retain(&keep);
        assert(self@ =~= old(self)@.filter(|i: ItemView| is_dated_before(i, dt))) by {
            assert((|i: ItemView| keep.holds(i)) =~= (|i: ItemView| is_dated_before(i, dt)));
        }
        self
    }

    /// The spendings selected.
    pub fn get(&self) -> (res: Vec<&'a Item>)
        ensures
            refs_view(res@) == self@,
    {
        let mut res: Vec<&'a Item> = Vec::new();
        let mut i: usize = 0;
        while i < self.items.len()
            invariant
                0 <= i <= self.items.len(),
                res@ == self.items@.take(i as int),
            decreases self.items.len() - i,
        {
            res.push(self.items[i]);
            assert(res@ =~= self.items@.take(i + 1));
            i = i + 1;
        }
        assert(self.items@.take(self.items.len() as int) =~= self.items@);
        res
    }

    /// What is known of the selection.
    pub fn stat(&self) -> (res: ItemCollectionStat)
        ensures
            res@ == self@.len(),
    {
        ItemCollectionStat { n_items: self.items.len() }
    }
}

} // verus!
