//! Statistics of spending: one group per category, and the totals over the
//! groups.

use vstd::prelude::*;
use crate::item::{Category, CategoryView};
use crate::money::{amount_text, decimal_digits, format_amount, format_count};
use crate::text::{join, join_lines, texts};

verus! {

/// The costs of one category within a window: how many there are and the sum
/// of their amounts in cents.
pub struct StatCategory {
    category: Category,
    n_items: u64,
    amount: i128,
}

/// The mathematical content of a [`StatCategory`].
pub struct StatCategoryView {
    pub category: CategoryView,
    pub n_items: nat,
    pub amount: int,
}

/// Whether `amount` can be the sum of `n_items` amounts of 64 bits each.
pub open spec fn group_fits(n_items: nat, amount: int) -> bool {
    -(n_items * 0x8000_0000_0000_0000) <= amount <= n_items * 0x8000_0000_0000_0000
}

impl View for StatCategory {
    type V = StatCategoryView;

    closed spec fn view(&self) -> StatCategoryView {
        StatCategoryView {
            category: self.category@,
            n_items: self.n_items as nat,
            amount: self.amount as int,
        }
    }
}

/// How a group is reported.
pub open spec fn group_line(g: StatCategoryView) -> Seq<char> {
    "-> "@ + g.category.name + ": n="@ + decimal_digits(g.n_items) + ", amount="@ + amount_text(
        g.amount,
    )
}

impl StatCategory {
    #[verifier::type_invariant]
    spec fn inv(&self) -> bool {
        group_fits(self.n_items as nat, self.amount as int)
    }

    /// Whether a count and a sum can stand in one group.
    pub fn fits(n_items: u64, amount: i128) -> (res: bool)
        ensures
            res == group_fits(n_items as nat, amount as int),
    {
        let bound: i128 = (n_items as i128) * 0x8000_0000_0000_0000;
        -bound <= amount && amount <= bound
    }

    pub fn new(category: Category, n_items: u64, amount: i128) -> (res: Self)
        requires
            group_fits(n_items as nat, amount as int),
        ensures
            res@ == (StatCategoryView {
                category: category@,
                n_items: n_items as nat,
                amount: amount as int,
            }),
    {
        StatCategory { category, n_items, amount }
    }

    pub fn category(&self) -> (res: &Category)
        ensures
            res@ == self@.category,
    {
        &self.category
    }

    pub fn n_items(&self) -> (res: u64)
        ensures
            res == self@.n_items,
    {
        self.n_items
    }

    pub fn amount(&self) -> (res: i128)
        ensures
            res == self@.amount,
            group_fits(self@.n_items, self@.amount),
    {
        proof {
            use_type_invariant(self);
        }
        self.amount
    }

    /// The line that reports this group.
    pub fn to_string(&self) -> (res: String)
        ensures
            res@ == group_line(self@),
    {
        let mut out = "-> ".to_owned();
        out.append(self.category.name.as_str());
        out.append(": n=");
        out.append(format_count(self.n_items).as_str());
        out.append(", amount=");
        out.append(format_amount(self.amount).as_str());
        out
    }
}

/// The views of a sequence of groups, one per group.
pub open spec fn groups_view(groups: Seq<StatCategory>) -> Seq<StatCategoryView> {
    groups.map_values(|g: StatCategory| g@)
}

/// The number of costs in all groups.
pub open spec fn total_items(groups: Seq<StatCategoryView>) -> nat
    decreases groups.len(),
{
    if groups.len() == 0 {
        0
    } else {
        total_items(groups.drop_last()) + groups.last().n_items
    }
}

/// The sum of the amounts of all groups.
pub open spec fn total_amount(groups: Seq<StatCategoryView>) -> int
    decreases groups.len(),
{
    if groups.len() == 0 {
        0
    } else {
        total_amount(groups.drop_last()) + groups.last().amount
    }
}

/// The line that reports the totals.
pub open spec fn totals_line(groups: Seq<StatCategoryView>) -> Seq<char> {
    "Items: "@ + decimal_digits(total_items(groups)) + "  Amount: "@ + amount_text(
        total_amount(groups),
    )
}

/// The report of a statistic: a line for each group, then the line of the
/// totals.
pub open spec fn report_text(groups: Seq<StatCategoryView>) -> Seq<char> {
    join_lines(groups.map_values(|g: StatCategoryView| group_line(g)).push(totals_line(groups)))
}

/// The statistic of a chat over a window: its groups in the order in which
/// their categories were created.
pub struct Stat {
    items: Vec<StatCategory>,
}

impl View for Stat {
    type V = Seq<StatCategoryView>;

    closed spec fn view(&self) -> Seq<StatCategoryView> {
        groups_view(self.items@)
    }
}

impl Stat {
    #[verifier::type_invariant]
    spec fn inv(&self) -> bool {
        total_items(groups_view(self.items@)) <= u64::MAX
    }

    /// Whether the counts of the groups add up within 64 bits, as a statistic
    /// needs them to.
    pub fn fits(items: &Vec<StatCategory>) -> (res: bool)
        ensures
            res == (total_items(groups_view(items@)) <= u64::MAX),
    {
        let ghost views = groups_view(items@);
        let mut sum: u64 = 0;
        let mut i: usize = 0;
        assert(views.take(0) =~= Seq::empty());
        while i < items.len()
            invariant
                0 <= i <= items.len(),
                views == groups_view(items@),
                sum == total_items(views.take(i as int)),
            decreases items.len() - i,
        {
            assert(views.take(i + 1).drop_last() =~= views.take(i as int));
            assert(views.take(i + 1).last() == items@[i as int]@);
            let n = items[i].n_items();
            if n > u64::MAX - sum {
                proof {
                    lemma_items_of_prefix(views, i + 1);
                }
                return false;
            }
            sum = sum + n;
            i = i + 1;
        }
        assert(views.take(items.len() as int) =~= views);
        true
    }

    pub fn new(items: Vec<StatCategory>) -> (res: Self)
        requires
            total_items(groups_view(items@)) <= u64::MAX,
        ensures
            res@ == groups_view(items@),
    {
        Self { items }
    }

    /// The number of costs in all groups.
    pub fn n_items(&self) -> (res: u64)
        ensures
            res == total_items(self@),
    {
        proof {
            use_type_invariant(self);
        }
        let ghost views = groups_view(self.items@);
        let mut sum: u64 = 0;
        let mut i: usize = 0;
        assert(views.take(0) =~= Seq::empty());
        while i < self.items.len()
            invariant
                0 <= i <= self.items.len(),
                views == groups_view(self.items@),
                total_items(views) <= u64::MAX,
                sum == total_items(views.take(i as int)),
            decreases self.items.len() - i,
        {
            assert(views.take(i + 1).drop_last() =~= views.take(i as int));
            assert(views.take(i + 1).last() == self.items@[i as int]@);
            proof {
                lemma_items_of_prefix(views, i + 1);
            }
            sum = sum + self.items[i].n_items();
            i = i + 1;
        }
        assert(views.take(self.items.len() as int) =~= views);
        sum
    }

    /// The sum of the amounts of all groups, in cents.
    pub fn amount(&self) -> (res: i128)
        ensures
            res == total_amount(self@),
    {
        proof {
            use_type_invariant(self);
        }
        let ghost views = groups_view(self.items@);
        let mut sum: i128 = 0;
        let mut i: usize = 0;
        assert(views.take(0) =~= Seq::empty());
        while i < self.items.len()
            invariant
                0 <= i <= self.items.len(),
                views == groups_view(self.items@),
                total_items(views) <= u64::MAX,
                forall|j: int| 0 <= j < i ==> group_fits(#[trigger] views[j].n_items, views[j].amount),
                sum == total_amount(views.take(i as int)),
                group_fits(total_items(views.take(i as int)), sum as int),
            decreases self.items.len() - i,
        {
            assert(views.take(i + 1).drop_last() =~= views.take(i as int));
            assert(views.take(i + 1).last() == self.items@[i as int]@);
            let amount = self.items[i].amount();
            proof {
                lemma_items_of_prefix(views, i + 1);
                let a = total_items(views.take(i as int));
                let b = views[i as int].n_items;
                assert((a + b) * 0x8000_0000_0000_0000 == a * 0x8000_0000_0000_0000 + b
                    * 0x8000_0000_0000_0000);
            }
            sum = sum + amount;
            i = i + 1;
        }
        assert(views.take(self.items.len() as int) =~= views);
        sum
    }

    /// The number of groups.
    pub fn len(&self) -> (res: usize)
        ensures
            res == self@.len(),
    {
        self.items.len()
    }

    /// The report of this statistic.
    pub fn to_string(&self) -> (res: String)
        ensures
            res@ == report_text(self@),
    {
        let ghost views = groups_view(self.items@);
        let ghost all = views.map_values(|g: StatCategoryView| group_line(g));
        let mut lines: Vec<String> = Vec::new();
        let mut i: usize = 0;
        assert(texts(lines@) =~= all.take(0));
        while i < self.items.len()
            invariant
                0 <= i <= self.items.len(),
                views == groups_view(self.items@),
                all == views.map_values(|g: StatCategoryView| group_line(g)),
                texts(lines@) == all.take(i as int),
            decreases self.items.len() - i,
        {
            let line = self.items[i].to_string();
            assert(views[i as int] == self.items@[i as int]@);
            assert(all[i as int] == line@);
            assert(all.take(i + 1) =~= all.take(i as int).push(line@));
            assert(texts(lines@.push(line)) =~= texts(lines@).push(line@));
            lines.push(line);
            i = i + 1;
        }
        assert(all.take(self.items.len() as int) =~= all);
        let mut totals = "Items: ".to_owned();
        totals.append(format_count(self.n_items()).as_str());
        totals.append("  Amount: ");
        totals.append(format_amount(self.amount()).as_str());
        assert(texts(lines@.push(totals)) =~= all.push(totals@));
        lines.push(totals);
        join(&lines)
    }
}

/// The counts of the first groups add up to no more than those of all.
pub proof fn lemma_items_of_prefix(groups: Seq<StatCategoryView>, k: int)
    requires
        0 <= k <= groups.len(),
    ensures
        total_items(groups.take(k)) <= total_items(groups),
    decreases groups.len(),
{
    if groups.len() == 0 || k == groups.len() {
        assert(groups.take(k) =~= groups);
    } else {
        lemma_items_of_prefix(groups.drop_last(), k);
        assert(groups.drop_last().take(k) =~= groups.take(k));
    }
}

} // verus!
