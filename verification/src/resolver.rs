//! Finding the category that a token names.

use vstd::prelude::*;
use crate::db::{CategoryRow, CategoryRowView, rows_view};

verus! {

/// Whether the category at index `i` has exactly the alias `token`.
pub open spec fn is_match(cats: Seq<CategoryRowView>, token: Seq<char>, i: int) -> bool {
    0 <= i < cats.len() && cats[i].category.alias == token
}

/// Whether the category at index `i` is the only one with the alias `token`.
pub open spec fn is_only_match(cats: Seq<CategoryRowView>, token: Seq<char>, i: int) -> bool {
    is_match(cats, token, i) && forall|j: int| is_match(cats, token, j) ==> j == i
}

/// The category that a token resolves to: the one whose alias is the token,
/// character for character, where there is exactly one.
pub open spec fn resolved(cats: Seq<CategoryRowView>, token: Seq<char>) -> Option<CategoryRowView> {
    if exists|i: int| is_only_match(cats, token, i) {
        Some(cats[choose|i: int| is_only_match(cats, token, i)])
    } else {
        None
    }
}

pub open spec fn row_option_view(row: Option<&CategoryRow>) -> Option<CategoryRowView> {
    match row {
        Some(r) => Some(r@),
        None => None,
    }
}

/// Resolves a token against the categories of one chat. Gives the category
/// whose alias equals the token, or `None` where none or several do.
pub fn resolve<'a>(cats: &'a Vec<CategoryRow>, token: &str) -> (res: Option<&'a CategoryRow>)
    ensures
        row_option_view(res) == resolved(rows_view(cats@), token@),
{
    let wanted = token.to_owned();
    let ghost views = rows_view(cats@);
    let mut found: Option<usize> = None;
    let mut several = false;
    let mut i: usize = 0;
    while i < cats.len()
        invariant
            0 <= i <= cats.len(),
            views == rows_view(cats@),
            wanted@ == token@,
            found matches Some(k) ==> k < i && is_match(views, token@, k as int),
            found is None ==> !several && forall|j: int| 0 <= j < i ==> !is_match(views, token@, j),
            !several ==> forall|j: int|
                0 <= j < i && is_match(views, token@, j) ==> found == Some(j as usize),
            several ==> exists|j: int, k: int|
                j != k && is_match(views, token@, j) && is_match(views, token@, k),
        decreases cats.len() - i,
    {
        assert(views[i as int] == cats@[i as int]@);
        if cats[i].category.alias == wanted {
            match found {
                Some(k) => {
                    assert(is_match(views, token@, k as int) && is_match(views, token@, i as int));
                    several = true;
                },
                None => {
                    found = Some(i);
                },
            }
        }
        i = i + 1;
    }
    match found {
        Some(k) => {
            if several {
                None
            } else {
                assert(is_only_match(views, token@, k as int));
                Some(&cats[k])
            }
        },
        None => None,
    }
}

} // verus!
