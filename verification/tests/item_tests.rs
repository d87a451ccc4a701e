use chrono::{DateTime, NaiveDateTime, Utc};
use tg_spending_tracker::item::{is_month_of_year, Category, Item, ItemCollection};

fn parse_dt(str: &str) -> i64 {
    let dt = NaiveDateTime::parse_from_str(str, "%Y-%m-%d %H:%M:%S").unwrap();
    DateTime::<Utc>::from_naive_utc_and_offset(dt, Utc).timestamp()
}

fn get_default_collection() -> ItemCollection {
    let mut collection = ItemCollection::new();

    let category = Category::new("c1".to_string(), "Category 1".to_string());
    collection.add(Item::new(parse_dt("2025-01-01 23:00:00"), category.clone(), 10000));
    collection.add(Item::new(parse_dt("2025-02-02 23:00:00"), category.clone(), 10000));
    collection.add(Item::new(parse_dt("2025-03-03 23:00:00"), category.clone(), 10000));

    let category = Category::new("c2".to_string(), "Category 2".to_string());
    collection.add(Item::new(parse_dt("2025-01-01 23:00:00"), category.clone(), 10000));
    collection.add(Item::new(parse_dt("2025-02-02 23:00:00"), category.clone(), 10000));
    collection.add(Item::new(parse_dt("2025-03-03 23:00:00"), category.clone(), 10000));
    collection
}

#[test]
fn test_collection() {
    let collection = get_default_collection();
    assert_eq!(collection.len(), 6);
}

#[test]
fn test_filter_alias() {
    let collection = get_default_collection();
    let f = collection.select().by_category_alias("c1".to_string()).len();
    assert_eq!(f, 3);
}

#[test]
fn test_filter_date_from() {
    let collection = get_default_collection();
    let f = collection.select().date_from(parse_dt("2025-01-02 00:00:00")).len();
    assert_eq!(f, 4);
}

#[test]
fn test_filter_date_to() {
    let collection = get_default_collection();
    let f = collection
        .select()
        .date_from(parse_dt("2025-02-02 00:00:00"))
        .date_to(parse_dt("2025-03-03 00:00:00"))
        .len();
    assert_eq!(f, 2);
}

#[test]
fn test_filter_by_month() {
    let collection = get_default_collection();
    let f = collection.select().by_month_year(2, 2025).len();
    assert_eq!(f, 2);
}

#[test]
fn test_category_new_keeps_fields() {
    let category = Category::new("food".to_string(), "Food".to_string());
    assert_eq!(category.alias, "food");
    assert_eq!(category.name, "Food");
    let copy = category.clone();
    assert_eq!(copy.alias, "food");
    assert_eq!(copy.name, "Food");
}

#[test]
fn test_collection_from_and_empty() {
    assert_eq!(ItemCollection::new().len(), 0);
    assert_eq!(ItemCollection::new().select().len(), 0);
    let category = Category::new("c1".to_string(), "Category 1".to_string());
    let items = vec![Item::new(0, category.clone(), 1), Item::new(1, category.clone(), 2)];
    let collection = ItemCollection::from(items);
    assert_eq!(collection.len(), 2);
    assert_eq!(collection.select().get().len(), 2);
    assert_eq!(collection.select().stat().n_items(), 2);
}

#[test]
fn test_filter_alias_is_exact() {
    let collection = get_default_collection();
    assert_eq!(collection.select().by_category_alias("c".to_string()).len(), 0);
    assert_eq!(collection.select().by_category_alias("C1".to_string()).len(), 0);
    assert_eq!(collection.select().by_category_alias("c2".to_string()).stat().n_items(), 3);
}

#[test]
fn test_filter_window_is_half_open() {
    let collection = get_default_collection();
    let at = parse_dt("2025-02-02 23:00:00");
    assert_eq!(collection.select().date_from(at).len(), 4);
    assert_eq!(collection.select().date_to(at).len(), 2);
    assert_eq!(collection.select().date_from(at).date_to(at + 1).len(), 2);
    assert_eq!(collection.select().date_from(at).date_to(at).len(), 0);
}

#[test]
fn test_filter_by_month_tells_years_and_months_apart() {
    let collection = get_default_collection();
    assert_eq!(collection.select().by_month_year(2, 2024).len(), 0);
    assert_eq!(collection.select().by_month_year(4, 2025).len(), 0);
    assert_eq!(collection.select().by_month_year(13, 2025).len(), 0);
    assert_eq!(collection.select().by_month_year(3, 2025).by_category_alias("c2".to_string()).len(), 1);
    // An instant beyond the calendar belongs to no month.
    let category = Category::new("c1".to_string(), "Category 1".to_string());
    let far = ItemCollection::from(vec![Item::new(i64::MAX, category, 1)]);
    assert_eq!(far.select().by_month_year(1, 2025).len(), 0);
}

#[test]
fn test_is_month_of_year() {
    assert!(is_month_of_year(Some((2025, 2)), 2, 2025));
    assert!(!is_month_of_year(Some((2025, 2)), 3, 2025));
    assert!(!is_month_of_year(Some((2025, 2)), 2, 2024));
    assert!(!is_month_of_year(Some((2, 2025)), 2, 2025));
    assert!(!is_month_of_year(None, 2, 2025));
}
