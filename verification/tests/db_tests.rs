use tg_spending_tracker::db::{ChatId, DBError, Stat, StatCategory, DB};
use tg_spending_tracker::item::Category;

#[test]
fn test_connect() {
    let db = DB::from_memory();
    assert!(db.is_ok())
}

#[test]
fn test_create_category() {
    let mut db = DB::from_memory().unwrap();
    assert_eq!(db.get_categories(ChatId(0)).unwrap().len(), 0);
    assert!(db.create_category(ChatId(0), "t".to_string(), "test".to_string()).is_ok());
    assert_eq!(db.get_categories(ChatId(0)).unwrap().len(), 1);
}

#[test]
fn test_get_category() {
    let mut db = DB::from_memory().unwrap();
    let id = db.create_category(ChatId(0), "t1".to_string(), "test".to_string());
    assert!(id.is_ok());
}

#[test]
fn test_get_category_alias() {
    let mut db = DB::from_memory().unwrap();
    let _ = db.create_category(ChatId(0), "t1".to_string(), "test".to_string());
    let _ = db.create_category(ChatId(0), "t2".to_string(), "test2".to_string());

    if let Some(cat) = db.get_category_by_alias(ChatId(0), "t2".to_string()).unwrap() {
        assert_eq!(cat.category.name, "test2")
    }

    match db.get_category_by_alias(ChatId(0), "t3".to_string()) {
        Ok(None) => assert!(true),
        Ok(Some(_)) => assert!(false),
        Err(_) => assert!(false),
    }
}

#[test]
fn test_new_cost() {
    let mut db = DB::from_memory().unwrap();
    let cat_id = db.create_category(ChatId(0), "t1".to_string(), "test".to_string()).unwrap();
    assert!(db.create_cost(cat_id, 12341, None).is_ok());
}

fn two_categories_of_three_costs() -> DB {
    let mut db = DB::from_memory().unwrap();

    let cat_id = db.create_category(ChatId(0), "t1".to_string(), "test".to_string()).unwrap();
    let _ = db.create_cost(cat_id, 10000, None).is_ok();
    let _ = db.create_cost(cat_id, 20000, None).is_ok();
    let _ = db.create_cost(cat_id, 30000, None).is_ok();

    let cat_id = db.create_category(ChatId(0), "t2".to_string(), "test".to_string()).unwrap();
    let _ = db.create_cost(cat_id, 10000, None).is_ok();
    let _ = db.create_cost(cat_id, 20000, None).is_ok();
    let _ = db.create_cost(cat_id, 30000, None).is_ok();
    db
}

#[test]
fn test_stat() {
    let mut db = DB::from_memory().unwrap();

    let cat_id = db.create_category(ChatId(0), "t1".to_string(), "test".to_string()).unwrap();
    let _ = db.create_cost(cat_id, 10000, None).is_ok();
    let _ = db.create_cost(cat_id, 20000, None).is_ok();
    let _ = db.create_cost(cat_id, 30000, None).is_ok();

    let cat_id = db.create_category(ChatId(0), "t2".to_string(), "test".to_string()).unwrap();
    let _ = db.create_cost(cat_id, 10000, None).is_ok();
    let _ = db.create_cost(cat_id, 20000, None).is_ok();
    let _ = db.create_cost(cat_id, 30000, None).is_ok();

    let stat = db.get_stat(ChatId(0), None, None).unwrap();
    assert_eq!(stat.n_items(), 6);
    assert_eq!(stat.amount(), 120000);
    assert_eq!(stat.len(), 2);
}

#[test]
fn test_stat_this_month() {
    let mut db = DB::from_memory().unwrap();

    let cat_id = db.create_category(ChatId(0), "t1".to_string(), "test".to_string()).unwrap();
    let _ = db.create_cost(cat_id, 10000, None).is_ok();
    let _ = db.create_cost(cat_id, 20000, None).is_ok();
    let _ = db.create_cost(cat_id, 30000, None).is_ok();

    let cat_id = db.create_category(ChatId(0), "t2".to_string(), "test".to_string()).unwrap();
    let _ = db.create_cost(cat_id, 10000, None).is_ok();
    let _ = db.create_cost(cat_id, 20000, None).is_ok();
    let _ = db.create_cost(cat_id, 30000, None).is_ok();

    let stat = db.get_stat_this_month(ChatId(0)).unwrap();
    assert_eq!(stat.n_items(), 6);
    assert_eq!(stat.amount(), 120000);
    assert_eq!(stat.len(), 2);
}

#[test]
fn test_get_category_found_has_id_and_chat() {
    let mut db = DB::from_memory().unwrap();
    let first = db.create_category(ChatId(5), "t1".to_string(), "test".to_string()).unwrap();
    let second = db.create_category(ChatId(5), "t2".to_string(), "test2".to_string()).unwrap();
    assert_eq!(first, 1);
    assert_eq!(second, 2);
    let row = db.get_category_by_alias(ChatId(5), "t2".to_string()).unwrap().unwrap();
    assert_eq!(row.id, second);
    assert_eq!(row.chat_id, ChatId(5));
    assert_eq!(row.category.alias, "t2");
    assert_eq!(row.category.name, "test2");
    assert_eq!(row.to_string(), "test2 (t2)");
    assert!(db.get_category_by_alias(ChatId(6), "t2".to_string()).unwrap().is_none());
    assert!(db.get_category_by_alias(ChatId(5), "T2".to_string()).unwrap().is_none());
}

#[test]
fn test_categories_are_listed_by_chat_in_order_of_creation() {
    let mut db = DB::from_memory().unwrap();
    db.create_category(ChatId(1), "b".to_string(), "B".to_string()).unwrap();
    db.create_category(ChatId(2), "x".to_string(), "X".to_string()).unwrap();
    db.create_category(ChatId(1), "a".to_string(), "A".to_string()).unwrap();
    let rows = db.get_categories(ChatId(1)).unwrap();
    let aliases: Vec<&str> = rows.iter().map(|r| r.category.alias.as_str()).collect();
    assert_eq!(aliases, vec!["b", "a"]);
    let ids: Vec<i64> = rows.iter().map(|r| r.id).collect();
    assert_eq!(ids, vec![1, 3]);
    assert_eq!(db.get_categories(ChatId(2)).unwrap().len(), 1);
    assert_eq!(db.get_categories(ChatId(3)).unwrap().len(), 0);
}

#[test]
fn test_same_alias_twice_in_a_chat_is_a_conflict() {
    let mut db = DB::from_memory().unwrap();
    let id = db.create_category(ChatId(0), "food".to_string(), "Food".to_string()).unwrap();
    match db.create_category(ChatId(0), "food".to_string(), "Other".to_string()) {
        Err(DBError::Conflict) => {}
        other => panic!("{:?}", other),
    }
    let rows = db.get_categories(ChatId(0)).unwrap();
    assert_eq!(rows.len(), 1);
    assert_eq!(rows[0].id, id);
    assert_eq!(rows[0].category.alias, "food");
    assert_eq!(rows[0].category.name, "Food");
    // The same alias in another chat is free, and ids go on.
    assert_eq!(db.create_category(ChatId(1), "food".to_string(), "Food".to_string()).unwrap(), id + 1);
}

#[test]
fn test_update_category() {
    let mut db = DB::from_memory().unwrap();
    let food = db.create_category(ChatId(0), "food".to_string(), "Food".to_string()).unwrap();
    db.create_category(ChatId(0), "car".to_string(), "Car".to_string()).unwrap();
    db.create_category(ChatId(1), "eat".to_string(), "Eat".to_string()).unwrap();

    assert!(db.update_category(ChatId(0), "food".to_string(), "eat".to_string(), "Eating".to_string()).is_ok());
    let rows = db.get_categories(ChatId(0)).unwrap();
    assert_eq!(rows.len(), 2);
    assert_eq!(rows[0].id, food);
    assert_eq!(rows[0].category.alias, "eat");
    assert_eq!(rows[0].category.name, "Eating");
    assert_eq!(rows[1].category.alias, "car");
    // The other chat is untouched.
    assert_eq!(db.get_categories(ChatId(1)).unwrap()[0].category.name, "Eat");

    // A new alias that another category of the chat has is refused.
    match db.update_category(ChatId(0), "eat".to_string(), "car".to_string(), "x".to_string()) {
        Err(DBError::Conflict) => {}
        other => panic!("{:?}", other),
    }
    assert_eq!(db.get_categories(ChatId(0)).unwrap()[0].category.alias, "eat");

    // Keeping the alias and changing the name is no conflict.
    assert!(db.update_category(ChatId(0), "eat".to_string(), "eat".to_string(), "Meals".to_string()).is_ok());
    assert_eq!(db.get_categories(ChatId(0)).unwrap()[0].category.name, "Meals");

    // An alias that no category has changes nothing.
    assert!(db.update_category(ChatId(0), "none".to_string(), "car".to_string(), "x".to_string()).is_ok());
    let rows = db.get_categories(ChatId(0)).unwrap();
    assert_eq!(rows[0].category.alias, "eat");
    assert_eq!(rows[1].category.alias, "car");
    assert_eq!(rows[1].category.name, "Car");
}

#[test]
fn test_cost_needs_a_category() {
    let mut db = DB::from_memory().unwrap();
    match db.create_cost(1, 100, None) {
        Err(DBError::UnknownCategory) => {}
        other => panic!("{:?}", other),
    }
    match db.create_cost_at(1, 100, 0) {
        Err(DBError::UnknownCategory) => {}
        other => panic!("{:?}", other),
    }
    assert_eq!(db.remove_last_cost(ChatId(0)).unwrap(), None);
}

#[test]
fn test_remove_last_cost_goes_by_creation_not_by_date() {
    let mut db = DB::from_memory().unwrap();
    let food = db.create_category(ChatId(0), "food".to_string(), "Food".to_string()).unwrap();
    let car = db.create_category(ChatId(0), "car".to_string(), "Car".to_string()).unwrap();
    let other = db.create_category(ChatId(1), "food".to_string(), "Food".to_string()).unwrap();

    let recent = db.create_cost_at(food, 100, 2_000_000_000).unwrap();
    let backdated = db.create_cost_at(car, 200, 1_000).unwrap();
    let foreign = db.create_cost_at(other, 300, 3_000_000_000).unwrap();
    assert_eq!((recent, backdated, foreign), (1, 2, 3));

    assert_eq!(db.remove_last_cost(ChatId(0)).unwrap(), Some(backdated));
    let stat = db.get_stat(ChatId(0), None, None).unwrap();
    assert_eq!((stat.len(), stat.n_items(), stat.amount()), (1, 1, 100));
    assert_eq!(db.get_stat(ChatId(1), None, None).unwrap().amount(), 300);

    assert_eq!(db.remove_last_cost(ChatId(0)).unwrap(), Some(recent));
    assert_eq!(db.remove_last_cost(ChatId(0)).unwrap(), None);
    assert_eq!(db.get_stat(ChatId(1), None, None).unwrap().amount(), 300);

    // An id is not handed out again.
    assert_eq!(db.create_cost_at(food, 1, 0).unwrap(), 4);
    assert_eq!(db.remove_last_cost(ChatId(1)).unwrap(), Some(foreign));
}

#[test]
fn test_create_then_remove_leaves_the_rest() {
    let mut db = two_categories_of_three_costs();
    let before = db.get_stat(ChatId(0), None, None).unwrap().to_string();
    let id = db.create_cost_at(1, 77, -5).unwrap();
    assert_eq!(db.remove_last_cost(ChatId(0)).unwrap(), Some(id));
    assert_eq!(db.get_stat(ChatId(0), None, None).unwrap().to_string(), before);
}

#[test]
fn test_stat_of_empty_account() {
    let mut db = DB::from_memory().unwrap();
    let stat = db.get_stat(ChatId(0), None, None).unwrap();
    assert_eq!((stat.len(), stat.n_items(), stat.amount()), (0, 0, 0));
    let stat = db.get_stat_this_month(ChatId(0)).unwrap();
    assert_eq!((stat.len(), stat.n_items(), stat.amount()), (0, 0, 0));
    // Categories without costs give no group, nor do costs outside the window.
    let food = db.create_category(ChatId(0), "food".to_string(), "Food".to_string()).unwrap();
    let stat = db.get_stat(ChatId(0), None, None).unwrap();
    assert_eq!((stat.len(), stat.n_items(), stat.amount()), (0, 0, 0));
    db.create_cost_at(food, 500, 100).unwrap();
    let stat = db.get_stat(ChatId(0), Some(101), None).unwrap();
    assert_eq!((stat.len(), stat.n_items(), stat.amount()), (0, 0, 0));
    assert_eq!(stat.to_string(), "Items: 0  Amount: 0.00");
    // Another chat sees nothing of it.
    let stat = db.get_stat(ChatId(1), None, None).unwrap();
    assert_eq!((stat.len(), stat.n_items(), stat.amount()), (0, 0, 0));
}

#[test]
fn test_stat_groups_and_window() {
    let mut db = DB::from_memory().unwrap();
    let food = db.create_category(ChatId(0), "food".to_string(), "Food".to_string()).unwrap();
    let idle = db.create_category(ChatId(0), "idle".to_string(), "Idle".to_string()).unwrap();
    let car = db.create_category(ChatId(0), "car".to_string(), "Car".to_string()).unwrap();
    let far = db.create_category(ChatId(9), "far".to_string(), "Far".to_string()).unwrap();
    assert_eq!(idle, 2);
    db.create_cost_at(car, 1000, 10).unwrap();
    db.create_cost_at(food, 250, 20).unwrap();
    db.create_cost_at(food, -50, 30).unwrap();
    db.create_cost_at(car, 1, 40).unwrap();
    db.create_cost_at(far, 999, 20).unwrap();

    let stat = db.get_stat(ChatId(0), None, None).unwrap();
    assert_eq!(stat.to_string(), "-> Food: n=2, amount=2.00\n-> Car: n=2, amount=10.01\nItems: 4  Amount: 12.01");
    assert_eq!((stat.len(), stat.n_items(), stat.amount()), (2, 4, 1201));

    // From is inclusive, to is exclusive.
    let stat = db.get_stat(ChatId(0), Some(20), Some(40)).unwrap();
    assert_eq!(stat.to_string(), "-> Food: n=2, amount=2.00\nItems: 2  Amount: 2.00");
    let stat = db.get_stat(ChatId(0), Some(30), None).unwrap();
    assert_eq!(stat.to_string(), "-> Food: n=1, amount=-0.50\n-> Car: n=1, amount=0.01\nItems: 2  Amount: -0.49");
    let stat = db.get_stat(ChatId(0), None, Some(20)).unwrap();
    assert_eq!(stat.to_string(), "-> Car: n=1, amount=10.00\nItems: 1  Amount: 10.00");
}

#[test]
fn test_stat_sums_do_not_overflow() {
    let mut db = DB::from_memory().unwrap();
    let food = db.create_category(ChatId(0), "food".to_string(), "Food".to_string()).unwrap();
    db.create_cost_at(food, i64::MAX, 0).unwrap();
    db.create_cost_at(food, i64::MAX, 0).unwrap();
    let stat = db.get_stat(ChatId(0), None, None).unwrap();
    assert_eq!(stat.amount(), 2 * (i64::MAX as i128));
    assert_eq!(stat.n_items(), 2);
}

#[test]
fn test_stat_in_month_of() {
    let mut db = DB::from_memory().unwrap();
    let food = db.create_category(ChatId(0), "food".to_string(), "Food".to_string()).unwrap();
    db.create_cost_at(food, 500, 1736467200).unwrap();
    db.create_cost_at(food, 700, 1739145600).unwrap();
    db.create_cost_at(food, 900, 1735689599).unwrap();
    let stat = db.get_stat_in_month_of(ChatId(0), 1736899200).unwrap();
    assert_eq!((stat.len(), stat.n_items(), stat.amount()), (1, 1, 500));
    let stat = db.get_stat_in_month_of(ChatId(0), 1738368000).unwrap();
    assert_eq!((stat.len(), stat.n_items(), stat.amount()), (1, 1, 700));
    match db.get_stat_in_month_of(ChatId(0), i64::MAX) {
        Err(DBError::OutOfRange) => {}
        _ => panic!(),
    }
}

#[test]
fn test_cost_without_date_is_dated_now() {
    let mut db = DB::from_memory().unwrap();
    let food = db.create_category(ChatId(0), "food".to_string(), "Food".to_string()).unwrap();
    let before = chrono::Utc::now().timestamp();
    db.create_cost(food, 500, None).unwrap();
    let after = chrono::Utc::now().timestamp();
    assert_eq!(db.get_stat(ChatId(0), Some(before), Some(after + 1)).unwrap().n_items(), 1);
    assert_eq!(db.get_stat(ChatId(0), None, Some(before)).unwrap().n_items(), 0);
    assert_eq!(db.get_stat(ChatId(0), Some(after + 1), None).unwrap().n_items(), 0);
    db.create_cost(food, 500, Some(12)).unwrap();
    assert_eq!(db.get_stat(ChatId(0), Some(12), Some(13)).unwrap().n_items(), 1);
}

#[test]
fn test_stat_from_groups() {
    let food = Category::new("food".to_string(), "Food".to_string());
    let car = Category::new("car".to_string(), "Car".to_string());
    assert!(StatCategory::fits(1, 500));
    assert!(StatCategory::fits(0, 0));
    assert!(!StatCategory::fits(0, 1));
    assert!(StatCategory::fits(1, -(1i128 << 63)));
    assert!(StatCategory::fits(1, 1i128 << 63));
    assert!(!StatCategory::fits(1, (1i128 << 63) + 1));
    assert!(!StatCategory::fits(u64::MAX, i128::MAX));
    assert!(StatCategory::fits(u64::MAX, i128::MAX - (1i128 << 63) + 1));
    assert!(!StatCategory::fits(u64::MAX, i128::MAX - (1i128 << 63) + 2));
    let one = StatCategory::new(food, 1, 500);
    assert_eq!(one.n_items(), 1);
    assert_eq!(one.amount(), 500);
    assert_eq!(one.category().alias, "food");
    assert_eq!(one.to_string(), "-> Food: n=1, amount=5.00");
    let two = StatCategory::new(car, 3, 12345);
    let groups = vec![one, two];
    assert!(Stat::fits(&groups));
    let stat = Stat::new(groups);
    assert_eq!((stat.len(), stat.n_items(), stat.amount()), (2, 4, 12845));
    assert_eq!(stat.to_string(), "-> Food: n=1, amount=5.00\n-> Car: n=3, amount=123.45\nItems: 4  Amount: 128.45");
    assert_eq!(Stat::new(vec![]).to_string(), "Items: 0  Amount: 0.00");

    let big = vec![
        StatCategory::new(Category::new("a".to_string(), "A".to_string()), u64::MAX, 0),
        StatCategory::new(Category::new("b".to_string(), "B".to_string()), 1, 0),
    ];
    assert!(!Stat::fits(&big));
}

#[test]
fn test_totals_of_groups_are_totals_of_costs() {
    let mut db = DB::from_memory().unwrap();
    let chat = ChatId(4);
    let ids = [
        db.create_category(chat, "a".to_string(), "A".to_string()).unwrap(),
        db.create_category(ChatId(5), "a".to_string(), "A".to_string()).unwrap(),
        db.create_category(chat, "b".to_string(), "B".to_string()).unwrap(),
        db.create_category(chat, "c".to_string(), "C".to_string()).unwrap(),
    ];
    // (category, amount, instant)
    let mut costs: Vec<(i64, i64, i64)> = Vec::new();
    for k in 0..40i64 {
        let cost = (ids[(k % 4) as usize], (k * 37 % 11 - 3) * 125, (k * 13) % 50);
        db.create_cost_at(cost.0, cost.1, cost.2).unwrap();
        costs.push(cost);
    }
    let windows = [(None, None), (Some(10), None), (None, Some(30)), (Some(10), Some(30)), (Some(30), Some(10))];
    for (from, to) in windows {
        let within = |dt: i64| from.map_or(true, |f| f <= dt) && to.map_or(true, |t| dt < t);
        let mine: Vec<&(i64, i64, i64)> =
            costs.iter().filter(|c| c.0 != ids[1] && within(c.2)).collect();
        let stat = db.get_stat(chat, from, to).unwrap();
        assert_eq!(stat.n_items(), mine.len() as u64);
        assert_eq!(stat.amount(), mine.iter().map(|c| c.1 as i128).sum::<i128>());
        let other = db.get_stat(ChatId(5), from, to).unwrap();
        assert_eq!(other.n_items() + stat.n_items(), costs.iter().filter(|c| within(c.2)).count() as u64);
    }
}
