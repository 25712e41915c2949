use cch24::day_five::{format_of, task_1, Format, Manifest, Order, Package, Reply};

fn order(item: Option<&str>, quantity: Option<u32>) -> Option<Order> {
    Some(Order { item: item.map(|s| s.to_string()), quantity })
}

fn manifest(keywords: Option<Vec<&str>>, orders: Option<Vec<Option<Order>>>) -> Manifest {
    Manifest {
        package: Some(Package {
            keywords: keywords.map(|k| k.into_iter().map(|s| s.to_string()).collect()),
            orders,
        }),
    }
}

#[test]
fn content_type_picks_the_notation() {
    assert_eq!(format_of(Some("application/json")), Some(Format::Json));
    assert_eq!(format_of(Some("application/toml")), Some(Format::Toml));
    assert_eq!(format_of(Some("application/yaml")), Some(Format::Yaml));
    assert_eq!(format_of(Some("text/html")), None);
    assert_eq!(format_of(Some("application/json; charset=utf-8")), None);
    assert_eq!(format_of(Some("")), None);
    assert_eq!(format_of(None), None);
}

#[test]
fn orders_are_listed_one_to_a_line() {
    let m = manifest(
        Some(vec!["Christmas 2024"]),
        Some(vec![
            order(Some("Toy car"), Some(2)),
            order(Some("Lego brick"), Some(230)),
            order(Some("Doll"), Some(0)),
            order(Some("Marble"), Some(4294967295)),
        ]),
    );
    assert_eq!(
        task_1(&m),
        Reply::Orders("Toy car: 2\nLego brick: 230\nDoll: 0\nMarble: 4294967295".to_string())
    );
}

#[test]
fn entries_that_are_no_orders_are_skipped() {
    let m = manifest(
        Some(vec!["gifts", "Christmas 2024"]),
        Some(vec![
            None,
            order(Some("Toy car"), None),
            order(None, Some(3)),
            order(Some("Toy train"), Some(5)),
            None,
        ]),
    );
    assert_eq!(task_1(&m), Reply::Orders("Toy train: 5".to_string()));
}

#[test]
fn manifest_without_orders_has_no_content() {
    assert_eq!(task_1(&Manifest { package: None }), Reply::NoContent);
    assert_eq!(task_1(&manifest(Some(vec!["Christmas 2024"]), None)), Reply::NoContent);
    assert_eq!(task_1(&manifest(Some(vec!["Christmas 2024"]), Some(vec![]))), Reply::NoContent);
    assert_eq!(
        task_1(&manifest(Some(vec!["Christmas 2024"]), Some(vec![None, order(None, None)]))),
        Reply::NoContent
    );
}

#[test]
fn keyword_is_asked_for_before_the_orders() {
    let orders = || Some(vec![order(Some("Toy car"), Some(2))]);
    assert_eq!(task_1(&manifest(None, orders())), Reply::KeywordMissing);
    assert_eq!(task_1(&manifest(Some(vec![]), orders())), Reply::KeywordMissing);
    assert_eq!(task_1(&manifest(Some(vec!["Christmas 2023"]), orders())), Reply::KeywordMissing);
    assert_eq!(task_1(&manifest(Some(vec!["christmas 2024"]), None)), Reply::KeywordMissing);
}
