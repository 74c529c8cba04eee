use datem::records::{Customer, Tier};
use datem::store::{list_customers_page, order_tiers, sort_customers_by_id};

fn cust(id: &str) -> Customer {
    Customer {
        id: id.to_string(),
        tenant_id: "default".to_string(),
        name: format!("name {id}"),
        email: format!("{id}@example.com"),
        stripe_customer_id: String::new(),
        metadata: "{}".to_string(),
        created_at: 1,
    }
}

fn ids(v: &[Customer]) -> Vec<String> {
    v.iter().map(|c| c.id.clone()).collect()
}

fn tier(id: &str, position: i32) -> Tier {
    Tier {
        id: id.to_string(),
        tenant_id: "default".to_string(),
        charge_id: "ch".to_string(),
        up_to: -1,
        unit_price: 1,
        flat_fee: 0,
        position,
    }
}

#[test]
fn first_page_is_sorted_and_reports_more() {
    let all = vec![cust("c"), cust("a"), cust("d"), cust("b")];
    let (page, more) = list_customers_page(&all, 2, None);
    assert_eq!(ids(&page), vec!["a", "b"]);
    assert!(more);
}

#[test]
fn cursor_starts_after_the_given_identifier() {
    let all = vec![cust("c"), cust("a"), cust("d"), cust("b")];
    let (page, more) = list_customers_page(&all, 2, Some("b"));
    assert_eq!(ids(&page), vec!["c", "d"]);
    assert!(!more);
    let (page, more) = list_customers_page(&all, 10, Some("bb"));
    assert_eq!(ids(&page), vec!["c", "d"]);
    assert!(!more);
    let (page, more) = list_customers_page(&all, 10, Some("z"));
    assert!(page.is_empty());
    assert!(!more);
}

#[test]
fn exact_fit_has_no_more() {
    let all = vec![cust("b"), cust("a")];
    let (page, more) = list_customers_page(&all, 2, None);
    assert_eq!(ids(&page), vec!["a", "b"]);
    assert!(!more);
    let (page, more) = list_customers_page(&Vec::new(), 5, None);
    assert!(page.is_empty());
    assert!(!more);
}

#[test]
fn identifiers_sort_by_code_point() {
    let all = vec![cust("b"), cust("B"), cust("é"), cust("a1"), cust("a")];
    let sorted = sort_customers_by_id(&all);
    assert_eq!(ids(&sorted), vec!["B", "a", "a1", "b", "é"]);
}

#[test]
fn paging_with_the_last_identifier_walks_the_whole_listing() {
    let all: Vec<Customer> = ["k", "e", "x", "a", "q", "m", "b"].iter().map(|s| cust(s)).collect();
    let mut seen: Vec<String> = Vec::new();
    let mut after: Option<String> = None;
    loop {
        let (page, more) = list_customers_page(&all, 3, after.as_deref());
        seen.extend(ids(&page));
        if !more {
            break;
        }
        after = Some(page.last().unwrap().id.clone());
    }
    assert_eq!(seen, vec!["a", "b", "e", "k", "m", "q", "x"]);
}

#[test]
fn tiers_order_by_position_keeping_ties_in_place() {
    let tiers = vec![tier("t2", 2), tier("t0a", 0), tier("t1", 1), tier("t0b", 0)];
    let ordered = order_tiers(&tiers);
    let names: Vec<&str> = ordered.iter().map(|t| t.id.as_str()).collect();
    assert_eq!(names, vec!["t0a", "t0b", "t1", "t2"]);
}
