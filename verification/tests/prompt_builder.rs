use schema_pilot::prompt::{
    create_prompt, generate_prompt_msgs, join_contents, TableContent, SYSTEM_INSTRUCTION,
};

fn rows(contents: &[&str]) -> Vec<TableContent> {
    contents.iter().map(|content| TableContent { content: content.to_string() }).collect()
}

#[test]
fn prompt_has_two_messages_system_first() {
    let messages = create_prompt("orders: order_id".to_string(), "which table?".to_string());
    assert_eq!(messages.len(), 2);
    assert_eq!(messages[0].0, "system");
    assert_eq!(messages[0].1, SYSTEM_INSTRUCTION);
    assert_eq!(messages[1].0, "user");
}

#[test]
fn system_instruction_is_the_fixed_text() {
    let expected = " \n    You are an AI assistant that answers questions about database schemas and tables. \n    Your answer always includes information about the relevant tables and their purpose. \n    When you add a query to your answer, always mark it with ```sql.\n    Always use numbers when enumerating items.\n    ";
    let messages = create_prompt(String::new(), String::new());
    assert_eq!(messages[0].1, expected);
}

#[test]
fn user_message_is_the_exact_text() {
    let messages = create_prompt("CONTEXT".to_string(), "QUERY".to_string());
    let expected = "\n        Here are the tables in our database:\n        CONTEXT\n\n        Based on the tables in our database given above, please answer the following question:\n        QUERY\n        ";
    assert_eq!(messages[1].1, expected);
}

#[test]
fn user_message_of_nothing_is_the_frame() {
    let messages = create_prompt(String::new(), String::new());
    let expected = "\n        Here are the tables in our database:\n        \n\n        Based on the tables in our database given above, please answer the following question:\n        \n        ";
    assert_eq!(messages[1].1, expected);
}

#[test]
fn rows_are_joined_by_single_newlines_in_order() {
    let found = rows(&["orders: order_id, customer_id, total", "customers: customer_id, name"]);
    assert_eq!(
        join_contents(&found),
        "orders: order_id, customer_id, total\ncustomers: customer_id, name"
    );
    assert_eq!(join_contents(&rows(&[])), "");
    assert_eq!(join_contents(&rows(&["only"])), "only");
    assert_eq!(join_contents(&rows(&["a", "", "c"])), "a\n\nc");
}

#[test]
fn prompt_holds_query_and_contexts_in_their_order() {
    let found = rows(&["third", "first", "second"]);
    let messages = generate_prompt_msgs("what tables store customer orders?".to_string(), found);
    assert_eq!(messages.len(), 2);
    assert_eq!(messages[0].0, "system");
    let content = &messages[1].1;
    assert!(content.contains("what tables store customer orders?"));
    assert!(content.contains("third\nfirst\nsecond"));
    let third = content.find("third").unwrap();
    let first = content.find("first").unwrap();
    let second = content.find("second").unwrap();
    let query = content.find("what tables").unwrap();
    assert!(third < first && first < second && second < query);
}

#[test]
fn prompt_is_not_truncated() {
    let long = "x".repeat(200_000);
    let messages = generate_prompt_msgs(long.clone(), rows(&[&long, &long]));
    assert!(messages[1].1.len() > 600_000);
    assert!(messages[1].1.contains(&format!("{}\n{}", long, long)));
}
