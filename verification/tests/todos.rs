use mcadmin::choices::TodoChoice;
use mcadmin::numerals::parse_u64;
use mcadmin::todos::{group_todos, read_todo, StoredTodo, Todo, TodoByType, TodoError};

fn stored(id: i32, title: &str, todo_type: &str, created_by: &str) -> StoredTodo {
    StoredTodo {
        id,
        title: title.to_string(),
        todo_type: todo_type.to_string(),
        created_by: created_by.to_string(),
    }
}

fn todo(id: i32, title: &str, todo_type: TodoChoice, created_by: u64) -> Todo {
    Todo { id, title: title.to_string(), todo_type, created_by }
}

#[test]
fn a_stored_todo_in_order_is_read() {
    assert_eq!(
        read_todo(stored(7, "farm", "survival", "123456789012345678")),
        Ok(todo(7, "farm", TodoChoice::Survival, 123456789012345678))
    );
    assert_eq!(
        read_todo(stored(0, "x", "creative", "0")),
        Ok(todo(0, "x", TodoChoice::Creative, 0))
    );
}

#[test]
fn a_stored_todo_out_of_order_is_refused() {
    assert_eq!(read_todo(stored(-1, "farm", "survival", "1")), Err(TodoError::NegativeId));
    assert_eq!(read_todo(stored(1, "", "survival", "1")), Err(TodoError::EmptyTitle));
    assert_eq!(
        read_todo(stored(1, "farm", "Survival", "1")),
        Err(TodoError::InvalidType("Survival".to_string()))
    );
    assert_eq!(
        read_todo(stored(1, "farm", "survival", "someone")),
        Err(TodoError::InvalidUser("someone".to_string()))
    );
    assert_eq!(
        read_todo(stored(1, "farm", "survival", "18446744073709551616")),
        Err(TodoError::InvalidUser("18446744073709551616".to_string()))
    );
}

#[test]
fn the_first_fault_of_a_stored_todo_is_reported() {
    assert_eq!(read_todo(stored(-1, "", "x", "y")), Err(TodoError::NegativeId));
    assert_eq!(read_todo(stored(1, "", "x", "y")), Err(TodoError::EmptyTitle));
    assert_eq!(
        read_todo(stored(1, "t", "x", "y")),
        Err(TodoError::InvalidType("x".to_string()))
    );
}

#[test]
fn todos_are_grouped_in_their_order() {
    let all = vec![
        stored(1, "a", "survival", "1"),
        stored(2, "b", "creative", "2"),
        stored(3, "c", "survival", "3"),
        stored(4, "d", "creative", "4"),
        stored(5, "e", "creative", "5"),
    ];
    assert_eq!(
        group_todos(all),
        Ok(TodoByType {
            survival: vec![
                todo(1, "a", TodoChoice::Survival, 1),
                todo(3, "c", TodoChoice::Survival, 3),
            ],
            creative: vec![
                todo(2, "b", TodoChoice::Creative, 2),
                todo(4, "d", TodoChoice::Creative, 4),
                todo(5, "e", TodoChoice::Creative, 5),
            ],
        })
    );
    assert_eq!(group_todos(vec![]), Ok(TodoByType { survival: vec![], creative: vec![] }));
}

#[test]
fn grouping_fails_with_the_first_fault() {
    let all = vec![
        stored(1, "a", "survival", "1"),
        stored(2, "", "creative", "2"),
        stored(-3, "c", "survival", "3"),
    ];
    assert_eq!(group_todos(all), Err(TodoError::EmptyTitle));
}

#[test]
fn numbers_of_sixty_four_bits() {
    assert_eq!(parse_u64("0"), Some(0));
    assert_eq!(parse_u64("18446744073709551615"), Some(u64::MAX));
    assert_eq!(parse_u64("+18446744073709551615"), Some(u64::MAX));
    assert_eq!(parse_u64("18446744073709551616"), None);
    assert_eq!(parse_u64("99999999999999999999999999999999999999999"), None);
    for s in ["", "+", "-1", "1_000", "12 ", "0018446744073709551615", "18446744073709551620"] {
        assert_eq!(parse_u64(s), s.parse::<u64>().ok());
    }
}
