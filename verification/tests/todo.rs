use todo_kernel::crypt::CryptoError;
use todo_kernel::engine::EngineError;
use todo_kernel::todo::Action;
use todo_kernel::todo::Todo;
use todo_kernel::todo::TodoActions;
use todo_kernel::todo::MAX_TODO_PAYLOAD_SIZE;
use todo_kernel::todo::MAX_TODO_SIZE;
use todo_kernel::wire::DecodeError;

#[test]
fn new_keeps_its_arguments() {
    let t = Todo::new("buy milk".to_string(), 10, 20, true, "alice".to_string());
    assert_eq!(t.title, "buy milk");
    assert_eq!(t.created_time, 10);
    assert_eq!(t.due_time, 20);
    assert!(t.completed);
    assert_eq!(t.owner, "alice");
}

#[test]
fn default_is_empty() {
    let t = Todo::default();
    assert_eq!(t, Todo::new(String::new(), 0, 0, false, String::new()));
    assert!(!t.is_completed());
    assert!(t.accessible_by(""));
}

#[test]
fn completion_flag() {
    let mut t = Todo::new("buy milk".to_string(), 10, 20, false, "alice".to_string());
    assert!(!t.is_completed());
    t.set_completed(true);
    assert!(t.is_completed());
    assert_eq!(t, Todo::new("buy milk".to_string(), 10, 20, true, "alice".to_string()));
    t.set_completed(false);
    assert!(!t.is_completed());
}

#[test]
fn due_means_set_and_before_creation() {
    let due = |created: i64, due: i64| Todo::new(String::new(), created, due, false, String::new()).is_due();
    assert!(due(10, 5));
    assert!(due(i64::MAX, 1));
    assert!(!due(10, 10));
    assert!(!due(10, 11));
    assert!(!due(10, 0));
    assert!(!due(10, -5));
    assert!(!due(-3, -5));
    assert!(!due(0, 0));
}

#[test]
fn only_the_owner_has_access() {
    let t = Todo::new("buy milk".to_string(), 10, 20, false, "alice".to_string());
    assert!(t.accessible_by("alice"));
    assert!(!t.accessible_by("bob"));
    assert!(!t.accessible_by("Alice"));
    assert!(!t.accessible_by(""));
    assert!(!t.accessible_by("alice "));
}

#[test]
fn decrypt_undoes_encrypt_for_the_owner() {
    let t = Todo::new("buy milk".to_string(), 10, 20, false, "alice".to_string());
    let sealed = t.encrypt();
    assert_eq!(sealed.len() % 16, 0);
    assert_eq!(Todo::decrypt(&sealed, "alice"), Ok(t.clone()));
    assert_eq!(
        Todo::decrypt(&sealed, "bob"),
        Err(EngineError::Crypto(CryptoError::AuthenticationFailed))
    );
    assert_eq!(Todo::decrypt(&sealed[1..], "alice"), Err(EngineError::Crypto(CryptoError::Malformed)));
    let unowned = Todo::default();
    assert_eq!(Todo::decrypt(&unowned.encrypt(), ""), Ok(unowned));
}

#[test]
fn decrypt_rejects_what_is_no_record() {
    let sealed = todo_kernel::crypt::seal(b"not a record", "alice");
    assert_eq!(Todo::decrypt(&sealed, "alice"), Err(EngineError::Decode(DecodeError::Truncated)));
}

#[test]
fn validity_of_requests() {
    let request = TodoActions {
        id: 1,
        action: Action::Create,
        user: "alice".to_string(),
        todo: Todo::default(),
    };
    assert!(request.is_valid());
    assert!(request.todo.is_valid());
}

#[test]
fn size_limits() {
    assert_eq!(MAX_TODO_PAYLOAD_SIZE, 2048);
    assert_eq!(MAX_TODO_SIZE, 2047);
}
