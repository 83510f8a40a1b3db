use helpbot::command_manager::CommandManager;
use helpbot::validation::{has_id, has_name, pick_required, GuildRole, ValidationResult};

fn role(id: u64, name: &str) -> GuildRole {
    GuildRole { id, name: name.to_string() }
}

#[test]
fn arity_range_one_to_two() {
    let mut manager = CommandManager::new();
    manager.register(&["cmd"], 1, 2, &[]);
    assert!(!manager.args_valid((0, 0), ""));
    assert!(manager.args_valid((0, 0), "a"));
    assert!(manager.args_valid((0, 0), "a b"));
    assert!(!manager.args_valid((0, 0), "a b c"));
}

#[test]
fn arity_counts_tokens_not_characters() {
    let mut manager = CommandManager::new();
    manager.register(&["cmd"], 1, 2, &[]);
    assert!(!manager.args_valid((0, 0), "   "));
    assert!(manager.args_valid((0, 0), "  a  "));
    assert!(manager.args_valid((0, 0), " a \t b\n"));
    assert!(manager.args_valid((0, 0), "one-long-argument"));
    assert!(!manager.args_valid((0, 0), " a  b  c "));
}

#[test]
fn arity_none_and_exactly_one() {
    let mut manager = CommandManager::new();
    manager.register(&["ping", "test"], 0, 0, &[]);
    manager.register(&["get_messages"], 1, 1, &[]);
    assert!(manager.args_valid((0, 0), ""));
    assert!(manager.args_valid((0, 1), " "));
    assert!(!manager.args_valid((0, 0), "now"));
    assert!(!manager.args_valid((1, 0), ""));
    assert!(manager.args_valid((1, 0), "150"));
    assert!(!manager.args_valid((1, 0), "1 50"));
}

#[test]
fn arity_with_empty_range_accepts_nothing() {
    let mut manager = CommandManager::new();
    manager.register(&["never"], 2, 1, &[]);
    assert!(!manager.args_valid((0, 0), ""));
    assert!(!manager.args_valid((0, 0), "a"));
    assert!(!manager.args_valid((0, 0), "a b"));
    assert!(!manager.args_valid((0, 0), "a b c"));
}

#[test]
fn arity_up_to_the_largest_count() {
    let mut manager = CommandManager::new();
    manager.register(&["any"], 0, usize::MAX, &[]);
    assert!(manager.args_valid((0, 0), ""));
    assert!(manager.args_valid((0, 0), "a b c d e f g h i j k l m n o p"));
}

#[test]
fn role_conjunction_over_the_roles_of_the_guild() {
    let mut manager = CommandManager::new();
    manager.register(&["cmd"], 0, 0, &["Admin", "Mod"]);
    let guild = vec![role(1, "Admin")];
    assert!(!manager.roles_valid((0, 0), &guild, &vec![]));
    assert!(manager.roles_valid((0, 0), &guild, &vec![1]));
    assert_eq!(manager.validate((0, 0), "", &guild, &vec![]), ValidationResult::RoleInvalid);
    assert_eq!(manager.validate((0, 0), "", &guild, &vec![1]), ValidationResult::Valid);
}

#[test]
fn every_required_role_of_the_guild_is_needed() {
    let mut manager = CommandManager::new();
    manager.register(&["cmd"], 0, 0, &["Admin", "Mod"]);
    let guild = vec![role(1, "Admin"), role(2, "Member"), role(3, "Mod")];
    assert!(!manager.roles_valid((0, 0), &guild, &vec![]));
    assert!(!manager.roles_valid((0, 0), &guild, &vec![1]));
    assert!(!manager.roles_valid((0, 0), &guild, &vec![3]));
    assert!(!manager.roles_valid((0, 0), &guild, &vec![1, 2]));
    assert!(!manager.roles_valid((0, 0), &guild, &vec![2]));
    assert!(manager.roles_valid((0, 0), &guild, &vec![1, 3]));
    assert!(manager.roles_valid((0, 0), &guild, &vec![3, 2, 1]));
}

#[test]
fn no_required_role_lets_everyone_pass() {
    let mut manager = CommandManager::new();
    manager.register(&["ping"], 0, 0, &[]);
    assert!(manager.roles_valid((0, 0), &vec![], &vec![]));
    assert!(manager.roles_valid((0, 0), &vec![role(1, "Admin")], &vec![]));
    assert!(manager.roles_valid((0, 0), &vec![role(1, "Admin")], &vec![7]));
}

#[test]
fn guild_without_the_required_roles_lets_everyone_pass() {
    let mut manager = CommandManager::new();
    manager.register(&["off"], 0, 0, &["Admin"]);
    assert!(manager.roles_valid((0, 0), &vec![], &vec![]));
    assert!(manager.roles_valid((0, 0), &vec![role(1, "admin"), role(2, "Mod")], &vec![]));
}

#[test]
fn roles_of_one_name_are_all_needed() {
    let mut manager = CommandManager::new();
    manager.register(&["off"], 0, 0, &["Admin"]);
    let guild = vec![role(1, "Admin"), role(2, "Admin")];
    assert!(!manager.roles_valid((0, 0), &guild, &vec![1]));
    assert!(!manager.roles_valid((0, 0), &guild, &vec![2]));
    assert!(manager.roles_valid((0, 0), &guild, &vec![2, 1]));
}

#[test]
fn arity_is_checked_before_roles() {
    let mut manager = CommandManager::new();
    manager.register(&["off"], 0, 0, &["Admin"]);
    let guild = vec![role(1, "Admin")];
    assert_eq!(manager.validate((0, 0), "now", &guild, &vec![]), ValidationResult::ArityInvalid);
    assert_eq!(manager.validate((0, 0), "now", &guild, &vec![1]), ValidationResult::ArityInvalid);
    assert_eq!(manager.validate((0, 0), "", &guild, &vec![]), ValidationResult::RoleInvalid);
    assert_eq!(manager.validate((0, 0), "", &guild, &vec![1]), ValidationResult::Valid);
}

#[test]
fn required_roles_are_picked_in_the_order_of_the_guild() {
    let required = vec!["Mod".to_string(), "Admin".to_string()];
    let guild = vec![role(5, "Admin"), role(6, "Member"), role(7, "Mod"), role(8, "Admin")];
    assert_eq!(pick_required(&required, &guild), vec![5, 7, 8]);
    assert_eq!(pick_required(&vec![], &guild), Vec::<u64>::new());
    assert_eq!(pick_required(&required, &vec![]), Vec::<u64>::new());
}

#[test]
fn names_and_ids_are_found() {
    let names = vec!["Admin".to_string(), "Mod".to_string()];
    assert!(has_name(&names, "Admin"));
    assert!(has_name(&names, "Mod"));
    assert!(!has_name(&names, "admin"));
    assert!(!has_name(&vec![], "Admin"));
    assert!(has_id(&vec![1, 2, 3], 2));
    assert!(!has_id(&vec![1, 2, 3], 4));
    assert!(!has_id(&vec![], 0));
}
