use finsight_core::household::{check_member_name, new_member, owner_display, MemberError};

fn names(v: &[&str]) -> Vec<String> {
    v.iter().map(|s| s.to_string()).collect()
}

#[test]
fn member_names_are_unique_case_insensitively() {
    assert_eq!(check_member_name("Swathi", 0).unwrap(), "Swathi");
    // The store reports one existing member named "swathi", ignoring case.
    let dup = check_member_name("  swathi ", 1);
    assert!(dup.is_err(), "duplicate member names must be rejected");
    assert_eq!(
        dup.unwrap_err().message(),
        "a household member named \"swathi\" already exists"
    );
    let blank = check_member_name("   ", 0);
    assert!(blank.is_err(), "blank names must be rejected");
    assert_eq!(blank.unwrap_err().message(), "member name must not be empty");
}

#[test]
fn joint_account_lifecycle_two_owners_then_back_to_sole() {
    assert_eq!(owner_display(&names(&["Koushik", "Swathi"])), "Koushik & Swathi");
    assert_eq!(owner_display(&names(&["Koushik"])), "Koushik");
    assert_eq!(owner_display(&Vec::new()), "Household");
}

#[test]
fn deleting_a_member_cascades_ownership_and_refreshes_display() {
    let before = names(&["Koushik", "Swathi"]);
    let after: Vec<String> = before.into_iter().filter(|n| n != "Swathi").collect();
    assert_eq!(owner_display(&after), "Koushik", "display refreshes to the survivor");
}

#[test]
fn self_member_is_unique_and_movable() {
    let a = new_member("Koushik".into(), None, "2026-01-01T00:00:00Z".into());
    let b = new_member("Swathi".into(), Some("#F472B6".into()), "2026-01-01T00:00:00Z".into());
    assert!(!a.is_self, "create_member never marks self");
    assert_ne!(a.id, b.id);
    assert_eq!(b.color.as_deref(), Some("#F472B6"));
    assert!(matches!(check_member_name("x", 2), Err(MemberError::DuplicateName(_))));
}

#[test]
fn three_owners_are_joined_in_order() {
    assert_eq!(owner_display(&names(&["A", "B", "C"])), "A & B & C");
}
