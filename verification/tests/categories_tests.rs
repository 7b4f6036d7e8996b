use finsight_core::categories::{candidate_id, clean_guidance, clean_label, slug_base, CategoryError};

/// The id category creation settles on: the first candidate not yet taken.
fn first_free_id(label: &str, taken: &[&str]) -> String {
    let base = slug_base(label);
    let mut n: u32 = 1;
    loop {
        let id = candidate_id(&base, n);
        if !taken.contains(&id.as_str()) {
            return id;
        }
        n += 1;
    }
}

#[test]
fn create_deduplicates_slug_ids() {
    let a = first_free_id("Travel", &[]);
    let b = first_free_id("Travel", &[a.as_str()]);
    assert_eq!(a, "travel");
    assert_eq!(b, "travel-2");
    assert_eq!(first_free_id("Travel", &["travel", "travel-2"]), "travel-3");
}

#[test]
fn create_rejects_empty_label() {
    assert_eq!(clean_label("   "), Err(CategoryError::EmptyLabel));
    assert_eq!(CategoryError::EmptyLabel.message(), "category label must not be empty");
    assert_eq!(clean_label("  Dining out ").unwrap(), "Dining out");
}

#[test]
fn slugs_lowercase_ascii_and_hyphenate_the_rest() {
    assert_eq!(slug_base("Dining Out!"), "dining-out");
    assert_eq!(slug_base("--Kids & Pets--"), "kids---pets");
    assert_eq!(slug_base("Café 2"), "caf--2");
    assert_eq!(slug_base("!!!"), "category");
    assert_eq!(slug_base(""), "category");
}

#[test]
fn candidate_ids_count_from_two() {
    assert_eq!(candidate_id("food", 0), "food");
    assert_eq!(candidate_id("food", 1), "food");
    assert_eq!(candidate_id("food", 12), "food-12");
}

#[test]
fn guidance_is_trimmed_and_blank_clears_it() {
    assert_eq!(clean_guidance(Some("  only groceries ")), Some("only groceries".to_string()));
    assert_eq!(clean_guidance(Some("   ")), None);
    assert_eq!(clean_guidance(None), None);
    assert_eq!(CategoryError::NoGroup.message(), "no category group exists");
}
