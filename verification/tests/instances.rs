use filecrab::clock::{current_time_millis, ttl_hours_to_millis};
use filecrab::error::TransferError;
use filecrab::instances::{Instance, InstanceSet, RemoveOutcome};

fn inst(name: &str) -> Instance {
    Instance {
        name: name.to_string(),
        url: format!("https://{name}.example"),
        api_key: "SECRET-REDACTED".to_string(),
    }
}

#[test]
fn one_instance_is_active() {
    let set = InstanceSet::new(inst("home"));
    assert_eq!(set.get_active_instance().name, "home");
    assert!(set.name_in_use(&"home".to_string()));
    assert!(!set.name_in_use(&"work".to_string()));
}

#[test]
fn adding_a_duplicate_name_is_rejected() {
    let mut set = InstanceSet::new(inst("home"));
    set.add_instance(inst("work"), false).unwrap();
    assert_eq!(
        set.add_instance(inst("home"), false),
        Err(TransferError::DuplicateIdentifier)
    );
    assert_eq!(
        set.add_instance(inst("work"), true),
        Err(TransferError::DuplicateIdentifier)
    );
    assert_eq!(set.others.len(), 1);
}

#[test]
fn adding_as_active_swaps_the_old_active_out() {
    let mut set = InstanceSet::new(inst("home"));
    set.add_instance(inst("work"), true).unwrap();
    assert_eq!(set.get_active_instance().name, "work");
    assert_eq!(set.others.len(), 1);
    assert_eq!(set.others[0].name, "home");
}

#[test]
fn switching_activates_the_named_instance() {
    let mut set = InstanceSet::new(inst("home"));
    set.add_instance(inst("work"), false).unwrap();
    set.switch_instance(&"work".to_string()).unwrap();
    assert_eq!(set.get_active_instance().name, "work");
    assert_eq!(set.others[0].name, "home");
    assert_eq!(
        set.switch_instance(&"nowhere".to_string()),
        Err(TransferError::NotFound)
    );
}

#[test]
fn removing_covers_all_three_outcomes() {
    let mut set = InstanceSet::new(inst("home"));
    set.add_instance(inst("work"), false).unwrap();
    set.add_instance(inst("lab"), false).unwrap();

    // A non-active instance just disappears.
    assert!(matches!(
        set.remove_instance(&"lab".to_string()),
        Ok(RemoveOutcome::Removed)
    ));
    assert!(!set.name_in_use(&"lab".to_string()));

    // Removing the active one promotes the first of the others.
    assert!(matches!(
        set.remove_instance(&"home".to_string()),
        Ok(RemoveOutcome::ActiveReplaced)
    ));
    assert_eq!(set.get_active_instance().name, "work");

    // Removing the last one makes the configuration obsolete.
    assert!(matches!(
        set.remove_instance(&"work".to_string()),
        Ok(RemoveOutcome::ConfigObsolete)
    ));

    assert!(matches!(
        set.remove_instance(&"ghost".to_string()),
        Err(TransferError::NotFound)
    ));
}

#[test]
fn ttl_conversion_is_exact_and_checked() {
    assert_eq!(ttl_hours_to_millis(0), Some(0));
    assert_eq!(ttl_hours_to_millis(1), Some(3_600_000));
    assert_eq!(ttl_hours_to_millis(24), Some(86_400_000));
    assert_eq!(ttl_hours_to_millis(u64::MAX / 1_000), None);
}

#[test]
fn the_clock_reads_a_recent_time() {
    // Any run of this test happens well after 2020.
    assert!(current_time_millis() > 1_577_836_800_000);
}
