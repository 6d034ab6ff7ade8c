use gradelib::task_status::{
    clear_old_completed_tasks, create_task_id, get_task_info, list_tasks_by_type,
    list_tasks_for_resource, register_task, set_task_completed, set_task_failed,
    set_task_in_progress, TaskRegistry, TaskStatus,
};

#[test]
fn task_ids_and_lifecycle() {
    assert_eq!(create_task_id("issues", "o/r", "fetch"), "issues:o/r:fetch");
    let mut reg = TaskRegistry::new();
    let id = register_task(&mut reg, "issues", "o/r", "fetch", 10);
    assert_eq!(id, "issues:o/r:fetch");
    let t = get_task_info(&reg, &id).unwrap();
    assert!(matches!(t.status, TaskStatus::Idle));
    assert_eq!((t.created_at, t.updated_at), (10, 10));
    assert!(set_task_in_progress(&mut reg, &id, 250, 11));
    assert!(matches!(
        get_task_info(&reg, &id).unwrap().status,
        TaskStatus::InProgress { completion_percentage: 100 }
    ));
    assert!(set_task_in_progress(&mut reg, &id, -4, 11));
    assert!(matches!(
        get_task_info(&reg, &id).unwrap().status,
        TaskStatus::InProgress { completion_percentage: 0 }
    ));
    assert!(set_task_completed(&mut reg, &id, 20));
    let t = get_task_info(&reg, &id).unwrap();
    assert!(matches!(t.status, TaskStatus::Completed { completed_at: 20 }));
    assert_eq!((t.created_at, t.updated_at), (10, 20));
    assert!(!set_task_failed(&mut reg, "nope", "e", 21));
}

#[test]
fn listing_and_clearing() {
    let mut reg = TaskRegistry::new();
    let a = register_task(&mut reg, "issues", "r1", "fetch", 0);
    let b = register_task(&mut reg, "pulls", "r1", "fetch", 0);
    let c = register_task(&mut reg, "issues", "r2", "fetch", 0);
    set_task_completed(&mut reg, &a, 100);
    set_task_completed(&mut reg, &b, 195);
    set_task_failed(&mut reg, &c, "boom", 50);
    assert_eq!(list_tasks_by_type(&reg, "issues").len(), 2);
    assert_eq!(list_tasks_for_resource(&reg, "r1").len(), 2);
    assert_eq!(clear_old_completed_tasks(&mut reg, 10, 200), 1);
    assert!(get_task_info(&reg, &a).is_none());
    assert!(get_task_info(&reg, &b).is_some());
    match get_task_info(&reg, &c).unwrap().status {
        TaskStatus::Failed { error, failed_at } => {
            assert_eq!(error, "boom");
            assert_eq!(failed_at, 50);
        }
        _ => panic!("expected a failure"),
    }
    assert_eq!(clear_old_completed_tasks(&mut reg, 10, 90), 0);
}
