use ayu_frontend::state::{AppState, Function, GraphError};

#[test]
fn function_new_is_ok() {
    let f = Function::new(0, String::from("function"));
    assert!(f.is_ok());
}

#[test]
fn function_new_is_err() {
    let f = Function::new(0, String::from("功能"));
    assert!(f.is_err());
}

#[test]
fn function_prepare_for_sending() {
    let f = Function::new(0, String::from("function0")).unwrap();
    let (_, name) = f.into_raw_parts();

    assert_eq!(name[0], 102); // f
    assert_eq!(name[1], 117); // u
    assert_eq!(name[2], 110); // n
    assert_eq!(name[3], 99); // c
    assert_eq!(name[4], 116); // t
    assert_eq!(name[5], 105); // i
    assert_eq!(name[6], 111); // o
    assert_eq!(name[7], 110); // n
    assert_eq!(name[8], 48); // 0
    assert_eq!(name[9], 0); // \0
}

#[test]
fn app_state_create_function() {
    let mut state = AppState::new();
    assert_eq!(state.list_functions().len(), 0);

    state.create_function(0, "functino".to_string());
    assert_eq!(state.list_functions().len(), 1);

    let result = state.list_functions().get(0);
    assert!(result.is_some());

    let f = result.unwrap();
    assert_eq!(f.name, "functino\0".to_string());

    state.create_function(1, "funco".to_string());
    assert_eq!(state.list_functions().len(), 2);

    let result = state.list_functions().get(1);
    assert!(result.is_some());

    let f = result.unwrap();
    assert_eq!(f.name, "funco\0".to_string());
}

#[test]
fn app_state_create_task() {
    let mut state = AppState::new();

    assert!(state.create_task(0, false, Some(0), 1).is_err());

    let _ = state.create_function(0, "f1".to_string());

    assert!(state.create_task(0, false, Some(0), 0).is_ok());
}

#[test]
fn create_function_trims_and_defaults() {
    let mut state = AppState::new();
    let f = state.create_function(3, "  spaced\t\n".to_string()).unwrap();
    assert_eq!(f.name, "spaced\0");
    let f = state.create_function(42, "   ".to_string()).unwrap();
    assert_eq!((f.id, f.name.as_str()), (42, "default_function_42\0"));
    let f = state.create_function(0, String::new()).unwrap();
    assert_eq!(f.name, "default_function_0\0");
    let f = state.create_function(u64::MAX, String::new()).unwrap();
    assert_eq!(f.name, "default_function_18446744073709551615\0");
    assert_eq!(state.list_functions().len(), 4);
    assert_eq!(state.create_function_id(), 4);
}

#[test]
fn non_ascii_function_name_is_rejected() {
    let mut state = AppState::new();
    state.create_function(0, "first".to_string());
    assert!(state.create_function(1, "功能".to_string()).is_none());
    assert!(state.create_function(2, " naïve ".to_string()).is_none());
    assert_eq!(state.list_functions().len(), 1);
    assert_eq!(state.create_function_id(), 1);
}

#[test]
fn unknown_function_leaves_tasks_unchanged() {
    let mut state = AppState::new();
    state.create_function(5, "f".to_string());
    assert_eq!(state.create_task(1, false, None, 0), Ok(()));
    assert_eq!(state.create_task(2, true, Some(4), 0), Err(GraphError::UnknownFunction(4)));
    assert_eq!(state.list_tasks(), vec![1]);
    assert!(!state.does_task_exist(2));
    // functions are looked up by id, not by position
    assert_eq!(state.create_task(2, true, Some(5), 3), Ok(()));
    let t = state.get_task(2).unwrap();
    assert_eq!(t.into_raw_parts(), (2, 5, 1, 3));
}

#[test]
fn duplicate_task_id_is_rejected() {
    let mut state = AppState::new();
    assert_eq!(state.create_task(7, false, None, 1), Ok(()));
    assert_eq!(state.create_task(7, true, None, 2), Err(GraphError::DuplicateTask(7)));
    assert_eq!(state.list_tasks(), vec![7]);
    assert_eq!(state.get_task(7).unwrap().thread_id(), 1);
}

#[test]
fn raw_parts_of_unlabelled_task_use_its_id() {
    let mut state = AppState::new();
    state.create_task(9, false, None, 4).unwrap();
    let t = state.get_task(9).unwrap();
    assert_eq!(t.into_raw_parts(), (9, 9, 0, 4));
    assert_eq!(t.get_id(), 9);
    assert_eq!(t.function_id(), None);
    assert!(!t.is_critical());
}

#[test]
fn dependency_shows_on_both_sides() {
    let mut state = AppState::new();
    state.create_task(1, false, None, 0).unwrap();
    state.create_task(2, false, None, 0).unwrap();
    assert_eq!(state.add_dependency(1, 2), Ok(()));
    assert_eq!(state.children_of(1), Some(vec![2]));
    assert_eq!(state.parents_of(2), Some(vec![1]));
    assert_eq!(state.children_of(2), Some(vec![]));
    assert_eq!(state.get_dependencies(), vec![(1, 2)]);
    assert_eq!(state.add_dependency(1, 2), Err(GraphError::DuplicateDependency(1, 2)));
    assert_eq!(state.get_dependencies(), vec![(1, 2)]);
}

#[test]
fn self_dependency_is_rejected() {
    let mut state = AppState::new();
    state.create_task(1, false, None, 0).unwrap();
    assert_eq!(state.add_dependency(1, 1), Err(GraphError::SelfDependency(1)));
    assert_eq!(state.children_of(1), Some(vec![]));
    assert_eq!(state.add_dependency(3, 3), Err(GraphError::TaskNotFound(3)));
}

#[test]
fn deleted_task_is_gone_and_its_edges_dangle() {
    let mut state = AppState::new();
    for id in 1..=3 {
        state.create_task(id, false, None, 0).unwrap();
    }
    state.add_dependency(1, 2).unwrap();
    state.add_dependency(2, 3).unwrap();
    assert_eq!(state.delete_task(2), Some(()));
    assert_eq!(state.delete_task(2), None);
    assert!(!state.does_task_exist(2));
    assert!(state.get_task(2).is_none());
    assert_eq!(state.list_tasks(), vec![1, 3]);
    assert_eq!(state.add_dependency(2, 3), Err(GraphError::TaskNotFound(2)));
    assert_eq!(state.add_dependency(1, 2), Err(GraphError::TaskNotFound(2)));
    assert_eq!(state.children_of(1), Some(vec![]));
    assert_eq!(state.parents_of(3), Some(vec![]));
    assert_eq!(state.get_dependencies(), vec![]);
    // a new task under the same id is not reached through the old edges
    state.create_task(2, false, None, 0).unwrap();
    assert_eq!(state.children_of(1), Some(vec![]));
    assert_eq!(state.add_dependency(1, 2), Ok(()));
    assert_eq!(state.children_of(1), Some(vec![2]));
}

#[test]
fn next_task_id_is_one_past_the_largest() {
    let mut state = AppState::new();
    assert_eq!(state.create_task_id(), Some(1));
    state.create_task(5, false, None, 0).unwrap();
    state.create_task(3, false, None, 0).unwrap();
    assert_eq!(state.create_task_id(), Some(6));
    state.delete_task(5).unwrap();
    assert_eq!(state.create_task_id(), Some(4));
    state.create_task(u64::MAX, false, None, 0).unwrap();
    assert_eq!(state.create_task_id(), None);
}

#[test]
fn functions_are_found_by_id() {
    let mut state = AppState::new();
    state.create_function(8, "eight".to_string());
    assert_eq!(state.get_function(8).unwrap().name, "eight\0");
    assert!(state.get_function(0).is_none());
    assert_eq!(Function::unnamed(12).name, "default_function_12\0");
}

#[test]
fn default_store_is_empty() {
    let state = AppState::default();
    assert!(!state.is_pre_init && !state.is_init);
    assert_eq!(state.list_tasks(), Vec::<u64>::new());
    assert_eq!(state.list_functions().len(), 0);
}

#[test]
fn non_ascii_name_gives_its_error() {
    let f = Function::new(0, String::from("ünï"));
    assert_eq!(f.err(), Some("string contains non ascii characters"));
}
