use wt_manager::db::{
    copy_project, get_projects, save_project, update_last_accessed, Database, ProjectInfo,
    RegistryError,
};

fn project(path: &str, name: &str, last_accessed: u64) -> ProjectInfo {
    ProjectInfo { path: path.to_string(), name: name.to_string(), last_accessed }
}

#[test]
fn new_registry_is_empty() {
    let db = Database::new();
    assert!(db.projects().is_empty());
    assert_eq!(get_projects(&db), Vec::<ProjectInfo>::new());
}

#[test]
fn save_project_names_it_after_its_path() {
    let mut db = Database::new();
    assert_eq!(save_project(&mut db, "/home/u/proj", 100), Ok(()));
    assert_eq!(db.projects(), &vec![project("/home/u/proj", "proj", 100)]);
}

#[test]
fn save_project_again_replaces_the_record() {
    let mut db = Database::new();
    save_project(&mut db, "/home/u/a", 1).unwrap();
    save_project(&mut db, "/home/u/b", 2).unwrap();
    save_project(&mut db, "/home/u/a", 3).unwrap();
    assert_eq!(
        db.projects(),
        &vec![project("/home/u/a", "a", 3), project("/home/u/b", "b", 2)]
    );
}

#[test]
fn save_project_refuses_a_nameless_path() {
    let mut db = Database::new();
    save_project(&mut db, "/home/u/a", 1).unwrap();
    assert_eq!(save_project(&mut db, "/", 2), Err(RegistryError::InvalidRepositoryPath));
    assert_eq!(save_project(&mut db, "/a/..", 2), Err(RegistryError::InvalidRepositoryPath));
    assert_eq!(db.projects(), &vec![project("/home/u/a", "a", 1)]);
    assert_eq!(RegistryError::InvalidRepositoryPath.message(), "Invalid repository path");
}

#[test]
fn insert_keeps_paths_distinct() {
    let mut db = Database::new();
    db.insert(project("/p", "first", 1));
    db.insert(project("/q", "other", 2));
    db.insert(project("/p", "second", 3));
    assert_eq!(db.projects(), &vec![project("/p", "second", 3), project("/q", "other", 2)]);
    assert_eq!(db.find("/q"), Some(1));
    assert_eq!(db.find("/r"), None);
}

#[test]
fn update_last_accessed_touches_known_projects_only() {
    let mut db = Database::new();
    save_project(&mut db, "/home/u/a", 1).unwrap();
    save_project(&mut db, "/home/u/b", 2).unwrap();
    assert!(update_last_accessed(&mut db, "/home/u/b", 9));
    assert_eq!(
        db.projects(),
        &vec![project("/home/u/a", "a", 1), project("/home/u/b", "b", 9)]
    );
    assert!(!update_last_accessed(&mut db, "/home/u/c", 10));
    assert_eq!(
        db.projects(),
        &vec![project("/home/u/a", "a", 1), project("/home/u/b", "b", 9)]
    );
}

#[test]
fn get_projects_lists_latest_first() {
    let mut db = Database::new();
    save_project(&mut db, "/w/old", 10).unwrap();
    save_project(&mut db, "/w/new", 30).unwrap();
    save_project(&mut db, "/w/mid", 20).unwrap();
    assert_eq!(
        get_projects(&db),
        vec![project("/w/new", "new", 30), project("/w/mid", "mid", 20), project("/w/old", "old", 10)]
    );
}

#[test]
fn get_projects_keeps_equal_times_in_saved_order() {
    let mut db = Database::new();
    save_project(&mut db, "/w/a", 5).unwrap();
    save_project(&mut db, "/w/b", 7).unwrap();
    save_project(&mut db, "/w/c", 5).unwrap();
    save_project(&mut db, "/w/d", u64::MAX).unwrap();
    assert_eq!(
        get_projects(&db),
        vec![
            project("/w/d", "d", u64::MAX),
            project("/w/b", "b", 7),
            project("/w/a", "a", 5),
            project("/w/c", "c", 5),
        ]
    );
}

#[test]
fn touching_moves_a_project_to_the_front() {
    let mut db = Database::new();
    save_project(&mut db, "/w/a", 1).unwrap();
    save_project(&mut db, "/w/b", 2).unwrap();
    update_last_accessed(&mut db, "/w/a", 3);
    assert_eq!(get_projects(&db), vec![project("/w/a", "a", 3), project("/w/b", "b", 2)]);
}

#[test]
fn copy_project_is_equal() {
    let p = project("/w/a", "a", 4);
    assert_eq!(copy_project(&p), p);
}
