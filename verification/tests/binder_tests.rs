use rockery_datamodel::prelude::{
    ErrorKind, RockeryProject, RockeryProjectBinder, RockeryService, RockeryServiceType, SaveStep,
};

#[test]
fn test_c_tor() {
    let mut binder = RockeryProjectBinder::new();
    assert!(binder.get_project(0).is_none());
    assert!(binder.get_project(1).is_none());
    assert_eq!(binder.get_projects().len(), 0);

    assert_eq!(binder.create_project().get_name(), "Unnamed");
    assert_eq!(binder.create_project().get_name(), "Unnamed_1");
    assert_eq!(binder.get_projects().len(), 2);

    assert_eq!(binder.get_project(0).unwrap().get_name(), "Unnamed");
    assert_eq!(binder.get_project(1).unwrap().get_name(), "Unnamed_1");
    assert!(binder.get_project(2).is_none());
}

#[test]
fn test_renaming_project() {
    let old_name = "Unnamed_1".to_owned();
    let new_name = "Test".to_owned();

    let mut binder = RockeryProjectBinder::new();
    assert_eq!(binder.create_project().get_name(), "Unnamed");
    assert_eq!(binder.create_project().get_name(), old_name);

    assert_eq!(binder.rename_project(&old_name, &new_name).unwrap().get_name(), new_name);

    assert_eq!(binder.get_project(0).unwrap().get_name(), "Unnamed");
    assert_eq!(binder.get_project(1).unwrap().get_name(), new_name);
    assert!(binder.get_project_file(0).is_some());
    assert!(binder.get_project_file(1).is_some());
    assert!(binder.get_project(2).is_none());

    assert!((binder.rename_project("Unnamed", "Test").is_err()));
}

#[test]
fn test_removing_project() {
    let old_name = "Unnamed_1".to_owned();
    let new_name = "Test".to_owned();

    let mut binder = RockeryProjectBinder::new();
    assert_eq!(binder.create_project().get_name(), "Unnamed");
    assert_eq!(binder.create_project().get_name(), old_name);

    assert!(binder.remove_project(&new_name).is_err());
    assert_eq!(binder.rename_project(&old_name, &new_name).unwrap().get_name(), new_name);
    assert!(binder.remove_project(&new_name).is_ok());

    assert_eq!(binder.get_project(0).unwrap().get_name(), "Unnamed");
    assert!(binder.get_project(1).is_none());
}

#[test]
fn created_projects_are_numbered_in_sequence() {
    let mut binder = RockeryProjectBinder::default();
    assert_eq!(binder.create_project().get_name(), "Unnamed");
    assert_eq!(binder.create_project().get_name(), "Unnamed_1");
    assert_eq!(binder.create_project().get_name(), "Unnamed_2");
    let last = binder.create_project();
    assert_eq!(last.get_name(), "Unnamed_3");
    assert!(last.is_dirty());
    assert!(last.get_services().is_empty());
    assert_eq!(binder.get_project_file(0).unwrap(), "Unnamed.json");
    assert_eq!(binder.get_project_file(2).unwrap(), "Unnamed_2.json");
    assert!(binder.get_project_file(4).is_none());
    assert_eq!(binder.get_project_paths().len(), 4);
    assert_eq!(binder.find_project("Unnamed_2"), Some(2));
}

#[test]
fn rename_fails_without_change_and_keeps_positions() {
    let mut binder = RockeryProjectBinder::new();
    binder.create_project();
    binder.create_project();
    binder.set_project_file(0, "first.json").unwrap();

    let e = binder.rename_project("Unnamed", "Unnamed_1").unwrap_err();
    assert_eq!(e.kind(), ErrorKind::Conflict);
    assert_eq!(
        e.to_string(),
        "Project cannot be renamed because the new name is already taken. Project names must be unique."
    );
    let e = binder.rename_project("Missing", "Unnamed_1").unwrap_err();
    assert_eq!(e.kind(), ErrorKind::Conflict);
    let e = binder.rename_project("Missing", "Fresh").unwrap_err();
    assert_eq!(e.kind(), ErrorKind::NotFound);
    assert_eq!(e.to_string(), "A project with the name Missing does not exist.");
    assert_eq!(binder.get_project(0).unwrap().get_name(), "Unnamed");
    assert_eq!(binder.get_project(1).unwrap().get_name(), "Unnamed_1");
    assert_eq!(binder.find_project("Fresh"), None);

    assert_eq!(binder.rename_project("Unnamed", "Fresh").unwrap().get_name(), "Fresh");
    assert_eq!(binder.find_project("Fresh"), Some(0));
    assert_eq!(binder.find_project("Unnamed"), None);
    assert_eq!(binder.get_project_file(0).unwrap(), "first.json");
    assert_eq!(binder.get_project_file(1).unwrap(), "Unnamed_1.json");
    assert!(binder.get_project(0).unwrap().is_dirty());
    assert_eq!(binder.create_project().get_name(), "Unnamed");
}

#[test]
fn removing_a_project_moves_the_later_ones_up() {
    let mut binder = RockeryProjectBinder::new();
    binder.create_project();
    binder.create_project();
    binder.create_project();
    let e = binder.remove_project("Nope").unwrap_err();
    assert_eq!(e.kind(), ErrorKind::NotFound);
    assert_eq!(e.to_string(), "A project with the name Nope does not exist.");
    binder.remove_project("Unnamed").unwrap();
    assert_eq!(binder.get_projects().len(), 2);
    assert_eq!(binder.find_project("Unnamed_1"), Some(0));
    assert_eq!(binder.find_project("Unnamed_2"), Some(1));
    assert_eq!(binder.get_project_file(1).unwrap(), "Unnamed_2.json");
    assert_eq!(binder.rename_project("Unnamed_2", "Last").unwrap().get_name(), "Last");
    assert_eq!(binder.get_project(1).unwrap().get_name(), "Last");
}

#[test]
fn set_project_file_and_add_service_check_the_index() {
    let mut binder = RockeryProjectBinder::new();
    binder.create_project();
    let e = binder.set_project_file(1, "x.json").unwrap_err();
    assert_eq!(e.kind(), ErrorKind::NotFound);
    assert_eq!(e.to_string(), "The project index was invalid.");
    assert!(binder.set_project_file(0, "x.json").is_ok());
    assert_eq!(binder.get_project_file(0).unwrap(), "x.json");

    let service = RockeryService::new(RockeryServiceType::Rest, "http://a");
    let e = binder.add_service(1, service.clone()).unwrap_err();
    assert_eq!(e.kind(), ErrorKind::NotFound);
    assert_eq!(e.to_string(), "Invalid index");
    assert!(binder.add_service(0, service.clone()).is_ok());
    assert!(binder.add_service(0, service).is_ok());
    let project = binder.get_project(0).unwrap();
    assert_eq!(project.get_services().len(), 2);
    assert_eq!(project.get_service_keys().name_at(1), "Unnamed_1");
}

#[test]
fn load_project_registers_or_reports() {
    let mut binder = RockeryProjectBinder::new();
    binder.create_project();
    let loaded = RockeryProject::restore("Holidays".to_owned(), Vec::new(), Vec::new());
    assert_eq!(binder.load_project("holidays.json", loaded).unwrap().get_name(), "Holidays");
    assert_eq!(binder.find_project("Holidays"), Some(1));
    assert_eq!(binder.get_project_file(1).unwrap(), "holidays.json");
    assert!(!binder.get_project(1).unwrap().is_dirty());

    let again = RockeryProject::restore("Holidays".to_owned(), Vec::new(), Vec::new());
    let e = binder.load_project("copy.json", again).unwrap_err();
    assert_eq!(e.kind(), ErrorKind::Conflict);
    assert_eq!(
        e.to_string(),
        "Could not load 'Holidays' because there is a another project with the same name already loaded."
    );
    assert_eq!(binder.get_projects().len(), 2);

    let broken = RockeryProject::restore("B".to_owned(), vec!["k".to_owned()], Vec::new());
    let e = binder.load_project("b.json", broken).unwrap_err();
    assert_eq!(e.kind(), ErrorKind::SerializationFailure);
    assert_eq!(
        e.to_string(),
        "Could not load a project. Error: The project record holds a different number of keys and services.."
    );
    assert_eq!(binder.get_projects().len(), 2);
}

#[test]
fn saving_writes_every_project_and_then_the_manifest() {
    let mut binder = RockeryProjectBinder::new();
    assert_eq!(binder.save_begin(), SaveStep::Manifest);
    binder.create_project();
    binder.create_project();
    let mut step = binder.save_begin();
    let mut written = Vec::new();
    while step != SaveStep::Done {
        written.push(step);
        step = binder.save_advance(step, Ok(())).unwrap();
    }
    assert_eq!(written, vec![SaveStep::Project(0), SaveStep::Project(1), SaveStep::Manifest]);
    assert!(!binder.get_project(0).unwrap().is_dirty());
    assert!(!binder.get_project(1).unwrap().is_dirty());
    let e = binder.save_advance(SaveStep::Done, Ok(())).unwrap_err();
    assert_eq!(e.kind(), ErrorKind::InvalidState);
    let e = binder.save_advance(SaveStep::Project(2), Ok(())).unwrap_err();
    assert_eq!(e.kind(), ErrorKind::InvalidState);
}

#[test]
fn saving_stops_at_the_first_project_that_fails() {
    let mut binder = RockeryProjectBinder::new();
    binder.create_project();
    binder.create_project();
    binder.create_project();
    let mut written = Vec::new();
    let mut step = binder.save_begin();
    let failure = loop {
        let outcome = if step == SaveStep::Project(1) {
            Err("disk full".to_owned())
        } else {
            written.push(step);
            Ok(())
        };
        match binder.save_advance(step, outcome) {
            Ok(SaveStep::Done) => panic!("the saving went through"),
            Ok(next) => step = next,
            Err(e) => break e,
        }
    };
    assert_eq!(written, vec![SaveStep::Project(0)]);
    assert_eq!(failure.kind(), ErrorKind::IOFailure);
    assert_eq!(failure.to_string(), "Could not save project 'Unnamed_1'. Error: disk full.");
    assert!(!binder.get_project(0).unwrap().is_dirty());
    assert!(binder.get_project(1).unwrap().is_dirty());
    assert!(binder.get_project(2).unwrap().is_dirty());
}

#[test]
fn a_failed_manifest_is_reported() {
    let mut binder = RockeryProjectBinder::new();
    let e = binder.save_advance(SaveStep::Manifest, Err("read-only".to_owned())).unwrap_err();
    assert_eq!(e.kind(), ErrorKind::IOFailure);
    assert_eq!(e.to_string(), "Could not store projects binder. Error: read-only");
    assert_eq!(binder.save_advance(SaveStep::Manifest, Ok(())).unwrap(), SaveStep::Done);
}

#[test]
fn a_service_in_a_binder_can_be_changed_in_place() {
    let mut binder = RockeryProjectBinder::new();
    binder.create_project();
    binder.create_project();
    let service = RockeryService::new(RockeryServiceType::Rest, "http://a");
    binder.add_service(1, service).unwrap();
    binder.save_advance(SaveStep::Project(1), Ok(())).unwrap();
    assert!(!binder.get_project(1).unwrap().is_dirty());
    binder.service_at_mut(1, 0).set_service_type(RockeryServiceType::Soap);
    let project = binder.get_project(1).unwrap();
    assert!(project.is_dirty());
    assert_eq!(*project.get_services()[0].get_service_type(), RockeryServiceType::Soap);
    assert_eq!(project.get_name(), "Unnamed_1");
    assert!(binder.get_project(0).unwrap().get_services().is_empty());
}

#[test]
fn test_storing_binder() {
    let mut binder = RockeryProjectBinder::new();
    assert_eq!(binder.create_project().get_name(), "Unnamed");
    assert_eq!(binder.create_project().get_name(), "Unnamed_1");

    // Set a file path...
    assert!(binder.set_project_file(0, "Test_2.json").is_ok());
    assert!(binder.set_project_file(1, "Feiertage.json").is_ok());

    binder.rename_project("Unnamed", "Test_1").unwrap();
    binder.rename_project("Unnamed_1", "Feiertage").unwrap();

    // ... now we can store the binder: what is written is kept in memory.
    let mut files: Vec<(String, String, Vec<String>, Vec<RockeryService>)> = Vec::new();
    let mut manifest: Vec<String> = Vec::new();
    let mut step = binder.save_begin();
    while step != SaveStep::Done {
        match step {
            SaveStep::Project(i) => {
                let project = binder.get_project(i).unwrap();
                files.push((
                    binder.get_project_file(i).unwrap().clone(),
                    project.get_name().to_owned(),
                    project.get_service_keys().names().clone(),
                    project.get_services().clone(),
                ));
            }
            SaveStep::Manifest => manifest = binder.get_project_paths().clone(),
            SaveStep::Done => {}
        }
        let next = binder.save_advance(step, Ok(()));
        assert!(next.is_ok());
        step = next.unwrap();
    }
    assert_eq!(manifest, vec!["Test_2.json".to_owned(), "Feiertage.json".to_owned()]);

    // Load the binder again and check the result.
    let mut binder_2 = RockeryProjectBinder::new();
    for path in &manifest {
        let (_, name, keys, services) =
            files.iter().find(|file| &file.0 == path).cloned().unwrap();
        let res = binder_2.load_step(path, RockeryProject::restore(name, keys, services));
        assert!(res.is_ok());
    }

    // Reload and compare both projects.
    assert!(binder_2.get_project(0).is_some());
    assert_eq!(binder_2.get_project(0).unwrap().get_name(), "Test_1");
    assert!(binder.get_project(0).is_some());
    assert_eq!(binder.get_project(0).unwrap().get_name(), "Test_1");
    assert_eq!(binder_2.get_project(1).unwrap().get_name(), "Feiertage");
    assert_eq!(binder_2.get_project_file(1).unwrap(), "Feiertage.json");
    assert!(!binder_2.get_project(0).unwrap().is_dirty());
}
