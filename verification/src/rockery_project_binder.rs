//! The registry of all projects: it keeps their names unique, knows the file
//! of each, and decides how saving the whole collection proceeds.

use vstd::prelude::*;
use vstd::string::*;
use crate::name_index::{first_free_name, NameIndex};
use crate::rockery_error::{ErrorKind, RockeryError};
use crate::rockery_project::{ProjectView, RockeryProject};
use crate::rockery_service::RockeryService;
use crate::text::texts;

verus! {

/// What a binder is made of. Project `i` is registered under `names[i]` and
/// is kept in the file `paths[i]`.
pub struct BinderView {
    pub names: Seq<Seq<char>>,
    pub projects: Seq<RockeryProject>,
    pub paths: Seq<Seq<char>>,
}

/// A collection of projects with unique names.
#[derive(Debug)]
pub struct RockeryProjectBinder {
    name_to_project_map: NameIndex,
    projects: Vec<RockeryProject>,
    project_paths: Vec<String>,
}

/// What is to be written next while a binder is saved.
#[derive(Debug, Clone, Copy, PartialEq, Eq, Structural)]
pub enum SaveStep {
    /// The file of the project at this position.
    Project(usize),
    /// The manifest: the list of the project files.
    Manifest,
    /// Nothing: all is written.
    Done,
}

impl View for RockeryProjectBinder {
    type V = BinderView;

    closed spec fn view(&self) -> BinderView {
        BinderView {
            names: self.name_to_project_map@,
            projects: self.projects@,
            paths: texts(self.project_paths@),
        }
    }
}

/// The file in which a new project of the given name is kept.
pub open spec fn default_path(name: Seq<char>) -> Seq<char> {
    name + ".json"@
}

/// The message for a file that is set for a project that does not exist.
pub open spec fn invalid_project_index_message() -> Seq<char> {
    "The project index was invalid."@
}

/// The message for a position at which there is no project.
pub open spec fn invalid_index_message() -> Seq<char> {
    "Invalid index"@
}

/// The message for a renaming to a name that another project has.
pub open spec fn name_taken_message() -> Seq<char> {
    "Project cannot be renamed because the new name is already taken. Project names must be unique."@
}

/// The message for a name under which no project is registered.
pub open spec fn missing_project_message(name: Seq<char>) -> Seq<char> {
    "A project with the name "@ + name + " does not exist."@
}

/// The message for a project that was read and whose name is taken.
pub open spec fn duplicate_project_message(name: Seq<char>) -> Seq<char> {
    "Could not load '"@ + name
        + "' because there is a another project with the same name already loaded."@
}

/// The message for a project that could not be read.
pub open spec fn load_failed_message(cause: Seq<char>) -> Seq<char> {
    "Could not load a project. Error: "@ + cause + "."@
}

/// The message for a binder whose loading ended with a failure.
pub open spec fn loading_failed_message(cause: Seq<char>) -> Seq<char> {
    "Could not load a project. Error: "@ + cause
}

/// The message for a project that could not be written; it names the
/// project.
pub open spec fn save_failed_message(name: Seq<char>, cause: Seq<char>) -> Seq<char> {
    "Could not save project '"@ + name + "'. Error: "@ + cause + "."@
}

/// The message for a manifest that could not be written.
pub open spec fn manifest_failed_message(cause: Seq<char>) -> Seq<char> {
    "Could not store projects binder. Error: "@ + cause
}

/// The message for a step that is asked for when all is written.
pub open spec fn nothing_to_save_message() -> Seq<char> {
    "There is nothing left to save."@
}

/// What is written first when a binder of `count` projects is saved.
pub open spec fn first_step(count: nat) -> SaveStep {
    if count > 0 {
        SaveStep::Project(0)
    } else {
        SaveStep::Manifest
    }
}

/// What is written after `step` went well: the projects in their order, then
/// the manifest, then nothing.
pub open spec fn next_step(count: nat, step: SaveStep) -> SaveStep {
    match step {
        SaveStep::Project(i) => if i + 1 < count {
            SaveStep::Project((i + 1) as usize)
        } else {
            SaveStep::Manifest
        },
        SaveStep::Manifest => SaveStep::Done,
        SaveStep::Done => SaveStep::Done,
    }
}

impl RockeryProjectBinder {
    /// Every project is registered under its current name at its own
    /// position and has a file, and no name occurs twice.
    pub open spec fn well_formed(&self) -> bool {
        &&& self@.names.no_duplicates()
        &&& self@.names.len() == self@.projects.len()
        &&& self@.paths.len() == self@.projects.len()
        &&& forall|i: int|
            0 <= i < self@.projects.len() ==> self@.names[i] == (#[trigger] self@.projects[i])@.name
        &&& forall|i: int|
            0 <= i < self@.projects.len() ==> (#[trigger] self@.projects[i]).well_formed()
    }

    /// A binder without projects.
    pub fn new() -> (r: RockeryProjectBinder)
        ensures
            r@.names == Seq::<Seq<char>>::empty(),
            r@.projects == Seq::<RockeryProject>::empty(),
            r@.paths == Seq::<Seq<char>>::empty(),
            r.well_formed(),
    {
        let r = RockeryProjectBinder {
            name_to_project_map: NameIndex::new(),
            projects: Vec::new(),
            project_paths: Vec::new(),
        };
        assert(r@.paths =~= Seq::<Seq<char>>::empty());
        r
    }

    /// Creates an empty project under the first free one of the names
    /// `Unnamed`, `Unnamed_1`, `Unnamed_2`, ..., with a file named after it.
    pub fn create_project(&mut self) -> (r: &RockeryProject)
        requires
            old(self).well_formed(),
        ensures
            r@ == (ProjectView {
                name: first_free_name(old(self)@.names, "Unnamed"@),
                dirty: true,
                keys: Seq::empty(),
                services: Seq::empty(),
            }),
            final(self)@ == (BinderView {
                names: old(self)@.names.push(r@.name),
                projects: old(self)@.projects.push(*r),
                paths: old(self)@.paths.push(default_path(r@.name)),
            }),
            final(self).well_formed(),
    {
        let name = self.name_to_project_map.first_free("Unnamed");
        let pro = RockeryProject::new(name.as_str());
        let mut path = name.clone();
        path.append(".json");
        let index = self.projects.len();
        self.project_paths.push(path);
        self.projects.push(pro);
        self.name_to_project_map.push(name);
        proof {
            assert(self@.paths =~= old(self)@.paths.push(default_path(name@)));
        }
        &self.projects[index]
    }

    /// The projects in the order in which they were registered.
    pub fn get_projects(&self) -> (r: &Vec<RockeryProject>)
        ensures
            r@ == self@.projects,
    {
        &self.projects
    }

    /// The files of the projects, in the order of the projects.
    pub fn get_project_paths(&self) -> (r: &Vec<String>)
        ensures
            texts(r@) == self@.paths,
    {
        &self.project_paths
    }

    /// The project at position `index`, if there is one.
    pub fn get_project(&self, index: usize) -> (r: Option<&RockeryProject>)
        ensures
            match r {
                Some(p) => index < self@.projects.len() && *p == self@.projects[index as int],
                None => index >= self@.projects.len(),
            },
    {
        if index >= self.projects.len() {
            return None;
        }
        Some(&self.projects[index])
    }

    /// The position of the project that is registered under `name`.
    pub fn find_project(&self, name: &str) -> (r: Option<usize>)
        ensures
            match r {
                Some(i) => i < self@.names.len() && self@.names[i as int] == name@,
                None => !self@.names.contains(name@),
            },
    {
        self.name_to_project_map.position(name)
    }

    /// The file of the project at position `index`, if there is one.
    pub fn get_project_file(&self, index: usize) -> (r: Option<&String>)
        ensures
            match r {
                Some(p) => index < self@.paths.len() && p@ == self@.paths[index as int],
                None => index >= self@.paths.len(),
            },
    {
        if index >= self.project_paths.len() {
            return None;
        }
        Some(&self.project_paths[index])
    }

    /// Sets the file of the project at position `index`. Fails, and changes
    /// nothing, where there is no such project.
    pub fn set_project_file(&mut self, index: usize, path: &str) -> (r: Result<(), RockeryError>)
        requires
            old(self).well_formed(),
        ensures
            r.is_ok() <==> index < old(self)@.paths.len(),
            match r {
                Ok(_) => final(self)@ == (BinderView {
                    paths: old(self)@.paths.update(index as int, path@),
                    ..old(self)@
                }),
                Err(e) => {
                    &&& e.is(ErrorKind::NotFound, invalid_project_index_message())
                    &&& final(self)@ == old(self)@
                },
            },
            final(self).well_formed(),
    {
        if index >= self.project_paths.len() {
            return Err(
                RockeryError::new(ErrorKind::NotFound, "The project index was invalid.".to_owned()),
            );
        }
        self.project_paths[index] = path.to_owned();
        proof {
            assert(self@.paths =~= old(self)@.paths.update(index as int, path@));
        }
        Ok(())
    }

    /// Adds a service to the project at position `project_index`, as the
    /// project itself would. Fails, and changes nothing, where there is no
    /// such project.
    pub fn add_service(&mut self, project_index: usize, service: RockeryService) -> (r: Result<
        (),
        RockeryError,
    >)
        requires
            old(self).well_formed(),
        ensures
            r.is_ok() <==> project_index < old(self)@.projects.len(),
            match r {
                Ok(_) => {
                    let before = old(self)@.projects[project_index as int];
                    let after = final(self)@.projects[project_index as int];
                    &&& final(self)@ == (BinderView {
                        projects: old(self)@.projects.update(project_index as int, after),
                        ..old(self)@
                    })
                    &&& after@ == (ProjectView {
                        dirty: true,
                        keys: before@.keys.push(first_free_name(before@.keys, service@.name)),
                        services: before@.services.push(service),
                        ..before@
                    })
                },
                Err(e) => {
                    &&& e.is(ErrorKind::NotFound, invalid_index_message())
                    &&& final(self)@ == old(self)@
                },
            },
            final(self).well_formed(),
    {
        if project_index >= self.projects.len() {
            return Err(RockeryError::new(ErrorKind::NotFound, "Invalid index".to_owned()));
        }
        let project = &mut self.projects[project_index];
        project.add_service(service);
        proof {
            assert(self@.projects =~= old(self)@.projects.update(
                project_index as int,
                self@.projects[project_index as int],
            ));
        }
        Ok(())
    }

    /// Hands out the service at position `position` of the project at
    /// position `project_index`, so that it can be changed. That project is
    /// dirty afterwards; nothing else changes.
    pub fn service_at_mut(&mut self, project_index: usize, position: usize) -> (r:
        &mut RockeryService)
        requires
            old(self).well_formed(),
            project_index < old(self)@.projects.len(),
            position < old(self)@.projects[project_index as int]@.services.len(),
        ensures
            *r == old(self)@.projects[project_index as int]@.services[position as int],
            final(self)@.names == old(self)@.names,
            final(self)@.paths == old(self)@.paths,
            final(self)@.projects.len() == old(self)@.projects.len(),
            forall|j: int|
                0 <= j < old(self)@.projects.len() && j != project_index
                    ==> final(self)@.projects[j] == old(self)@.projects[j],
            final(self)@.projects[project_index as int]@ == (ProjectView {
                dirty: true,
                services: old(self)@.projects[project_index as int]@.services.update(
                    position as int,
                    *final(r),
                ),
                ..old(self)@.projects[project_index as int]@
            }),
            final(self).well_formed(),
    {
        let project = &mut self.projects[project_index];
        project.service_at_mut(position)
    }

    /// Registers the project that is known as `old_name` under `new_name`
    /// and gives it that name; the project is dirty afterwards. Positions
    /// and files stay as they are. Fails, and changes nothing, where
    /// `new_name` is taken, or else where no project is known as `old_name`.
    pub fn rename_project(&mut self, old_name: &str, new_name: &str) -> (r: Result<
        &RockeryProject,
        RockeryError,
    >)
        requires
            old(self).well_formed(),
        ensures
            r.is_ok() <==> !old(self)@.names.contains(new_name@) && old(self)@.names.contains(
                old_name@,
            ),
            match r {
                Ok(renamed) => {
                    let i = old(self)@.names.index_of(old_name@);
                    &&& renamed@ == (ProjectView {
                        name: new_name@,
                        dirty: true,
                        ..old(self)@.projects[i]@
                    })
                    &&& final(self)@ == (BinderView {
                        names: old(self)@.names.update(i, new_name@),
                        projects: old(self)@.projects.update(i, *renamed),
                        paths: old(self)@.paths,
                    })
                },
                Err(e) => {
                    &&& final(self)@ == old(self)@
                    &&& if old(self)@.names.contains(new_name@) {
                        e.is(ErrorKind::Conflict, name_taken_message())
                    } else {
                        e.is(ErrorKind::NotFound, missing_project_message(old_name@))
                    }
                },
            },
            final(self).well_formed(),
    {
        if self.name_to_project_map.contains(new_name) {
            return Err(
                RockeryError::new(
                    ErrorKind::Conflict,
                    "Project cannot be renamed because the new name is already taken. Project names must be unique.".to_owned(),
                ),
            );
        }
        match self.name_to_project_map.position(old_name) {
            None => {
                let mut message = "A project with the name ".to_owned();
                message.append(old_name);
                message.append(" does not exist.");
                Err(RockeryError::new(ErrorKind::NotFound, message))
            },
            Some(i) => {
                assert(old(self)@.names.index_of(old_name@) == i);
                self.name_to_project_map.replace(i, new_name.to_owned());
                let project = &mut self.projects[i];
                project.set_name(new_name);
                proof {
                    assert(self@.projects =~= old(self)@.projects.update(
                        i as int,
                        self@.projects[i as int],
                    ));
                    assert forall|j: int| 0 <= j < self@.projects.len() implies (
                    #[trigger] self@.projects[j]).well_formed() && self@.names[j]
                        == self@.projects[j]@.name by {
                        if j != i {
                            assert(self@.projects[j] == old(self)@.projects[j]);
                        } else {
                            assert(old(self)@.projects[j].well_formed());
                        }
                    }
                }
                Ok(&self.projects[i])
            },
        }
    }

    /// Takes the project that is known as `name` out of the binder, with its
    /// file; the projects behind it move up by one position. Fails, and
    /// changes nothing, where no project is known as `name`.
    pub fn remove_project(&mut self, name: &str) -> (r: Result<(), RockeryError>)
        requires
            old(self).well_formed(),
        ensures
            r.is_ok() <==> old(self)@.names.contains(name@),
            match r {
                Ok(_) => {
                    let i = old(self)@.names.index_of(name@);
                    final(self)@ == (BinderView {
                        names: old(self)@.names.remove(i),
                        projects: old(self)@.projects.remove(i),
                        paths: old(self)@.paths.remove(i),
                    })
                },
                Err(e) => {
                    &&& e.is(ErrorKind::NotFound, missing_project_message(name@))
                    &&& final(self)@ == old(self)@
                },
            },
            final(self).well_formed(),
    {
        match self.name_to_project_map.position(name) {
            None => {
                let mut message = "A project with the name ".to_owned();
                message.append(name);
                message.append(" does not exist.");
                Err(RockeryError::new(ErrorKind::NotFound, message))
            },
            Some(i) => {
                assert(old(self)@.names.index_of(name@) == i);
                self.projects.remove(i);
                self.name_to_project_map.remove(i);
                self.project_paths.remove(i);
                proof {
                    assert(self@.paths =~= old(self)@.paths.remove(i as int));
                    assert forall|j: int| 0 <= j < self@.projects.len() implies (
                    #[trigger] self@.projects[j]).well_formed() && self@.names[j]
                        == self@.projects[j]@.name by {
                        let k = if j < i {
                            j
                        } else {
                            j + 1
                        };
                        assert(self@.projects[j] == old(self)@.projects[k]);
                        assert(self@.names[j] == old(self)@.names[k]);
                    }
                }
                Ok(())
            },
        }
    }

    /// Registers a project that was read from `file` behind the others.
    /// Fails, and changes nothing, where reading it failed, or where its name
    /// is taken.
    pub fn load_project(&mut self, file: &str, loaded: Result<RockeryProject, RockeryError>) -> (r:
        Result<&RockeryProject, RockeryError>)
        requires
            old(self).well_formed(),
            loaded is Ok ==> loaded->Ok_0.well_formed(),
        ensures
            r.is_ok() <==> loaded is Ok && !old(self)@.names.contains(loaded->Ok_0@.name),
            match r {
                Ok(added) => {
                    &&& *added == loaded->Ok_0
                    &&& final(self)@ == (BinderView {
                        names: old(self)@.names.push(added@.name),
                        projects: old(self)@.projects.push(*added),
                        paths: old(self)@.paths.push(file@),
                    })
                },
                Err(e) => {
                    &&& final(self)@ == old(self)@
                    &&& match loaded {
                        Ok(p) => e.is(ErrorKind::Conflict, duplicate_project_message(p@.name)),
                        Err(cause) => e.is(cause.kind, load_failed_message(cause.message@)),
                    }
                },
            },
            final(self).well_formed(),
    {
        match loaded {
            Ok(p) => {
                if self.name_to_project_map.contains(p.get_name()) {
                    let mut message = "Could not load '".to_owned();
                    message.append(p.get_name());
                    message.append(
                        "' because there is a another project with the same name already loaded.",
                    );
                    return Err(RockeryError::new(ErrorKind::Conflict, message));
                }
                let index = self.projects.len();
                self.name_to_project_map.push(p.get_name().to_owned());
                self.projects.push(p);
                self.project_paths.push(file.to_owned());
                proof {
                    assert(self@.paths =~= old(self)@.paths.push(file@));
                }
                Ok(&self.projects[index])
            },
            Err(cause) => {
                let mut message = "Could not load a project. Error: ".to_owned();
                message.append(cause.message.as_str());
                message.append(".");
                Err(RockeryError::new(cause.kind, message))
            },
        }
    }

    /// Registers the next project of a manifest while a binder is loaded:
    /// as `load_project` does, but a failure is reported as that of the
    /// whole loading, which ends with it.
    pub fn load_step(&mut self, file: &str, loaded: Result<RockeryProject, RockeryError>) -> (r:
        Result<(), RockeryError>)
        requires
            old(self).well_formed(),
            loaded is Ok ==> loaded->Ok_0.well_formed(),
        ensures
            r.is_ok() <==> loaded is Ok && !old(self)@.names.contains(loaded->Ok_0@.name),
            match r {
                Ok(_) => final(self)@ == (BinderView {
                    names: old(self)@.names.push(loaded->Ok_0@.name),
                    projects: old(self)@.projects.push(loaded->Ok_0),
                    paths: old(self)@.paths.push(file@),
                }),
                Err(e) => {
                    &&& final(self)@ == old(self)@
                    &&& match loaded {
                        Ok(p) => e.is(
                            ErrorKind::Conflict,
                            loading_failed_message(duplicate_project_message(p@.name)),
                        ),
                        Err(cause) => e.is(
                            cause.kind,
                            loading_failed_message(load_failed_message(cause.message@)),
                        ),
                    }
                },
            },
            final(self).well_formed(),
    {
        match self.load_project(file, loaded) {
            Ok(_) => Ok(()),
            Err(e) => {
                let mut message = "Could not load a project. Error: ".to_owned();
                message.append(e.message.as_str());
                Err(RockeryError::new(e.kind, message))
            },
        }
    }

    /// What is to be written first when this binder is saved.
    pub fn save_begin(&self) -> (r: SaveStep)
        ensures
            r == first_step(self@.projects.len()),
    {
        if self.projects.len() > 0 {
            SaveStep::Project(0)
        } else {
            SaveStep::Manifest
        }
    }

    /// Takes note of how writing `step` ended and says what is to be written
    /// next. A project that was written is clean. The first failure ends the
    /// saving: it names the project that could not be written, no further
    /// step follows, and so the manifest is written only after every project
    /// was.
    pub fn save_advance(&mut self, step: SaveStep, outcome: Result<(), String>) -> (r: Result<
        SaveStep,
        RockeryError,
    >)
        requires
            old(self).well_formed(),
        ensures
            final(self).well_formed(),
            match step {
                SaveStep::Project(i) => if i < old(self)@.projects.len() {
                    let before = old(self)@.projects[i as int];
                    match outcome {
                        Ok(_) => {
                            &&& r == Ok::<SaveStep, RockeryError>(
                                next_step(old(self)@.projects.len(), step),
                            )
                            &&& final(self)@.names == old(self)@.names
                            &&& final(self)@.paths == old(self)@.paths
                            &&& final(self)@.projects.len() == old(self)@.projects.len()
                            &&& final(self)@.projects[i as int]@ == (ProjectView {
                                dirty: false,
                                ..before@
                            })
                            &&& forall|j: int|
                                0 <= j < old(self)@.projects.len() && j != i
                                    ==> final(self)@.projects[j] == old(self)@.projects[j]
                        },
                        Err(cause) => {
                            &&& r is Err
                            &&& r->Err_0.is(
                                ErrorKind::IOFailure,
                                save_failed_message(before@.name, cause@),
                            )
                            &&& final(self)@ == old(self)@
                        },
                    }
                } else {
                    &&& r is Err
                    &&& r->Err_0.is(ErrorKind::InvalidState, invalid_index_message())
                    &&& final(self)@ == old(self)@
                },
                SaveStep::Manifest => {
                    &&& final(self)@ == old(self)@
                    &&& match outcome {
                        Ok(_) => r == Ok::<SaveStep, RockeryError>(SaveStep::Done),
                        Err(cause) => r is Err && r->Err_0.is(
                            ErrorKind::IOFailure,
                            manifest_failed_message(cause@),
                        ),
                    }
                },
                SaveStep::Done => {
                    &&& final(self)@ == old(self)@
                    &&& r is Err
                    &&& r->Err_0.is(ErrorKind::InvalidState, nothing_to_save_message())
                },
            },
    {
        match step {
            SaveStep::Project(i) => {
                if i >= self.projects.len() {
                    return Err(RockeryError::new(ErrorKind::InvalidState, "Invalid index".to_owned()));
                }
                match outcome {
                    Ok(_) => {
                        let project = &mut self.projects[i];
                        let _ = project.record_save(Ok(()));
                        proof {
                            assert forall|j: int| 0 <= j < self@.projects.len() implies (
                            #[trigger] self@.projects[j]).well_formed() && self@.names[j]
                                == self@.projects[j]@.name by {
                                if j != i {
                                    assert(self@.projects[j] == old(self)@.projects[j]);
                                } else {
                                    assert(old(self)@.projects[j].well_formed());
                                }
                            }
                        }
                        if i + 1 < self.projects.len() {
                            Ok(SaveStep::Project(i + 1))
                        } else {
                            Ok(SaveStep::Manifest)
                        }
                    },
                    Err(cause) => {
                        let mut message = "Could not save project '".to_owned();
                        message.append(self.projects[i].get_name());
                        message.append("'. Error: ");
                        message.append(cause.as_str());
                        message.append(".");
                        Err(RockeryError::new(ErrorKind::IOFailure, message))
                    },
                }
            },
            SaveStep::Manifest => match outcome {
                Ok(_) => Ok(SaveStep::Done),
                Err(cause) => {
                    let mut message = "Could not store projects binder. Error: ".to_owned();
                    message.append(cause.as_str());
                    Err(RockeryError::new(ErrorKind::IOFailure, message))
                },
            },
            SaveStep::Done => Err(
                RockeryError::new(
                    ErrorKind::InvalidState,
                    "There is nothing left to save.".to_owned(),
                ),
            ),
        }
    }
}

impl Default for RockeryProjectBinder {
    /// A binder without projects.
    fn default() -> (r: RockeryProjectBinder)
        ensures
            r@.names == Seq::<Seq<char>>::empty(),
            r@.projects == Seq::<RockeryProject>::empty(),
            r@.paths == Seq::<Seq<char>>::empty(),
            r.well_formed(),
    {
        RockeryProjectBinder::new()
    }
}

} // verus!
