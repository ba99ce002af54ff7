//! A named collection of services, each under a key of its own, with a flag
//! that tells whether there are changes that were not saved.

use vstd::prelude::*;
use vstd::string::*;
use crate::name_index::{first_free_name, NameIndex};
use crate::rockery_error::{ErrorKind, RockeryError};
use crate::rockery_service::RockeryService;
use crate::text::texts;

verus! {

/// What a project is made of. The service under the key `keys[i]` is
/// `services[i]`.
pub struct ProjectView {
    pub name: Seq<char>,
    pub dirty: bool,
    pub keys: Seq<Seq<char>>,
    pub services: Seq<RockeryService>,
}

/// A named collection of services.
#[derive(Debug, Clone)]
pub struct RockeryProject {
    name: String,
    dirty: bool,
    keys: NameIndex,
    services: Vec<RockeryService>,
}

impl View for RockeryProject {
    type V = ProjectView;

    closed spec fn view(&self) -> ProjectView {
        ProjectView {
            name: self.name@,
            dirty: self.dirty,
            keys: self.keys@,
            services: self.services@,
        }
    }
}

/// The message for a service key that a project does not hold.
pub open spec fn missing_service_message(key: Seq<char>, project: Seq<char>) -> Seq<char> {
    "A service with the name "@ + key + " does not exist within project "@ + project + "."@
}

/// The message for a persisted project in which a service key occurs twice.
pub open spec fn duplicate_key_message(key: Seq<char>) -> Seq<char> {
    "The service key "@ + key + " occurs more than once."@
}

/// The message for a persisted project with more keys than services, or
/// fewer.
pub open spec fn uneven_record_message() -> Seq<char> {
    "The project record holds a different number of keys and services."@
}

/// The first position in `keys` whose key occurs again further on.
pub open spec fn first_repeat(keys: Seq<Seq<char>>) -> Option<int>
    decreases keys.len(),
{
    if keys.len() == 0 {
        None
    } else {
        match first_repeat(keys.drop_last()) {
            Some(i) => Some(i),
            None => if keys.drop_last().contains(keys.last()) {
                Some(keys.drop_last().index_of(keys.last()))
            } else {
                None
            },
        }
    }
}

impl RockeryProject {
    /// Every service has a key, and no key occurs twice.
    pub open spec fn well_formed(&self) -> bool {
        &&& self@.keys.len() == self@.services.len()
        &&& self@.keys.no_duplicates()
    }

    /// The service that is held under `key`, if there is one.
    pub open spec fn service_of(&self, key: Seq<char>) -> Option<RockeryService> {
        if self@.keys.contains(key) {
            Some(self@.services[self@.keys.index_of(key)])
        } else {
            None
        }
    }

    /// A project without services. It was never saved, so it is dirty.
    pub fn new(name: &str) -> (r: RockeryProject)
        ensures
            r@ == (ProjectView {
                name: name@,
                dirty: true,
                keys: Seq::empty(),
                services: Seq::empty(),
            }),
            r.well_formed(),
    {
        RockeryProject {
            name: name.to_owned(),
            dirty: true,
            keys: NameIndex::new(),
            services: Vec::new(),
        }
    }

    /// Whether there are changes that were not saved.
    pub fn is_dirty(&self) -> (r: bool)
        ensures
            r == self@.dirty,
    {
        self.dirty
    }

    /// The name of the project.
    pub fn get_name(&self) -> (r: &str)
        ensures
            r@ == self@.name,
    {
        self.name.as_str()
    }

    /// Gives the project another name; the project is dirty afterwards.
    pub fn set_name(&mut self, name: &str)
        ensures
            final(self)@ == (ProjectView { name: name@, dirty: true, ..old(self)@ }),
    {
        self.name = name.to_string();
        self.dirty = true;
    }

    /// The services of this project; the key of each stands at the same
    /// position in `get_service_keys`.
    pub fn get_services(&self) -> (r: &Vec<RockeryService>)
        ensures
            r@ == self@.services,
    {
        &self.services
    }

    /// The keys of the services of this project.
    pub fn get_service_keys(&self) -> (r: &NameIndex)
        ensures
            r@ == self@.keys,
    {
        &self.keys
    }

    /// Adds a service and returns the key it is held under: the name of the
    /// service where no service is held under it, else the first of
    /// `name_1`, `name_2`, ... that is free. The project is dirty afterwards.
    pub fn add_service(&mut self, service: RockeryService) -> (key: String)
        requires
            old(self).well_formed(),
        ensures
            key@ == first_free_name(old(self)@.keys, service@.name),
            !old(self)@.keys.contains(key@),
            final(self)@ == (ProjectView {
                dirty: true,
                keys: old(self)@.keys.push(key@),
                services: old(self)@.services.push(service),
                ..old(self)@
            }),
            final(self).well_formed(),
    {
        let key = self.keys.first_free(service.get_name().as_str());
        self.keys.push(key.clone());
        self.services.push(service);
        self.dirty = true;
        key
    }

    /// Takes the service under the key `service` out of the project and
    /// returns it. The project is dirty afterwards. Fails, and changes
    /// nothing, where no service is held under that key.
    pub fn remove_service(&mut self, service: &str) -> (r: Result<RockeryService, RockeryError>)
        requires
            old(self).well_formed(),
        ensures
            r.is_ok() <==> old(self)@.keys.contains(service@),
            match r {
                Ok(removed) => {
                    let i = old(self)@.keys.index_of(service@);
                    &&& removed == old(self)@.services[i]
                    &&& final(self)@ == (ProjectView {
                        dirty: true,
                        keys: old(self)@.keys.remove(i),
                        services: old(self)@.services.remove(i),
                        ..old(self)@
                    })
                },
                Err(e) => {
                    &&& e.is(ErrorKind::NotFound, missing_service_message(service@, old(self)@.name))
                    &&& final(self)@ == old(self)@
                },
            },
            final(self).well_formed(),
    {
        match self.keys.position(service) {
            Some(i) => {
                assert(old(self)@.keys.index_of(service@) == i);
                self.keys.remove(i);
                let removed = self.services.remove(i);
                self.dirty = true;
                Ok(removed)
            },
            None => {
                let mut message = "A service with the name ".to_owned();
                message.append(service);
                message.append(" does not exist within project ");
                message.append(self.name.as_str());
                message.append(".");
                Err(RockeryError::new(ErrorKind::NotFound, message))
            },
        }
    }

    /// The service that is held under the key `name`, if there is one.
    pub fn find_service(&self, name: &str) -> (r: Option<&RockeryService>)
        requires
            self.well_formed(),
        ensures
            match r {
                Some(service) => self.service_of(name@) == Some(*service),
                None => self.service_of(name@).is_none(),
            },
    {
        match self.keys.position(name) {
            Some(i) => {
                assert(self@.keys.index_of(name@) == i);
                Some(&self.services[i])
            },
            None => None,
        }
    }

    /// The service that is held under the key `name`.
    pub fn get_service(&self, name: &str) -> (r: &RockeryService)
        requires
            self.well_formed(),
            self@.keys.contains(name@),
        ensures
            self.service_of(name@) == Some(*r),
    {
        match self.find_service(name) {
            Some(service) => service,
            None => {
                proof {
                    assert(false);
                }
                &self.services[0]
            },
        }
    }

    /// Hands out the service at position `position`, so that it can be
    /// changed. The key it is held under stays; the project is dirty
    /// afterwards.
    pub fn service_at_mut(&mut self, position: usize) -> (r: &mut RockeryService)
        requires
            old(self).well_formed(),
            position < old(self)@.services.len(),
        ensures
            *r == old(self)@.services[position as int],
            final(self)@ == (ProjectView {
                dirty: true,
                services: old(self)@.services.update(position as int, *final(r)),
                ..old(self)@
            }),
            final(self).well_formed(),
    {
        self.dirty = true;
        &mut self.services[position]
    }

    /// Takes note of how an attempt to save this project ended: a project
    /// that was written is clean; one that could not be written stays as it
    /// is, and the failure is reported with the cause.
    pub fn record_save(&mut self, outcome: Result<(), String>) -> (r: Result<(), RockeryError>)
        ensures
            match outcome {
                Ok(_) => r.is_ok() && final(self)@ == (ProjectView { dirty: false, ..old(self)@ }),
                Err(cause) => {
                    &&& r.is_err()
                    &&& r->Err_0.is(ErrorKind::IOFailure, cause@)
                    &&& final(self)@ == old(self)@
                },
            },
    {
        match outcome {
            Ok(_) => {
                self.dirty = false;
                Ok(())
            },
            Err(cause) => Err(RockeryError::new(ErrorKind::IOFailure, cause)),
        }
    }

    /// Puts a project together from what was persisted of it: its name, the
    /// keys and, at the same positions, the services. The project is clean.
    /// Fails where keys and services differ in number or a key occurs twice.
    pub fn restore(name: String, keys: Vec<String>, services: Vec<RockeryService>) -> (r: Result<
        RockeryProject,
        RockeryError,
    >)
        ensures
            r.is_ok() <==> keys@.len() == services@.len() && first_repeat(texts(keys@)).is_none(),
            match r {
                Ok(project) => {
                    &&& project@ == (ProjectView {
                        name: name@,
                        dirty: false,
                        keys: texts(keys@),
                        services: services@,
                    })
                    &&& project.well_formed()
                },
                Err(e) => if keys@.len() != services@.len() {
                    e.is(ErrorKind::SerializationFailure, uneven_record_message())
                } else {
                    let all = texts(keys@);
                    e.is(
                        ErrorKind::SerializationFailure,
                        duplicate_key_message(all[first_repeat(all).unwrap()]),
                    )
                },
            },
    {
        if keys.len() != services.len() {
            return Err(
                RockeryError::new(
                    ErrorKind::SerializationFailure,
                    "The project record holds a different number of keys and services.".to_owned(),
                ),
            );
        }
        let ghost all = texts(keys@);
        let mut index = NameIndex::new();
        let mut i: usize = 0;
        assert(all.take(0) =~= index@);
        while i < keys.len()
            invariant
                i <= keys@.len(),
                keys@.len() == services@.len(),
                all == texts(keys@),
                index@ == all.take(i as int),
                index.well_formed(),
                first_repeat(all.take(i as int)).is_none(),
            decreases keys@.len() - i,
        {
            proof {
                assert(all.take(i + 1).drop_last() =~= all.take(i as int));
                assert(all.take(i + 1).last() == all[i as int]);
            }
            match index.position(keys[i].as_str()) {
                Some(first) => {
                    proof {
                        let found = all.take(i as int).index_of(all[i as int]);
                        assert(all.take(i as int)[found] == all[i as int]);
                        assert(found == first);
                        assert(all.take(i as int).contains(all[i as int]));
                        assert(first_repeat(all.take(i + 1)) == Some(first as int));
                        lemma_first_repeat_extends(all, i + 1);
                        assert(first_repeat(all) == Some(first as int));
                        assert(all[first as int] == keys@[first as int]@);
                    }
                    let mut message = "The service key ".to_owned();
                    message.append(keys[first].as_str());
                    message.append(" occurs more than once.");
                    return Err(RockeryError::new(ErrorKind::SerializationFailure, message));
                },
                None => {
                    index.push(keys[i].clone());
                    assert(index@ =~= all.take(i + 1));
                },
            }
            i += 1;
        }
        proof {
            assert(all.take(i as int) =~= all);
        }
        Ok(RockeryProject { name, dirty: false, keys: index, services })
    }
}

/// A repeat that shows in the first `n` keys is the first repeat of all keys.
pub proof fn lemma_first_repeat_extends(keys: Seq<Seq<char>>, n: int)
    requires
        0 <= n <= keys.len(),
        first_repeat(keys.take(n)).is_some(),
    ensures
        first_repeat(keys) == first_repeat(keys.take(n)),
    decreases keys.len() - n,
{
    if n < keys.len() {
        assert(keys.take(n + 1).drop_last() =~= keys.take(n));
        lemma_first_repeat_extends(keys, n + 1);
    } else {
        assert(keys.take(n) =~= keys);
    }
}

/// Among keys of which none occurs twice there is no repeat.
pub proof fn lemma_distinct_keys_have_no_repeat(keys: Seq<Seq<char>>)
    requires
        keys.no_duplicates(),
    ensures
        first_repeat(keys).is_none(),
    decreases keys.len(),
{
    if keys.len() > 0 {
        let rest = keys.drop_last();
        assert forall|i: int, j: int|
            0 <= i < rest.len() && 0 <= j < rest.len() && i != j implies rest[i] != rest[j] by {
            assert(rest[i] == keys[i] && rest[j] == keys[j]);
        }
        lemma_distinct_keys_have_no_repeat(rest);
        if rest.contains(keys.last()) {
            let i = rest.index_of(keys.last());
            assert(keys[i] == keys[keys.len() - 1]);
        }
    }
}

/// The name, the keys and the services of a project are always accepted
/// when a project is put together from them again: what was saved of a
/// project can be restored, and gives a clean project with the same name and
/// the same services under the same keys.
pub proof fn lemma_saved_project_restores(project: RockeryProject)
    requires
        project.well_formed(),
    ensures
        project@.keys.len() == project@.services.len(),
        first_repeat(project@.keys).is_none(),
{
    lemma_distinct_keys_have_no_repeat(project@.keys);
}

impl Default for RockeryProject {
    /// An empty project named "Unnamed".
    fn default() -> (r: RockeryProject)
        ensures
            r@ == (ProjectView {
                name: "Unnamed"@,
                dirty: true,
                keys: Seq::empty(),
                services: Seq::empty(),
            }),
            r.well_formed(),
    {
        RockeryProject::new("Unnamed")
    }
}

} // verus!
