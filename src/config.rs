use vstd::prelude::*;

use crate::environment::{environment_spec, host_of, lower_of, trim, trimmed_of, EnvVars, Environment};
use crate::paths::{ancestor_chain, first_linked, is_ancestor_chain};
use crate::persist::{WritePlan, WriteStep};
use crate::project_map::{copy_opt_string, LinkedProject, ProjectMap};
use crate::timestamp::{now, update_check_due, update_check_due_spec, Timestamp};

verus! {

/// The persisted user: an optional authentication token.
#[derive(Debug)]
pub struct RailwayUser {
    pub token: Option<String>,
}

/// The whole persisted document.
pub struct RailwayConfig {
    pub projects: ProjectMap,
    pub user: RailwayUser,
    pub last_update_check: Option<Timestamp>,
    pub new_version_available: Option<String>,
}

impl RailwayConfig {
    /// The project map is well formed and the timestamp in range.
    pub open spec fn wf(&self) -> bool {
        &&& self.projects.wf()
        &&& (self.last_update_check matches Some(t) ==> t.wf())
    }

    /// Whether this is the document of a fresh install.
    pub open spec fn is_empty_doc(&self) -> bool {
        &&& self.projects@ == Map::<Seq<char>, LinkedProject>::empty()
        &&& self.user.token is None
        &&& self.last_update_check is None
        &&& self.new_version_available is None
    }

    /// A document with no linked projects, no token and no update check.
    pub fn empty() -> (r: RailwayConfig)
        ensures
            r.wf(),
            r.is_empty_doc(),
    {
        RailwayConfig {
            projects: ProjectMap::new(),
            user: RailwayUser { token: None },
            last_update_check: None,
            new_version_available: None,
        }
    }
}

/// Conditions that callers report to the user.
#[derive(Debug, Clone, Copy, PartialEq, Eq, Structural)]
pub enum ConfigError {
    /// No directory from the current one up to the root is linked.
    NoLinkedProject,
    /// There is no stored entry to change.
    ProjectNotFound,
    /// A project-scoped token is set: the project comes from the server.
    ResolvedByProjectToken,
}

/// What reading the config file gave.
pub enum LoadOutcome {
    /// There is no file.
    Absent,
    /// The file holds a valid document.
    Parsed(RailwayConfig),
    /// The file's bytes are not a valid document; it is left as it is.
    Unparseable,
}

/// The identity that a project-scoped token resolves to on the server.
pub struct TokenIdentity {
    pub project_id: String,
    pub project_name: String,
    pub environment_id: String,
    pub environment_name: String,
}

/// The token that authenticates requests: the ephemeral API token first,
/// then the persisted token unless it is empty or all white space.
pub open spec fn auth_token_spec(api_token: Option<String>, stored: Option<String>) -> Option<
    String,
> {
    match api_token {
        Some(t) => Some(t),
        None => match stored {
            Some(t) => if trimmed_of(t@).len() > 0 {
                Some(t)
            } else {
                None
            },
            None => None,
        },
    }
}

/// `r` is the directory of `chain` nearest its start that `m` links, or
/// the no-linked-project condition when none is.
pub open spec fn resolves_in_chain(
    m: Map<Seq<char>, LinkedProject>,
    chain: Seq<String>,
    r: Result<String, ConfigError>,
) -> bool {
    match r {
        Ok(p) => exists|i: int|
            0 <= i < chain.len() && #[trigger] chain[i]@ == p@ && m.contains_key(p@) && forall|
                j: int,
            |
                0 <= j < i ==> !m.contains_key(#[trigger] chain[j]@),
        Err(e) => e == ConfigError::NoLinkedProject && forall|j: int|
            0 <= j < chain.len() ==> !m.contains_key(#[trigger] chain[j]@),
    }
}

/// The runtime configuration: one document, the plan of its file, the
/// captured environment variables and the current directory.
pub struct Configs {
    pub root_config: RailwayConfig,
    pub plan: WritePlan,
    pub env: EnvVars,
    pub current_dir: String,
}

impl Configs {
    pub open spec fn wf(&self) -> bool {
        &&& self.root_config.wf()
        &&& self.plan.wf()
        &&& self.plan.is_sibling_plan(environment_spec(self.env.railway_env))
    }

    pub open spec fn plan_spec(&self) -> WritePlan {
        self.plan
    }

    pub open spec fn env_spec(&self) -> EnvVars {
        self.env
    }

    pub open spec fn current_dir_spec(&self) -> Seq<char> {
        self.current_dir@
    }

    /// `r` is the directory whose link applies: the working directory when a
    /// project-scoped token is set, else the nearest linked one of the
    /// working directory and its ancestors, or the no-linked-project condition.
    pub open spec fn is_closest_dir(&self, r: Result<String, ConfigError>) -> bool {
        if self.has_project_token() {
            r matches Ok(p) && p@ == self.current_dir_spec()
        } else {
            exists|chain: Seq<String>|
                is_ancestor_chain(self.current_dir_spec(), chain) && resolves_in_chain(
                    self.root_config.projects@,
                    chain,
                    r,
                )
        }
    }

    /// `r` is the stored entry that mutations apply to: none when a
    /// project-scoped token is set, else the closest linked directory, or
    /// the project-not-found condition when no directory is linked.
    pub open spec fn is_mut_target(&self, r: Result<String, ConfigError>) -> bool {
        if self.has_project_token() {
            r == Err::<String, ConfigError>(ConfigError::ProjectNotFound)
        } else {
            match r {
                Ok(_) => self.is_closest_dir(r),
                Err(e) => e == ConfigError::ProjectNotFound && self.is_closest_dir(
                    Err(ConfigError::NoLinkedProject),
                ),
            }
        }
    }

    /// Everything but the linked projects is as in `other`.
    pub open spec fn same_but_projects(&self, other: &Configs) -> bool {
        &&& self.root_config.user == other.root_config.user
        &&& self.root_config.last_update_check == other.root_config.last_update_check
        &&& self.root_config.new_version_available == other.root_config.new_version_available
        &&& self.plan == other.plan
        &&& self.env == other.env
        &&& self.current_dir == other.current_dir
    }

    /// Whether a project-scoped token is set.
    pub open spec fn has_project_token(&self) -> bool {
        self.env_spec().railway_token is Some
    }

    /// The configuration for the home directory `home`, the environment
    /// variables `env`, the working directory `current_dir` and what reading
    /// the config file gave: the parsed document, or else an empty one.
    pub fn new(home: &str, env: EnvVars, current_dir: String, loaded: LoadOutcome) -> (r: Configs)
        requires
            loaded matches LoadOutcome::Parsed(d) ==> d.wf(),
        ensures
            r.wf(),
            (r.plan_spec().dir@, r.plan_spec().temp_path@, r.plan_spec().target@)
                == WritePlan::for_spec(home@, environment_spec(env.railway_env)),
            r.env_spec() == env,
            r.current_dir_spec() == current_dir@,
            match loaded {
                LoadOutcome::Parsed(d) => r.root_config == d,
                _ => r.root_config.is_empty_doc(),
            },
    {
        let environment = env.environment();
        let plan = WritePlan::for_environment(home, environment);
        let root_config = match loaded {
            LoadOutcome::Parsed(d) => d,
            _ => RailwayConfig::empty(),
        };
        Configs { root_config, plan, env, current_dir }
    }

    /// Replaces the document with an empty one.
    pub fn reset(&mut self)
        requires
            old(self).wf(),
        ensures
            final(self).wf(),
            final(self).root_config.is_empty_doc(),
            final(self).plan_spec() == old(self).plan_spec(),
            final(self).env_spec() == old(self).env_spec(),
            final(self).current_dir_spec() == old(self).current_dir_spec(),
    {
        self.root_config = RailwayConfig::empty();
    }

    /// The plan of the config file: its directory, temporary sibling and path.
    pub fn write_plan(&self) -> (r: &WritePlan)
        ensures
            *r == self.plan_spec(),
    {
        &self.plan
    }

    /// The path of the config file.
    pub fn root_config_path(&self) -> (r: &str)
        ensures
            r@ == self.plan_spec().target@,
    {
        self.plan.target.as_str()
    }

    /// The steps of an atomic write of the document to its file.
    pub fn write(&self) -> (r: Vec<WriteStep>)
        ensures
            r@ == self.plan_spec().steps_spec(),
    {
        self.plan.steps()
    }

    /// The project-scoped token, if set.
    pub fn get_railway_token(&self) -> (r: Option<String>)
        ensures
            r == self.env_spec().railway_token,
    {
        copy_opt_string(&self.env.railway_token)
    }

    /// The ephemeral API token, if set.
    pub fn get_railway_api_token(&self) -> (r: Option<String>)
        ensures
            r == self.env_spec().railway_api_token,
    {
        copy_opt_string(&self.env.railway_api_token)
    }

    /// Whether the CI marker, trimmed and lower-cased, reads `true`.
    pub fn env_is_ci(&self) -> (r: bool)
        ensures
            r == match self.env_spec().ci {
                Some(v) => lower_of(trimmed_of(v@)) == "true"@,
                None => false,
            },
    {
        self.env.is_ci()
    }

    /// The token that authenticates requests: the ephemeral API token if
    /// set, else the persisted token unless it is empty after trimming.
    pub fn get_railway_auth_token(&self) -> (r: Option<String>)
        ensures
            r == auth_token_spec(
                self.env_spec().railway_api_token,
                self.root_config.user.token,
            ),
    {
        match &self.env.railway_api_token {
            Some(t) => Some(t.clone()),
            None => match &self.root_config.user.token {
                Some(t) => if trim(t.as_str()).unicode_len() > 0 {
                    Some(t.clone())
                } else {
                    None
                },
                None => None,
            },
        }
    }

    /// The selected environment.
    pub fn get_environment_id(&self) -> (r: Environment)
        ensures
            r == environment_spec(self.env_spec().railway_env),
    {
        self.env.environment()
    }

    /// The API host of the selected environment.
    pub fn get_host(&self) -> (r: &'static str)
        ensures
            r@ == host_of(environment_spec(self.env_spec().railway_env)),
    {
        self.env.environment().host()
    }

    /// The relay server's host and path, without a protocol.
    pub fn get_relay_host_path(&self) -> (r: String)
        ensures
            r@ == "backboard."@ + host_of(environment_spec(self.env_spec().railway_env))
                + "/relay"@,
    {
        let mut r = String::from_str("backboard.");
        r.append(self.get_host());
        r.append("/relay");
        r
    }

    /// The GraphQL endpoint of the selected environment.
    pub fn get_backboard(&self) -> (r: String)
        ensures
            r@ == "https://backboard."@ + host_of(environment_spec(self.env_spec().railway_env))
                + "/graphql/v2"@,
    {
        let mut r = String::from_str("https://backboard.");
        r.append(self.get_host());
        r.append("/graphql/v2");
        r
    }

    /// The working directory.
    pub fn get_current_directory(&self) -> (r: String)
        ensures
            r@ == self.current_dir_spec(),
    {
        self.current_dir.clone()
    }

    /// The directory whose link applies: the working directory itself when
    /// a project-scoped token is set; otherwise the nearest of the working
    /// directory and its ancestors that is linked.
    pub fn get_closest_linked_project_directory(&self) -> (r: Result<String, ConfigError>)
        requires
            self.wf(),
        ensures
            self.is_closest_dir(r),
    {
        if self.env.railway_token.is_some() {
            return Ok(self.current_dir.clone());
        }
        let chain = ancestor_chain(self.current_dir.as_str());
        let r = match first_linked(&self.root_config.projects, &chain) {
            Some(i) => {
                let p = chain[i].clone();
                assert(chain@[i as int]@ == p@);
                Ok(p)
            },
            None => Err(ConfigError::NoLinkedProject),
        };
        assert(is_ancestor_chain(self.current_dir_spec(), chain@) && resolves_in_chain(
            self.root_config.projects@,
            chain@,
            r,
        ));
        r
    }

    /// The linked project stored for the closest linked directory. With a
    /// project-scoped token set the project comes from the server instead
    /// (see `get_linked_project_from_token`).
    pub fn get_linked_project(&self) -> (r: Result<LinkedProject, ConfigError>)
        requires
            self.wf(),
        ensures
            self.has_project_token() ==> r == Err::<LinkedProject, ConfigError>(
                ConfigError::ResolvedByProjectToken,
            ),
            !self.has_project_token() ==> exists|d: Result<String, ConfigError>|
                self.is_closest_dir(d) && match d {
                    Ok(k) => if self.root_config.projects@.contains_key(k@) {
                        r == Ok::<LinkedProject, ConfigError>(self.root_config.projects@[k@])
                    } else {
                        r == Err::<LinkedProject, ConfigError>(ConfigError::NoLinkedProject)
                    },
                    Err(e) => r == Err::<LinkedProject, ConfigError>(e),
                },
    {
        if self.env.railway_token.is_some() {
            return Err(ConfigError::ResolvedByProjectToken);
        }
        let d = self.get_closest_linked_project_directory();
        let r = match &d {
            Ok(k) => match self.root_config.projects.get(k.as_str()) {
                Some(p) => Ok(p.duplicate()),
                None => Err(ConfigError::NoLinkedProject),
            },
            Err(e) => Err(*e),
        };
        assert(self.is_closest_dir(d));
        r
    }

    /// The linked project that a project-scoped token stands for: the
    /// server's identifiers and names, at the working directory, keeping the
    /// service recorded for that directory.
    pub fn get_linked_project_from_token(&self, identity: TokenIdentity) -> (r: LinkedProject)
        requires
            self.wf(),
        ensures
            r.project_path@ == self.current_dir_spec(),
            r.name == Some(identity.project_name),
            r.project == identity.project_id,
            r.environment == identity.environment_id,
            r.environment_name == Some(identity.environment_name),
            r.service == if self.root_config.projects@.contains_key(self.current_dir_spec()) {
                self.root_config.projects@[self.current_dir_spec()].service
            } else {
                None
            },
    {
        let service = match self.root_config.projects.get(self.current_dir.as_str()) {
            Some(p) => copy_opt_string(&p.service),
            None => None,
        };
        LinkedProject {
            project_path: self.current_dir.clone(),
            name: Some(identity.project_name),
            project: identity.project_id,
            environment: identity.environment_id,
            environment_name: Some(identity.environment_name),
            service,
        }
    }

    /// A mutable handle to the stored entry of the closest linked directory;
    /// with a project-scoped token set there is no stored entry to change.
    pub fn get_linked_project_mut(&mut self) -> (r: Result<&mut LinkedProject, ConfigError>)
        requires
            old(self).wf(),
        ensures
            exists|d: Result<String, ConfigError>|
                old(self).is_mut_target(d) && match d {
                    Ok(k) => r is Ok && *r->Ok_0 == old(self).root_config.projects@[k@]
                        && final(self).wf() && final(self).same_but_projects(&*old(self))
                        && final(self).root_config.projects@ == old(
                        self,
                    ).root_config.projects@.insert(k@, *final(r->Ok_0)),
                    Err(e) => r is Err && r->Err_0 == e && *final(self) == *old(self),
                },
    {
        if self.env.railway_token.is_some() {
            assert(old(self).is_mut_target(Err(ConfigError::ProjectNotFound)));
            return Err(ConfigError::ProjectNotFound);
        }
        let d = self.get_closest_linked_project_directory();
        let ghost d0 = d;
        match d {
            Ok(k) => {
                assert(old(self).is_mut_target(d0));
                Ok(self.root_config.projects.get_mut(k.as_str()))
            },
            Err(_) => {
                assert(old(self).is_mut_target(Err(ConfigError::ProjectNotFound)));
                Err(ConfigError::ProjectNotFound)
            },
        }
    }

    /// Links the working directory to a project and environment, with no
    /// service, replacing any earlier link of that directory.
    pub fn link_project(
        &mut self,
        project_id: String,
        name: Option<String>,
        environment_id: String,
        environment_name: Option<String>,
    )
        requires
            old(self).wf(),
        ensures
            final(self).wf(),
            final(self).same_but_projects(&*old(self)),
            final(self).root_config.projects@ == old(self).root_config.projects@.insert(
                old(self).current_dir_spec(),
                (LinkedProject {
                    project_path: old(self).current_dir,
                    name,
                    project: project_id,
                    environment: environment_id,
                    environment_name,
                    service: None,
                }),
            ),
    {
        let path = self.current_dir.clone();
        let project = LinkedProject {
            project_path: path.clone(),
            name,
            project: project_id,
            environment: environment_id,
            environment_name,
            service: None,
        };
        self.root_config.projects.insert(path, project);
    }

    fn set_linked_service(&mut self, service: Option<String>) -> (r: Result<(), ConfigError>)
        requires
            old(self).wf(),
        ensures
            final(self).wf(),
            final(self).same_but_projects(&*old(self)),
            exists|d: Result<String, ConfigError>|
                old(self).is_mut_target(d) && match d {
                    Ok(k) => r is Ok && final(self).root_config.projects@ == old(
                        self,
                    ).root_config.projects@.insert(
                        k@,
                        old(self).root_config.projects@[k@].with_service(service),
                    ),
                    Err(e) => r == Err::<(), ConfigError>(e) && final(self).root_config.projects@
                        == old(self).root_config.projects@,
                },
    {
        match self.get_linked_project_mut() {
            Ok(linked_project) => {
                linked_project.service = service;
                Ok(())
            },
            Err(e) => Err(e),
        }
    }

    /// Records `service_id` as the service of the closest linked project.
    pub fn link_service(&mut self, service_id: String) -> (r: Result<(), ConfigError>)
        requires
            old(self).wf(),
        ensures
            final(self).wf(),
            final(self).same_but_projects(&*old(self)),
            exists|d: Result<String, ConfigError>|
                old(self).is_mut_target(d) && match d {
                    Ok(k) => r is Ok && final(self).root_config.projects@ == old(
                        self,
                    ).root_config.projects@.insert(
                        k@,
                        old(self).root_config.projects@[k@].with_service(Some(service_id)),
                    ),
                    Err(e) => r == Err::<(), ConfigError>(e) && final(self).root_config.projects@
                        == old(self).root_config.projects@,
                },
    {
        self.set_linked_service(Some(service_id))
    }

    /// Clears the service of the closest linked project.
    pub fn unlink_service(&mut self) -> (r: Result<(), ConfigError>)
        requires
            old(self).wf(),
        ensures
            final(self).wf(),
            final(self).same_but_projects(&*old(self)),
            exists|d: Result<String, ConfigError>|
                old(self).is_mut_target(d) && match d {
                    Ok(k) => r is Ok && final(self).root_config.projects@ == old(
                        self,
                    ).root_config.projects@.insert(
                        k@,
                        old(self).root_config.projects@[k@].with_service(None),
                    ),
                    Err(e) => r == Err::<(), ConfigError>(e) && final(self).root_config.projects@
                        == old(self).root_config.projects@,
                },
    {
        self.set_linked_service(None)
    }

    /// Removes the link of the closest linked directory; nothing happens
    /// when none is linked.
    pub fn unlink_project(&mut self)
        requires
            old(self).wf(),
        ensures
            final(self).wf(),
            final(self).same_but_projects(&*old(self)),
            exists|d: Result<String, ConfigError>|
                old(self).is_closest_dir(d) && match d {
                    Ok(k) => final(self).root_config.projects@ == old(
                        self,
                    ).root_config.projects@.remove(k@),
                    Err(_) => final(self).root_config.projects@
                        == old(self).root_config.projects@,
                },
    {
        let d = self.get_closest_linked_project_directory();
        let ghost d0 = d;
        if let Ok(k) = d {
            self.root_config.projects.remove(k.as_str());
        }
        assert(old(self).is_closest_dir(d0));
    }

    /// Whether an update check at instant `now` goes to the network.
    pub fn update_check_due_at(&self, now: Timestamp, force: bool, is_terminal: bool) -> (r: bool)
        ensures
            r == update_check_due_spec(self.root_config.last_update_check, now, force, is_terminal),
    {
        update_check_due(self.root_config.last_update_check, now, force, is_terminal)
    }

    /// Whether an update check goes to the network now, and the instant
    /// read: never when output is not a terminal unless forced, never twice
    /// on one day unless forced. Without a readable clock the day cannot be
    /// compared, and the check goes out when forced or on a terminal.
    pub fn check_update(&self, force: bool, is_terminal: bool) -> (r: (bool, Option<Timestamp>))
        ensures
            r.1 matches Some(t) ==> t.wf(),
            r.0 == match r.1 {
                Some(t) => update_check_due_spec(
                    self.root_config.last_update_check,
                    t,
                    force,
                    is_terminal,
                ),
                None => force || is_terminal,
            },
    {
        let t = now();
        match t {
            Some(at) => (self.update_check_due_at(at, force, is_terminal), t),
            None => (force || is_terminal, t),
        }
    }

    /// Stamps the document with the instant of the update check.
    pub fn record_update_check_at(&mut self, at: Timestamp)
        requires
            old(self).wf(),
            at.wf(),
        ensures
            final(self).wf(),
            final(self).root_config.last_update_check == Some(at),
            final(self).root_config.projects == old(self).root_config.projects,
            final(self).root_config.user == old(self).root_config.user,
            final(self).root_config.new_version_available
                == old(self).root_config.new_version_available,
            final(self).plan == old(self).plan,
            final(self).env == old(self).env,
            final(self).current_dir == old(self).current_dir,
    {
        self.root_config.last_update_check = Some(at);
    }
}

/// Linking one directory twice keeps one entry for it, the second.
pub proof fn law_link_overwrites(
    m: Map<Seq<char>, LinkedProject>,
    dir: Seq<char>,
    first: LinkedProject,
    second: LinkedProject,
)
    ensures
        m.insert(dir, first).insert(dir, second) == m.insert(dir, second),
        m.insert(dir, first).insert(dir, second)[dir] == second,
        m.insert(dir, first).insert(dir, second).dom() == m.dom().insert(dir),
{
    assert(m.insert(dir, first).insert(dir, second) =~= m.insert(dir, second));
}

/// Clearing the service of an entry that has none changes nothing, and
/// clearing it twice is clearing it once.
pub proof fn law_unlink_service_idempotent(m: Map<Seq<char>, LinkedProject>, dir: Seq<char>)
    requires
        m.contains_key(dir),
    ensures
        m[dir].service is None ==> m.insert(dir, m[dir].with_service(None)) == m,
        ({
            let once = m.insert(dir, m[dir].with_service(None));
            once.insert(dir, once[dir].with_service(None)) == once
        }),
{
    if m[dir].service is None {
        assert(m[dir].with_service(None) == m[dir]);
        assert(m.insert(dir, m[dir].with_service(None)) =~= m);
    }
    let once = m.insert(dir, m[dir].with_service(None));
    assert(once[dir].with_service(None) == once[dir]);
    assert(once.insert(dir, once[dir].with_service(None)) =~= once);
}

/// The ephemeral API token wins over any persisted token.
pub proof fn law_api_token_first(api_token: String, stored: Option<String>)
    ensures
        auth_token_spec(Some(api_token), stored) == Some(api_token),
{
}


} // verus!
