//! What the conda locator reports about its setup, for telemetry.

use vstd::prelude::*;
use crate::conda::conda_rc::{condarc_all_dirs, condarc_paths_spec, get_conda_rc_env_dirs, get_conda_rc_search_paths};
use crate::conda::environment_locations::{
    conda_dir_from_exe_spec, get_conda_dir_from_exe_path, get_conda_envs_from_environment_txt, listed_envs,
};
use crate::conda::locator::Conda;
use crate::conda::manager::CondaInfo;
use crate::environment::Environment;
use crate::facts::{keep_present, present_in, FileFacts};
use crate::lines::lines_spec;
use crate::locator::Host;
use crate::manager::clone_opt_string;
use crate::path::{contains_path, is_sorted_set_of, join, join_spec, views};
use crate::r_installation::opt_view;

verus! {

/// How conda looked when a refresh ran.
#[derive(Debug)]
pub struct CondaTelemetryInfo {
    pub can_spawn_conda: bool,
    pub conda_rcs: Vec<String>,
    pub env_dirs: Vec<String>,
    pub environments_txt: Option<String>,
    pub environments_txt_exists: Option<bool>,
    pub user_provided_env_found: Option<bool>,
    pub environments_from_txt: Vec<String>,
    pub executable: Option<String>,
    pub conda_version: Option<String>,
    pub root_prefix: Option<String>,
    pub conda_prefix: Option<String>,
}

/// `<home>/.conda/environments.txt`.
pub open spec fn environments_txt_spec(home: Seq<char>) -> Seq<char> {
    join_spec(join_spec(home, ".conda"@), "environments.txt"@)
}

impl Conda {
    /// The telemetry of the conda setup. `conda_executable` is the
    /// executable the user gave, `info` what it answered (`None` when it
    /// could not run), `facts` what exists on disk, `rc_contents` the texts
    /// of the `.condarc` files, `environments_txt` the text of
    /// `environments.txt` (empty when it cannot be read), and `envs_found`
    /// the environment directories found with the configured executable.
    pub fn get_info_for_telemetry(
        &self,
        environment: &Environment,
        host: Host,
        conda_executable: &Option<String>,
        info: &Option<CondaInfo>,
        facts: &FileFacts,
        rc_contents: &Vec<String>,
        environments_txt: &str,
        envs_found: &Vec<String>,
    ) -> (r: CondaTelemetryInfo)
        ensures
            r.can_spawn_conda == info is Some,
            exists|paths: Seq<Seq<char>>|
                is_sorted_set_of(paths, condarc_paths_spec(*environment, host.windows)) && #[trigger] views(
                    r.conda_rcs@,
                ) == present_in(paths, views(facts.existing@)),
            is_sorted_set_of(views(r.env_dirs@), condarc_all_dirs(rc_contents@.map_values(|c: String| c@), opt_view(environment.user_home))),
            opt_view(r.environments_txt) == (match self.home {
                Some(h) => Some(environments_txt_spec(h@)),
                None => None,
            }),
            r.environments_txt_exists == (match self.home {
                Some(h) => Some(views(facts.existing@).contains(environments_txt_spec(h@))),
                None => None,
            }),
            views(r.environments_from_txt@) == present_in(
                listed_envs(lines_spec(environments_txt@)),
                views(facts.existing@),
            ),
            r.user_provided_env_found == (match *conda_executable {
                Some(exe) => match conda_dir_from_exe_spec(exe@, *facts) {
                    Some(dir) => Some(views(envs_found@).contains(dir)),
                    None => None,
                },
                None => None,
            }),
            r.executable == (match *info {
                Some(i) => Some(i.executable),
                None => None,
            }),
            r.conda_version == (match *info {
                Some(i) => if i.conda_version@.len() > 0 {
                    Some(i.conda_version)
                } else {
                    None
                },
                None => None,
            }),
            r.root_prefix == (match *info {
                Some(i) => i.root_prefix,
                None => None,
            }),
            r.conda_prefix == (match *info {
                Some(i) => i.conda_prefix,
                None => None,
            }),
    {
        let rc_paths = get_conda_rc_search_paths(environment, host);
        let conda_rcs = keep_present(&rc_paths, &facts.existing);
        let env_dirs = get_conda_rc_env_dirs(rc_contents, &environment.user_home);
        let txt = match &self.home {
            Some(h) => {
                let dot = join(h.as_str(), ".conda");
                Some(join(dot.as_str(), "environments.txt"))
            },
            None => None,
        };
        let txt_exists = match &txt {
            Some(p) => Some(contains_path(&facts.existing, p.as_str())),
            None => None,
        };
        let environments_from_txt = get_conda_envs_from_environment_txt(environments_txt, facts);
        let user_provided_env_found = match conda_executable {
            Some(exe) => match get_conda_dir_from_exe_path(exe.as_str(), facts) {
                Some(dir) => Some(contains_path(envs_found, dir.as_str())),
                None => None,
            },
            None => None,
        };
        let (executable, conda_version, root_prefix, conda_prefix) = match info {
            Some(i) => {
                let version = if i.conda_version.unicode_len() > 0 {
                    Some(i.conda_version.clone())
                } else {
                    None
                };
                (Some(i.executable.clone()), version, clone_opt_string(&i.root_prefix), clone_opt_string(&i.conda_prefix))
            },
            None => (None, None, None, None),
        };
        CondaTelemetryInfo {
            can_spawn_conda: info.is_some(),
            conda_rcs,
            env_dirs,
            environments_txt: txt,
            environments_txt_exists: txt_exists,
            user_provided_env_found,
            environments_from_txt,
            executable,
            conda_version,
            root_prefix,
            conda_prefix,
        }
    }
}

} // verus!
