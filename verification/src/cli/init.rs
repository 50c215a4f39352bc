//! `bmo init`.

use vstd::prelude::*;

use crate::config::{Config, ConfigView};
use crate::model::issue::opt_text;
use crate::text::clone_opt_string;

verus! {

/// The arguments of `bmo init`: the project's name, if given.
#[derive(Debug)]
pub struct InitArgs {
    pub name: Option<String>,
}

impl InitArgs {
    /// The settings a new project starts with: its name, nothing else.
    pub fn initial_config(&self) -> (r: Config)
        ensures
            r@ == (ConfigView { project_name: opt_text(self.name), default_assignee: None, web_port: None, web_host: None }),
    {
        let mut c = Config::default();
        c.project_name = clone_opt_string(&self.name);
        c
    }
}

} // verus!
