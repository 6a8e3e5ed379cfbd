//! A file-system based router: the routes of an app directory and the
//! configuration that its pages are rendered with.
use vstd::prelude::*;
use crate::config::{RenderConfig, is_default_config};

pub mod discovery;
pub mod layout;

verus! {

/// A router over the pages of an app directory, rendered with a configuration.
pub struct JsxRouter {
    app_dir: String,
    config: RenderConfig,
}

impl JsxRouter {
    /// A router over `app_dir` with the default configuration.
    pub fn new(app_dir: String) -> (r: JsxRouter)
        ensures
            r.app_dir() == app_dir@,
            is_default_config(r.config()),
    {
        JsxRouter { app_dir, config: RenderConfig::default() }
    }

    /// The same router with `config`.
    pub fn with_config(self, config: RenderConfig) -> (r: JsxRouter)
        ensures
            r.app_dir() == self.app_dir(),
            r.config() == config,
    {
        JsxRouter { app_dir: self.app_dir, config }
    }

    pub closed spec fn app_dir(&self) -> Seq<char> {
        self.app_dir@
    }

    pub closed spec fn config(&self) -> RenderConfig {
        self.config
    }

    /// The app directory.
    pub fn app_dir_path(&self) -> (r: &String)
        ensures
            r@ == self.app_dir(),
    {
        &self.app_dir
    }

    /// The configuration that pages are rendered with.
    pub fn render_config(&self) -> (r: &RenderConfig)
        ensures
            *r == self.config(),
    {
        &self.config
    }
}

} // verus!
