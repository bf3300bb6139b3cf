//! The settings of a user.

use vstd::prelude::*;
use vstd::string::*;

use crate::path_ext::{join, push_part};
use crate::text::opt_text;

verus! {

#[derive(Debug)]
pub struct ConfigContent {
    pub token: Option<String>,
}

#[derive(Debug)]
pub struct Config {
    path: String,
    content: ConfigContent,
}

impl Config {
    /// The name of the file that the settings are kept in.
    pub const FILE_NAME: &'static str = "config.json";

    /// The file that the settings are kept in.
    pub closed spec fn location(&self) -> Seq<char> {
        self.path@
    }

    /// The token that is kept, where there is one.
    pub closed spec fn kept_token(&self) -> Option<Seq<char>> {
        opt_text(self.content.token)
    }

    /// The settings kept in the directory `scafalra_dir`, which hold
    /// `content`.
    pub fn new(scafalra_dir: &str, content: ConfigContent) -> (config: Config)
        ensures
            config.location() == join(scafalra_dir@, Config::FILE_NAME@),
            config.kept_token() == opt_text(content.token),
    {
        let mut path = String::from_str(scafalra_dir);
        push_part(&mut path, Config::FILE_NAME);
        Config { path, content }
    }

    /// What is to be written when the settings are saved.
    pub fn save(&self) -> (content: &ConfigContent)
        ensures
            opt_text(content.token) == self.kept_token(),
    {
        &self.content
    }

    /// The file that the settings are kept in.
    pub fn path(&self) -> (path: &String)
        ensures
            path@ == self.location(),
    {
        &self.path
    }

    pub fn set_token(&mut self, token: &str)
        ensures
            final(self).kept_token() == Some(token@),
            final(self).location() == old(self).location(),
    {
        self.content.token = Some(String::from_str(token));
    }

    pub fn token(&self) -> (token: Option<&str>)
        ensures
            match token {
                Some(text) => self.kept_token() == Some(text@),
                None => self.kept_token() is None,
            },
    {
        match &self.content.token {
            Some(token) => Some(token.as_str()),
            None => None,
        }
    }
}

} // verus!
