//! Process configuration: directory layout of the photo library, server
//! parameters, and the media-transcoding options every worker shares.
//!
//! A `Settings` value is built once at startup, is never mutated, and is
//! handed by shared reference to the dispatcher and to every worker.

use vstd::prelude::*;
use crate::paths::{join_path, path_join};

verus! {

#[derive(Clone, Debug)]
pub struct Server {
    pub address: String,
    pub public_dir: String,
    pub index_file: String,
    pub graphiql: bool,
    pub ssl: bool,
    pub cert: String,
    pub key: String,
}

#[derive(Clone, Debug)]
pub struct Photos {
    pub library: String,
    pub database: String,
    pub originals: String,
    pub renders: String,
    pub resized: String,
    pub thumbs: String,
}

#[derive(Clone, Debug)]
pub struct App {
    pub database: String,
}

#[derive(Clone, Debug)]
pub struct FFmpeg {
    pub bin: String,
    pub probe: String,
    pub sdr: Vec<String>,
    pub hdr: Vec<String>,
}

#[derive(Clone, Debug)]
pub struct Media {
    pub transcode_videos: bool,
    pub ffmpeg: FFmpeg,
    pub workers: usize,
    pub videos_path: String,
}

#[derive(Clone, Debug)]
pub struct Settings {
    pub photos: Photos,
    pub server: Server,
    pub app: App,
    pub media: Media,
}

/// A string that cannot be changed by tilde expansion: one that does not
/// begin with `~`.
pub open spec fn tilde_free(s: Seq<char>) -> bool {
    s.len() == 0 || s[0] != '~'
}

/// Relies on shellexpand::tilde: only an input beginning with `~` is
/// rewritten; any other input comes back unchanged.
#[verifier::external_body]
fn expand_tilde(s: &str) -> (r: String)
    ensures
        tilde_free(s@) ==> r@ == s@,
{
    shellexpand::tilde(s).into_owned()
}

impl App {
    /// The app database path, with a leading `~` expanded to the home
    /// directory.
    pub fn database_url(&self) -> (r: String)
        ensures
            tilde_free(self.database@) ==> r@ == self.database@,
    {
        expand_tilde(self.database.as_str())
    }
}

impl Photos {
    /// A directory under the photo library root: the expanded library
    /// path with `subdir` pushed onto it.
    fn dir_to(&self, subdir: &String) -> (r: String)
        ensures
            tilde_free(self.library@) ==> r@ == path_join(self.library@, subdir@),
    {
        let lib = expand_tilde(self.library.as_str());
        join_path(lib.as_str(), subdir.as_str())
    }

    pub fn originals_dir(&self) -> (r: String)
        ensures
            tilde_free(self.library@) ==> r@ == path_join(self.library@, self.originals@),
    {
        self.dir_to(&self.originals)
    }

    pub fn renders_dir(&self) -> (r: String)
        ensures
            tilde_free(self.library@) ==> r@ == path_join(self.library@, self.renders@),
    {
        self.dir_to(&self.renders)
    }

    pub fn resized_dir(&self) -> (r: String)
        ensures
            tilde_free(self.library@) ==> r@ == path_join(self.library@, self.resized@),
    {
        self.dir_to(&self.resized)
    }

    pub fn thumbs_dir(&self) -> (r: String)
        ensures
            tilde_free(self.library@) ==> r@ == path_join(self.library@, self.thumbs@),
    {
        self.dir_to(&self.thumbs)
    }

    /// The photos database path, with a leading `~` expanded to the home
    /// directory.
    pub fn database_url(&self) -> (r: String)
        ensures
            tilde_free(self.database@) ==> r@ == self.database@,
    {
        expand_tilde(self.database.as_str())
    }
}

impl Settings {
    /// The configuration file read when none is named on the command line.
    pub fn default_file() -> (r: &'static str)
        ensures
            r@ == "settings.yml"@,
    {
        "settings.yml"
    }
}

} // verus!
