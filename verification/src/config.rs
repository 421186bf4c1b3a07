//! The configuration of a running application: where its files live and what
//! it is called.

use vstd::prelude::*;
use crate::images::images_directory;
use crate::paths::{joined, resolve};

verus! {

/// The settings of an application as plain text.
pub struct Settings {
    /// The directory of the tag map, the sort map and the images.
    pub config_dir: Seq<char>,
    /// The directory that holds one subdirectory per board.
    pub tasks_dir: Seq<char>,
    /// The title to display.
    pub title: Seq<char>,
}

/// The two maps kept beside the boards.
#[derive(Clone, Copy, Debug, PartialEq, Eq, Structural)]
pub enum StoreKind {
    /// Tags and colours, by logical path.
    Tags,
    /// Sort orders, by logical path.
    Sort,
}

/// The name of the file that holds a map.
pub open spec fn store_file(kind: StoreKind) -> Seq<char> {
    match kind {
        StoreKind::Tags => "tags.json"@,
        StoreKind::Sort => "sort.json"@,
    }
}

/// The configuration of an application. It is set once and read from then
/// on.
#[derive(Clone, Debug, PartialEq, Eq)]
pub struct AppState {
    config_dir: String,
    tasks_dir: String,
    title: String,
}

impl View for AppState {
    type V = Settings;

    closed spec fn view(&self) -> Settings {
        Settings { config_dir: self.config_dir@, tasks_dir: self.tasks_dir@, title: self.title@ }
    }
}

/// The text of a setting: the value given, or the default where none is.
pub open spec fn setting(given: Option<String>, default: Seq<char>) -> Seq<char> {
    match given {
        Some(text) => text@,
        None => default,
    }
}

impl AppState {
    /// The configuration with exactly these settings.
    pub fn new(config_dir: String, tasks_dir: String, title: String) -> (state: AppState)
        ensures
            state@ == (Settings { config_dir: config_dir@, tasks_dir: tasks_dir@, title: title@ }),
    {
        AppState { config_dir, tasks_dir, title }
    }

    /// The configuration with the given settings, and the defaults where
    /// none is given: `config` and `tasks` for the two directories, and no
    /// title.
    pub fn with_defaults(
        config_dir: Option<String>,
        tasks_dir: Option<String>,
        title: Option<String>,
    ) -> (state: AppState)
        ensures
            state@ == (Settings {
                config_dir: setting(config_dir, "config"@),
                tasks_dir: setting(tasks_dir, "tasks"@),
                title: setting(title, Seq::empty()),
            }),
    {
        let config_dir = match config_dir {
            Some(text) => text,
            None => "config".to_owned(),
        };
        let tasks_dir = match tasks_dir {
            Some(text) => text,
            None => "tasks".to_owned(),
        };
        let title = match title {
            Some(text) => text,
            None => String::new(),
        };
        AppState { config_dir, tasks_dir, title }
    }

    /// The configuration directory.
    pub fn config_dir(&self) -> (dir: &str)
        ensures
            dir@ == self@.config_dir,
    {
        self.config_dir.as_str()
    }

    /// The directory of the boards.
    pub fn tasks_dir(&self) -> (dir: &str)
        ensures
            dir@ == self@.tasks_dir,
    {
        self.tasks_dir.as_str()
    }

    /// The title to display.
    pub fn get_title(&self) -> (title: String)
        ensures
            title@ == self@.title,
    {
        self.title.clone()
    }

    /// The file that holds the map of the given kind.
    pub fn store_path(&self, kind: StoreKind) -> (path: String)
        ensures
            path@ == joined(self@.config_dir, store_file(kind)),
    {
        match kind {
            StoreKind::Tags => resolve(self.config_dir.as_str(), "tags.json"),
            StoreKind::Sort => resolve(self.config_dir.as_str(), "sort.json"),
        }
    }

    /// The place that a logical path names below the directory of the
    /// boards.
    pub fn resource_path(&self, logical: &str) -> (path: String)
        ensures
            path@ == joined(self@.tasks_dir, logical@),
    {
        resolve(self.tasks_dir.as_str(), logical)
    }

    /// The directory of the stored images.
    pub fn images_dir(&self) -> (directory: String)
        ensures
            directory@ == images_directory(self@.config_dir),
    {
        crate::images::images_dir(self.config_dir.as_str())
    }

    /// The file that holds the image stored under `name`.
    pub fn image_path(&self, name: &str) -> (path: String)
        ensures
            path@ == joined(images_directory(self@.config_dir), name@),
    {
        crate::images::image_path(self.config_dir.as_str(), name)
    }
}

impl Default for AppState {
    /// The configuration with every setting empty.
    fn default() -> (state: AppState)
        ensures
            state@ == (Settings {
                config_dir: Seq::empty(),
                tasks_dir: Seq::empty(),
                title: Seq::empty(),
            }),
    {
        AppState { config_dir: String::new(), tasks_dir: String::new(), title: String::new() }
    }
}

} // verus!
